use wimlam::app::input::{
    read_input, set_console_to_input_mode, InputRecord, KEY_EVENT, LEFT_ALT_PRESSED,
    LEFT_CTRL_PRESSED, RIGHT_ALT_PRESSED, RIGHT_CTRL_PRESSED, SHIFT_PRESSED,
};

fn key_up(virtual_key_code: u16, control_key_state: u32) -> InputRecord {
    InputRecord { event_type: KEY_EVENT, key_down: false, virtual_key_code, control_key_state }
}

#[test]
fn raw_mode_switches_the_four_inputs_on() {
    assert_eq!(set_console_to_input_mode(0), 0x99);
    assert_eq!(set_console_to_input_mode(0x99), 0x99);
    assert_eq!(set_console_to_input_mode(0x1f7), 0x1ff);
    assert_eq!(set_console_to_input_mode(0x6), 0x9f);
}

#[test]
fn a_released_key_is_captured_with_the_held_modifiers() {
    let captured = read_input(1, &key_up(0x41, LEFT_CTRL_PRESSED | SHIFT_PRESSED)).unwrap();
    assert_eq!(captured.trigger_key, 0x41);
    assert_eq!(captured.modifiers, vec![0xA2, 0x10]);
    let alone = read_input(1, &key_up(0x74, 0)).unwrap();
    assert_eq!(alone.trigger_key, 0x74);
    assert!(alone.modifiers.is_empty());
}

#[test]
fn held_modifiers_come_in_a_fixed_order() {
    let all = RIGHT_ALT_PRESSED
        | LEFT_ALT_PRESSED
        | RIGHT_CTRL_PRESSED
        | LEFT_CTRL_PRESSED
        | SHIFT_PRESSED;
    let captured = read_input(3, &key_up(0x20, all | 0x100)).unwrap();
    assert_eq!(captured.modifiers, vec![0xA5, 0xA4, 0xA3, 0xA2, 0x10]);
    let right = read_input(1, &key_up(0x20, RIGHT_ALT_PRESSED | RIGHT_CTRL_PRESSED)).unwrap();
    assert_eq!(right.modifiers, vec![0xA5, 0xA3]);
    let other_bits = read_input(1, &key_up(0x20, 0x20 | 0x40 | 0x80)).unwrap();
    assert!(other_bits.modifiers.is_empty());
}

#[test]
fn nothing_is_captured_without_a_released_key() {
    assert!(read_input(0, &key_up(0x41, 0)).is_none());
    let pressed = InputRecord { key_down: true, ..key_up(0x41, 0) };
    assert!(read_input(1, &pressed).is_none());
    let mouse = InputRecord { event_type: 2, ..key_up(0x41, 0) };
    assert!(read_input(1, &mouse).is_none());
}
