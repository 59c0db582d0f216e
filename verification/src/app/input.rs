//! Keyboard input: key presses as the menus read them, and the raw console
//! events from which a keybind is captured.

use vstd::prelude::*;

verus! {

/// A key press, as far as the menus tell keys apart.
#[derive(Debug, Clone, Copy, PartialEq, Eq, Structural)]
pub enum Key {
    Enter,
    Left,
    Right,
    Up,
    Down,
    Esc,
    Delete,
    Char(char),
    Other,
}

/// Console mode bit: Ctrl+C and the like are handled by the system.
pub const ENABLE_PROCESSED_INPUT: u32 = 0x1;

/// Console mode bit: changes of the window size are reported.
pub const ENABLE_WINDOW_INPUT: u32 = 0x8;

/// Console mode bit: mouse events are reported.
pub const ENABLE_MOUSE_INPUT: u32 = 0x10;

/// Console mode bit: the extended flags are in force.
pub const ENABLE_EXTENDED_FLAGS: u32 = 0x80;

/// Event type of a console input record that holds a key event.
pub const KEY_EVENT: u16 = 0x1;

/// Control key state bit: the right Alt key is held.
pub const RIGHT_ALT_PRESSED: u32 = 0x1;

/// Control key state bit: the left Alt key is held.
pub const LEFT_ALT_PRESSED: u32 = 0x2;

/// Control key state bit: the right Ctrl key is held.
pub const RIGHT_CTRL_PRESSED: u32 = 0x4;

/// Control key state bit: the left Ctrl key is held.
pub const LEFT_CTRL_PRESSED: u32 = 0x8;

/// Control key state bit: a Shift key is held.
pub const SHIFT_PRESSED: u32 = 0x10;

/// Virtual-key code of the right Alt key.
pub const VK_RMENU: u16 = 0xA5;

/// Virtual-key code of the left Alt key.
pub const VK_LMENU: u16 = 0xA4;

/// Virtual-key code of the right Ctrl key.
pub const VK_RCONTROL: u16 = 0xA3;

/// Virtual-key code of the left Ctrl key.
pub const VK_LCONTROL: u16 = 0xA2;

/// Virtual-key code of Shift.
pub const VK_SHIFT: u16 = 0x10;

/// The console mode in which raw key events arrive: `mode` with the
/// extended flags, window, mouse and processed input switched on.
pub fn set_console_to_input_mode(mode: u32) -> (raw: u32)
    ensures
        raw == mode | ENABLE_EXTENDED_FLAGS | ENABLE_WINDOW_INPUT | ENABLE_MOUSE_INPUT
            | ENABLE_PROCESSED_INPUT,
{
    let mut mode = mode;
    mode = mode | ENABLE_EXTENDED_FLAGS | ENABLE_WINDOW_INPUT | ENABLE_MOUSE_INPUT;
    // keep keyboard input alive
    mode = mode | ENABLE_PROCESSED_INPUT;
    mode
}

/// What a console input record holds of a key event.
#[derive(Debug, Clone, Copy, PartialEq, Eq, Structural)]
pub struct InputRecord {
    pub event_type: u16,
    pub key_down: bool,
    pub virtual_key_code: u16,
    pub control_key_state: u32,
}

/// The keys of a captured keybind, by virtual-key code.
#[derive(Debug)]
pub struct CapturedKeys {
    pub trigger_key: u16,
    pub modifiers: Vec<u16>,
}

/// `keys` with `key` behind them where `flag` is set in `state`.
pub open spec fn with_held(keys: Seq<u16>, state: u32, flag: u32, key: u16) -> Seq<u16> {
    if flag & state != 0 {
        keys.push(key)
    } else {
        keys
    }
}

/// The modifier keys that a control key state reports as held: right Alt,
/// left Alt, right Ctrl, left Ctrl, Shift, in this order.
pub open spec fn held_modifiers(state: u32) -> Seq<u16> {
    with_held(
        with_held(
            with_held(
                with_held(
                    with_held(Seq::empty(), state, RIGHT_ALT_PRESSED, VK_RMENU),
                    state,
                    LEFT_ALT_PRESSED,
                    VK_LMENU,
                ),
                state,
                RIGHT_CTRL_PRESSED,
                VK_RCONTROL,
            ),
            state,
            LEFT_CTRL_PRESSED,
            VK_LCONTROL,
        ),
        state,
        SHIFT_PRESSED,
        VK_SHIFT,
    )
}

/// Whether a read of `read` records, the first of them `record`, captures a
/// keybind: it does when a key was released.
pub open spec fn captures(read: u32, record: InputRecord) -> bool {
    read != 0 && record.event_type == KEY_EVENT && !record.key_down
}

fn push_held(modifiers: &mut Vec<u16>, state: u32, flag: u32, key: u16)
    ensures
        final(modifiers)@ == with_held(old(modifiers)@, state, flag, key),
{
    if flag & state != 0 {
        modifiers.push(key);
    }
}

/// The keybind that a raw console read gives: the released key as
/// trigger, with the modifier keys that were held.
pub fn read_input(read: u32, record: &InputRecord) -> (captured: Option<CapturedKeys>)
    ensures
        captures(read, *record) ==> captured is Some && captured->0.trigger_key
            == record.virtual_key_code && captured->0.modifiers@ == held_modifiers(
            record.control_key_state,
        ),
        !captures(read, *record) ==> captured is None,
{
    if read == 0 {
        return None;
    }
    if record.event_type == KEY_EVENT {
        let down = record.key_down;
        if !down {
            let trigger_key = record.virtual_key_code;
            let state = record.control_key_state;
            let mut modifiers: Vec<u16> = Vec::new();
            push_held(&mut modifiers, state, RIGHT_ALT_PRESSED, VK_RMENU);
            push_held(&mut modifiers, state, LEFT_ALT_PRESSED, VK_LMENU);
            push_held(&mut modifiers, state, RIGHT_CTRL_PRESSED, VK_RCONTROL);
            push_held(&mut modifiers, state, LEFT_CTRL_PRESSED, VK_LCONTROL);
            push_held(&mut modifiers, state, SHIFT_PRESSED, VK_SHIFT);
            return Some(CapturedKeys { modifiers, trigger_key });
        }
    }
    None
}

} // verus!
