use wimlam::display_settings::{DisplayOrientation, DisplaySettings, Pos};
use wimlam::error::ThisError;
use wimlam::monitor::Monitor;
use wimlam::preset::{Keybind, Preset, SettingsMap, VirtualKey};
use wimlam::{is_headless, kill_others, Data, PresetId, Process, HEADLESS_ARG};

fn preset(name: &str) -> Preset {
    let mut map = SettingsMap::new();
    map.insert(
        name.to_string(),
        DisplaySettings {
            position: Pos { x: 0, y: 0 },
            orientation: DisplayOrientation::Landscape,
        },
    );
    Preset { keybind: None, map }
}

fn keybind() -> Keybind {
    Keybind {
        trigger_key: VirtualKey { code: 0x41, name: "VK_A".to_string() },
        modifiers: vec![VirtualKey { code: 0x11, name: "VK_CONTROL".to_string() }],
    }
}

fn id(index: usize) -> PresetId {
    PresetId { index }
}

fn data(names: &[&str]) -> Data {
    Data::new(
        vec![Monitor { name: "A".to_string(), device: 0 }],
        names.iter().map(|name| preset(name)).collect(),
    )
}

#[test]
fn store_starts_with_the_loaded_presets_in_order() {
    let data = data(&["first", "second", "third"]);
    assert_eq!(data.monitors.len(), 1);
    assert_eq!(data.presets.len(), 3);
    assert_eq!(data.live(), vec![id(0), id(1), id(2)]);
    assert_eq!(data.name(id(0)), "first,0/0,Landscape");
    assert_eq!(data.name(id(2)), "third,0/0,Landscape");
    assert_eq!(data.name(id(3)), "");
    assert!(data.preset(id(1)).is_some());
    assert!(data.preset(id(3)).is_none());
}

#[test]
fn push_appends_and_hands_out_the_next_handle() {
    let mut data = data(&["first"]);
    assert_eq!(data.push(preset("second")), id(1));
    assert_eq!(data.push(preset("third")), id(2));
    assert_eq!(data.live(), vec![id(0), id(1), id(2)]);
    assert_eq!(data.name(id(1)), "second,0/0,Landscape");
}

#[test]
fn delete_removes_by_handle_and_keeps_the_other_handles() {
    let mut data = data(&["same", "same", "last"]);
    assert_eq!(data.delete(id(1)), Ok(()));
    assert_eq!(data.live(), vec![id(0), id(2)]);
    assert_eq!(data.name(id(0)), "same,0/0,Landscape");
    assert_eq!(data.name(id(2)), "last,0/0,Landscape");
    assert_eq!(data.name(id(1)), "same,0/0,Landscape");
    assert!(data.presets[1].deleted);
    assert!(!data.presets[0].deleted);
}

#[test]
fn delete_of_a_deleted_or_unknown_preset_fails() {
    let mut data = data(&["first", "second"]);
    assert_eq!(data.delete(id(0)), Ok(()));
    assert_eq!(data.delete(id(0)), Err(ThisError::PresetNotFound));
    assert_eq!(data.delete(id(2)), Err(ThisError::PresetNotFound));
    assert_eq!(data.live(), vec![id(1)]);
}

#[test]
fn keybind_is_set_and_cleared_by_handle() {
    let mut data = data(&["first", "second"]);
    assert_eq!(data.set_keybind(id(1), Some(keybind())), Ok(()));
    assert!(data.presets[0].preset.keybind.is_none());
    assert_eq!(data.presets[1].preset.keybind.as_ref().unwrap().to_string(), "CONTROL+A");
    assert_eq!(data.set_keybind(id(1), None), Ok(()));
    assert!(data.presets[1].preset.keybind.is_none());
    assert_eq!(data.set_keybind(id(2), Some(keybind())), Err(ThisError::PresetNotFound));
}

#[test]
fn hotkeys_are_the_live_presets_with_a_keybind() {
    let mut data = data(&["first", "second", "third", "fourth"]);
    assert_eq!(data.hotkeys(), Vec::new());
    data.set_keybind(id(0), Some(keybind())).unwrap();
    data.set_keybind(id(2), Some(keybind())).unwrap();
    data.set_keybind(id(3), Some(keybind())).unwrap();
    assert_eq!(data.hotkeys(), vec![id(0), id(2), id(3)]);
    data.delete(id(2)).unwrap();
    assert_eq!(data.hotkeys(), vec![id(0), id(3)]);
}

#[test]
fn headless_is_asked_for_by_its_argument() {
    assert_eq!(HEADLESS_ARG, "--headless");
    assert!(is_headless(&vec!["wimlam.exe".to_string(), "--headless".to_string()]));
    assert!(is_headless(&vec!["--headless".to_string()]));
    assert!(!is_headless(&vec!["wimlam.exe".to_string()]));
    assert!(!is_headless(&vec!["wimlam.exe".to_string(), "--Headless".to_string()]));
    assert!(!is_headless(&vec!["wimlam.exe".to_string(), "--headless ".to_string()]));
    assert!(!is_headless(&Vec::new()));
}

#[test]
fn other_instances_are_those_with_the_same_executable() {
    let processes = vec![
        Process { pid: 10, exe: Some("C:\\wimlam.exe".to_string()) },
        Process { pid: 11, exe: Some("C:\\other.exe".to_string()) },
        Process { pid: 12, exe: None },
        Process { pid: 13, exe: Some("C:\\wimlam.exe".to_string()) },
        Process { pid: 14, exe: Some("C:\\wimlam.exe".to_string()) },
    ];
    assert_eq!(kill_others(&processes, "C:\\wimlam.exe", 13), vec![10, 14]);
    assert_eq!(kill_others(&processes, "C:\\wimlam.exe", 99), vec![10, 13, 14]);
    assert_eq!(kill_others(&processes, "C:\\none.exe", 13), Vec::<u32>::new());
    assert_eq!(kill_others(&Vec::new(), "C:\\wimlam.exe", 13), Vec::<u32>::new());
}
