use wimlam::app::action::{Action, ActionType};
use wimlam::app::input::Key;
use wimlam::app::menu::main::MenuMain;
use wimlam::app::menu::manage_preset::MenuManagePreset;
use wimlam::app::menu::preset_list::MenuPresetList;
use wimlam::app::menu::AnyMenu;
use wimlam::app::{startup_script, App, Content, Mode, Outcome, Request, Step};
use wimlam::display_settings::{DisplayOrientation, DisplaySettings, Pos};
use wimlam::error::ThisError;
use wimlam::monitor::Monitor;
use wimlam::preset::{Keybind, Preset, SettingsMap, VirtualKey};
use wimlam::{Data, PresetId};

fn settings(x: i32) -> DisplaySettings {
    DisplaySettings { position: Pos { x, y: 0 }, orientation: DisplayOrientation::Landscape }
}

fn preset(name: &str) -> Preset {
    let mut map = SettingsMap::new();
    map.insert(name.to_string(), settings(0));
    Preset { keybind: None, map }
}

fn app(monitors: &[&str], presets: &[&str]) -> App {
    let monitors = monitors
        .iter()
        .enumerate()
        .map(|(device, name)| Monitor { name: name.to_string(), device })
        .collect();
    App::new(Data::new(monitors, presets.iter().map(|name| preset(name)).collect()))
}

fn id(index: usize) -> PresetId {
    PresetId { index }
}

fn keybind() -> Keybind {
    Keybind {
        trigger_key: VirtualKey { code: 0x41, name: "VK_A".to_string() },
        modifiers: vec![VirtualKey { code: 0x11, name: "VK_CONTROL".to_string() }],
    }
}

fn names(actions: &[Action]) -> Vec<String> {
    actions.iter().map(|action| action.name.clone()).collect()
}

fn message(app: &App) -> Option<String> {
    match &app.mode {
        Mode::Message(text) => Some(text.clone()),
        _ => None,
    }
}

fn is_normal(app: &App) -> bool {
    matches!(app.mode, Mode::Normal)
}

fn asked(result: Result<Request, ThisError>) -> String {
    format!("{:?}", result)
}

fn press(app: &mut App, keys: &[Key]) {
    for key in keys {
        assert_eq!(asked(app.handle_key(*key)), "Ok(Nothing)");
    }
}

/// Opens the menu of preset `index` from the main menu of a fresh engine.
fn open_preset(app: &mut App, index: usize) {
    assert_eq!(
        asked(app.handle_action(ActionType::OpenMenu(AnyMenu::PresetList(MenuPresetList)))),
        "Ok(Nothing)"
    );
    assert_eq!(
        asked(app.handle_action(ActionType::OpenMenu(AnyMenu::ManagePreset(MenuManagePreset {
            preset: id(index),
        })))),
        "Ok(Nothing)"
    );
}

#[test]
fn the_engine_starts_on_the_main_menu() {
    let app = app(&["A"], &["one"]);
    assert!(is_normal(&app));
    assert!(!app.should_exit);
    assert!(!app.is_waiting());
    assert_eq!(app.path.len(), 1);
    assert_eq!(app.path[0].menu, AnyMenu::Main(MenuMain));
    assert_eq!(app.path[0].selected, Some(0));
    assert_eq!(app.current_menu().unwrap().actions.len(), 4);
    assert_eq!(app.console_mode, 0);
}

#[test]
fn going_back_ends_the_program_on_the_last_menu_and_not_before() {
    for pushed in 0..5usize {
        let mut app = app(&["A"], &["one"]);
        for n in 0..pushed {
            let menu = if n % 2 == 0 {
                AnyMenu::PresetList(MenuPresetList)
            } else {
                AnyMenu::ManagePreset(MenuManagePreset { preset: id(0) })
            };
            assert_eq!(asked(app.handle_action(ActionType::OpenMenu(menu))), "Ok(Nothing)");
        }
        assert_eq!(app.path.len(), pushed + 1);
        for back in 0..pushed {
            assert!(!app.should_exit);
            app.go_back();
            assert_eq!(app.path.len(), pushed - back);
        }
        assert!(!app.should_exit);
        app.go_back();
        assert!(app.should_exit);
        assert!(app.path.is_empty());
        assert!(app.current_menu().is_none());
    }
}

#[test]
fn going_back_by_key_pops_one_menu() {
    let mut app = app(&["A"], &["one"]);
    open_preset(&mut app, 0);
    press(&mut app, &[Key::Left]);
    assert_eq!(app.path.len(), 2);
    press(&mut app, &[Key::Char('h')]);
    assert_eq!(app.path.len(), 1);
    assert!(!app.should_exit);
    press(&mut app, &[Key::Left]);
    assert!(app.should_exit);
}

#[test]
fn going_back_on_an_empty_stack_ends_the_program() {
    let mut app = app(&[], &[]);
    app.go_back();
    assert!(app.should_exit);
    app.should_exit = false;
    app.go_back();
    assert!(app.should_exit);
    assert!(app.path.is_empty());
    press(&mut app, &[Key::Enter, Key::Down]);
}

#[test]
fn quit_keys_end_the_program_at_any_depth() {
    for key in [Key::Char('q'), Key::Esc] {
        let mut app = app(&["A"], &["one"]);
        open_preset(&mut app, 0);
        press(&mut app, &[key]);
        assert!(app.should_exit);
        assert_eq!(app.path.len(), 3);
    }
}

#[test]
fn keys_reach_the_top_menu() {
    let mut app = app(&["A"], &["one"]);
    press(&mut app, &[Key::Down, Key::Enter]);
    assert_eq!(app.path.len(), 2);
    assert_eq!(app.path[0].selected, Some(1));
    assert_eq!(app.path[1].menu, AnyMenu::PresetList(MenuPresetList));
    press(&mut app, &[Key::Enter]);
    assert_eq!(app.path.len(), 3);
    assert_eq!(app.path[2].menu, AnyMenu::ManagePreset(MenuManagePreset { preset: id(0) }));
    press(&mut app, &[Key::Down, Key::Down, Key::Down, Key::Char('l')]);
    assert_eq!(app.path.len(), 2);
}

#[test]
fn deleting_goes_back_before_the_message_is_shown() {
    let mut app = app(&["A"], &["one", "two"]);
    open_preset(&mut app, 0);
    let delete = app.path[2].actions[2].action_type.clone();
    assert_eq!(delete.len(), 3);

    assert_eq!(asked(app.handle_action(delete[0].clone())), "Ok(Persist)");
    assert!(app.is_waiting());
    assert_eq!(app.data.live(), vec![id(1)]);
    assert_eq!(app.path.len(), 3);
    assert!(is_normal(&app));
    assert_eq!(asked(app.resume(Outcome::Done)), "Ok(Nothing)");
    assert!(!app.is_waiting());

    assert_eq!(asked(app.handle_action(delete[1].clone())), "Ok(Nothing)");
    assert_eq!(app.path.len(), 2);
    assert!(is_normal(&app));

    assert_eq!(asked(app.handle_action(delete[2].clone())), "Ok(Nothing)");
    assert_eq!(app.path.len(), 2);
    assert_eq!(message(&app).unwrap(), "Preset one,0/0,Landscape successfully deleted");
}

#[test]
fn deleting_by_key_removes_saves_goes_back_and_confirms() {
    let mut app = app(&["A"], &["one", "two"]);
    open_preset(&mut app, 0);
    press(&mut app, &[Key::Down, Key::Down]);
    assert_eq!(asked(app.handle_key(Key::Enter)), "Ok(Persist)");
    assert!(app.is_waiting());
    assert_eq!(app.waiting.as_ref().unwrap().step, Step::Persist);
    assert_eq!(app.waiting.as_ref().unwrap().rest.len(), 2);
    assert_eq!(app.data.live(), vec![id(1)]);
    assert_eq!(app.path.len(), 3);
    assert!(is_normal(&app));

    assert_eq!(asked(app.resume(Outcome::Done)), "Ok(Nothing)");
    assert!(!app.is_waiting());
    assert_eq!(app.path.len(), 2);
    assert_eq!(message(&app).unwrap(), "Preset one,0/0,Landscape successfully deleted");
    assert_eq!(names(&app.path[1].actions), vec!["two,0/0,Landscape", "← Go back"]);

    press(&mut app, &[Key::Other]);
    assert!(is_normal(&app));
    assert_eq!(app.path.len(), 2);
}

#[test]
fn a_failed_save_drops_the_effects_that_follow_and_shows_the_failure() {
    let mut app = app(&["A"], &["one", "two"]);
    open_preset(&mut app, 0);
    press(&mut app, &[Key::Down, Key::Down]);
    assert_eq!(asked(app.handle_key(Key::Enter)), "Ok(Persist)");
    assert_eq!(asked(app.resume(Outcome::Failed(ThisError::Persistence))), "Err(Persistence)");
    assert!(!app.is_waiting());
    assert_eq!(app.path.len(), 3);
    assert_eq!(message(&app).unwrap(), "Failed to save changes");
    assert_eq!(app.data.live(), vec![id(1)]);
    assert!(!app.should_exit);

    press(&mut app, &[Key::Other]);
    assert!(is_normal(&app));
    assert_eq!(asked(app.handle_key(Key::Enter)), "Err(PresetNotFound)");
    assert_eq!(message(&app).unwrap(), "Preset not found");
    assert_eq!(app.path.len(), 3);
}

#[test]
fn dismissing_a_message_reloads_the_menu_under_it() {
    let mut app = app(&["A"], &["one"]);
    app.handle_action(ActionType::OpenMenu(AnyMenu::PresetList(MenuPresetList))).unwrap();
    assert_eq!(names(&app.path[1].actions), vec!["one,0/0,Landscape", "← Go back"]);
    app.data.push(preset("another"));
    app.handle_action(ActionType::DisplayMessage("hello".to_string())).unwrap();
    assert_eq!(message(&app).unwrap(), "hello");
    assert_eq!(names(&app.path[1].actions), vec!["one,0/0,Landscape", "← Go back"]);
    press(&mut app, &[Key::Char('q')]);
    assert!(is_normal(&app));
    assert!(!app.should_exit);
    assert_eq!(
        names(&app.path[1].actions),
        vec!["another,0/0,Landscape", "one,0/0,Landscape", "← Go back"]
    );
}

#[test]
fn going_back_leaves_a_message() {
    let mut app = app(&["A"], &["one"]);
    app.handle_action(ActionType::DisplayMessage("hello".to_string())).unwrap();
    app.go_back();
    assert!(is_normal(&app));
    assert_eq!(app.path.len(), 1);
    assert!(!app.should_exit);
}

#[test]
fn applying_asks_for_the_plan_and_then_confirms() {
    let mut app = app(&["B", "A"], &["A"]);
    open_preset(&mut app, 0);
    match app.handle_key(Key::Enter) {
        Ok(Request::Apply(plan)) => assert_eq!(plan, vec![(1, settings(0))]),
        other => panic!("{:?}", other),
    }
    assert_eq!(app.waiting.as_ref().unwrap().step, Step::Apply);
    assert!(is_normal(&app));
    assert_eq!(asked(app.resume(Outcome::Done)), "Ok(Nothing)");
    assert_eq!(message(&app).unwrap(), "Preset A,0/0,Landscape successfully applied");
    assert_eq!(app.path.len(), 3);
}

#[test]
fn applying_a_preset_of_an_absent_monitor_fails_before_any_work() {
    let mut app = app(&["B"], &["A"]);
    open_preset(&mut app, 0);
    assert_eq!(asked(app.handle_key(Key::Enter)), "Err(MonitorNotFound)");
    assert!(!app.is_waiting());
    assert_eq!(message(&app).unwrap(), "Monitor not found for preset");
}

#[test]
fn a_refused_change_is_shown_in_place_of_the_confirmation() {
    let mut app = app(&["A"], &["A"]);
    open_preset(&mut app, 0);
    assert!(matches!(app.handle_key(Key::Enter), Ok(Request::Apply(_))));
    let refused = Outcome::Failed(ThisError::DispChange(-2));
    assert_eq!(asked(app.resume(refused)), "Err(DispChange(-2))");
    assert_eq!(message(&app).unwrap(), "Failed to change display settings");
    assert!(!app.is_waiting());
    assert!(!app.should_exit);
}

#[test]
fn applying_an_unknown_preset_fails() {
    let mut app = app(&["A"], &["A"]);
    assert_eq!(asked(app.handle_action(ActionType::ApplyPreset(id(9)))), "Err(PresetNotFound)");
    assert_eq!(asked(app.handle_action(ActionType::DeletePreset(id(9)))), "Err(PresetNotFound)");
    assert_eq!(
        asked(app.handle_action(ActionType::ChangeHotkeyInput(id(9)))),
        "Err(PresetNotFound)"
    );
}

#[test]
fn saving_reads_the_layout_stores_it_saves_opens_its_menu_and_confirms() {
    let mut app = app(&["A", "B"], &["one"]);
    press(&mut app, &[Key::Down, Key::Down]);
    assert_eq!(asked(app.handle_key(Key::Enter)), "Ok(ReadLayout)");
    assert_eq!(app.waiting.as_ref().unwrap().rest.len(), 2);
    assert_eq!(app.data.presets.len(), 1);

    let layout = Outcome::Layout(vec![settings(0), settings(1920)]);
    assert_eq!(asked(app.resume(layout)), "Ok(Persist)");
    assert_eq!(app.data.presets.len(), 2);
    assert_eq!(app.data.name(id(1)), "A,0/0,Landscape B,1920/0,Landscape");
    assert!(app.data.presets[1].preset.keybind.is_none());
    assert_eq!(app.path.len(), 1);

    assert_eq!(asked(app.resume(Outcome::Done)), "Ok(Nothing)");
    assert_eq!(app.path.len(), 2);
    assert_eq!(app.path[1].menu, AnyMenu::ManagePreset(MenuManagePreset { preset: id(1) }));
    assert_eq!(message(&app).unwrap(), "Current config successfully saved as a new preset");

    press(&mut app, &[Key::Other, Key::Left]);
    assert_eq!(app.path.len(), 1);
    assert_eq!(asked(app.handle_key(Key::Enter)), "Ok(ReadLayout)");
    assert_eq!(asked(app.resume(Outcome::Layout(vec![settings(5), settings(6)]))), "Ok(Persist)");
    assert_eq!(asked(app.resume(Outcome::Done)), "Ok(Nothing)");
    assert_eq!(app.path[1].menu, AnyMenu::ManagePreset(MenuManagePreset { preset: id(2) }));
}

#[test]
fn saving_fails_when_the_layout_cannot_be_read() {
    let mut app = app(&["A", "B"], &[]);
    assert_eq!(
        asked(app.handle_action(ActionType::SaveCurrentConfigAsPreset)),
        "Ok(ReadLayout)"
    );
    assert_eq!(
        asked(app.resume(Outcome::Failed(ThisError::EnumDisplaySettings))),
        "Err(EnumDisplaySettings)"
    );
    assert!(app.data.presets.is_empty());
    assert_eq!(message(&app).unwrap(), "Failed to fetch display settings");

    press(&mut app, &[Key::Other]);
    app.handle_action(ActionType::SaveCurrentConfigAsPreset).unwrap();
    assert_eq!(
        asked(app.resume(Outcome::Layout(vec![settings(0)]))),
        "Err(EnumDisplaySettings)"
    );
    assert!(app.data.presets.is_empty());
    assert!(!app.is_waiting());
}

#[test]
fn a_keybind_is_captured_stored_and_saved() {
    let mut app = app(&["A"], &["one"]);
    open_preset(&mut app, 0);
    press(&mut app, &[Key::Down]);
    assert_eq!(asked(app.handle_key(Key::Enter)), "Ok(RawInput)");
    assert!(matches!(app.mode, Mode::HotkeyCapture(PresetId { index: 0 }, None)));
    assert_eq!(asked(app.resume(Outcome::ConsoleMode(0x1f7))), "Ok(Nothing)");
    assert_eq!(app.console_mode, 0x1f7);

    assert_eq!(asked(app.handle_key(Key::Char('a'))), "Ok(PollKeybind)");
    assert_eq!(asked(app.resume(Outcome::Polled(None))), "Ok(Nothing)");
    assert!(matches!(app.mode, Mode::HotkeyCapture(_, None)));
    assert_eq!(asked(app.handle_key(Key::Other)), "Ok(PollKeybind)");
    assert_eq!(asked(app.resume(Outcome::Polled(Some(keybind())))), "Ok(Nothing)");
    assert_eq!(asked(app.handle_key(Key::Down)), "Ok(PollKeybind)");
    assert_eq!(asked(app.resume(Outcome::Polled(None))), "Ok(Nothing)");
    match app.render_content() {
        Content::HotkeyCapture { title, input } => {
            assert_eq!(title, "Editing Shortcut for one,0/0,Landscape");
            assert_eq!(input, "CONTROL+A");
        }
        other => panic!("{:?}", other),
    }

    assert_eq!(asked(app.handle_key(Key::Enter)), "Ok(Persist)");
    assert_eq!(app.data.presets[0].preset.keybind.as_ref().unwrap().to_string(), "CONTROL+A");
    assert_eq!(
        message(&app).unwrap(),
        "Set keybind as CONTROL+A for preset one,0/0,Landscape"
    );
    assert_eq!(asked(app.resume(Outcome::Done)), "Ok(Nothing)");
    press(&mut app, &[Key::Other]);
    assert!(is_normal(&app));
    assert_eq!(app.path.len(), 3);
    assert_eq!(app.data.hotkeys(), vec![id(0)]);
}

#[test]
fn the_last_captured_keybind_wins() {
    let mut app = app(&["A"], &["one"]);
    app.handle_action(ActionType::ChangeHotkeyInput(id(0))).unwrap();
    app.resume(Outcome::ConsoleMode(3)).unwrap();
    app.handle_key(Key::Other).unwrap();
    app.resume(Outcome::Polled(Some(keybind()))).unwrap();
    app.handle_key(Key::Other).unwrap();
    let later = Keybind {
        trigger_key: VirtualKey { code: 0x74, name: "VK_F5".to_string() },
        modifiers: Vec::new(),
    };
    app.resume(Outcome::Polled(Some(later))).unwrap();
    match &app.mode {
        Mode::HotkeyCapture(preset, Some(captured)) => {
            assert_eq!(*preset, id(0));
            assert_eq!(captured.to_string(), "F5");
        }
        other => panic!("{:?}", other),
    }
}

#[test]
fn capture_is_left_without_a_keybind() {
    for key in [Key::Enter, Key::Esc] {
        let mut app = app(&["A"], &["one"]);
        app.handle_action(ActionType::ChangeHotkeyInput(id(0))).unwrap();
        app.resume(Outcome::ConsoleMode(3)).unwrap();
        assert_eq!(asked(app.handle_key(key)), "Ok(Nothing)");
        assert!(is_normal(&app));
        assert_eq!(app.path.len(), 1);
        assert!(!app.should_exit);
        assert!(app.data.presets[0].preset.keybind.is_none());
    }
}

#[test]
fn escape_discards_a_captured_keybind() {
    let mut app = app(&["A"], &["one"]);
    app.handle_action(ActionType::ChangeHotkeyInput(id(0))).unwrap();
    app.resume(Outcome::ConsoleMode(3)).unwrap();
    app.handle_key(Key::Other).unwrap();
    app.resume(Outcome::Polled(Some(keybind()))).unwrap();
    press(&mut app, &[Key::Esc]);
    assert!(is_normal(&app));
    assert!(app.data.presets[0].preset.keybind.is_none());
}

#[test]
fn delete_in_capture_only_shows_a_message() {
    let mut app = app(&["A"], &["one"]);
    app.data.set_keybind(id(0), Some(keybind())).unwrap();
    app.handle_action(ActionType::ChangeHotkeyInput(id(0))).unwrap();
    app.resume(Outcome::ConsoleMode(3)).unwrap();
    assert_eq!(asked(app.handle_key(Key::Delete)), "Ok(Nothing)");
    assert_eq!(message(&app).unwrap(), "Deleted keybind for preset one,0/0,Landscape");
    assert!(!app.is_waiting());
    assert_eq!(app.data.presets[0].preset.keybind.as_ref().unwrap().to_string(), "CONTROL+A");
    press(&mut app, &[Key::Other]);
    assert!(is_normal(&app));
}

#[test]
fn a_console_that_cannot_be_switched_ends_the_capture() {
    let mut app = app(&["A"], &["one"]);
    assert_eq!(asked(app.handle_action(ActionType::ChangeHotkeyInput(id(0)))), "Ok(RawInput)");
    assert_eq!(asked(app.resume(Outcome::Failed(ThisError::Input))), "Err(Input)");
    assert_eq!(message(&app).unwrap(), "Failed to read keyboard input");
    assert_eq!(app.console_mode, 0);
}

#[test]
fn starting_the_background_process_ends_the_program() {
    let mut app = app(&["A"], &["one"]);
    assert_eq!(asked(app.handle_key(Key::Enter)), "Ok(SpawnHeadless)");
    assert!(!app.should_exit);
    assert_eq!(asked(app.resume(Outcome::Done)), "Ok(Nothing)");
    assert!(app.should_exit);
}

#[test]
fn a_background_process_that_does_not_start_changes_nothing() {
    let mut app = app(&["A"], &["one"]);
    assert_eq!(asked(app.handle_key(Key::Enter)), "Ok(SpawnHeadless)");
    assert_eq!(asked(app.resume(Outcome::Failed(ThisError::ProcessSpawn))), "Err(ProcessSpawn)");
    assert!(!app.should_exit);
    assert_eq!(app.path.len(), 1);
    assert_eq!(message(&app).unwrap(), "Failed to start the background process");
}

#[test]
fn the_startup_entry_is_added_where_there_is_none() {
    let mut app = app(&["A"], &["one"]);
    assert_eq!(asked(app.handle_action(ActionType::ToggleStartup)), "Ok(FindStartupEntry)");
    assert_eq!(asked(app.resume(Outcome::StartupEntry(false))), "Ok(AddStartupEntry)");
    assert!(app.is_waiting());
    assert!(is_normal(&app));
    assert_eq!(asked(app.resume(Outcome::Done)), "Ok(Nothing)");
    assert_eq!(
        message(&app).unwrap(),
        "Successfully added app to opening on windows startup "
    );
}

#[test]
fn the_startup_entry_is_removed_where_there_is_one() {
    let mut app = app(&["A"], &["one"]);
    assert_eq!(asked(app.handle_action(ActionType::ToggleStartup)), "Ok(FindStartupEntry)");
    assert_eq!(asked(app.resume(Outcome::StartupEntry(true))), "Ok(RemoveStartupEntry)");
    assert_eq!(asked(app.resume(Outcome::Done)), "Ok(Nothing)");
    assert_eq!(
        message(&app).unwrap(),
        "Successfully removed app from opening on windows startup "
    );
}

#[test]
fn a_startup_entry_that_cannot_be_written_is_a_failure() {
    let mut app = app(&["A"], &["one"]);
    app.handle_action(ActionType::ToggleStartup).unwrap();
    app.resume(Outcome::StartupEntry(false)).unwrap();
    assert_eq!(asked(app.resume(Outcome::Failed(ThisError::Persistence))), "Err(Persistence)");
    assert_eq!(message(&app).unwrap(), "Failed to save changes");
    assert!(!app.is_waiting());
}

#[test]
fn startup_script_runs_the_program_headless() {
    assert_eq!(
        startup_script("C:\\Program Files\\wimlam.exe"),
        "CreateObject(\"Wscript.Shell\").Run \"C:\\Program Files\\wimlam.exe --headless\", 0, True"
    );
}

#[test]
fn keys_are_not_taken_while_work_is_under_way() {
    let mut app = app(&["A"], &["one"]);
    assert_eq!(asked(app.handle_key(Key::Enter)), "Ok(SpawnHeadless)");
    for key in [Key::Char('q'), Key::Left, Key::Down, Key::Enter] {
        assert_eq!(asked(app.handle_key(key)), "Ok(Nothing)");
    }
    assert!(app.is_waiting());
    assert!(!app.should_exit);
    assert_eq!(app.path.len(), 1);
    assert_eq!(app.path[0].selected, Some(0));
}

#[test]
fn a_report_that_was_not_asked_for_changes_nothing() {
    let mut app = app(&["A"], &["one"]);
    assert_eq!(asked(app.resume(Outcome::Done)), "Ok(Nothing)");
    assert_eq!(asked(app.resume(Outcome::Failed(ThisError::Persistence))), "Ok(Nothing)");
    assert!(is_normal(&app));

    assert_eq!(asked(app.handle_key(Key::Enter)), "Ok(SpawnHeadless)");
    assert_eq!(asked(app.resume(Outcome::Layout(Vec::new()))), "Ok(Nothing)");
    assert_eq!(asked(app.resume(Outcome::Polled(Some(keybind())))), "Ok(Nothing)");
    assert_eq!(asked(app.resume(Outcome::StartupEntry(true))), "Ok(Nothing)");
    assert_eq!(asked(app.resume(Outcome::ConsoleMode(1))), "Ok(Nothing)");
    assert!(app.is_waiting());
    assert!(!app.should_exit);
    assert_eq!(app.console_mode, 0);

    let mut other = self::app(&["A"], &["one"]);
    other.handle_action(ActionType::SaveCurrentConfigAsPreset).unwrap();
    assert_eq!(asked(other.resume(Outcome::Done)), "Ok(Nothing)");
    assert!(other.is_waiting());
    assert!(other.data.presets.len() == 1);
}

#[test]
fn effects_run_in_order_up_to_the_first_that_needs_work() {
    let mut app = app(&["A"], &["one"]);
    let effects = vec![
        ActionType::OpenMenu(AnyMenu::PresetList(MenuPresetList)),
        ActionType::DisplayMessage("first".to_string()),
        ActionType::StartHeadless,
        ActionType::DisplayMessage("second".to_string()),
        ActionType::GoBack,
    ];
    assert_eq!(asked(app.handle_actions(effects)), "Ok(SpawnHeadless)");
    assert_eq!(app.path.len(), 2);
    assert_eq!(message(&app).unwrap(), "first");
    assert_eq!(app.waiting.as_ref().unwrap().rest.len(), 2);
    assert_eq!(asked(app.resume(Outcome::Done)), "Ok(Nothing)");
    assert!(app.should_exit);
    assert!(is_normal(&app));
    assert_eq!(app.path.len(), 2);
    assert_eq!(asked(app.handle_actions(Vec::new())), "Ok(Nothing)");
}

#[test]
fn a_failing_effect_stops_the_ones_behind_it() {
    let mut app = app(&["A"], &["one"]);
    let effects = vec![
        ActionType::OpenMenu(AnyMenu::PresetList(MenuPresetList)),
        ActionType::DeletePreset(id(7)),
        ActionType::GoBack,
        ActionType::GoBack,
    ];
    assert_eq!(asked(app.handle_actions(effects)), "Err(PresetNotFound)");
    assert_eq!(app.path.len(), 2);
    assert!(!app.should_exit);
    assert_eq!(message(&app).unwrap(), "Preset not found");
}

#[test]
fn content_and_footer_follow_the_mode() {
    let mut app = app(&["A"], &["one"]);
    assert!(matches!(app.render_content(), Content::Menu));
    assert_eq!(app.render_footer(), "Use ←↓↑→ or hjkl to move");
    app.handle_action(ActionType::ChangeHotkeyInput(id(0))).unwrap();
    app.resume(Outcome::ConsoleMode(0)).unwrap();
    match app.render_content() {
        Content::HotkeyCapture { title, input } => {
            assert_eq!(title, "Editing Shortcut for one,0/0,Landscape");
            assert_eq!(input, "");
        }
        other => panic!("{:?}", other),
    }
    assert_eq!(app.render_footer(), "Press Escape to cancel, Enter to confirm");
    app.handle_action(ActionType::DisplayMessage("hello".to_string())).unwrap();
    match app.render_content() {
        Content::Message(text) => assert_eq!(text, "hello"),
        other => panic!("{:?}", other),
    }
    assert_eq!(app.render_footer(), "Press any key to continue ↩");
}

#[test]
fn requests_name_the_outcome_that_answers_them() {
    assert_eq!(Request::Nothing.step(), None);
    assert_eq!(Request::Apply(Vec::new()).step(), Some(Step::Apply));
    assert_eq!(Request::ReadLayout.step(), Some(Step::ReadLayout));
    assert_eq!(Request::Persist.step(), Some(Step::Persist));
    assert_eq!(Request::RawInput.step(), Some(Step::RawInput));
    assert_eq!(Request::PollKeybind.step(), Some(Step::PollKeybind));
    assert_eq!(Request::SpawnHeadless.step(), Some(Step::SpawnHeadless));
    assert_eq!(Request::FindStartupEntry.step(), Some(Step::FindStartupEntry));
    assert_eq!(Request::AddStartupEntry.step(), Some(Step::AddStartupEntry));
    assert_eq!(Request::RemoveStartupEntry.step(), Some(Step::RemoveStartupEntry));
}
