use wimlam::app::action::{clone_effects, Action, ActionType};
use wimlam::app::input::Key;
use wimlam::app::menu::main::MenuMain;
use wimlam::app::menu::manage_preset::MenuManagePreset;
use wimlam::app::menu::preset_list::MenuPresetList;
use wimlam::app::menu::{alternate_colors, AnyMenu, Menu, RenderedMenu, RowColor};
use wimlam::display_settings::{DisplayOrientation, DisplaySettings, Pos};
use wimlam::preset::{Preset, SettingsMap};
use wimlam::{Data, PresetId};

fn preset(name: &str) -> Preset {
    let mut map = SettingsMap::new();
    map.insert(
        name.to_string(),
        DisplaySettings {
            position: Pos { x: 0, y: 0 },
            orientation: DisplayOrientation::Landscape,
        },
    );
    Preset { keybind: None, map }
}

fn data(names: &[&str]) -> Data {
    Data::new(Vec::new(), names.iter().map(|name| preset(name)).collect())
}

fn id(index: usize) -> PresetId {
    PresetId { index }
}

fn names(actions: &[Action]) -> Vec<String> {
    actions.iter().map(|action| action.name.clone()).collect()
}

/// The effects of an entry in a form that can be compared.
fn shown(effects: &[ActionType]) -> Vec<String> {
    effects.iter().map(|effect| format!("{:?}", effect)).collect()
}

fn opens_menu_of(effects: &[ActionType]) -> PresetId {
    assert_eq!(effects.len(), 1);
    match &effects[0] {
        ActionType::OpenMenu(AnyMenu::ManagePreset(menu)) => menu.preset,
        other => panic!("not the menu of a preset: {:?}", other),
    }
}

#[test]
fn single_action_has_one_effect() {
    let action = Action::single_action("name", ActionType::StartHeadless);
    assert_eq!(action.name, "name");
    assert_eq!(shown(&action.action_type), vec!["StartHeadless"]);
}

#[test]
fn go_back_action() {
    let action = Action::go_back();
    assert_eq!(action.name, "← Go back");
    assert_eq!(shown(&action.action_type), vec!["GoBack"]);
}

#[test]
fn effects_are_copied_from_a_place_on() {
    let effects = vec![
        ActionType::DeletePreset(id(3)),
        ActionType::GoBack,
        ActionType::DisplayMessage("done".to_string()),
    ];
    assert_eq!(shown(&clone_effects(&effects, 0)), shown(&effects));
    assert_eq!(shown(&clone_effects(&effects, 1)), shown(&effects[1..]));
    assert!(clone_effects(&effects, 3).is_empty());
    assert_eq!(shown(&[effects[2].clone()]), vec!["DisplayMessage(\"done\")"]);
}

#[test]
fn main_menu_entries() {
    let data = data(&["one", "two"]);
    let menu = MenuMain;
    assert_eq!(menu.name(&data), "What do you want to do ?");
    let actions = menu.with_actions(&data);
    assert_eq!(
        names(&actions),
        vec![
            "▸ Start the backgound app process",
            "≡ Manage presets",
            "↓ Save current config as preset",
        ]
    );
    assert_eq!(shown(&actions[0].action_type), vec!["StartHeadless"]);
    assert_eq!(shown(&actions[1].action_type), vec!["OpenMenu(PresetList(MenuPresetList))"]);
    assert_eq!(actions[2].action_type.len(), 3);
    assert_eq!(shown(&actions[2].action_type[..1]), vec!["SaveCurrentConfigAsPreset"]);
    assert_eq!(opens_menu_of(&actions[2].action_type[1..2]), id(2));
    assert_eq!(
        shown(&actions[2].action_type[2..]),
        vec!["DisplayMessage(\"Current config successfully saved as a new preset\")"]
    );
}

#[test]
fn every_menu_ends_with_go_back() {
    let data = data(&["one"]);
    let menus = [
        AnyMenu::Main(MenuMain),
        AnyMenu::PresetList(MenuPresetList),
        AnyMenu::ManagePreset(MenuManagePreset { preset: id(0) }),
    ];
    for menu in menus {
        let own = menu.with_actions(&data);
        let all = menu.actions(&data);
        assert_eq!(all.len(), own.len() + 1);
        assert_eq!(names(&all[..own.len()]), names(&own));
        assert_eq!(all[own.len()].name, "← Go back");
        assert_eq!(shown(&all[own.len()].action_type), vec!["GoBack"]);
        assert_eq!(names(&menu.default_actions()), vec!["← Go back"]);
    }
}

#[test]
fn preset_list_is_sorted_by_display_string() {
    let data = data(&["Zed", "Ann"]);
    let menu = MenuPresetList;
    assert_eq!(menu.name(&data), "Preset to config");
    let actions = menu.with_actions(&data);
    assert_eq!(names(&actions), vec!["Ann,0/0,Landscape", "Zed,0/0,Landscape"]);
    assert_eq!(opens_menu_of(&actions[0].action_type), id(1));
    assert_eq!(opens_menu_of(&actions[1].action_type), id(0));
}

#[test]
fn preset_list_keeps_presets_of_one_name_apart_and_in_store_order() {
    let mut data = data(&["same", "other", "same", "gone"]);
    data.delete(id(3)).unwrap();
    let actions = MenuPresetList.with_actions(&data);
    assert_eq!(
        names(&actions),
        vec!["other,0/0,Landscape", "same,0/0,Landscape", "same,0/0,Landscape"]
    );
    assert_eq!(opens_menu_of(&actions[0].action_type), id(1));
    assert_eq!(opens_menu_of(&actions[1].action_type), id(0));
    assert_eq!(opens_menu_of(&actions[2].action_type), id(2));
    assert!(MenuPresetList.with_actions(&Data::new(Vec::new(), Vec::new())).is_empty());
}

#[test]
fn manage_preset_entries() {
    let data = data(&["one", "two"]);
    let menu = MenuManagePreset { preset: id(1) };
    assert_eq!(menu.name(&data), "Editing two,0/0,Landscape ...");
    let actions = menu.with_actions(&data);
    assert_eq!(names(&actions), vec!["✓ Apply", "⌨ Edit keyboard shortcut", "× Delete"]);
    assert_eq!(
        shown(&actions[0].action_type),
        vec![
            "ApplyPreset(PresetId { index: 1 })",
            "DisplayMessage(\"Preset two,0/0,Landscape successfully applied\")",
        ]
    );
    assert_eq!(
        shown(&actions[1].action_type),
        vec!["ChangeHotkeyInput(PresetId { index: 1 })"]
    );
    assert_eq!(
        shown(&actions[2].action_type),
        vec![
            "DeletePreset(PresetId { index: 1 })",
            "GoBack",
            "DisplayMessage(\"Preset two,0/0,Landscape successfully deleted\")",
        ]
    );
}

#[test]
fn manage_preset_of_an_unknown_preset_has_an_empty_name() {
    let data = data(&["one"]);
    let menu = MenuManagePreset { preset: id(5) };
    assert_eq!(menu.name(&data), "Editing  ...");
}

#[test]
fn a_menu_is_put_up_with_its_first_entry_selected() {
    let data = data(&["one"]);
    let rendered = RenderedMenu::from(AnyMenu::Main(MenuMain), &data);
    assert_eq!(rendered.menu, AnyMenu::Main(MenuMain));
    assert_eq!(rendered.selected, Some(0));
    assert_eq!(rendered.offset, 0);
    assert_eq!(rendered.actions.len(), 4);
    assert_eq!(rendered.actions[3].name, "← Go back");
}

#[test]
fn down_and_up_move_the_selection_and_stop_at_the_ends() {
    let data = data(&["one"]);
    let mut rendered = RenderedMenu::from(AnyMenu::Main(MenuMain), &data);
    assert!(rendered.handle_key(Key::Down).is_none());
    assert_eq!(rendered.selected, Some(1));
    assert!(rendered.handle_key(Key::Char('j')).is_none());
    assert_eq!(rendered.selected, Some(2));
    rendered.handle_key(Key::Down);
    assert_eq!(rendered.selected, Some(3));
    rendered.handle_key(Key::Down);
    assert_eq!(rendered.selected, Some(3));
    assert!(rendered.handle_key(Key::Up).is_none());
    assert_eq!(rendered.selected, Some(2));
    assert!(rendered.handle_key(Key::Char('k')).is_none());
    assert_eq!(rendered.selected, Some(1));
    rendered.handle_key(Key::Up);
    rendered.handle_key(Key::Up);
    assert_eq!(rendered.selected, Some(0));
}

#[test]
fn a_menu_without_selection_selects_an_end() {
    let data = data(&["one"]);
    let mut rendered = RenderedMenu::from(AnyMenu::Main(MenuMain), &data);
    rendered.selected = None;
    rendered.handle_key(Key::Down);
    assert_eq!(rendered.selected, Some(0));
    rendered.selected = None;
    rendered.handle_key(Key::Up);
    assert_eq!(rendered.selected, Some(3));
    rendered.selected = Some(usize::MAX);
    rendered.handle_key(Key::Down);
    assert_eq!(rendered.selected, Some(3));
}

#[test]
fn other_keys_leave_a_menu_as_it_is() {
    let data = data(&["one"]);
    let mut rendered = RenderedMenu::from(AnyMenu::Main(MenuMain), &data);
    for key in [Key::Other, Key::Delete, Key::Left, Key::Esc, Key::Char('x'), Key::Char('q')] {
        assert!(rendered.handle_key(key).is_none());
        assert_eq!(rendered.selected, Some(0));
    }
}

#[test]
fn activating_gives_the_effects_of_the_selected_entry() {
    let data = data(&["one"]);
    let menu = AnyMenu::ManagePreset(MenuManagePreset { preset: id(0) });
    let mut rendered = RenderedMenu::from(menu, &data);
    rendered.handle_key(Key::Down);
    rendered.handle_key(Key::Down);
    for key in [Key::Enter, Key::Right, Key::Char('l')] {
        let effects = rendered.handle_key(key).unwrap();
        assert_eq!(
            shown(&effects),
            vec![
                "DeletePreset(PresetId { index: 0 })",
                "GoBack",
                "DisplayMessage(\"Preset one,0/0,Landscape successfully deleted\")",
            ]
        );
        assert_eq!(rendered.selected, Some(2));
    }
    assert_eq!(shown(&rendered.handle_selected_actions().unwrap()).len(), 3);
}

#[test]
fn activating_without_a_selected_entry_gives_nothing() {
    let data = data(&["one"]);
    let mut rendered = RenderedMenu::from(AnyMenu::Main(MenuMain), &data);
    rendered.selected = None;
    assert!(rendered.handle_key(Key::Enter).is_none());
    assert!(rendered.handle_selected_actions().is_none());
    rendered.selected = Some(4);
    assert!(rendered.handle_selected_actions().is_none());
}

#[test]
fn reload_computes_the_entries_anew_and_keeps_the_selection_within() {
    let mut data = data(&["one", "two", "three"]);
    let mut rendered = RenderedMenu::from(AnyMenu::PresetList(MenuPresetList), &data);
    assert_eq!(rendered.actions.len(), 4);
    rendered.selected = Some(3);
    data.delete(id(0)).unwrap();
    data.delete(id(1)).unwrap();
    rendered.reload_actions(&data);
    assert_eq!(names(&rendered.actions), vec!["three,0/0,Landscape", "← Go back"]);
    assert_eq!(rendered.selected, Some(1));
    rendered.selected = Some(0);
    data.push(preset("four"));
    rendered.reload_actions(&data);
    assert_eq!(
        names(&rendered.actions),
        vec!["four,0/0,Landscape", "three,0/0,Landscape", "← Go back"]
    );
    assert_eq!(rendered.selected, Some(0));
}

#[test]
fn rows_alternate_their_background() {
    assert_eq!(alternate_colors(0), RowColor::Normal);
    assert_eq!(alternate_colors(1), RowColor::Alternate);
    assert_eq!(alternate_colors(2), RowColor::Normal);
    assert_eq!(alternate_colors(usize::MAX), RowColor::Alternate);
}
