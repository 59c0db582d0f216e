//! The menu the program opens with.

use crate::app::action::{Action, ActionType, ActionTypeView, ActionView};
use crate::app::menu::manage_preset::MenuManagePreset;
use crate::app::menu::preset_list::MenuPresetList;
use crate::app::menu::{AnyMenu, Menu};
use crate::{Data, DataView, PresetId};
use vstd::prelude::*;
use vstd::string::*;

verus! {

#[derive(Debug, Clone, Copy, PartialEq, Eq, Structural)]
pub struct MenuMain;

impl Menu for MenuMain {
    open spec fn title(&self, data: DataView) -> Seq<char> {
        "What do you want to do ?"@
    }

    /// Start the background process; open the preset list; save the
    /// current layout, open the menu of the preset this makes, which will
    /// stand behind the records the store has now, and say so.
    open spec fn entries(&self, data: DataView) -> Seq<ActionView> {
        seq![
            ActionView {
                name: "▸ Start the backgound app process"@,
                action_type: seq![ActionTypeView::StartHeadless],
            },
            ActionView {
                name: "≡ Manage presets"@,
                action_type: seq![ActionTypeView::OpenMenu(AnyMenu::PresetList(MenuPresetList))],
            },
            ActionView {
                name: "↓ Save current config as preset"@,
                action_type: seq![
                    ActionTypeView::SaveCurrentConfigAsPreset,
                    ActionTypeView::OpenMenu(
                        AnyMenu::ManagePreset(
                            MenuManagePreset {
                                preset: PresetId { index: data.presets.len() as usize },
                            },
                        ),
                    ),
                    ActionTypeView::DisplayMessage(
                        "Current config successfully saved as a new preset"@,
                    ),
                ],
            },
        ]
    }

    fn name(&self, data: &Data) -> (name: String) {
        String::from_str("What do you want to do ?")
    }

    fn with_actions(&self, data: &Data) -> (actions: Vec<Action>) {
        let mut save: Vec<ActionType> = Vec::new();
        save.push(ActionType::SaveCurrentConfigAsPreset);
        save.push(
            ActionType::OpenMenu(
                AnyMenu::ManagePreset(
                    MenuManagePreset { preset: PresetId { index: data.presets.len() } },
                ),
            ),
        );
        save.push(
            ActionType::DisplayMessage(
                String::from_str("Current config successfully saved as a new preset"),
            ),
        );
        let mut actions: Vec<Action> = Vec::new();
        actions.push(
            Action::single_action("▸ Start the backgound app process", ActionType::StartHeadless),
        );
        actions.push(
            Action::single_action(
                "≡ Manage presets",
                ActionType::OpenMenu(AnyMenu::PresetList(MenuPresetList)),
            ),
        );
        actions.push(
            Action {
                name: String::from_str("↓ Save current config as preset"),
                action_type: save,
            },
        );
        proof {
            assert(actions@[2].action_type.deep_view() =~= self.entries(
                data.deep_view(),
            )[2].action_type);
            assert(actions.deep_view() =~= self.entries(data.deep_view()));
        }
        actions
    }
}

} // verus!
