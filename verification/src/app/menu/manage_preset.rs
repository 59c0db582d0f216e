//! The menu of one preset.

use crate::app::action::{Action, ActionType, ActionTypeView, ActionView};
use crate::app::menu::Menu;
use crate::{Data, DataView, PresetId};
use vstd::prelude::*;
use vstd::string::*;

verus! {

#[derive(Debug, Clone, Copy, PartialEq, Eq, Structural)]
pub struct MenuManagePreset {
    pub preset: PresetId,
}

impl Menu for MenuManagePreset {
    open spec fn title(&self, data: DataView) -> Seq<char> {
        "Editing "@ + data.name(self.preset) + " ..."@
    }

    /// Apply, then say so; edit the keybind; delete, go back to the parent
    /// menu, and only then say so.
    open spec fn entries(&self, data: DataView) -> Seq<ActionView> {
        seq![
            ActionView {
                name: "✓ Apply"@,
                action_type: seq![
                    ActionTypeView::ApplyPreset(self.preset),
                    ActionTypeView::DisplayMessage(
                        "Preset "@ + data.name(self.preset) + " successfully applied"@,
                    ),
                ],
            },
            ActionView {
                name: "⌨ Edit keyboard shortcut"@,
                action_type: seq![ActionTypeView::ChangeHotkeyInput(self.preset)],
            },
            ActionView {
                name: "× Delete"@,
                action_type: seq![
                    ActionTypeView::DeletePreset(self.preset),
                    ActionTypeView::GoBack,
                    ActionTypeView::DisplayMessage(
                        "Preset "@ + data.name(self.preset) + " successfully deleted"@,
                    ),
                ],
            },
        ]
    }

    fn name(&self, data: &Data) -> (name: String) {
        let mut name = String::from_str("Editing ");
        name.append(data.name(self.preset).as_str());
        name.append(" ...");
        name
    }

    fn with_actions(&self, data: &Data) -> (actions: Vec<Action>) {
        let shown = data.name(self.preset);

        let mut applied = String::from_str("Preset ");
        applied.append(shown.as_str());
        applied.append(" successfully applied");
        let mut apply: Vec<ActionType> = Vec::new();
        apply.push(ActionType::ApplyPreset(self.preset));
        apply.push(ActionType::DisplayMessage(applied));

        let mut deleted = String::from_str("Preset ");
        deleted.append(shown.as_str());
        deleted.append(" successfully deleted");
        let mut delete: Vec<ActionType> = Vec::new();
        delete.push(ActionType::DeletePreset(self.preset));
        delete.push(ActionType::GoBack);
        delete.push(ActionType::DisplayMessage(deleted));

        let mut actions: Vec<Action> = Vec::new();
        actions.push(Action { name: String::from_str("✓ Apply"), action_type: apply });
        actions.push(
            Action::single_action(
                "⌨ Edit keyboard shortcut",
                ActionType::ChangeHotkeyInput(self.preset),
            ),
        );
        actions.push(Action { name: String::from_str("× Delete"), action_type: delete });
        proof {
            let want = self.entries(data.deep_view());
            assert(actions@[0].action_type.deep_view() =~= want[0].action_type);
            assert(actions@[2].action_type.deep_view() =~= want[2].action_type);
            assert(actions.deep_view() =~= want);
        }
        actions
    }
}

} // verus!
