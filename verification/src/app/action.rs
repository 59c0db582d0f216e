//! Menu entries and the effects they stand for.

use crate::app::menu::AnyMenu;
use crate::PresetId;
use vstd::prelude::*;
use vstd::string::*;

verus! {

/// A menu entry: what it shows, and the effects it has, in order.
#[derive(Debug)]
pub struct Action {
    pub name: String,
    pub action_type: Vec<ActionType>,
}

/// A menu entry as contracts see it.
pub struct ActionView {
    pub name: Seq<char>,
    pub action_type: Seq<ActionTypeView>,
}

impl DeepView for Action {
    type V = ActionView;

    open spec fn deep_view(&self) -> ActionView {
        ActionView { name: self.name@, action_type: self.action_type.deep_view() }
    }
}

/// One effect of a menu entry.
#[derive(Debug)]
pub enum ActionType {
    ApplyPreset(PresetId),
    DeletePreset(PresetId),
    /// Retrieves the current screen layout and saves it as a preset
    SaveCurrentConfigAsPreset,
    /// Starts the capture of a keyboard shortcut for the preset
    ChangeHotkeyInput(PresetId),
    /// Displays a dismissable message
    DisplayMessage(String),
    /// Pushes a menu to the stack
    OpenMenu(AnyMenu),
    /// Leaves an overlay, or pops a menu from the stack; exits on the last
    GoBack,
    /// Starts a headless process of the app
    StartHeadless,
    /// Adds the app to what opens on startup, or takes it out
    ToggleStartup,
}

/// An effect as contracts see it.
pub enum ActionTypeView {
    ApplyPreset(PresetId),
    DeletePreset(PresetId),
    SaveCurrentConfigAsPreset,
    ChangeHotkeyInput(PresetId),
    DisplayMessage(Seq<char>),
    OpenMenu(AnyMenu),
    GoBack,
    StartHeadless,
    ToggleStartup,
}

impl DeepView for ActionType {
    type V = ActionTypeView;

    open spec fn deep_view(&self) -> ActionTypeView {
        match self {
            ActionType::ApplyPreset(preset) => ActionTypeView::ApplyPreset(*preset),
            ActionType::DeletePreset(preset) => ActionTypeView::DeletePreset(*preset),
            ActionType::SaveCurrentConfigAsPreset => ActionTypeView::SaveCurrentConfigAsPreset,
            ActionType::ChangeHotkeyInput(preset) => ActionTypeView::ChangeHotkeyInput(*preset),
            ActionType::DisplayMessage(message) => ActionTypeView::DisplayMessage(message@),
            ActionType::OpenMenu(menu) => ActionTypeView::OpenMenu(*menu),
            ActionType::GoBack => ActionTypeView::GoBack,
            ActionType::StartHeadless => ActionTypeView::StartHeadless,
            ActionType::ToggleStartup => ActionTypeView::ToggleStartup,
        }
    }
}

impl Clone for ActionType {
    fn clone(&self) -> (copy: Self)
        ensures
            copy.deep_view() == self.deep_view(),
    {
        match self {
            ActionType::ApplyPreset(preset) => ActionType::ApplyPreset(*preset),
            ActionType::DeletePreset(preset) => ActionType::DeletePreset(*preset),
            ActionType::SaveCurrentConfigAsPreset => ActionType::SaveCurrentConfigAsPreset,
            ActionType::ChangeHotkeyInput(preset) => ActionType::ChangeHotkeyInput(*preset),
            ActionType::DisplayMessage(message) => ActionType::DisplayMessage(message.clone()),
            ActionType::OpenMenu(menu) => ActionType::OpenMenu(*menu),
            ActionType::GoBack => ActionType::GoBack,
            ActionType::StartHeadless => ActionType::StartHeadless,
            ActionType::ToggleStartup => ActionType::ToggleStartup,
        }
    }
}

/// A copy of `effects[from..]`.
pub fn clone_effects(effects: &Vec<ActionType>, from: usize) -> (copy: Vec<ActionType>)
    requires
        from <= effects@.len(),
    ensures
        copy.deep_view() == effects.deep_view().subrange(from as int, effects@.len() as int),
{
    let mut copy: Vec<ActionType> = Vec::new();
    let mut i: usize = from;
    while i < effects.len()
        invariant
            from <= i <= effects@.len(),
            copy@.len() == i - from,
            forall|k: int|
                0 <= k < i - from ==> (#[trigger] copy@[k]).deep_view() == effects@[from
                    + k].deep_view(),
        decreases effects@.len() - i,
    {
        copy.push(effects[i].clone());
        i = i + 1;
    }
    proof {
        assert(copy.deep_view() =~= effects.deep_view().subrange(
            from as int,
            effects@.len() as int,
        ));
    }
    copy
}

impl ActionView {
    /// The entry that every menu ends with.
    pub open spec fn go_back() -> ActionView {
        ActionView { name: "← Go back"@, action_type: seq![ActionTypeView::GoBack] }
    }
}

impl Action {
    /// An entry with one effect.
    pub fn single_action(name: &str, action_type: ActionType) -> (action: Action)
        ensures
            action.deep_view() == (ActionView {
                name: name@,
                action_type: seq![action_type.deep_view()],
            }),
    {
        let mut effects: Vec<ActionType> = Vec::new();
        effects.push(action_type);
        let action = Action { name: String::from_str(name), action_type: effects };
        proof {
            assert(action.action_type.deep_view() =~= seq![action_type.deep_view()]);
        }
        action
    }

    pub fn go_back() -> (action: Action)
        ensures
            action.deep_view() == ActionView::go_back(),
    {
        Self::single_action("← Go back", ActionType::GoBack)
    }
}

} // verus!
