//! Menus: what they are called, which entries they offer, and a menu as it
//! stands on the screen with one entry selected.

pub mod main;
pub mod manage_preset;
pub mod preset_list;

use crate::app::action::{clone_effects, Action, ActionType, ActionTypeView, ActionView};
use crate::app::input::Key;
use crate::app::menu::main::MenuMain;
use crate::app::menu::manage_preset::MenuManagePreset;
use crate::app::menu::preset_list::MenuPresetList;
use crate::{Data, DataView};
use ratatui::widgets::ListState;
use vstd::prelude::*;
use vstd::string::*;

verus! {

/// A named provider of menu entries.
pub trait Menu {
    /// The heading of the menu.
    spec fn title(&self, data: DataView) -> Seq<char>;

    /// The entries of the menu itself, without the one that goes back.
    spec fn entries(&self, data: DataView) -> Seq<ActionView>;

    fn name(&self, data: &Data) -> (name: String)
        ensures
            name@ == self.title(data.deep_view()),
    ;

    fn with_actions(&self, data: &Data) -> (actions: Vec<Action>)
        ensures
            actions.deep_view() == self.entries(data.deep_view()),
    ;

    /// The entries the menu shows: its own, then the one that goes back.
    fn actions(&self, data: &Data) -> (actions: Vec<Action>)
        ensures
            actions.deep_view() == self.entries(data.deep_view()).push(ActionView::go_back()),
    {
        let mut vec = self.with_actions(data);
        let ghost own = vec@;
        let mut rest = self.default_actions();
        assert(rest@.len() == rest.deep_view().len());
        let ghost last = rest@[0];
        assert(rest.deep_view()[0] == last.deep_view());
        vec.append(&mut rest);
        proof {
            assert(vec@ =~= own.push(last));
            assert(vec.deep_view() =~= self.entries(data.deep_view()).push(ActionView::go_back()));
        }
        vec
    }

    fn default_actions(&self) -> (actions: Vec<Action>)
        ensures
            actions.deep_view() == seq![ActionView::go_back()],
    {
        let mut actions: Vec<Action> = Vec::new();
        actions.push(Action::go_back());
        proof {
            assert(actions.deep_view() =~= seq![ActionView::go_back()]);
        }
        actions
    }
}

/// One of the menus of the program.
#[derive(Debug, Clone, Copy, PartialEq, Eq, Structural)]
pub enum AnyMenu {
    Main(MenuMain),
    PresetList(MenuPresetList),
    ManagePreset(MenuManagePreset),
}

impl Menu for AnyMenu {
    open spec fn title(&self, data: DataView) -> Seq<char> {
        match self {
            AnyMenu::Main(menu) => menu.title(data),
            AnyMenu::PresetList(menu) => menu.title(data),
            AnyMenu::ManagePreset(menu) => menu.title(data),
        }
    }

    open spec fn entries(&self, data: DataView) -> Seq<ActionView> {
        match self {
            AnyMenu::Main(menu) => menu.entries(data),
            AnyMenu::PresetList(menu) => menu.entries(data),
            AnyMenu::ManagePreset(menu) => menu.entries(data),
        }
    }

    fn name(&self, data: &Data) -> (name: String) {
        match self {
            AnyMenu::Main(menu) => menu.name(data),
            AnyMenu::PresetList(menu) => menu.name(data),
            AnyMenu::ManagePreset(menu) => menu.name(data),
        }
    }

    fn with_actions(&self, data: &Data) -> (actions: Vec<Action>) {
        match self {
            AnyMenu::Main(menu) => menu.with_actions(data),
            AnyMenu::PresetList(menu) => menu.with_actions(data),
            AnyMenu::ManagePreset(menu) => menu.with_actions(data),
        }
    }
}

/// The two backgrounds that the rows of a list take in turn.
#[derive(Debug, Clone, Copy, PartialEq, Eq, Structural)]
pub enum RowColor {
    Normal,
    Alternate,
}

/// The background of row `i`: rows with an odd index take the other one.
pub fn alternate_colors(i: usize) -> (color: RowColor)
    ensures
        color == (if i % 2 == 0 {
            RowColor::Normal
        } else {
            RowColor::Alternate
        }),
{
    if i % 2 == 0 {
        RowColor::Normal
    } else {
        RowColor::Alternate
    }
}

/// The entry that `ListState::select_next` selects after `selected`.
pub open spec fn next_index(selected: Option<usize>) -> usize {
    match selected {
        None => 0,
        Some(i) => if i < usize::MAX {
            (i + 1) as usize
        } else {
            usize::MAX
        },
    }
}

/// The entry that `ListState::select_previous` selects after `selected`.
pub open spec fn previous_index(selected: Option<usize>) -> usize {
    match selected {
        None => usize::MAX,
        Some(i) => if i > 0 {
            (i - 1) as usize
        } else {
            0
        },
    }
}

/// The selection as a list of `len` entries shows it: nothing in an empty
/// list, and the last entry in place of one behind it.
pub open spec fn clamped(selected: Option<usize>, len: nat) -> Option<usize> {
    if len == 0 {
        None
    } else {
        match selected {
            Some(i) => if i >= len {
                Some((len - 1) as usize)
            } else {
                selected
            },
            None => None,
        }
    }
}

/// `ListState::select_first` on a fresh list state: the first entry is
/// selected.
#[verifier::external_body]
fn select_first() -> (selected: Option<usize>)
    ensures
        selected == Some(0usize),
{
    let mut state = ListState::default();
    state.select_first();
    state.selected()
}

/// `ListState::select_next` on a list state with the given selection: the
/// entry after it is selected, the first where none was, and the index
/// does not pass `usize::MAX`.
#[verifier::external_body]
fn select_next(selected: Option<usize>) -> (next: Option<usize>)
    ensures
        next == Some(next_index(selected)),
{
    let mut state = ListState::default().with_selected(selected);
    state.select_next();
    state.selected()
}

/// `ListState::select_previous` on a list state with the given selection:
/// the entry before it is selected, index 0 staying where it is, and
/// `usize::MAX` where none was.
#[verifier::external_body]
fn select_previous(selected: Option<usize>) -> (previous: Option<usize>)
    ensures
        previous == Some(previous_index(selected)),
{
    let mut state = ListState::default().with_selected(selected);
    state.select_previous();
    state.selected()
}

/// Brings a selection into a list of `len` entries.
fn clamp(selected: Option<usize>, len: usize) -> (shown: Option<usize>)
    ensures
        shown == clamped(selected, len as nat),
{
    if len == 0 {
        None
    } else {
        match selected {
            Some(i) => if i >= len {
                Some(len - 1)
            } else {
                selected
            },
            None => None,
        }
    }
}

/// A menu as it stands on the screen: its entries as they were when last
/// computed, the selected one, and the first one in view.
#[derive(Debug)]
pub struct RenderedMenu {
    pub menu: AnyMenu,
    pub actions: Vec<Action>,
    pub selected: Option<usize>,
    pub offset: usize,
}

/// A menu on the screen as contracts see it.
pub struct RenderedMenuView {
    pub menu: AnyMenu,
    pub actions: Seq<ActionView>,
    pub selected: Option<usize>,
    pub offset: usize,
}

impl DeepView for RenderedMenu {
    type V = RenderedMenuView;

    open spec fn deep_view(&self) -> RenderedMenuView {
        RenderedMenuView {
            menu: self.menu,
            actions: self.actions.deep_view(),
            selected: self.selected,
            offset: self.offset,
        }
    }
}

/// Whether the key activates the selected entry.
pub open spec fn activates(key: Key) -> bool {
    key == Key::Enter || key == Key::Right || key == Key::Char('l')
}

impl RenderedMenuView {
    /// The menu as it is first put on the screen: entries computed from the
    /// state, the first one selected.
    pub open spec fn materialize(menu: AnyMenu, data: DataView) -> RenderedMenuView {
        RenderedMenuView {
            menu,
            actions: menu.entries(data).push(ActionView::go_back()),
            selected: Some(0),
            offset: 0,
        }
    }

    /// The menu with its entries computed anew; the selection stays within.
    pub open spec fn reloaded(self, data: DataView) -> RenderedMenuView {
        let actions = self.menu.entries(data).push(ActionView::go_back());
        RenderedMenuView { actions, selected: clamped(self.selected, actions.len()), ..self }
    }

    /// The effects of the selected entry, if an entry is selected.
    pub open spec fn selected_effects(self) -> Option<Seq<ActionTypeView>> {
        match self.selected {
            Some(i) => if i < self.actions.len() {
                Some(self.actions[i as int].action_type)
            } else {
                None
            },
            None => None,
        }
    }

    /// The menu after a key: down and up move the selection by one and
    /// stop at the ends, other keys leave it.
    pub open spec fn after_key(self, key: Key) -> RenderedMenuView {
        if key == Key::Char('j') || key == Key::Down {
            RenderedMenuView {
                selected: clamped(Some(next_index(self.selected)), self.actions.len()),
                ..self
            }
        } else if key == Key::Char('k') || key == Key::Up {
            RenderedMenuView {
                selected: clamped(Some(previous_index(self.selected)), self.actions.len()),
                ..self
            }
        } else {
            self
        }
    }

    /// The effects that a key sets off: those of the selected entry where
    /// the key activates it, none for any other key.
    pub open spec fn key_effects(self, key: Key) -> Option<Seq<ActionTypeView>> {
        if activates(key) {
            self.selected_effects()
        } else {
            None
        }
    }
}

impl RenderedMenu {
    /// Puts a menu on the screen.
    pub fn from(menu: AnyMenu, data: &Data) -> (rendered: RenderedMenu)
        ensures
            rendered.deep_view() == RenderedMenuView::materialize(menu, data.deep_view()),
    {
        let selected = select_first();
        RenderedMenu { actions: menu.actions(data), menu, selected, offset: 0 }
    }

    pub fn handle_key(&mut self, key: Key) -> (effects: Option<Vec<ActionType>>)
        ensures
            final(self).deep_view() == old(self).deep_view().after_key(key),
            effects.deep_view() == old(self).deep_view().key_effects(key),
    {
        match key {
            Key::Enter | Key::Right | Key::Char('l') => self.handle_selected_actions(),
            Key::Char('j') | Key::Down => {
                self.selected = clamp(select_next(self.selected), self.actions.len());
                None
            },
            Key::Char('k') | Key::Up => {
                self.selected = clamp(select_previous(self.selected), self.actions.len());
                None
            },
            _ => None,
        }
    }

    pub fn handle_selected_actions(&mut self) -> (effects: Option<Vec<ActionType>>)
        ensures
            final(self).deep_view() == old(self).deep_view(),
            effects.deep_view() == old(self).deep_view().selected_effects(),
    {
        match self.selected {
            Some(i) => if i < self.actions.len() {
                let effects = clone_effects(&self.actions[i].action_type, 0);
                proof {
                    let all = self.actions@[i as int].action_type.deep_view();
                    assert(all.subrange(0, all.len() as int) =~= all);
                }
                Some(effects)
            } else {
                None
            },
            None => None,
        }
    }

    pub fn reload_actions(&mut self, data: &Data)
        ensures
            final(self).deep_view() == old(self).deep_view().reloaded(data.deep_view()),
    {
        self.actions = self.menu.actions(data);
        self.selected = clamp(self.selected, self.actions.len());
    }
}

} // verus!
