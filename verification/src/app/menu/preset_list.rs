//! The menu that lists the presets.

use crate::app::action::{Action, ActionType, ActionTypeView, ActionView};
use crate::app::menu::manage_preset::MenuManagePreset;
use crate::app::menu::{AnyMenu, Menu};
use crate::order::{
    ascends,
    lemma_order_ascends,
    lemma_order_in_range,
    lex_le,
    order_of,
    sort_order,
};
use crate::text::views;
use crate::{Data, DataView, PresetId};
use vstd::prelude::*;
use vstd::string::*;

verus! {

#[derive(Debug, Clone, Copy, PartialEq, Eq, Structural)]
pub struct MenuPresetList;

/// The texts of the presets behind `ids`, in the order of `ids`.
pub open spec fn shown_names(data: DataView, ids: Seq<PresetId>) -> Seq<Seq<char>> {
    Seq::new(ids.len(), |i: int| data.name(ids[i]))
}

impl Menu for MenuPresetList {
    open spec fn title(&self, data: DataView) -> Seq<char> {
        "Preset to config"@
    }

    /// One entry for each preset that was not deleted, named by the text
    /// of the preset and opening its menu; the entries ascend by name, and
    /// entries of one name keep the order of the store.
    open spec fn entries(&self, data: DataView) -> Seq<ActionView> {
        let ids = data.live();
        let names = shown_names(data, ids);
        let order = order_of(names, names.len());
        Seq::new(
            ids.len(),
            |k: int|
                ActionView {
                    name: names[order[k] as int],
                    action_type: seq![
                        ActionTypeView::OpenMenu(
                            AnyMenu::ManagePreset(
                                MenuManagePreset { preset: ids[order[k] as int] },
                            ),
                        ),
                    ],
                },
        )
    }

    fn name(&self, data: &Data) -> (name: String) {
        String::from_str("Preset to config")
    }

    fn with_actions(&self, data: &Data) -> (actions: Vec<Action>) {
        let ids = data.live();
        let mut names: Vec<String> = Vec::new();
        let mut i: usize = 0;
        while i < ids.len()
            invariant
                i <= ids@.len(),
                names@.len() == i,
                forall|k: int|
                    0 <= k < i ==> (#[trigger] names@[k])@ == data.deep_view().name(ids@[k]),
            decreases ids@.len() - i,
        {
            names.push(data.name(ids[i]));
            i = i + 1;
        }
        proof {
            assert(views(names@) =~= shown_names(data.deep_view(), ids@));
            lemma_order_in_range(views(names@), names@.len());
        }
        let order = sort_order(&names);
        let mut vec: Vec<Action> = Vec::new();
        let mut k: usize = 0;
        while k < order.len()
            invariant
                k <= order@.len(),
                order@.len() == ids@.len(),
                names@.len() == ids@.len(),
                ids@ == data.deep_view().live(),
                views(names@) == shown_names(data.deep_view(), ids@),
                order@ == order_of(views(names@), names@.len()),
                forall|j: int| 0 <= j < order@.len() ==> (#[trigger] order@[j]) < ids@.len(),
                vec@.len() == k,
                forall|j: int|
                    0 <= j < k ==> (#[trigger] vec@[j]).deep_view() == self.entries(
                        data.deep_view(),
                    )[j],
            decreases order@.len() - k,
        {
            let at = order[k];
            proof {
                assert(views(names@)[at as int] == names@[at as int]@);
            }
            vec.push(
                Action::single_action(
                    names[at].as_str(),
                    ActionType::OpenMenu(
                        AnyMenu::ManagePreset(MenuManagePreset { preset: ids[at] }),
                    ),
                ),
            );
            k = k + 1;
        }
        proof {
            assert(vec.deep_view() =~= self.entries(data.deep_view()));
        }
        vec
    }
}

/// The entries of the preset list ascend by name.
pub proof fn lemma_preset_list_ascends(data: DataView)
    ensures
        forall|a: int, b: int|
            0 <= a < b < MenuPresetList.entries(data).len() ==> lex_le(
                MenuPresetList.entries(data)[a].name,
                MenuPresetList.entries(data)[b].name,
            ),
{
    let names = shown_names(data, data.live());
    lemma_order_ascends(names, names.len());
    lemma_order_in_range(names, names.len());
    let order = order_of(names, names.len());
    assert forall|a: int, b: int| 0 <= a < b < MenuPresetList.entries(data).len() implies lex_le(
        MenuPresetList.entries(data)[a].name,
        MenuPresetList.entries(data)[b].name,
    ) by {
        assert(lex_le(names[order[a] as int], names[order[b] as int]));
    }
}

} // verus!
