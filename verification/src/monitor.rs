//! The attached monitors, by name, and what applying settings does to the
//! display mode of one of them.

use crate::display_settings::{
    DisplayMode, DisplaySettings, DM_DISPLAYORIENTATION, DM_PELSHEIGHT, DM_PELSWIDTH, DM_POSITION,
};
use crate::order::{lemma_order_in_range, order_of, sort_order};
use crate::text::views;
use vstd::prelude::*;
use vstd::slice::{slice_index_get, slice_subrange};
use vstd::string::*;

verus! {

pub type MonitorName = String;

/// One attached monitor. `device` says which enumerated display device it
/// is; two monitors are the same monitor when their names are equal.
#[derive(Debug)]
pub struct Monitor {
    pub name: MonitorName,
    pub device: usize,
}

/// A monitor as contracts see it.
pub struct MonitorView {
    pub name: Seq<char>,
    pub device: usize,
}

impl DeepView for Monitor {
    type V = MonitorView;

    open spec fn deep_view(&self) -> MonitorView {
        MonitorView { name: self.name@, device: self.device }
    }
}

impl PartialEq for Monitor {
    fn eq(&self, other: &Self) -> (equal: bool) {
        self.name == other.name
    }
}

impl Eq for Monitor {

}

impl vstd::std_specs::cmp::PartialEqSpecImpl for Monitor {
    open spec fn obeys_eq_spec() -> bool {
        true
    }

    open spec fn eq_spec(&self, other: &Self) -> bool {
        self.name@ == other.name@
    }
}

/// What `String::from_utf16_lossy` decodes a run of UTF-16 units to.
pub uninterp spec fn utf16_lossy(units: Seq<u16>) -> Seq<char>;

/// `String::from_utf16_lossy`: decodes UTF-16, putting U+FFFD in place of
/// each unit that is not part of a valid pair. The result is a function of
/// the units alone.
#[verifier::external_body]
fn from_utf16_lossy(units: &[u16]) -> (decoded: String)
    ensures
        decoded@ == utf16_lossy(units@),
{
    String::from_utf16_lossy(units)
}

/// Length of `wide` up to its first zero unit, or all of it.
pub open spec fn terminated_len(wide: Seq<u16>) -> int
    decreases wide.len(),
{
    if wide.len() == 0 || wide[0] == 0 {
        0
    } else {
        1 + terminated_len(wide.drop_first())
    }
}

proof fn lemma_terminated_len(wide: Seq<u16>, n: int)
    requires
        0 <= n <= wide.len(),
        forall|k: int| 0 <= k < n ==> wide[k] != 0,
        n == wide.len() || wide[n] == 0,
    ensures
        terminated_len(wide) == n,
    decreases n,
{
    if n > 0 {
        let rest = wide.drop_first();
        assert forall|k: int| 0 <= k < n - 1 implies rest[k] != 0 by {
            assert(rest[k] == wide[k + 1]);
        }
        lemma_terminated_len(rest, n - 1);
    }
}

/// The number of units of `wide` before its first zero unit; all of them
/// where none is zero.
pub fn wide_len(wide: &[u16]) -> (len: usize)
    ensures
        len == terminated_len(wide@),
        len <= wide@.len(),
{
    let mut len: usize = 0;
    while len < wide.len() && *slice_index_get(wide, len) != 0
        invariant
            len <= wide@.len(),
            forall|k: int| 0 <= k < len ==> wide@[k] != 0,
        decreases wide@.len() - len,
    {
        len = len + 1;
    }
    proof {
        lemma_terminated_len(wide@, len as int);
    }
    len
}

/// Decodes a zero-terminated UTF-16 buffer: what stands before the first
/// zero unit, or the whole buffer where none is zero.
pub fn wide_to_string(wide: &[u16]) -> (decoded: String)
    ensures
        decoded@ == utf16_lossy(wide@.subrange(0, terminated_len(wide@))),
{
    let len = wide_len(wide);
    from_utf16_lossy(slice_subrange(wide, 0, len))
}

impl Monitor {
    /// The name of a display device, from the buffer that holds it.
    pub fn get_name(device_name: &[u16]) -> (name: MonitorName)
        ensures
            name@ == utf16_lossy(device_name@.subrange(0, terminated_len(device_name@))),
    {
        wide_to_string(device_name)
    }

    /// The monitors named by `names`, each with its place in `names` as its
    /// device, arranged by ascending name.
    pub open spec fn directory(names: Seq<Seq<char>>) -> Seq<MonitorView> {
        let order = order_of(names, names.len());
        Seq::new(
            names.len(),
            |k: int| MonitorView { name: names[order[k] as int], device: order[k] },
        )
    }

    /// Builds the monitor directory from the names of the display devices
    /// in the order they were enumerated.
    pub fn get_monitors(names: &Vec<String>) -> (monitors: Vec<Monitor>)
        ensures
            monitors.deep_view() == Self::directory(views(names@)),
    {
        let order = sort_order(names);
        proof {
            lemma_order_in_range(views(names@), names@.len());
        }
        let mut monitors: Vec<Monitor> = Vec::new();
        let mut k: usize = 0;
        while k < order.len()
            invariant
                k <= order@.len(),
                order@.len() == names@.len(),
                order@ == order_of(views(names@), names@.len()),
                forall|j: int| 0 <= j < order@.len() ==> order@[j] < names@.len(),
                monitors@.len() == k,
                forall|j: int|
                    0 <= j < k ==> (#[trigger] monitors@[j]).deep_view() == (MonitorView {
                        name: names@[order@[j] as int]@,
                        device: order@[j],
                    }),
            decreases order@.len() - k,
        {
            let device = order[k];
            monitors.push(Monitor { name: names[device].clone(), device });
            k = k + 1;
        }
        proof {
            assert(monitors.deep_view() =~= Self::directory(views(names@)));
        }
        monitors
    }

    /// The display mode to write so that a monitor whose mode is `current`
    /// takes `display_settings`.
    pub fn set_settings(current: DisplayMode, display_settings: &DisplaySettings) -> (mode:
        DisplayMode)
        ensures
            mode == current.with_settings(*display_settings),
    {
        let mut mode = current;
        if !DisplaySettings::from(&mode).orientation.is_same_direction(
            &display_settings.orientation,
        ) {
            let width = mode.width;
            mode.width = mode.height;
            mode.height = width;
        }
        mode.orientation = display_settings.orientation;
        mode.position = display_settings.position;
        mode.fields = mode.fields | DM_DISPLAYORIENTATION | DM_PELSWIDTH | DM_PELSHEIGHT
            | DM_POSITION;
        mode
    }
}

} // verus!
