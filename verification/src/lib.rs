//! Monitor layout presets: the display model, the preset store, the matcher
//! that resolves a preset against the attached monitors, and the menu engine
//! that drives them.

pub mod app;
pub mod decimal;
pub mod display_settings;
pub mod error;
pub mod monitor;
pub mod order;
pub mod preset;
pub mod text;

use crate::error::ThisError;
use crate::monitor::{Monitor, MonitorView};
use crate::preset::{Keybind, KeybindView, Preset, PresetView};
use crate::text::string_eq;
use vstd::prelude::*;
use vstd::string::*;

verus! {

/// The argument that starts the program without its menus.
pub const HEADLESS_ARG: &'static str = "--headless";

/// Whether the arguments ask for the program to run without its menus.
pub fn is_headless(args: &Vec<String>) -> (headless: bool)
    ensures
        headless == exists|i: int| 0 <= i < args@.len() && args@[i]@ == HEADLESS_ARG@,
{
    let mut i: usize = 0;
    while i < args.len()
        invariant
            i <= args@.len(),
            forall|k: int| 0 <= k < i ==> args@[k]@ != HEADLESS_ARG@,
        decreases args@.len() - i,
    {
        if string_eq(args[i].as_str(), HEADLESS_ARG) {
            return true;
        }
        i = i + 1;
    }
    false
}

/// A running process: its id, and the path of its executable where it is
/// known.
#[derive(Debug)]
pub struct Process {
    pub pid: u32,
    pub exe: Option<String>,
}

/// Whether a process is another instance of the program at `own_exe` than
/// the one with the id `own_pid`.
pub open spec fn is_other_instance(
    pid: u32,
    exe: Option<Seq<char>>,
    own_exe: Seq<char>,
    own_pid: u32,
) -> bool {
    exe == Some(own_exe) && pid != own_pid
}

/// The ids of the other instances among the first `n` processes, in order.
pub open spec fn others_upto(
    processes: Seq<Process>,
    own_exe: Seq<char>,
    own_pid: u32,
    n: nat,
) -> Seq<u32>
    decreases n,
{
    if n == 0 {
        Seq::empty()
    } else {
        let process = processes[n - 1];
        let before = others_upto(processes, own_exe, own_pid, (n - 1) as nat);
        if is_other_instance(process.pid, process.exe.deep_view(), own_exe, own_pid) {
            before.push(process.pid)
        } else {
            before
        }
    }
}

/// The processes to end so that this one is the only instance of the
/// program: those that run the same executable under another id.
pub fn kill_others(processes: &Vec<Process>, own_exe: &str, own_pid: u32) -> (others: Vec<u32>)
    ensures
        others@ == others_upto(processes@, own_exe@, own_pid, processes@.len()),
{
    let mut others: Vec<u32> = Vec::new();
    let mut i: usize = 0;
    while i < processes.len()
        invariant
            i <= processes@.len(),
            others@ == others_upto(processes@, own_exe@, own_pid, i as nat),
        decreases processes@.len() - i,
    {
        let same_exe = match &processes[i].exe {
            Some(exe) => string_eq(exe.as_str(), own_exe),
            None => false,
        };
        if same_exe && processes[i].pid != own_pid {
            others.push(processes[i].pid);
        }
        i = i + 1;
    }
    others
}

/// Names one record of the preset store for as long as the store lives.
#[derive(Debug, Clone, Copy, PartialEq, Eq, Structural)]
pub struct PresetId {
    pub index: usize,
}

/// One record of the preset store. A deleted record keeps its place, so
/// that the handles of the others stay what they were.
#[derive(Debug)]
pub struct PresetRecord {
    pub preset: Preset,
    pub deleted: bool,
}

/// A record as contracts see it.
pub struct PresetRecordView {
    pub preset: PresetView,
    pub deleted: bool,
}

impl DeepView for PresetRecord {
    type V = PresetRecordView;

    open spec fn deep_view(&self) -> PresetRecordView {
        PresetRecordView { preset: self.preset.deep_view(), deleted: self.deleted }
    }
}

/// The state that menus and hotkeys share: the monitor directory and the
/// preset store.
#[derive(Debug)]
pub struct Data {
    pub monitors: Vec<Monitor>,
    pub presets: Vec<PresetRecord>,
}

/// The shared state as contracts see it.
pub struct DataView {
    pub monitors: Seq<MonitorView>,
    pub presets: Seq<PresetRecordView>,
}

impl DeepView for Data {
    type V = DataView;

    open spec fn deep_view(&self) -> DataView {
        DataView { monitors: self.monitors.deep_view(), presets: self.presets.deep_view() }
    }
}

impl DataView {
    /// The handle names a record, deleted or not.
    pub open spec fn holds(self, id: PresetId) -> bool {
        id.index < self.presets.len()
    }

    /// The handle names a record that was not deleted.
    pub open spec fn is_live(self, id: PresetId) -> bool {
        self.holds(id) && !self.presets[id.index as int].deleted
    }

    /// The text of the preset behind the handle; empty where there is none.
    pub open spec fn name(self, id: PresetId) -> Seq<char> {
        if self.holds(id) {
            self.presets[id.index as int].preset.text()
        } else {
            Seq::empty()
        }
    }

    /// The handles of the records among the first `n` that were not
    /// deleted, in the order of the store.
    pub open spec fn live_upto(self, n: nat) -> Seq<PresetId>
        decreases n,
    {
        if n == 0 {
            Seq::empty()
        } else if self.presets[n - 1].deleted {
            self.live_upto((n - 1) as nat)
        } else {
            self.live_upto((n - 1) as nat).push(PresetId { index: (n - 1) as usize })
        }
    }

    /// The handles of all records that were not deleted.
    pub open spec fn live(self) -> Seq<PresetId> {
        self.live_upto(self.presets.len())
    }

    /// The handles among the first `n` live ones whose preset has a keybind.
    pub open spec fn bound_upto(self, n: nat) -> Seq<PresetId>
        decreases n,
    {
        if n == 0 {
            Seq::empty()
        } else if self.presets[n - 1].deleted || self.presets[n - 1].preset.keybind is None {
            self.bound_upto((n - 1) as nat)
        } else {
            self.bound_upto((n - 1) as nat).push(PresetId { index: (n - 1) as usize })
        }
    }

    /// The store with one more record, not deleted, behind the others.
    pub open spec fn pushed(self, preset: PresetView) -> DataView {
        DataView {
            presets: self.presets.push(PresetRecordView { preset, deleted: false }),
            ..self
        }
    }

    /// The store with the record behind the handle marked deleted.
    pub open spec fn removed(self, id: PresetId) -> DataView {
        DataView {
            presets: self.presets.update(
                id.index as int,
                PresetRecordView { deleted: true, ..self.presets[id.index as int] },
            ),
            ..self
        }
    }

    /// The store with `keybind` on the preset behind the handle.
    pub open spec fn bound(self, id: PresetId, keybind: Option<KeybindView>) -> DataView {
        let record = self.presets[id.index as int];
        DataView {
            presets: self.presets.update(
                id.index as int,
                PresetRecordView { preset: PresetView { keybind, ..record.preset }, ..record },
            ),
            ..self
        }
    }
}

impl Data {
    /// The state at start: the directory, and the presets that were loaded,
    /// in their order, none of them deleted.
    pub fn new(monitors: Vec<Monitor>, presets: Vec<Preset>) -> (data: Data)
        ensures
            data.deep_view().monitors == monitors.deep_view(),
            data.deep_view().presets == Seq::new(
                presets@.len(),
                |i: int| PresetRecordView { preset: presets@[i].deep_view(), deleted: false },
            ),
    {
        let ghost given = presets@;
        let mut ordered: Vec<PresetRecord> = Vec::new();
        for preset in iter: presets
            invariant
                iter.seq() == given,
                ordered@.len() == iter.index(),
                forall|k: int|
                    0 <= k < ordered@.len() ==> (#[trigger] ordered@[k]).deep_view() == (
                    PresetRecordView { preset: given[k].deep_view(), deleted: false }),
        {
            ordered.push(PresetRecord { preset, deleted: false });
        }
        let data = Data { monitors, presets: ordered };
        proof {
            assert(data.deep_view().presets =~= Seq::new(
                given.len(),
                |i: int| PresetRecordView { preset: given[i].deep_view(), deleted: false },
            ));
        }
        data
    }

    /// The preset behind the handle, deleted or not.
    pub fn preset(&self, id: PresetId) -> (preset: Option<&Preset>)
        ensures
            self.deep_view().holds(id) ==> preset is Some && preset->0.deep_view()
                == self.deep_view().presets[id.index as int].preset,
            !self.deep_view().holds(id) ==> preset is None,
    {
        if id.index < self.presets.len() {
            Some(&self.presets[id.index].preset)
        } else {
            None
        }
    }

    /// The text under which the preset behind the handle is shown.
    pub fn name(&self, id: PresetId) -> (name: String)
        ensures
            name@ == self.deep_view().name(id),
    {
        match self.preset(id) {
            Some(preset) => preset.to_string(),
            None => String::new(),
        }
    }

    /// The handles of the presets that were not deleted, in store order:
    /// the presets to list and to save.
    pub fn live(&self) -> (ids: Vec<PresetId>)
        ensures
            ids@ == self.deep_view().live(),
    {
        let mut ids: Vec<PresetId> = Vec::new();
        let mut i: usize = 0;
        while i < self.presets.len()
            invariant
                i <= self.presets@.len(),
                ids@ == self.deep_view().live_upto(i as nat),
            decreases self.presets@.len() - i,
        {
            if !self.presets[i].deleted {
                ids.push(PresetId { index: i });
            }
            i = i + 1;
        }
        ids
    }

    /// The handles of the live presets that have a keybind, in store order:
    /// one hotkey is registered for each.
    pub fn hotkeys(&self) -> (ids: Vec<PresetId>)
        ensures
            ids@ == self.deep_view().bound_upto(self.presets@.len()),
    {
        let mut ids: Vec<PresetId> = Vec::new();
        let mut i: usize = 0;
        while i < self.presets.len()
            invariant
                i <= self.presets@.len(),
                ids@ == self.deep_view().bound_upto(i as nat),
            decreases self.presets@.len() - i,
        {
            if !self.presets[i].deleted && self.presets[i].preset.keybind.is_some() {
                ids.push(PresetId { index: i });
            }
            i = i + 1;
        }
        ids
    }

    /// Appends a preset to the store and hands out its handle.
    pub fn push(&mut self, preset: Preset) -> (id: PresetId)
        ensures
            id.index == old(self).presets@.len(),
            final(self).deep_view() == old(self).deep_view().pushed(preset.deep_view()),
    {
        let id = PresetId { index: self.presets.len() };
        self.presets.push(PresetRecord { preset, deleted: false });
        proof {
            assert(self.deep_view().presets =~= old(self).deep_view().pushed(
                preset.deep_view(),
            ).presets);
        }
        id
    }

    /// Deletes the preset behind the handle. The record is found by its
    /// handle, never by what it holds.
    pub fn delete(&mut self, id: PresetId) -> (done: Result<(), ThisError>)
        ensures
            old(self).deep_view().is_live(id) ==> done is Ok && final(self).deep_view() == old(
                self,
            ).deep_view().removed(id),
            !old(self).deep_view().is_live(id) ==> done == Err::<(), ThisError>(
                ThisError::PresetNotFound,
            ) && final(self).deep_view() == old(self).deep_view(),
    {
        if id.index < self.presets.len() && !self.presets[id.index].deleted {
            self.presets[id.index].deleted = true;
            proof {
                assert(self.deep_view().presets =~= old(self).deep_view().removed(id).presets);
            }
            Ok(())
        } else {
            Err(ThisError::PresetNotFound)
        }
    }

    /// Sets or clears the keybind of the preset behind the handle.
    pub fn set_keybind(&mut self, id: PresetId, keybind: Option<Keybind>) -> (done: Result<
        (),
        ThisError,
    >)
        ensures
            old(self).deep_view().holds(id) ==> done is Ok && final(self).deep_view() == old(
                self,
            ).deep_view().bound(id, keybind.deep_view()),
            !old(self).deep_view().holds(id) ==> done == Err::<(), ThisError>(
                ThisError::PresetNotFound,
            ) && final(self).deep_view() == old(self).deep_view(),
    {
        if id.index < self.presets.len() {
            self.presets[id.index].preset.keybind = keybind;
            proof {
                assert(self.deep_view().presets =~= old(self).deep_view().bound(
                    id,
                    keybind.deep_view(),
                ).presets);
            }
            Ok(())
        } else {
            Err(ThisError::PresetNotFound)
        }
    }
}

} // verus!
