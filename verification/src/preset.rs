//! Presets: the settings of each monitor by name, an optional keybind, and
//! the matcher that resolves a preset against the attached monitors.

use crate::display_settings::{
    lemma_parse_settings, parse_settings, DisplayMode, DisplaySettings,
};
use crate::error::ThisError;
use crate::monitor::{Monitor, MonitorName, MonitorView};
use crate::text::{
    index_of,
    join,
    join_strings,
    lemma_index_of,
    lemma_index_of_is,
    lemma_split_join,
    remove_all,
    split,
    split_at,
    string_eq,
    to_uppercase,
    uppercase,
    views,
    without,
};
use vstd::prelude::*;
use vstd::string::*;

verus! {

/// A key of the keyboard: its virtual-key code, and the name under which
/// the key table lists it.
#[derive(Debug)]
pub struct VirtualKey {
    pub code: u16,
    pub name: String,
}

/// A key as contracts see it.
pub struct VirtualKeyView {
    pub code: u16,
    pub name: Seq<char>,
}

impl DeepView for VirtualKey {
    type V = VirtualKeyView;

    open spec fn deep_view(&self) -> VirtualKeyView {
        VirtualKeyView { code: self.code, name: self.name@ }
    }
}

impl Clone for VirtualKey {
    fn clone(&self) -> (copy: Self)
        ensures
            copy.deep_view() == self.deep_view(),
    {
        VirtualKey { code: self.code, name: self.name.clone() }
    }
}

impl VirtualKeyView {
    /// The name as a keybind shows it: without the `VK_` of the key table.
    pub open spec fn short_name(self) -> Seq<char> {
        without(self.name, "VK_"@)
    }
}

/// A keyboard shortcut: the key that fires it and the keys held with it.
#[derive(Debug)]
pub struct Keybind {
    pub trigger_key: VirtualKey,
    pub modifiers: Vec<VirtualKey>,
}

/// A keybind as contracts see it.
pub struct KeybindView {
    pub trigger_key: VirtualKeyView,
    pub modifiers: Seq<VirtualKeyView>,
}

impl DeepView for Keybind {
    type V = KeybindView;

    open spec fn deep_view(&self) -> KeybindView {
        KeybindView {
            trigger_key: self.trigger_key.deep_view(),
            modifiers: self.modifiers.deep_view(),
        }
    }
}

impl KeybindView {
    /// The modifiers in the order they were met, then the trigger.
    pub open spec fn keys(self) -> Seq<VirtualKeyView> {
        self.modifiers.push(self.trigger_key)
    }

    /// The short names of `keys()`.
    pub open spec fn names(self) -> Seq<Seq<char>> {
        Seq::new(self.keys().len(), |i: int| self.keys()[i].short_name())
    }

    /// The canonical text: the short names with `+` between them.
    pub open spec fn text(self) -> Seq<char> {
        join(self.names(), "+"@)
    }

    /// The codes of the modifiers, as a set.
    pub open spec fn modifier_codes(self) -> Set<u16> {
        Set::new(|code: u16| has_code(self.modifiers, code))
    }

    /// Same trigger key and same set of modifiers, whatever their order.
    pub open spec fn same_keys(self, other: KeybindView) -> bool {
        &&& self.trigger_key.code == other.trigger_key.code
        &&& self.modifier_codes() == other.modifier_codes()
    }
}

/// The keybind made of looked-up keys, the last of them the trigger: there
/// is none where no key is given or one of them was not found.
pub open spec fn assemble(keys: Seq<Option<VirtualKeyView>>) -> Result<KeybindView, ThisError> {
    if keys.len() == 0 || exists|i: int| 0 <= i < keys.len() && keys[i] is None {
        Err(ThisError::KeybindParsingFailed)
    } else {
        Ok(
            KeybindView {
                trigger_key: keys.last()->0,
                modifiers: Seq::new((keys.len() - 1) as nat, |i: int| keys[i]->0),
            },
        )
    }
}

/// What reading a textual keybind gives when `lookup` is the key table:
/// the upper-case text is cut at every `+`, each piece is looked up, and the
/// keys found are assembled.
pub open spec fn parse(
    text: Seq<char>,
    lookup: spec_fn(Seq<char>) -> Option<VirtualKeyView>,
) -> Result<KeybindView, ThisError> {
    let names = split(uppercase(text), '+');
    assemble(Seq::new(names.len(), |i: int| lookup(names[i])))
}

/// Reading back the canonical text of a keybind gives a keybind with the
/// same trigger key and the same modifiers, in the same order. This holds
/// of a keybind whose text is its own upper-case form and whose keys each
/// have a short name without `+` that the key table leads back to the key.
pub proof fn lemma_parse_text(
    keybind: KeybindView,
    lookup: spec_fn(Seq<char>) -> Option<VirtualKeyView>,
)
    requires
        uppercase(keybind.text()) == keybind.text(),
        forall|i: int|
            0 <= i < keybind.keys().len() ==> {
                let key = #[trigger] keybind.keys()[i];
                &&& !key.short_name().contains('+')
                &&& lookup(key.short_name()) is Some
                &&& lookup(key.short_name())->0.code == key.code
            },
    ensures
        parse(keybind.text(), lookup) is Ok,
        parse(keybind.text(), lookup)->Ok_0.same_keys(keybind),
        parse(keybind.text(), lookup)->Ok_0.modifiers.len() == keybind.modifiers.len(),
        forall|i: int|
            0 <= i < keybind.modifiers.len() ==> parse(
                keybind.text(),
                lookup,
            )->Ok_0.modifiers[i].code == keybind.modifiers[i].code,
{
    reveal_strlit("+");
    assert("+"@ =~= seq!['+']);
    let names = keybind.names();
    assert forall|i: int| 0 <= i < names.len() implies !(#[trigger] names[i]).contains('+') by {
        assert(names[i] == keybind.keys()[i].short_name());
    }
    lemma_split_join(names, '+');
    let found = Seq::new(names.len(), |i: int| lookup(names[i]));
    assert forall|i: int| 0 <= i < found.len() implies (#[trigger] found[i]) is Some
        && found[i]->0.code == keybind.keys()[i].code by {
        assert(names[i] == keybind.keys()[i].short_name());
    }
    let parsed = parse(keybind.text(), lookup)->Ok_0;
    assert(parsed.trigger_key.code == keybind.trigger_key.code) by {
        assert(found.last() == found[found.len() - 1]);
        assert(keybind.keys()[keybind.keys().len() - 1] == keybind.trigger_key);
    }
    assert forall|i: int| 0 <= i < keybind.modifiers.len() implies parsed.modifiers[i].code
        == keybind.modifiers[i].code by {
        assert(keybind.keys()[i] == keybind.modifiers[i]);
        assert(parsed.modifiers[i] == found[i]->0);
    }
    assert(parsed.modifier_codes() =~= keybind.modifier_codes()) by {
        assert forall|code: u16| parsed.modifier_codes().contains(code)
            <==> keybind.modifier_codes().contains(code) by {
            if parsed.modifier_codes().contains(code) {
                let i = choose|i: int|
                    0 <= i < parsed.modifiers.len() && parsed.modifiers[i].code == code;
                assert(keybind.modifiers[i].code == code);
            }
            if keybind.modifier_codes().contains(code) {
                let i = choose|i: int|
                    0 <= i < keybind.modifiers.len() && keybind.modifiers[i].code == code;
                assert(parsed.modifiers[i].code == code);
            }
        }
    }
}

impl Clone for Keybind {
    fn clone(&self) -> (copy: Self)
        ensures
            copy.deep_view() == self.deep_view(),
    {
        let mut modifiers: Vec<VirtualKey> = Vec::new();
        let mut i: usize = 0;
        while i < self.modifiers.len()
            invariant
                i <= self.modifiers@.len(),
                modifiers@.len() == i,
                forall|k: int|
                    0 <= k < i ==> (#[trigger] modifiers@[k]).deep_view()
                        == self.modifiers@[k].deep_view(),
            decreases self.modifiers@.len() - i,
        {
            modifiers.push(self.modifiers[i].clone());
            i = i + 1;
        }
        proof {
            assert(modifiers.deep_view() =~= self.modifiers.deep_view());
        }
        Keybind { trigger_key: self.trigger_key.clone(), modifiers }
    }
}

/// Whether a key of the given code is among `keys`.
pub open spec fn has_code(keys: Seq<VirtualKeyView>, code: u16) -> bool {
    exists|i: int| 0 <= i < keys.len() && keys[i].code == code
}

/// Whether every key of `keys` has its code among `others`.
pub open spec fn codes_within(keys: Seq<VirtualKeyView>, others: Seq<VirtualKeyView>) -> bool {
    forall|i: int| 0 <= i < keys.len() ==> has_code(others, (#[trigger] keys[i]).code)
}

/// Two lists of keys have the same set of codes exactly when the codes of
/// each are among those of the other.
pub proof fn lemma_same_codes(a: KeybindView, b: KeybindView)
    ensures
        a.modifier_codes() == b.modifier_codes() <==> codes_within(a.modifiers, b.modifiers)
            && codes_within(b.modifiers, a.modifiers),
{
    if codes_within(a.modifiers, b.modifiers) && codes_within(b.modifiers, a.modifiers) {
        assert forall|code: u16| a.modifier_codes().contains(code) == b.modifier_codes().contains(
            code,
        ) by {
            if has_code(a.modifiers, code) {
                let i = choose|i: int| 0 <= i < a.modifiers.len() && a.modifiers[i].code == code;
                assert(has_code(b.modifiers, a.modifiers[i].code));
            }
            if has_code(b.modifiers, code) {
                let i = choose|i: int| 0 <= i < b.modifiers.len() && b.modifiers[i].code == code;
                assert(has_code(a.modifiers, b.modifiers[i].code));
            }
        }
        assert(a.modifier_codes() =~= b.modifier_codes());
    }
    if a.modifier_codes() == b.modifier_codes() {
        assert forall|i: int| 0 <= i < a.modifiers.len() implies has_code(
            b.modifiers,
            (#[trigger] a.modifiers[i]).code,
        ) by {
            assert(has_code(a.modifiers, a.modifiers[i].code));
            assert(a.modifier_codes().contains(a.modifiers[i].code));
        }
        assert forall|i: int| 0 <= i < b.modifiers.len() implies has_code(
            a.modifiers,
            (#[trigger] b.modifiers[i]).code,
        ) by {
            assert(has_code(b.modifiers, b.modifiers[i].code));
            assert(b.modifier_codes().contains(b.modifiers[i].code));
        }
    }
}

/// Whether a key of the given code is among `keys`.
fn holds_code(keys: &Vec<VirtualKey>, code: u16) -> (found: bool)
    ensures
        found == has_code(keys.deep_view(), code),
{
    let mut i: usize = 0;
    while i < keys.len()
        invariant
            i <= keys@.len(),
            forall|k: int| 0 <= k < i ==> keys.deep_view()[k].code != code,
        decreases keys@.len() - i,
    {
        if keys[i].code == code {
            proof {
                assert(keys.deep_view()[i as int].code == code);
            }
            return true;
        }
        i = i + 1;
    }
    false
}

/// Whether every key of `keys` has its code among `others`.
fn all_codes_within(keys: &Vec<VirtualKey>, others: &Vec<VirtualKey>) -> (within: bool)
    ensures
        within == codes_within(keys.deep_view(), others.deep_view()),
{
    let mut i: usize = 0;
    while i < keys.len()
        invariant
            i <= keys@.len(),
            forall|k: int|
                0 <= k < i ==> has_code(others.deep_view(), (#[trigger] keys.deep_view()[k]).code),
        decreases keys@.len() - i,
    {
        if !holds_code(others, keys[i].code) {
            proof {
                assert(keys.deep_view()[i as int].code == keys@[i as int].code);
            }
            return false;
        }
        proof {
            assert(keys.deep_view()[i as int].code == keys@[i as int].code);
        }
        i = i + 1;
    }
    true
}

impl Keybind {
    /// Whether both keybinds have the same trigger key and the same set of
    /// modifiers, in whatever order.
    pub fn same_keys(&self, other: &Keybind) -> (same: bool)
        ensures
            same == self.deep_view().same_keys(other.deep_view()),
    {
        proof {
            lemma_same_codes(self.deep_view(), other.deep_view());
        }
        self.trigger_key.code == other.trigger_key.code && all_codes_within(
            &self.modifiers,
            &other.modifiers,
        ) && all_codes_within(&other.modifiers, &self.modifiers)
    }

    /// The canonical text `MOD+MOD+...+TRIGGER`.
    pub fn to_string(&self) -> (text: String)
        ensures
            text@ == self.deep_view().text(),
    {
        let mut vec: Vec<String> = Vec::new();
        let mut i: usize = 0;
        while i < self.modifiers.len()
            invariant
                i <= self.modifiers@.len(),
                vec@.len() == i,
                forall|k: int|
                    0 <= k < i ==> (#[trigger] vec@[k])@
                        == self.modifiers@[k].deep_view().short_name(),
            decreases self.modifiers@.len() - i,
        {
            vec.push(remove_all(self.modifiers[i].name.as_str(), "VK_"));
            i = i + 1;
        }
        vec.push(remove_all(self.trigger_key.name.as_str(), "VK_"));
        proof {
            assert(views(vec@) =~= self.deep_view().names());
        }
        join_strings(&vec, "+")
    }

    /// The key names that a textual keybind holds: its upper-case form, cut
    /// at every `+`. The last one names the trigger.
    pub fn key_names(value: &str) -> (names: Vec<String>)
        ensures
            views(names@) == split(uppercase(value@), '+'),
    {
        let s = to_uppercase(value);
        split_at(s.as_str(), '+')
    }

    /// Makes a keybind of the keys that the names of a textual keybind were
    /// looked up to, in their order; `None` stands for a name that is no key.
    pub fn try_from(keys: Vec<Option<VirtualKey>>) -> (parsed: Result<Keybind, ThisError>)
        ensures
            match assemble(keys.deep_view()) {
                Ok(keybind) => parsed is Ok && parsed->Ok_0.deep_view() == keybind,
                Err(error) => parsed == Err::<Keybind, ThisError>(error),
            },
    {
        let ghost given = keys.deep_view();
        let ghost all = keys@;
        let mut rest = keys;
        assert(forall|k: int| 0 <= k < all.len() ==> given[k] == all[k].deep_view());
        let trigger_key = match rest.pop() {
            Some(Some(key)) => key,
            Some(None) => {
                proof {
                    assert(given[given.len() - 1] is None);
                }
                return Err(ThisError::KeybindParsingFailed);
            },
            None => {
                return Err(ThisError::KeybindParsingFailed);
            },
        };
        assert(given.last() == Some(trigger_key.deep_view()));
        assert(rest@ == all.drop_last());
        let mut modifiers: Vec<VirtualKey> = Vec::new();
        let mut i: usize = 0;
        let n = rest.len();
        while i < n
            invariant
                i <= n,
                n == rest@.len(),
                n + 1 == given.len(),
                given == keys.deep_view(),
                forall|k: int| 0 <= k < n ==> (#[trigger] rest@[k]).deep_view() == given[k],
                modifiers@.len() == i,
                forall|k: int|
                    0 <= k < i ==> given[k] == Some((#[trigger] modifiers@[k]).deep_view()),
            decreases n - i,
        {
            match &rest[i] {
                Some(key) => {
                    modifiers.push(key.clone());
                },
                None => {
                    proof {
                        assert(rest@[i as int].deep_view() == given[i as int]);
                        assert(given[i as int] is None);
                    }
                    return Err(ThisError::KeybindParsingFailed);
                },
            }
            i = i + 1;
        }
        proof {
            assert(modifiers.deep_view() =~= Seq::new(
                (given.len() - 1) as nat,
                |k: int| given[k]->0,
            ));
            assert forall|k: int| 0 <= k < given.len() implies given[k] is Some by {
                if k < n {
                    assert(given[k] == Some(modifiers@[k].deep_view()));
                }
            }
        }
        Ok(Keybind { trigger_key, modifiers })
    }
}

/// The names of the entries of a settings map, in order.
pub open spec fn entry_names(map: Seq<(Seq<char>, DisplaySettings)>) -> Seq<Seq<char>> {
    Seq::new(map.len(), |i: int| map[i].0)
}

/// `map` with `settings` under `name`: in the place of the entry of that
/// name where there is one, else as a new last entry.
pub open spec fn put(
    map: Seq<(Seq<char>, DisplaySettings)>,
    name: Seq<char>,
    settings: DisplaySettings,
) -> Seq<(Seq<char>, DisplaySettings)> {
    let at = index_of(entry_names(map), name);
    if at < map.len() {
        map.update(at, (name, settings))
    } else {
        map.push((name, settings))
    }
}

/// No name occurs twice.
pub open spec fn unique_names(map: Seq<(Seq<char>, DisplaySettings)>) -> bool {
    forall|i: int, j: int| 0 <= i < j < map.len() ==> map[i].0 != map[j].0
}

/// Settings by monitor name. Each name occurs once; the entries keep the
/// order in which their names first came in.
#[derive(Debug)]
pub struct SettingsMap {
    entries: Vec<(MonitorName, DisplaySettings)>,
}

impl View for SettingsMap {
    type V = Seq<(Seq<char>, DisplaySettings)>;

    closed spec fn view(&self) -> Seq<(Seq<char>, DisplaySettings)> {
        Seq::new(self.entries@.len(), |i: int| (self.entries@[i].0@, self.entries@[i].1))
    }
}

impl Clone for SettingsMap {
    fn clone(&self) -> (copy: Self)
        ensures
            copy@ == self@,
    {
        proof {
            use_type_invariant(self);
        }
        let mut entries: Vec<(MonitorName, DisplaySettings)> = Vec::new();
        let mut i: usize = 0;
        while i < self.entries.len()
            invariant
                i <= self.entries@.len(),
                entries@.len() == i,
                forall|k: int|
                    0 <= k < i ==> (#[trigger] entries@[k]).0@ == self.entries@[k].0@
                        && entries@[k].1 == self.entries@[k].1,
            decreases self.entries@.len() - i,
        {
            entries.push((self.entries[i].0.clone(), self.entries[i].1));
            i = i + 1;
        }
        let copy = SettingsMap { entries };
        proof {
            assert(copy@ =~= self@);
        }
        copy
    }
}

impl SettingsMap {
    #[verifier::type_invariant]
    spec fn distinct(self) -> bool {
        forall|i: int, j: int|
            0 <= i < j < self.entries@.len() ==> self.entries@[i].0@ != self.entries@[j].0@
    }

    pub fn new() -> (map: SettingsMap)
        ensures
            map@ == Seq::<(Seq<char>, DisplaySettings)>::empty(),
    {
        let map = SettingsMap { entries: Vec::new() };
        proof {
            assert(map@ =~= Seq::<(Seq<char>, DisplaySettings)>::empty());
        }
        map
    }

    /// The number of entries. No two of them have the same name.
    pub fn len(&self) -> (len: usize)
        ensures
            len == self@.len(),
            unique_names(self@),
    {
        proof {
            use_type_invariant(self);
        }
        self.entries.len()
    }

    /// The name of entry `i`.
    pub fn name(&self, i: usize) -> (name: &String)
        requires
            i < self@.len(),
        ensures
            name@ == self@[i as int].0,
    {
        &self.entries[i].0
    }

    /// The settings of entry `i`.
    pub fn settings(&self, i: usize) -> (settings: DisplaySettings)
        requires
            i < self@.len(),
        ensures
            settings == self@[i as int].1,
    {
        self.entries[i].1
    }

    /// The place of the entry of the given name, or `len()`.
    pub fn position(&self, name: &str) -> (at: usize)
        ensures
            at == index_of(entry_names(self@), name@),
    {
        let mut at: usize = 0;
        while at < self.entries.len() && !string_eq(self.entries[at].0.as_str(), name)
            invariant
                at <= self.entries@.len(),
                forall|k: int| 0 <= k < at ==> self.entries@[k].0@ != name@,
            decreases self.entries@.len() - at,
        {
            at = at + 1;
        }
        proof {
            lemma_index_of_is(entry_names(self@), name@, at as int);
        }
        at
    }

    /// The settings under `name`, if it has any.
    pub fn get(&self, name: &str) -> (settings: Option<DisplaySettings>)
        ensures
            settings == (if index_of(entry_names(self@), name@) < self@.len() {
                Some(self@[index_of(entry_names(self@), name@)].1)
            } else {
                None
            }),
    {
        let at = self.position(name);
        if at < self.entries.len() {
            Some(self.entries[at].1)
        } else {
            None
        }
    }

    /// This map with `settings` under `name`, in the place of what was there.
    pub fn with(self, name: MonitorName, settings: DisplaySettings) -> (map: SettingsMap)
        ensures
            map@ == put(self@, name@, settings),
    {
        proof {
            use_type_invariant(&self);
            lemma_index_of(entry_names(self@), name@);
        }
        let at = self.position(name.as_str());
        let ghost before = self.entries@;
        let ghost names = entry_names(self@);
        assert(forall|k: int| 0 <= k < before.len() ==> names[k] == before[k].0@);
        let mut entries = self.entries;
        if at < entries.len() {
            entries[at] = (name, settings);
        } else {
            entries.push((name, settings));
        }
        proof {
            assert forall|i: int, j: int| 0 <= i < j < entries@.len() implies entries@[i].0@
                != entries@[j].0@ by {
                if i < before.len() {
                    assert(names[i] == before[i].0@);
                }
                if j < before.len() {
                    assert(names[j] == before[j].0@);
                }
            }
        }
        let map = SettingsMap { entries };
        proof {
            assert(map@ =~= put(self@, name@, settings));
        }
        map
    }

    /// Puts `settings` under `name`, in the place of what was there.
    pub fn insert(&mut self, name: MonitorName, settings: DisplaySettings)
        ensures
            final(self)@ == put(old(self)@, name@, settings),
    {
        let mut taken = SettingsMap::new();
        core::mem::swap(self, &mut taken);
        *self = taken.with(name, settings);
    }
}

/// The names of the monitors of a directory, in order.
pub open spec fn monitor_names(monitors: Seq<MonitorView>) -> Seq<Seq<char>> {
    Seq::new(monitors.len(), |i: int| monitors[i].name)
}

/// Every entry of `map` names a monitor of the directory.
pub open spec fn resolves(
    map: Seq<(Seq<char>, DisplaySettings)>,
    monitors: Seq<MonitorView>,
) -> bool {
    forall|i: int|
        0 <= i < map.len() ==> index_of(monitor_names(monitors), (#[trigger] map[i]).0)
            < monitors.len()
}

/// For each entry of `map`, in order: the place in the directory of the
/// first monitor of that name, and the settings meant for it.
pub open spec fn plan_of(map: Seq<(Seq<char>, DisplaySettings)>, monitors: Seq<MonitorView>) -> Seq<
    (usize, DisplaySettings),
> {
    Seq::new(
        map.len(),
        |i: int| (index_of(monitor_names(monitors), map[i].0) as usize, map[i].1),
    )
}

/// The settings map that holds `current[i]` under the name of monitor `i`,
/// for the first `n` monitors; a later monitor of the same name wins.
pub open spec fn snapshot(monitors: Seq<MonitorView>, current: Seq<DisplaySettings>, n: nat) -> Seq<
    (Seq<char>, DisplaySettings),
>
    decreases n,
{
    if n == 0 {
        Seq::empty()
    } else {
        put(snapshot(monitors, current, (n - 1) as nat), monitors[n - 1].name, current[n - 1])
    }
}

/// Writes a plan into the display modes, entry by entry. An entry whose
/// monitor has no mode ends it with `EnumDisplaySettings`; what was written
/// before stays written.
pub open spec fn apply_plan(plan: Seq<(usize, DisplaySettings)>, modes: Seq<DisplayMode>) -> (
    Seq<DisplayMode>,
    Result<(), ThisError>,
)
    decreases plan.len(),
{
    if plan.len() == 0 {
        (modes, Ok(()))
    } else if plan[0].0 >= modes.len() {
        (modes, Err(ThisError::EnumDisplaySettings))
    } else {
        apply_plan(
            plan.drop_first(),
            modes.update(plan[0].0 as int, modes[plan[0].0 as int].with_settings(plan[0].1)),
        )
    }
}

/// In a plan whose entries all have a mode to write to, and no two of
/// them the same, every entry is written: the mode of each planned monitor
/// becomes what its settings make of it, every other mode stays, and the
/// plan succeeds.
pub proof fn lemma_apply_plan(plan: Seq<(usize, DisplaySettings)>, modes: Seq<DisplayMode>)
    requires
        forall|i: int| 0 <= i < plan.len() ==> (#[trigger] plan[i]).0 < modes.len(),
        forall|i: int, j: int| 0 <= i < j < plan.len() ==> plan[i].0 != plan[j].0,
    ensures
        apply_plan(plan, modes).1 is Ok,
        apply_plan(plan, modes).0.len() == modes.len(),
        forall|i: int|
            0 <= i < plan.len() ==> apply_plan(plan, modes).0[(#[trigger] plan[i]).0 as int]
                == modes[plan[i].0 as int].with_settings(plan[i].1),
        forall|m: int|
            0 <= m < modes.len() && (forall|i: int| 0 <= i < plan.len() ==> plan[i].0 != m)
                ==> apply_plan(plan, modes).0[m] == modes[m],
    decreases plan.len(),
{
    if plan.len() > 0 {
        let at = plan[0].0 as int;
        let next = modes.update(at, modes[at].with_settings(plan[0].1));
        let rest = plan.drop_first();
        assert forall|i: int| 0 <= i < rest.len() implies (#[trigger] rest[i]).0 < next.len() by {
            assert(rest[i] == plan[i + 1]);
        }
        assert forall|i: int, j: int| 0 <= i < j < rest.len() implies rest[i].0 != rest[j].0 by {
            assert(rest[i] == plan[i + 1] && rest[j] == plan[j + 1]);
        }
        lemma_apply_plan(rest, next);
        let out = apply_plan(plan, modes).0;
        assert(plan[0].0 < modes.len());
        assert(apply_plan(plan, modes) == apply_plan(rest, next));
        assert forall|i: int| 0 <= i < plan.len() implies out[(#[trigger] plan[i]).0 as int]
            == modes[plan[i].0 as int].with_settings(plan[i].1) by {
            if i > 0 {
                assert(rest[i - 1] == plan[i]);
                assert(plan[0].0 != plan[i].0);
                assert(apply_plan(rest, next).0[rest[i - 1].0 as int] == next[rest[i
                    - 1].0 as int].with_settings(rest[i - 1].1));
            } else {
                assert forall|k: int| 0 <= k < rest.len() implies rest[k].0 != at by {
                    assert(rest[k] == plan[k + 1]);
                }
                assert(apply_plan(rest, next).0[at] == next[at]);
            }
        }
        assert forall|m: int|
            0 <= m < modes.len() && (forall|i: int|
                0 <= i < plan.len() ==> plan[i].0 != m) implies out[m] == modes[m] by {
            assert(plan[0].0 != m);
            assert forall|k: int| 0 <= k < rest.len() implies rest[k].0 != m by {
                assert(rest[k] == plan[k + 1]);
            }
            assert(apply_plan(rest, next).0[m] == next[m]);
        }
    }
}

/// Applying a preset whose entries all resolve writes exactly the monitors
/// it names: each of them gets the settings of its entry, with width and
/// height swapped where the rotation changes axis, and no other monitor is
/// touched. It holds where every monitor of the directory has a mode, and
/// the directory is one that a machine can hold.
pub proof fn lemma_apply_exact(
    map: Seq<(Seq<char>, DisplaySettings)>,
    monitors: Seq<MonitorView>,
    modes: Seq<DisplayMode>,
)
    requires
        unique_names(map),
        resolves(map, monitors),
        modes.len() == monitors.len(),
        monitors.len() <= usize::MAX,
    ensures
        apply_plan(plan_of(map, monitors), modes).1 is Ok,
        apply_plan(plan_of(map, monitors), modes).0.len() == modes.len(),
        forall|i: int|
            0 <= i < map.len() ==> {
                let at = index_of(monitor_names(monitors), (#[trigger] map[i]).0);
                &&& monitors[at].name == map[i].0
                &&& apply_plan(plan_of(map, monitors), modes).0[at] == modes[at].with_settings(
                    map[i].1,
                )
            },
        forall|m: int|
            0 <= m < monitors.len() && (forall|i: int|
                0 <= i < map.len() ==> map[i].0 != (#[trigger] monitors[m]).name)
                ==> apply_plan(plan_of(map, monitors), modes).0[m] == modes[m],
{
    let names = monitor_names(monitors);
    let plan = plan_of(map, monitors);
    assert forall|i: int| 0 <= i < plan.len() implies (#[trigger] plan[i]).0 < modes.len() by {
        lemma_index_of(names, map[i].0);
        assert(index_of(names, map[i].0) < monitors.len());
    }
    assert forall|i: int, j: int| 0 <= i < j < plan.len() implies plan[i].0 != plan[j].0 by {
        lemma_index_of(names, map[i].0);
        lemma_index_of(names, map[j].0);
        assert(index_of(names, map[i].0) < monitors.len());
        assert(index_of(names, map[j].0) < monitors.len());
    }
    lemma_apply_plan(plan, modes);
    let out = apply_plan(plan, modes).0;
    assert forall|i: int| 0 <= i < map.len() implies {
        let at = index_of(names, (#[trigger] map[i]).0);
        &&& monitors[at].name == map[i].0
        &&& out[at] == modes[at].with_settings(map[i].1)
    } by {
        lemma_index_of(names, map[i].0);
        assert(index_of(names, map[i].0) < monitors.len());
        assert(plan[i].0 == index_of(names, map[i].0));
    }
    assert forall|m: int|
        0 <= m < monitors.len() && (forall|i: int|
            0 <= i < map.len() ==> map[i].0 != (#[trigger] monitors[m]).name) implies out[m]
        == modes[m] by {
        assert forall|i: int| 0 <= i < plan.len() implies plan[i].0 != m by {
            lemma_index_of(names, map[i].0);
            assert(index_of(names, map[i].0) < monitors.len());
            assert(names[m] == monitors[m].name);
        }
    }
}

/// The entries of a settings map as they are stored: each name with the
/// text of its settings.
pub open spec fn written(map: Seq<(Seq<char>, DisplaySettings)>) -> Seq<(Seq<char>, Seq<char>)> {
    Seq::new(map.len(), |i: int| (map[i].0, map[i].1.text()))
}

/// The settings map that the first `n` stored entries give, each put in
/// turn; none where the text of one is not the text of settings.
pub open spec fn read_entries(entries: Seq<(Seq<char>, Seq<char>)>, n: nat) -> Option<
    Seq<(Seq<char>, DisplaySettings)>,
>
    decreases n,
{
    if n == 0 {
        Some(Seq::empty())
    } else {
        match (read_entries(entries, (n - 1) as nat), parse_settings(entries[n - 1].1)) {
            (Some(map), Some(settings)) => Some(put(map, entries[n - 1].0, settings)),
            _ => None,
        }
    }
}

/// Reading the stored entries of a settings map gives the map back, entry
/// for entry and in the same order.
pub proof fn lemma_read_written(map: Seq<(Seq<char>, DisplaySettings)>, n: nat)
    requires
        unique_names(map),
        n <= map.len(),
    ensures
        read_entries(written(map), n) == Some(map.subrange(0, n as int)),
    decreases n,
{
    if n == 0 {
        assert(map.subrange(0, 0) =~= Seq::<(Seq<char>, DisplaySettings)>::empty());
    } else {
        lemma_read_written(map, (n - 1) as nat);
        lemma_parse_settings(map[n - 1].1);
        let before = map.subrange(0, n - 1);
        let name = map[n - 1].0;
        assert forall|k: int| 0 <= k < before.len() implies entry_names(before)[k] != name by {
            assert(before[k] == map[k]);
        }
        lemma_index_of_is(entry_names(before), name, before.len() as int);
        assert(before.push((name, map[n - 1].1)) =~= map.subrange(0, n as int));
    }
}

/// What was stored of a settings map reads back as that map.
pub proof fn lemma_entries_read_back(map: Seq<(Seq<char>, DisplaySettings)>)
    requires
        unique_names(map),
    ensures
        read_entries(written(map), written(map).len()) == Some(map),
{
    lemma_read_written(map, map.len());
    assert(map.subrange(0, map.len() as int) =~= map);
}

/// A named layout: settings by monitor name, and the keybind that applies
/// it, if it has one. A name need not belong to an attached monitor.
#[derive(Debug)]
pub struct Preset {
    pub keybind: Option<Keybind>,
    pub map: SettingsMap,
}

/// A preset as contracts see it.
pub struct PresetView {
    pub keybind: Option<KeybindView>,
    pub map: Seq<(Seq<char>, DisplaySettings)>,
}

impl DeepView for Preset {
    type V = PresetView;

    open spec fn deep_view(&self) -> PresetView {
        PresetView { keybind: self.keybind.deep_view(), map: self.map@ }
    }
}

impl Clone for Preset {
    fn clone(&self) -> (copy: Self)
        ensures
            copy.deep_view() == self.deep_view(),
    {
        let keybind = match &self.keybind {
            Some(keybind) => Some(keybind.clone()),
            None => None,
        };
        Preset { keybind, map: self.map.clone() }
    }
}

impl PresetView {
    /// `name,x/y,Orientation` for entry `i`.
    pub open spec fn entry_text(self, i: int) -> Seq<char> {
        self.map[i].0 + ","@ + self.map[i].1.text()
    }

    /// The entries as text, with a blank between them.
    pub open spec fn text(self) -> Seq<char> {
        join(Seq::new(self.map.len(), |i: int| self.entry_text(i)), " "@)
    }
}

impl Preset {
    /// The text under which menus and messages show this preset.
    pub fn to_string(&self) -> (text: String)
        ensures
            text@ == self.deep_view().text(),
    {
        let mut parts: Vec<String> = Vec::new();
        let mut i: usize = 0;
        while i < self.map.len()
            invariant
                i <= self.map@.len(),
                parts@.len() == i,
                forall|k: int|
                    0 <= k < i ==> (#[trigger] parts@[k])@ == self.deep_view().entry_text(k),
            decreases self.map@.len() - i,
        {
            let mut part = self.map.name(i).clone();
            part.append(",");
            part.append(self.map.settings(i).to_string().as_str());
            parts.push(part);
            i = i + 1;
        }
        proof {
            assert(views(parts@) =~= Seq::new(
                self.map@.len(),
                |k: int| self.deep_view().entry_text(k),
            ));
        }
        join_strings(&parts, " ")
    }

    /// The entries as they are stored: each monitor name with the text of
    /// its settings, in order.
    pub fn entries(&self) -> (entries: Vec<(String, String)>)
        ensures
            entries.deep_view() == written(self.map@),
    {
        let mut entries: Vec<(String, String)> = Vec::new();
        let mut i: usize = 0;
        while i < self.map.len()
            invariant
                i <= self.map@.len(),
                entries@.len() == i,
                forall|k: int|
                    0 <= k < i ==> (#[trigger] entries@[k]).deep_view() == (
                        self.map@[k].0,
                        self.map@[k].1.text(),
                    ),
            decreases self.map@.len() - i,
        {
            entries.push((self.map.name(i).clone(), self.map.settings(i).to_string()));
            i = i + 1;
        }
        proof {
            assert(entries.deep_view() =~= written(self.map@));
        }
        entries
    }

    /// The preset with the given keybind and stored entries. There is none
    /// where the text of an entry is not the text of settings.
    pub fn from_entries(keybind: Option<Keybind>, entries: &Vec<(String, String)>) -> (preset:
        Result<Preset, ThisError>)
        ensures
            match read_entries(entries.deep_view(), entries@.len()) {
                Some(map) => preset is Ok && preset->Ok_0.deep_view() == (PresetView {
                    keybind: keybind.deep_view(),
                    map,
                }),
                None => preset == Err::<Preset, ThisError>(ThisError::Persistence),
            },
    {
        let mut map = SettingsMap::new();
        let mut i: usize = 0;
        while i < entries.len()
            invariant
                i <= entries@.len(),
                read_entries(entries.deep_view(), i as nat) == Some(map@),
            decreases entries@.len() - i,
        {
            proof {
                let entry = entries@[i as int];
                assert(entries.deep_view()[i as int] == (entry.0@, entry.1@));
            }
            match DisplaySettings::try_from(entries[i].1.as_str()) {
                Some(settings) => {
                    map.insert(entries[i].0.clone(), settings);
                },
                None => {
                    proof {
                        lemma_read_entries_none(
                            entries.deep_view(),
                            (i + 1) as nat,
                            entries@.len(),
                        );
                    }
                    return Err(ThisError::Persistence);
                },
            }
            i = i + 1;
        }
        Ok(Preset { keybind, map })
    }

    /// A preset without keybind that holds, for each monitor, the settings
    /// read from it: `current[i]` are those of `monitors[i]`. Where a reading
    /// is missing or one too many, there is no preset.
    pub fn from_current_config(monitors: &Vec<Monitor>, current: &Vec<DisplaySettings>) -> (preset:
        Result<Preset, ThisError>)
        ensures
            current@.len() != monitors@.len() ==> preset == Err::<Preset, ThisError>(
                ThisError::EnumDisplaySettings,
            ),
            current@.len() == monitors@.len() ==> preset is Ok && preset->Ok_0.deep_view() == (
            PresetView {
                keybind: None,
                map: snapshot(monitors.deep_view(), current@, monitors@.len()),
            }),
    {
        if current.len() != monitors.len() {
            return Err(ThisError::EnumDisplaySettings);
        }
        let mut map = SettingsMap::new();
        let mut i: usize = 0;
        while i < monitors.len()
            invariant
                i <= monitors@.len(),
                current@.len() == monitors@.len(),
                map@ == snapshot(monitors.deep_view(), current@, i as nat),
            decreases monitors@.len() - i,
        {
            map.insert(monitors[i].name.clone(), current[i]);
            i = i + 1;
        }
        Ok(Preset { keybind: None, map })
    }

    /// The plan of this preset on the given directory: for each entry the
    /// monitor it means. Either every entry resolves, or none is planned.
    pub fn get_monitor_map(&self, monitors: &Vec<Monitor>) -> (plan: Result<
        Vec<(usize, DisplaySettings)>,
        ThisError,
    >)
        ensures
            resolves(self.map@, monitors.deep_view()) ==> plan is Ok && plan->Ok_0@ == plan_of(
                self.map@,
                monitors.deep_view(),
            ),
            !resolves(self.map@, monitors.deep_view()) ==> plan == Err::<
                Vec<(usize, DisplaySettings)>,
                ThisError,
            >(ThisError::MonitorNotFound),
    {
        let ghost names = monitor_names(monitors.deep_view());
        let mut plan: Vec<(usize, DisplaySettings)> = Vec::new();
        let mut i: usize = 0;
        while i < self.map.len()
            invariant
                i <= self.map@.len(),
                names == monitor_names(monitors.deep_view()),
                plan@.len() == i,
                forall|k: int|
                    0 <= k < i ==> index_of(names, (#[trigger] self.map@[k]).0) < monitors@.len(),
                forall|k: int|
                    0 <= k < i ==> (#[trigger] plan@[k]) == (
                        index_of(names, self.map@[k].0) as usize,
                        self.map@[k].1,
                    ),
            decreases self.map@.len() - i,
        {
            let at = find_monitor(monitors, self.map.name(i).as_str());
            if at >= monitors.len() {
                proof {
                    assert(index_of(names, self.map@[i as int].0) >= monitors@.len());
                }
                return Err(ThisError::MonitorNotFound);
            }
            plan.push((at, self.map.settings(i)));
            i = i + 1;
        }
        proof {
            assert(plan@ =~= plan_of(self.map@, monitors.deep_view()));
        }
        Ok(plan)
    }

    /// Applies this preset to the display modes of the directory, where
    /// `modes[i]` is the mode of `monitors[i]`. Nothing is written unless
    /// every entry resolves.
    pub fn apply(&self, monitors: &Vec<Monitor>, modes: &mut Vec<DisplayMode>) -> (done: Result<
        (),
        ThisError,
    >)
        ensures
            !resolves(self.map@, monitors.deep_view()) ==> done == Err::<(), ThisError>(
                ThisError::MonitorNotFound,
            ) && final(modes)@ == old(modes)@,
            resolves(self.map@, monitors.deep_view()) ==> (final(modes)@, done) == apply_plan(
                plan_of(self.map@, monitors.deep_view()),
                old(modes)@,
            ),
    {
        let plan = match self.get_monitor_map(monitors) {
            Ok(plan) => plan,
            Err(error) => {
                return Err(error);
            },
        };
        let mut i: usize = 0;
        proof {
            assert(plan@.subrange(0, plan@.len() as int) =~= plan@);
        }
        while i < plan.len()
            invariant
                i <= plan@.len(),
                resolves(self.map@, monitors.deep_view()),
                plan@ == plan_of(self.map@, monitors.deep_view()),
                apply_plan(plan@, old(modes)@) == apply_plan(
                    plan@.subrange(i as int, plan@.len() as int),
                    modes@,
                ),
            decreases plan@.len() - i,
        {
            let (at, settings) = plan[i];
            proof {
                let rest = plan@.subrange(i as int, plan@.len() as int);
                assert(rest[0] == plan@[i as int]);
                assert(rest.drop_first() =~= plan@.subrange(i + 1, plan@.len() as int));
            }
            if at >= modes.len() {
                return Err(ThisError::EnumDisplaySettings);
            }
            let mode = Monitor::set_settings(modes[at], &settings);
            modes[at] = mode;
            i = i + 1;
        }
        Ok(())
    }
}

/// Once an entry cannot be read, no longer run of entries can.
proof fn lemma_read_entries_none(entries: Seq<(Seq<char>, Seq<char>)>, n: nat, m: nat)
    requires
        n <= m,
        read_entries(entries, n) is None,
    ensures
        read_entries(entries, m) is None,
    decreases m,
{
    if n < m {
        lemma_read_entries_none(entries, n, (m - 1) as nat);
    }
}

/// The place in the directory of the first monitor called `name`, or the
/// length of the directory.
pub fn find_monitor(monitors: &Vec<Monitor>, name: &str) -> (at: usize)
    ensures
        at == index_of(monitor_names(monitors.deep_view()), name@),
{
    let mut at: usize = 0;
    while at < monitors.len() && !string_eq(monitors[at].name.as_str(), name)
        invariant
            at <= monitors@.len(),
            forall|k: int| 0 <= k < at ==> monitors@[k].name@ != name@,
        decreases monitors@.len() - at,
    {
        at = at + 1;
    }
    proof {
        lemma_index_of_is(monitor_names(monitors.deep_view()), name@, at as int);
    }
    at
}

} // verus!
