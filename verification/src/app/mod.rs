//! The menu engine: a stack of menus, the overlays that cover it, and the
//! dispatcher that runs the effects of a menu entry in order.
//!
//! The engine decides; it does no input or output itself. Where an effect
//! needs outside work, the engine hands out a [`Request`], keeps the effects
//! that follow, and goes on when the caller reports the [`Outcome`].

pub mod action;
pub mod input;
pub mod menu;

use crate::app::action::{clone_effects, ActionType, ActionTypeView, ActionView};
use crate::app::input::Key;
use crate::app::menu::main::MenuMain;
use crate::app::menu::manage_preset::MenuManagePreset;
use crate::app::menu::{AnyMenu, Menu, RenderedMenu, RenderedMenuView};
use crate::display_settings::DisplaySettings;
use crate::error::ThisError;
use crate::preset::{plan_of, resolves, snapshot, Keybind, KeybindView, Preset, PresetView};
use crate::{Data, DataView, PresetId};
use vstd::prelude::*;
use vstd::string::*;

verus! {

/// What takes the keys.
#[derive(Debug)]
pub enum Mode {
    /// The top menu.
    Normal,
    /// A message that the next key dismisses.
    Message(String),
    /// A keybind is being captured for the preset; the second part is the
    /// last one captured.
    HotkeyCapture(PresetId, Option<Keybind>),
}

/// A mode as contracts see it.
pub enum ModeView {
    Normal,
    Message(Seq<char>),
    HotkeyCapture(PresetId, Option<KeybindView>),
}

impl DeepView for Mode {
    type V = ModeView;

    open spec fn deep_view(&self) -> ModeView {
        match self {
            Mode::Normal => ModeView::Normal,
            Mode::Message(message) => ModeView::Message(message@),
            Mode::HotkeyCapture(preset, keybind) => ModeView::HotkeyCapture(
                *preset,
                keybind.deep_view(),
            ),
        }
    }
}

/// The kinds of outside work the engine waits for.
#[derive(Debug, Clone, Copy, PartialEq, Eq, Structural)]
pub enum Step {
    Apply,
    ReadLayout,
    Persist,
    RawInput,
    PollKeybind,
    SpawnHeadless,
    FindStartupEntry,
    AddStartupEntry,
    RemoveStartupEntry,
}

/// Outside work that the engine asks its caller to do.
#[derive(Debug)]
pub enum Request {
    /// None; the engine takes the next key.
    Nothing,
    /// Give each listed monitor, by its place in the directory, the
    /// settings beside it, in order, and stop at the first that fails.
    Apply(Vec<(usize, DisplaySettings)>),
    /// Read the current settings of every monitor, in directory order.
    ReadLayout,
    /// Save the presets that were not deleted.
    Persist,
    /// Switch the console to raw input, and report the mode it was in.
    RawInput,
    /// Read the next raw key event.
    PollKeybind,
    /// Start the background process.
    SpawnHeadless,
    /// Say whether the startup entry exists.
    FindStartupEntry,
    /// Write the startup entry.
    AddStartupEntry,
    /// Remove the startup entry.
    RemoveStartupEntry,
}

/// A request as contracts see it.
pub enum RequestView {
    Nothing,
    Apply(Seq<(usize, DisplaySettings)>),
    ReadLayout,
    Persist,
    RawInput,
    PollKeybind,
    SpawnHeadless,
    FindStartupEntry,
    AddStartupEntry,
    RemoveStartupEntry,
}

impl DeepView for Request {
    type V = RequestView;

    open spec fn deep_view(&self) -> RequestView {
        match self {
            Request::Nothing => RequestView::Nothing,
            Request::Apply(plan) => RequestView::Apply(plan@),
            Request::ReadLayout => RequestView::ReadLayout,
            Request::Persist => RequestView::Persist,
            Request::RawInput => RequestView::RawInput,
            Request::PollKeybind => RequestView::PollKeybind,
            Request::SpawnHeadless => RequestView::SpawnHeadless,
            Request::FindStartupEntry => RequestView::FindStartupEntry,
            Request::AddStartupEntry => RequestView::AddStartupEntry,
            Request::RemoveStartupEntry => RequestView::RemoveStartupEntry,
        }
    }
}

impl RequestView {
    /// The outcome of which kind of work answers this request.
    pub open spec fn step(self) -> Option<Step> {
        match self {
            RequestView::Nothing => None,
            RequestView::Apply(_) => Some(Step::Apply),
            RequestView::ReadLayout => Some(Step::ReadLayout),
            RequestView::Persist => Some(Step::Persist),
            RequestView::RawInput => Some(Step::RawInput),
            RequestView::PollKeybind => Some(Step::PollKeybind),
            RequestView::SpawnHeadless => Some(Step::SpawnHeadless),
            RequestView::FindStartupEntry => Some(Step::FindStartupEntry),
            RequestView::AddStartupEntry => Some(Step::AddStartupEntry),
            RequestView::RemoveStartupEntry => Some(Step::RemoveStartupEntry),
        }
    }
}

impl Request {
    pub fn step(&self) -> (step: Option<Step>)
        ensures
            step == self.deep_view().step(),
    {
        match self {
            Request::Nothing => None,
            Request::Apply(_) => Some(Step::Apply),
            Request::ReadLayout => Some(Step::ReadLayout),
            Request::Persist => Some(Step::Persist),
            Request::RawInput => Some(Step::RawInput),
            Request::PollKeybind => Some(Step::PollKeybind),
            Request::SpawnHeadless => Some(Step::SpawnHeadless),
            Request::FindStartupEntry => Some(Step::FindStartupEntry),
            Request::AddStartupEntry => Some(Step::AddStartupEntry),
            Request::RemoveStartupEntry => Some(Step::RemoveStartupEntry),
        }
    }
}

/// What the caller reports of the work it was asked to do.
#[derive(Debug)]
pub enum Outcome {
    /// The work was done.
    Done,
    /// The current settings of the monitors, in directory order.
    Layout(Vec<DisplaySettings>),
    /// The keybind that the raw key event gave, if it gave one.
    Polled(Option<Keybind>),
    /// The console is in raw input; the payload is the mode it was in.
    ConsoleMode(u32),
    /// Whether the startup entry exists.
    StartupEntry(bool),
    /// The work failed.
    Failed(ThisError),
}

/// An outcome as contracts see it.
pub enum OutcomeView {
    Done,
    Layout(Seq<DisplaySettings>),
    Polled(Option<KeybindView>),
    ConsoleMode(u32),
    StartupEntry(bool),
    Failed(ThisError),
}

impl DeepView for Outcome {
    type V = OutcomeView;

    open spec fn deep_view(&self) -> OutcomeView {
        match self {
            Outcome::Done => OutcomeView::Done,
            Outcome::Layout(current) => OutcomeView::Layout(current@),
            Outcome::Polled(keybind) => OutcomeView::Polled(keybind.deep_view()),
            Outcome::ConsoleMode(mode) => OutcomeView::ConsoleMode(*mode),
            Outcome::StartupEntry(present) => OutcomeView::StartupEntry(*present),
            Outcome::Failed(error) => OutcomeView::Failed(*error),
        }
    }
}

/// Outside work that is under way, and the effects to run when it is done.
#[derive(Debug)]
pub struct Pending {
    pub step: Step,
    pub rest: Vec<ActionType>,
}

/// Work under way as contracts see it.
pub struct PendingView {
    pub step: Step,
    pub rest: Seq<ActionTypeView>,
}

impl DeepView for Pending {
    type V = PendingView;

    open spec fn deep_view(&self) -> PendingView {
        PendingView { step: self.step, rest: self.rest.deep_view() }
    }
}

/// What the content area of the screen shows.
#[derive(Debug)]
pub enum Content {
    /// A message, in place of everything else.
    Message(String),
    /// The capture of a keybind: the heading, and the keybind captured so
    /// far as text.
    HotkeyCapture { title: String, input: String },
    /// The menu on top of the stack.
    Menu,
}

/// The content as contracts see it.
pub enum ContentView {
    Message(Seq<char>),
    HotkeyCapture { title: Seq<char>, input: Seq<char> },
    Menu,
}

impl DeepView for Content {
    type V = ContentView;

    open spec fn deep_view(&self) -> ContentView {
        match self {
            Content::Message(message) => ContentView::Message(message@),
            Content::HotkeyCapture { title, input } => ContentView::HotkeyCapture {
                title: title@,
                input: input@,
            },
            Content::Menu => ContentView::Menu,
        }
    }
}

/// The state of the menu engine.
#[derive(Debug)]
pub struct App {
    pub data: Data,
    /// The mode the console was in before it was last switched to raw input.
    pub console_mode: u32,
    pub mode: Mode,
    pub should_exit: bool,
    /// A screen stack
    pub path: Vec<RenderedMenu>,
    pub waiting: Option<Pending>,
}

/// The engine as contracts see it.
pub struct AppView {
    pub data: DataView,
    pub console_mode: u32,
    pub mode: ModeView,
    pub should_exit: bool,
    pub path: Seq<RenderedMenuView>,
    pub waiting: Option<PendingView>,
}

impl DeepView for App {
    type V = AppView;

    open spec fn deep_view(&self) -> AppView {
        AppView {
            data: self.data.deep_view(),
            console_mode: self.console_mode,
            mode: self.mode.deep_view(),
            should_exit: self.should_exit,
            path: self.path.deep_view(),
            waiting: self.waiting.deep_view(),
        }
    }
}

/// The state that a call of the engine leaves, and what the call returns:
/// the outside work it asks for, or the failure it met.
pub type Turn = (AppView, Result<RequestView, ThisError>);

/// What a call of the engine returns, as contracts see it.
pub open spec fn answer(result: Result<Request, ThisError>) -> Result<RequestView, ThisError> {
    match result {
        Ok(request) => Ok(request.deep_view()),
        Err(error) => Err(error),
    }
}

/// What the startup entry holds: a script that runs the program at `exe`
/// without its menus and without a window.
pub open spec fn startup_script_text(exe: Seq<char>) -> Seq<char> {
    "CreateObject(\"Wscript.Shell\").Run \""@ + exe + " "@ + crate::HEADLESS_ARG@ + "\", 0, True"@
}

/// The text of the startup entry for the program at `exe`.
pub fn startup_script(exe: &str) -> (script: String)
    ensures
        script@ == startup_script_text(exe@),
{
    let mut script = String::from_str("CreateObject(\"Wscript.Shell\").Run \"");
    script.append(exe);
    script.append(" ");
    script.append(crate::HEADLESS_ARG);
    script.append("\", 0, True");
    script
}

/// The message after the startup entry was added or removed.
pub open spec fn startup_message(added: bool) -> Seq<char> {
    if added {
        "Successfully added app to opening on windows startup "@
    } else {
        "Successfully removed app from opening on windows startup "@
    }
}

impl AppView {
    /// The engine as it starts: the main menu on the stack, no overlay.
    pub open spec fn initial(data: DataView) -> AppView {
        AppView {
            data,
            console_mode: 0,
            mode: ModeView::Normal,
            should_exit: false,
            path: seq![RenderedMenuView::materialize(AnyMenu::Main(MenuMain), data)],
            waiting: None,
        }
    }

    /// The top menu with its entries computed anew from the state.
    pub open spec fn top_reloaded(self) -> AppView {
        if self.path.len() == 0 {
            self
        } else {
            AppView {
                path: self.path.update(
                    self.path.len() - 1,
                    self.path.last().reloaded(self.data),
                ),
                ..self
            }
        }
    }

    /// One step back: an overlay is left, and the menu under a message
    /// reloaded; without overlay the top menu is popped and the one under it
    /// reloaded, and popping the last menu ends the program.
    pub open spec fn went_back(self) -> AppView {
        match self.mode {
            ModeView::Message(_) => AppView {
                mode: ModeView::Normal,
                ..self
            }.top_reloaded(),
            ModeView::HotkeyCapture(_, _) => AppView { mode: ModeView::Normal, ..self },
            ModeView::Normal => if self.path.len() <= 1 {
                AppView { path: Seq::empty(), should_exit: true, ..self }
            } else {
                AppView { path: self.path.drop_last(), ..self }.top_reloaded()
            },
        }
    }

    /// The engine after a failure: no work under way, the effects that
    /// were to follow dropped, and the failure shown as a message.
    pub open spec fn failed(self, error: ThisError) -> AppView {
        AppView { mode: ModeView::Message(error.message()), waiting: None, ..self }
    }

    /// The start of one effect: the state it leaves, and either the outside
    /// work it needs (`Nothing` where it is done already) or its failure.
    /// Whatever changes the preset store reloads the top menu.
    pub open spec fn begin(self, effect: ActionTypeView) -> Turn {
        match effect {
            ActionTypeView::ApplyPreset(preset) => if !self.data.holds(preset) {
                (self, Err(ThisError::PresetNotFound))
            } else if !resolves(
                self.data.presets[preset.index as int].preset.map,
                self.data.monitors,
            ) {
                (self, Err(ThisError::MonitorNotFound))
            } else {
                (
                    self,
                    Ok(
                        RequestView::Apply(
                            plan_of(
                                self.data.presets[preset.index as int].preset.map,
                                self.data.monitors,
                            ),
                        ),
                    ),
                )
            },
            ActionTypeView::DeletePreset(preset) => if !self.data.is_live(preset) {
                (self, Err(ThisError::PresetNotFound))
            } else {
                (
                    AppView { data: self.data.removed(preset), ..self }.top_reloaded(),
                    Ok(RequestView::Persist),
                )
            },
            ActionTypeView::SaveCurrentConfigAsPreset => (self, Ok(RequestView::ReadLayout)),
            ActionTypeView::ChangeHotkeyInput(preset) => if !self.data.holds(preset) {
                (self, Err(ThisError::PresetNotFound))
            } else {
                (
                    AppView { mode: ModeView::HotkeyCapture(preset, None), ..self },
                    Ok(RequestView::RawInput),
                )
            },
            ActionTypeView::DisplayMessage(message) => (
                AppView { mode: ModeView::Message(message), ..self },
                Ok(RequestView::Nothing),
            ),
            ActionTypeView::OpenMenu(menu) => (
                AppView {
                    path: self.path.push(RenderedMenuView::materialize(menu, self.data)),
                    ..self
                },
                Ok(RequestView::Nothing),
            ),
            ActionTypeView::GoBack => (self.went_back(), Ok(RequestView::Nothing)),
            ActionTypeView::StartHeadless => (self, Ok(RequestView::SpawnHeadless)),
            ActionTypeView::ToggleStartup => (self, Ok(RequestView::FindStartupEntry)),
        }
    }

    /// Runs effects in order, up to the first that needs outside work,
    /// which is then under way with the later effects kept, or that fails,
    /// which drops the later effects.
    pub open spec fn run(self, effects: Seq<ActionTypeView>) -> Turn
        decreases effects.len(),
    {
        if effects.len() == 0 {
            (self, Ok(RequestView::Nothing))
        } else {
            let (next, begun) = self.begin(effects[0]);
            match begun {
                Err(error) => (next.failed(error), Err(error)),
                Ok(request) => match request.step() {
                    None => next.run(effects.drop_first()),
                    Some(step) => (
                        AppView {
                            waiting: Some(PendingView { step, rest: effects.drop_first() }),
                            ..next
                        },
                        Ok(request),
                    ),
                },
            }
        }
    }

    /// The message shown when a captured keybind was stored.
    pub open spec fn keybind_message(self, preset: PresetId, keybind: KeybindView) -> Seq<char> {
        "Set keybind as "@ + keybind.text() + " for preset "@ + self.data.name(preset)
    }

    /// What a key does while a keybind is captured for `preset`.
    pub open spec fn capture_key(
        self,
        key: Key,
        preset: PresetId,
        captured: Option<KeybindView>,
    ) -> Turn {
        match key {
            Key::Delete => (
                AppView {
                    mode: ModeView::Message(
                        "Deleted keybind for preset "@ + self.data.name(preset),
                    ),
                    ..self
                },
                Ok(RequestView::Nothing),
            ),
            Key::Enter => match captured {
                Some(keybind) => if !self.data.holds(preset) {
                    (self.failed(ThisError::PresetNotFound), Err(ThisError::PresetNotFound))
                } else {
                    (
                        AppView {
                            data: self.data.bound(preset, Some(keybind)),
                            mode: ModeView::Message(self.keybind_message(preset, keybind)),
                            waiting: Some(PendingView { step: Step::Persist, rest: Seq::empty() }),
                            ..self
                        }.top_reloaded(),
                        Ok(RequestView::Persist),
                    )
                },
                None => (self.went_back(), Ok(RequestView::Nothing)),
            },
            Key::Esc => (self.went_back(), Ok(RequestView::Nothing)),
            _ => (
                AppView {
                    waiting: Some(PendingView { step: Step::PollKeybind, rest: Seq::empty() }),
                    ..self
                },
                Ok(RequestView::PollKeybind),
            ),
        }
    }

    /// What a key does while the top menu takes the keys.
    pub open spec fn menu_key(self, key: Key) -> Turn {
        if key == Key::Char('q') || key == Key::Esc {
            (AppView { should_exit: true, ..self }, Ok(RequestView::Nothing))
        } else if key == Key::Char('h') || key == Key::Left {
            (self.went_back(), Ok(RequestView::Nothing))
        } else if self.path.len() == 0 {
            (self, Ok(RequestView::Nothing))
        } else {
            let moved = AppView {
                path: self.path.update(self.path.len() - 1, self.path.last().after_key(key)),
                ..self
            };
            match self.path.last().key_effects(key) {
                Some(effects) => moved.run(effects),
                None => (moved, Ok(RequestView::Nothing)),
            }
        }
    }

    /// What a key does. While outside work is under way, nothing.
    pub open spec fn handle_key(self, key: Key) -> Turn {
        if self.waiting is Some {
            (self, Ok(RequestView::Nothing))
        } else {
            match self.mode {
                ModeView::Message(_) => (
                    AppView { mode: ModeView::Normal, ..self }.top_reloaded(),
                    Ok(RequestView::Nothing),
                ),
                ModeView::HotkeyCapture(preset, captured) => self.capture_key(
                    key,
                    preset,
                    captured,
                ),
                ModeView::Normal => self.menu_key(key),
            }
        }
    }

    /// What the content area shows in this state.
    pub open spec fn content(self) -> ContentView {
        match self.mode {
            ModeView::Message(message) => ContentView::Message(message),
            ModeView::HotkeyCapture(preset, captured) => ContentView::HotkeyCapture {
                title: "Editing Shortcut for "@ + self.data.name(preset),
                input: match captured {
                    Some(keybind) => keybind.text(),
                    None => Seq::empty(),
                },
            },
            ModeView::Normal => ContentView::Menu,
        }
    }

    /// The hint in the last line of the screen.
    pub open spec fn footer(self) -> Seq<char> {
        match self.mode {
            ModeView::Message(_) => "Press any key to continue ↩"@,
            ModeView::HotkeyCapture(_, _) => "Press Escape to cancel, Enter to confirm"@,
            ModeView::Normal => "Use ←↓↑→ or hjkl to move"@,
        }
    }

    /// The engine with no work under way.
    pub open spec fn idle(self) -> AppView {
        AppView { waiting: None, ..self }
    }

    /// What the report of an outcome does: a failure is shown and drops the
    /// effects that were kept; the outcome that answers the work under way
    /// completes the effect and runs the kept ones, or asks for the next
    /// piece of work of the same effect; any other report, and any report while
    /// no work is under way, changes nothing.
    pub open spec fn resume(self, outcome: OutcomeView) -> Turn {
        match self.waiting {
            None => (self, Ok(RequestView::Nothing)),
            Some(pending) => match outcome {
                OutcomeView::Failed(error) => (self.failed(error), Err(error)),
                OutcomeView::Done => match pending.step {
                    Step::Apply | Step::Persist => self.idle().run(pending.rest),
                    Step::SpawnHeadless => AppView { should_exit: true, ..self.idle() }.run(
                        pending.rest,
                    ),
                    Step::AddStartupEntry => AppView {
                        mode: ModeView::Message(startup_message(true)),
                        ..self.idle()
                    }.run(pending.rest),
                    Step::RemoveStartupEntry => AppView {
                        mode: ModeView::Message(startup_message(false)),
                        ..self.idle()
                    }.run(pending.rest),
                    _ => (self, Ok(RequestView::Nothing)),
                },
                OutcomeView::ConsoleMode(mode) => if pending.step != Step::RawInput {
                    (self, Ok(RequestView::Nothing))
                } else {
                    AppView { console_mode: mode, ..self.idle() }.run(pending.rest)
                },
                OutcomeView::Layout(current) => if pending.step != Step::ReadLayout {
                    (self, Ok(RequestView::Nothing))
                } else if current.len() != self.data.monitors.len() {
                    (
                        self.failed(ThisError::EnumDisplaySettings),
                        Err(ThisError::EnumDisplaySettings),
                    )
                } else {
                    (
                        AppView {
                            data: self.data.pushed(
                                PresetView {
                                    keybind: None,
                                    map: snapshot(
                                        self.data.monitors,
                                        current,
                                        self.data.monitors.len(),
                                    ),
                                },
                            ),
                            waiting: Some(PendingView { step: Step::Persist, rest: pending.rest }),
                            ..self
                        }.top_reloaded(),
                        Ok(RequestView::Persist),
                    )
                },
                OutcomeView::Polled(keybind) => if pending.step != Step::PollKeybind {
                    (self, Ok(RequestView::Nothing))
                } else {
                    AppView {
                        mode: match (self.mode, keybind) {
                            (ModeView::HotkeyCapture(preset, _), Some(captured)) =>
                                ModeView::HotkeyCapture(preset, Some(captured)),
                            _ => self.mode,
                        },
                        ..self.idle()
                    }.run(pending.rest)
                },
                OutcomeView::StartupEntry(present) => if pending.step != Step::FindStartupEntry {
                    (self, Ok(RequestView::Nothing))
                } else if present {
                    (
                        AppView {
                            waiting: Some(
                                PendingView { step: Step::RemoveStartupEntry, rest: pending.rest },
                            ),
                            ..self
                        },
                        Ok(RequestView::RemoveStartupEntry),
                    )
                } else {
                    (
                        AppView {
                            waiting: Some(
                                PendingView { step: Step::AddStartupEntry, rest: pending.rest },
                            ),
                            ..self
                        },
                        Ok(RequestView::AddStartupEntry),
                    )
                },
            },
        }
    }
}

impl AppView {
    /// The engine after `n` steps back.
    pub open spec fn back_n(self, n: nat) -> AppView
        decreases n,
    {
        if n == 0 {
            self
        } else {
            self.back_n((n - 1) as nat).went_back()
        }
    }

    /// The engine after the menus were opened one after the other.
    pub open spec fn opened(self, menus: Seq<AnyMenu>) -> AppView
        decreases menus.len(),
    {
        if menus.len() == 0 {
            self
        } else {
            self.opened(menus.drop_last()).begin(ActionTypeView::OpenMenu(menus.last())).0
        }
    }
}

impl AppView {
    /// The top menu shows the entries that the state gives it now, and its
    /// selection lies within them.
    pub open spec fn top_is_fresh(self) -> bool {
        self.path.len() > 0 ==> {
            let top = self.path.last();
            &&& top.actions == top.menu.entries(self.data).push(ActionView::go_back())
            &&& top.selected is Some ==> top.selected->0 < top.actions.len()
        }
    }
}

/// Reloading the top menu changes the cached entries and the selection
/// of that menu, and nothing else.
pub proof fn lemma_top_reloaded(app: AppView)
    ensures
        app.top_reloaded().path.len() == app.path.len(),
        app.top_reloaded().data == app.data,
        app.top_reloaded().mode == app.mode,
        app.top_reloaded().waiting == app.waiting,
        app.top_reloaded().should_exit == app.should_exit,
        app.top_reloaded().console_mode == app.console_mode,
        app.top_reloaded().top_is_fresh(),
{
}

/// The engine starts with a fresh top menu.
pub proof fn lemma_initial_top_is_fresh(data: DataView)
    ensures
        AppView::initial(data).top_is_fresh(),
{
}

/// Running effects keeps the top menu fresh: whatever changes the store
/// or uncovers a menu reloads it.
pub proof fn lemma_run_keeps_top_fresh(app: AppView, effects: Seq<ActionTypeView>)
    requires
        app.top_is_fresh(),
    ensures
        app.run(effects).0.top_is_fresh(),
    decreases effects.len(),
{
    if effects.len() > 0 {
        let (next, begun) = app.begin(effects[0]);
        assert(next.top_is_fresh());
        match begun {
            Err(error) => {},
            Ok(request) => match request.step() {
                None => {
                    lemma_run_keeps_top_fresh(next, effects.drop_first());
                },
                Some(step) => {},
            },
        }
    }
}

/// A key keeps the top menu fresh.
pub proof fn lemma_handle_key_keeps_top_fresh(app: AppView, key: Key)
    requires
        app.top_is_fresh(),
    ensures
        app.handle_key(key).0.top_is_fresh(),
{
    if app.waiting is None {
        match app.mode {
            ModeView::Normal => {
                if app.path.len() > 0 {
                    let moved = AppView {
                        path: app.path.update(app.path.len() - 1, app.path.last().after_key(key)),
                        ..app
                    };
                    assert(moved.top_is_fresh());
                    match app.path.last().key_effects(key) {
                        Some(effects) => {
                            lemma_run_keeps_top_fresh(moved, effects);
                        },
                        None => {},
                    }
                }
            },
            _ => {},
        }
    }
}

/// The report of an outcome keeps the top menu fresh.
pub proof fn lemma_resume_keeps_top_fresh(app: AppView, outcome: OutcomeView)
    requires
        app.top_is_fresh(),
    ensures
        app.resume(outcome).0.top_is_fresh(),
{
    match app.waiting {
        None => {},
        Some(pending) => {
            lemma_run_keeps_top_fresh(app.idle(), pending.rest);
            lemma_run_keeps_top_fresh(AppView { should_exit: true, ..app.idle() }, pending.rest);
            lemma_run_keeps_top_fresh(
                AppView { mode: ModeView::Message(startup_message(true)), ..app.idle() },
                pending.rest,
            );
            lemma_run_keeps_top_fresh(
                AppView { mode: ModeView::Message(startup_message(false)), ..app.idle() },
                pending.rest,
            );
            match outcome {
                OutcomeView::ConsoleMode(mode) => {
                    lemma_run_keeps_top_fresh(
                        AppView { console_mode: mode, ..app.idle() },
                        pending.rest,
                    );
                },
                OutcomeView::Polled(keybind) => {
                    lemma_run_keeps_top_fresh(
                        AppView {
                            mode: match (app.mode, keybind) {
                                (ModeView::HotkeyCapture(preset, _), Some(captured)) =>
                                    ModeView::HotkeyCapture(preset, Some(captured)),
                                _ => app.mode,
                            },
                            ..app.idle()
                        },
                        pending.rest,
                    );
                },
                _ => {},
            }
        },
    }
}

/// Going back changes neither the store nor what the engine waits for.
pub proof fn lemma_went_back(app: AppView)
    ensures
        app.went_back().waiting == app.waiting,
        app.went_back().data == app.data,
{
    lemma_top_reloaded(AppView { mode: ModeView::Normal, ..app });
    lemma_top_reloaded(AppView { path: app.path.drop_last(), ..app });
}

/// The start of an effect does not change what the engine waits for.
pub proof fn lemma_begin_keeps_waiting(app: AppView, effect: ActionTypeView)
    ensures
        app.begin(effect).0.waiting == app.waiting,
{
    lemma_went_back(app);
    match effect {
        ActionTypeView::DeletePreset(preset) => {
            lemma_top_reloaded(AppView { data: app.data.removed(preset), ..app });
        },
        _ => {},
    }
}

/// How a run of effects ends, in an engine that waited for nothing: a run
/// that fails leaves no work under way and shows the failure as a message;
/// a run that asks for work waits for the outcome of that work; a run that
/// asks for nothing waits for nothing.
pub proof fn lemma_run_ends(app: AppView, effects: Seq<ActionTypeView>)
    requires
        app.waiting is None,
    ensures
        match app.run(effects).1 {
            Err(error) => {
                &&& app.run(effects).0.waiting is None
                &&& app.run(effects).0.mode == ModeView::Message(error.message())
            },
            Ok(request) => match request.step() {
                Some(step) => app.run(effects).0.waiting is Some && app.run(
                    effects,
                ).0.waiting->0.step == step,
                None => app.run(effects).0.waiting is None,
            },
        },
    decreases effects.len(),
{
    if effects.len() > 0 {
        lemma_begin_keeps_waiting(app, effects[0]);
        let (next, begun) = app.begin(effects[0]);
        match begun {
            Err(error) => {},
            Ok(request) => match request.step() {
                None => {
                    lemma_run_ends(next, effects.drop_first());
                },
                Some(step) => {},
            },
        }
    }
}

/// How a key ends, in an engine that waited for nothing: as a run of
/// effects does.
pub proof fn lemma_handle_key_ends(app: AppView, key: Key)
    requires
        app.waiting is None,
    ensures
        match app.handle_key(key).1 {
            Err(error) => {
                &&& app.handle_key(key).0.waiting is None
                &&& app.handle_key(key).0.mode == ModeView::Message(error.message())
            },
            Ok(request) => match request.step() {
                Some(step) => app.handle_key(key).0.waiting is Some && app.handle_key(
                    key,
                ).0.waiting->0.step == step,
                None => app.handle_key(key).0.waiting is None,
            },
        },
{
    lemma_went_back(app);
    match app.mode {
        ModeView::Message(_) => {
            lemma_top_reloaded(AppView { mode: ModeView::Normal, ..app });
        },
        ModeView::HotkeyCapture(preset, captured) => {
            if key == Key::Enter && captured is Some && app.data.holds(preset) {
                lemma_top_reloaded(
                    AppView {
                        data: app.data.bound(preset, captured),
                        mode: ModeView::Message(app.keybind_message(preset, captured->0)),
                        waiting: Some(PendingView { step: Step::Persist, rest: Seq::empty() }),
                        ..app
                    },
                );
            }
        },
        ModeView::Normal => {
            if app.path.len() > 0 {
                let moved = AppView {
                    path: app.path.update(app.path.len() - 1, app.path.last().after_key(key)),
                    ..app
                };
                match app.path.last().key_effects(key) {
                    Some(effects) => {
                        lemma_run_ends(moved, effects);
                    },
                    None => {},
                }
            }
        },
    }
}

/// A failure of the outside work ends the wait, drops the effects that
/// were kept, and is shown as a message. Nothing is rolled back: the store
/// and the stack stay as the effects before it left them.
pub proof fn lemma_failure_is_shown(app: AppView, error: ThisError)
    requires
        app.waiting is Some,
    ensures
        app.resume(OutcomeView::Failed(error)).1 == Err::<RequestView, ThisError>(error),
        app.resume(OutcomeView::Failed(error)).0.waiting is None,
        app.resume(OutcomeView::Failed(error)).0.mode == ModeView::Message(error.message()),
        app.resume(OutcomeView::Failed(error)).0.data == app.data,
        app.resume(OutcomeView::Failed(error)).0.path == app.path,
        app.resume(OutcomeView::Failed(error)).0.should_exit == app.should_exit,
{
}

/// Going back from the menus pops one menu at a time, and the program ends
/// with the step that pops the last menu, not before.
pub proof fn lemma_back_ends_with_last_menu(app: AppView, n: nat)
    requires
        app.mode is Normal,
        !app.should_exit,
        0 < app.path.len(),
        n <= app.path.len(),
    ensures
        app.back_n(n).mode is Normal,
        app.back_n(n).path.len() == app.path.len() - n,
        app.back_n(n).should_exit <==> n == app.path.len(),
        app.back_n(n).data == app.data,
    decreases n,
{
    if n > 0 {
        lemma_back_ends_with_last_menu(app, (n - 1) as nat);
    }
}

/// Opening menus puts each on the stack and changes nothing else.
pub proof fn lemma_opened(app: AppView, menus: Seq<AnyMenu>)
    ensures
        app.opened(menus).path.len() == app.path.len() + menus.len(),
        app.opened(menus).mode == app.mode,
        app.opened(menus).should_exit == app.should_exit,
        app.opened(menus).data == app.data,
    decreases menus.len(),
{
    if menus.len() > 0 {
        lemma_opened(app, menus.drop_last());
    }
}

/// From the main menu, after any menus were opened, as many steps back as
/// menus were opened leave the program running, and one more ends it.
pub proof fn lemma_open_then_back(data: DataView, menus: Seq<AnyMenu>, steps: nat)
    requires
        steps <= menus.len() + 1,
    ensures
        AppView::initial(data).opened(menus).back_n(steps).should_exit <==> steps == menus.len()
            + 1,
        AppView::initial(data).opened(menus).back_n(steps).path.len() == menus.len() + 1 - steps,
{
    lemma_opened(AppView::initial(data), menus);
    lemma_back_ends_with_last_menu(AppView::initial(data).opened(menus), steps);
}

/// The text that confirms a deletion.
pub open spec fn deleted_message(data: DataView, preset: PresetId) -> Seq<char> {
    "Preset "@ + data.name(preset) + " successfully deleted"@
}

/// Deleting a live preset marks its record, and leaves the stack as deep
/// and the mode as they were.
pub proof fn lemma_begin_delete(app: AppView, preset: PresetId)
    requires
        app.data.is_live(preset),
    ensures
        app.begin(ActionTypeView::DeletePreset(preset)).1 == Ok::<RequestView, ThisError>(
            RequestView::Persist,
        ),
        app.begin(ActionTypeView::DeletePreset(preset)).0.data == app.data.removed(preset),
        app.begin(ActionTypeView::DeletePreset(preset)).0.path.len() == app.path.len(),
        app.begin(ActionTypeView::DeletePreset(preset)).0.mode == app.mode,
        app.begin(ActionTypeView::DeletePreset(preset)).0.waiting == app.waiting,
        app.begin(ActionTypeView::DeletePreset(preset)).0.should_exit == app.should_exit,
{
    lemma_top_reloaded(AppView { data: app.data.removed(preset), ..app });
}

/// Going back while the menus take the keys pops one menu and changes
/// neither the mode nor the store.
pub proof fn lemma_go_back_pops(app: AppView)
    requires
        app.mode is Normal,
        app.path.len() > 0,
    ensures
        app.went_back().mode is Normal,
        app.went_back().path.len() == app.path.len() - 1,
        app.went_back().data == app.data,
        app.went_back().waiting == app.waiting,
{
    if app.path.len() > 1 {
        lemma_top_reloaded(AppView { path: app.path.drop_last(), ..app });
    }
}

/// The effects of a deletion, with any text for the confirmation: the
/// preset is removed and the store is to be saved; when that is done the
/// engine goes back one menu, and only then puts up the confirmation.
pub proof fn lemma_delete_sequence(app: AppView, preset: PresetId, words: Seq<char>)
    requires
        app.mode is Normal,
        app.waiting is None,
        app.path.len() > 0,
        app.data.is_live(preset),
    ensures
        ({
            let delete = seq![
                ActionTypeView::DeletePreset(preset),
                ActionTypeView::GoBack,
                ActionTypeView::DisplayMessage(words),
            ];
            let (removed, asked) = app.run(delete);
            let back = removed.idle().begin(ActionTypeView::GoBack).0;
            let (shown, done) = removed.resume(OutcomeView::Done);
            &&& asked == Ok::<RequestView, ThisError>(RequestView::Persist)
            &&& removed.data == app.data.removed(preset)
            &&& !removed.data.is_live(preset)
            &&& removed.path.len() == app.path.len()
            &&& removed.mode is Normal
            &&& back.mode is Normal
            &&& back.path.len() == app.path.len() - 1
            &&& done == Ok::<RequestView, ThisError>(RequestView::Nothing)
            &&& shown.mode == ModeView::Message(words)
            &&& shown.path == back.path
            &&& shown.data == removed.data
        }),
{
    let message = ActionTypeView::DisplayMessage(words);
    let delete = seq![ActionTypeView::DeletePreset(preset), ActionTypeView::GoBack, message];
    let rest = delete.drop_first();
    assert(rest =~= seq![ActionTypeView::GoBack, message]);
    let last = rest.drop_first();
    assert(last =~= seq![message]);
    assert(last.drop_first() =~= Seq::<ActionTypeView>::empty());

    lemma_begin_delete(app, preset);
    let marked = app.begin(ActionTypeView::DeletePreset(preset)).0;
    let removed = AppView { waiting: Some(PendingView { step: Step::Persist, rest }), ..marked };
    assert(app.run(delete) == (removed, Ok::<RequestView, ThisError>(RequestView::Persist))) by {
        assert(delete[0] == ActionTypeView::DeletePreset(preset));
    }
    lemma_go_back_pops(removed.idle());
    let back = removed.idle().went_back();
    let shown = AppView { mode: ModeView::Message(words), ..back };
    assert(removed.idle().run(rest) == back.run(last)) by {
        assert(rest[0] == ActionTypeView::GoBack);
        assert(removed.idle().begin(ActionTypeView::GoBack) == (
            back,
            Ok::<RequestView, ThisError>(RequestView::Nothing),
        ));
    }
    assert(back.run(last) == shown.run(last.drop_first())) by {
        assert(last[0] == message);
        assert(back.begin(message) == (
            shown,
            Ok::<RequestView, ThisError>(RequestView::Nothing),
        ));
    }
    assert(shown.run(Seq::<ActionTypeView>::empty()) == (
        shown,
        Ok::<RequestView, ThisError>(RequestView::Nothing),
    ));
    assert(removed.resume(OutcomeView::Done) == removed.idle().run(rest));
}

/// Deleting a preset from its menu removes it from the store and asks for
/// the store to be saved; when that is done the engine first goes back to
/// the parent menu, and only then shows the confirmation: the stack is
/// one menu lower before the message is up.
pub proof fn lemma_delete_goes_back_before_message(app: AppView, preset: PresetId)
    requires
        app.mode is Normal,
        app.waiting is None,
        app.path.len() > 0,
        app.data.is_live(preset),
    ensures
        ({
            let delete = (MenuManagePreset { preset }).entries(app.data)[2].action_type;
            let (removed, asked) = app.run(delete);
            let back = removed.idle().begin(ActionTypeView::GoBack).0;
            let (shown, done) = removed.resume(OutcomeView::Done);
            &&& asked == Ok::<RequestView, ThisError>(RequestView::Persist)
            &&& removed.data == app.data.removed(preset)
            &&& !removed.data.is_live(preset)
            &&& removed.path.len() == app.path.len()
            &&& removed.mode is Normal
            &&& back.mode is Normal
            &&& back.path.len() == app.path.len() - 1
            &&& done == Ok::<RequestView, ThisError>(RequestView::Nothing)
            &&& shown.mode == ModeView::Message(deleted_message(app.data, preset))
            &&& shown.path == back.path
            &&& shown.data == removed.data
        }),
{
    let words = deleted_message(app.data, preset);
    let delete = (MenuManagePreset { preset }).entries(app.data)[2].action_type;
    assert(delete =~= seq![
        ActionTypeView::DeletePreset(preset),
        ActionTypeView::GoBack,
        ActionTypeView::DisplayMessage(words),
    ]);
    lemma_delete_sequence(app, preset, words);
}

/// The preset that a reading of the layout makes.
pub open spec fn snapshot_preset(data: DataView, current: Seq<DisplaySettings>) -> PresetView {
    PresetView { keybind: None, map: snapshot(data.monitors, current, data.monitors.len()) }
}

/// A layout that was read with one reading for each monitor is stored as
/// a new preset behind the others, and the store is to be saved next.
pub proof fn lemma_layout_is_stored(
    app: AppView,
    current: Seq<DisplaySettings>,
    rest: Seq<ActionTypeView>,
)
    requires
        app.waiting == Some(PendingView { step: Step::ReadLayout, rest }),
        current.len() == app.data.monitors.len(),
    ensures
        app.resume(OutcomeView::Layout(current)).1 == Ok::<RequestView, ThisError>(
            RequestView::Persist,
        ),
        app.resume(OutcomeView::Layout(current)).0.data == app.data.pushed(
            snapshot_preset(app.data, current),
        ),
        app.resume(OutcomeView::Layout(current)).0.waiting == Some(
            PendingView { step: Step::Persist, rest },
        ),
        app.resume(OutcomeView::Layout(current)).0.path.len() == app.path.len(),
        app.resume(OutcomeView::Layout(current)).0.mode == app.mode,
{
    lemma_top_reloaded(
        AppView {
            data: app.data.pushed(snapshot_preset(app.data, current)),
            waiting: Some(PendingView { step: Step::Persist, rest }),
            ..app
        },
    );
}

/// The effects of saving, with any menu to open and any text for the
/// confirmation: the layout is read and stored as a new preset, the store is
/// to be saved, and then the menu is opened under the confirmation.
pub proof fn lemma_save_sequence(
    app: AppView,
    current: Seq<DisplaySettings>,
    menu: AnyMenu,
    words: Seq<char>,
)
    requires
        app.waiting is None,
        current.len() == app.data.monitors.len(),
    ensures
        ({
            let save = seq![
                ActionTypeView::SaveCurrentConfigAsPreset,
                ActionTypeView::OpenMenu(menu),
                ActionTypeView::DisplayMessage(words),
            ];
            let (reading, first) = app.run(save);
            let (stored, second) = reading.resume(OutcomeView::Layout(current));
            let (opened, third) = stored.resume(OutcomeView::Done);
            &&& first == Ok::<RequestView, ThisError>(RequestView::ReadLayout)
            &&& reading.data == app.data
            &&& second == Ok::<RequestView, ThisError>(RequestView::Persist)
            &&& stored.data == app.data.pushed(snapshot_preset(app.data, current))
            &&& stored.path.len() == app.path.len()
            &&& third == Ok::<RequestView, ThisError>(RequestView::Nothing)
            &&& opened.data == stored.data
            &&& opened.path == stored.path.push(RenderedMenuView::materialize(menu, stored.data))
            &&& opened.mode == ModeView::Message(words)
        }),
{
    let open = ActionTypeView::OpenMenu(menu);
    let say = ActionTypeView::DisplayMessage(words);
    let save = seq![ActionTypeView::SaveCurrentConfigAsPreset, open, say];
    let rest = save.drop_first();
    assert(rest =~= seq![open, say]);
    let last = rest.drop_first();
    assert(last =~= seq![say]);
    assert(last.drop_first() =~= Seq::<ActionTypeView>::empty());

    let reading = AppView {
        waiting: Some(PendingView { step: Step::ReadLayout, rest }),
        ..app
    };
    assert(app.run(save) == (reading, Ok::<RequestView, ThisError>(RequestView::ReadLayout))) by {
        assert(save[0] == ActionTypeView::SaveCurrentConfigAsPreset);
    }
    lemma_layout_is_stored(reading, current, rest);
    let stored = reading.resume(OutcomeView::Layout(current)).0;
    let pushed = AppView {
        path: stored.path.push(RenderedMenuView::materialize(menu, stored.data)),
        ..stored.idle()
    };
    let shown = AppView { mode: ModeView::Message(words), ..pushed };
    assert(stored.idle().run(rest) == pushed.run(last)) by {
        assert(rest[0] == open);
        assert(stored.idle().begin(open) == (
            pushed,
            Ok::<RequestView, ThisError>(RequestView::Nothing),
        ));
    }
    assert(pushed.run(last) == shown.run(last.drop_first())) by {
        assert(last[0] == say);
        assert(pushed.begin(say) == (shown, Ok::<RequestView, ThisError>(RequestView::Nothing)));
    }
    assert(shown.run(Seq::<ActionTypeView>::empty()) == (
        shown,
        Ok::<RequestView, ThisError>(RequestView::Nothing),
    ));
    assert(stored.resume(OutcomeView::Done) == stored.idle().run(rest));
}

/// Saving the current layout from the main menu reads the layout, stores
/// it as a new preset behind the others, asks for the store to be saved,
/// and then opens the menu of that very preset under the confirmation.
pub proof fn lemma_save_opens_the_new_preset(app: AppView, current: Seq<DisplaySettings>)
    requires
        app.waiting is None,
        current.len() == app.data.monitors.len(),
        app.data.presets.len() <= usize::MAX,
    ensures
        ({
            let save = MenuMain.entries(app.data)[2].action_type;
            let made = PresetId { index: app.data.presets.len() as usize };
            let (reading, first) = app.run(save);
            let (stored, second) = reading.resume(OutcomeView::Layout(current));
            let (opened, third) = stored.resume(OutcomeView::Done);
            &&& first == Ok::<RequestView, ThisError>(RequestView::ReadLayout)
            &&& reading.data == app.data
            &&& second == Ok::<RequestView, ThisError>(RequestView::Persist)
            &&& stored.data == app.data.pushed(snapshot_preset(app.data, current))
            &&& stored.data.is_live(made)
            &&& stored.path.len() == app.path.len()
            &&& third == Ok::<RequestView, ThisError>(RequestView::Nothing)
            &&& opened.data == stored.data
            &&& opened.path == stored.path.push(
                RenderedMenuView::materialize(
                    AnyMenu::ManagePreset(MenuManagePreset { preset: made }),
                    stored.data,
                ),
            )
            &&& opened.mode == ModeView::Message(
                "Current config successfully saved as a new preset"@,
            )
        }),
{
    let made = PresetId { index: app.data.presets.len() as usize };
    let menu = AnyMenu::ManagePreset(MenuManagePreset { preset: made });
    let words = "Current config successfully saved as a new preset"@;
    let save = MenuMain.entries(app.data)[2].action_type;
    assert(save =~= seq![
        ActionTypeView::SaveCurrentConfigAsPreset,
        ActionTypeView::OpenMenu(menu),
        ActionTypeView::DisplayMessage(words),
    ]);
    lemma_save_sequence(app, current, menu, words);
}

impl App {
    /// The engine at start, with the main menu open.
    pub fn new(data: Data) -> (app: App)
        ensures
            app.deep_view() == AppView::initial(data.deep_view()),
    {
        let mut path: Vec<RenderedMenu> = Vec::new();
        path.push(RenderedMenu::from(AnyMenu::Main(MenuMain), &data));
        let app = App {
            data,
            console_mode: 0,
            mode: Mode::Normal,
            should_exit: false,
            path,
            waiting: None,
        };
        proof {
            assert(app.path.deep_view() =~= AppView::initial(data.deep_view()).path);
        }
        app
    }

    /// Whether outside work is under way, so that keys are not taken.
    pub fn is_waiting(&self) -> (waiting: bool)
        ensures
            waiting == (self.deep_view().waiting is Some),
    {
        self.waiting.is_some()
    }

    /// The menu on top of the stack.
    pub fn current_menu(&self) -> (menu: Option<&RenderedMenu>)
        ensures
            self.path@.len() == 0 ==> menu is None,
            self.path@.len() > 0 ==> menu == Some(&self.path@[self.path@.len() - 1]),
    {
        if self.path.len() == 0 {
            None
        } else {
            Some(&self.path[self.path.len() - 1])
        }
    }

    /// What to draw in the content area.
    pub fn render_content(&self) -> (content: Content)
        ensures
            content.deep_view() == self.deep_view().content(),
    {
        match &self.mode {
            Mode::Message(message) => Content::Message(message.clone()),
            Mode::HotkeyCapture(preset, input) => {
                let mut title = String::from_str("Editing Shortcut for ");
                title.append(self.data.name(*preset).as_str());
                let input = match input {
                    Some(keybind) => keybind.to_string(),
                    None => String::new(),
                };
                Content::HotkeyCapture { title, input }
            },
            Mode::Normal => Content::Menu,
        }
    }

    /// What to draw in the last line of the screen.
    pub fn render_footer(&self) -> (hint: String)
        ensures
            hint@ == self.deep_view().footer(),
    {
        match &self.mode {
            Mode::Message(_) => String::from_str("Press any key to continue ↩"),
            Mode::HotkeyCapture(_, _) => String::from_str(
                "Press Escape to cancel, Enter to confirm",
            ),
            Mode::Normal => String::from_str("Use ←↓↑→ or hjkl to move"),
        }
    }

    fn reload_top(&mut self)
        ensures
            final(self).deep_view() == old(self).deep_view().top_reloaded(),
    {
        let n = self.path.len();
        if n > 0 {
            self.path[n - 1].reload_actions(&self.data);
            proof {
                assert(self.path.deep_view() =~= old(self).deep_view().top_reloaded().path);
            }
        }
    }

    pub fn go_back(&mut self)
        ensures
            final(self).deep_view() == old(self).deep_view().went_back(),
    {
        match &self.mode {
            Mode::Message(_) => {
                self.mode = Mode::Normal;
                self.reload_top();
            },
            Mode::HotkeyCapture(_, _) => {
                self.mode = Mode::Normal;
            },
            Mode::Normal => {
                self.path.pop();
                if self.path.len() == 0 {
                    self.should_exit = true;
                    proof {
                        assert(self.path.deep_view() =~= Seq::<RenderedMenuView>::empty());
                    }
                } else {
                    proof {
                        assert(self.path.deep_view() =~= old(self).path.deep_view().drop_last());
                    }
                    self.reload_top();
                }
            },
        }
    }

    fn fail(&mut self, error: ThisError)
        ensures
            final(self).deep_view() == old(self).deep_view().failed(error),
    {
        self.mode = Mode::Message(error.to_string());
        self.waiting = None;
    }

    fn begin(&mut self, effect: &ActionType) -> (begun: Result<Request, ThisError>)
        ensures
            (final(self).deep_view(), answer(begun)) == old(self).deep_view().begin(
                effect.deep_view(),
            ),
    {
        match effect {
            ActionType::ApplyPreset(preset) => {
                match self.data.preset(*preset) {
                    None => Err(ThisError::PresetNotFound),
                    Some(found) => match found.get_monitor_map(&self.data.monitors) {
                        Ok(plan) => Ok(Request::Apply(plan)),
                        Err(error) => Err(error),
                    },
                }
            },
            ActionType::OpenMenu(menu) => {
                let rendered = RenderedMenu::from(*menu, &self.data);
                self.path.push(rendered);
                proof {
                    assert(self.path.deep_view() =~= old(self).path.deep_view().push(
                        rendered.deep_view(),
                    ));
                }
                Ok(Request::Nothing)
            },
            ActionType::GoBack => {
                self.go_back();
                Ok(Request::Nothing)
            },
            ActionType::SaveCurrentConfigAsPreset => Ok(Request::ReadLayout),
            ActionType::DeletePreset(preset) => {
                match self.data.delete(*preset) {
                    Ok(()) => {
                        self.reload_top();
                        Ok(Request::Persist)
                    },
                    Err(error) => Err(error),
                }
            },
            ActionType::DisplayMessage(message) => {
                self.mode = Mode::Message(message.clone());
                Ok(Request::Nothing)
            },
            ActionType::ChangeHotkeyInput(preset) => {
                if preset.index < self.data.presets.len() {
                    self.mode = Mode::HotkeyCapture(*preset, None);
                    Ok(Request::RawInput)
                } else {
                    Err(ThisError::PresetNotFound)
                }
            },
            ActionType::StartHeadless => Ok(Request::SpawnHeadless),
            ActionType::ToggleStartup => Ok(Request::FindStartupEntry),
        }
    }

    /// Runs the effects of a menu entry, in order.
    pub fn handle_actions(&mut self, actions: Vec<ActionType>) -> (asked: Result<
        Request,
        ThisError,
    >)
        ensures
            (final(self).deep_view(), answer(asked)) == old(self).deep_view().run(
                actions.deep_view(),
            ),
    {
        let mut i: usize = 0;
        proof {
            assert(actions.deep_view().subrange(0, actions@.len() as int) =~= actions.deep_view());
        }
        while i < actions.len()
            invariant
                i <= actions@.len(),
                old(self).deep_view().run(actions.deep_view()) == self.deep_view().run(
                    actions.deep_view().subrange(i as int, actions@.len() as int),
                ),
            decreases actions@.len() - i,
        {
            proof {
                let rest = actions.deep_view().subrange(i as int, actions@.len() as int);
                assert(rest[0] == actions@[i as int].deep_view());
                assert(rest.drop_first() =~= actions.deep_view().subrange(
                    i + 1,
                    actions@.len() as int,
                ));
            }
            match self.begin(&actions[i]) {
                Err(error) => {
                    self.fail(error);
                    return Err(error);
                },
                Ok(request) => match request.step() {
                    None => {},
                    Some(step) => {
                        self.waiting = Some(Pending { step, rest: clone_effects(&actions, i + 1) });
                        return Ok(request);
                    },
                },
            }
            i = i + 1;
        }
        Ok(Request::Nothing)
    }

    /// Runs one effect.
    pub fn handle_action(&mut self, action: ActionType) -> (asked: Result<Request, ThisError>)
        ensures
            (final(self).deep_view(), answer(asked)) == old(self).deep_view().run(
                seq![action.deep_view()],
            ),
    {
        let mut actions: Vec<ActionType> = Vec::new();
        actions.push(action);
        proof {
            assert(actions.deep_view() =~= seq![action.deep_view()]);
        }
        self.handle_actions(actions)
    }

    fn capture_key(&mut self, key: Key, preset: PresetId, captured: Option<Keybind>) -> (asked:
        Result<Request, ThisError>)
        ensures
            (final(self).deep_view(), answer(asked)) == old(self).deep_view().capture_key(
                key,
                preset,
                captured.deep_view(),
            ),
    {
        match key {
            Key::Delete => {
                let mut message = String::from_str("Deleted keybind for preset ");
                message.append(self.data.name(preset).as_str());
                self.mode = Mode::Message(message);
                Ok(Request::Nothing)
            },
            Key::Enter => match captured {
                Some(keybind) => {
                    let mut message = String::from_str("Set keybind as ");
                    message.append(keybind.to_string().as_str());
                    message.append(" for preset ");
                    message.append(self.data.name(preset).as_str());
                    match self.data.set_keybind(preset, Some(keybind)) {
                        Ok(()) => {
                            self.mode = Mode::Message(message);
                            self.waiting = Some(Pending { step: Step::Persist, rest: Vec::new() });
                            proof {
                                assert(self.waiting.deep_view()->0.rest =~= Seq::<
                                    ActionTypeView,
                                >::empty());
                            }
                            self.reload_top();
                            Ok(Request::Persist)
                        },
                        Err(error) => {
                            self.fail(error);
                            Err(error)
                        },
                    }
                },
                None => {
                    self.go_back();
                    Ok(Request::Nothing)
                },
            },
            Key::Esc => {
                self.go_back();
                Ok(Request::Nothing)
            },
            _ => {
                self.waiting = Some(Pending { step: Step::PollKeybind, rest: Vec::new() });
                proof {
                    assert(self.waiting.deep_view()->0.rest =~= Seq::<ActionTypeView>::empty());
                }
                Ok(Request::PollKeybind)
            },
        }
    }

    fn menu_key(&mut self, key: Key) -> (asked: Result<Request, ThisError>)
        ensures
            (final(self).deep_view(), answer(asked)) == old(self).deep_view().menu_key(key),
    {
        match key {
            Key::Char('q') | Key::Esc => {
                self.should_exit = true;
                Ok(Request::Nothing)
            },
            Key::Char('h') | Key::Left => {
                self.go_back();
                Ok(Request::Nothing)
            },
            _ => {
                let n = self.path.len();
                if n == 0 {
                    return Ok(Request::Nothing);
                }
                let effects = self.path[n - 1].handle_key(key);
                proof {
                    assert(self.path.deep_view() =~= old(self).path.deep_view().update(
                        n - 1,
                        old(self).path.deep_view().last().after_key(key),
                    ));
                }
                match effects {
                    Some(actions) => self.handle_actions(actions),
                    None => Ok(Request::Nothing),
                }
            },
        }
    }

    /// Takes a key press.
    pub fn handle_key(&mut self, key: Key) -> (asked: Result<Request, ThisError>)
        ensures
            (final(self).deep_view(), answer(asked)) == old(self).deep_view().handle_key(key),
    {
        if self.waiting.is_some() {
            return Ok(Request::Nothing);
        }
        match &self.mode {
            Mode::Message(_) => {
                self.mode = Mode::Normal;
                self.reload_top();
                Ok(Request::Nothing)
            },
            Mode::HotkeyCapture(preset, captured) => {
                let preset = *preset;
                let captured = match captured {
                    Some(keybind) => Some(keybind.clone()),
                    None => None,
                };
                self.capture_key(key, preset, captured)
            },
            Mode::Normal => self.menu_key(key),
        }
    }

    /// Takes the report of the outside work that was asked for.
    pub fn resume(&mut self, outcome: Outcome) -> (asked: Result<Request, ThisError>)
        ensures
            (final(self).deep_view(), answer(asked)) == old(self).deep_view().resume(
                outcome.deep_view(),
            ),
    {
        let step = match &self.waiting {
            None => {
                return Ok(Request::Nothing);
            },
            Some(pending) => pending.step,
        };
        match outcome {
            Outcome::Failed(error) => {
                self.fail(error);
                Err(error)
            },
            Outcome::Done => match step {
                Step::Apply | Step::Persist => {
                    let rest = self.take_rest();
                    self.handle_actions(rest)
                },
                Step::SpawnHeadless => {
                    let rest = self.take_rest();
                    self.should_exit = true;
                    self.handle_actions(rest)
                },
                Step::AddStartupEntry => {
                    let rest = self.take_rest();
                    self.mode = Mode::Message(
                        String::from_str("Successfully added app to opening on windows startup "),
                    );
                    self.handle_actions(rest)
                },
                Step::RemoveStartupEntry => {
                    let rest = self.take_rest();
                    self.mode = Mode::Message(
                        String::from_str(
                            "Successfully removed app from opening on windows startup ",
                        ),
                    );
                    self.handle_actions(rest)
                },
                _ => Ok(Request::Nothing),
            },
            Outcome::ConsoleMode(mode) => {
                if step != Step::RawInput {
                    return Ok(Request::Nothing);
                }
                let rest = self.take_rest();
                self.console_mode = mode;
                self.handle_actions(rest)
            },
            Outcome::Layout(current) => {
                if step != Step::ReadLayout {
                    return Ok(Request::Nothing);
                }
                match Preset::from_current_config(&self.data.monitors, &current) {
                    Err(error) => {
                        self.fail(error);
                        Err(error)
                    },
                    Ok(preset) => {
                        self.data.push(preset);
                        let rest = self.take_rest();
                        self.waiting = Some(Pending { step: Step::Persist, rest });
                        self.reload_top();
                        Ok(Request::Persist)
                    },
                }
            },
            Outcome::Polled(keybind) => {
                if step != Step::PollKeybind {
                    return Ok(Request::Nothing);
                }
                let rest = self.take_rest();
                let preset = match &self.mode {
                    Mode::HotkeyCapture(preset, _) => Some(*preset),
                    _ => None,
                };
                match (preset, keybind) {
                    (Some(preset), Some(captured)) => {
                        self.mode = Mode::HotkeyCapture(preset, Some(captured));
                    },
                    _ => {},
                }
                self.handle_actions(rest)
            },
            Outcome::StartupEntry(present) => {
                if step != Step::FindStartupEntry {
                    return Ok(Request::Nothing);
                }
                let rest = self.take_rest();
                if present {
                    self.waiting = Some(Pending { step: Step::RemoveStartupEntry, rest });
                    Ok(Request::RemoveStartupEntry)
                } else {
                    self.waiting = Some(Pending { step: Step::AddStartupEntry, rest });
                    Ok(Request::AddStartupEntry)
                }
            },
        }
    }

    /// Ends the wait and hands out the effects that were kept.
    fn take_rest(&mut self) -> (rest: Vec<ActionType>)
        requires
            old(self).waiting is Some,
        ensures
            rest.deep_view() == old(self).deep_view().waiting->0.rest,
            final(self).deep_view() == old(self).deep_view().idle(),
    {
        let mut waiting: Option<Pending> = None;
        core::mem::swap(&mut self.waiting, &mut waiting);
        waiting.unwrap().rest
    }
}

} // verus!
