//! A dictation from its start to its end: what the shortcut does, when recording
//! begins, and what becomes of the text.
use crate::audio;
use crate::edit;
use crate::edit::Edit;
use crate::engine::EngineState;
use crate::live;
use crate::live::{join_text, LiveState};
use crate::overlay;
use crate::overlay::OverlayMsg;
use crate::settings::ShortcutMode;
use crate::text;
use vstd::prelude::*;

verus! {

// ---------------------------------------------------------------------------
// The shortcut
// ---------------------------------------------------------------------------

/// The time in which a key that is held down repeats, in milliseconds.
pub const REPEAT_MS: u64 = 350;

/// What has happened to the shortcut.
#[derive(Debug, Clone, Copy, PartialEq, Eq, Structural)]
pub enum KeyState {
    Pressed,
    Released,
}

/// What is done with the recording.
#[derive(Debug, Clone, Copy, PartialEq, Eq, Structural)]
pub enum Command {
    Nothing,
    Start,
    Stop,
}

/// Whether a key event repeats a press that came `since` milliseconds before.
pub open spec fn repeats(event: KeyState, since: Option<u64>) -> bool {
    event == KeyState::Pressed && since is Some && since.unwrap() < REPEAT_MS
}

/// What a key event does. Repeated presses do nothing.
pub open spec fn hotkey_command(
    mode: ShortcutMode,
    event: KeyState,
    recording: bool,
    since: Option<u64>,
) -> Command {
    if repeats(event, since) {
        Command::Nothing
    } else {
        match (mode, event, recording) {
            (ShortcutMode::Toggle, KeyState::Pressed, false) => Command::Start,
            (ShortcutMode::Toggle, KeyState::Pressed, true) => Command::Stop,
            (ShortcutMode::Hold, KeyState::Pressed, false) => Command::Start,
            (ShortcutMode::Hold, KeyState::Released, true) => Command::Stop,
            _ => Command::Nothing,
        }
    }
}

/// What a key event does, where `since` milliseconds have passed since the last
/// press that was noted; and whether this press is to be noted.
pub fn on_hotkey(mode: ShortcutMode, event: KeyState, recording: bool, since: Option<u64>) -> (r: (
    Command,
    bool,
))
    ensures
        r.0 == hotkey_command(mode, event, recording, since),
        r.1 == (event == KeyState::Pressed && !repeats(event, since)),
{
    if event == KeyState::Pressed {
        if let Some(ms) = since {
            if ms < REPEAT_MS {
                return (Command::Nothing, false);
            }
        }
    }
    let command = match (mode, event, recording) {
        (ShortcutMode::Toggle, KeyState::Pressed, false) => Command::Start,
        (ShortcutMode::Toggle, KeyState::Pressed, true) => Command::Stop,
        (ShortcutMode::Hold, KeyState::Pressed, false) => Command::Start,
        (ShortcutMode::Hold, KeyState::Released, true) => Command::Stop,
        _ => Command::Nothing,
    };
    (command, event == KeyState::Pressed)
}

/// The shortcut starts only where nothing is recorded, and stops only a recording.
pub proof fn commands_fit_the_recording(
    mode: ShortcutMode,
    event: KeyState,
    recording: bool,
    since: Option<u64>,
)
    ensures
        hotkey_command(mode, event, recording, since) == Command::Start ==> !recording,
        hotkey_command(mode, event, recording, since) == Command::Stop ==> recording,
{
}

/// Pressing once starts and pressing once more stops, where the shortcut toggles;
/// holding starts and releasing stops, where it is held.
pub proof fn every_start_can_be_stopped(mode: ShortcutMode, since: Option<u64>, later: Option<u64>)
    requires
        !repeats(KeyState::Pressed, since),
        !repeats(KeyState::Pressed, later),
    ensures
        hotkey_command(mode, KeyState::Pressed, false, since) == Command::Start,
        hotkey_command(
            mode,
            match mode {
                ShortcutMode::Toggle => KeyState::Pressed,
                ShortcutMode::Hold => KeyState::Released,
            },
            true,
            later,
        ) == Command::Stop,
{
}

/// What the button and the menu entry for dictation do.
pub fn toggle_recording(recording: bool) -> (r: Command)
    ensures
        r == if recording {
            Command::Stop
        } else {
            Command::Start
        },
{
    if recording {
        Command::Stop
    } else {
        Command::Start
    }
}

/// What an entry of the menu does.
#[derive(Debug, Clone, Copy, PartialEq, Eq, Structural)]
pub enum MenuAction {
    Nothing,
    ShowWindow,
    Dictate(Command),
    Quit,
}

/// What the menu entry with this identifier does.
pub fn menu_action(id: &str, recording: bool) -> (r: MenuAction)
    ensures
        r == if id@ == "open"@ {
            MenuAction::ShowWindow
        } else if id@ == "dictate"@ {
            MenuAction::Dictate(
                if recording {
                    Command::Stop
                } else {
                    Command::Start
                },
            )
        } else if id@ == "quit"@ {
            MenuAction::Quit
        } else {
            MenuAction::Nothing
        },
{
    if text::same(id, "open") {
        MenuAction::ShowWindow
    } else if text::same(id, "dictate") {
        MenuAction::Dictate(toggle_recording(recording))
    } else if text::same(id, "quit") {
        MenuAction::Quit
    } else {
        MenuAction::Nothing
    }
}

/// Whether a window that is asked to close is hidden instead.
pub fn hides_on_close(label: &str) -> (b: bool)
    ensures
        b == (label@ == "main"@),
{
    text::same(label, "main")
}

// ---------------------------------------------------------------------------
// The running dictation
// ---------------------------------------------------------------------------

/// Which dictation runs. Dictations are numbered in the order of their starts.
#[derive(Debug, Clone, Copy, PartialEq, Eq, Structural)]
pub struct Sessions {
    pub current: Option<u64>,
    pub started: u64,
}

/// Which dictation runs once another one was started.
pub open spec fn begun(s: Sessions) -> Sessions {
    Sessions { current: Some((s.started + 1) as u64), started: (s.started + 1) as u64 }
}

/// Which dictation runs once the running one was ended.
pub open spec fn ended(s: Sessions) -> Sessions {
    Sessions { current: None, ..s }
}

impl Sessions {
    /// Whether the running dictation is one that was started.
    pub open spec fn valid(self) -> bool {
        self.current matches Some(id) ==> 1 <= id <= self.started
    }

    /// No dictation yet.
    pub fn new() -> (s: Self)
        ensures
            s.valid(),
            s == (Sessions { current: None, started: 0 }),
    {
        Sessions { current: None, started: 0 }
    }

    /// Whether a dictation runs.
    pub fn is_recording(&self) -> (b: bool)
        ensures
            b == self.current is Some,
    {
        self.current.is_some()
    }

    /// Whether the dictation `id` runs.
    pub fn session_active(&self, id: u64) -> (b: bool)
        ensures
            b == (self.current == Some(id)),
    {
        match self.current {
            Some(c) => c == id,
            None => false,
        }
    }

    /// Starts a dictation and gives its number, which no dictation had before.
    pub fn begin(&mut self) -> (id: u64)
        requires
            old(self).valid(),
            old(self).started < u64::MAX,
        ensures
            final(self).valid(),
            *final(self) == begun(*old(self)),
            id == old(self).started + 1,
    {
        self.started = self.started + 1;
        self.current = Some(self.started);
        self.started
    }

    /// Ends the running dictation.
    pub fn end(&mut self) -> (id: Option<u64>)
        requires
            old(self).valid(),
        ensures
            final(self).valid(),
            *final(self) == ended(*old(self)),
            id == old(self).current,
    {
        let id = self.current;
        self.current = None;
        id
    }
}

/// Which dictation runs after starts (where `starts` is set) and ends, one after the
/// other.
pub open spec fn after(s: Sessions, starts: Seq<bool>) -> Sessions
    decreases starts.len(),
{
    if starts.len() == 0 {
        s
    } else if starts.last() {
        begun(after(s, starts.drop_last()))
    } else {
        ended(after(s, starts.drop_last()))
    }
}

/// A dictation that has ended never runs again, whatever is started and ended
/// later.
pub proof fn ended_sessions_stay_ended(s: Sessions, starts: Seq<bool>, id: u64)
    requires
        s.valid(),
        id <= s.started,
        s.current != Some(id),
        s.started + starts.len() <= u64::MAX,
    ensures
        after(s, starts).current != Some(id),
        s.started <= after(s, starts).started <= s.started + starts.len(),
    decreases starts.len(),
{
    if starts.len() > 0 {
        ended_sessions_stay_ended(s, starts.drop_last(), id);
    }
}

// ---------------------------------------------------------------------------
// Starting
// ---------------------------------------------------------------------------

/// Whether a dictation can start.
#[derive(Debug, Clone, Copy, PartialEq, Eq, Structural)]
pub enum StartGate {
    /// The engine is still loading its model.
    Loading,
    /// There is no engine that is ready.
    NotReady,
    /// A dictation runs already.
    Running,
    /// It can.
    Open,
}

/// Whether a dictation can start: the engine has to be ready, and no dictation may
/// run. `state` is what the engine is doing; `later` what it is doing where it was
/// not ready and is asked again.
pub fn start_gate(state: Option<EngineState>, later: Option<EngineState>, recording: bool) -> (r:
    StartGate)
    ensures
        r == if state == Some(EngineState::Ready) {
            if recording {
                StartGate::Running
            } else {
                StartGate::Open
            }
        } else if later == Some(EngineState::Starting) {
            StartGate::Loading
        } else {
            StartGate::NotReady
        },
{
    let ready = match state {
        Some(s) => s == EngineState::Ready,
        None => false,
    };
    if ready {
        if recording {
            StartGate::Running
        } else {
            StartGate::Open
        }
    } else {
        let starting = match later {
            Some(s) => s == EngineState::Starting,
            None => false,
        };
        if starting {
            StartGate::Loading
        } else {
            StartGate::NotReady
        }
    }
}

/// What is shown where a dictation cannot start.
pub open spec fn gate_text(gate: StartGate) -> Option<Seq<char>> {
    match gate {
        StartGate::Loading => Some("Le modèle se charge encore…"@),
        StartGate::NotReady => Some("Modèle non prêt — ouvrez Murmure"@),
        StartGate::Running => None,
        StartGate::Open => None,
    }
}

/// What is shown where a dictation cannot start.
pub fn gate_error(gate: StartGate) -> (r: Option<OverlayMsg>)
    ensures
        match r {
            Some(m) => gate_text(gate) is Some && m@ == overlay::error_message(
                gate_text(gate).unwrap(),
            ),
            None => gate_text(gate) is None,
        },
{
    match gate {
        StartGate::Loading => Some(overlay::message("error", "Le modèle se charge encore…", "")),
        StartGate::NotReady => Some(
            overlay::message("error", "Modèle non prêt — ouvrez Murmure", ""),
        ),
        _ => None,
    }
}

/// Whether it is asked if a text field is active: the user wants the text typed,
/// and the application may type.
pub fn asks_for_focus(want_direct: bool, trusted: bool) -> (b: bool)
    ensures
        b == (want_direct && trusted),
{
    want_direct && trusted
}

/// The hint on the overlay: whether the text is typed as it comes, or cannot be for
/// want of permission.
pub open spec fn start_hint(want_direct: bool, trusted: bool, focused: bool) -> Seq<char> {
    if want_direct && trusted && focused {
        "direct"@
    } else if want_direct && !trusted {
        "noperm"@
    } else {
        ""@
    }
}

/// Whether the text is typed as it comes, and what is shown of a dictation that
/// starts.
pub fn start_message(want_direct: bool, trusted: bool, focused: bool) -> (r: (bool, OverlayMsg))
    ensures
        r.0 == (want_direct && trusted && focused),
        r.1@ == (OverlayMsg {
            phase: "recording"@,
            text: ""@,
            hint: start_hint(want_direct, trusted, focused),
        }),
{
    let direct = want_direct && trusted && focused;
    let hint = if direct {
        "direct"
    } else if want_direct && !trusted {
        "noperm"
    } else {
        ""
    };
    (direct, overlay::message("recording", "", hint))
}

/// What is shown where the microphone cannot be used.
pub fn microphone_error(error: &str) -> (r: OverlayMsg)
    ensures
        r@ == overlay::error_message("Micro : "@ + error@),
{
    let t = text::concat("Micro : ", error);
    overlay::message("error", t.as_str(), "")
}

/// Text is typed as it comes only where the user wants that and the application
/// may type.
pub proof fn typing_needs_permission(want_direct: bool, trusted: bool, focused: bool)
    ensures
        start_hint(want_direct, trusted, focused) == "direct"@ ==> want_direct && trusted,
{
    reveal_strlit("direct");
    reveal_strlit("noperm");
    reveal_strlit("");
    assert("direct"@[0] == 'd');
    assert("noperm"@[0] == 'n');
    assert(""@.len() == 0);
}

// ---------------------------------------------------------------------------
// Stopping
// ---------------------------------------------------------------------------

/// The least length of a dictation, in milliseconds.
pub const MIN_DICTATION_MS: u32 = 400;

/// The least length of a tail that is transcribed, in milliseconds.
pub const MIN_TAIL_MS: u32 = 350;

/// How long the overlay stays where the text was typed, in milliseconds.
pub const TYPED_MS: u64 = 1_200;

/// How long the overlay stays where the text was copied, in milliseconds.
pub const COPIED_MS: u64 = 3_000;

/// What is to be done next when a dictation ends.
#[derive(Debug, Clone, Copy, PartialEq, Eq, Structural)]
pub enum EndStage {
    /// Stop the capture, and let the running transcription finish.
    StopCapture,
    /// See what was recorded.
    Measure,
    /// Have the tail transcribed.
    Transcribe,
    /// Nothing: the dictation has ended.
    Finished,
}

/// The outcome of the transcription of the tail.
#[derive(Debug, Clone, PartialEq, Eq)]
pub enum TailReply<T = String> {
    NotEncoded(T),
    Failed(T),
    Text(T),
}

impl View for TailReply {
    type V = TailReply<Seq<char>>;

    open spec fn view(&self) -> TailReply<Seq<char>> {
        match *self {
            TailReply::NotEncoded(e) => TailReply::NotEncoded(e@),
            TailReply::Failed(e) => TailReply::Failed(e@),
            TailReply::Text(t) => TailReply::Text(t@),
        }
    }
}

/// What follows from an event, in this order: a change to the text in the field of
/// the user, a text for the clipboard, a message on the overlay, the committed and
/// the provisional text to show, and after how many milliseconds the overlay is
/// hidden.
#[derive(Debug, Clone)]
#[verifier::ext_equal]
pub struct EndStep<T = String> {
    pub edit: Option<Edit<T>>,
    pub copy: Option<T>,
    pub overlay: Option<OverlayMsg<T>>,
    pub live: Option<(T, T)>,
    pub hide_after: Option<u64>,
}

impl View for EndStep {
    type V = EndStep<Seq<char>>;

    open spec fn view(&self) -> EndStep<Seq<char>> {
        EndStep {
            edit: match self.edit {
                Some(e) => Some(e@),
                None => None,
            },
            copy: crate::engine::opt_text(self.copy),
            overlay: match self.overlay {
                Some(m) => Some(m@),
                None => None,
            },
            live: match self.live {
                Some(p) => Some((p.0@, p.1@)),
                None => None,
            },
            hide_after: self.hide_after,
        }
    }
}

/// A dictation that ends.
#[derive(Debug, Clone)]
#[verifier::ext_equal]
pub struct Ending<T = String> {
    pub stage: EndStage,
    /// Whether the text was typed as it came.
    pub direct: bool,
    /// The text of the committed segments.
    pub committed: T,
    /// The provisional text in the field of the user.
    pub typed_partial: T,
}

impl View for Ending {
    type V = Ending<Seq<char>>;

    open spec fn view(&self) -> Ending<Seq<char>> {
        Ending {
            stage: self.stage,
            direct: self.direct,
            committed: self.committed@,
            typed_partial: self.typed_partial@,
        }
    }
}

/// Nothing to do or to show.
pub open spec fn nothing() -> EndStep<Seq<char>> {
    EndStep { edit: None, copy: None, overlay: None, live: None, hide_after: None }
}

/// An error to show.
pub open spec fn refused(m: Seq<char>) -> EndStep<Seq<char>> {
    EndStep {
        overlay: Some(overlay::error_message(m)),
        hide_after: Some(overlay::ERROR_MS),
        ..nothing()
    }
}

/// The dictation, at its end.
pub open spec fn finished(s: Ending<Seq<char>>) -> Ending<Seq<char>> {
    Ending { stage: EndStage::Finished, ..s }
}

/// What the end of a dictation begins with: the overlay tells that the rest is
/// being transcribed.
pub open spec fn announced(l: LiveState<Seq<char>>) -> EndStep<Seq<char>> {
    EndStep {
        overlay: Some(
            OverlayMsg {
                phase: "transcribing"@,
                text: ""@,
                hint: if l.direct {
                    "direct"@
                } else {
                    ""@
                },
            },
        ),
        live: Some((live::shown_committed(l), l.partial)),
        ..nothing()
    }
}

/// What becomes of the text, the tail having been transcribed as `tail`: where it
/// was typed as it came, the tail takes the place of the provisional text;
/// otherwise the whole text is copied. A blank text is an error.
pub open spec fn delivered(s: Ending<Seq<char>>, tail: Seq<char>) -> EndStep<Seq<char>> {
    let full = live::joined(s.committed, tail);
    if text::is_blank(full) {
        refused("Rien n'a été reconnu"@)
    } else if s.direct {
        EndStep {
            edit: edit::edit_between(s.typed_partial, text::trimmed(tail), false),
            overlay: Some(OverlayMsg { phase: "done"@, text: ""@, hint: "Dicté"@ }),
            hide_after: Some(TYPED_MS),
            ..nothing()
        }
    } else {
        EndStep {
            copy: Some(full),
            overlay: Some(
                OverlayMsg { phase: "done"@, text: full, hint: "Copié dans le presse-papiers"@ },
            ),
            hide_after: Some(COPIED_MS),
            ..nothing()
        }
    }
}

/// What follows once the capture has stopped, or failed to.
pub open spec fn capture_ended(s: Ending<Seq<char>>, error: Option<Seq<char>>) -> (
    Ending<Seq<char>>,
    EndStep<Seq<char>>,
) {
    match (s.stage, error) {
        (EndStage::StopCapture, None) => (
            Ending { stage: EndStage::Measure, ..s },
            nothing(),
        ),
        (EndStage::StopCapture, Some(e)) => (finished(s), refused("Capture : "@ + e)),
        _ => (s, nothing()),
    }
}

/// What follows when `recorded` samples were recorded, of which `tail` come behind
/// the committed segments; `speech` tells whether those may hold speech, `running`
/// whether there is an engine, and `l` what was committed.
pub open spec fn measured(
    s: Ending<Seq<char>>,
    l: LiveState<Seq<char>>,
    recorded: nat,
    running: bool,
    tail: nat,
    speech: bool,
) -> (Ending<Seq<char>>, EndStep<Seq<char>>) {
    let known = Ending {
        stage: EndStage::Transcribe,
        committed: l.committed,
        typed_partial: l.typed_partial,
        ..s
    };
    if s.stage != EndStage::Measure {
        (s, nothing())
    } else if !audio::lasts(recorded, l.rate, MIN_DICTATION_MS as nat) {
        (finished(s), refused("Enregistrement trop court"@))
    } else if !running {
        (finished(s), refused("Moteur arrêté"@))
    } else if audio::lasts(tail, l.rate, MIN_TAIL_MS as nat) && speech {
        (known, nothing())
    } else {
        (finished(known), delivered(known, Seq::empty()))
    }
}

/// What follows from the outcome of the transcription of the tail.
pub open spec fn answered(s: Ending<Seq<char>>, reply: TailReply<Seq<char>>) -> (
    Ending<Seq<char>>,
    EndStep<Seq<char>>,
) {
    if s.stage != EndStage::Transcribe {
        (s, nothing())
    } else {
        (
            finished(s),
            match reply {
                TailReply::NotEncoded(e) => refused("Audio : "@ + e),
                TailReply::Failed(e) => refused("Transcription : "@ + e),
                TailReply::Text(t) => delivered(s, t),
            },
        )
    }
}

fn no_step() -> (r: EndStep)
    ensures
        r@ == nothing(),
{
    EndStep { edit: None, copy: None, overlay: None, live: None, hide_after: None }
}

fn refuse(m: &str) -> (r: EndStep)
    ensures
        r@ == refused(m@),
{
    EndStep {
        edit: None,
        copy: None,
        overlay: Some(overlay::message("error", m, "")),
        live: None,
        hide_after: Some(overlay::ERROR_MS),
    }
}

impl Ending {
    /// Begins to end the dictation whose transcription has come as far as `l`.
    pub fn new(l: &LiveState) -> (r: (Ending, EndStep))
        ensures
            r.0@ == (Ending {
                stage: EndStage::StopCapture,
                direct: l.direct,
                committed: l.committed@,
                typed_partial: l.typed_partial@,
            }),
            r.1@ == announced(l@),
    {
        let shown = if l.direct {
            String::new()
        } else {
            l.committed.as_str().to_string()
        };
        let hint = if l.direct {
            "direct"
        } else {
            ""
        };
        (
            Ending {
                stage: EndStage::StopCapture,
                direct: l.direct,
                committed: l.committed.as_str().to_string(),
                typed_partial: l.typed_partial.as_str().to_string(),
            },
            EndStep {
                edit: None,
                copy: None,
                overlay: Some(overlay::message("transcribing", "", hint)),
                live: Some((shown, l.partial.as_str().to_string())),
                hide_after: None,
            },
        )
    }

    /// Takes note that the capture has stopped, or has failed to with `error`.
    pub fn capture_stopped(&mut self, error: Option<String>) -> (r: EndStep)
        ensures
            (final(self)@, r@) == capture_ended(old(self)@, crate::engine::opt_text(error)),
    {
        if self.stage != EndStage::StopCapture {
            return no_step();
        }
        match error {
            None => {
                self.stage = EndStage::Measure;
                no_step()
            },
            Some(e) => {
                self.stage = EndStage::Finished;
                let m = text::concat("Capture : ", e.as_str());
                refuse(m.as_str())
            },
        }
    }

    fn deliver(&self, tail: &str) -> (r: EndStep)
        ensures
            r@ == delivered(self@, tail@),
            self.direct && !text::is_blank(live::joined(self@.committed, tail@))
                ==> edit::field_after(self@.typed_partial, r@.edit) == text::trimmed(tail@),
    {
        let full = join_text(self.committed.as_str(), tail);
        if text::blank(full.as_str()) {
            return refuse("Rien n'a été reconnu");
        }
        if self.direct {
            let last = text::trim(tail);
            let edit = edit::retype(self.typed_partial.as_str(), last.as_str(), false);
            assert(edit::opt_edit(edit) == delivered(self@, tail@).edit);
            EndStep {
                edit,
                copy: None,
                overlay: Some(overlay::message("done", "", "Dicté")),
                live: None,
                hide_after: Some(TYPED_MS),
            }
        } else {
            let shown = overlay::message("done", full.as_str(), "Copié dans le presse-papiers");
            EndStep {
                edit: None,
                copy: Some(full),
                overlay: Some(shown),
                live: None,
                hide_after: Some(COPIED_MS),
            }
        }
    }

    /// Takes note of what was recorded: `recorded` samples in all, and `samples`
    /// behind the committed segments, whose frames have the levels `levels`.
    /// `running` tells whether there is an engine, and `l` what was committed.
    pub fn measure(
        &mut self,
        l: &LiveState,
        recorded: usize,
        running: bool,
        samples: &Vec<u32>,
        levels: &Vec<u32>,
    ) -> (r: EndStep)
        ensures
            (final(self)@, r@) == measured(
                old(self)@,
                l@,
                recorded as nat,
                running,
                samples@.len(),
                audio::speech(samples@, levels@),
            ),
            r@.overlay is Some && r@.overlay.unwrap().hint == "Dicté"@ ==> edit::field_after(
                l@.typed_partial,
                r@.edit,
            ) == Seq::<char>::empty(),
    {
        proof {
            reveal_strlit("Dicté");
            reveal_strlit("");
            assert(text::trimmed(Seq::<char>::empty()) == Seq::<char>::empty());
            reveal_strlit("Copié dans le presse-papiers");
            assert("Dicté"@.len() != ""@.len());
            assert("Dicté"@.len() != "Copié dans le presse-papiers"@.len());
        }
        if self.stage != EndStage::Measure {
            return no_step();
        }
        if !audio::lasts_at_least(recorded, l.rate, MIN_DICTATION_MS) {
            self.stage = EndStage::Finished;
            return refuse("Enregistrement trop court");
        }
        if !running {
            self.stage = EndStage::Finished;
            return refuse("Moteur arrêté");
        }
        self.committed = l.committed.as_str().to_string();
        self.typed_partial = l.typed_partial.as_str().to_string();
        if audio::lasts_at_least(samples.len(), l.rate, MIN_TAIL_MS) && audio::has_speech(
            samples,
            levels,
        ) {
            self.stage = EndStage::Transcribe;
            no_step()
        } else {
            self.stage = EndStage::Finished;
            proof {
                reveal_strlit("");
                assert(""@ == Seq::<char>::empty());
            }
            self.deliver("")
        }
    }

    /// The committed and the provisional text to show while the tail is being
    /// transcribed and reads `partial` so far.
    pub fn partial(&self, partial: String) -> (r: (String, String))
        ensures
            r.0@ == if self.direct {
                Seq::<char>::empty()
            } else {
                self.committed@
            },
            r.1 == partial,
    {
        let shown = if self.direct {
            String::new()
        } else {
            self.committed.as_str().to_string()
        };
        (shown, partial)
    }

    /// Takes note of the outcome of the transcription of the tail.
    pub fn answer(&mut self, reply: TailReply) -> (r: EndStep)
        ensures
            (final(self)@, r@) == answered(old(self)@, reply@),
            reply@ matches TailReply::Text(t) ==> old(self).stage == EndStage::Transcribe
                && old(self).direct && !text::is_blank(live::joined(old(self)@.committed, t))
                ==> edit::field_after(old(self)@.typed_partial, r@.edit) == text::trimmed(t),
    {
        if self.stage != EndStage::Transcribe {
            return no_step();
        }
        self.stage = EndStage::Finished;
        match reply {
            TailReply::NotEncoded(e) => {
                let m = text::concat("Audio : ", e.as_str());
                refuse(m.as_str())
            },
            TailReply::Failed(e) => {
                let m = text::concat("Transcription : ", e.as_str());
                refuse(m.as_str())
            },
            TailReply::Text(t) => self.deliver(t.as_str()),
        }
    }
}

/// Whether a step ends the dictation and tells so: it shows something, which goes
/// after a while.
pub open spec fn closes(step: EndStep<Seq<char>>) -> bool {
    step.overlay is Some && step.hide_after is Some
}

/// A dictation that ends says so on the overlay, which then goes.
pub proof fn endings_are_announced(
    s: Ending<Seq<char>>,
    l: LiveState<Seq<char>>,
    error: Option<Seq<char>>,
    recorded: nat,
    running: bool,
    tail: nat,
    speech: bool,
    reply: TailReply<Seq<char>>,
)
    requires
        s.stage != EndStage::Finished,
    ensures
        capture_ended(s, error).0.stage == EndStage::Finished ==> closes(capture_ended(s, error).1),
        measured(s, l, recorded, running, tail, speech).0.stage == EndStage::Finished ==> closes(
            measured(s, l, recorded, running, tail, speech).1,
        ),
        answered(s, reply).0.stage == EndStage::Finished ==> closes(answered(s, reply).1),
{
}

/// A recognised text is either typed or copied, never both; an error does neither.
pub proof fn texts_are_typed_or_copied(s: Ending<Seq<char>>, tail: Seq<char>)
    ensures
        ({
            let step = delivered(s, tail);
            &&& step.copy is Some ==> !s.direct && step.edit is None && step.copy
                == Some(live::joined(s.committed, tail))
            &&& step.edit is Some ==> s.direct && step.copy is None
            &&& text::is_blank(live::joined(s.committed, tail)) ==> step.copy is None
                && step.edit is None
        }),
{
}

/// What the segments of a dictation are typed as is what their joined text would be
/// typed as.
pub proof fn typed_segments_add_up(a: Seq<char>, b: Seq<char>)
    ensures
        live::typed_segment(live::joined(a, b)) == live::typed_segment(text::trimmed(a))
            + live::typed_segment(text::trimmed(b)),
{
    let (x, y) = (text::trimmed(a), text::trimmed(b));
    assert(x + " "@ + y + " "@ == (x + " "@) + (y + " "@));
    assert(Seq::<char>::empty() + live::typed_segment(y) == live::typed_segment(y));
    assert(live::typed_segment(x) + Seq::<char>::empty() == live::typed_segment(x));
}

/// Typing as it comes and copying give the same text: the committed segments as
/// they were typed, with the tail behind them, are the joined text, but for the
/// space that stands behind the segments where there is no tail.
pub proof fn typing_and_copying_agree(committed: Seq<char>, tail: Seq<char>)
    ensures
        ({
            let typed = live::typed_segment(text::trimmed(committed)) + text::trimmed(tail);
            let copied = live::joined(committed, tail);
            if text::is_blank(tail) {
                typed == live::typed_segment(copied)
            } else {
                typed == copied
            }
        }),
{
    let (x, y) = (text::trimmed(committed), text::trimmed(tail));
    assert(Seq::<char>::empty() + y == y);
    assert(live::typed_segment(x) + Seq::<char>::empty() == live::typed_segment(x));
}

/// Where the text is typed as it comes and there is any, the tail stands in the field
/// at the end in place of the provisional text: the edit leads to it, whatever was typed
/// before, and there is no edit only where it stands there already. The overlay says that
/// the text was dictated.
pub proof fn the_tail_ends_in_the_field(
    s: Ending<Seq<char>>,
    tail: Seq<char>,
    a: int,
    b: int,
)
    requires
        s.direct,
        0 <= a <= b <= tail.len(),
        forall|i: int| 0 <= i < a ==> text::is_white(#[trigger] tail[i]),
        forall|i: int| b <= i < tail.len() ==> text::is_white(#[trigger] tail[i]),
        a < b ==> !text::is_white(tail[a]) && !text::is_white(tail[b - 1]),
        a < b || !text::is_blank(s.committed),
    ensures
        delivered(s, tail).edit is None <==> s.typed_partial == tail.subrange(a, b),
        delivered(s, tail).edit matches Some(e) ==> e.target == tail.subrange(a, b) && !e.settle,
        delivered(s, tail).copy is None,
        delivered(s, tail).overlay == Some(
            OverlayMsg { phase: "done"@, text: ""@, hint: "Dicté"@ },
        ),
{
    text::trimming_takes_off_white_ends(tail, a, b);
    live::joined_texts_are_trimmed(s.committed, tail);
    text::trimming_is_idempotent(s.committed);
    reveal_strlit(" ");
    edit::edits_lead_to_the_new_text(s.typed_partial, tail.subrange(a, b), false);
}

/// Where the text is not typed as it comes and there is any, all of it is copied: the
/// committed text, a space and the tail, both without the white space around them, or
/// the one of them that is not blank. It is also shown.
pub proof fn the_whole_text_is_copied(s: Ending<Seq<char>>, tail: Seq<char>)
    requires
        !s.direct,
    ensures
        ({
            let (x, y) = (text::trimmed(s.committed), text::trimmed(tail));
            let step = delivered(s, tail);
            &&& step.edit is None
            &&& x.len() > 0 && y.len() > 0 ==> step.copy == Some(x + seq![' '] + y)
            &&& x.len() > 0 && y.len() == 0 ==> step.copy == Some(x)
            &&& x.len() == 0 && y.len() > 0 ==> step.copy == Some(y)
            &&& x.len() == 0 && y.len() == 0 ==> step.copy is None && step.overlay == Some(
                OverlayMsg { phase: "error"@, text: "Rien n'a été reconnu"@, hint: ""@ },
            )
            &&& step.copy matches Some(t) ==> step.overlay == Some(
                OverlayMsg { phase: "done"@, text: t, hint: "Copié dans le presse-papiers"@ },
            )
        }),
{
    live::joined_texts_are_trimmed(s.committed, tail);
    text::trimming_is_idempotent(s.committed);
    text::trimming_is_idempotent(tail);
    reveal_strlit(" ");
    assert(" "@ == seq![' ']);
}

/// A dictation of less than 400 ms is refused, and so is one without an engine. The tail
/// is transcribed where it lasts 350 ms and may hold speech; otherwise the committed text
/// is delivered without it. What is delivered is the text that was committed last.
pub proof fn endings_follow_from_what_was_recorded(
    s: Ending<Seq<char>>,
    l: LiveState<Seq<char>>,
    recorded: nat,
    running: bool,
    tail: nat,
    speech: bool,
)
    requires
        s.stage == EndStage::Measure,
    ensures
        ({
            let (after, step) = measured(s, l, recorded, running, tail, speech);
            let long = recorded * 1000 >= 400 * l.rate;
            let heard = tail * 1000 >= 350 * l.rate && speech;
            &&& after.stage == EndStage::Transcribe || after.stage == EndStage::Finished
            &&& after.stage == EndStage::Transcribe <==> long && running && heard
            &&& !long ==> step == refused("Enregistrement trop court"@)
            &&& long && !running ==> step == refused("Moteur arrêté"@)
            &&& long && running && heard ==> step == nothing()
            &&& long && running && !heard ==> step == delivered(after, Seq::empty())
            &&& long && running ==> after.committed == l.committed && after.typed_partial
                == l.typed_partial && after.direct == s.direct
        }),
{
}

/// The outcome of the transcription ends the dictation: a text is delivered, an error is
/// shown with what failed.
pub proof fn answers_end_the_dictation(s: Ending<Seq<char>>, t: Seq<char>)
    requires
        s.stage == EndStage::Transcribe,
    ensures
        answered(s, TailReply::Text(t)).1 == delivered(s, t),
        answered(s, TailReply::NotEncoded(t)).1 == refused("Audio : "@ + t),
        answered(s, TailReply::Failed(t)).1 == refused("Transcription : "@ + t),
        answered(s, TailReply::Text(t)).0.stage == EndStage::Finished,
        answered(s, TailReply::NotEncoded(t)).0.stage == EndStage::Finished,
        answered(s, TailReply::Failed(t)).0.stage == EndStage::Finished,
{
}

/// An error changes and copies nothing. It is shown for a while with its text.
pub proof fn errors_are_only_shown(m: Seq<char>)
    ensures
        ({
            let step = refused(m);
            &&& step.edit is None && step.copy is None && step.live is None
            &&& step.overlay == Some(OverlayMsg { phase: "error"@, text: m, hint: ""@ })
            &&& step.hide_after == Some(overlay::ERROR_MS)
        }),
{
}

/// A capture that stops is followed by a look at what was recorded; one that fails to
/// stop ends the dictation with its error. Out of turn nothing happens.
pub proof fn stopped_captures_are_measured(s: Ending<Seq<char>>, e: Seq<char>)
    ensures
        s.stage == EndStage::StopCapture ==> capture_ended(s, None).0 == (Ending {
            stage: EndStage::Measure,
            ..s
        }) && capture_ended(s, None).1 == nothing(),
        s.stage == EndStage::StopCapture ==> capture_ended(s, Some(e)).0.stage == EndStage::Finished
            && capture_ended(s, Some(e)).1 == refused("Capture : "@ + e),
        s.stage != EndStage::StopCapture ==> capture_ended(s, None).0 == s && capture_ended(
            s,
            Some(e),
        ).0 == s,
{
}

/// A press that comes within 350 ms of the last noted one is a repetition; no other
/// event is.
pub proof fn repetitions_come_fast(event: KeyState, since: Option<u64>)
    ensures
        repeats(event, since) <==> event == KeyState::Pressed && (since matches Some(ms) && ms < 350),
{
}

/// Releasing the key stops a recording where the shortcut is held, and does nothing
/// where it toggles; no release starts one.
pub proof fn releasing_only_stops(recording: bool, since: Option<u64>)
    ensures
        hotkey_command(ShortcutMode::Toggle, KeyState::Released, recording, since)
            == Command::Nothing,
        hotkey_command(ShortcutMode::Hold, KeyState::Released, recording, since) == if recording {
            Command::Stop
        } else {
            Command::Nothing
        },
        hotkey_command(ShortcutMode::Hold, KeyState::Pressed, true, since) == Command::Nothing,
{
}

/// The dictation that was started last runs until it is ended, and each start has a
/// number of its own.
pub proof fn the_last_start_runs(s: Sessions)
    requires
        s.valid(),
        s.started < u64::MAX,
    ensures
        begun(s).current == Some((s.started + 1) as u64),
        begun(s).started == s.started + 1,
        s.current matches Some(id) ==> begun(s).current != Some(id),
        ended(s).current is None,
        ended(s).started == s.started,
{
}

/// The hint tells where the text goes: into the field where that was wanted, is allowed
/// and one is active; that permission is missing where it was wanted and is not allowed;
/// and nothing otherwise.
pub proof fn hints_tell_where_the_text_goes(want_direct: bool, trusted: bool, focused: bool)
    ensures
        start_hint(want_direct, trusted, focused) == "direct"@ <==> want_direct && trusted && focused,
        start_hint(want_direct, trusted, focused) == "noperm"@ <==> want_direct && !trusted,
        start_hint(want_direct, trusted, focused) == ""@ <==> !want_direct || (trusted && !focused),
{
    reveal_strlit("direct");
    reveal_strlit("noperm");
    reveal_strlit("");
    assert("direct"@[0] == 'd');
    assert("noperm"@[0] == 'n');
    assert(""@.len() == 0);
}

/// At the start of the end, the overlay tells that the rest is being transcribed, and
/// what is known so far is shown: the committed text, unless it stands in the field
/// already, and the provisional text.
pub proof fn the_end_is_announced(l: LiveState<Seq<char>>)
    ensures
        ({
            let step = announced(l);
            &&& step.edit is None && step.copy is None && step.hide_after is None
            &&& step.overlay is Some && step.overlay.unwrap().phase == "transcribing"@
                && step.overlay.unwrap().text == ""@
            &&& step.overlay.unwrap().hint == if l.direct {
                "direct"@
            } else {
                ""@
            }
            &&& step.live == Some(
                (
                    if l.direct {
                        Seq::empty()
                    } else {
                        l.committed
                    },
                    l.partial,
                ),
            )
        }),
{
}

/// A dictation that cannot start says why, unless another one runs.
pub proof fn closed_gates_say_why(gate: StartGate)
    ensures
        gate_text(gate) is None <==> gate == StartGate::Running || gate == StartGate::Open,
        gate_text(StartGate::Loading) == Some("Le modèle se charge encore…"@),
        gate_text(StartGate::NotReady) == Some("Modèle non prêt — ouvrez Murmure"@),
{
}

/// A repeated press does nothing, however the shortcut works.
pub proof fn repetitions_do_nothing(mode: ShortcutMode, recording: bool, ms: u64)
    requires
        ms < 350,
    ensures
        hotkey_command(mode, KeyState::Pressed, recording, Some(ms)) == Command::Nothing,
{
}

}
