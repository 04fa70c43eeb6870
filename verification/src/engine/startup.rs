//! Bringing a server up: what is done in which order, and what is shown of it.
use crate::engine::{EngineKind, EngineState, EngineStatus};
use crate::platform::Os;
use crate::text;
use vstd::prelude::*;

verus! {

/// What is to be done next.
#[derive(Debug, Clone, Copy, PartialEq, Eq, Structural)]
pub enum Stage {
    /// Look for the server program.
    FindRuntime,
    /// See whether the model file is there.
    CheckModel,
    /// Unpack the archive of the model.
    Extract,
    /// Look for the files of the unpacked model.
    Locate,
    /// Look for a free network port.
    FindPort,
    /// Open the log file.
    OpenLog,
    /// Start the server.
    Launch,
    /// See whether the server still runs.
    CheckChild,
    /// Ask the server whether it is ready.
    Probe,
    /// Wait for [`PROBE_PERIOD_MS`].
    Wait,
    /// Nothing: the server is up, or has failed.
    Finished,
}

/// The time between two probes, in milliseconds.
pub const PROBE_PERIOD_MS: u64 = 250;

/// What has happened.
#[derive(Debug, Clone, PartialEq, Eq)]
pub enum StartEvent<T = String> {
    RuntimeFound(T),
    RuntimeMissing,
    ModelPresent,
    /// The model file is not at this path.
    ModelAbsent(T),
    Extracted,
    ExtractFailed(T),
    Located,
    LocateFailed(T),
    PortFound(u16),
    PortFailed(T),
    LogOpened,
    LogFailed,
    Launched,
    LaunchFailed,
    ChildRuns,
    /// The engine was stopped meanwhile.
    ChildGone,
    /// The server ended with this code; the log ends with `tail`.
    ChildExited { code: T, tail: T },
    ProbeSucceeded,
    /// There was no answer; `late` where the time is up.
    ProbeFailed { late: bool, tail: T },
    Waited,
}

impl View for StartEvent {
    type V = StartEvent<Seq<char>>;

    open spec fn view(&self) -> StartEvent<Seq<char>> {
        match *self {
            StartEvent::RuntimeFound(s) => StartEvent::RuntimeFound(s@),
            StartEvent::RuntimeMissing => StartEvent::RuntimeMissing,
            StartEvent::ModelPresent => StartEvent::ModelPresent,
            StartEvent::ModelAbsent(s) => StartEvent::ModelAbsent(s@),
            StartEvent::Extracted => StartEvent::Extracted,
            StartEvent::ExtractFailed(s) => StartEvent::ExtractFailed(s@),
            StartEvent::Located => StartEvent::Located,
            StartEvent::LocateFailed(s) => StartEvent::LocateFailed(s@),
            StartEvent::PortFound(p) => StartEvent::PortFound(p),
            StartEvent::PortFailed(s) => StartEvent::PortFailed(s@),
            StartEvent::LogOpened => StartEvent::LogOpened,
            StartEvent::LogFailed => StartEvent::LogFailed,
            StartEvent::Launched => StartEvent::Launched,
            StartEvent::LaunchFailed => StartEvent::LaunchFailed,
            StartEvent::ChildRuns => StartEvent::ChildRuns,
            StartEvent::ChildGone => StartEvent::ChildGone,
            StartEvent::ChildExited { code, tail } => StartEvent::ChildExited {
                code: code@,
                tail: tail@,
            },
            StartEvent::ProbeSucceeded => StartEvent::ProbeSucceeded,
            StartEvent::ProbeFailed { late, tail } => StartEvent::ProbeFailed { late, tail: tail@ },
            StartEvent::Waited => StartEvent::Waited,
        }
    }
}

/// What becomes of the server process.
#[derive(Debug, Clone, Copy, PartialEq, Eq, Structural)]
pub enum ServerAction {
    Keep,
    /// The process has ended and is forgotten.
    Forget,
    /// The process is stopped.
    Stop,
}

/// What follows from an event: the status to show, the error that the start ends
/// with, and what becomes of the server process.
#[derive(Debug, Clone)]
#[verifier::ext_equal]
pub struct StartStep<T = String> {
    pub status: Option<EngineStatus<T>>,
    pub failure: Option<T>,
    pub server: ServerAction,
}

impl View for StartStep {
    type V = StartStep<Seq<char>>;

    open spec fn view(&self) -> StartStep<Seq<char>> {
        StartStep {
            status: match self.status {
                Some(s) => Some(s@),
                None => None,
            },
            failure: crate::engine::opt_text(self.failure),
            server: self.server,
        }
    }
}

/// A server that is being brought up for a model.
#[derive(Debug, Clone)]
#[verifier::ext_equal]
pub struct Startup<T = String> {
    pub kind: EngineKind,
    pub os: Os,
    pub model_id: T,
    /// The path of the server program, once it is found.
    pub runtime: T,
    /// The network port, once it is found.
    pub port: u16,
    pub stage: Stage,
}

impl View for Startup {
    type V = Startup<Seq<char>>;

    open spec fn view(&self) -> Startup<Seq<char>> {
        Startup {
            kind: self.kind,
            os: self.os,
            model_id: self.model_id@,
            runtime: self.runtime@,
            port: self.port,
            stage: self.stage,
        }
    }
}

/// The time the server is given to get ready, in seconds.
pub open spec fn deadline(kind: EngineKind) -> u64 {
    match kind {
        EngineKind::SherpaOnnx => 300,
        _ => 180,
    }
}

/// The time the server is given to get ready, in seconds.
pub fn deadline_secs(kind: EngineKind) -> (n: u64)
    ensures
        n == deadline(kind),
{
    match kind {
        EngineKind::SherpaOnnx => 300,
        _ => 180,
    }
}

/// What is shown where the server program is missing.
pub open spec fn missing_message(kind: EngineKind, os: Os) -> Seq<char> {
    match kind {
        EngineKind::SherpaOnnx =>
            "Runtime sherpa-onnx introuvable. Lancez son installation depuis les réglages, ou indiquez le chemin de sherpa-onnx-offline-websocket-server."@,
        _ => kind.binary_text() + " introuvable. "@ + kind.hint_text(os),
    }
}

/// The error where the server program is missing.
pub open spec fn missing_error(kind: EngineKind) -> Seq<char> {
    match kind {
        EngineKind::SherpaOnnx => "runtime sherpa-onnx introuvable"@,
        _ => kind.binary_text() + " introuvable"@,
    }
}

/// What the server is called in messages on its log and its delay.
pub open spec fn short_name(kind: EngineKind) -> Seq<char> {
    match kind {
        EngineKind::SherpaOnnx => "sherpa-onnx"@,
        _ => kind.binary_text(),
    }
}

/// The message on a server that ended by itself.
pub open spec fn exit_message(kind: EngineKind, code: Seq<char>, tail: Seq<char>) -> Seq<char> {
    let name = match kind {
        EngineKind::SherpaOnnx => "Le serveur sherpa-onnx"@,
        _ => kind.binary_text(),
    };
    name + " s'est arrêté ("@ + code + "). "@ + tail
}

/// What is shown where the server does not get ready in time.
pub open spec fn late_message(kind: EngineKind, tail: Seq<char>) -> Seq<char> {
    match kind {
        EngineKind::SherpaOnnx => "Le moteur n'a pas répondu à temps. "@ + tail,
        _ => "Le moteur n'a pas répondu à temps"@,
    }
}

/// A status of the model that is being started.
pub open spec fn status_of(
    s: Startup<Seq<char>>,
    state: EngineState,
    message: Seq<char>,
    port: Option<u16>,
    runtime: Option<Seq<char>>,
) -> EngineStatus<Seq<char>> {
    EngineStatus { state, message, model_id: Some(s.model_id), port, runtime_path: runtime }
}

/// Nothing to show, and no error.
pub open spec fn quiet_step() -> StartStep<Seq<char>> {
    StartStep { status: None, failure: None, server: ServerAction::Keep }
}

/// A status to show.
pub open spec fn show_step(status: EngineStatus<Seq<char>>) -> StartStep<Seq<char>> {
    StartStep { status: Some(status), failure: None, server: ServerAction::Keep }
}

/// An error, and a status to show with it.
pub open spec fn fail_step(
    status: Option<EngineStatus<Seq<char>>>,
    failure: Seq<char>,
    server: ServerAction,
) -> StartStep<Seq<char>> {
    StartStep { status, failure: Some(failure), server }
}

/// `s` at the stage `stage`.
pub open spec fn at(s: Startup<Seq<char>>, stage: Stage) -> Startup<Seq<char>> {
    Startup { stage, ..s }
}

/// What follows, at each stage, from each event that can happen there. An event
/// that cannot happen at a stage changes nothing.
pub open spec fn advanced(s: Startup<Seq<char>>, e: StartEvent<Seq<char>>) -> (
    Startup<Seq<char>>,
    StartStep<Seq<char>>,
) {
    match (s.stage, e) {
        (Stage::FindRuntime, StartEvent::RuntimeMissing) => (
            at(s, Stage::Finished),
            fail_step(
                Some(
                    status_of(s, EngineState::Error, missing_message(s.kind, s.os), None, None),
                ),
                missing_error(s.kind),
                ServerAction::Keep,
            ),
        ),
        (Stage::FindRuntime, StartEvent::RuntimeFound(r)) => if s.kind == EngineKind::SherpaOnnx {
            (
                Startup { runtime: r, stage: Stage::Extract, ..s },
                show_step(
                    status_of(
                        s,
                        EngineState::Starting,
                        "Décompression du modèle…"@,
                        None,
                        Some(r),
                    ),
                ),
            )
        } else {
            (Startup { runtime: r, stage: Stage::CheckModel, ..s }, quiet_step())
        },
        (Stage::CheckModel, StartEvent::ModelPresent) => (at(s, Stage::FindPort), quiet_step()),
        (Stage::CheckModel, StartEvent::ModelAbsent(path)) => (
            at(s, Stage::Finished),
            fail_step(
                Some(
                    status_of(
                        s,
                        EngineState::Error,
                        "Modèle non téléchargé"@,
                        None,
                        Some(s.runtime),
                    ),
                ),
                "fichier modèle absent : "@ + path,
                ServerAction::Keep,
            ),
        ),
        (Stage::Extract, StartEvent::Extracted) => (at(s, Stage::Locate), quiet_step()),
        (Stage::Extract, StartEvent::ExtractFailed(m)) => (
            at(s, Stage::Finished),
            fail_step(
                Some(
                    status_of(
                        s,
                        EngineState::Error,
                        "Décompression du modèle impossible : "@ + m,
                        None,
                        Some(s.runtime),
                    ),
                ),
                m,
                ServerAction::Keep,
            ),
        ),
        (Stage::Locate, StartEvent::Located) => (at(s, Stage::FindPort), quiet_step()),
        (Stage::Locate, StartEvent::LocateFailed(m)) => (
            at(s, Stage::Finished),
            fail_step(
                Some(
                    status_of(
                        s,
                        EngineState::Error,
                        "Modèle incomplet : "@ + m,
                        None,
                        Some(s.runtime),
                    ),
                ),
                m,
                ServerAction::Keep,
            ),
        ),
        (Stage::FindPort, StartEvent::PortFound(p)) => (
            Startup { port: p, stage: Stage::OpenLog, ..s },
            show_step(
                status_of(
                    s,
                    EngineState::Starting,
                    "Chargement du modèle…"@,
                    Some(p),
                    Some(s.runtime),
                ),
            ),
        ),
        (Stage::FindPort, StartEvent::PortFailed(m)) => (
            at(s, Stage::Finished),
            fail_step(None, m, ServerAction::Keep),
        ),
        (Stage::OpenLog, StartEvent::LogOpened) => (at(s, Stage::Launch), quiet_step()),
        (Stage::OpenLog, StartEvent::LogFailed) => (
            at(s, Stage::Finished),
            fail_step(None, "log "@ + short_name(s.kind), ServerAction::Keep),
        ),
        (Stage::Launch, StartEvent::Launched) => (at(s, Stage::CheckChild), quiet_step()),
        (Stage::Launch, StartEvent::LaunchFailed) => (
            at(s, Stage::Finished),
            fail_step(None, "lancement de "@ + s.runtime, ServerAction::Keep),
        ),
        (Stage::CheckChild, StartEvent::ChildRuns) => (at(s, Stage::Probe), quiet_step()),
        (Stage::CheckChild, StartEvent::ChildGone) => (
            at(s, Stage::Finished),
            fail_step(None, "démarrage interrompu"@, ServerAction::Keep),
        ),
        (Stage::CheckChild, StartEvent::ChildExited { code, tail }) => (
            at(s, Stage::Finished),
            fail_step(
                Some(
                    status_of(
                        s,
                        EngineState::Error,
                        exit_message(s.kind, code, tail),
                        None,
                        Some(s.runtime),
                    ),
                ),
                exit_message(s.kind, code, tail),
                ServerAction::Forget,
            ),
        ),
        (Stage::Probe, StartEvent::ProbeSucceeded) => (
            at(s, Stage::Finished),
            show_step(
                status_of(s, EngineState::Ready, "Prêt"@, Some(s.port), Some(s.runtime)),
            ),
        ),
        (Stage::Probe, StartEvent::ProbeFailed { late, tail }) => if late {
            (
                at(s, Stage::Finished),
                fail_step(
                    Some(
                        status_of(
                            s,
                            EngineState::Error,
                            late_message(s.kind, tail),
                            None,
                            Some(s.runtime),
                        ),
                    ),
                    "timeout démarrage "@ + short_name(s.kind),
                    ServerAction::Stop,
                ),
            )
        } else {
            (at(s, Stage::Wait), quiet_step())
        },
        (Stage::Wait, StartEvent::Waited) => (at(s, Stage::CheckChild), quiet_step()),
        _ => (s, quiet_step()),
    }
}

fn short_name_of(kind: EngineKind) -> (r: &'static str)
    ensures
        r@ == short_name(kind),
{
    match kind {
        EngineKind::SherpaOnnx => "sherpa-onnx",
        _ => kind.binary(),
    }
}

impl Startup {
    /// The start of the engine `kind` for the model `model_id`.
    pub fn new(kind: EngineKind, os: Os, model_id: &str) -> (s: Self)
        ensures
            s@ == (Startup {
                kind,
                os,
                model_id: model_id@,
                runtime: Seq::empty(),
                port: 0,
                stage: Stage::FindRuntime,
            }),
    {
        Startup {
            kind,
            os,
            model_id: model_id.to_string(),
            runtime: String::new(),
            port: 0,
            stage: Stage::FindRuntime,
        }
    }

    fn status(
        &self,
        state: EngineState,
        message: String,
        port: Option<u16>,
        runtime: bool,
    ) -> (r: EngineStatus)
        ensures
            r@ == status_of(
                self@,
                state,
                message@,
                port,
                if runtime {
                    Some(self.runtime@)
                } else {
                    None
                },
            ),
    {
        let mut runtime_path: Option<String> = None;
        if runtime {
            runtime_path = Some(self.runtime.clone());
        }
        EngineStatus { state, message, model_id: Some(self.model_id.clone()), port, runtime_path }
    }

    fn quiet(&mut self, stage: Stage) -> (r: StartStep)
        ensures
            final(self)@ == at(old(self)@, stage),
            r@ == quiet_step(),
    {
        self.stage = stage;
        StartStep { status: None, failure: None, server: ServerAction::Keep }
    }

    fn fail(&mut self, failure: String) -> (r: StartStep)
        ensures
            final(self)@ == at(old(self)@, Stage::Finished),
            r@ == fail_step(None, failure@, ServerAction::Keep),
    {
        self.stage = Stage::Finished;
        StartStep { status: None, failure: Some(failure), server: ServerAction::Keep }
    }

    fn fail_with(
        &mut self,
        message: String,
        failure: String,
        server: ServerAction,
    ) -> (r: StartStep)
        ensures
            final(self)@ == at(old(self)@, Stage::Finished),
            r@ == fail_step(
                Some(
                    status_of(
                        old(self)@,
                        EngineState::Error,
                        message@,
                        None,
                        Some(old(self)@.runtime),
                    ),
                ),
                failure@,
                server,
            ),
    {
        let status = self.status(EngineState::Error, message, None, true);
        self.stage = Stage::Finished;
        StartStep { status: Some(status), failure: Some(failure), server }
    }

    fn show(&mut self, stage: Stage, status: EngineStatus) -> (r: StartStep)
        ensures
            final(self)@ == at(old(self)@, stage),
            r@ == show_step(status@),
    {
        self.stage = stage;
        StartStep { status: Some(status), failure: None, server: ServerAction::Keep }
    }

    fn missing(&mut self) -> (r: StartStep)
        requires
            old(self)@.stage == Stage::FindRuntime,
        ensures
            (final(self)@, r@) == advanced(old(self)@, StartEvent::RuntimeMissing),
    {
        let (message, failure) = match self.kind {
            EngineKind::SherpaOnnx => (
                "Runtime sherpa-onnx introuvable. Lancez son installation depuis les réglages, ou indiquez le chemin de sherpa-onnx-offline-websocket-server.".to_string(),
                "runtime sherpa-onnx introuvable".to_string(),
            ),
            _ => (
                text::concat3(
                    self.kind.binary(),
                    " introuvable. ",
                    self.kind.install_hint(self.os),
                ),
                text::concat(self.kind.binary(), " introuvable"),
            ),
        };
        let status = self.status(EngineState::Error, message, None, false);
        self.stage = Stage::Finished;
        StartStep { status: Some(status), failure: Some(failure), server: ServerAction::Keep }
    }

    fn found(&mut self, runtime: String) -> (r: StartStep)
        requires
            old(self)@.stage == Stage::FindRuntime,
        ensures
            (final(self)@, r@) == advanced(old(self)@, StartEvent::RuntimeFound(runtime@)),
    {
        self.runtime = runtime;
        if self.kind == EngineKind::SherpaOnnx {
            let status = self.status(
                EngineState::Starting,
                "Décompression du modèle…".to_string(),
                None,
                true,
            );
            self.show(Stage::Extract, status)
        } else {
            self.quiet(Stage::CheckModel)
        }
    }

    fn exited(&mut self, code: String, tail: String) -> (r: StartStep)
        requires
            old(self)@.stage == Stage::CheckChild,
        ensures
            (final(self)@, r@) == advanced(
                old(self)@,
                StartEvent::ChildExited { code: code@, tail: tail@ },
            ),
    {
        let name = match self.kind {
            EngineKind::SherpaOnnx => "Le serveur sherpa-onnx",
            _ => self.kind.binary(),
        };
        let mut message = text::concat3(name, " s'est arrêté (", code.as_str());
        message.append("). ");
        message.append(tail.as_str());
        self.fail_with(message.clone(), message, ServerAction::Forget)
    }

    fn unanswered(&mut self, late: bool, tail: String) -> (r: StartStep)
        requires
            old(self)@.stage == Stage::Probe,
        ensures
            (final(self)@, r@) == advanced(
                old(self)@,
                StartEvent::ProbeFailed { late, tail: tail@ },
            ),
    {
        if late {
            let message = match self.kind {
                EngineKind::SherpaOnnx => text::concat(
                    "Le moteur n'a pas répondu à temps. ",
                    tail.as_str(),
                ),
                _ => "Le moteur n'a pas répondu à temps".to_string(),
            };
            let failure = text::concat("timeout démarrage ", short_name_of(self.kind));
            self.fail_with(message, failure, ServerAction::Stop)
        } else {
            self.quiet(Stage::Wait)
        }
    }

    /// Takes note of an event and tells what follows from it; `stage` tells what is
    /// to be done next.
    pub fn advance(&mut self, event: StartEvent) -> (r: StartStep)
        ensures
            (final(self)@, r@) == advanced(old(self)@, event@),
    {
        match (self.stage, event) {
            (Stage::FindRuntime, StartEvent::RuntimeMissing) => self.missing(),
            (Stage::FindRuntime, StartEvent::RuntimeFound(runtime)) => self.found(runtime),
            (Stage::CheckModel, StartEvent::ModelPresent) => self.quiet(Stage::FindPort),
            (Stage::CheckModel, StartEvent::ModelAbsent(path)) => {
                let failure = text::concat("fichier modèle absent : ", path.as_str());
                self.fail_with("Modèle non téléchargé".to_string(), failure, ServerAction::Keep)
            },
            (Stage::Extract, StartEvent::Extracted) => self.quiet(Stage::Locate),
            (Stage::Extract, StartEvent::ExtractFailed(m)) => {
                let message = text::concat("Décompression du modèle impossible : ", m.as_str());
                self.fail_with(message, m, ServerAction::Keep)
            },
            (Stage::Locate, StartEvent::Located) => self.quiet(Stage::FindPort),
            (Stage::Locate, StartEvent::LocateFailed(m)) => {
                let message = text::concat("Modèle incomplet : ", m.as_str());
                self.fail_with(message, m, ServerAction::Keep)
            },
            (Stage::FindPort, StartEvent::PortFound(p)) => {
                self.port = p;
                let status = self.status(
                    EngineState::Starting,
                    "Chargement du modèle…".to_string(),
                    Some(p),
                    true,
                );
                self.show(Stage::OpenLog, status)
            },
            (Stage::FindPort, StartEvent::PortFailed(m)) => self.fail(m),
            (Stage::OpenLog, StartEvent::LogOpened) => self.quiet(Stage::Launch),
            (Stage::OpenLog, StartEvent::LogFailed) => {
                let failure = text::concat("log ", short_name_of(self.kind));
                self.fail(failure)
            },
            (Stage::Launch, StartEvent::Launched) => self.quiet(Stage::CheckChild),
            (Stage::Launch, StartEvent::LaunchFailed) => {
                let failure = text::concat("lancement de ", self.runtime.as_str());
                self.fail(failure)
            },
            (Stage::CheckChild, StartEvent::ChildRuns) => self.quiet(Stage::Probe),
            (Stage::CheckChild, StartEvent::ChildGone) => self.fail(
                "démarrage interrompu".to_string(),
            ),
            (Stage::CheckChild, StartEvent::ChildExited { code, tail }) => self.exited(code, tail),
            (Stage::Probe, StartEvent::ProbeSucceeded) => {
                let port = self.port;
                let status = self.status(EngineState::Ready, "Prêt".to_string(), Some(port), true);
                self.show(Stage::Finished, status)
            },
            (Stage::Probe, StartEvent::ProbeFailed { late, tail }) => self.unanswered(late, tail),
            (Stage::Wait, StartEvent::Waited) => self.quiet(Stage::CheckChild),
            _ => {
                let stage = self.stage;
                self.quiet(stage)
            },
        }
    }
}

/// The start `s` after `events`.
pub open spec fn after(s: Startup<Seq<char>>, events: Seq<StartEvent<Seq<char>>>) -> Startup<
    Seq<char>,
>
    decreases events.len(),
{
    if events.len() == 0 {
        s
    } else {
        advanced(after(s, events.drop_last()), events.last()).0
    }
}

/// What follows from the last of `events`.
pub open spec fn last_step(s: Startup<Seq<char>>, events: Seq<StartEvent<Seq<char>>>) -> StartStep<
    Seq<char>,
> {
    advanced(after(s, events.drop_last()), events.last()).1
}

/// Whether the server has been launched at the stage of `s`.
spec fn launched(stage: Stage) -> bool {
    stage == Stage::CheckChild || stage == Stage::Probe || stage == Stage::Wait
}

spec fn has_port(stage: Stage) -> bool {
    stage == Stage::OpenLog || stage == Stage::Launch || launched(stage)
}

proof fn lemma_history(s: Startup<Seq<char>>, events: Seq<StartEvent<Seq<char>>>)
    requires
        s.stage == Stage::FindRuntime,
    ensures
        ({
            let t = after(s, events);
            &&& launched(t.stage) ==> events.contains(StartEvent::Launched)
            &&& has_port(t.stage) ==> events.contains(StartEvent::PortFound(t.port))
            &&& t.stage != Stage::FindRuntime && t.stage != Stage::Finished ==> events.contains(
                StartEvent::RuntimeFound(t.runtime),
            )
        }),
    decreases events.len(),
{
    if events.len() > 0 {
        let before = events.drop_last();
        lemma_history(s, before);
        let u = after(s, before);
        let e = events.last();
        assert(events[events.len() - 1] == e);
        assert forall|x: StartEvent<Seq<char>>| before.contains(x) implies events.contains(x) by {
            let i = before.index_of(x);
            assert(events[i] == x);
        }
        assert(events.contains(e));
    }
}

/// An engine is shown as ready only when its server has answered a probe, and only
/// after its program was found, a network port was found for it, and it was
/// launched; the status names that program and that port.
pub proof fn ready_means_answered(s: Startup<Seq<char>>, events: Seq<StartEvent<Seq<char>>>)
    requires
        s.stage == Stage::FindRuntime,
        events.len() > 0,
        last_step(s, events).status is Some,
        last_step(s, events).status.unwrap().state == EngineState::Ready,
    ensures
        events.last() == StartEvent::<Seq<char>>::ProbeSucceeded,
        events.contains(StartEvent::Launched),
        last_step(s, events).status.unwrap().port matches Some(p) && events.contains(
            StartEvent::PortFound(p),
        ),
        last_step(s, events).status.unwrap().runtime_path matches Some(r) && events.contains(
            StartEvent::RuntimeFound(r),
        ),
{
    let before = events.drop_last();
    lemma_history(s, before);
    assert forall|x: StartEvent<Seq<char>>| before.contains(x) implies events.contains(x) by {
        let i = before.index_of(x);
        assert(events[i] == x);
    }
}

/// A start that has failed is over, and so is one that has succeeded: no event
/// changes it or shows anything any more.
pub proof fn ends_are_final(
    s: Startup<Seq<char>>,
    e: StartEvent<Seq<char>>,
    later: StartEvent<Seq<char>>,
)
    ensures
        ({
            let (t, step) = advanced(s, e);
            let ended = step.failure is Some || (step.status matches Some(st) && st.state
                == EngineState::Ready);
            ended ==> t.stage == Stage::Finished && advanced(t, later) == (t, quiet_step())
        }),
{
}

/// An error status names no network port, and always comes with an error.
pub proof fn error_statuses_come_with_errors(s: Startup<Seq<char>>, e: StartEvent<Seq<char>>)
    ensures
        advanced(s, e).1.status matches Some(st) ==> (st.state == EngineState::Error ==> st.port
            is None && advanced(s, e).1.failure is Some),
{
}

/// A server comes up in this order: its program is found, its model is there (that of
/// sherpa-onnx is unpacked and located), a port is found, its log is opened, it is
/// launched, and it answers. It is then ready on that port, with that program and model.
pub proof fn servers_come_up(s: Startup<Seq<char>>, r: Seq<char>, port: u16)
    requires
        s.stage == Stage::FindRuntime,
    ensures
        ({
            let a = advanced(s, StartEvent::RuntimeFound(r)).0;
            let b = if s.kind == EngineKind::SherpaOnnx {
                advanced(advanced(a, StartEvent::Extracted).0, StartEvent::Located).0
            } else {
                advanced(a, StartEvent::ModelPresent).0
            };
            let c = advanced(b, StartEvent::PortFound(port));
            let d = advanced(c.0, StartEvent::LogOpened).0;
            let e = advanced(d, StartEvent::Launched).0;
            let f = advanced(e, StartEvent::ChildRuns).0;
            let g = advanced(f, StartEvent::ProbeSucceeded);
            &&& b.stage == Stage::FindPort
            &&& c.0.stage == Stage::OpenLog
            &&& c.1.status matches Some(t) && t.state == EngineState::Starting && t.port == Some(port)
            &&& d.stage == Stage::Launch
            &&& e.stage == Stage::CheckChild
            &&& f.stage == Stage::Probe
            &&& g.0.stage == Stage::Finished
            &&& g.1.failure is None
            &&& g.1.status == Some(
                EngineStatus {
                    state: EngineState::Ready,
                    message: "Prêt"@,
                    model_id: Some(s.model_id),
                    port: Some(port),
                    runtime_path: Some(r),
                },
            )
        }),
{
}

/// A server that does not answer yet is asked again after a while, as long as it runs and
/// it is not too late; one that is too late is stopped, and one that has ended is
/// forgotten.
pub proof fn servers_are_waited_for(
    s: Startup<Seq<char>>,
    tail: Seq<char>,
    code: Seq<char>,
)
    ensures
        s.stage == Stage::Probe ==> ({
            let (a, step) = advanced(s, StartEvent::ProbeFailed { late: false, tail });
            let b = advanced(a, StartEvent::Waited).0;
            &&& step.failure is None && step.status is None && step.server == ServerAction::Keep
            &&& b == (Startup { stage: Stage::CheckChild, ..s })
        }),
        s.stage == Stage::Probe ==> ({
            let (a, step) = advanced(s, StartEvent::ProbeFailed { late: true, tail });
            &&& a.stage == Stage::Finished && step.failure is Some && step.server
                == ServerAction::Stop
        }),
        s.stage == Stage::CheckChild ==> ({
            let (a, step) = advanced(s, StartEvent::ChildExited { code, tail });
            &&& a.stage == Stage::Finished && step.failure is Some && step.server
                == ServerAction::Forget
        }),
        s.stage == Stage::CheckChild ==> ({
            let (a, step) = advanced(s, StartEvent::ChildGone);
            &&& a.stage == Stage::Finished && step.failure == Some("démarrage interrompu"@)
                && step.status is None
        }),
{
}

/// What goes wrong before the server is launched ends the start with its reason.
pub proof fn failed_starts_say_why(s: Startup<Seq<char>>, m: Seq<char>)
    ensures
        s.stage == Stage::CheckModel ==> advanced(s, StartEvent::ModelAbsent(m)).1.failure == Some(
            "fichier modèle absent : "@ + m,
        ),
        s.stage == Stage::Extract ==> advanced(s, StartEvent::ExtractFailed(m)).1.failure == Some(m)
            && advanced(s, StartEvent::ExtractFailed(m)).1.status.unwrap().message
            == "Décompression du modèle impossible : "@ + m,
        s.stage == Stage::Locate ==> advanced(s, StartEvent::LocateFailed(m)).1.failure == Some(m)
            && advanced(s, StartEvent::LocateFailed(m)).1.status.unwrap().message
            == "Modèle incomplet : "@ + m,
        s.stage == Stage::FindPort ==> advanced(s, StartEvent::PortFailed(m)).1.failure == Some(m),
        s.stage == Stage::Launch ==> advanced(s, StartEvent::LaunchFailed).1.failure == Some(
            "lancement de "@ + s.runtime,
        ),
{
}

/// A start of sherpa-onnx, whose models are large, may take five minutes; others three.
pub proof fn starts_may_take_minutes(kind: EngineKind)
    ensures
        deadline(kind) == if kind == EngineKind::SherpaOnnx {
            5 * 60
        } else {
            3 * 60
        },
{
}

}
