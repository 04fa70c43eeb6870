use murmure::engine::startup::{deadline_secs, ServerAction, Stage, StartEvent, StartStep, Startup};
use murmure::engine::{
    binary_candidates, find_binary, BinarySearch, EngineKind, EngineState, EngineStatus,
};
use murmure::platform::{Os, Place, Root};

fn place(root: Root, parts: &[&str]) -> Place {
    Place { root, parts: parts.iter().map(|p| p.to_string()).collect() }
}

fn nothing_known() -> BinarySearch {
    BinarySearch {
        override_path: None,
        env_path: None,
        data_dir: false,
        exe_dir: false,
        search_entries: 0,
    }
}

#[test]
fn engines_have_names() {
    let all = EngineKind::all();
    assert_eq!(all.len(), 3);
    assert_eq!(all.map(|k| k.id()), ["llama-cpp", "whisper-cpp", "sherpa-onnx"]);
    assert_eq!(all.map(|k| k.label()), ["llama.cpp", "whisper.cpp", "sherpa-onnx"]);
    assert_eq!(
        all.map(|k| k.binary()),
        ["llama-server", "whisper-server", "sherpa-onnx-offline-websocket-server"]
    );
    assert_eq!(
        all.map(|k| k.env_var()),
        ["MURMURE_LLAMA_SERVER", "MURMURE_WHISPER_SERVER", "MURMURE_SHERPA_ONNX"]
    );
    assert_eq!(EngineKind::LlamaCpp.install_hint(Os::MacOs), "brew install llama.cpp");
    assert!(EngineKind::WhisperCpp.install_hint(Os::Windows).contains("whisper-server.exe"));
    assert_eq!(
        EngineKind::SherpaOnnx.install_hint(Os::Linux),
        "Téléchargé automatiquement au premier démarrage"
    );
}

#[test]
fn an_error_stays_on_display() {
    let mut s = EngineStatus::stopped();
    assert_eq!(s.message, "Moteur arrêté");
    assert_eq!(s.state, EngineState::Stopped);
    s.state = EngineState::Ready;
    assert_eq!(s.after_stop().state, EngineState::Stopped);
    let mut s = EngineStatus::stopped();
    s.state = EngineState::Error;
    s.message = "panne".to_string();
    assert_eq!(s.after_stop().message, "panne");
}

#[test]
fn programs_are_looked_for_in_order() {
    let search = BinarySearch {
        override_path: Some("/mine".to_string()),
        env_path: Some("/env".to_string()),
        data_dir: true,
        exe_dir: true,
        search_entries: 1,
    };
    let file = "whisper-server.exe";
    let id = "whisper-cpp";
    assert_eq!(
        binary_candidates(EngineKind::WhisperCpp, Os::Windows, &search),
        vec![
            place(Root::Given("/mine".to_string()), &[]),
            place(Root::Given("/env".to_string()), &[]),
            place(Root::Data, &["runtimes", id, "bin", file]),
            place(Root::Data, &["runtimes", id, file]),
            place(Root::Executable, &["runtimes", id, file]),
            place(Root::Executable, &["../Resources/runtimes", id, file]),
            place(Root::Executable, &[file]),
            place(Root::Executable, &["bin", file]),
            place(Root::SearchPath(0), &[file]),
            place(Root::Given("/opt/homebrew/bin".to_string()), &[file]),
            place(Root::Given("/usr/local/bin".to_string()), &[file]),
        ]
    );
}

#[test]
fn blank_overrides_are_ignored() {
    let mut search = nothing_known();
    search.override_path = Some("  ".to_string());
    let all = binary_candidates(EngineKind::LlamaCpp, Os::Linux, &search);
    assert_eq!(all.len(), 2);
    assert_eq!(all[1], place(Root::Given("/usr/local/bin".to_string()), &["llama-server"]));
}

#[test]
fn the_first_file_is_taken() {
    let search = nothing_known();
    let find = |flags: Vec<bool>| find_binary(EngineKind::LlamaCpp, Os::MacOs, &search, &flags);
    assert_eq!(find(vec![false, false]), None);
    assert_eq!(find(vec![]), None);
    assert_eq!(
        find(vec![true, true]),
        Some(place(Root::Given("/opt/homebrew/bin".to_string()), &["llama-server"]))
    );
    assert_eq!(
        find(vec![false, true]),
        Some(place(Root::Given("/usr/local/bin".to_string()), &["llama-server"]))
    );
    assert_eq!(find(vec![false, false, true]), None);
}

fn text(s: &str) -> String {
    s.to_string()
}

fn shown(step: &StartStep) -> (EngineState, String, Option<u16>) {
    let s = step.status.as_ref().unwrap();
    (s.state, s.message.clone(), s.port)
}

#[test]
fn a_server_comes_up() {
    let mut s = Startup::new(EngineKind::LlamaCpp, Os::Linux, "m");
    assert_eq!(s.stage, Stage::FindRuntime);
    assert!(s.advance(StartEvent::RuntimeFound(text("/bin/l"))).status.is_none());
    assert_eq!(s.stage, Stage::CheckModel);
    s.advance(StartEvent::ModelPresent);
    assert_eq!(s.stage, Stage::FindPort);
    let step = s.advance(StartEvent::PortFound(4000));
    assert_eq!(shown(&step), (EngineState::Starting, text("Chargement du modèle…"), Some(4000)));
    s.advance(StartEvent::LogOpened);
    assert_eq!(s.stage, Stage::Launch);
    s.advance(StartEvent::Launched);
    s.advance(StartEvent::ChildRuns);
    s.advance(StartEvent::ProbeFailed { late: false, tail: text("") });
    assert_eq!(s.stage, Stage::Wait);
    s.advance(StartEvent::Waited);
    s.advance(StartEvent::ChildRuns);
    assert_eq!(s.stage, Stage::Probe);
    let step = s.advance(StartEvent::ProbeSucceeded);
    assert_eq!(shown(&step), (EngineState::Ready, text("Prêt"), Some(4000)));
    assert_eq!(step.status.unwrap().runtime_path, Some(text("/bin/l")));
    assert_eq!(s.stage, Stage::Finished);
    assert!(step.failure.is_none());
    // Nothing happens behind the end.
    assert!(s.advance(StartEvent::ProbeSucceeded).status.is_none());
}

#[test]
fn a_missing_program_is_an_error() {
    let mut s = Startup::new(EngineKind::WhisperCpp, Os::MacOs, "m");
    let step = s.advance(StartEvent::RuntimeMissing);
    assert_eq!(
        shown(&step),
        (EngineState::Error, text("whisper-server introuvable. brew install whisper-cpp"), None)
    );
    assert_eq!(step.failure, Some(text("whisper-server introuvable")));
    let mut s = Startup::new(EngineKind::SherpaOnnx, Os::MacOs, "m");
    let step = s.advance(StartEvent::RuntimeMissing);
    assert_eq!(step.failure, Some(text("runtime sherpa-onnx introuvable")));
}

#[test]
fn a_missing_model_is_an_error() {
    let mut s = Startup::new(EngineKind::LlamaCpp, Os::Linux, "m");
    s.advance(StartEvent::RuntimeFound(text("r")));
    let step = s.advance(StartEvent::ModelAbsent(text("/m/x.gguf")));
    assert_eq!(shown(&step), (EngineState::Error, text("Modèle non téléchargé"), None));
    assert_eq!(step.failure, Some(text("fichier modèle absent : /m/x.gguf")));
}

#[test]
fn sherpa_models_are_unpacked_first() {
    let mut s = Startup::new(EngineKind::SherpaOnnx, Os::Linux, "m");
    let step = s.advance(StartEvent::RuntimeFound(text("r")));
    assert_eq!(shown(&step), (EngineState::Starting, text("Décompression du modèle…"), None));
    assert_eq!(s.stage, Stage::Extract);
    let mut t = s.clone();
    let step = t.advance(StartEvent::ExtractFailed(text("plein")));
    assert_eq!(
        shown(&step),
        (EngineState::Error, text("Décompression du modèle impossible : plein"), None)
    );
    assert_eq!(step.failure, Some(text("plein")));
    s.advance(StartEvent::Extracted);
    let step = s.advance(StartEvent::LocateFailed(text("rien")));
    assert_eq!(shown(&step), (EngineState::Error, text("Modèle incomplet : rien"), None));
}

#[test]
fn a_server_that_ends_is_an_error() {
    let mut s = Startup::new(EngineKind::LlamaCpp, Os::Linux, "m");
    s.stage = Stage::CheckChild;
    let step = s.advance(StartEvent::ChildExited { code: text("code 1"), tail: text("oups") });
    assert_eq!(step.failure, Some(text("llama-server s'est arrêté (code 1). oups")));
    assert_eq!(step.server, ServerAction::Forget);
    let mut s = Startup::new(EngineKind::SherpaOnnx, Os::Linux, "m");
    s.stage = Stage::CheckChild;
    let step = s.advance(StartEvent::ChildExited { code: text("1"), tail: text("t") });
    assert_eq!(step.failure, Some(text("Le serveur sherpa-onnx s'est arrêté (1). t")));
    let mut s = Startup::new(EngineKind::LlamaCpp, Os::Linux, "m");
    s.stage = Stage::CheckChild;
    let step = s.advance(StartEvent::ChildGone);
    assert_eq!(step.failure, Some(text("démarrage interrompu")));
}

#[test]
fn a_server_that_is_late_is_stopped() {
    let mut s = Startup::new(EngineKind::WhisperCpp, Os::Linux, "m");
    s.stage = Stage::Probe;
    let step = s.advance(StartEvent::ProbeFailed { late: true, tail: text("t") });
    assert_eq!(step.server, ServerAction::Stop);
    assert_eq!(shown(&step).1, "Le moteur n'a pas répondu à temps");
    assert_eq!(step.failure, Some(text("timeout démarrage whisper-server")));
    let mut s = Startup::new(EngineKind::SherpaOnnx, Os::Linux, "m");
    s.stage = Stage::Probe;
    let step = s.advance(StartEvent::ProbeFailed { late: true, tail: text("t") });
    assert_eq!(shown(&step).1, "Le moteur n'a pas répondu à temps. t");
    assert_eq!(deadline_secs(EngineKind::LlamaCpp), 180);
    assert_eq!(deadline_secs(EngineKind::SherpaOnnx), 300);
}

#[test]
fn other_failures_of_a_start() {
    for (stage, event, message) in [
        (Stage::FindPort, StartEvent::PortFailed(text("p")), "p"),
        (Stage::OpenLog, StartEvent::LogFailed, "log llama-server"),
        (Stage::Launch, StartEvent::LaunchFailed, "lancement de r"),
    ] {
        let mut s = Startup::new(EngineKind::LlamaCpp, Os::Linux, "m");
        s.runtime = text("r");
        s.stage = stage;
        let step = s.advance(event);
        assert_eq!(step.failure, Some(text(message)));
        assert!(step.status.is_none());
        assert_eq!(s.stage, Stage::Finished);
    }
}
