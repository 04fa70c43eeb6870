use murmure::engine::command::ModelFiles;
use murmure::engine::sherpa::{
    after_unpacking, canary_lang, decode, ensure_model_extracted, executable_mode, find_runtime,
    find_runtime_in, flavor_of, kill_stale, known_lang, late_answer, library_variable,
    locate_model, log_tail, parse_result, pick_onnx, prepare, read_result, runtime_asset,
    runtime_dir, runtime_url, split_payload, DirEntry, Exchange, Flavor, Missing, Prepared,
    ServerMessage, Unpacked, Unpacking,
};
use murmure::engine::BinarySearch;
use murmure::models::{ModelSpec, Registry};
use murmure::platform::{Arch, Os, Place, Root};
use murmure::wav::{to_wav_16k, Samples};

#[test]
fn result_parsing() {
    let (lang, text) = parse_result(r#"{"text":"bonjour","lang":"<|fr|>","tokens":[]}"#);
    assert_eq!(text, "bonjour");
    assert_eq!(lang.as_deref(), Some("fr"));
    let (lang, text) = parse_result(r#"{"text":" salut ","lang":""}"#);
    assert_eq!(text, "salut");
    assert!(lang.is_none());
}

#[test]
fn results_without_fields() {
    assert_eq!(parse_result(" pas du JSON "), (None, "pas du JSON".to_string()));
    assert_eq!(parse_result(r#"{"lang":3}"#), (None, "".to_string()));
    assert_eq!(parse_result("[1]"), (None, "".to_string()));
    assert_eq!(parse_result(r#"{"lang":" <| |> "}"#), (Some(" ".to_string()), "".to_string()));
    assert_eq!(
        read_result("x", true, Some(" a ".to_string()), Some("<<||".to_string())),
        (None, "a".to_string())
    );
    assert_eq!(read_result(" x ", false, Some("a".to_string()), None), (None, "x".to_string()));
}

#[test]
fn archives_are_chosen_by_machine() {
    assert_eq!(
        runtime_asset(Os::MacOs, Arch::Aarch64),
        Some("sherpa-onnx-v1.13.7-osx-arm64-shared.tar.bz2")
    );
    assert_eq!(
        runtime_asset(Os::MacOs, Arch::X86_64),
        Some("sherpa-onnx-v1.13.7-osx-x64-shared.tar.bz2")
    );
    assert_eq!(
        runtime_asset(Os::Windows, Arch::X86_64),
        Some("sherpa-onnx-v1.13.7-win-x64-shared-MT-Release.tar.bz2")
    );
    assert_eq!(
        runtime_asset(Os::Linux, Arch::X86_64),
        Some("sherpa-onnx-v1.13.7-linux-x64-shared.tar.bz2")
    );
    assert_eq!(runtime_asset(Os::Linux, Arch::Aarch64), None);
    assert_eq!(runtime_asset(Os::Other, Arch::X86_64), None);
    assert_eq!(
        runtime_url("a.tar.bz2"),
        "https://github.com/k2-fsa/sherpa-onnx/releases/download/v1.13.7/a.tar.bz2"
    );
    assert_eq!(
        runtime_dir(),
        Place { root: Root::Data, parts: vec!["runtimes".to_string(), "sherpa-onnx".to_string()] }
    );
}

fn search() -> BinarySearch {
    BinarySearch {
        override_path: None,
        env_path: None,
        data_dir: true,
        exe_dir: false,
        search_entries: 0,
    }
}

#[test]
fn the_data_directory_is_searched_on_demand() {
    let file = "sherpa-onnx-offline-websocket-server";
    let p = find_runtime_in(Os::Linux, &search(), &vec![true, false, false, false]).unwrap();
    assert_eq!(p.root, Root::Data);
    assert_eq!(p.parts, vec!["runtimes", "sherpa-onnx", "bin", file]);
    let p = find_runtime(Os::Linux, search(), &vec![true, false]).unwrap();
    assert_eq!(p.root, Root::Given("/opt/homebrew/bin".to_string()));
    assert_eq!(find_runtime(Os::Linux, search(), &vec![false, false]), None);
}

#[test]
fn left_servers_are_ended() {
    let shown = b"/x/sherpa-onnx-offline-websocket-server --port=1".to_vec();
    assert_eq!(
        kill_stale(Os::Linux, 42, Some(&shown)),
        Some(("kill".to_string(), vec!["42".to_string()]))
    );
    assert_eq!(kill_stale(Os::Linux, 42, Some(&b"bash".to_vec())), None);
    assert_eq!(kill_stale(Os::Linux, 42, None), None);
}

#[test]
fn libraries_and_modes() {
    assert_eq!(library_variable(Os::MacOs), "DYLD_LIBRARY_PATH");
    assert_eq!(library_variable(Os::Windows), "PATH");
    assert_eq!(library_variable(Os::Linux), "LD_LIBRARY_PATH");
    assert_eq!(executable_mode(0o644), 0o755);
    assert_eq!(executable_mode(0o100600), 0o100755);
    assert_eq!(executable_mode(0o777), 0o777);
}

#[test]
fn logs_are_joined() {
    assert_eq!(log_tail(Some("a\nb\n"), Some(" c ")), "a\nb\nc");
    assert_eq!(log_tail(None, Some("c")), "c");
    assert_eq!(log_tail(Some(" \n"), None), "");
    assert_eq!(log_tail(Some("1\n2\n3\n4\n5\n6\n7"), None), "2\n3\n4\n5\n6\n7");
}

fn model(id: &str, main: &str, files: &[&str]) -> ModelSpec {
    let mut m = Registry::new().find("qwen3-asr-1.7b").unwrap();
    m.id = id.to_string();
    m.main_file = main.to_string();
    let template = m.files[0].clone();
    m.files = files
        .iter()
        .map(|f| {
            let mut r = template.clone();
            r.name = f.to_string();
            r
        })
        .collect();
    m
}

#[test]
fn families_are_told_by_name() {
    assert_eq!(flavor_of(&model("my-CANARY", "x", &[])), Flavor::Canary);
    assert_eq!(flavor_of(&model("m", "x", &["a", "Canary.tar.bz2"])), Flavor::Canary);
    assert_eq!(flavor_of(&model("m", "x-canary", &[])), Flavor::Canary);
    assert_eq!(flavor_of(&model("parakeet", "x", &["y"])), Flavor::NemoTransducer);
    let registry = Registry::new();
    for m in registry.catalog() {
        if m.id.contains("canary") {
            assert_eq!(flavor_of(&m), Flavor::Canary);
        }
        if m.id.contains("parakeet") {
            assert_eq!(flavor_of(&m), Flavor::NemoTransducer);
        }
    }
}

#[test]
fn canary_speaks_four_languages() {
    assert_eq!(canary_lang(None), "fr");
    assert_eq!(canary_lang(Some(" EN ")), "en");
    assert_eq!(canary_lang(Some("de")), "de");
    assert_eq!(canary_lang(Some("it")), "fr");
    assert_eq!(known_lang("es".to_string()), "es");
    assert_eq!(known_lang("".to_string()), "fr");
}

fn entries(names: &[&str]) -> Vec<DirEntry> {
    names.iter().map(|n| DirEntry { name: n.to_string(), is_file: true }).collect()
}

#[test]
fn quantised_networks_come_first() {
    let e = entries(&["encoder.onnx", "encoder.fp16.onnx", "Encoder-big.INT8.onnx", "encoder.int8.onnx"]);
    assert_eq!(pick_onnx(&e, "encoder"), Some(3));
    assert_eq!(pick_onnx(&e[..3].to_vec(), "encoder"), Some(2));
    assert_eq!(pick_onnx(&e[..2].to_vec(), "encoder"), Some(1));
    assert_eq!(pick_onnx(&e, "decoder"), None);
    // Of two that are as good the first is taken.
    assert_eq!(pick_onnx(&entries(&["joiner-b.onnx", "joiner-a.onnx"]), "joiner"), Some(0));
    let mut e = entries(&["encoder.onnx", "encoder.txt"]);
    e[0].is_file = false;
    assert_eq!(pick_onnx(&e, "encoder"), None);
}

#[test]
fn models_are_located() {
    let e = entries(&["Decoder.onnx", "encoder.int8.onnx", "joiner.onnx", "tokens.txt"]);
    let all = ModelFiles {
        tokens: "tokens.txt".to_string(),
        encoder: "encoder.int8.onnx".to_string(),
        decoder: "Decoder.onnx".to_string(),
        joiner: Some("joiner.onnx".to_string()),
    };
    assert_eq!(locate_model(&e, true, Flavor::NemoTransducer), Ok(all));
    assert_eq!(locate_model(&e, false, Flavor::Canary), Err(Missing::Tokens));
    let e = entries(&["decoder.onnx", "encoder.onnx"]);
    assert_eq!(locate_model(&e, true, Flavor::NemoTransducer), Err(Missing::Joiner));
    assert_eq!(locate_model(&e, true, Flavor::Canary).unwrap().joiner, None);
    assert_eq!(locate_model(&e[1..].to_vec(), true, Flavor::Canary), Err(Missing::Decoder));
    assert_eq!(locate_model(&e[..1].to_vec(), true, Flavor::Canary), Err(Missing::Encoder));
    assert_eq!(Missing::Tokens.message("/m"), "tokens.txt introuvable dans /m");
    assert_eq!(Missing::Encoder.message("/m"), "encoder*.onnx introuvable dans /m");
    assert_eq!(Missing::Decoder.message("/m"), "decoder*.onnx introuvable dans /m");
    assert_eq!(Missing::Joiner.message("/m"), "joiner*.onnx introuvable dans /m");
}

#[test]
fn models_are_unpacked_once() {
    assert_eq!(ensure_model_extracted(true, false), Unpacking::Done);
    assert_eq!(ensure_model_extracted(false, false), Unpacking::NoArchive);
    assert_eq!(ensure_model_extracted(false, true), Unpacking::Unpack);
    let done = Unpacked { mark: None, failure: None };
    assert_eq!(after_unpacking(Unpacking::Done, "m.tar.bz2", "/a", None), done);
    let absent = after_unpacking(Unpacking::NoArchive, "m.tar.bz2", "/a", None);
    assert_eq!(absent.mark, None);
    assert_eq!(absent.failure.unwrap(), "archive du modèle absente : /a");
    let unpacked = after_unpacking(Unpacking::Unpack, "m.tar.bz2", "/a", None);
    assert_eq!(unpacked, Unpacked { mark: Some("m.tar.bz2".to_string()), failure: None });
    let failed = after_unpacking(Unpacking::Unpack, "m.tar.bz2", "/a", Some("x".to_string()));
    assert_eq!(failed, Unpacked { mark: None, failure: Some("x".to_string()) });
}

#[test]
fn audio_is_sent_in_parts() {
    let bytes: Vec<u8> = (0..25_000u32).map(|i| (i % 251) as u8).collect();
    let parts = split_payload(&bytes);
    assert_eq!(parts.iter().map(|p| p.len()).collect::<Vec<_>>(), vec![10_240, 10_240, 4_520]);
    assert_eq!(parts.concat(), bytes);
    assert_eq!(split_payload(&vec![0; 10_240]).len(), 1);
    assert!(split_payload(&Vec::new()).is_empty());
}

#[test]
fn messages_of_the_server() {
    assert_eq!(decode(ServerMessage::Other), Exchange::Waiting);
    assert_eq!(
        decode(ServerMessage::Text("{}".to_string())),
        Exchange::Answered("{}".to_string())
    );
    let failed = |m: ServerMessage| match decode(m) {
        Exchange::Failed { message, part } => (message, part),
        other => panic!("{other:?}"),
    };
    let silent = "le moteur a fermé la connexion sans répondre".to_string();
    assert_eq!(failed(ServerMessage::Close(None)), (silent.clone(), false));
    assert_eq!(failed(ServerMessage::Close(Some("".to_string()))), (silent, false));
    assert_eq!(
        failed(ServerMessage::Close(Some("trop long".to_string()))).0,
        "le moteur a refusé la requête : trop long"
    );
    assert_eq!(failed(ServerMessage::Broken).0, "flux websocket interrompu");
    assert_eq!(failed(ServerMessage::End), ("aucune réponse du moteur".to_string(), true));
    assert_eq!(late_answer(), "le moteur n'a pas répondu (délai dépassé)");
}

#[test]
fn recordings_are_prepared() {
    let file = to_wav_16k(&vec![1, 2]).unwrap();
    match prepare(Some(9), &file).unwrap() {
        Prepared::Send { port, audio } => {
            assert_eq!(port, 9);
            assert_eq!(audio.samples, Samples::Int16(vec![1, 2]));
        }
        other => panic!("{other:?}"),
    }
    assert!(matches!(prepare(Some(9), &to_wav_16k(&Vec::new()).unwrap()), Ok(Prepared::Nothing)));
    assert_eq!(prepare(None, &file).unwrap_err(), "moteur non démarré");
    assert_eq!(prepare(Some(9), b"x").unwrap_err(), "WAV illisible");
}
