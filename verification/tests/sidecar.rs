use murmure::engine::sidecar::{
    check_stale, kill_stale as end_stale, log_path, log_tail as last_lines, named, pid_path,
    StaleCheck,
};
use murmure::engine::EngineKind;
use murmure::platform::{Os, Root};

#[test]
fn each_engine_has_its_files() {
    let p = log_path(EngineKind::LlamaCpp);
    assert_eq!(p.root, Root::Temporary);
    assert_eq!(p.parts, vec!["murmure-llama-cpp.log"]);
    assert_eq!(pid_path(EngineKind::SherpaOnnx).parts, vec!["murmure-sherpa-onnx.pid"]);
}

#[test]
fn the_end_of_a_log() {
    assert_eq!(last_lines(Some("a\nb\nc\n"), 2), "b\nc");
    assert_eq!(last_lines(None, 2), "");
    assert_eq!(last_lines(Some("a"), 0), "");
}

fn asked(os: Os, note: &str) -> (u32, String, Vec<String>) {
    match check_stale(os, Some(note)) {
        StaleCheck::Ask { pid, program, args } => (pid, program, args),
        other => panic!("{other:?}"),
    }
}

#[test]
fn processes_are_asked_for() {
    let (pid, program, args) = asked(Os::Linux, " 123\n");
    assert_eq!((pid, program.as_str()), (123, "ps"));
    assert_eq!(args, vec!["-p", "123", "-o", "command="]);
    let (_, program, args) = asked(Os::Windows, "7");
    assert_eq!(program, "tasklist");
    assert_eq!(args, vec!["/FI", "PID eq 7", "/FO", "CSV", "/NH"]);
    assert_eq!(check_stale(Os::Linux, None), StaleCheck::Nothing);
    assert_eq!(check_stale(Os::Linux, Some("abc")), StaleCheck::Nothing);
}

#[test]
fn only_our_servers_are_ended() {
    let k = EngineKind::LlamaCpp;
    let shown = b"\"Llama-Server.exe\",\"7\"".to_vec();
    assert_eq!(
        end_stale(k, Os::Windows, "unused", 7, Some(&shown)),
        Some(("taskkill".to_string(), vec!["/PID".to_string(), "7".to_string(), "/F".to_string()]))
    );
    assert_eq!(end_stale(k, Os::MacOs, "llama-server", 7, Some(&shown)), None);
    assert_eq!(end_stale(k, Os::MacOs, "llama-server", 7, None), None);
    assert!(named(k, Os::Linux, "mark", "a mark b"));
    assert!(!named(k, Os::Linux, "mark", "MARK"));
    // Bytes that are no text do not get in the way.
    let mut shown = b"/usr/bin/llama-server ".to_vec();
    shown.push(0xff);
    assert!(end_stale(k, Os::Linux, "llama-server", 7, Some(&shown)).is_some());
}
