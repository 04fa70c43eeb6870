use murmure::engine::install::{
    entry_action, suspect_message, unpack_message, EntryAction, Install, InstallEvent, InstallStage,
    PathPart,
};
use murmure::platform::{Arch, Os};

fn name(s: &str) -> PathPart {
    PathPart::Normal(s.to_string())
}

#[test]
fn entries_stay_inside() {
    assert_eq!(entry_action(&Vec::new()), EntryAction::Skip);
    assert_eq!(entry_action(&vec![name("bin"), name("x")]), EntryAction::Unpack);
    assert_eq!(entry_action(&vec![PathPart::Current, name("x")]), EntryAction::Unpack);
    assert_eq!(entry_action(&vec![name("a"), PathPart::Parent, name("b")]), EntryAction::Refuse);
    assert_eq!(entry_action(&vec![PathPart::Root, name("etc")]), EntryAction::Refuse);
    assert_eq!(
        entry_action(&vec![PathPart::Prefix("C:".to_string()), name("x")]),
        EntryAction::Refuse
    );
    assert_eq!(suspect_message("../x"), "chemin suspect dans l'archive : ../x");
    assert_eq!(unpack_message("bin/x"), "extraction de bin/x");
}

fn text(s: &str) -> String {
    s.to_string()
}

#[test]
fn a_runtime_that_is_there_is_kept() {
    let mut s = Install::new(Os::Linux, Arch::X86_64);
    let step = s.ensure_runtime(InstallEvent::Runtime(Some(text("/r"))));
    assert_eq!(step.runtime, Some(text("/r")));
    assert_eq!(s.stage, InstallStage::Installed);
}

#[test]
fn a_runtime_is_installed() {
    let mut s = Install::new(Os::Linux, Arch::X86_64);
    s.ensure_runtime(InstallEvent::Runtime(None));
    assert_eq!(s.stage, InstallStage::Prepare);
    s.ensure_runtime(InstallEvent::Prepared);
    s.ensure_runtime(InstallEvent::Response(Some(100)));
    assert_eq!(s.stage, InstallStage::Create);
    s.ensure_runtime(InstallEvent::Created);
    assert_eq!(s.ensure_runtime(InstallEvent::Chunk { len: 30, due: false }).report, None);
    assert_eq!(s.ensure_runtime(InstallEvent::Chunk { len: 40, due: true }).report, Some((70, 100)));
    s.ensure_runtime(InstallEvent::Chunk { len: 30, due: false });
    assert_eq!(s.ensure_runtime(InstallEvent::Received).report, Some((100, 100)));
    assert_eq!(s.stage, InstallStage::Unpack);
    s.ensure_runtime(InstallEvent::Unpacked);
    assert_eq!(s.stage, InstallStage::Check);
    let step = s.ensure_runtime(InstallEvent::Runtime(Some(text("/r"))));
    assert_eq!(step.runtime, Some(text("/r")));
}

#[test]
fn machines_without_an_archive() {
    let mut s = Install::new(Os::Linux, Arch::Aarch64);
    let step = s.ensure_runtime(InstallEvent::Runtime(None));
    assert_eq!(
        step.failure,
        Some(text("sherpa-onnx ne fournit pas de binaires précompilés pour cette plateforme"))
    );
    assert_eq!(s.stage, InstallStage::Failed);
}

#[test]
fn failures_of_an_installation() {
    let asset = "sherpa-onnx-v1.13.7-linux-x64-shared.tar.bz2";
    for (stage, event, message) in [
        (InstallStage::Prepare, InstallEvent::Failure, text("création du dossier du runtime")),
        (InstallStage::Request, InstallEvent::Failure, format!("téléchargement de {asset}")),
        (InstallStage::Create, InstallEvent::Failure, text("écriture de l'archive du runtime")),
        (InstallStage::Receive, InstallEvent::Failure, text("téléchargement du runtime interrompu")),
        (InstallStage::Receive, InstallEvent::NotWritten(text("plein")), text("plein")),
        (InstallStage::Unpack, InstallEvent::NotUnpacked(text("mauvais")), text("mauvais")),
        (InstallStage::Unpack, InstallEvent::Aborted(text("tué")), text("décompression du runtime : tué")),
        (
            InstallStage::Check,
            InstallEvent::Runtime(None),
            text("sherpa-onnx-offline-websocket-server absent après décompression du runtime"),
        ),
    ] {
        let mut s = Install::new(Os::Linux, Arch::X86_64);
        s.stage = stage;
        assert_eq!(s.ensure_runtime(event).failure, Some(message));
        assert_eq!(s.stage, InstallStage::Failed);
    }
}

#[test]
fn a_size_that_is_not_known_is_zero() {
    let mut s = Install::new(Os::MacOs, Arch::Aarch64);
    s.stage = InstallStage::Request;
    s.ensure_runtime(InstallEvent::Response(None));
    assert_eq!(s.total, 0);
    // An event that does not fit changes nothing.
    let before = s;
    assert_eq!(s.ensure_runtime(InstallEvent::Unpacked).failure, None);
    assert_eq!(s, before);
}
