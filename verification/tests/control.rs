use murmure::control::{
    custom_path, delete_model, download_model, logged_engine, model_infos, models_root, runtime_info,
    settings_path, starts_after_download, Downloads, EngineChange, EngineEvent, EngineStage,
};
use murmure::engine::EngineKind;
use murmure::models::Registry;
use murmure::platform::{Os, Root};

fn run(events: &[EngineEvent]) -> (EngineChange, Vec<bool>, Vec<bool>) {
    let mut c = EngineChange::new();
    let mut changed = Vec::new();
    let mut done = Vec::new();
    for e in events {
        let n = c.start_engine(*e);
        changed.push(n.changed);
        done.push(n.install_done);
    }
    (c, changed, done)
}

#[test]
fn an_unknown_model_changes_nothing() {
    let (c, changed, _) = run(&[EngineEvent::Model(None)]);
    assert_eq!(c.stage, EngineStage::Finished);
    assert_eq!(changed, vec![false]);
}

#[test]
fn a_model_without_files_stops_the_engine() {
    let (c, changed, _) = run(&[
        EngineEvent::Model(Some(EngineKind::LlamaCpp)),
        EngineEvent::Stopped,
        EngineEvent::Files(false),
    ]);
    assert_eq!(c.stage, EngineStage::Finished);
    assert_eq!(changed, vec![false, false, true]);
}

#[test]
fn an_engine_is_started() {
    let (c, changed, _) = run(&[
        EngineEvent::Model(Some(EngineKind::WhisperCpp)),
        EngineEvent::Stopped,
        EngineEvent::Files(true),
        EngineEvent::Created,
        EngineEvent::StartEnded,
    ]);
    assert_eq!(c.stage, EngineStage::Finished);
    assert_eq!(c.kind, EngineKind::WhisperCpp);
    assert_eq!(changed, vec![false, false, false, true, true]);
}

#[test]
fn sherpa_is_installed_where_it_is_missing() {
    let begin = [
        EngineEvent::Model(Some(EngineKind::SherpaOnnx)),
        EngineEvent::Stopped,
        EngineEvent::Files(true),
    ];
    let (c, _, _) = run(&[&begin[..], &[EngineEvent::Runtime(true)]].concat());
    assert_eq!(c.stage, EngineStage::Create);
    let (c, _, done) =
        run(&[&begin[..], &[EngineEvent::Runtime(false), EngineEvent::InstallEnded]].concat());
    assert_eq!(c.stage, EngineStage::Create);
    assert_eq!(done[4], true);
}

#[test]
fn downloads_are_started_once() {
    let mut d = Downloads::new();
    assert_eq!(download_model(&mut d, false, "x"), Err("modèle inconnu".to_string()));
    assert_eq!(download_model(&mut d, true, "a"), Ok(true));
    assert_eq!(download_model(&mut d, true, "a"), Ok(false));
    assert_eq!(download_model(&mut d, true, "b"), Ok(true));
    assert!(d.contains("a") && !d.contains("x"));
    d.remove("a");
    d.remove("never");
    assert!(!d.contains("a") && d.contains("b"));
    assert_eq!(download_model(&mut d, true, "a"), Ok(true));
}

#[test]
fn the_chosen_model_is_started_after_its_download() {
    assert!(starts_after_download(true, "a", "a"));
    assert!(!starts_after_download(true, "a", "b"));
    assert!(!starts_after_download(false, "a", "a"));
}

#[test]
fn the_chosen_model_is_stopped_before_its_removal() {
    assert_eq!(delete_model(true, "a", "a"), Ok(true));
    assert_eq!(delete_model(true, "a", "b"), Ok(false));
    assert_eq!(delete_model(false, "a", "a"), Err("modèle inconnu".to_string()));
}

#[test]
fn the_log_of_the_chosen_engine() {
    let r = Registry::new();
    assert_eq!(logged_engine(&r, "nothing"), EngineKind::LlamaCpp);
    let whisper = r.catalog().into_iter().find(|m| m.engine == EngineKind::WhisperCpp).unwrap();
    assert_eq!(logged_engine(&r, &whisper.id), EngineKind::WhisperCpp);
}

#[test]
fn models_as_they_are_shown() {
    let r = Registry::new();
    let all = r.catalog();
    let mut sizes: Vec<Vec<Option<u64>>> = all.iter().map(|m| vec![None; m.files.len()]).collect();
    sizes[1] = vec![Some(9_999); all[1].files.len()];
    let mut d = Downloads::new();
    d.insert(&all[2].id);
    let infos = model_infos(&r, &sizes, &d);
    assert_eq!(infos.len(), all.len());
    for (i, info) in infos.iter().enumerate() {
        assert_eq!(info.spec.id, all[i].id);
        assert_eq!((info.downloaded, info.downloading), (i == 1, i == 2));
    }
}

#[test]
fn runtimes_as_they_are_shown() {
    let r = runtime_info(EngineKind::LlamaCpp, Os::MacOs, Some("/x".to_string()));
    assert_eq!((r.id, r.label, r.binary), ("llama-cpp", "llama.cpp", "llama-server"));
    assert_eq!(r.install_hint, "brew install llama.cpp");
    assert_eq!(r.found.as_deref(), Some("/x"));
}

#[test]
fn files_of_the_application() {
    assert_eq!((settings_path().root, settings_path().parts[0].as_str()), (Root::Data, "settings.json"));
    assert_eq!(models_root().parts, vec!["models"]);
    assert_eq!(custom_path().parts, vec!["custom_models.json"]);
}
