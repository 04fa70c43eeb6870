use murmure::engine::EngineKind;
use murmure::models::Registry;
use murmure::settings::{
    begin_save, go_on_saving, invalid_shortcut, paths_agree, refused_shortcut, SaveStage, Settings,
    ShortcutMode, StoredSettings,
};

fn with_paths(paths: &[(&str, &str)]) -> Settings {
    let mut s = Settings::default();
    for (k, v) in paths {
        s.runtime_paths.push((k.to_string(), v.to_string()));
    }
    s
}

#[test]
fn defaults() {
    let s = Settings::load(None);
    assert_eq!(s.model_id, "qwen3-asr-1.7b");
    assert_eq!(s.shortcut, "Ctrl+Alt+Space");
    assert_eq!(s.mode, ShortcutMode::Toggle);
    assert!(s.auto_paste);
    assert!(s.runtime_paths.is_empty());
    let m = Registry::new().find(&s.model_id).unwrap();
    assert!(m.recommended);
}

#[test]
fn stored_settings_are_kept() {
    let mut s = with_paths(&[("llama-cpp", "/a"), ("x", "y")]);
    s.shortcut = "F9".to_string();
    s.model_id = "m".to_string();
    s.mode = ShortcutMode::Hold;
    s.auto_paste = false;
    let t = Settings::load(Some(s.save()));
    assert_eq!((t.model_id.as_str(), t.shortcut.as_str()), ("m", "F9"));
    assert_eq!((t.mode, t.auto_paste), (ShortcutMode::Hold, false));
    assert_eq!(t.runtime_paths, s.runtime_paths);
}

#[test]
fn missing_settings_take_their_defaults() {
    let stored = StoredSettings {
        model_id: None,
        shortcut: Some("F9".to_string()),
        mode: None,
        auto_paste: None,
        runtime_paths: None,
    };
    let s = Settings::load(Some(stored));
    assert_eq!((s.model_id.as_str(), s.shortcut.as_str()), ("qwen3-asr-1.7b", "F9"));
    assert_eq!((s.mode, s.auto_paste), (ShortcutMode::Toggle, true));
    assert!(s.runtime_paths.is_empty());
}

#[test]
fn paths_can_be_overridden() {
    let s = with_paths(&[("llama-cpp", "/a"), ("sherpa-onnx", "  "), ("llama-cpp", "/b")]);
    assert_eq!(s.runtime_override(EngineKind::LlamaCpp), Some("/a"));
    assert_eq!(s.runtime_override(EngineKind::SherpaOnnx), None);
    assert_eq!(s.runtime_override(EngineKind::WhisperCpp), None);
}

#[test]
fn paths_are_compared_by_their_keys() {
    let a = with_paths(&[("x", "1"), ("y", "2")]);
    let b = with_paths(&[("y", "2"), ("x", "1")]);
    let c = with_paths(&[("x", "1")]);
    let d = with_paths(&[("x", "1"), ("y", "3")]);
    assert!(paths_agree(&a.runtime_paths, &b.runtime_paths));
    assert!(!paths_agree(&a.runtime_paths, &c.runtime_paths));
    assert!(!paths_agree(&c.runtime_paths, &a.runtime_paths));
    assert!(!paths_agree(&a.runtime_paths, &d.runtime_paths));
}

#[test]
fn an_unchanged_shortcut_is_not_applied() {
    let old = Settings::default();
    let mut new = Settings::default();
    assert_eq!(begin_save(&old, &new), SaveStage::Store);
    new.shortcut = "F9".to_string();
    assert_eq!(begin_save(&old, &new), SaveStage::ApplyShortcut);
}

#[test]
fn a_refused_shortcut_brings_the_old_one_back() {
    let old = Settings::default();
    let new = Settings::default();
    let (stage, step) =
        go_on_saving(&old, &new, SaveStage::ApplyShortcut, Some("non".to_string()));
    assert_eq!(stage, SaveStage::Refused);
    assert!(step.reapply_old && !step.clear_error);
    assert_eq!(step.failure, Some("non".to_string()));
}

#[test]
fn a_shortcut_that_works_clears_the_error() {
    let old = Settings::default();
    let new = Settings::default();
    let (stage, step) = go_on_saving(&old, &new, SaveStage::ApplyShortcut, None);
    assert_eq!(stage, SaveStage::Store);
    assert!(step.clear_error && !step.reapply_old && step.failure.is_none());
}

#[test]
fn settings_that_cannot_be_stored_are_refused() {
    let old = Settings::default();
    let (stage, step) = go_on_saving(&old, &old, SaveStage::Store, Some("disque".to_string()));
    assert_eq!(stage, SaveStage::Refused);
    assert_eq!(step.failure, Some("disque".to_string()));
    assert!(!step.reapply_old);
}

#[test]
fn another_model_or_path_restarts_the_engine() {
    let old = Settings::default();
    let mut new = Settings::default();
    new.auto_paste = false;
    new.mode = ShortcutMode::Hold;
    assert_eq!(go_on_saving(&old, &new, SaveStage::Store, None).0, SaveStage::Saved { restart: false });
    new.model_id = "voxtral".to_string();
    assert_eq!(go_on_saving(&old, &new, SaveStage::Store, None).0, SaveStage::Saved { restart: true });
    let other = with_paths(&[("llama-cpp", "/a")]);
    assert_eq!(
        go_on_saving(&old, &other, SaveStage::Store, None).0,
        SaveStage::Saved { restart: true }
    );
}

#[test]
fn shortcut_messages() {
    assert_eq!(invalid_shortcut("Ctrl+", "vide"), "Raccourci invalide « Ctrl+ » : vide");
    assert_eq!(refused_shortcut("F9", "pris"), "Impossible d'enregistrer « F9 » : pris");
}
