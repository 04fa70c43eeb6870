use murmure::engine::EngineKind;
use murmure::models::{
    file_name_of, gh, hf, is_downloaded, is_local, model_dir, slug, CustomError, CustomModelInput,
    OutputFormat, Registry,
};
use murmure::platform::Root;

fn input(name: &str, engine: EngineKind, files: &[&str]) -> CustomModelInput {
    CustomModelInput {
        name: name.to_string(),
        engine,
        files: files.iter().map(|f| f.to_string()).collect(),
        prompt: Some("  ".to_string()),
        output: OutputFormat::Plain,
        languages: None,
    }
}

#[test]
fn slugs() {
    assert_eq!(slug("Mon Modèle (v2)!"), "mon-mod-le-v2");
    assert_eq!(slug("--A--"), "a");
    assert_eq!(slug("ÉÉ"), "");
    assert_eq!(slug(""), "");
}

#[test]
fn slugs_keep_letters_and_digits() {
    for name in ["Mon Modèle (v2)!", "--A--", "a-b", "x", "  Whisper  Large  V3 "] {
        let s = slug(name);
        assert_eq!(slug(&s), s);
        let kept: String =
            name.to_lowercase().chars().filter(|c| c.is_ascii_alphanumeric()).collect();
        assert_eq!(s.replace('-', ""), kept);
    }
}

#[test]
fn names_of_files() {
    assert_eq!(file_name_of("https://x/y/z.gguf?download=true"), "z.gguf");
    assert_eq!(file_name_of("C:\\models\\a.bin"), "a.bin");
    assert_eq!(file_name_of("https://x/y//"), "y");
    let f = hf("org/repo", "a.gguf");
    assert_eq!(f.url, "https://huggingface.co/org/repo/resolve/main/a.gguf");
    assert_eq!(f.name, "a.gguf");
    assert_eq!(gh("https://g/h/i.tar.bz2").name, "i.tar.bz2");
    assert!(is_local("/a/b"));
    assert!(!is_local("http://a") && !is_local("https://a"));
}

#[test]
fn the_models_of_the_catalogue_are_distinct() {
    let all = Registry::new().catalog();
    assert_eq!(all.len(), 8);
    for (i, m) in all.iter().enumerate() {
        assert!(all[..i].iter().all(|o| o.id != m.id));
        assert!(m.files.iter().any(|f| f.name == m.main_file));
        assert!(!m.custom);
    }
    assert_eq!(all.iter().filter(|m| m.recommended).count(), 1);
    let best = &all[0];
    assert_eq!(best.id, "qwen3-asr-1.7b");
    assert_eq!(best.bench.as_ref().unwrap().wer_en, Some(431));
    assert_eq!(best.mmproj_file.as_deref(), Some("mmproj-Qwen3-ASR-1.7B-Q8_0.gguf"));
}

#[test]
fn models_can_be_added_and_removed() {
    let mut r = Registry::new();
    let i = input(" Mon modèle ", EngineKind::LlamaCpp, &["", " https://x/main.gguf ", "/m/p.gguf", "/m/MMPROJ.gguf"]);
    let m = r.add_custom(&i, &vec![false, false, true, true], 5).unwrap();
    assert_eq!(m.id, "custom-mon-mod-le");
    assert_eq!(m.name, "Mon modèle");
    assert_eq!(m.main_file, "main.gguf");
    assert_eq!(m.mmproj_file.as_deref(), Some("MMPROJ.gguf"));
    assert_eq!(m.prompt, None);
    assert_eq!(m.languages, "—");
    assert_eq!(m.files.len(), 3);
    assert!(m.custom && !m.recommended && m.bench.is_none());
    assert_eq!(r.find("custom-mon-mod-le").unwrap().name, "Mon modèle");
    // The same name again gets another identifier.
    let n = r.add_custom(&i, &vec![false, false, true, true], 1_700_012_345).unwrap();
    assert_eq!(n.id, "custom-mon-mod-le-12345");
    r.remove_custom("custom-mon-mod-le-12345");
    assert!(r.find("custom-mon-mod-le-12345").is_none());
    assert!(r.find("custom-mon-mod-le").is_some());
    r.remove_custom("custom-mon-mod-le");
    assert_eq!(r.catalog().len(), 8);
}

#[test]
fn the_second_file_can_be_the_encoder() {
    let mut r = Registry::new();
    let i = input("a", EngineKind::LlamaCpp, &["https://x/a.gguf", "https://x/b.gguf"]);
    let m = r.add_custom(&i, &vec![false, false], 0).unwrap();
    assert_eq!(m.mmproj_file.as_deref(), Some("b.gguf"));
    let i = input("b", EngineKind::WhisperCpp, &["https://x/a.bin", "https://x/mmproj"]);
    let m = r.add_custom(&i, &vec![false, false], 0).unwrap();
    assert_eq!(m.mmproj_file, None);
}

#[test]
fn bad_models_are_refused() {
    let mut r = Registry::new();
    let i = input("  ", EngineKind::LlamaCpp, &["https://x"]);
    assert_eq!(r.add_custom(&i, &vec![false], 0).unwrap_err(), CustomError::NoName);
    let i = input("a", EngineKind::LlamaCpp, &[" ", ""]);
    assert_eq!(r.add_custom(&i, &vec![false, false], 0).unwrap_err(), CustomError::NoFile);
    let i = input("a", EngineKind::LlamaCpp, &["https://x", " ftp://y "]);
    let e = r.add_custom(&i, &vec![false, false], 0).unwrap_err();
    assert_eq!(e, CustomError::BadFile("ftp://y".to_string()));
    assert_eq!(e.message(), "« ftp://y » n'est ni une URL ni un chemin absolu.");
    assert_eq!(CustomError::<String>::NoName.message(), "Donnez un nom au modèle.");
    assert_eq!(
        CustomError::<String>::NoFile.message(),
        "Indiquez au moins le fichier principal (URL ou chemin)."
    );
    assert_eq!(r.catalog().len(), 8);
}

#[test]
fn stored_models_are_listed() {
    let m = Registry::new().find("qwen3-asr-0.6b").unwrap();
    let mut stored = m.copy();
    stored.id = "custom-x".to_string();
    let r = Registry::load_custom(Some(vec![stored]));
    assert!(r.find("custom-x").is_some());
    assert!(Registry::load_custom(None).find("custom-x").is_none());
}

#[test]
fn small_files_do_not_count() {
    let m = Registry::new().find("qwen3-asr-1.7b").unwrap();
    assert!(is_downloaded(&m, &vec![Some(1025), Some(5_000)]));
    assert!(!is_downloaded(&m, &vec![Some(1024), Some(5_000)]));
    assert!(!is_downloaded(&m, &vec![Some(5_000), None]));
    let p = model_dir("m");
    assert_eq!((p.root, p.parts), (Root::Models, vec!["m".to_string()]));
}
