//! The models that come with the application.
//!
//! To add one, describe it here: the engine that runs it, and the files it is made
//! of. The choice follows the Open ASR Leaderboard: models with open weights that
//! run locally.
use crate::engine::EngineKind;
use crate::models;
use crate::models::{gh, hf, Bench, ModelSpec, ModelView, OutputFormat, RemoteFile};
use vstd::prelude::*;

verus! {

/// The scores of a model.
pub open spec fn scores(
    wer_en: u32,
    wer_fr: Option<u32>,
    wer_fr_cv: Option<u32>,
    rtfx: u32,
    note: Option<Seq<char>>,
) -> Option<Bench<Seq<char>>> {
    Some(Bench { wer_en: Some(wer_en), wer_fr, wer_fr_cv, rtfx: Some(rtfx), note })
}

/// The scores of a model.
pub fn bench(
    wer_en: u32,
    wer_fr: Option<u32>,
    wer_fr_cv: Option<u32>,
    rtfx: u32,
    note: Option<&str>,
) -> (r: Option<Bench>)
    ensures
        r matches Some(b) && Some(b@) == scores(
            wer_en,
            wer_fr,
            wer_fr_cv,
            rtfx,
            match note {
                Some(n) => Some(n@),
                None => None,
            },
        ),
{
    let note = match note {
        Some(n) => Some(n.to_string()),
        None => None,
    };
    Some(Bench { wer_en: Some(wer_en), wer_fr, wer_fr_cv, rtfx: Some(rtfx), note })
}

/// The model Qwen3-ASR 1.7B.
pub open spec fn qwen3_asr_large_view() -> ModelView {
    ModelView {
        id: "qwen3-asr-1.7b"@,
        name: "Qwen3-ASR 1.7B"@,
        description: "Le plus précis du catalogue en anglais comme en français (1er de l'Open ASR Leaderboard parmi les modèles ouverts exécutables ici). Détection automatique de la langue."@,
        size_label: "2,5 Go"@,
        params: "1,7 Md"@,
        languages: "30 langues + 22 dialectes chinois"@,
        license: "Apache 2.0"@,
        engine: EngineKind::LlamaCpp,
        files: seq![
            models::hf_file("ggml-org/Qwen3-ASR-1.7B-GGUF"@, "Qwen3-ASR-1.7B-Q8_0.gguf"@),
            models::hf_file("ggml-org/Qwen3-ASR-1.7B-GGUF"@, "mmproj-Qwen3-ASR-1.7B-Q8_0.gguf"@),
        ],
        main_file: "Qwen3-ASR-1.7B-Q8_0.gguf"@,
        mmproj_file: Some("mmproj-Qwen3-ASR-1.7B-Q8_0.gguf"@),
        prompt: None,
        output: OutputFormat::Qwen3Asr,
        bench: scores(431, Some(406), Some(784), 820, None),
        recommended: true,
        custom: false,
    }
}

fn qwen3_asr_large() -> (r: ModelSpec)
    ensures
        r@ == qwen3_asr_large_view(),
{
    let files: Vec<RemoteFile> = vec![
        hf("ggml-org/Qwen3-ASR-1.7B-GGUF", "Qwen3-ASR-1.7B-Q8_0.gguf"),
        hf("ggml-org/Qwen3-ASR-1.7B-GGUF", "mmproj-Qwen3-ASR-1.7B-Q8_0.gguf"),
    ];
    assert(models::file_views(files@) == qwen3_asr_large_view().files);
    ModelSpec {
        id: "qwen3-asr-1.7b".to_string(),
        name: "Qwen3-ASR 1.7B".to_string(),
        description: "Le plus précis du catalogue en anglais comme en français (1er de l'Open ASR Leaderboard parmi les modèles ouverts exécutables ici). Détection automatique de la langue.".to_string(),
        size_label: "2,5 Go".to_string(),
        params: "1,7 Md".to_string(),
        languages: "30 langues + 22 dialectes chinois".to_string(),
        license: "Apache 2.0".to_string(),
        engine: EngineKind::LlamaCpp,
        files,
        main_file: "Qwen3-ASR-1.7B-Q8_0.gguf".to_string(),
        mmproj_file: Some("mmproj-Qwen3-ASR-1.7B-Q8_0.gguf".to_string()),
        prompt: None,
        output: OutputFormat::Qwen3Asr,
        bench: bench(431, Some(406), Some(784), 820, None),
        recommended: true,
        custom: false,
    }
}

/// The model Qwen3-ASR 0.6B.
pub open spec fn qwen3_asr_small_view() -> ModelView {
    ModelView {
        id: "qwen3-asr-0.6b"@,
        name: "Qwen3-ASR 0.6B"@,
        description: "Version légère de Qwen3-ASR. Bon en anglais, nettement moins précis en français que le 1.7B."@,
        size_label: "1,1 Go"@,
        params: "0,6 Md"@,
        languages: "30 langues + 22 dialectes chinois"@,
        license: "Apache 2.0"@,
        engine: EngineKind::LlamaCpp,
        files: seq![
            models::hf_file("ggml-org/Qwen3-ASR-0.6B-GGUF"@, "Qwen3-ASR-0.6B-Q8_0.gguf"@),
            models::hf_file("ggml-org/Qwen3-ASR-0.6B-GGUF"@, "mmproj-Qwen3-ASR-0.6B-Q8_0.gguf"@),
        ],
        main_file: "Qwen3-ASR-0.6B-Q8_0.gguf"@,
        mmproj_file: Some("mmproj-Qwen3-ASR-0.6B-Q8_0.gguf"@),
        prompt: None,
        output: OutputFormat::Qwen3Asr,
        bench: scores(505, Some(706), Some(1078), 744, None),
        recommended: false,
        custom: false,
    }
}

fn qwen3_asr_small() -> (r: ModelSpec)
    ensures
        r@ == qwen3_asr_small_view(),
{
    let files: Vec<RemoteFile> = vec![
        hf("ggml-org/Qwen3-ASR-0.6B-GGUF", "Qwen3-ASR-0.6B-Q8_0.gguf"),
        hf("ggml-org/Qwen3-ASR-0.6B-GGUF", "mmproj-Qwen3-ASR-0.6B-Q8_0.gguf"),
    ];
    assert(models::file_views(files@) == qwen3_asr_small_view().files);
    ModelSpec {
        id: "qwen3-asr-0.6b".to_string(),
        name: "Qwen3-ASR 0.6B".to_string(),
        description: "Version légère de Qwen3-ASR. Bon en anglais, nettement moins précis en français que le 1.7B.".to_string(),
        size_label: "1,1 Go".to_string(),
        params: "0,6 Md".to_string(),
        languages: "30 langues + 22 dialectes chinois".to_string(),
        license: "Apache 2.0".to_string(),
        engine: EngineKind::LlamaCpp,
        files,
        main_file: "Qwen3-ASR-0.6B-Q8_0.gguf".to_string(),
        mmproj_file: Some("mmproj-Qwen3-ASR-0.6B-Q8_0.gguf".to_string()),
        prompt: None,
        output: OutputFormat::Qwen3Asr,
        bench: bench(505, Some(706), Some(1078), 744, None),
        recommended: false,
        custom: false,
    }
}

/// The model Voxtral Mini 3B.
pub open spec fn voxtral_mini_view() -> ModelView {
    ModelView {
        id: "voxtral-mini-3b"@,
        name: "Voxtral Mini 3B"@,
        description: "Modèle Mistral. Très bon en français, moyen en anglais, et le plus lent du catalogue."@,
        size_label: "2,9 Go"@,
        params: "3 Md"@,
        languages: "EN, FR, ES, DE, IT, PT, NL, HI + autres"@,
        license: "Apache 2.0"@,
        engine: EngineKind::LlamaCpp,
        files: seq![
            models::hf_file("ggml-org/Voxtral-Mini-3B-2507-GGUF"@, "Voxtral-Mini-3B-2507-Q4_K_M.gguf"@),
            models::hf_file("ggml-org/Voxtral-Mini-3B-2507-GGUF"@, "mmproj-Voxtral-Mini-3B-2507-Q8_0.gguf"@),
        ],
        main_file: "Voxtral-Mini-3B-2507-Q4_K_M.gguf"@,
        mmproj_file: Some("mmproj-Voxtral-Mini-3B-2507-Q8_0.gguf"@),
        prompt: Some("Transcribe this audio verbatim in its original language. Output only the transcription, nothing else."@),
        output: OutputFormat::Plain,
        bench: scores(554, Some(413), Some(780), 181, Some("Poids quantifiés Q4_K_M : précision légèrement inférieure au score publié."@)),
        recommended: false,
        custom: false,
    }
}

fn voxtral_mini() -> (r: ModelSpec)
    ensures
        r@ == voxtral_mini_view(),
{
    let files: Vec<RemoteFile> = vec![
        hf("ggml-org/Voxtral-Mini-3B-2507-GGUF", "Voxtral-Mini-3B-2507-Q4_K_M.gguf"),
        hf("ggml-org/Voxtral-Mini-3B-2507-GGUF", "mmproj-Voxtral-Mini-3B-2507-Q8_0.gguf"),
    ];
    assert(models::file_views(files@) == voxtral_mini_view().files);
    ModelSpec {
        id: "voxtral-mini-3b".to_string(),
        name: "Voxtral Mini 3B".to_string(),
        description: "Modèle Mistral. Très bon en français, moyen en anglais, et le plus lent du catalogue.".to_string(),
        size_label: "2,9 Go".to_string(),
        params: "3 Md".to_string(),
        languages: "EN, FR, ES, DE, IT, PT, NL, HI + autres".to_string(),
        license: "Apache 2.0".to_string(),
        engine: EngineKind::LlamaCpp,
        files,
        main_file: "Voxtral-Mini-3B-2507-Q4_K_M.gguf".to_string(),
        mmproj_file: Some("mmproj-Voxtral-Mini-3B-2507-Q8_0.gguf".to_string()),
        prompt: Some("Transcribe this audio verbatim in its original language. Output only the transcription, nothing else.".to_string()),
        output: OutputFormat::Plain,
        bench: bench(554, Some(413), Some(780), 181, Some("Poids quantifiés Q4_K_M : précision légèrement inférieure au score publié.")),
        recommended: false,
        custom: false,
    }
}

/// The model Whisper large-v3 turbo.
pub open spec fn whisper_turbo_view() -> ModelView {
    ModelView {
        id: "whisper-large-v3-turbo"@,
        name: "Whisper large-v3 turbo"@,
        description: "OpenAI Whisper accéléré. La plus large couverture linguistique, précision en retrait sur l'anglais."@,
        size_label: "874 Mo"@,
        params: "0,8 Md"@,
        languages: "99 langues"@,
        license: "MIT"@,
        engine: EngineKind::WhisperCpp,
        files: seq![
            models::hf_file("ggerganov/whisper.cpp"@, "ggml-large-v3-turbo-q8_0.bin"@),
        ],
        main_file: "ggml-large-v3-turbo-q8_0.bin"@,
        mmproj_file: None,
        prompt: None,
        output: OutputFormat::Plain,
        bench: scores(636, Some(490), Some(1106), 792, None),
        recommended: false,
        custom: false,
    }
}

fn whisper_turbo() -> (r: ModelSpec)
    ensures
        r@ == whisper_turbo_view(),
{
    let files: Vec<RemoteFile> = vec![
        hf("ggerganov/whisper.cpp", "ggml-large-v3-turbo-q8_0.bin"),
    ];
    assert(models::file_views(files@) == whisper_turbo_view().files);
    ModelSpec {
        id: "whisper-large-v3-turbo".to_string(),
        name: "Whisper large-v3 turbo".to_string(),
        description: "OpenAI Whisper accéléré. La plus large couverture linguistique, précision en retrait sur l'anglais.".to_string(),
        size_label: "874 Mo".to_string(),
        params: "0,8 Md".to_string(),
        languages: "99 langues".to_string(),
        license: "MIT".to_string(),
        engine: EngineKind::WhisperCpp,
        files,
        main_file: "ggml-large-v3-turbo-q8_0.bin".to_string(),
        mmproj_file: None,
        prompt: None,
        output: OutputFormat::Plain,
        bench: bench(636, Some(490), Some(1106), 792, None),
        recommended: false,
        custom: false,
    }
}

/// The model Whisper large-v3.
pub open spec fn whisper_large_view() -> ModelView {
    ModelView {
        id: "whisper-large-v3"@,
        name: "Whisper large-v3"@,
        description: "Référence multilingue d'OpenAI. Plus précis que turbo, plus lent."@,
        size_label: "1,1 Go"@,
        params: "1,55 Md"@,
        languages: "99 langues"@,
        license: "Apache 2.0"@,
        engine: EngineKind::WhisperCpp,
        files: seq![
            models::hf_file("ggerganov/whisper.cpp"@, "ggml-large-v3-q5_0.bin"@),
        ],
        main_file: "ggml-large-v3-q5_0.bin"@,
        mmproj_file: None,
        prompt: None,
        output: OutputFormat::Plain,
        bench: scores(578, Some(484), Some(997), 470, Some("Poids quantifiés Q5_0."@)),
        recommended: false,
        custom: false,
    }
}

fn whisper_large() -> (r: ModelSpec)
    ensures
        r@ == whisper_large_view(),
{
    let files: Vec<RemoteFile> = vec![
        hf("ggerganov/whisper.cpp", "ggml-large-v3-q5_0.bin"),
    ];
    assert(models::file_views(files@) == whisper_large_view().files);
    ModelSpec {
        id: "whisper-large-v3".to_string(),
        name: "Whisper large-v3".to_string(),
        description: "Référence multilingue d'OpenAI. Plus précis que turbo, plus lent.".to_string(),
        size_label: "1,1 Go".to_string(),
        params: "1,55 Md".to_string(),
        languages: "99 langues".to_string(),
        license: "Apache 2.0".to_string(),
        engine: EngineKind::WhisperCpp,
        files,
        main_file: "ggml-large-v3-q5_0.bin".to_string(),
        mmproj_file: None,
        prompt: None,
        output: OutputFormat::Plain,
        bench: bench(578, Some(484), Some(997), 470, Some("Poids quantifiés Q5_0.")),
        recommended: false,
        custom: false,
    }
}

/// The model Parakeet TDT 0.6B v3.
pub open spec fn parakeet_v3_view() -> ModelView {
    ModelView {
        id: "parakeet-tdt-0.6b-v3"@,
        name: "Parakeet TDT 0.6B v3"@,
        description: "NVIDIA. Le plus rapide du catalogue et très bon en français (meilleur score Common Voice). Tourne sur CPU."@,
        size_label: "487 Mo"@,
        params: "0,6 Md"@,
        languages: "25 langues européennes"@,
        license: "CC BY 4.0"@,
        engine: EngineKind::SherpaOnnx,
        files: seq![
            models::gh_file("https://github.com/k2-fsa/sherpa-onnx/releases/download/asr-models/sherpa-onnx-nemo-parakeet-tdt-0.6b-v3-int8.tar.bz2"@),
        ],
        main_file: "sherpa-onnx-nemo-parakeet-tdt-0.6b-v3-int8.tar.bz2"@,
        mmproj_file: None,
        prompt: None,
        output: OutputFormat::Plain,
        bench: scores(486, Some(468), Some(635), 6076, Some("Poids int8 : précision légèrement inférieure au score publié. Tourne sur CPU."@)),
        recommended: false,
        custom: false,
    }
}

fn parakeet_v3() -> (r: ModelSpec)
    ensures
        r@ == parakeet_v3_view(),
{
    let files: Vec<RemoteFile> = vec![
        gh("https://github.com/k2-fsa/sherpa-onnx/releases/download/asr-models/sherpa-onnx-nemo-parakeet-tdt-0.6b-v3-int8.tar.bz2"),
    ];
    assert(models::file_views(files@) == parakeet_v3_view().files);
    ModelSpec {
        id: "parakeet-tdt-0.6b-v3".to_string(),
        name: "Parakeet TDT 0.6B v3".to_string(),
        description: "NVIDIA. Le plus rapide du catalogue et très bon en français (meilleur score Common Voice). Tourne sur CPU.".to_string(),
        size_label: "487 Mo".to_string(),
        params: "0,6 Md".to_string(),
        languages: "25 langues européennes".to_string(),
        license: "CC BY 4.0".to_string(),
        engine: EngineKind::SherpaOnnx,
        files,
        main_file: "sherpa-onnx-nemo-parakeet-tdt-0.6b-v3-int8.tar.bz2".to_string(),
        mmproj_file: None,
        prompt: None,
        output: OutputFormat::Plain,
        bench: bench(486, Some(468), Some(635), 6076, Some("Poids int8 : précision légèrement inférieure au score publié. Tourne sur CPU.")),
        recommended: false,
        custom: false,
    }
}

/// The model Parakeet TDT 0.6B v2.
pub open spec fn parakeet_v2_view() -> ModelView {
    ModelView {
        id: "parakeet-tdt-0.6b-v2"@,
        name: "Parakeet TDT 0.6B v2"@,
        description: "NVIDIA. Version anglais seul, un peu plus précise que la v3 en anglais. Très rapide, sur CPU."@,
        size_label: "482 Mo"@,
        params: "0,6 Md"@,
        languages: "Anglais uniquement"@,
        license: "CC BY 4.0"@,
        engine: EngineKind::SherpaOnnx,
        files: seq![
            models::gh_file("https://github.com/k2-fsa/sherpa-onnx/releases/download/asr-models/sherpa-onnx-nemo-parakeet-tdt-0.6b-v2-int8.tar.bz2"@),
        ],
        main_file: "sherpa-onnx-nemo-parakeet-tdt-0.6b-v2-int8.tar.bz2"@,
        mmproj_file: None,
        prompt: None,
        output: OutputFormat::Plain,
        bench: scores(470, None, None, 6025, Some("Poids int8."@)),
        recommended: false,
        custom: false,
    }
}

fn parakeet_v2() -> (r: ModelSpec)
    ensures
        r@ == parakeet_v2_view(),
{
    let files: Vec<RemoteFile> = vec![
        gh("https://github.com/k2-fsa/sherpa-onnx/releases/download/asr-models/sherpa-onnx-nemo-parakeet-tdt-0.6b-v2-int8.tar.bz2"),
    ];
    assert(models::file_views(files@) == parakeet_v2_view().files);
    ModelSpec {
        id: "parakeet-tdt-0.6b-v2".to_string(),
        name: "Parakeet TDT 0.6B v2".to_string(),
        description: "NVIDIA. Version anglais seul, un peu plus précise que la v3 en anglais. Très rapide, sur CPU.".to_string(),
        size_label: "482 Mo".to_string(),
        params: "0,6 Md".to_string(),
        languages: "Anglais uniquement".to_string(),
        license: "CC BY 4.0".to_string(),
        engine: EngineKind::SherpaOnnx,
        files,
        main_file: "sherpa-onnx-nemo-parakeet-tdt-0.6b-v2-int8.tar.bz2".to_string(),
        mmproj_file: None,
        prompt: None,
        output: OutputFormat::Plain,
        bench: bench(470, None, None, 6025, Some("Poids int8.")),
        recommended: false,
        custom: false,
    }
}

/// The model Canary 180M flash.
pub open spec fn canary_flash_view() -> ModelView {
    ModelView {
        id: "canary-180m-flash"@,
        name: "Canary 180M flash"@,
        description: "NVIDIA. Ultra-léger et rapide. Bon en anglais ; langue à fixer à l'avance."@,
        size_label: "154 Mo"@,
        params: "0,18 Md"@,
        languages: "EN, ES, DE, FR"@,
        license: "CC BY 4.0"@,
        engine: EngineKind::SherpaOnnx,
        files: seq![
            models::gh_file("https://github.com/k2-fsa/sherpa-onnx/releases/download/asr-models/sherpa-onnx-nemo-canary-180m-flash-en-es-de-fr-int8.tar.bz2"@),
        ],
        main_file: "sherpa-onnx-nemo-canary-180m-flash-en-es-de-fr-int8.tar.bz2"@,
        mmproj_file: None,
        prompt: None,
        output: OutputFormat::Plain,
        bench: scores(554, None, None, 2489, Some("Poids int8. Langue fixée (français par défaut), pas de détection automatique."@)),
        recommended: false,
        custom: false,
    }
}

fn canary_flash() -> (r: ModelSpec)
    ensures
        r@ == canary_flash_view(),
{
    let files: Vec<RemoteFile> = vec![
        gh("https://github.com/k2-fsa/sherpa-onnx/releases/download/asr-models/sherpa-onnx-nemo-canary-180m-flash-en-es-de-fr-int8.tar.bz2"),
    ];
    assert(models::file_views(files@) == canary_flash_view().files);
    ModelSpec {
        id: "canary-180m-flash".to_string(),
        name: "Canary 180M flash".to_string(),
        description: "NVIDIA. Ultra-léger et rapide. Bon en anglais ; langue à fixer à l'avance.".to_string(),
        size_label: "154 Mo".to_string(),
        params: "0,18 Md".to_string(),
        languages: "EN, ES, DE, FR".to_string(),
        license: "CC BY 4.0".to_string(),
        engine: EngineKind::SherpaOnnx,
        files,
        main_file: "sherpa-onnx-nemo-canary-180m-flash-en-es-de-fr-int8.tar.bz2".to_string(),
        mmproj_file: None,
        prompt: None,
        output: OutputFormat::Plain,
        bench: bench(554, None, None, 2489, Some("Poids int8. Langue fixée (français par défaut), pas de détection automatique.")),
        recommended: false,
        custom: false,
    }
}

/// The models of NVIDIA that sherpa-onnx runs, from archives made for it.
pub open spec fn sherpa_views() -> Seq<ModelView> {
    seq![parakeet_v3_view(), parakeet_v2_view(), canary_flash_view()]
}

/// The models that come with the application.
pub open spec fn builtin_views() -> Seq<ModelView> {
    seq![qwen3_asr_large_view(), qwen3_asr_small_view(), voxtral_mini_view(), whisper_turbo_view(), whisper_large_view()] + sherpa_views()
}

/// The models of NVIDIA that sherpa-onnx runs.
pub fn sherpa_models() -> (r: Vec<ModelSpec>)
    ensures
        models::model_views(r@) == sherpa_views(),
{
    let r = vec![parakeet_v3(), parakeet_v2(), canary_flash()];
    assert(models::model_views(r@) == sherpa_views());
    r
}

/// The models that come with the application.
pub fn builtin() -> (r: Vec<ModelSpec>)
    ensures
        models::model_views(r@) == builtin_views(),
{
    let mut r = vec![qwen3_asr_large(), qwen3_asr_small(), voxtral_mini(), whisper_turbo(), whisper_large()];
    let ghost first = r@;
    let mut rest = sherpa_models();
    r.append(&mut rest);
    r
}

/// No two models that come with the application share an identifier.
pub proof fn builtin_identifiers_are_distinct(i: int, j: int)
    requires
        0 <= i < builtin_views().len(),
        0 <= j < builtin_views().len(),
        builtin_views()[i].id == builtin_views()[j].id,
    ensures
        i == j,
{
    reveal_strlit("qwen3-asr-1.7b");
    reveal_strlit("qwen3-asr-0.6b");
    reveal_strlit("voxtral-mini-3b");
    reveal_strlit("whisper-large-v3-turbo");
    reveal_strlit("whisper-large-v3");
    reveal_strlit("parakeet-tdt-0.6b-v3");
    reveal_strlit("parakeet-tdt-0.6b-v2");
    reveal_strlit("canary-180m-flash");
    let ids = seq![
        "qwen3-asr-1.7b"@,
        "qwen3-asr-0.6b"@,
        "voxtral-mini-3b"@,
        "whisper-large-v3-turbo"@,
        "whisper-large-v3"@,
        "parakeet-tdt-0.6b-v3"@,
        "parakeet-tdt-0.6b-v2"@,
        "canary-180m-flash"@,
    ];
    assert(builtin_views().len() == 8);
    assert(forall|k: int| 0 <= k < 8 ==> ids[k] == #[trigger] builtin_views()[k].id);
    assert("whisper-large-v3-turbo"@.len() == 22);
    assert("parakeet-tdt-0.6b-v3"@.len() == 20);
    assert("parakeet-tdt-0.6b-v3"@[19] == '3');
    assert("parakeet-tdt-0.6b-v2"@[19] == '2');
    assert("canary-180m-flash"@.len() == 17);
    assert("whisper-large-v3"@.len() == 16);
    assert("voxtral-mini-3b"@.len() == 15);
    assert("qwen3-asr-1.7b"@[10] == '1');
    assert("qwen3-asr-0.6b"@[10] == '0');
    assert("qwen3-asr-1.7b"@.len() == 14);
}

proof fn lemma_archive_name_1()
    ensures
        models::gh_file(
            "https://github.com/k2-fsa/sherpa-onnx/releases/download/asr-models/sherpa-onnx-nemo-parakeet-tdt-0.6b-v3-int8.tar.bz2"@,
        ).name == "sherpa-onnx-nemo-parakeet-tdt-0.6b-v3-int8.tar.bz2"@,
{
    let url =
        "https://github.com/k2-fsa/sherpa-onnx/releases/download/asr-models/sherpa-onnx-nemo-parakeet-tdt-0.6b-v3-int8.tar.bz2"@;
    reveal_strlit(
        "https://github.com/k2-fsa/sherpa-onnx/releases/download/asr-models/sherpa-onnx-nemo-parakeet-tdt-0.6b-v3-int8.tar.bz2",
    );
    reveal_strlit("sherpa-onnx-nemo-parakeet-tdt-0.6b-v3-int8.tar.bz2");
    let file = "sherpa-onnx-nemo-parakeet-tdt-0.6b-v3-int8.tar.bz2"@;
    assert(url[66] == '/');
    assert(url.subrange(67, url.len() as int) == file);
    assert(forall|i: int| 0 <= i < file.len() ==> file[i] != '/');
    assert forall|i: int| 67 <= i < url.len() implies !models::is_separator(#[trigger] url[i], false) by {
        assert(url[i] == file[i - 67]);
    }
    models::last_part_at(url, false, 67);
}

proof fn lemma_archive_name_2()
    ensures
        models::gh_file(
            "https://github.com/k2-fsa/sherpa-onnx/releases/download/asr-models/sherpa-onnx-nemo-parakeet-tdt-0.6b-v2-int8.tar.bz2"@,
        ).name == "sherpa-onnx-nemo-parakeet-tdt-0.6b-v2-int8.tar.bz2"@,
{
    let url =
        "https://github.com/k2-fsa/sherpa-onnx/releases/download/asr-models/sherpa-onnx-nemo-parakeet-tdt-0.6b-v2-int8.tar.bz2"@;
    reveal_strlit(
        "https://github.com/k2-fsa/sherpa-onnx/releases/download/asr-models/sherpa-onnx-nemo-parakeet-tdt-0.6b-v2-int8.tar.bz2",
    );
    reveal_strlit("sherpa-onnx-nemo-parakeet-tdt-0.6b-v2-int8.tar.bz2");
    let file = "sherpa-onnx-nemo-parakeet-tdt-0.6b-v2-int8.tar.bz2"@;
    assert(url[66] == '/');
    assert(url.subrange(67, url.len() as int) == file);
    assert(forall|i: int| 0 <= i < file.len() ==> file[i] != '/');
    assert forall|i: int| 67 <= i < url.len() implies !models::is_separator(#[trigger] url[i], false) by {
        assert(url[i] == file[i - 67]);
    }
    models::last_part_at(url, false, 67);
}

proof fn lemma_archive_name_3()
    ensures
        models::gh_file(
            "https://github.com/k2-fsa/sherpa-onnx/releases/download/asr-models/sherpa-onnx-nemo-canary-180m-flash-en-es-de-fr-int8.tar.bz2"@,
        ).name == "sherpa-onnx-nemo-canary-180m-flash-en-es-de-fr-int8.tar.bz2"@,
{
    let url =
        "https://github.com/k2-fsa/sherpa-onnx/releases/download/asr-models/sherpa-onnx-nemo-canary-180m-flash-en-es-de-fr-int8.tar.bz2"@;
    reveal_strlit(
        "https://github.com/k2-fsa/sherpa-onnx/releases/download/asr-models/sherpa-onnx-nemo-canary-180m-flash-en-es-de-fr-int8.tar.bz2",
    );
    reveal_strlit("sherpa-onnx-nemo-canary-180m-flash-en-es-de-fr-int8.tar.bz2");
    let file = "sherpa-onnx-nemo-canary-180m-flash-en-es-de-fr-int8.tar.bz2"@;
    assert(url[66] == '/');
    assert(url.subrange(67, url.len() as int) == file);
    assert(forall|i: int| 0 <= i < file.len() ==> file[i] != '/');
    assert forall|i: int| 67 <= i < url.len() implies !models::is_separator(#[trigger] url[i], false) by {
        assert(url[i] == file[i - 67]);
    }
    models::last_part_at(url, false, 67);
}

/// Every model that comes with the application lists its main file first, and the
/// file with the audio encoder, where it has one, second.
pub proof fn builtin_files_are_listed(i: int)
    requires
        0 <= i < builtin_views().len(),
    ensures
        ({
            let m = builtin_views()[i];
            &&& m.files.len() > 0 && m.files[0].name == m.main_file
            &&& m.mmproj_file matches Some(f) ==> m.files.len() > 1 && m.files[1].name == f
        }),
{
    lemma_archive_name_1();
    lemma_archive_name_2();
    lemma_archive_name_3();
}

/// Exactly one model that comes with the application is recommended, the first.
pub proof fn one_model_is_recommended(i: int)
    requires
        0 <= i < builtin_views().len(),
    ensures
        builtin_views()[i].recommended <==> i == 0,
{
}

}
