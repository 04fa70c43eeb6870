use murmure::engine::command::{
    canary_args, llama_args, server_log_path, transducer_args, whisper_args, Arg, ModelFiles,
};
use murmure::platform::{Place, Root};

/// An argument as one text, with the path below its root in brackets.
fn written(a: &Arg) -> String {
    match &a.place {
        None => a.text.clone(),
        Some(Place { root, parts }) => {
            let root = match root {
                Root::Models => "models",
                Root::Temporary => "tmp",
                _ => "?",
            };
            format!("{}[{root}/{}]", a.text, parts.join("/"))
        }
    }
}

fn all(args: Vec<Arg>) -> Vec<String> {
    args.iter().map(written).collect()
}

#[test]
fn llama_command_line() {
    assert_eq!(
        all(llama_args("m", "a.gguf", Some("p.gguf"), 8081)),
        vec![
            "-m", "[models/m/a.gguf]", "--mmproj", "[models/m/p.gguf]", "--host", "127.0.0.1",
            "--port", "8081", "--alias", "murmure", "-ngl", "99", "-c", "8192", "-np", "1",
            "--no-webui", "--log-verbosity", "0",
        ]
    );
    assert_eq!(all(llama_args("m", "a.gguf", None, 1))[2], "--host");
}

#[test]
fn whisper_command_line() {
    assert_eq!(
        all(whisper_args("w", "ggml.bin", 65535, 8)),
        vec![
            "-m", "[models/w/ggml.bin]", "--host", "127.0.0.1", "--port", "65535", "-t", "8", "-l",
            "auto", "-nt",
        ]
    );
}

fn files(joiner: Option<&str>) -> ModelFiles {
    ModelFiles {
        tokens: "tokens.txt".to_string(),
        encoder: "e.onnx".to_string(),
        decoder: "d.onnx".to_string(),
        joiner: joiner.map(|s| s.to_string()),
    }
}

#[test]
fn transducer_command_line() {
    assert_eq!(
        all(transducer_args("p", &files(Some("j.onnx")), 9000)),
        vec![
            "--port=9000",
            "--tokens=[models/p/tokens.txt]",
            "--num-threads=4",
            "--num-work-threads=2",
            "--num-io-threads=1",
            "--max-batch-size=1",
            "--max-utterance-length=600",
            "--decoding-method=greedy_search",
            "--log-file=[tmp/murmure-sherpa-onnx-server.log]",
            "--encoder=[models/p/e.onnx]",
            "--decoder=[models/p/d.onnx]",
            "--joiner=[models/p/j.onnx]",
            "--model-type=nemo_transducer",
        ]
    );
}

#[test]
fn canary_command_line() {
    let args = all(canary_args("c", &files(None), "de", 9000));
    assert_eq!(
        args[9..].to_vec(),
        vec![
            "--canary-encoder=[models/c/e.onnx]",
            "--canary-decoder=[models/c/d.onnx]",
            "--canary-src-lang=de",
            "--canary-tgt-lang=de",
            "--canary-use-pnc=true",
        ]
    );
    assert_eq!(server_log_path().parts, vec!["murmure-sherpa-onnx-server.log"]);
}
