use murmure::engine::llama::EngineError;
use murmure::engine::whisper::{form_fields, inference_reply, read_inference, thread_count};

#[test]
fn threads_are_bounded() {
    assert_eq!(thread_count(None), 4);
    assert_eq!(thread_count(Some(1)), 2);
    assert_eq!(thread_count(Some(6)), 6);
    assert_eq!(thread_count(Some(64)), 8);
}

#[test]
fn the_form_asks_for_json() {
    let f = form_fields();
    assert_eq!(f[0], ("response_format", "json"));
    assert_eq!(f[3], ("no_speech_thold", "0.6"));
}

#[test]
fn inferences_are_read() {
    assert_eq!(inference_reply(true, r#"{"text":" Bonjour \n"}"#), Ok("Bonjour".to_string()));
    assert_eq!(inference_reply(true, r#"{"text":3}"#), Ok("".to_string()));
    assert_eq!(inference_reply(true, "<html>"), Err(EngineError::UnreadableReply));
    assert_eq!(
        inference_reply(false, r#"{"error":"pas de modèle"}"#),
        Err(EngineError::Refused("pas de modèle".to_string()))
    );
    assert_eq!(
        inference_reply(false, "{}"),
        Err(EngineError::Refused("erreur inconnue".to_string()))
    );
    assert_eq!(read_inference(true, true, None, Some(" a ".to_string())), Ok("a".to_string()));
}
