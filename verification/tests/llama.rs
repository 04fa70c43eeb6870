use murmure::engine::llama::{
    asr_output, chat_reply, chat_request, finalize, parse_asr_output, partial_text, read_data,
    read_line, read_reply, stream_refusal, Content, EngineError, LineMeaning, Progress, ReplyStream,
    Running,
};
use murmure::models::OutputFormat;

fn text(s: &str) -> String {
    s.to_string()
}

#[test]
fn the_language_is_not_shown() {
    let q = OutputFormat::Qwen3Asr;
    assert_eq!(partial_text("language Fren", q), "");
    assert_eq!(partial_text("  \n", q), "");
    assert_eq!(partial_text("language French<asr_text> Bon", q), "Bon");
    assert_eq!(partial_text("lang", q), "");
    assert_eq!(partial_text(" Bonjour", q), "");
    assert_eq!(partial_text("<asr_text> Bonjour", q), "Bonjour");
    assert_eq!(partial_text(" language", OutputFormat::Plain), "language");
}

#[test]
fn outputs_are_parsed() {
    assert_eq!(
        parse_asr_output("language French<asr_text>Bonjour…"),
        (Some(text("French")), text("Bonjour…"))
    );
    assert_eq!(
        parse_asr_output(" \nlanguage  Brazilian Portuguese <asr_text> Olá\nmundo \n"),
        (Some(text("Brazilian Portuguese")), text("Olá\nmundo"))
    );
    assert_eq!(parse_asr_output("language None<asr_text>"), (Some(text("None")), text("")));
    assert_eq!(parse_asr_output(" Bonjour "), (None, text("Bonjour")));
    assert_eq!(parse_asr_output("x<asr_text>y<asr_text>"), (None, text("xy")));
}

#[test]
fn the_final_text_is_the_shown_one_without_blanks() {
    let q = OutputFormat::Qwen3Asr;
    for raw in ["language French<asr_text>Bonjour \n", " \nlanguage \tFrench <asr_text> a\nb  "] {
        assert_eq!(finalize(raw, q).1, partial_text(raw, q).trim_end());
        assert_eq!(finalize(raw, q).0, Some(text("French")));
    }
    let raw = " language French<asr_text>x ";
    assert_eq!(
        finalize(raw, OutputFormat::Plain).1,
        partial_text(raw, OutputFormat::Plain).trim_end()
    );
}

#[test]
fn captured_groups_are_trimmed() {
    assert_eq!(
        asr_output(Some((text(" a "), text(" b "))), "ignored"),
        (Some(text("a")), text("b"))
    );
    assert_eq!(asr_output(None, " <asr_text>b "), (None, text("b")));
}

#[test]
fn plain_outputs_are_trimmed() {
    assert_eq!(
        finalize(" language French<asr_text>x ", OutputFormat::Plain),
        (None, text("language French<asr_text>x"))
    );
    assert_eq!(
        finalize("language French<asr_text>x", OutputFormat::Qwen3Asr),
        (Some(text("French")), text("x"))
    );
}

#[test]
fn requests_carry_the_audio() {
    let running = Running { port: 5, prompt: Some(text("Transcris")), output: OutputFormat::Plain };
    let r = chat_request(Some(&running), b"RIFF", true).unwrap();
    assert_eq!((r.port, r.output, r.stream, r.max_tokens), (5, OutputFormat::Plain, true, 2048));
    assert_eq!(r.model, "murmure");
    assert_eq!(
        r.content,
        vec![
            Content::Audio { data: text("UklGRg=="), format: text("wav") },
            Content::Text(text("Transcris")),
        ]
    );
    let running = Running { port: 5, prompt: None, output: OutputFormat::Plain };
    assert_eq!(chat_request(Some(&running), b"", false).unwrap().content.len(), 1);
}

#[test]
fn audio_is_sent_in_base64() {
    let running = Running { port: 5, prompt: None, output: OutputFormat::Plain };
    for (wav, data) in [
        (&b""[..], ""),
        (b"f", "Zg=="),
        (b"fo", "Zm8="),
        (b"foo", "Zm9v"),
        (b"foob", "Zm9vYg=="),
        (b"\xfb\xef\xff\x00", "++//AA=="),
    ] {
        let r = chat_request(Some(&running), wav, false).unwrap();
        assert_eq!(r.content, vec![Content::Audio { data: text(data), format: text("wav") }]);
    }
}

#[test]
fn requests_need_a_server() {
    let e = chat_request(None, b"", false).unwrap_err();
    assert_eq!(e, EngineError::NotStarted);
    assert_eq!(e.message(), "moteur non démarré");
}

#[test]
fn replies_are_read() {
    let body = r#"{"choices":[{"message":{"content":"language French<asr_text>Salut"}}]}"#;
    assert_eq!(
        chat_reply(true, body, OutputFormat::Qwen3Asr),
        Ok((Some(text("French")), text("Salut")))
    );
    assert_eq!(chat_reply(true, "{}", OutputFormat::Plain), Ok((None, text(""))));
    assert_eq!(
        chat_reply(true, "oops", OutputFormat::Plain),
        Err(EngineError::UnreadableReply)
    );
    assert_eq!(EngineError::<String>::UnreadableReply.message(), "réponse du moteur illisible");
    let e = chat_reply(false, r#"{"error":{"message":"plein"}}"#, OutputFormat::Plain).unwrap_err();
    assert_eq!(e.message(), "moteur : plein");
    let e = chat_reply(false, r#"{"error":"plein"}"#, OutputFormat::Plain).unwrap_err();
    assert_eq!(e.message(), "moteur : erreur inconnue");
    assert_eq!(stream_refusal("nothing").message(), "moteur : erreur inconnue");
}

#[test]
fn replies_are_read_from_their_fields() {
    assert_eq!(
        read_reply(true, true, None, Some(text(" a ")), OutputFormat::Plain),
        Ok((None, text("a")))
    );
    assert_eq!(
        read_reply(false, true, Some(text("x")), Some(text("a")), OutputFormat::Plain),
        Err(EngineError::Refused(text("x")))
    );
    assert_eq!(
        read_reply(false, false, None, None, OutputFormat::Plain),
        Err(EngineError::UnreadableReply)
    );
}

#[test]
fn lines_are_read() {
    assert_eq!(read_line(": comment"), LineMeaning::Nothing);
    assert_eq!(read_line("data: [DONE]"), LineMeaning::Done);
    assert_eq!(read_line("data: {"), LineMeaning::Nothing);
    assert_eq!(
        read_line(r#"data: {"choices":[{"delta":{"content":" a"}}]}"#),
        LineMeaning::Token(text(" a"))
    );
    assert_eq!(
        read_line(r#"data:{"error":{"message":"non"}}"#),
        LineMeaning::Failure(text("non"))
    );
    assert_eq!(read_data(false, Some(text("x")), None), LineMeaning::Nothing);
    assert_eq!(read_data(true, None, None), LineMeaning::Nothing);
}

fn token(s: &str) -> String {
    format!("data: {{\"choices\":[{{\"delta\":{{\"content\":\"{s}\"}}}}]}}\r\n\n")
}

#[test]
fn streams_are_read_piece_by_piece() {
    let all = [token("language French<asr"), token("_text>Bon"), token("jour"), text("data: [DONE]\n")].concat();
    let mut whole = ReplyStream::new(OutputFormat::Qwen3Asr);
    whole.feed(all.as_bytes());
    assert_eq!(whole.progress, Progress::Done);
    assert_eq!(whole.shown, vec!["", "Bon", "Bonjour"]);
    assert_eq!(whole.finish(), Ok((Some(text("French")), text("Bonjour"))));
    // The same bytes one by one.
    let mut pieces = ReplyStream::new(OutputFormat::Qwen3Asr);
    for b in all.as_bytes() {
        pieces.feed(&[*b]);
    }
    assert_eq!(pieces.shown, whole.shown);
    assert_eq!(pieces.finish(), whole.finish());
}

#[test]
fn nothing_is_read_behind_the_end() {
    let mut s = ReplyStream::new(OutputFormat::Plain);
    s.feed_text(&token("a"));
    s.feed_text("data: [DONE]\n");
    s.feed_text(&token("b"));
    assert_eq!(s.finish(), Ok((None, text("a"))));
}

#[test]
fn a_stream_can_fail() {
    let mut s = ReplyStream::new(OutputFormat::Plain);
    s.feed_text(&token("a"));
    s.feed_text("data: {\"error\":{\"message\":\"stop\"}}\n");
    assert_eq!(s.progress, Progress::Failed);
    assert_eq!(s.finish(), Err(EngineError::Refused(text("stop"))));
}
