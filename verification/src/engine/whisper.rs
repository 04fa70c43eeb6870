//! The whisper.cpp engine: what its server is asked, and what its replies mean.
use crate::engine;
use crate::engine::llama::EngineError;
use crate::json;
use crate::text;
use vstd::prelude::*;

verus! {

/// The number of threads the server is given, on a machine with `available` of
/// them; where their number is not known, as on one with four.
pub fn thread_count(available: Option<usize>) -> (n: usize)
    ensures
        ({
            let a: usize = match available {
                Some(x) => x,
                None => 4,
            };
            n == if a < 2 {
                2
            } else if a > 8 {
                8
            } else {
                a
            }
        }),
{
    let a: usize = match available {
        Some(x) => x,
        None => 4,
    };
    if a < 2 {
        2
    } else if a > 8 {
        8
    } else {
        a
    }
}

/// The fields, besides the audio, of the form that the server is sent.
pub fn form_fields() -> (r: Vec<(&'static str, &'static str)>)
    ensures
        r@.len() == 4,
        r@[0].0@ == "response_format"@ && r@[0].1@ == "json"@,
        r@[1].0@ == "temperature"@ && r@[1].1@ == "0.0"@,
        r@[2].0@ == "language"@ && r@[2].1@ == "auto"@,
        r@[3].0@ == "no_speech_thold"@ && r@[3].1@ == "0.6"@,
{
    vec![
        ("response_format", "json"),
        ("temperature", "0.0"),
        ("language", "auto"),
        ("no_speech_thold", "0.6"),
    ]
}

/// The text of a reply: its body is a JSON text or not, and holds an error message
/// and a text, or not.
pub open spec fn inference_of(
    success: bool,
    readable: bool,
    error: Option<Seq<char>>,
    found: Option<Seq<char>>,
) -> Result<Seq<char>, EngineError<Seq<char>>> {
    if !readable {
        Err(EngineError::UnreadableReply)
    } else if !success {
        Err(engine::llama::refusal(error))
    } else {
        Ok(
            match found {
                Some(t) => text::trimmed(t),
                None => Seq::empty(),
            },
        )
    }
}

/// A text, or an error, as texts.
pub open spec fn text_view(r: Result<String, EngineError>) -> Result<
    Seq<char>,
    EngineError<Seq<char>>,
> {
    match r {
        Ok(t) => Ok(t@),
        Err(e) => Err(e@),
    }
}

/// The text that the server recognised, given what was found in the body of its
/// reply.
pub fn read_inference(
    success: bool,
    readable: bool,
    error: Option<String>,
    found: Option<String>,
) -> (r: Result<String, EngineError>)
    ensures
        text_view(r) == inference_of(success, readable, engine::opt_text(error), engine::opt_text(found)),
{
    if !readable {
        return Err(EngineError::UnreadableReply);
    }
    if !success {
        return Err(engine::llama::refused(error));
    }
    match found {
        Some(t) => Ok(text::trim(t.as_str())),
        None => Ok(String::new()),
    }
}

/// The text that the server recognised, given whether the request succeeded and
/// the body of the reply.
pub fn inference_reply(success: bool, body: &str) -> (r: Result<String, EngineError>)
    ensures
        text_view(r) == inference_of(
            success,
            json::json_valid(body@),
            json::text_member(body@, "error"@),
            json::text_member(body@, "text"@),
        ),
{
    let readable = json::is_json(body);
    let error = json::get_text(body, "error");
    let found = json::get_text(body, "text");
    read_inference(success, readable, error, found)
}

/// A reply gives a text where the request succeeded and the body is JSON, and only there:
/// the text in it without the white space around it, or none. Otherwise the error is that
/// of the server, where it gives one.
pub proof fn replies_give_their_text(
    success: bool,
    readable: bool,
    error: Option<Seq<char>>,
    found: Option<Seq<char>>,
)
    ensures
        ({
            let r = inference_of(success, readable, error, found);
            &&& r is Ok <==> success && readable
            &&& r matches Ok(t) ==> (found matches Some(f) ==> t == text::trimmed(f))
            &&& r matches Ok(t) ==> (found is None ==> t.len() == 0)
            &&& !readable ==> r == Err::<Seq<char>, EngineError<Seq<char>>>(
                EngineError::UnreadableReply,
            )
            &&& readable && !success && error is Some ==> r == Err::<
                Seq<char>,
                EngineError<Seq<char>>,
            >(EngineError::Refused(error.unwrap()))
            &&& readable && !success && error is None ==> r == Err::<
                Seq<char>,
                EngineError<Seq<char>>,
            >(EngineError::Refused("erreur inconnue"@))
        }),
{
}

}
