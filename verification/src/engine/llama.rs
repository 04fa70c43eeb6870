//! The llama.cpp engine: what its server is asked, and what its replies mean.
use crate::engine;
use crate::json;
use crate::models::OutputFormat;
use crate::text;
use base64::Engine as _;
use vstd::prelude::*;

verus! {

/// What stands between the language and the text in the output of Qwen3-ASR.
pub open spec fn asr_tag() -> Seq<char> {
    "<asr_text>"@
}

/// The text to show while the output `raw` is still coming in: of Qwen3-ASR what
/// follows the tag, and nothing as long as that has not come.
pub open spec fn partial_of(raw: Seq<char>, output: OutputFormat) -> Seq<char> {
    if output == OutputFormat::Plain {
        text::trimmed_start(raw)
    } else {
        match text::first(raw, asr_tag()) {
            Some(i) => text::trimmed_start(raw.skip(i + asr_tag().len())),
            None => Seq::empty(),
        }
    }
}

/// The text to show while the output `raw` is still coming in.
pub fn partial_text(raw: &str, output: OutputFormat) -> (r: String)
    ensures
        r@ == partial_of(raw@, output),
{
    if output == OutputFormat::Plain {
        return text::trim_start(raw);
    }
    match text::after_first(raw, "<asr_text>") {
        Some(rest) => text::trim_start(rest.as_str()),
        None => String::new(),
    }
}

/// The pattern of the output of Qwen3-ASR: the language is the first group, the
/// text the second.
pub open spec fn asr_pattern() -> Seq<char> {
    r"(?s)^\s*language\s+([^<\n]+?)\s*<asr_text>\s*(.*?)\s*$"@
}

/// The first two groups of the first match that `regex::Regex::captures` finds of
/// a pattern in a text; nothing where the pattern is no regular expression, does
/// not match, or matches without one of the groups.
pub uninterp spec fn captured_pair(pattern: Seq<char>, text: Seq<char>) -> Option<
    (Seq<char>, Seq<char>),
>;

/// Whether `s` holds white space only.
pub open spec fn all_white(s: Seq<char>) -> bool {
    forall|i: int| 0 <= i < s.len() ==> text::is_white(#[trigger] s[i])
}

/// The header of an output of Qwen3-ASR: white space, the word `language`, white
/// space, and the language, up to the tag.
#[verifier::ext_equal]
pub struct Header {
    pub before: Seq<char>,
    pub between: Seq<char>,
    pub language: Seq<char>,
}

/// Whether a header has the expected form: there is white space in front of the
/// language, which is not blank and holds neither a `<` nor a line break.
pub open spec fn is_header(h: Header) -> bool {
    &&& all_white(h.before)
    &&& all_white(h.between)
    &&& h.between.len() > 0
    &&& !text::is_blank(h.language)
    &&& !h.language.contains('<')
    &&& !h.language.contains('\n')
}

/// The characters of a header.
pub open spec fn header_text(h: Header) -> Seq<char> {
    h.before + "language"@ + h.between + h.language
}

/// The output of Qwen3-ASR that has the header `h` and the text `t`.
pub open spec fn tagged(h: Header, t: Seq<char>) -> Seq<char> {
    header_text(h) + asr_tag() + t
}

/// Whether `groups` is what the pattern of Qwen3-ASR captures of `raw`, as far as
/// `raw` has the form of its output or lacks the tag.
pub open spec fn fits(raw: Seq<char>, groups: Option<(Seq<char>, Seq<char>)>) -> bool {
    &&& forall|h: Header, t: Seq<char>|
        raw == #[trigger] tagged(h, t) && is_header(h) ==> groups == Some(
            (text::trimmed(h.language), text::trimmed(t)),
        )
    &&& !text::has(raw, asr_tag()) ==> groups is None
}

/// The texts of an optional pair of strings.
pub open spec fn pair_text(o: Option<(String, String)>) -> Option<(Seq<char>, Seq<char>)> {
    match o {
        Some(p) => Some((p.0@, p.1@)),
        None => None,
    }
}

/// Calls `regex::Regex::captures` with the regular expression `pattern` and
/// returns the first two groups. The result is a function of the pattern and the
/// text alone. The pattern of Qwen3-ASR captures, behind a header of the expected
/// form, the language in front of the first tag and the text behind it, both without
/// the white space around them; it matches no text that lacks the tag.
#[verifier::external_body]
pub(crate) fn captures(pattern: &str, text: &str) -> (r: Option<(String, String)>)
    ensures
        pair_text(r) == captured_pair(pattern@, text@),
        pattern@ == asr_pattern() ==> fits(text@, pair_text(r)),
{
    let c = regex::Regex::new(pattern).ok()?.captures(text)?;
    Some((c.get(1)?.as_str().to_string(), c.get(2)?.as_str().to_string()))
}

/// The language and the text of an output of Qwen3-ASR, given what its pattern
/// captured of it. An output without the expected form is all text.
pub open spec fn asr_fields(groups: Option<(Seq<char>, Seq<char>)>, raw: Seq<char>) -> (
    Option<Seq<char>>,
    Seq<char>,
) {
    match groups {
        Some((language, t)) => (Some(text::trimmed(language)), text::trimmed(t)),
        None => (None, text::trimmed(text::without(raw, asr_tag()))),
    }
}

/// The language and the text of an output of Qwen3-ASR, given what its pattern
/// captured of it.
pub fn asr_output(groups: Option<(String, String)>, raw: &str) -> (r: (Option<String>, String))
    ensures
        (engine::opt_text(r.0), r.1@) == asr_fields(pair_text(groups), raw@),
{
    match groups {
        Some((language, t)) => (Some(text::trim(language.as_str())), text::trim(t.as_str())),
        None => {
            proof {
                reveal_strlit("<asr_text>");
            }
            let cleaned = text::remove_all(raw, "<asr_text>");
            (None, text::trim(cleaned.as_str()))
        },
    }
}

/// Whether a language and a text are those of a complete output: of an output with
/// a header they are the language in the header and the text that was shown last,
/// without the white space behind it; plain output, and output without the tag, is
/// all text.
pub open spec fn concludes(
    raw: Seq<char>,
    output: OutputFormat,
    fields: (Option<Seq<char>>, Seq<char>),
) -> bool {
    match output {
        OutputFormat::Plain => fields.0 is None && fields.1 == text::trimmed(raw) && fields.1
            == text::trimmed_end(partial_of(raw, output)),
        OutputFormat::Qwen3Asr => {
            &&& forall|h: Header, t: Seq<char>|
                raw == #[trigger] tagged(h, t) && is_header(h) ==> fields == (
                    Some(text::trimmed(h.language)),
                    text::trimmed(t),
                ) && fields.1 == text::trimmed_end(partial_of(raw, output))
            &&& !text::has(raw, asr_tag()) ==> fields == (
                None::<Seq<char>>,
                text::trimmed(raw),
            )
        },
    }
}

/// A header holds no `<`.
proof fn lemma_header_is_clean(h: Header)
    requires
        is_header(h),
    ensures
        !header_text(h).contains('<'),
{
    reveal_strlit("language");
    let word = "language"@;
    assert(forall|i: int| 0 <= i < word.len() ==> #[trigger] word[i] != '<');
    assert(!word.contains('<'));
    assert(!h.before.contains('<'));
    assert(!h.between.contains('<'));
    lemma_clean(h.before, word);
    lemma_clean(h.before + word, h.between);
    lemma_clean(h.before + word + h.between, h.language);
}

proof fn lemma_clean(a: Seq<char>, b: Seq<char>)
    requires
        !a.contains('<'),
        !b.contains('<'),
    ensures
        !(a + b).contains('<'),
{
    assert forall|i: int| 0 <= i < (a + b).len() implies #[trigger] (a + b)[i] != '<' by {
        if i < a.len() {
            assert(a[i] == (a + b)[i]);
        } else {
            assert(b[i - a.len()] == (a + b)[i]);
        }
    }
}

/// A tag that begins with `<` stands in no text that holds no `<`, up to its end.
proof fn lemma_no_tag_before(head: Seq<char>, tag: Seq<char>, t: Seq<char>, i: int)
    requires
        !head.contains('<'),
        tag.len() > 0,
        tag[0] == '<',
        0 <= i < head.len(),
    ensures
        !text::occurs_at(head + tag + t, tag, i),
{
    let raw = head + tag + t;
    if text::occurs_at(raw, tag, i) {
        assert(raw.subrange(i, i + tag.len())[0] == raw[i]);
        assert(raw[i] == head[i]);
    }
}

/// The first tag of a text stands right behind a start that holds no `<`.
proof fn lemma_first_tag(head: Seq<char>, tag: Seq<char>, t: Seq<char>)
    requires
        !head.contains('<'),
        tag.len() > 0,
        tag[0] == '<',
    ensures
        text::first(head + tag + t, tag) == Some(head.len() as int),
        (head + tag + t).skip(head.len() as int + tag.len()) == t,
{
    let raw = head + tag + t;
    let n = head.len() as int;
    assert(raw.subrange(n, n + tag.len()) == tag);
    assert(raw.skip(n + tag.len()) == t);
    let k = text::first(raw, tag);
    assert(k is Some && 0 <= k.unwrap() <= n && text::occurs_at(raw, tag, k.unwrap())) by {
        assert(text::occurs_at(raw, tag, n));
        text::first_from_is_least(raw, tag, 0);
    }
    if k.unwrap() < n {
        lemma_no_tag_before(head, tag, t, k.unwrap());
    }
}

proof fn lemma_concludes(raw: Seq<char>, groups: Option<(Seq<char>, Seq<char>)>)
    requires
        fits(raw, groups),
    ensures
        concludes(raw, OutputFormat::Qwen3Asr, asr_fields(groups, raw)),
{
    let fields = asr_fields(groups, raw);
    assert forall|h: Header, t: Seq<char>|
        raw == #[trigger] tagged(h, t) && is_header(h) implies fields == (
        Some(text::trimmed(h.language)),
        text::trimmed(t),
    ) && fields.1 == text::trimmed_end(partial_of(raw, OutputFormat::Qwen3Asr)) by {
        text::trimming_is_idempotent(h.language);
        text::trimming_is_idempotent(t);
        lemma_header_is_clean(h);
        reveal_strlit("<asr_text>");
        lemma_first_tag(header_text(h), asr_tag(), t);
    }
    if !text::has(raw, asr_tag()) {
        text::first_from_is_least(raw, asr_tag(), 0);
    }
}

/// The language and the text of an output of Qwen3-ASR, such as
/// `language French<asr_text>Bonjour…`.
pub fn parse_asr_output(raw: &str) -> (r: (Option<String>, String))
    ensures
        (engine::opt_text(r.0), r.1@) == asr_fields(captured_pair(asr_pattern(), raw@), raw@),
        concludes(raw@, OutputFormat::Qwen3Asr, (engine::opt_text(r.0), r.1@)),
{
    let groups = captures(r"(?s)^\s*language\s+([^<\n]+?)\s*<asr_text>\s*(.*?)\s*$", raw);
    proof {
        lemma_concludes(raw@, pair_text(groups));
    }
    asr_output(groups, raw)
}

/// The language and the text of a complete output.
pub open spec fn final_fields(raw: Seq<char>, output: OutputFormat) -> (
    Option<Seq<char>>,
    Seq<char>,
) {
    match output {
        OutputFormat::Qwen3Asr => asr_fields(captured_pair(asr_pattern(), raw), raw),
        OutputFormat::Plain => (None, text::trimmed(raw)),
    }
}

/// The language and the text of a complete output.
pub fn finalize(raw: &str, output: OutputFormat) -> (r: (Option<String>, String))
    ensures
        (engine::opt_text(r.0), r.1@) == final_fields(raw@, output),
        concludes(raw@, output, (engine::opt_text(r.0), r.1@)),
{
    match output {
        OutputFormat::Qwen3Asr => parse_asr_output(raw),
        OutputFormat::Plain => (None, text::trim(raw)),
    }
}

// ---------------------------------------------------------------------------
// Requests
// ---------------------------------------------------------------------------

/// The base64 letter for the number `n` of six bits.
pub open spec fn base64_letter(n: int) -> char {
    if n < 26 {
        ('A' as int + n) as char
    } else if n < 52 {
        ('a' as int + n - 26) as char
    } else if n < 62 {
        ('0' as int + n - 52) as char
    } else if n == 62 {
        '+'
    } else {
        '/'
    }
}

/// The four base64 letters for three bytes.
pub open spec fn base64_group(a: int, b: int, c: int) -> Seq<char> {
    seq![
        base64_letter(a / 4),
        base64_letter(a % 4 * 16 + b / 16),
        base64_letter(b % 16 * 4 + c / 64),
        base64_letter(c % 64),
    ]
}

/// The base64 text of bytes, with the standard letters and with padding: four letters
/// for three bytes, and `=` in place of the letters that hold nothing at the end.
pub open spec fn base64_of(bytes: Seq<u8>) -> Seq<char>
    decreases bytes.len(),
{
    if bytes.len() == 0 {
        Seq::empty()
    } else if bytes.len() == 1 {
        base64_group(bytes[0] as int, 0, 0).take(2) + seq!['=', '=']
    } else if bytes.len() == 2 {
        base64_group(bytes[0] as int, bytes[1] as int, 0).take(3) + seq!['=']
    } else {
        base64_group(bytes[0] as int, bytes[1] as int, bytes[2] as int) + base64_of(bytes.skip(3))
    }
}

/// Calls `base64::Engine::encode` of the standard engine, which writes the standard
/// letters with padding (see [`base64_of`]). The result must fit in memory.
#[verifier::external_body]
pub(crate) fn base64_encode(bytes: &[u8]) -> (r: String)
    requires
        (bytes@.len() + 2) / 3 * 4 <= isize::MAX,
    ensures
        r@ == base64_of(bytes@),
{
    base64::engine::general_purpose::STANDARD.encode(bytes)
}

/// A server that runs.
#[derive(Debug, Clone)]
pub struct Running<T = String> {
    pub port: u16,
    /// The instruction that goes with the audio.
    pub prompt: Option<T>,
    pub output: OutputFormat,
}

/// A part of the message that the server is sent.
#[derive(Debug, Clone, PartialEq, Eq)]
pub enum Content<T = String> {
    /// Audio in base64, and its format.
    Audio { data: T, format: T },
    Text(T),
}

/// A request to complete a conversation.
#[derive(Debug, Clone)]
pub struct ChatRequest {
    pub port: u16,
    pub output: OutputFormat,
    pub model: String,
    pub max_tokens: u32,
    pub stream: bool,
    /// The message of the user.
    pub content: Vec<Content>,
}

/// What a [`ChatRequest`] denotes.
#[verifier::ext_equal]
pub struct ChatRequestView {
    pub port: u16,
    pub output: OutputFormat,
    pub model: Seq<char>,
    pub max_tokens: u32,
    pub stream: bool,
    pub content: Seq<Content<Seq<char>>>,
}

impl View for Content {
    type V = Content<Seq<char>>;

    open spec fn view(&self) -> Content<Seq<char>> {
        match *self {
            Content::Audio { data, format } => Content::Audio { data: data@, format: format@ },
            Content::Text(t) => Content::Text(t@),
        }
    }
}

impl View for ChatRequest {
    type V = ChatRequestView;

    open spec fn view(&self) -> ChatRequestView {
        ChatRequestView {
            port: self.port,
            output: self.output,
            model: self.model@,
            max_tokens: self.max_tokens,
            stream: self.stream,
            content: self.content@.map_values(|c: Content| c@),
        }
    }
}

/// Why an engine gave no transcript.
#[derive(Debug, Clone, PartialEq, Eq)]
pub enum EngineError<T = String> {
    /// The server does not run.
    NotStarted,
    /// The reply is no JSON text.
    UnreadableReply,
    /// The server replied with an error.
    Refused(T),
}

impl View for EngineError {
    type V = EngineError<Seq<char>>;

    open spec fn view(&self) -> EngineError<Seq<char>> {
        match *self {
            EngineError::NotStarted => EngineError::NotStarted,
            EngineError::UnreadableReply => EngineError::UnreadableReply,
            EngineError::Refused(m) => EngineError::Refused(m@),
        }
    }
}

impl EngineError {
    /// The error as it is shown to the user.
    pub fn message(&self) -> (r: String)
        ensures
            match *self {
                EngineError::NotStarted => r@ == "moteur non démarré"@,
                EngineError::UnreadableReply => r@ == "réponse du moteur illisible"@,
                EngineError::Refused(m) => r@ == "moteur : "@ + m@,
            },
    {
        match self {
            EngineError::NotStarted => "moteur non démarré".to_string(),
            EngineError::UnreadableReply => "réponse du moteur illisible".to_string(),
            EngineError::Refused(m) => text::concat("moteur : ", m.as_str()),
        }
    }
}

/// The message of the user: the audio, then the instruction where the model has
/// one.
pub open spec fn message_content(audio: Seq<char>, prompt: Option<Seq<char>>) -> Seq<
    Content<Seq<char>>,
> {
    let first = seq![Content::Audio { data: audio, format: "wav"@ }];
    match prompt {
        Some(p) => first.push(Content::Text(p)),
        None => first,
    }
}

/// The request that has the server `running` transcribe the file `wav`.
pub fn chat_request(running: Option<&Running>, wav: &[u8], stream: bool) -> (r: Result<
    ChatRequest,
    EngineError,
>)
    requires
        (wav@.len() + 2) / 3 * 4 <= isize::MAX,
    ensures
        match running {
            Some(x) => r is Ok && r.unwrap()@ == (ChatRequestView {
                port: x.port,
                output: x.output,
                model: "murmure"@,
                max_tokens: 2048,
                stream,
                content: message_content(base64_of(wav@), engine::opt_text(x.prompt)),
            }),
            None => r is Err && r->Err_0 == EngineError::<String>::NotStarted,
        },
{
    match running {
        Some(x) => {
            let data = base64_encode(wav);
            let mut content: Vec<Content> = Vec::new();
            content.push(Content::Audio { data, format: "wav".to_string() });
            if let Some(p) = &x.prompt {
                content.push(Content::Text(p.clone()));
            }
            assert(content@.map_values(|c: Content| c@) == message_content(
                base64_of(wav@),
                engine::opt_text(x.prompt),
            ));
            Ok(
                ChatRequest {
                    port: x.port,
                    output: x.output,
                    model: "murmure".to_string(),
                    max_tokens: 2048,
                    stream,
                    content,
                },
            )
        },
        None => Err(EngineError::NotStarted),
    }
}

// ---------------------------------------------------------------------------
// Replies
// ---------------------------------------------------------------------------

/// The message of an error reply.
pub open spec fn refusal(message: Option<Seq<char>>) -> EngineError<Seq<char>> {
    match message {
        Some(m) => EngineError::Refused(m),
        None => EngineError::Refused("erreur inconnue"@),
    }
}

/// The language and the text of a reply: its body is a JSON text or not, and holds
/// an error message and the output of the model, or not.
pub open spec fn reply_of(
    success: bool,
    readable: bool,
    error: Option<Seq<char>>,
    content: Option<Seq<char>>,
    output: OutputFormat,
) -> Result<(Option<Seq<char>>, Seq<char>), EngineError<Seq<char>>> {
    if !readable {
        Err(EngineError::UnreadableReply)
    } else if !success {
        Err(refusal(error))
    } else {
        Ok(
            final_fields(
                match content {
                    Some(c) => c,
                    None => Seq::empty(),
                },
                output,
            ),
        )
    }
}

/// The fields of a transcript, or an error, as texts.
pub open spec fn fields_view(r: Result<(Option<String>, String), EngineError>) -> Result<
    (Option<Seq<char>>, Seq<char>),
    EngineError<Seq<char>>,
> {
    match r {
        Ok((language, t)) => Ok((engine::opt_text(language), t@)),
        Err(e) => Err(e@),
    }
}

/// The error of a reply with this message.
pub fn refused(message: Option<String>) -> (e: EngineError)
    ensures
        e@ == refusal(engine::opt_text(message)),
{
    match message {
        Some(m) => EngineError::Refused(m),
        None => EngineError::Refused("erreur inconnue".to_string()),
    }
}

/// What the server made of the audio, given what was found in the body of its
/// reply: whether it is a JSON text, its error message, and the output of the
/// model.
pub fn read_reply(
    success: bool,
    readable: bool,
    error: Option<String>,
    content: Option<String>,
    output: OutputFormat,
) -> (r: Result<(Option<String>, String), EngineError>)
    ensures
        fields_view(r) == reply_of(success, readable, engine::opt_text(error), engine::opt_text(content), output),
{
    if !readable {
        return Err(EngineError::UnreadableReply);
    }
    if !success {
        return Err(refused(error));
    }
    let raw = match content {
        Some(c) => c,
        None => String::new(),
    };
    Ok(finalize(raw.as_str(), output))
}

/// What the server made of the audio, given whether the request succeeded and the
/// body of the reply.
pub fn chat_reply(success: bool, body: &str, output: OutputFormat) -> (r: Result<
    (Option<String>, String),
    EngineError,
>)
    ensures
        fields_view(r) == reply_of(
            success,
            json::json_valid(body@),
            json::text_member2(body@, "error"@, "message"@),
            json::text_in_first(body@, "choices"@, "message"@, "content"@),
            output,
        ),
{
    let readable = json::is_json(body);
    let error = json::get_text2(body, "error", "message");
    let content = json::get_text_in_first(body, "choices", "message", "content");
    read_reply(success, readable, error, content, output)
}

/// The error of a streaming request that was refused, given the body of the
/// reply.
pub fn stream_refusal(body: &str) -> (e: EngineError)
    ensures
        e@ == refusal(json::text_member2(body@, "error"@, "message"@)),
{
    refused(json::get_text2(body, "error", "message"))
}

// ---------------------------------------------------------------------------
// Streamed replies
// ---------------------------------------------------------------------------

/// What a line of a streamed reply tells.
#[derive(Debug, Clone, PartialEq, Eq)]
pub enum LineMeaning<T = String> {
    /// Nothing of interest.
    Nothing,
    /// The reply is complete.
    Done,
    /// The server gives up with this message.
    Failure(T),
    /// The output goes on with this text.
    Token(T),
}

impl View for LineMeaning {
    type V = LineMeaning<Seq<char>>;

    open spec fn view(&self) -> LineMeaning<Seq<char>> {
        match *self {
            LineMeaning::Nothing => LineMeaning::Nothing,
            LineMeaning::Done => LineMeaning::Done,
            LineMeaning::Failure(m) => LineMeaning::Failure(m@),
            LineMeaning::Token(t) => LineMeaning::Token(t@),
        }
    }
}

/// What the data of a line tell, given whether they are a JSON text, and the error
/// message and the piece of output that they hold.
pub open spec fn data_meaning(
    readable: bool,
    error: Option<Seq<char>>,
    token: Option<Seq<char>>,
) -> LineMeaning<Seq<char>> {
    if !readable {
        LineMeaning::Nothing
    } else {
        match error {
            Some(m) => LineMeaning::Failure(m),
            None => match token {
                Some(t) => LineMeaning::Token(t),
                None => LineMeaning::Nothing,
            },
        }
    }
}

/// What a line tells. Only lines that begin with `data:` tell anything.
pub open spec fn line_meaning(line: Seq<char>) -> LineMeaning<Seq<char>> {
    if !text::begins(line, "data:"@) {
        LineMeaning::Nothing
    } else {
        let data = text::trimmed(line.skip("data:"@.len() as int));
        if data == "[DONE]"@ {
            LineMeaning::Done
        } else {
            data_meaning(
                json::json_valid(data),
                json::text_member2(data, "error"@, "message"@),
                json::text_in_first(data, "choices"@, "delta"@, "content"@),
            )
        }
    }
}

/// What the data of a line tell (see [`data_meaning`]).
pub fn read_data(readable: bool, error: Option<String>, token: Option<String>) -> (r: LineMeaning)
    ensures
        r@ == data_meaning(readable, engine::opt_text(error), engine::opt_text(token)),
{
    if !readable {
        return LineMeaning::Nothing;
    }
    match error {
        Some(m) => LineMeaning::Failure(m),
        None => match token {
            Some(t) => LineMeaning::Token(t),
            None => LineMeaning::Nothing,
        },
    }
}

/// What a line of a streamed reply tells.
pub fn read_line(line: &str) -> (r: LineMeaning)
    ensures
        r@ == line_meaning(line@),
{
    if !text::starts_with(line, "data:") {
        return LineMeaning::Nothing;
    }
    let after = match text::after_first(line, "data:") {
        Some(t) => t,
        None => String::new(),
    };
    proof {
        text::first_from_is_least(line@, "data:"@, 0);
        assert(text::first(line@, "data:"@) == Some(0int));
    }
    let data = text::trim(after.as_str());
    if text::same(data.as_str(), "[DONE]") {
        return LineMeaning::Done;
    }
    let readable = json::is_json(data.as_str());
    let error = json::get_text2(data.as_str(), "error", "message");
    let token = json::get_text_in_first(data.as_str(), "choices", "delta", "content");
    read_data(readable, error, token)
}

/// How far a streamed reply has come.
#[derive(Debug, Clone, Copy, PartialEq, Eq, Structural)]
pub enum Progress {
    /// More is to come.
    More,
    /// The reply is complete.
    Done,
    /// The server gave up.
    Failed,
}

/// The state of a streamed reply: what has come of the line that is not complete
/// yet, the output so far, the texts that were shown, and how far it has come.
#[verifier::ext_equal]
pub struct StreamView {
    pub pending: Seq<char>,
    pub raw: Seq<char>,
    pub shown: Seq<Seq<char>>,
    pub progress: Progress,
    pub failure: Seq<char>,
    pub output: OutputFormat,
}

/// The state once the complete lines of `pending` have been read: each piece of
/// output is added to `raw`, and the text so far is shown. Nothing is read any
/// more behind the line that ends the reply.
pub open spec fn consumed(
    pending: Seq<char>,
    raw: Seq<char>,
    shown: Seq<Seq<char>>,
    output: OutputFormat,
) -> StreamView
    decreases pending.len(),
{
    let e = text::line_end(pending);
    if !(0 <= e < pending.len()) {
        StreamView {
            pending,
            raw,
            shown,
            progress: Progress::More,
            failure: Seq::empty(),
            output,
        }
    } else {
        let rest = pending.skip(e + 1);
        match line_meaning(text::trimmed(pending.take(e))) {
            LineMeaning::Nothing => consumed(rest, raw, shown, output),
            LineMeaning::Done => StreamView {
                pending: rest,
                raw,
                shown,
                progress: Progress::Done,
                failure: Seq::empty(),
                output,
            },
            LineMeaning::Failure(m) => StreamView {
                pending: rest,
                raw,
                shown,
                progress: Progress::Failed,
                failure: m,
                output,
            },
            LineMeaning::Token(t) => consumed(
                rest,
                raw + t,
                shown.push(partial_of(raw + t, output)),
                output,
            ),
        }
    }
}

/// A streamed reply that is being read.
#[derive(Debug, Clone)]
pub struct ReplyStream {
    pub pending: String,
    pub raw: String,
    pub shown: Vec<String>,
    pub progress: Progress,
    pub failure: String,
    pub output: OutputFormat,
}

impl View for ReplyStream {
    type V = StreamView;

    open spec fn view(&self) -> StreamView {
        StreamView {
            pending: self.pending@,
            raw: self.raw@,
            shown: text::texts(self.shown@),
            progress: self.progress,
            failure: self.failure@,
            output: self.output,
        }
    }
}

impl ReplyStream {
    /// A reply of which nothing has come yet.
    pub fn new(output: OutputFormat) -> (s: Self)
        ensures
            s@ == (StreamView {
                pending: Seq::empty(),
                raw: Seq::empty(),
                shown: Seq::empty(),
                progress: Progress::More,
                failure: Seq::empty(),
                output,
            }),
    {
        let s = ReplyStream {
            pending: String::new(),
            raw: String::new(),
            shown: Vec::new(),
            progress: Progress::More,
            failure: String::new(),
            output,
        };
        assert(s@.shown == Seq::<Seq<char>>::empty());
        s
    }

    /// Reads on with a piece of text. A reply that has ended takes no more.
    pub fn feed_text(&mut self, piece: &str)
        ensures
            final(self)@ == if old(self)@.progress == Progress::More {
                consumed(
                    old(self)@.pending + piece@,
                    old(self)@.raw,
                    old(self)@.shown,
                    old(self)@.output,
                )
            } else {
                old(self)@
            },
    {
        if self.progress != Progress::More {
            return;
        }
        let mut pending = self.pending.clone();
        pending.append(piece);
        let v = text::chars_of(pending.as_str());
        let mut raw = self.raw.clone();
        let mut shown: Vec<String> = Vec::new();
        std::mem::swap(&mut shown, &mut self.shown);
        let ghost goal = consumed(v@, raw@, text::texts(shown@), self.output);
        let mut from: usize = 0;
        assert(v@.skip(0) == v@);
        let output = self.output;
        loop
            invariant
                from <= v.len(),
                consumed(v@.skip(from as int), raw@, text::texts(shown@), output) == goal,
                self.output == output,
                self.progress == Progress::More,
                output == old(self).output,
                goal == consumed(
                    old(self)@.pending + piece@,
                    old(self)@.raw,
                    old(self)@.shown,
                    old(self)@.output,
                ),
                old(self)@.progress == Progress::More,
            decreases v.len() - from,
        {
            let e = text::line_break(&v, from);
            if e == v.len() {
                let rest = text::string_of(&v, from, v.len());
                assert(v@.skip(from as int) == v@.subrange(from as int, v@.len() as int));
                self.pending = rest;
                self.raw = raw;
                self.shown = shown;
                self.failure = String::new();
                return;
            }
            let line = text::string_of(&v, from, e);
            let trimmed = text::trim(line.as_str());
            proof {
                assert(v@.skip(from as int).take(e - from) == v@.subrange(from as int, e as int));
                assert(v@.skip(from as int).skip(e - from + 1) == v@.skip(e + 1));
            }
            from = e + 1;
            match read_line(trimmed.as_str()) {
                LineMeaning::Nothing => {},
                LineMeaning::Done => {
                    let rest = text::string_of(&v, from, v.len());
                    assert(v@.skip(from as int) == v@.subrange(from as int, v@.len() as int));
                    self.pending = rest;
                    self.raw = raw;
                    self.shown = shown;
                    self.progress = Progress::Done;
                    self.failure = String::new();
                    return;
                },
                LineMeaning::Failure(m) => {
                    let rest = text::string_of(&v, from, v.len());
                    assert(v@.skip(from as int) == v@.subrange(from as int, v@.len() as int));
                    self.pending = rest;
                    self.raw = raw;
                    self.shown = shown;
                    self.progress = Progress::Failed;
                    self.failure = m;
                    return;
                },
                LineMeaning::Token(t) => {
                    raw.append(t.as_str());
                    let p = partial_text(raw.as_str(), output);
                    let ghost before = shown@;
                    shown.push(p);
                    assert(text::texts(shown@) == text::texts(before).push(p@));
                },
            }
        }
    }

    /// Reads on with the bytes of a piece of the reply.
    pub fn feed(&mut self, chunk: &[u8])
        ensures
            final(self)@ == if old(self)@.progress == Progress::More {
                consumed(
                    old(self)@.pending + text::utf8_lossy(chunk@),
                    old(self)@.raw,
                    old(self)@.shown,
                    old(self)@.output,
                )
            } else {
                old(self)@
            },
    {
        let piece = text::from_utf8_lossy(chunk);
        self.feed_text(piece.as_str())
    }

    /// What the reply amounts to, once it has ended.
    pub fn finish(&self) -> (r: Result<(Option<String>, String), EngineError>)
        ensures
            fields_view(r) == if self@.progress == Progress::Failed {
                Err::<(Option<Seq<char>>, Seq<char>), EngineError<Seq<char>>>(
                    EngineError::Refused(self@.failure),
                )
            } else {
                Ok(final_fields(self@.raw, self@.output))
            },
            r matches Ok(f) ==> concludes(
                self@.raw,
                self@.output,
                (engine::opt_text(f.0), f.1@),
            ),
    {
        if self.progress == Progress::Failed {
            return Err(EngineError::Refused(self.failure.clone()));
        }
        Ok(finalize(self.raw.as_str(), self.output))
    }
}

/// How a streamed reply is cut into pieces makes no difference: reading two pieces
/// one after the other is reading them as one, as long as the first does not end
/// the reply.
pub proof fn pieces_can_be_joined(
    first: Seq<char>,
    second: Seq<char>,
    raw: Seq<char>,
    shown: Seq<Seq<char>>,
    output: OutputFormat,
)
    requires
        consumed(first, raw, shown, output).progress == Progress::More,
    ensures
        ({
            let c = consumed(first, raw, shown, output);
            consumed(c.pending + second, c.raw, c.shown, output) == consumed(
                first + second,
                raw,
                shown,
                output,
            )
        }),
    decreases first.len(),
{
    lemma_line_end(first);
    let e = text::line_end(first);
    if 0 <= e < first.len() {
        lemma_line_end_of_longer(first, second);
        assert((first + second).take(e) == first.take(e));
        assert((first + second).skip(e + 1) == first.skip(e + 1) + second);
        let rest = first.skip(e + 1);
        match line_meaning(text::trimmed(first.take(e))) {
            LineMeaning::Nothing => {
                pieces_can_be_joined(rest, second, raw, shown, output);
            },
            LineMeaning::Token(t) => {
                pieces_can_be_joined(
                    rest,
                    second,
                    raw + t,
                    shown.push(partial_of(raw + t, output)),
                    output,
                );
            },
            _ => {},
        }
    }
}

/// What comes behind the end of a reply is not read: the output and the texts that
/// were shown stay as they are.
pub proof fn nothing_is_read_after_the_end(
    first: Seq<char>,
    second: Seq<char>,
    raw: Seq<char>,
    shown: Seq<Seq<char>>,
    output: OutputFormat,
)
    requires
        consumed(first, raw, shown, output).progress != Progress::More,
    ensures
        ({
            let c = consumed(first, raw, shown, output);
            let d = consumed(first + second, raw, shown, output);
            d.raw == c.raw && d.shown == c.shown && d.progress == c.progress && d.failure
                == c.failure
        }),
    decreases first.len(),
{
    lemma_line_end(first);
    let e = text::line_end(first);
    lemma_line_end_of_longer(first, second);
    assert((first + second).take(e) == first.take(e));
    assert((first + second).skip(e + 1) == first.skip(e + 1) + second);
    let rest = first.skip(e + 1);
    match line_meaning(text::trimmed(first.take(e))) {
        LineMeaning::Nothing => {
            nothing_is_read_after_the_end(rest, second, raw, shown, output);
        },
        LineMeaning::Token(t) => {
            nothing_is_read_after_the_end(
                rest,
                second,
                raw + t,
                shown.push(partial_of(raw + t, output)),
                output,
            );
        },
        _ => {},
    }
}

proof fn lemma_line_end(s: Seq<char>)
    ensures
        0 <= text::line_end(s) <= s.len(),
    decreases s.len(),
{
    if s.len() > 0 && s[0] != '\n' {
        lemma_line_end(s.drop_first());
    }
}

proof fn lemma_line_end_of_longer(s: Seq<char>, t: Seq<char>)
    requires
        text::line_end(s) < s.len(),
    ensures
        text::line_end(s + t) == text::line_end(s),
    decreases s.len(),
{
    lemma_line_end(s);
    if s[0] != '\n' {
        assert((s + t).drop_first() == s.drop_first() + t);
        lemma_line_end_of_longer(s.drop_first(), t);
    }
}

/// A line of a streamed reply that brings data, with the white space around them.
pub struct Sent {
    pub before: Seq<char>,
    pub gap: Seq<char>,
    pub data: Seq<char>,
    pub after: Seq<char>,
}

/// The characters of a line that brings data.
pub open spec fn sent_line(s: Sent) -> Seq<char> {
    s.before + "data:"@ + s.gap + s.data + s.after
}

/// Whether there is nothing but white space around the data of a line, and no line
/// break in it.
pub open spec fn is_sent(s: Sent) -> bool {
    &&& all_white(s.before)
    &&& all_white(s.gap)
    &&& all_white(s.after)
    &&& s.data.len() > 0
    &&& !text::is_white(s.data[0])
    &&& !text::is_white(s.data.last())
    &&& !sent_line(s).contains('\n')
}

/// Whether a line brings data that are JSON, report no error, and hold the piece of
/// output `t`.
pub open spec fn brings(s: Sent, t: Seq<char>) -> bool {
    &&& is_sent(s)
    &&& s.data != "[DONE]"@
    &&& json::json_valid(s.data)
    &&& json::text_member2(s.data, "error"@, "message"@) is None
    &&& json::text_in_first(s.data, "choices"@, "delta"@, "content"@) == Some(t)
}

proof fn lemma_sent_line(s: Sent)
    requires
        is_sent(s),
    ensures
        text::trimmed(sent_line(s)) == "data:"@ + s.gap + s.data,
        text::begins("data:"@ + s.gap + s.data, "data:"@),
        text::trimmed(("data:"@ + s.gap + s.data).skip("data:"@.len() as int)) == s.data,
{
    reveal_strlit("data:");
    let line = sent_line(s);
    let core = "data:"@ + s.gap + s.data;
    let a = s.before.len() as int;
    let b = a + core.len();
    assert(line.subrange(a, b) == core);
    assert forall|i: int| 0 <= i < a implies text::is_white(#[trigger] line[i]) by {
        assert(line[i] == s.before[i]);
    }
    assert forall|i: int| b <= i < line.len() implies text::is_white(#[trigger] line[i]) by {
        assert(line[i] == s.after[i - b]);
    }
    assert(line[a] == 'd');
    assert(line[b - 1] == s.data.last());
    text::trimming_takes_off_white_ends(line, a, b);
    assert(core.subrange(0, 5) == "data:"@);
    let t = core.skip(5);
    let k = s.gap.len() as int;
    assert(t == s.gap + s.data);
    assert forall|i: int| 0 <= i < k implies text::is_white(#[trigger] t[i]) by {
        assert(t[i] == s.gap[i]);
    }
    assert(t[k] == s.data[0]);
    assert(t[t.len() - 1] == s.data.last());
    text::trimming_takes_off_white_ends(t, k, t.len() as int);
    assert(t.subrange(k, t.len() as int) == s.data);
}

/// The first line of a text is read first, and then the rest.
proof fn lemma_line_by_line(
    line: Seq<char>,
    rest: Seq<char>,
    raw: Seq<char>,
    shown: Seq<Seq<char>>,
    output: OutputFormat,
)
    requires
        !line.contains('\n'),
    ensures
        ({
            let c = consumed(line + seq!['\n'] + rest, raw, shown, output);
            match line_meaning(text::trimmed(line)) {
                LineMeaning::Nothing => c == consumed(rest, raw, shown, output),
                LineMeaning::Token(t) => c == consumed(
                    rest,
                    raw + t,
                    shown.push(partial_of(raw + t, output)),
                    output,
                ),
                LineMeaning::Done => c.progress == Progress::Done && c.raw == raw && c.shown == shown
                    && c.pending == rest && c.output == output,
                LineMeaning::Failure(m) => c.progress == Progress::Failed && c.failure == m && c.raw
                    == raw && c.shown == shown && c.output == output,
            }
        }),
{
    text::lines_end_at_a_break(line, rest);
    let s = line + seq!['\n'] + rest;
    assert(s.take(line.len() as int) == line);
    assert(s.skip(line.len() as int + 1) == rest);
}

/// The texts that are shown while the pieces `tokens` come in, behind the output `raw`.
pub open spec fn shown_for(raw: Seq<char>, tokens: Seq<Seq<char>>, output: OutputFormat) -> Seq<
    Seq<char>,
> {
    Seq::new(tokens.len(), |k: int| partial_of(raw + tokens.take(k + 1).flatten(), output))
}

/// Pieces of output add up: of lines that each bring a piece, the output is these
/// pieces one after the other, character for character, and behind each of them the
/// text so far is shown. Reading then goes on with what follows.
pub proof fn pieces_of_output_add_up(
    sent: Seq<Sent>,
    tokens: Seq<Seq<char>>,
    rest: Seq<char>,
    raw: Seq<char>,
    shown: Seq<Seq<char>>,
    output: OutputFormat,
)
    requires
        sent.len() == tokens.len(),
        forall|i: int| 0 <= i < sent.len() ==> brings(#[trigger] sent[i], tokens[i]),
    ensures
        consumed(
            text::ended_lines(sent.map_values(|s: Sent| sent_line(s))) + rest,
            raw,
            shown,
            output,
        ) == consumed(
            rest,
            raw + tokens.flatten(),
            shown + shown_for(raw, tokens, output),
            output,
        ),
    decreases sent.len(),
{
    let lines = sent.map_values(|s: Sent| sent_line(s));
    if sent.len() == 0 {
        assert(lines.map_values(|l: Seq<char>| l.push('\n')) == Seq::<Seq<char>>::empty());
        assert(text::ended_lines(lines) + rest == rest);
        assert(tokens == Seq::<Seq<char>>::empty());
        assert(raw + tokens.flatten() == raw);
        assert(shown + shown_for(raw, tokens, output) == shown);
    } else {
        let (s, t) = (sent[0], tokens[0]);
        let (sent2, tokens2) = (sent.drop_first(), tokens.drop_first());
        let lines2 = sent2.map_values(|s: Sent| sent_line(s));
        text::ended_lines_unfold(lines);
        assert(lines.drop_first() == lines2);
        assert(brings(s, t));
        let tail = text::ended_lines(lines2) + rest;
        assert(text::ended_lines(lines) + rest == sent_line(s) + seq!['\n'] + tail);
        lemma_sent_line(s);
        lemma_line_by_line(sent_line(s), tail, raw, shown, output);
        let shown2 = shown.push(partial_of(raw + t, output));
        assert forall|i: int| 0 <= i < sent2.len() implies brings(
            #[trigger] sent2[i],
            tokens2[i],
        ) by {
            assert(brings(sent[i + 1], tokens[i + 1]));
        }
        pieces_of_output_add_up(sent2, tokens2, rest, raw + t, shown2, output);
        assert(tokens.flatten() == t + tokens2.flatten());
        assert(raw + t + tokens2.flatten() == raw + tokens.flatten());
        assert forall|k: int| 0 <= k < tokens2.len() implies #[trigger] shown_for(
            raw + t,
            tokens2,
            output,
        )[k] == shown_for(raw, tokens, output)[k + 1] by {
            let p = tokens.take(k + 2);
            assert(p.drop_first() == tokens2.take(k + 1));
            assert(p.flatten() == t + tokens2.take(k + 1).flatten());
            assert(raw + t + tokens2.take(k + 1).flatten() == raw + p.flatten());
        }
        let one = tokens.take(1);
        assert(one.drop_first() == Seq::<Seq<char>>::empty());
        assert(one.flatten() == t + Seq::<Seq<char>>::empty().flatten());
        assert(one.flatten() == t);
        assert(shown2 + shown_for(raw + t, tokens2, output) == shown + shown_for(
            raw,
            tokens,
            output,
        ));
    }
}

/// A streamed reply is read to its end: where each line brings a piece of output, up
/// to the line `[DONE]`, the output is these pieces one after the other, the text so far
/// was shown behind each of them, and what comes behind the end does not matter.
pub proof fn streamed_replies_are_read_to_the_end(
    sent: Seq<Sent>,
    tokens: Seq<Seq<char>>,
    end: Sent,
    rest: Seq<char>,
    output: OutputFormat,
)
    requires
        sent.len() == tokens.len(),
        forall|i: int| 0 <= i < sent.len() ==> brings(#[trigger] sent[i], tokens[i]),
        is_sent(end),
        end.data == "[DONE]"@,
    ensures
        ({
            let c = consumed(
                text::ended_lines(sent.map_values(|s: Sent| sent_line(s))) + (sent_line(end)
                    + seq!['\n'] + rest),
                Seq::empty(),
                Seq::empty(),
                output,
            );
            &&& c.progress == Progress::Done
            &&& c.raw == tokens.flatten()
            &&& c.shown.len() == tokens.len()
            &&& forall|k: int|
                0 <= k < tokens.len() ==> #[trigger] c.shown[k] == partial_of(
                    tokens.take(k + 1).flatten(),
                    output,
                )
            &&& c.output == output
        }),
{
    let tail = sent_line(end) + seq!['\n'] + rest;
    let none = Seq::<char>::empty();
    pieces_of_output_add_up(sent, tokens, tail, none, Seq::empty(), output);
    lemma_sent_line(end);
    assert(none + tokens.flatten() == tokens.flatten());
    let shown = Seq::<Seq<char>>::empty() + shown_for(none, tokens, output);
    assert(shown == shown_for(none, tokens, output));
    lemma_line_by_line(sent_line(end), rest, tokens.flatten(), shown, output);
    assert forall|k: int| 0 <= k < tokens.len() implies #[trigger] shown[k] == partial_of(
        tokens.take(k + 1).flatten(),
        output,
    ) by {
        assert(none + tokens.take(k + 1).flatten() == tokens.take(k + 1).flatten());
    }
}

/// A reply in which the server reports an error ends with its message; what was read
/// before stays.
pub proof fn reported_errors_end_the_reply(
    s: Sent,
    m: Seq<char>,
    rest: Seq<char>,
    raw: Seq<char>,
    shown: Seq<Seq<char>>,
    output: OutputFormat,
)
    requires
        is_sent(s),
        s.data != "[DONE]"@,
        json::json_valid(s.data),
        json::text_member2(s.data, "error"@, "message"@) == Some(m),
    ensures
        ({
            let c = consumed(sent_line(s) + seq!['\n'] + rest, raw, shown, output);
            c.progress == Progress::Failed && c.failure == m && c.raw == raw && c.shown == shown
        }),
{
    lemma_sent_line(s);
    lemma_line_by_line(sent_line(s), rest, raw, shown, output);
}

/// Lines that bring no data are passed over.
pub proof fn other_lines_are_passed_over(
    line: Seq<char>,
    rest: Seq<char>,
    raw: Seq<char>,
    shown: Seq<Seq<char>>,
    output: OutputFormat,
)
    requires
        !line.contains('\n'),
        text::trimmed(line).len() < 5 || text::trimmed(line).take(5) != "data:"@,
    ensures
        consumed(line + seq!['\n'] + rest, raw, shown, output) == consumed(rest, raw, shown, output),
{
    reveal_strlit("data:");
    let t = text::trimmed(line);
    if t.len() >= 5 {
        assert(t.subrange(0, 5) == t.take(5));
    }
    lemma_line_by_line(line, rest, raw, shown, output);
}

/// Data are passed over that are no JSON, or hold neither an error message nor a piece
/// of output.
pub proof fn other_data_are_passed_over(
    s: Sent,
    rest: Seq<char>,
    raw: Seq<char>,
    shown: Seq<Seq<char>>,
    output: OutputFormat,
)
    requires
        is_sent(s),
        s.data != "[DONE]"@,
        !json::json_valid(s.data) || (json::text_member2(s.data, "error"@, "message"@) is None
            && json::text_in_first(s.data, "choices"@, "delta"@, "content"@) is None),
    ensures
        consumed(sent_line(s) + seq!['\n'] + rest, raw, shown, output) == consumed(
            rest,
            raw,
            shown,
            output,
        ),
{
    lemma_sent_line(s);
    lemma_line_by_line(sent_line(s), rest, raw, shown, output);
}

/// A line that is not complete is kept until the rest of it comes.
pub proof fn incomplete_lines_are_kept(
    line: Seq<char>,
    raw: Seq<char>,
    shown: Seq<Seq<char>>,
    output: OutputFormat,
)
    requires
        !line.contains('\n'),
    ensures
        ({
            let c = consumed(line, raw, shown, output);
            c.pending == line && c.raw == raw && c.shown == shown && c.progress == Progress::More
                && c.output == output
        }),
{
    text::lines_end_at_a_break(line, Seq::empty());
}

/// What is shown of plain output is all of it but for the white space in front; of
/// Qwen3-ASR, what follows the first tag but for the white space in front of it, and
/// nothing as long as there is no tag.
pub proof fn shown_texts_are_the_output(head: Seq<char>, white: Seq<char>, rest: Seq<char>)
    requires
        all_white(white),
        rest.len() > 0 ==> !text::is_white(rest[0]),
    ensures
        partial_of(white + rest, OutputFormat::Plain) == rest,
        !text::has(head, "<asr_text>"@) ==> partial_of(head, OutputFormat::Qwen3Asr).len() == 0,
        (forall|i: int|
            0 <= i < head.len() ==> !text::occurs_at(
                head + "<asr_text>"@ + white + rest,
                "<asr_text>"@,
                i,
            )) ==> partial_of(head + "<asr_text>"@ + white + rest, OutputFormat::Qwen3Asr) == rest,
{
    let tag = "<asr_text>"@;
    text::leading_white_space_goes(white, rest);
    if !text::has(head, tag) {
        assert(text::first(head, tag) is None) by {
            text::first_from_is_least(head, tag, 0);
        }
    }
    let raw = head + tag + white + rest;
    let n = head.len() as int;
    if forall|i: int| 0 <= i < n ==> !text::occurs_at(raw, tag, i) {
        assert(raw.take(n) == head);
        assert(raw == raw.take(n) + tag + (white + rest));
        lemma_tag_found(raw, tag, n, white + rest);
    }
}

/// The first tag stands where one stands and none stands before.
proof fn lemma_tag_found(raw: Seq<char>, tag: Seq<char>, n: int, tail: Seq<char>)
    requires
        0 <= n,
        n + tag.len() + tail.len() == raw.len(),
        raw == raw.take(n) + tag + tail,
        forall|i: int| 0 <= i < n ==> !text::occurs_at(raw, tag, i),
    ensures
        text::first(raw, tag) == Some(n),
        raw.skip(n + tag.len()) == tail,
{
    assert(raw.subrange(n, n + tag.len()) == tag);
    assert(text::occurs_at(raw, tag, n));
    text::first_from_is_least(raw, tag, 0);
    assert(raw.skip(n + tag.len()) == tail);
}

/// Output of Qwen3-ASR that its pattern does not match is all text, without the tags
/// and without the white space around it: `parts` are the texts between the tags.
pub proof fn other_output_is_all_text(parts: Seq<Seq<char>>)
    requires
        parts.len() > 0,
        forall|i: int|
            0 <= i < parts.len() ==> #[trigger] text::first(
                text::joined(parts.skip(i), "<asr_text>"@),
                "<asr_text>"@,
            ) == if i + 1 < parts.len() {
                Some(parts[i].len() as int)
            } else {
                None
            },
    ensures
        asr_fields(None, text::joined(parts, "<asr_text>"@)) == (
            None::<Seq<char>>,
            text::trimmed(parts.flatten()),
        ),
{
    reveal_strlit("<asr_text>");
    text::taking_out_leaves_the_rest(parts, "<asr_text>"@);
}

/// A reply gives a transcript where the request succeeded and the body is JSON, and
/// only there; the transcript is that of the output in it, or of no output where there
/// is none. Otherwise the error is that of the server, where it gives one.
pub proof fn replies_give_their_output(
    success: bool,
    readable: bool,
    error: Option<Seq<char>>,
    content: Option<Seq<char>>,
    output: OutputFormat,
)
    ensures
        ({
            let r = reply_of(success, readable, error, content, output);
            &&& r is Ok <==> success && readable
            &&& r matches Ok(f) ==> (content matches Some(c) ==> f == final_fields(c, output))
            &&& r matches Ok(f) ==> (content is None ==> f == final_fields(
                Seq::empty(),
                output,
            ))
            &&& !readable ==> r == Err::<(Option<Seq<char>>, Seq<char>), EngineError<Seq<char>>>(
                EngineError::UnreadableReply,
            )
            &&& readable && !success && error is Some ==> r == Err::<
                (Option<Seq<char>>, Seq<char>),
                EngineError<Seq<char>>,
            >(EngineError::Refused(error.unwrap()))
            &&& readable && !success && error is None ==> r == Err::<
                (Option<Seq<char>>, Seq<char>),
                EngineError<Seq<char>>,
            >(EngineError::Refused("erreur inconnue"@))
        }),
{
}

/// A complete plain output is all text, without the white space around it; the fields
/// of a complete output of Qwen3-ASR are what its pattern captures, each without the
/// white space around it.
pub proof fn complete_outputs_are_trimmed(
    raw: Seq<char>,
    a: int,
    b: int,
    language: Seq<char>,
    t: Seq<char>,
)
    requires
        0 <= a <= b <= raw.len(),
        forall|i: int| 0 <= i < a ==> text::is_white(#[trigger] raw[i]),
        forall|i: int| b <= i < raw.len() ==> text::is_white(#[trigger] raw[i]),
        a < b ==> !text::is_white(raw[a]) && !text::is_white(raw[b - 1]),
    ensures
        final_fields(raw, OutputFormat::Plain) == (None::<Seq<char>>, raw.subrange(a, b)),
        captured_pair(asr_pattern(), raw) == Some((language, t)) ==> final_fields(
            raw,
            OutputFormat::Qwen3Asr,
        ) == (Some(text::trimmed(language)), text::trimmed(t)),
{
    text::trimming_takes_off_white_ends(raw, a, b);
}

/// The server is sent the audio as a WAV file first, and behind it the instruction as
/// it is, where there is one.
pub proof fn messages_hold_audio_and_instruction(audio: Seq<char>, prompt: Option<Seq<char>>)
    ensures
        ({
            let m = message_content(audio, prompt);
            &&& m.len() == if prompt is Some {
                2nat
            } else {
                1nat
            }
            &&& m[0] == (Content::Audio { data: audio, format: "wav"@ })
            &&& prompt matches Some(p) ==> m[1] == Content::Text(p)
        }),
{
}

}
