//! The command lines of the server programs.
use crate::platform::{below1, below2, Place, PlaceView, Root};
use crate::text;
use vstd::prelude::*;

verus! {

/// An argument of a command line: `text`, followed by the path of `place` where
/// there is one.
#[derive(Debug, Clone, PartialEq, Eq)]
pub struct Arg {
    pub text: String,
    pub place: Option<Place>,
}

/// What an [`Arg`] denotes.
#[verifier::ext_equal]
pub struct ArgView {
    pub text: Seq<char>,
    pub place: Option<PlaceView>,
}

impl View for Arg {
    type V = ArgView;

    open spec fn view(&self) -> ArgView {
        ArgView {
            text: self.text@,
            place: match self.place {
                Some(p) => Some(p@),
                None => None,
            },
        }
    }
}

/// What a list of arguments denotes.
pub open spec fn arg_views(v: Seq<Arg>) -> Seq<ArgView> {
    v.map_values(|a: Arg| a@)
}

/// An argument that is a text.
pub open spec fn word(text: Seq<char>) -> ArgView {
    ArgView { text, place: None }
}

/// An argument that is a text and a path.
pub open spec fn path(text: Seq<char>, place: PlaceView) -> ArgView {
    ArgView { text, place: Some(place) }
}

pub(crate) fn push_word(v: &mut Vec<Arg>, s: &str)
    ensures
        arg_views(final(v)@) == arg_views(old(v)@).push(word(s@)),
{
    let ghost before = v@;
    v.push(Arg { text: s.to_string(), place: None });
    assert(arg_views(v@) == arg_views(before).push(word(s@)));
}

pub(crate) fn push_path(v: &mut Vec<Arg>, s: &str, place: Place)
    ensures
        arg_views(final(v)@) == arg_views(old(v)@).push(path(s@, place@)),
{
    let ghost before = v@;
    v.push(Arg { text: s.to_string(), place: Some(place) });
    assert(arg_views(v@) == arg_views(before).push(path(s@, place@)));
}

/// A file of the model `id`.
pub open spec fn model_file(id: Seq<char>, name: Seq<char>) -> PlaceView {
    PlaceView { root: Root::Models, parts: seq![id, name] }
}

/// The arguments that make llama-server listen on `port`.
pub open spec fn llama_options(port: u16) -> Seq<ArgView> {
    seq![
        word("--host"@),
        word("127.0.0.1"@),
        word("--port"@),
        word(text::decimal(port as nat)),
        word("--alias"@),
        word("murmure"@),
        word("-ngl"@),
        word("99"@),
        word("-c"@),
        word("8192"@),
        word("-np"@),
        word("1"@),
        word("--no-webui"@),
        word("--log-verbosity"@),
        word("0"@),
    ]
}

/// The arguments that name the files of a model.
pub open spec fn llama_files(id: Seq<char>, main: Seq<char>, projector: Option<Seq<char>>) -> Seq<
    ArgView,
> {
    let first = seq![word("-m"@), path(""@, model_file(id, main))];
    match projector {
        Some(p) => first + seq![word("--mmproj"@), path(""@, model_file(id, p))],
        None => first,
    }
}

/// The command line of llama-server for the model `id`, on `port`.
pub fn llama_args(id: &str, main: &str, projector: Option<&str>, port: u16) -> (r: Vec<Arg>)
    ensures
        arg_views(r@) == llama_files(
            id@,
            main@,
            match projector {
                Some(p) => Some(p@),
                None => None,
            },
        ) + llama_options(port),
{
    let mut r: Vec<Arg> = Vec::new();
    assert(arg_views(r@) == Seq::<ArgView>::empty());
    push_word(&mut r, "-m");
    push_path(&mut r, "", below2(Root::Models, id, main));
    if let Some(p) = projector {
        push_word(&mut r, "--mmproj");
        push_path(&mut r, "", below2(Root::Models, id, p));
    }
    let ghost first = arg_views(r@);
    assert(first == llama_files(
        id@,
        main@,
        match projector {
            Some(p) => Some(p@),
            None => None,
        },
    ));
    let number = text::decimal_of(port as u64);
    push_word(&mut r, "--host");
    push_word(&mut r, "127.0.0.1");
    push_word(&mut r, "--port");
    push_word(&mut r, number.as_str());
    push_word(&mut r, "--alias");
    push_word(&mut r, "murmure");
    push_word(&mut r, "-ngl");
    push_word(&mut r, "99");
    push_word(&mut r, "-c");
    push_word(&mut r, "8192");
    push_word(&mut r, "-np");
    push_word(&mut r, "1");
    push_word(&mut r, "--no-webui");
    push_word(&mut r, "--log-verbosity");
    push_word(&mut r, "0");
    assert(arg_views(r@) == first + llama_options(port));
    r
}

/// The command line of whisper-server for the model `id`, on `port`, with
/// `threads` threads.
pub open spec fn whisper_line(id: Seq<char>, main: Seq<char>, port: u16, threads: usize) -> Seq<
    ArgView,
> {
    seq![
        word("-m"@),
        path(""@, model_file(id, main)),
        word("--host"@),
        word("127.0.0.1"@),
        word("--port"@),
        word(text::decimal(port as nat)),
        word("-t"@),
        word(text::decimal(threads as nat)),
        word("-l"@),
        word("auto"@),
        word("-nt"@),
    ]
}

/// The command line of whisper-server for the model `id`, on `port`, with
/// `threads` threads.
pub fn whisper_args(id: &str, main: &str, port: u16, threads: usize) -> (r: Vec<Arg>)
    ensures
        arg_views(r@) == whisper_line(id@, main@, port, threads),
{
    let mut r: Vec<Arg> = Vec::new();
    assert(arg_views(r@) == Seq::<ArgView>::empty());
    let number = text::decimal_of(port as u64);
    let count = text::decimal_of(threads as u64);
    push_word(&mut r, "-m");
    push_path(&mut r, "", below2(Root::Models, id, main));
    push_word(&mut r, "--host");
    push_word(&mut r, "127.0.0.1");
    push_word(&mut r, "--port");
    push_word(&mut r, number.as_str());
    push_word(&mut r, "-t");
    push_word(&mut r, count.as_str());
    push_word(&mut r, "-l");
    push_word(&mut r, "auto");
    push_word(&mut r, "-nt");
    assert(arg_views(r@) == whisper_line(id@, main@, port, threads));
    r
}

/// The files of an unpacked model that the sherpa-onnx server is given.
#[derive(Debug, Clone, PartialEq, Eq)]
#[verifier::ext_equal]
pub struct ModelFiles<T = String> {
    pub tokens: T,
    pub encoder: T,
    pub decoder: T,
    pub joiner: Option<T>,
}

impl View for ModelFiles {
    type V = ModelFiles<Seq<char>>;

    open spec fn view(&self) -> ModelFiles<Seq<char>> {
        ModelFiles {
            tokens: self.tokens@,
            encoder: self.encoder@,
            decoder: self.decoder@,
            joiner: crate::engine::opt_text(self.joiner),
        }
    }
}

/// The arguments of the sherpa-onnx server that do not depend on the family of the
/// model.
pub open spec fn sherpa_common(id: Seq<char>, tokens: Seq<char>, port: u16) -> Seq<ArgView> {
    seq![
        word("--port="@ + text::decimal(port as nat)),
        path("--tokens="@, model_file(id, tokens)),
        word("--num-threads=4"@),
        word("--num-work-threads=2"@),
        word("--num-io-threads=1"@),
        word("--max-batch-size=1"@),
        word("--max-utterance-length=600"@),
        word("--decoding-method=greedy_search"@),
        path(
            "--log-file="@,
            PlaceView { root: Root::Temporary, parts: seq!["murmure-sherpa-onnx-server.log"@] },
        ),
    ]
}

/// The log file that the sherpa-onnx server writes itself.
pub fn server_log_path() -> (p: Place)
    ensures
        p@ == (PlaceView {
            root: Root::Temporary,
            parts: seq!["murmure-sherpa-onnx-server.log"@],
        }),
{
    below1(Root::Temporary, "murmure-sherpa-onnx-server.log")
}

fn push_common(r: &mut Vec<Arg>, id: &str, tokens: &str, port: u16)
    ensures
        arg_views(final(r)@) == arg_views(old(r)@) + sherpa_common(id@, tokens@, port),
{
    let ghost before = arg_views(r@);
    let number = text::decimal_of(port as u64);
    let listen = text::concat("--port=", number.as_str());
    push_word(r, listen.as_str());
    push_path(r, "--tokens=", below2(Root::Models, id, tokens));
    push_word(r, "--num-threads=4");
    push_word(r, "--num-work-threads=2");
    push_word(r, "--num-io-threads=1");
    push_word(r, "--max-batch-size=1");
    push_word(r, "--max-utterance-length=600");
    push_word(r, "--decoding-method=greedy_search");
    push_path(r, "--log-file=", server_log_path());
    assert(arg_views(r@) == before + sherpa_common(id@, tokens@, port));
}

/// The arguments of the sherpa-onnx server for a transducer.
pub open spec fn transducer_options(
    id: Seq<char>,
    encoder: Seq<char>,
    decoder: Seq<char>,
    joiner: Seq<char>,
) -> Seq<ArgView> {
    seq![
        path("--encoder="@, model_file(id, encoder)),
        path("--decoder="@, model_file(id, decoder)),
        path("--joiner="@, model_file(id, joiner)),
        word("--model-type=nemo_transducer"@),
    ]
}

/// The arguments of the sherpa-onnx server for a Canary model, which transcribes
/// where the language it hears and the language it writes are the same.
pub open spec fn canary_options(
    id: Seq<char>,
    encoder: Seq<char>,
    decoder: Seq<char>,
    lang: Seq<char>,
) -> Seq<ArgView> {
    seq![
        path("--canary-encoder="@, model_file(id, encoder)),
        path("--canary-decoder="@, model_file(id, decoder)),
        word("--canary-src-lang="@ + lang),
        word("--canary-tgt-lang="@ + lang),
        word("--canary-use-pnc=true"@),
    ]
}

/// The command line of the sherpa-onnx server for a transducer with the identifier
/// `id`, on `port`.
pub fn transducer_args(id: &str, files: &ModelFiles, port: u16) -> (r: Vec<Arg>)
    requires
        files.joiner is Some,
    ensures
        arg_views(r@) == sherpa_common(id@, files.tokens@, port) + transducer_options(
            id@,
            files.encoder@,
            files.decoder@,
            files.joiner.unwrap()@,
        ),
{
    let mut r: Vec<Arg> = Vec::new();
    assert(arg_views(r@) == Seq::<ArgView>::empty());
    push_common(&mut r, id, files.tokens.as_str(), port);
    let ghost first = arg_views(r@);
    assert(first == sherpa_common(id@, files.tokens@, port));
    push_path(&mut r, "--encoder=", below2(Root::Models, id, files.encoder.as_str()));
    push_path(&mut r, "--decoder=", below2(Root::Models, id, files.decoder.as_str()));
    if let Some(j) = &files.joiner {
        push_path(&mut r, "--joiner=", below2(Root::Models, id, j.as_str()));
    }
    push_word(&mut r, "--model-type=nemo_transducer");
    assert(arg_views(r@) == first + transducer_options(
        id@,
        files.encoder@,
        files.decoder@,
        files.joiner.unwrap()@,
    ));
    r
}

/// The command line of the sherpa-onnx server for a Canary model with the
/// identifier `id` that works in the language `lang`, on `port`.
pub fn canary_args(id: &str, files: &ModelFiles, lang: &str, port: u16) -> (r: Vec<Arg>)
    ensures
        arg_views(r@) == sherpa_common(id@, files.tokens@, port) + canary_options(
            id@,
            files.encoder@,
            files.decoder@,
            lang@,
        ),
{
    let mut r: Vec<Arg> = Vec::new();
    assert(arg_views(r@) == Seq::<ArgView>::empty());
    push_common(&mut r, id, files.tokens.as_str(), port);
    let ghost first = arg_views(r@);
    assert(first == sherpa_common(id@, files.tokens@, port));
    push_path(&mut r, "--canary-encoder=", below2(Root::Models, id, files.encoder.as_str()));
    push_path(&mut r, "--canary-decoder=", below2(Root::Models, id, files.decoder.as_str()));
    let source = text::concat("--canary-src-lang=", lang);
    let target = text::concat("--canary-tgt-lang=", lang);
    push_word(&mut r, source.as_str());
    push_word(&mut r, target.as_str());
    push_word(&mut r, "--canary-use-pnc=true");
    assert(arg_views(r@) == first + canary_options(id@, files.encoder@, files.decoder@, lang@));
    r
}

/// Whether the argument behind the option `option` is the word `value`.
pub open spec fn option_is(args: Seq<ArgView>, option: Seq<char>, value: Seq<char>) -> bool {
    exists|i: int|
        0 <= i < args.len() - 1 && (#[trigger] args[i]) == word(option) && args[i + 1] == word(value)
}

/// Each server listens on this machine only, on the port that it is given, and loads the
/// main file of the model from the directory of that model.
pub proof fn servers_get_their_port_and_model(
    id: Seq<char>,
    main: Seq<char>,
    projector: Option<Seq<char>>,
    port: u16,
    threads: usize,
)
    ensures
        option_is(llama_options(port), "--host"@, "127.0.0.1"@),
        option_is(llama_options(port), "--port"@, text::decimal(port as nat)),
        option_is(llama_options(port), "--alias"@, "murmure"@),
        option_is(whisper_line(id, main, port, threads), "--host"@, "127.0.0.1"@),
        option_is(whisper_line(id, main, port, threads), "--port"@, text::decimal(port as nat)),
        option_is(whisper_line(id, main, port, threads), "-t"@, text::decimal(threads as nat)),
        whisper_line(id, main, port, threads)[0] == word("-m"@),
        whisper_line(id, main, port, threads)[1].place == Some(
            PlaceView { root: Root::Models, parts: seq![id, main] },
        ),
        llama_files(id, main, projector)[0] == word("-m"@),
        llama_files(id, main, projector)[1].place == Some(
            PlaceView { root: Root::Models, parts: seq![id, main] },
        ),
        projector matches Some(p) ==> llama_files(id, main, projector)[2] == word("--mmproj"@)
            && llama_files(id, main, projector)[3].place == Some(
            PlaceView { root: Root::Models, parts: seq![id, p] },
        ),
        projector is None ==> llama_files(id, main, projector).len() == 2,
{
    let a = llama_options(port);
    assert(a[0] == word("--host"@) && a[2] == word("--port"@) && a[4] == word("--alias"@));
    let b = whisper_line(id, main, port, threads);
    assert(b[2] == word("--host"@) && b[4] == word("--port"@) && b[6] == word("-t"@));
}

/// The server of sherpa-onnx gets its port, its tokens and the networks of its model, each
/// under its own option, from the directory of the model; a Canary model works in one
/// language.
pub proof fn networks_get_their_options(
    id: Seq<char>,
    tokens: Seq<char>,
    encoder: Seq<char>,
    decoder: Seq<char>,
    joiner: Seq<char>,
    lang: Seq<char>,
    port: u16,
)
    ensures
        sherpa_common(id, tokens, port)[0].text == "--port="@ + text::decimal(port as nat),
        sherpa_common(id, tokens, port)[1].text == "--tokens="@ && sherpa_common(
            id,
            tokens,
            port,
        )[1].place == Some(PlaceView { root: Root::Models, parts: seq![id, tokens] }),
        ({
            let t = transducer_options(id, encoder, decoder, joiner);
            let file = |name: Seq<char>| Some(PlaceView { root: Root::Models, parts: seq![id, name] });
            &&& t[0].text == "--encoder="@ && t[0].place == file(encoder)
            &&& t[1].text == "--decoder="@ && t[1].place == file(decoder)
            &&& t[2].text == "--joiner="@ && t[2].place == file(joiner)
        }),
        ({
            let c = canary_options(id, encoder, decoder, lang);
            let file = |name: Seq<char>| Some(PlaceView { root: Root::Models, parts: seq![id, name] });
            &&& c[0].text == "--canary-encoder="@ && c[0].place == file(encoder)
            &&& c[1].text == "--canary-decoder="@ && c[1].place == file(decoder)
            &&& c[2].text == "--canary-src-lang="@ + lang
            &&& c[3].text == "--canary-tgt-lang="@ + lang
        }),
{
}

}
