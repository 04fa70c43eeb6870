//! The sherpa-onnx engine: its runtime, the files of its models, and the exchange
//! with its server.
use crate::engine;
use crate::engine::command::ModelFiles;
use crate::engine::sidecar;
use crate::engine::{find_binary, BinarySearch, EngineKind};
use crate::json;
use crate::models;
use crate::models::ModelSpec;
use crate::platform::{below2, Arch, Os, Place, PlaceView, Root};
use crate::text;
use crate::wav;
use crate::wav::WavAudio;
use vstd::prelude::*;

verus! {

/// The version of the prebuilt runtime.
pub const RUNTIME_VERSION: &'static str = "v1.13.7";

/// What the server is known by among the processes.
pub const PROC_MARKER: &'static str = "sherpa-onnx-offline-websocket-server";

/// The size of the messages that the audio is sent in, in bytes.
pub const CHUNK_BYTES: usize = 10_240;

// ---------------------------------------------------------------------------
// The runtime
// ---------------------------------------------------------------------------

/// The directory of the runtime.
pub fn runtime_dir() -> (p: Place)
    ensures
        p@ == (PlaceView { root: Root::Data, parts: seq!["runtimes"@, "sherpa-onnx"@] }),
{
    below2(Root::Data, "runtimes", EngineKind::SherpaOnnx.id())
}

/// The archive of the prebuilt runtime for a machine.
pub open spec fn asset_for(os: Os, arch: Arch) -> Option<Seq<char>> {
    match (os, arch) {
        (Os::MacOs, Arch::Aarch64) => Some("sherpa-onnx-v1.13.7-osx-arm64-shared.tar.bz2"@),
        (Os::MacOs, Arch::X86_64) => Some("sherpa-onnx-v1.13.7-osx-x64-shared.tar.bz2"@),
        (Os::Windows, Arch::X86_64) => Some(
            "sherpa-onnx-v1.13.7-win-x64-shared-MT-Release.tar.bz2"@,
        ),
        (Os::Linux, Arch::X86_64) => Some("sherpa-onnx-v1.13.7-linux-x64-shared.tar.bz2"@),
        _ => None,
    }
}

/// The archive of the prebuilt runtime for a machine.
pub fn runtime_asset(os: Os, arch: Arch) -> (r: Option<&'static str>)
    ensures
        match r {
            Some(a) => asset_for(os, arch) == Some(a@),
            None => asset_for(os, arch) is None,
        },
{
    match (os, arch) {
        (Os::MacOs, Arch::Aarch64) => Some("sherpa-onnx-v1.13.7-osx-arm64-shared.tar.bz2"),
        (Os::MacOs, Arch::X86_64) => Some("sherpa-onnx-v1.13.7-osx-x64-shared.tar.bz2"),
        (Os::Windows, Arch::X86_64) => Some(
            "sherpa-onnx-v1.13.7-win-x64-shared-MT-Release.tar.bz2",
        ),
        (Os::Linux, Arch::X86_64) => Some("sherpa-onnx-v1.13.7-linux-x64-shared.tar.bz2"),
        _ => None,
    }
}

/// Where an archive is fetched from.
pub open spec fn asset_url(asset: Seq<char>) -> Seq<char> {
    "https://github.com/k2-fsa/sherpa-onnx/releases/download/"@ + RUNTIME_VERSION@ + "/"@ + asset
}

/// Where an archive is fetched from.
pub fn runtime_url(asset: &str) -> (r: String)
    ensures
        r@ == asset_url(asset@),
{
    let mut r = text::concat3(
        "https://github.com/k2-fsa/sherpa-onnx/releases/download/",
        RUNTIME_VERSION,
        "/",
    );
    r.append(asset);
    r
}

/// What is known of the machine, with the data directory left out or not.
pub open spec fn searched(search: BinarySearch, data_dir: bool) -> BinarySearch {
    BinarySearch { data_dir, ..search }
}

/// The place that is found: the first of the candidates that is a file.
pub open spec fn runtime_found(os: Os, search: BinarySearch, is_file: Seq<bool>) -> Option<
    PlaceView,
> {
    let all = engine::candidate_places(EngineKind::SherpaOnnx, os, search);
    match engine::first_set(is_file) {
        Some(i) if i < all.len() => Some(all[i]),
        _ => None,
    }
}

/// The place of the server program, which is looked for everywhere but in the data
/// directory.
pub fn find_runtime(os: Os, search: BinarySearch, is_file: &Vec<bool>) -> (r: Option<Place>)
    ensures
        match r {
            Some(p) => runtime_found(os, searched(search, false), is_file@) == Some(p@),
            None => runtime_found(os, searched(search, false), is_file@) is None,
        },
{
    let mut search = search;
    search.data_dir = false;
    find_binary(EngineKind::SherpaOnnx, os, &search, is_file)
}

/// The place of the server program, which is looked for in the data directory too
/// where `search` says so.
pub fn find_runtime_in(os: Os, search: &BinarySearch, is_file: &Vec<bool>) -> (r: Option<Place>)
    ensures
        match r {
            Some(p) => runtime_found(os, *search, is_file@) == Some(p@),
            None => runtime_found(os, *search, is_file@) is None,
        },
{
    find_binary(EngineKind::SherpaOnnx, os, search, is_file)
}

/// How the process `pid`, which an earlier run may have left behind, is ended,
/// given what is known of it.
pub fn kill_stale(os: Os, pid: u32, output: Option<&Vec<u8>>) -> (r: Option<(String, Vec<String>)>)
    ensures
        r is Some <==> output is Some && sidecar::is_ours(
            EngineKind::SherpaOnnx,
            os,
            PROC_MARKER@,
            text::utf8_lossy(output.unwrap()@),
        ),
        r matches Some(c) ==> (c.0@, text::texts(c.1@)) == sidecar::kill_line(os, pid),
{
    sidecar::kill_stale(EngineKind::SherpaOnnx, os, PROC_MARKER, pid, output)
}

/// The variable that holds the search path of shared libraries.
pub fn library_variable(os: Os) -> (r: &'static str)
    ensures
        r@ == match os {
            Os::MacOs => "DYLD_LIBRARY_PATH"@,
            Os::Windows => "PATH"@,
            _ => "LD_LIBRARY_PATH"@,
        },
{
    match os {
        Os::MacOs => "DYLD_LIBRARY_PATH",
        Os::Windows => "PATH",
        _ => "LD_LIBRARY_PATH",
    }
}

/// The mode of a file that everybody may run and read, and its owner may write, on
/// top of `mode`.
pub fn executable_mode(mode: u32) -> (r: u32)
    ensures
        r == mode | 0o755,
        r & 0o755 == 0o755,
        r & mode == mode,
{
    let r = mode | 0o755;
    assert(r & 0o755 == 0o755 && r & mode == mode) by (bit_vector)
        requires
            r == mode | 0o755,
    ;
    r
}

// ---------------------------------------------------------------------------
// The log
// ---------------------------------------------------------------------------

/// The number of lines that are shown of each log.
pub const LOG_LINES: usize = 6;

/// What is shown of a log, trimmed; nothing where that is blank.
pub open spec fn log_part(content: Option<Seq<char>>) -> Seq<Seq<char>> {
    let t = text::trimmed(sidecar::tail_of(content, LOG_LINES as nat));
    if t.len() == 0 {
        Seq::empty()
    } else {
        seq![t]
    }
}

fn push_log(parts: &mut Vec<String>, content: Option<&str>)
    ensures
        text::texts(final(parts)@) == text::texts(old(parts)@) + log_part(
            match content {
                Some(s) => Some(s@),
                None => None,
            },
        ),
{
    let ghost before = parts@;
    let tail = sidecar::log_tail(content, LOG_LINES);
    let t = text::trim(tail.as_str());
    if !t.as_str().is_empty() {
        parts.push(t);
        assert(text::texts(parts@) == text::texts(before).push(t@));
    } else {
        assert(text::texts(before) + Seq::<Seq<char>>::empty() == text::texts(before));
    }
}

/// The ends of the two logs of the server: of its output, and of the log it writes
/// itself.
pub fn log_tail(output: Option<&str>, server: Option<&str>) -> (r: String)
    ensures
        r@ == text::joined(
            log_part(
                match output {
                    Some(s) => Some(s@),
                    None => None,
                },
            ) + log_part(
                match server {
                    Some(s) => Some(s@),
                    None => None,
                },
            ),
            "\n"@,
        ),
{
    let mut parts: Vec<String> = Vec::new();
    assert(text::texts(parts@) == Seq::<Seq<char>>::empty());
    push_log(&mut parts, output);
    push_log(&mut parts, server);
    assert(text::texts(parts@) == log_part(
        match output {
            Some(s) => Some(s@),
            None => None,
        },
    ) + log_part(
        match server {
            Some(s) => Some(s@),
            None => None,
        },
    ));
    text::join(&parts, "\n")
}

// ---------------------------------------------------------------------------
// Models
// ---------------------------------------------------------------------------

/// The family of a model, which decides on the options of the server.
#[derive(Debug, Clone, Copy, PartialEq, Eq, Structural)]
pub enum Flavor {
    /// A transducer: an encoder, a decoder and a joiner.
    NemoTransducer,
    /// A Canary model: an encoder and a decoder.
    Canary,
}

/// The names of the files in lower case, each behind a space.
pub open spec fn lower_names(files: Seq<models::RemoteFile<Seq<char>>>) -> Seq<char>
    decreases files.len(),
{
    if files.len() == 0 {
        Seq::empty()
    } else {
        lower_names(files.drop_last()) + " "@ + text::lowercase(files.last().name)
    }
}

/// The text in which the family of a model is looked for: its identifier and the
/// names of its files, in lower case.
pub open spec fn flavor_text(spec: models::ModelView) -> Seq<char> {
    text::lowercase(spec.id + " "@ + spec.main_file) + lower_names(spec.files)
}

/// The family of a model: a Canary model names itself or a file so.
pub fn flavor_of(spec: &ModelSpec) -> (r: Flavor)
    ensures
        r == if text::has(flavor_text(spec@), "canary"@) {
            Flavor::Canary
        } else {
            Flavor::NemoTransducer
        },
{
    let first = text::concat3(spec.id.as_str(), " ", spec.main_file.as_str());
    let mut hay = text::to_lowercase(first.as_str());
    let ghost files = models::file_views(spec.files@);
    let mut i: usize = 0;
    assert(files.take(0) == Seq::<models::RemoteFile<Seq<char>>>::empty());
    assert(hay@ + Seq::<char>::empty() == hay@);
    while i < spec.files.len()
        invariant
            i <= spec.files.len(),
            files == models::file_views(spec.files@),
            files.len() == spec.files.len(),
            hay@ == text::lowercase(spec.id@ + " "@ + spec.main_file@) + lower_names(
                files.take(i as int),
            ),
        decreases spec.files.len() - i,
    {
        hay.append(" ");
        let lower = text::to_lowercase(spec.files[i].name.as_str());
        hay.append(lower.as_str());
        i = i + 1;
        proof {
            let part = files.take(i as int);
            assert(part.drop_last() == files.take(i - 1));
            assert(part.last().name == spec.files@[i - 1].name@);
            let head = text::lowercase(spec.id@ + " "@ + spec.main_file@);
            let tail = lower_names(files.take(i - 1));
            assert(head + tail + " "@ + lower@ == head + (tail + " "@ + lower@));
        }
    }
    assert(files.take(files.len() as int) == files);
    if text::contains(hay.as_str(), "canary") {
        Flavor::Canary
    } else {
        Flavor::NemoTransducer
    }
}

/// Whether a Canary model knows a language.
pub open spec fn canary_knows(lang: Seq<char>) -> bool {
    lang == "en"@ || lang == "de"@ || lang == "es"@ || lang == "fr"@
}

/// The language a Canary model works in, where the user wishes for `wish`: French,
/// unless the model knows the language wished for.
pub open spec fn lang_for(wish: Option<Seq<char>>) -> Seq<char> {
    match wish {
        Some(s) => if canary_knows(text::lowercase(text::trimmed(s))) {
            text::lowercase(text::trimmed(s))
        } else {
            "fr"@
        },
        None => "fr"@,
    }
}

/// The language a Canary model works in, given the wish of the user.
pub fn canary_lang(wish: Option<&str>) -> (r: String)
    ensures
        r@ == lang_for(
            match wish {
                Some(s) => Some(s@),
                None => None,
            },
        ),
        canary_knows(r@),
{
    match wish {
        Some(s) => {
            let t = text::trim(s);
            let lower = text::to_lowercase(t.as_str());
            known_lang(lower)
        },
        None => "fr".to_string(),
    }
}

/// `lang` where a Canary model knows it, otherwise French.
pub fn known_lang(lang: String) -> (r: String)
    ensures
        r@ == if canary_knows(lang@) {
            lang@
        } else {
            "fr"@
        },
{
    let s = lang.as_str();
    if text::same(s, "en") || text::same(s, "de") || text::same(s, "es") || text::same(s, "fr") {
        lang
    } else {
        "fr".to_string()
    }
}

/// An entry of a directory.
#[derive(Debug, Clone, PartialEq, Eq)]
#[verifier::ext_equal]
pub struct DirEntry<T = String> {
    pub name: T,
    pub is_file: bool,
}

impl View for DirEntry {
    type V = DirEntry<Seq<char>>;

    open spec fn view(&self) -> DirEntry<Seq<char>> {
        DirEntry { name: self.name@, is_file: self.is_file }
    }
}

/// Whether an entry, whose name is `lower` in lower case, is a network file whose
/// name begins with `prefix`.
pub open spec fn is_network(is_file: bool, lower: Seq<char>, prefix: Seq<char>) -> bool {
    is_file && text::begins(lower, prefix) && text::ends(lower, ".onnx"@)
}

/// The rank of a network file: quantised ones first, which load faster.
pub open spec fn rank(lower: Seq<char>) -> int {
    if text::has(lower, "int8"@) {
        0
    } else if text::has(lower, "fp16"@) {
        1
    } else {
        2
    }
}

/// The number of bytes of a name.
pub open spec fn name_len(s: Seq<char>) -> int {
    vstd::utf8::encode_utf8(s).len() as int
}

/// Whether the file named `a` is preferred to the one named `b`: by rank, and among
/// the same rank the one with the shorter name.
pub open spec fn preferred(a: Seq<char>, b: Seq<char>) -> bool {
    rank(a) < rank(b) || rank(a) == rank(b) && name_len(a) < name_len(b)
}

/// The names of the entries in lower case.
pub open spec fn lowered(entries: Seq<DirEntry>) -> Seq<DirEntry<Seq<char>>> {
    entries.map_values(
        |e: DirEntry| DirEntry { name: text::lowercase(e.name@), is_file: e.is_file },
    )
}

/// Whether entry `i` is the network file to take: one whose name begins with
/// `prefix`, such that no other is preferred to it, and none that comes before is
/// as good.
pub open spec fn is_best(
    entries: Seq<DirEntry<Seq<char>>>,
    prefix: Seq<char>,
    i: int,
) -> bool {
    &&& 0 <= i < entries.len()
    &&& is_network(entries[i].is_file, entries[i].name, prefix)
    &&& forall|j: int|
        0 <= j < entries.len() && is_network(
            (#[trigger] entries[j]).is_file,
            entries[j].name,
            prefix,
        ) ==> !preferred(entries[j].name, entries[i].name) && (j < i ==> preferred(
            entries[i].name,
            entries[j].name,
        ))
}

fn rank_of(lower: &str) -> (r: u8)
    ensures
        r == rank(lower@),
{
    if text::contains(lower, "int8") {
        0
    } else if text::contains(lower, "fp16") {
        1
    } else {
        2
    }
}

/// The network file to take from a directory, by its index.
pub fn pick_onnx(entries: &Vec<DirEntry>, prefix: &str) -> (r: Option<usize>)
    ensures
        match r {
            Some(i) => is_best(lowered(entries@), prefix@, i as int),
            None => forall|j: int|
                0 <= j < entries.len() ==> !is_network(
                    (#[trigger] lowered(entries@)[j]).is_file,
                    lowered(entries@)[j].name,
                    prefix@,
                ),
        },
{
    let ghost all = lowered(entries@);
    let mut best: Option<(u8, usize, usize)> = None;
    let mut i: usize = 0;
    while i < entries.len()
        invariant
            i <= entries.len(),
            all == lowered(entries@),
            match best {
                Some(b) => b.2 < i && is_best(all.take(i as int), prefix@, b.2 as int) && b.0
                    == rank(all[b.2 as int].name) && b.1 == name_len(all[b.2 as int].name),
                None => forall|j: int|
                    0 <= j < i ==> !is_network(
                        (#[trigger] all[j]).is_file,
                        all[j].name,
                        prefix@,
                    ),
            },
        decreases entries.len() - i,
    {
        let ghost before = all.take(i as int);
        let ghost now = all.take(i + 1);
        assert(forall|j: int| 0 <= j < i ==> #[trigger] now[j] == before[j] && now[j] == all[j]);
        assert(now[i as int] == all[i as int]);
        let lower = text::to_lowercase(entries[i].name.as_str());
        let name = lower.as_str();
        let mut take = false;
        if entries[i].is_file && text::starts_with(name, prefix) && text::ends_with(name, ".onnx") {
            let r = rank_of(name);
            let len = byte_len(name);
            take = match best {
                None => true,
                Some(b) => r < b.0 || (r == b.0 && len < b.1),
            };
            if take {
                best = Some((r, len, i));
            }
        }
        i = i + 1;
    }
    assert(all.take(all.len() as int) == all);
    match best {
        Some(b) => Some(b.2),
        None => None,
    }
}

/// The number of bytes of a text.
fn byte_len(s: &str) -> (n: usize)
    ensures
        n == name_len(s@),
{
    let b = s.as_bytes();
    b.len()
}

/// What is missing of a model.
#[derive(Debug, Clone, Copy, PartialEq, Eq, Structural)]
pub enum Missing {
    Tokens,
    Encoder,
    Decoder,
    Joiner,
}

/// The files of a model: those of its directory that are taken, or the first that
/// is missing. `tokens` tells whether the list of tokens is there.
pub open spec fn located(
    flavor: Flavor,
    tokens: bool,
    encoder: bool,
    decoder: bool,
    joiner: bool,
) -> Option<Missing> {
    if !tokens {
        Some(Missing::Tokens)
    } else if !encoder {
        Some(Missing::Encoder)
    } else if !decoder {
        Some(Missing::Decoder)
    } else if flavor == Flavor::NemoTransducer && !joiner {
        Some(Missing::Joiner)
    } else {
        None
    }
}

/// Whether there is a network file whose name begins with `prefix`.
pub open spec fn has_network(entries: Seq<DirEntry<Seq<char>>>, prefix: Seq<char>) -> bool {
    exists|j: int|
        0 <= j < entries.len() && is_network(
            (#[trigger] entries[j]).is_file,
            entries[j].name,
            prefix,
        )
}

/// Whether `name` is the name of the network file to take.
pub open spec fn is_choice(entries: Seq<DirEntry>, prefix: Seq<char>, name: Seq<char>) -> bool {
    exists|i: int| #[trigger] is_best(lowered(entries), prefix, i) && entries[i].name@ == name
}

fn choice(entries: &Vec<DirEntry>, prefix: &str) -> (r: Option<String>)
    ensures
        match r {
            Some(n) => is_choice(entries@, prefix@, n@) && has_network(lowered(entries@), prefix@),
            None => !has_network(lowered(entries@), prefix@),
        },
{
    match pick_onnx(entries, prefix) {
        Some(i) => {
            let name = entries[i].name.as_str().to_string();
            assert(is_best(lowered(entries@), prefix@, i as int));
            Some(name)
        },
        None => None,
    }
}

/// The files of the model in a directory that holds `entries`; `tokens` tells
/// whether the list of tokens is there.
pub fn locate_model(entries: &Vec<DirEntry>, tokens: bool, flavor: Flavor) -> (r: Result<
    ModelFiles,
    Missing,
>)
    ensures
        match r {
            Ok(f) => located(
                flavor,
                tokens,
                has_network(lowered(entries@), "encoder"@),
                has_network(lowered(entries@), "decoder"@),
                has_network(lowered(entries@), "joiner"@),
            ) is None && f.tokens@ == "tokens.txt"@ && is_choice(
                entries@,
                "encoder"@,
                f.encoder@,
            ) && is_choice(entries@, "decoder"@, f.decoder@) && match f.joiner {
                Some(j) => is_choice(entries@, "joiner"@, j@),
                None => !has_network(lowered(entries@), "joiner"@),
            },
            Err(m) => located(
                flavor,
                tokens,
                has_network(lowered(entries@), "encoder"@),
                has_network(lowered(entries@), "decoder"@),
                has_network(lowered(entries@), "joiner"@),
            ) == Some(m),
        },
        r matches Ok(f) ==> (flavor == Flavor::NemoTransducer ==> f.joiner is Some),
{
    if !tokens {
        return Err(Missing::Tokens);
    }
    match choice(entries, "encoder") {
        None => Err(Missing::Encoder),
        Some(encoder) => match choice(entries, "decoder") {
            None => Err(Missing::Decoder),
            Some(decoder) => {
                let joiner = choice(entries, "joiner");
                if flavor == Flavor::NemoTransducer && joiner.is_none() {
                    return Err(Missing::Joiner);
                }
                Ok(ModelFiles { tokens: "tokens.txt".to_string(), encoder, decoder, joiner })
            },
        },
    }
}

impl Missing {
    /// The message on what is missing in the directory `dir`.
    pub fn message(&self, dir: &str) -> (r: String)
        ensures
            r@ == match *self {
                Missing::Tokens => "tokens.txt"@,
                Missing::Encoder => "encoder*.onnx"@,
                Missing::Decoder => "decoder*.onnx"@,
                Missing::Joiner => "joiner*.onnx"@,
            } + " introuvable dans "@ + dir@,
    {
        let what = match self {
            Missing::Tokens => "tokens.txt",
            Missing::Encoder => "encoder*.onnx",
            Missing::Decoder => "decoder*.onnx",
            Missing::Joiner => "joiner*.onnx",
        };
        text::concat3(what, " introuvable dans ", dir)
    }
}

/// What is to be done about the archive of a model.
#[derive(Debug, Clone, Copy, PartialEq, Eq, Structural)]
pub enum Unpacking {
    /// Nothing: it was unpacked before.
    Done,
    /// It is not there.
    NoArchive,
    /// Unpack it, then leave the mark.
    Unpack,
}

/// The file that marks an unpacked model.
pub const EXTRACTED_MARK: &'static str = ".extracted";

/// What is to be done about the archive of a model, given whether the mark and the
/// archive are there.
pub open spec fn unpacking(mark: bool, archive: bool) -> Unpacking {
    if mark {
        Unpacking::Done
    } else if !archive {
        Unpacking::NoArchive
    } else {
        Unpacking::Unpack
    }
}

/// What is to be done about the archive of a model, given whether the mark and the
/// archive are there.
pub fn ensure_model_extracted(mark: bool, archive: bool) -> (r: Unpacking)
    ensures
        r == unpacking(mark, archive),
{
    if mark {
        Unpacking::Done
    } else if !archive {
        Unpacking::NoArchive
    } else {
        Unpacking::Unpack
    }
}

/// What follows once that was done: what the mark is to hold, where it is to be
/// left, or the error.
#[derive(Debug, Clone, PartialEq, Eq)]
#[verifier::ext_equal]
pub struct Unpacked<T = String> {
    pub mark: Option<T>,
    pub failure: Option<T>,
}

impl View for Unpacked {
    type V = Unpacked<Seq<char>>;

    open spec fn view(&self) -> Unpacked<Seq<char>> {
        Unpacked { mark: engine::opt_text(self.mark), failure: engine::opt_text(self.failure) }
    }
}

/// What follows once `todo` was done about the archive `main_file` at `path`; `error`
/// is why it could not be unpacked. The mark is left, with the name of the archive
/// in it, only where it was unpacked.
pub open spec fn unpacked(
    todo: Unpacking,
    main_file: Seq<char>,
    path: Seq<char>,
    error: Option<Seq<char>>,
) -> Unpacked<Seq<char>> {
    match (todo, error) {
        (Unpacking::Done, _) => Unpacked { mark: None, failure: None },
        (Unpacking::NoArchive, _) => Unpacked {
            mark: None,
            failure: Some("archive du modèle absente : "@ + path),
        },
        (Unpacking::Unpack, None) => Unpacked { mark: Some(main_file), failure: None },
        (Unpacking::Unpack, Some(e)) => Unpacked { mark: None, failure: Some(e) },
    }
}

/// What follows once `todo` was done about the archive `main_file` at `path`; `error`
/// is why it could not be unpacked.
pub fn after_unpacking(todo: Unpacking, main_file: &str, path: &str, error: Option<String>) -> (r:
    Unpacked)
    ensures
        r@ == unpacked(todo, main_file@, path@, engine::opt_text(error)),
{
    match (todo, error) {
        (Unpacking::Done, _) => Unpacked { mark: None, failure: None },
        (Unpacking::NoArchive, _) => Unpacked {
            mark: None,
            failure: Some(text::concat("archive du modèle absente : ", path)),
        },
        (Unpacking::Unpack, None) => Unpacked {
            mark: Some(main_file.to_string()),
            failure: None,
        },
        (Unpacking::Unpack, Some(e)) => Unpacked { mark: None, failure: Some(e) },
    }
}

/// The directory of a model: what its mark holds, and whether the archive is there.
#[verifier::ext_equal]
pub struct ModelDir {
    pub mark: Option<Seq<char>>,
    pub archive: bool,
}

/// What follows for the directory `d` of a model, and the directory afterwards.
pub open spec fn extracted(
    d: ModelDir,
    main_file: Seq<char>,
    path: Seq<char>,
    error: Option<Seq<char>>,
) -> (ModelDir, Unpacked<Seq<char>>) {
    let r = unpacked(unpacking(d.mark is Some, d.archive), main_file, path, error);
    (
        match r.mark {
            Some(m) => ModelDir { mark: Some(m), ..d },
            None => d,
        },
        r,
    )
}

/// A model is unpacked once. With the mark nothing is done, even without the
/// archive; without the mark and the archive, or where unpacking fails, there is an
/// error and still no mark; and where there is no error the mark is there, so that
/// nothing is done the next time.
pub proof fn models_are_unpacked_once(
    d: ModelDir,
    main_file: Seq<char>,
    path: Seq<char>,
    error: Option<Seq<char>>,
)
    ensures
        ({
            let (after, r) = extracted(d, main_file, path, error);
            &&& d.mark is Some ==> after == d && r.failure is None
            &&& r.failure is Some <==> d.mark is None && (!d.archive || error is Some)
            &&& r.failure is Some ==> after == d
            &&& r.failure is None && d.mark is None ==> after.mark == Some(main_file)
            &&& r.failure is None ==> unpacking(after.mark is Some, after.archive)
                == Unpacking::Done
        }),
{
}

/// There is one network file to take.
pub proof fn choices_are_unique(
    entries: Seq<DirEntry<Seq<char>>>,
    prefix: Seq<char>,
    i: int,
    j: int,
)
    requires
        is_best(entries, prefix, i),
        is_best(entries, prefix, j),
    ensures
        i == j,
{
    assert(entries[i] == entries[i] && entries[j] == entries[j]);
}

// ---------------------------------------------------------------------------
// The exchange with the server
// ---------------------------------------------------------------------------

/// Whether a character marks the name of a language.
pub open spec fn is_mark(c: char) -> bool {
    c == '<' || c == '>' || c == '|'
}

/// `s` without the marks at its start.
pub open spec fn unmarked_start(s: Seq<char>) -> Seq<char>
    decreases s.len(),
{
    if s.len() > 0 && is_mark(s[0]) {
        unmarked_start(s.drop_first())
    } else {
        s
    }
}

/// `s` without the marks at its end.
pub open spec fn unmarked_end(s: Seq<char>) -> Seq<char>
    decreases s.len(),
{
    if s.len() > 0 && is_mark(s.last()) {
        unmarked_end(s.drop_last())
    } else {
        s
    }
}

/// `s` without the marks at its ends.
pub open spec fn unmarked(s: Seq<char>) -> Seq<char> {
    unmarked_end(unmarked_start(s))
}

fn strip_marks(s: &str) -> (r: String)
    ensures
        r@ == unmarked(s@),
{
    let v = text::chars_of(s);
    let mut from: usize = 0;
    assert(v@.skip(0) == v@);
    while from < v.len() && (v[from] == '<' || v[from] == '>' || v[from] == '|')
        invariant
            from <= v.len(),
            unmarked_start(v@) == unmarked_start(v@.skip(from as int)),
        decreases v.len() - from,
    {
        assert(v@.skip(from as int).drop_first() == v@.skip(from + 1));
        from = from + 1;
    }
    let ghost body = v@.skip(from as int);
    assert(unmarked_start(v@) == body);
    let mut to: usize = v.len();
    assert(v@.subrange(from as int, to as int) == body);
    while to > from && (v[to - 1] == '<' || v[to - 1] == '>' || v[to - 1] == '|')
        invariant
            from <= to <= v.len(),
            unmarked_end(body) == unmarked_end(v@.subrange(from as int, to as int)),
        decreases to,
    {
        assert(v@.subrange(from as int, to as int).drop_last() == v@.subrange(
            from as int,
            to - 1,
        ));
        to = to - 1;
    }
    text::string_of(&v, from, to)
}

/// The language and the text of a reply. Where it is no JSON text it is the text
/// itself; otherwise `found` and `lang` are the text and the language in it.
pub open spec fn result_of(
    raw: Seq<char>,
    readable: bool,
    found: Option<Seq<char>>,
    lang: Option<Seq<char>>,
) -> (Option<Seq<char>>, Seq<char>) {
    if !readable {
        (None, text::trimmed(raw))
    } else {
        (
            match lang {
                Some(l) => {
                    let name = unmarked(text::trimmed(l));
                    if name.len() > 0 {
                        Some(name)
                    } else {
                        None
                    }
                },
                None => None,
            },
            match found {
                Some(t) => text::trimmed(t),
                None => Seq::empty(),
            },
        )
    }
}

/// The language and the text of a reply, given what was found in it.
pub fn read_result(raw: &str, readable: bool, found: Option<String>, lang: Option<String>) -> (r: (
    Option<String>,
    String,
))
    ensures
        (engine::opt_text(r.0), r.1@) == result_of(
            raw@,
            readable,
            engine::opt_text(found),
            engine::opt_text(lang),
        ),
{
    if !readable {
        return (None, text::trim(raw));
    }
    let language = match lang {
        Some(l) => {
            let t = text::trim(l.as_str());
            let name = strip_marks(t.as_str());
            if name.as_str().is_empty() {
                None
            } else {
                Some(name)
            }
        },
        None => None,
    };
    let text = match found {
        Some(t) => text::trim(t.as_str()),
        None => String::new(),
    };
    (language, text)
}

/// The language and the text of a reply.
pub fn parse_result(raw: &str) -> (r: (Option<String>, String))
    ensures
        (engine::opt_text(r.0), r.1@) == result_of(
            raw@,
            json::json_valid(raw@),
            json::text_member(raw@, "text"@),
            json::text_member(raw@, "lang"@),
        ),
{
    let readable = json::is_json(raw);
    let found = json::get_text(raw, "text");
    let lang = json::get_text(raw, "lang");
    read_result(raw, readable, found, lang)
}

/// The parts of a message.
pub open spec fn chunks_of(parts: Seq<Vec<u8>>) -> Seq<Seq<u8>> {
    parts.map_values(|p: Vec<u8>| p@)
}

/// Whether `parts` are the parts that a message of bytes is sent in: all of them
/// full but the last, which is not empty.
pub open spec fn is_split(bytes: Seq<u8>, parts: Seq<Seq<u8>>) -> bool {
    &&& parts.flatten() == bytes
    &&& forall|i: int|
        0 <= i < parts.len() ==> 0 < (#[trigger] parts[i]).len() <= CHUNK_BYTES
    &&& forall|i: int|
        0 <= i < parts.len() - 1 ==> (#[trigger] parts[i]).len() == CHUNK_BYTES
}

fn copy_range(bytes: &Vec<u8>, from: usize, to: usize) -> (r: Vec<u8>)
    requires
        from <= to <= bytes.len(),
    ensures
        r@ == bytes@.subrange(from as int, to as int),
{
    let mut r: Vec<u8> = Vec::new();
    let mut i: usize = from;
    while i < to
        invariant
            from <= i <= to <= bytes.len(),
            r@ == bytes@.subrange(from as int, i as int),
        decreases to - i,
    {
        r.push(bytes[i]);
        i = i + 1;
    }
    r
}

/// The parts that a message of bytes is sent in.
pub fn split_payload(bytes: &Vec<u8>) -> (r: Vec<Vec<u8>>)
    ensures
        is_split(bytes@, chunks_of(r@)),
{
    let mut r: Vec<Vec<u8>> = Vec::new();
    let mut from: usize = 0;
    assert(chunks_of(r@) == Seq::<Seq<u8>>::empty());
    assert(bytes@.take(0) == Seq::<u8>::empty());
    while from < bytes.len()
        invariant
            from <= bytes.len(),
            chunks_of(r@).flatten() == bytes@.take(from as int),
            forall|i: int|
                0 <= i < r.len() ==> 0 < (#[trigger] chunks_of(r@)[i]).len() <= CHUNK_BYTES,
            forall|i: int|
                0 <= i < r.len() - 1 ==> (#[trigger] chunks_of(r@)[i]).len() == CHUNK_BYTES,
            from < bytes.len() ==> forall|i: int|
                0 <= i < r.len() ==> (#[trigger] chunks_of(r@)[i]).len() == CHUNK_BYTES,
        decreases bytes.len() - from,
    {
        let mut to: usize = bytes.len();
        if to - from > CHUNK_BYTES {
            to = from + CHUNK_BYTES;
        }
        let ghost before = chunks_of(r@);
        let part = copy_range(bytes, from, to);
        r.push(part);
        proof {
            let now = chunks_of(r@);
            assert(now == before.push(part@));
            before.lemma_flatten_push(part@);
            assert(bytes@.take(to as int) == bytes@.take(from as int) + part@);
            assert(forall|i: int| 0 <= i < before.len() ==> #[trigger] now[i] == before[i]);
        }
        from = to;
    }
    assert(bytes@.take(bytes@.len() as int) == bytes@);
    r
}

/// A message from the server.
#[derive(Debug, Clone, PartialEq, Eq)]
pub enum ServerMessage<T = String> {
    Text(T),
    /// The server closes the connection, for this reason.
    Close(Option<T>),
    Other,
    /// The connection has failed.
    Broken,
    /// There are no more messages.
    End,
}

impl View for ServerMessage {
    type V = ServerMessage<Seq<char>>;

    open spec fn view(&self) -> ServerMessage<Seq<char>> {
        match *self {
            ServerMessage::Text(t) => ServerMessage::Text(t@),
            ServerMessage::Close(r) => ServerMessage::Close(engine::opt_text(r)),
            ServerMessage::Other => ServerMessage::Other,
            ServerMessage::Broken => ServerMessage::Broken,
            ServerMessage::End => ServerMessage::End,
        }
    }
}

/// What a message means for a request.
#[derive(Debug, Clone, PartialEq, Eq)]
pub enum Exchange<T = String> {
    /// The answer is still to come.
    Waiting,
    /// The server has answered; it is told that the exchange is over.
    Answered(T),
    /// There is no answer. The server is told that the exchange is over where
    /// `part` is set.
    Failed { message: T, part: bool },
}

impl View for Exchange {
    type V = Exchange<Seq<char>>;

    open spec fn view(&self) -> Exchange<Seq<char>> {
        match *self {
            Exchange::Waiting => Exchange::Waiting,
            Exchange::Answered(t) => Exchange::Answered(t@),
            Exchange::Failed { message, part } => Exchange::Failed { message: message@, part },
        }
    }
}

/// What a message means for a request: the first text is the answer.
pub open spec fn message_meaning(m: ServerMessage<Seq<char>>) -> Exchange<Seq<char>> {
    match m {
        ServerMessage::Text(t) => Exchange::Answered(t),
        ServerMessage::Close(reason) => Exchange::Failed {
            message: match reason {
                Some(r) if r.len() > 0 => "le moteur a refusé la requête : "@ + r,
                _ => "le moteur a fermé la connexion sans répondre"@,
            },
            part: false,
        },
        ServerMessage::Other => Exchange::Waiting,
        ServerMessage::Broken => Exchange::Failed {
            message: "flux websocket interrompu"@,
            part: false,
        },
        ServerMessage::End => Exchange::Failed {
            message: "aucune réponse du moteur"@,
            part: true,
        },
    }
}

/// What a message means for a request.
pub fn decode(message: ServerMessage) -> (r: Exchange)
    ensures
        r@ == message_meaning(message@),
{
    match message {
        ServerMessage::Text(t) => Exchange::Answered(t),
        ServerMessage::Close(reason) => {
            let message = match reason {
                Some(r) => if r.as_str().is_empty() {
                    "le moteur a fermé la connexion sans répondre".to_string()
                } else {
                    text::concat("le moteur a refusé la requête : ", r.as_str())
                },
                None => "le moteur a fermé la connexion sans répondre".to_string(),
            };
            Exchange::Failed { message, part: false }
        },
        ServerMessage::Other => Exchange::Waiting,
        ServerMessage::Broken => Exchange::Failed {
            message: "flux websocket interrompu".to_string(),
            part: false,
        },
        ServerMessage::End => Exchange::Failed {
            message: "aucune réponse du moteur".to_string(),
            part: true,
        },
    }
}

/// The time a request may take, in seconds.
pub const ANSWER_SECS: u64 = 600;

/// The message on a request that took too long.
pub fn late_answer() -> (r: String)
    ensures
        r@ == "le moteur n'a pas répondu (délai dépassé)"@,
{
    "le moteur n'a pas répondu (délai dépassé)".to_string()
}

/// Whether a recording has no samples.
pub open spec fn is_silent(samples: wav::SamplesView) -> bool {
    match samples {
        wav::SamplesView::Int16(s) => s.len() == 0,
        wav::SamplesView::Int32(s) => s.len() == 0,
        wav::SamplesView::Float => false,
    }
}

/// What a recording is read as before it is sent.
#[derive(Debug, Clone)]
pub enum Prepared {
    /// There is nothing to transcribe: the text is empty.
    Nothing,
    /// Send this recording to the server on `port`. Floating point samples, which
    /// may turn out to be none, are still to be read.
    Send { port: u16, audio: WavAudio },
}

/// Reads the recording `wav` for the server that runs on `port`.
pub fn prepare(port: Option<u16>, wav: &[u8]) -> (r: Result<Prepared, String>)
    ensures
        match r {
            Err(m) => port is None && m@ == "moteur non démarré"@ || port is Some
                && wav::read_back(wav@) is Err && m@ == wav::error_text(
                wav::read_back(wav@)->Err_0,
            ),
            Ok(Prepared::Nothing) => port is Some && wav::read_back(wav@) is Ok && is_silent(
                wav::read_back(wav@)->Ok_0.samples,
            ),
            Ok(Prepared::Send { port: p, audio }) => port == Some(p) && wav::read_back(wav@)
                == Ok::<wav::WavView, wav::WavError>(audio@) && !is_silent(audio@.samples),
        },
{
    match port {
        None => Err("moteur non démarré".to_string()),
        Some(p) => match wav::read_wav(wav) {
            Err(e) => Err(e.message()),
            Ok(audio) => {
                let empty = match &audio.samples {
                    wav::Samples::Int16(s) => s.len() == 0,
                    wav::Samples::Int32(s) => s.len() == 0,
                    wav::Samples::Float => false,
                };
                if empty {
                    Ok(Prepared::Nothing)
                } else {
                    Ok(Prepared::Send { port: p, audio })
                }
            },
        },
    }
}

// ---------------------------------------------------------------------------
// Laws
// ---------------------------------------------------------------------------

/// The marks at both ends of the name of a language go, and nothing else.
pub proof fn marks_at_the_ends_go(s: Seq<char>, a: int, b: int)
    requires
        0 <= a <= b <= s.len(),
        forall|i: int|
            0 <= i < a || b <= i < s.len() ==> #[trigger] s[i] == '<' || s[i] == '>' || s[i] == '|',
        a < b ==> s[a] != '<' && s[a] != '>' && s[a] != '|',
        a < b ==> s[b - 1] != '<' && s[b - 1] != '>' && s[b - 1] != '|',
    ensures
        unmarked(s) == s.subrange(a, b),
    decreases s.len(),
{
    if a < b {
        lemma_unmarked_start(s, a);
        let t = s.subrange(a, s.len() as int);
        assert forall|i: int| b - a <= i < t.len() implies is_mark(#[trigger] t[i]) by {
            assert(t[i] == s[i + a]);
        }
        lemma_unmarked_end(t, b - a);
        assert(t.subrange(0, b - a) == s.subrange(a, b));
    } else {
        lemma_unmarked_start(s, s.len() as int);
        assert(s.subrange(s.len() as int, s.len() as int) == s.subrange(a, b));
    }
}

proof fn lemma_unmarked_start(s: Seq<char>, k: int)
    requires
        0 <= k <= s.len(),
        forall|i: int| 0 <= i < k ==> is_mark(#[trigger] s[i]),
        k < s.len() ==> !is_mark(s[k]),
    ensures
        unmarked_start(s) == s.subrange(k, s.len() as int),
    decreases s.len(),
{
    if k == 0 {
        assert(s.subrange(0, s.len() as int) == s);
    } else {
        let t = s.drop_first();
        assert(forall|i: int| 0 <= i < k - 1 ==> #[trigger] t[i] == s[i + 1]);
        lemma_unmarked_start(t, k - 1);
        assert(t.subrange(k - 1, t.len() as int) == s.subrange(k, s.len() as int));
    }
}

proof fn lemma_unmarked_end(s: Seq<char>, k: int)
    requires
        0 <= k <= s.len(),
        forall|i: int| k <= i < s.len() ==> is_mark(#[trigger] s[i]),
        k > 0 ==> !is_mark(s[k - 1]),
    ensures
        unmarked_end(s) == s.subrange(0, k),
    decreases s.len(),
{
    if k == s.len() {
        assert(s.subrange(0, k) == s);
    } else {
        let t = s.drop_last();
        lemma_unmarked_end(t, k);
        assert(t.subrange(0, k) == s.subrange(0, k));
    }
}

/// A reply in JSON gives the text in it without the white space around it, and the
/// language in it without the marks around it, where there is one; a reply that is no
/// JSON is all text.
pub proof fn replies_give_text_and_language(
    raw: Seq<char>,
    found: Option<Seq<char>>,
    lang: Option<Seq<char>>,
)
    ensures
        result_of(raw, false, found, lang) == (None::<Seq<char>>, text::trimmed(raw)),
        found matches Some(t) ==> result_of(raw, true, found, lang).1 == text::trimmed(t),
        found is None ==> result_of(raw, true, found, lang).1.len() == 0,
        result_of(raw, true, found, lang).0 matches Some(l) ==> lang is Some && l == unmarked(
            text::trimmed(lang.unwrap()),
        ) && l.len() > 0,
        result_of(raw, true, found, lang).0 is None <==> lang is None || unmarked(
            text::trimmed(lang.unwrap()),
        ).len() == 0,
{
}

/// A text is the answer, as it is. Other messages are waited through. A connection that
/// is closed, breaks or ends gives an error, with the reason of the server where it has
/// one; only where the messages end is the server told that the exchange is over.
pub proof fn texts_are_answers(t: Seq<char>)
    ensures
        message_meaning(ServerMessage::Text(t)) == Exchange::Answered(t),
        message_meaning(ServerMessage::Other) == Exchange::<Seq<char>>::Waiting,
        t.len() > 0 ==> message_meaning(ServerMessage::Close(Some(t))) == (Exchange::Failed {
            message: "le moteur a refusé la requête : "@ + t,
            part: false,
        }),
        t.len() == 0 ==> message_meaning(ServerMessage::Close(Some(t))) == message_meaning(
            ServerMessage::Close(None),
        ),
        message_meaning(ServerMessage::Close(None)) == (Exchange::Failed {
            message: "le moteur a fermé la connexion sans répondre"@,
            part: false,
        }),
        message_meaning(ServerMessage::Broken) == (Exchange::Failed {
            message: "flux websocket interrompu"@,
            part: false,
        }),
        message_meaning(ServerMessage::End) == (Exchange::Failed {
            message: "aucune réponse du moteur"@,
            part: true,
        }),
{
}

/// A model is complete where its tokens, its encoder and its decoder are there, and for a
/// transducer its joiner; otherwise something is missing that is not there, and all that
/// is looked for before it is.
pub proof fn incomplete_models_miss_something(
    flavor: Flavor,
    tokens: bool,
    encoder: bool,
    decoder: bool,
    joiner: bool,
)
    ensures
        located(flavor, tokens, encoder, decoder, joiner) is None <==> tokens && encoder && decoder
            && (joiner || flavor == Flavor::Canary),
        match located(flavor, tokens, encoder, decoder, joiner) {
            Some(Missing::Tokens) => !tokens,
            Some(Missing::Encoder) => tokens && !encoder,
            Some(Missing::Decoder) => tokens && encoder && !decoder,
            Some(Missing::Joiner) => tokens && encoder && decoder && !joiner && flavor
                == Flavor::NemoTransducer,
            None => true,
        },
{
}

/// Of two network files one of 8 bits is preferred to any other, one of 16 bits to one
/// that is neither, and of two of a kind the one with the shorter name.
pub proof fn small_files_are_preferred(a: Seq<char>, b: Seq<char>)
    ensures
        text::has(a, "int8"@) && !text::has(b, "int8"@) ==> preferred(a, b) && !preferred(b, a),
        !text::has(a, "int8"@) && !text::has(b, "int8"@) && text::has(a, "fp16"@) && !text::has(
            b,
            "fp16"@,
        ) ==> preferred(a, b) && !preferred(b, a),
        text::has(a, "int8"@) == text::has(b, "int8"@) && text::has(a, "fp16"@) == text::has(
            b,
            "fp16"@,
        ) ==> (preferred(a, b) <==> vstd::utf8::encode_utf8(a).len() < vstd::utf8::encode_utf8(
            b,
        ).len()),
{
}

/// The file that is taken is a network file with the prefix, and no other such file is
/// preferred to it.
pub proof fn the_best_file_is_taken(
    entries: Seq<DirEntry<Seq<char>>>,
    prefix: Seq<char>,
    i: int,
    j: int,
)
    requires
        is_best(entries, prefix, i),
        0 <= j < entries.len(),
    ensures
        0 <= i < entries.len(),
        entries[i].is_file && text::begins(entries[i].name, prefix) && text::ends(
            entries[i].name,
            ".onnx"@,
        ),
        entries[j].is_file && text::begins(entries[j].name, prefix) && text::ends(
            entries[j].name,
            ".onnx"@,
        ) ==> !preferred(entries[j].name, entries[i].name),
{
    assert(entries[j] == entries[j]);
}

/// A Canary model works in the language wished for where it is English, German, Spanish
/// or French, however it is written and whatever stands around it, and otherwise in
/// French.
pub proof fn wishes_are_followed_where_known(wish: Seq<char>)
    ensures
        ({
            let w = text::lowercase(text::trimmed(wish));
            let known = w == "en"@ || w == "de"@ || w == "es"@ || w == "fr"@;
            &&& known ==> lang_for(Some(wish)) == w
            &&& !known ==> lang_for(Some(wish)) == "fr"@
            &&& lang_for(None) == "fr"@
        }),
{
}

/// A model is a Canary model where its identifier or its main file says so, or any of its
/// files does.
pub proof fn canary_models_name_themselves(spec: models::ModelView, i: int)
    requires
        text::has(text::lowercase(spec.id + " "@ + spec.main_file), "canary"@) || (0 <= i
            < spec.files.len() && text::has(text::lowercase(spec.files[i].name), "canary"@)),
    ensures
        text::has(flavor_text(spec), "canary"@),
{
    let pat = "canary"@;
    let head = text::lowercase(spec.id + " "@ + spec.main_file);
    if text::has(head, pat) {
        lemma_has_in_longer(Seq::empty(), head, lower_names(spec.files), pat);
        assert(Seq::<char>::empty() + head + lower_names(spec.files) == flavor_text(spec));
    } else {
        lemma_has_in_names(spec.files, i);
        lemma_has_in_longer(head, lower_names(spec.files), Seq::empty(), pat);
        assert(head + lower_names(spec.files) + Seq::<char>::empty() == flavor_text(spec));
    }
}

proof fn lemma_has_in_longer(a: Seq<char>, b: Seq<char>, c: Seq<char>, pat: Seq<char>)
    requires
        text::has(b, pat),
    ensures
        text::has(a + b + c, pat),
{
    let i = choose|i: int| text::occurs_at(b, pat, i);
    let k = a.len() + i;
    assert((a + b + c).subrange(k, k + pat.len()) == b.subrange(i, i + pat.len()));
    assert(text::occurs_at(a + b + c, pat, k));
}

proof fn lemma_has_in_names(files: Seq<models::RemoteFile<Seq<char>>>, i: int)
    requires
        0 <= i < files.len(),
        text::has(text::lowercase(files[i].name), "canary"@),
    ensures
        text::has(lower_names(files), "canary"@),
    decreases files.len(),
{
    let front = lower_names(files.drop_last());
    let last = text::lowercase(files.last().name);
    if i == files.len() - 1 {
        lemma_has_in_longer(front + " "@, last, Seq::empty(), "canary"@);
        assert(front + " "@ + last + Seq::<char>::empty() == lower_names(files));
    } else {
        assert(files.drop_last()[i] == files[i]);
        lemma_has_in_names(files.drop_last(), i);
        lemma_has_in_longer(Seq::empty(), front, " "@ + last, "canary"@);
        assert(Seq::<char>::empty() + front + (" "@ + last) == lower_names(files));
    }
}

/// A message is split in one way: each part holds the next 10,240 bytes of it, and the
/// last one what is left.
pub proof fn messages_split_in_one_way(bytes: Seq<u8>, parts: Seq<Seq<u8>>, i: int)
    requires
        is_split(bytes, parts),
        0 <= i < parts.len(),
    ensures
        10_240 * i < bytes.len(),
        parts[i] == bytes.subrange(
            10_240 * i,
            if 10_240 * (i + 1) < bytes.len() {
                10_240 * (i + 1)
            } else {
                bytes.len() as int
            },
        ),
{
    let front = parts.take(i);
    let back = parts.skip(i);
    assert(front + back == parts);
    vstd::seq_lib::lemma_flatten_concat(front, back);
    assert forall|j: int| 0 <= j < front.len() implies (#[trigger] front[j]).len() == 10_240 by {
        assert(front[j] == parts[j]);
    }
    lemma_full_parts(front);
    assert(back.drop_first() == parts.skip(i + 1));
    assert(back.flatten() == parts[i] + parts.skip(i + 1).flatten());
    let rest = parts.skip(i + 1);
    if i == parts.len() - 1 {
        assert(rest == Seq::<Seq<u8>>::empty());
        assert(rest.flatten().len() == 0);
    } else {
        assert(parts[i].len() == 10_240);
        assert(rest.flatten() == rest[0] + rest.drop_first().flatten());
        assert(rest[0] == parts[i + 1]);
    }
    let e = 10_240 * i + parts[i].len();
    assert(bytes.subrange(10_240 * i, e) == parts[i]);
}

proof fn lemma_full_parts(parts: Seq<Seq<u8>>)
    requires
        forall|j: int| 0 <= j < parts.len() ==> (#[trigger] parts[j]).len() == 10_240,
    ensures
        parts.flatten().len() == 10_240 * parts.len(),
    decreases parts.len(),
{
    if parts.len() > 0 {
        let rest = parts.drop_first();
        assert forall|j: int| 0 <= j < rest.len() implies (#[trigger] rest[j]).len() == 10_240 by {
            assert(rest[j] == parts[j + 1]);
        }
        lemma_full_parts(rest);
    }
}

}
