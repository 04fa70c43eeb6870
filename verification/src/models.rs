//! The catalogue of speech models: those that come with the application, and those
//! that the user has added.
use crate::catalog;
use crate::engine;
use crate::engine::EngineKind;
use crate::platform::{below1, Place, PlaceView, Root};
use crate::text;
use vstd::prelude::*;

verus! {

/// The form of what a model puts out.
#[derive(Debug, Clone, Copy, PartialEq, Eq, Structural)]
pub enum OutputFormat {
    /// `language French<asr_text>Bonjour…` (Qwen3-ASR).
    Qwen3Asr,
    /// Plain text.
    Plain,
}

/// A file of a model.
#[derive(Debug, Clone, PartialEq, Eq)]
pub struct RemoteFile<T = String> {
    /// An `http` or `https` URL, or an absolute path on this machine.
    pub url: T,
    /// The name of the file in the directory of the model.
    pub name: T,
}

/// Public scores of a model (Open ASR Leaderboard). The word error rates are in
/// hundredths of a percent; the speed is a multiple of real time.
#[derive(Debug, Clone, PartialEq, Eq)]
pub struct Bench<T = String> {
    pub wer_en: Option<u32>,
    pub wer_fr: Option<u32>,
    pub wer_fr_cv: Option<u32>,
    pub rtfx: Option<u32>,
    pub note: Option<T>,
}

/// A model: what is shown of it, where its files are, and how it is run.
#[derive(Debug, Clone, PartialEq, Eq)]
pub struct ModelSpec {
    pub id: String,
    pub name: String,
    pub description: String,
    pub size_label: String,
    pub params: String,
    pub languages: String,
    pub license: String,
    pub engine: EngineKind,
    pub files: Vec<RemoteFile>,
    /// The file with the weights of the decoder.
    pub main_file: String,
    /// The file with the audio encoder, for llama.cpp.
    pub mmproj_file: Option<String>,
    /// The instruction that goes with the audio.
    pub prompt: Option<String>,
    pub output: OutputFormat,
    pub bench: Option<Bench>,
    pub recommended: bool,
    pub custom: bool,
}

/// What a [`ModelSpec`] denotes.
#[verifier::ext_equal]
pub struct ModelView {
    pub id: Seq<char>,
    pub name: Seq<char>,
    pub description: Seq<char>,
    pub size_label: Seq<char>,
    pub params: Seq<char>,
    pub languages: Seq<char>,
    pub license: Seq<char>,
    pub engine: EngineKind,
    pub files: Seq<RemoteFile<Seq<char>>>,
    pub main_file: Seq<char>,
    pub mmproj_file: Option<Seq<char>>,
    pub prompt: Option<Seq<char>>,
    pub output: OutputFormat,
    pub bench: Option<Bench<Seq<char>>>,
    pub recommended: bool,
    pub custom: bool,
}

impl View for RemoteFile {
    type V = RemoteFile<Seq<char>>;

    open spec fn view(&self) -> RemoteFile<Seq<char>> {
        RemoteFile { url: self.url@, name: self.name@ }
    }
}

impl View for Bench {
    type V = Bench<Seq<char>>;

    open spec fn view(&self) -> Bench<Seq<char>> {
        Bench {
            wer_en: self.wer_en,
            wer_fr: self.wer_fr,
            wer_fr_cv: self.wer_fr_cv,
            rtfx: self.rtfx,
            note: engine::opt_text(self.note),
        }
    }
}

/// What the files of `v` denote.
pub open spec fn file_views(v: Seq<RemoteFile>) -> Seq<RemoteFile<Seq<char>>> {
    v.map_values(|f: RemoteFile| f@)
}

impl View for ModelSpec {
    type V = ModelView;

    open spec fn view(&self) -> ModelView {
        ModelView {
            id: self.id@,
            name: self.name@,
            description: self.description@,
            size_label: self.size_label@,
            params: self.params@,
            languages: self.languages@,
            license: self.license@,
            engine: self.engine,
            files: file_views(self.files@),
            main_file: self.main_file@,
            mmproj_file: engine::opt_text(self.mmproj_file),
            prompt: engine::opt_text(self.prompt),
            output: self.output,
            bench: match self.bench {
                Some(b) => Some(b@),
                None => None,
            },
            recommended: self.recommended,
            custom: self.custom,
        }
    }
}

/// What the models of `v` denote.
pub open spec fn model_views(v: Seq<ModelSpec>) -> Seq<ModelView> {
    v.map_values(|m: ModelSpec| m@)
}

fn copy_opt(o: &Option<String>) -> (r: Option<String>)
    ensures
        engine::opt_text(r) == engine::opt_text(*o),
{
    match o {
        Some(s) => Some(s.clone()),
        None => None,
    }
}

impl RemoteFile {
    /// A copy of the file.
    pub fn copy(&self) -> (r: Self)
        ensures
            r@ == self@,
    {
        RemoteFile { url: self.url.clone(), name: self.name.clone() }
    }
}

fn copy_files(files: &Vec<RemoteFile>) -> (r: Vec<RemoteFile>)
    ensures
        file_views(r@) == file_views(files@),
{
    let mut r: Vec<RemoteFile> = Vec::new();
    let mut i: usize = 0;
    while i < files.len()
        invariant
            i <= files.len(),
            file_views(r@) == file_views(files@).take(i as int),
        decreases files.len() - i,
    {
        let ghost before = r@;
        r.push(files[i].copy());
        i = i + 1;
        assert(file_views(r@) == file_views(before).push(files@[i - 1]@));
        assert(file_views(files@).take(i as int) == file_views(files@).take(i - 1).push(
            files@[i - 1]@,
        ));
    }
    assert(file_views(files@).take(files@.len() as int) == file_views(files@));
    r
}

impl ModelSpec {
    /// A copy of the model.
    pub fn copy(&self) -> (r: Self)
        ensures
            r@ == self@,
    {
        let bench = match &self.bench {
            Some(b) => Some(
                Bench {
                    wer_en: b.wer_en,
                    wer_fr: b.wer_fr,
                    wer_fr_cv: b.wer_fr_cv,
                    rtfx: b.rtfx,
                    note: copy_opt(&b.note),
                },
            ),
            None => None,
        };
        ModelSpec {
            id: self.id.clone(),
            name: self.name.clone(),
            description: self.description.clone(),
            size_label: self.size_label.clone(),
            params: self.params.clone(),
            languages: self.languages.clone(),
            license: self.license.clone(),
            engine: self.engine,
            files: copy_files(&self.files),
            main_file: self.main_file.clone(),
            mmproj_file: copy_opt(&self.mmproj_file),
            prompt: copy_opt(&self.prompt),
            output: self.output,
            bench,
            recommended: self.recommended,
            custom: self.custom,
        }
    }
}

// ---------------------------------------------------------------------------
// Names of files
// ---------------------------------------------------------------------------

/// Whether `c` separates the parts of a path; where `both` is set, a backslash
/// does too.
pub open spec fn is_separator(c: char, both: bool) -> bool {
    c == '/' || (both && c == '\\')
}

/// What follows the last separator of `s`; `s` where it has none.
pub open spec fn last_part(s: Seq<char>, both: bool) -> Seq<char>
    decreases s.len(),
{
    if s.len() == 0 || is_separator(s.last(), both) {
        Seq::empty()
    } else {
        last_part(s.drop_last(), both).push(s.last())
    }
}

/// `s` without the characters `c` at its end.
pub open spec fn without_trailing(s: Seq<char>, c: char) -> Seq<char>
    decreases s.len(),
{
    if s.len() > 0 && s.last() == c {
        without_trailing(s.drop_last(), c)
    } else {
        s
    }
}

/// `s` up to its first `c`.
pub open spec fn up_to(s: Seq<char>, c: char) -> Seq<char>
    decreases s.len(),
{
    if s.len() == 0 || s[0] == c {
        Seq::empty()
    } else {
        seq![s[0]] + up_to(s.drop_first(), c)
    }
}

/// What follows the last separator of `s`, where that stands in front of `k`.
pub proof fn last_part_at(s: Seq<char>, both: bool, k: int)
    requires
        0 <= k <= s.len(),
        forall|i: int| k <= i < s.len() ==> !is_separator(#[trigger] s[i], both),
        k > 0 ==> is_separator(s[k - 1], both),
    ensures
        last_part(s, both) == s.subrange(k, s.len() as int),
    decreases s.len(),
{
    if k < s.len() {
        last_part_at(s.drop_last(), both, k);
        assert(s.drop_last().subrange(k, s.len() - 1).push(s.last()) == s.subrange(
            k,
            s.len() as int,
        ));
    }
}

proof fn lemma_without_trailing_at(s: Seq<char>, c: char, k: int)
    requires
        0 <= k <= s.len(),
        forall|i: int| k <= i < s.len() ==> #[trigger] s[i] == c,
        k > 0 ==> s[k - 1] != c,
    ensures
        without_trailing(s, c) == s.subrange(0, k),
    decreases s.len(),
{
    if k < s.len() {
        lemma_without_trailing_at(s.drop_last(), c, k);
        assert(s.drop_last().subrange(0, k) == s.subrange(0, k));
    } else {
        assert(s.subrange(0, k) == s);
    }
}

proof fn lemma_up_to_at(s: Seq<char>, c: char, k: int)
    requires
        0 <= k <= s.len(),
        forall|i: int| 0 <= i < k ==> #[trigger] s[i] != c,
        k < s.len() ==> s[k] == c,
    ensures
        up_to(s, c) == s.subrange(0, k),
    decreases s.len(),
{
    if k > 0 {
        let t = s.drop_first();
        assert(forall|i: int| 0 <= i < k - 1 ==> #[trigger] t[i] == s[i + 1]);
        lemma_up_to_at(t, c, k - 1);
        assert(seq![s[0]] + t.subrange(0, k - 1) == s.subrange(0, k));
    }
}

/// The start of what follows the last separator of the first `end` characters.
fn part_start(v: &Vec<char>, end: usize, both: bool) -> (k: usize)
    requires
        end <= v.len(),
    ensures
        k <= end,
        forall|i: int| k <= i < end ==> !is_separator(#[trigger] v@[i], both),
        k > 0 ==> is_separator(v@[k - 1], both),
{
    let mut k: usize = end;
    while k > 0 && !(v[k - 1] == '/' || (both && v[k - 1] == '\\'))
        invariant
            k <= end <= v.len(),
            forall|i: int| k <= i < end ==> !is_separator(#[trigger] v@[i], both),
        decreases k,
    {
        k = k - 1;
    }
    k
}

/// The file `file` of the repository `repo` on Hugging Face.
pub open spec fn hf_file(repo: Seq<char>, file: Seq<char>) -> RemoteFile<Seq<char>> {
    RemoteFile { url: "https://huggingface.co/"@ + repo + "/resolve/main/"@ + file, name: file }
}

/// The file `file` of the repository `repo` on Hugging Face.
pub fn hf(repo: &str, file: &str) -> (r: RemoteFile)
    ensures
        r@ == hf_file(repo@, file@),
{
    let mut url = text::concat3("https://huggingface.co/", repo, "/resolve/main/");
    url.append(file);
    RemoteFile { url, name: file.to_string() }
}

/// The file at `url`, under the last part of it.
pub open spec fn gh_file(url: Seq<char>) -> RemoteFile<Seq<char>> {
    RemoteFile { url, name: last_part(url, false) }
}

/// The file at `url`, under the last part of it.
pub fn gh(url: &str) -> (r: RemoteFile)
    ensures
        r@ == gh_file(url@),
{
    let v = text::chars_of(url);
    let k = part_start(&v, v.len(), false);
    proof {
        last_part_at(url@, false, k as int);
    }
    RemoteFile { url: url.to_string(), name: text::string_of(&v, k, v.len()) }
}

/// The file name of a URL or a path: its last part, slashes at the end and
/// anything from a question mark on left aside.
pub open spec fn file_name(url: Seq<char>) -> Seq<char> {
    up_to(last_part(without_trailing(url, '/'), true), '?')
}

/// The file name of a URL or a path (see [`file_name`]).
pub fn file_name_of(url: &str) -> (r: String)
    ensures
        r@ == file_name(url@),
{
    let v = text::chars_of(url);
    let mut end: usize = v.len();
    while end > 0 && v[end - 1] == '/'
        invariant
            end <= v.len(),
            forall|i: int| end <= i < v.len() ==> #[trigger] v@[i] == '/',
        decreases end,
    {
        end = end - 1;
    }
    let start = part_start(&v, end, true);
    let mut stop: usize = start;
    while stop < end && v[stop] != '?'
        invariant
            start <= stop <= end <= v.len(),
            forall|i: int| start <= i < stop ==> #[trigger] v@[i] != '?',
        decreases end - stop,
    {
        stop = stop + 1;
    }
    proof {
        lemma_without_trailing_at(v@, '/', end as int);
        let t = v@.subrange(0, end as int);
        last_part_at(t, true, start as int);
        let u = t.subrange(start as int, end as int);
        assert(forall|i: int| 0 <= i < stop - start ==> #[trigger] u[i] == v@[i + start]);
        lemma_up_to_at(u, '?', stop - start);
        assert(u.subrange(0, stop - start) == v@.subrange(start as int, stop as int));
    }
    text::string_of(&v, start, stop)
}

/// Whether a file is on this machine, and not behind a URL.
pub open spec fn local(url: Seq<char>) -> bool {
    !(text::begins(url, "http://"@) || text::begins(url, "https://"@))
}

/// Whether a file is on this machine, and not behind a URL.
pub fn is_local(url: &str) -> (b: bool)
    ensures
        b == local(url@),
{
    !(text::starts_with(url, "http://") || text::starts_with(url, "https://"))
}

// ---------------------------------------------------------------------------
// Identifiers of added models
// ---------------------------------------------------------------------------

/// Whether `c` is an ASCII letter or digit.
pub open spec fn is_plain(c: char) -> bool {
    'a' <= c <= 'z' || 'A' <= c <= 'Z' || '0' <= c <= '9'
}

/// `s` with a dash for everything that is no ASCII letter or digit, and with one
/// dash for several in a row.
pub open spec fn dashed(s: Seq<char>) -> Seq<char>
    decreases s.len(),
{
    if s.len() == 0 {
        Seq::empty()
    } else {
        let t = dashed(s.drop_last());
        if is_plain(s.last()) {
            t.push(s.last())
        } else if t.len() > 0 && t.last() == '-' {
            t
        } else {
            t.push('-')
        }
    }
}

/// `s` without a dash at its start.
pub open spec fn without_first_dash(s: Seq<char>) -> Seq<char> {
    if s.len() > 0 && s[0] == '-' {
        s.drop_first()
    } else {
        s
    }
}

/// `s` without a dash at its end.
pub open spec fn without_last_dash(s: Seq<char>) -> Seq<char> {
    if s.len() > 0 && s.last() == '-' {
        s.drop_last()
    } else {
        s
    }
}

/// The identifier made from a name: its lower case letters and digits, and a dash
/// for what stands between them.
pub open spec fn slug_of(name: Seq<char>) -> Seq<char> {
    without_last_dash(without_first_dash(dashed(text::lowercase(name))))
}

/// Whether `s` has the form of an identifier made from a name: it is made of ASCII
/// lower case letters, digits and dashes, never has two dashes in a row, and has no
/// dash at either end.
pub open spec fn is_slug(s: Seq<char>) -> bool {
    &&& text::all_low(s)
    &&& single_dashes(s)
    &&& s.len() > 0 ==> s[0] != '-' && s.last() != '-'
}

/// Whether `s` never has two dashes in a row.
pub open spec fn single_dashes(s: Seq<char>) -> bool {
    forall|i: int, j: int|
        0 <= i && j == i + 1 && j < s.len() ==> !(#[trigger] s[i] == '-' && #[trigger] s[j] == '-')
}

/// The identifier made from a name (see [`slug_of`]). It has the form of an
/// identifier, and a name that has this form is its own identifier.
pub fn slug(name: &str) -> (r: String)
    ensures
        r@ == slug_of(name@),
        is_slug(r@),
        is_slug(name@) ==> r@ == name@,
{
    let lower = text::to_lowercase(name);
    let v = text::chars_of(lower.as_str());
    let mut out: Vec<char> = Vec::new();
    let mut i: usize = 0;
    assert(v@.take(0).len() == 0);
    while i < v.len()
        invariant
            i <= v.len(),
            out@ == dashed(v@.take(i as int)),
        decreases v.len() - i,
    {
        let c = v[i];
        let plain = ('a' <= c && c <= 'z') || ('A' <= c && c <= 'Z') || ('0' <= c && c <= '9');
        assert(v@.take(i + 1).drop_last() == v@.take(i as int));
        if plain {
            out.push(c);
        } else if out.len() == 0 || out[out.len() - 1] != '-' {
            out.push('-');
        }
        i = i + 1;
    }
    assert(v@.take(v@.len() as int) == v@);
    let mut from: usize = 0;
    let mut to: usize = out.len();
    if to > 0 && out[0] == '-' {
        from = 1;
    }
    if to > from && out[to - 1] == '-' {
        to = to - 1;
    }
    proof {
        let d = out@;
        let a = without_first_dash(d);
        assert(a == d.subrange(from as int, d.len() as int));
        assert(without_last_dash(a) == d.subrange(from as int, to as int));
        slugs_are_well_formed(name@);
        lemma_slug_is_low(name@);
        if is_slug(name@) {
            lemma_dashed_keeps(name@);
        }
    }
    text::string_of(&out, from, to)
}

/// A text of ASCII lower case letters, digits and single dashes stays as it is.
proof fn lemma_dashed_keeps(s: Seq<char>)
    requires
        text::all_low(s),
        single_dashes(s),
    ensures
        dashed(s) == s,
    decreases s.len(),
{
    if s.len() > 0 {
        let t = s.drop_last();
        assert(forall|i: int| 0 <= i < t.len() ==> #[trigger] t[i] == s[i]);
        lemma_dashed_keeps(t);
        assert(text::is_low(s[s.len() - 1]));
        if t.len() > 0 {
            assert(!(s[s.len() - 2] == '-' && s[s.len() - 1] == '-'));
        }
        assert(s == t.push(s.last()));
    }
}

/// Where the lower case of a name holds no capital, nor does its identifier.
proof fn lemma_slug_is_low(name: Seq<char>)
    requires
        text::no_capitals(text::lowercase(name)),
    ensures
        text::all_low(slug_of(name)),
{
    let low = text::lowercase(name);
    let d = dashed(low);
    lemma_dashed_is_low(low);
    let a = without_first_dash(d);
    let off: int = if d.len() > 0 && d[0] == '-' {
        1
    } else {
        0
    };
    assert(forall|i: int| 0 <= i < a.len() ==> #[trigger] a[i] == d[i + off]);
    let b = slug_of(name);
    assert(forall|i: int| 0 <= i < b.len() ==> #[trigger] b[i] == d[i + off]);
}

proof fn lemma_dashed_is_low(s: Seq<char>)
    requires
        text::no_capitals(s),
    ensures
        text::all_low(dashed(s)),
    decreases s.len(),
{
    if s.len() > 0 {
        let t = s.drop_last();
        assert(forall|i: int| 0 <= i < t.len() ==> #[trigger] t[i] == s[i]);
        lemma_dashed_is_low(t);
        let d = dashed(s);
        assert(!('A' <= s[s.len() - 1] <= 'Z'));
        assert forall|i: int| 0 <= i < d.len() implies text::is_low(#[trigger] d[i]) by {
            if i < dashed(t).len() {
                assert(d[i] == dashed(t)[i]);
            }
        }
    }
}

proof fn lemma_dashed(s: Seq<char>)
    ensures
        forall|i: int|
            0 <= i < dashed(s).len() ==> is_plain(#[trigger] dashed(s)[i]) || dashed(s)[i] == '-',
        forall|i: int, j: int|
            0 <= i && j == i + 1 && j < dashed(s).len() ==> !(#[trigger] dashed(s)[i] == '-'
                && #[trigger] dashed(s)[j] == '-'),
    decreases s.len(),
{
    if s.len() > 0 {
        lemma_dashed(s.drop_last());
        let t = dashed(s.drop_last());
        let d = dashed(s);
        assert(forall|i: int| 0 <= i < t.len() ==> #[trigger] d[i] == t[i]);
        assert forall|i: int| 0 <= i < d.len() implies is_plain(#[trigger] d[i]) || d[i]
            == '-' by {
            if i < t.len() {
                assert(d[i] == t[i]);
            }
        }
        assert forall|i: int, j: int| 0 <= i && j == i + 1 && j < d.len() implies !(#[trigger] d[i]
            == '-' && #[trigger] d[j] == '-') by {
            assert(d[i] == t[i]);
            if j < t.len() {
                assert(d[j] == t[j]);
            }
        }
    }
}

/// An identifier made from a name holds only ASCII letters, digits and dashes,
/// never two dashes in a row, and no dash at either end.
pub proof fn slugs_are_well_formed(name: Seq<char>)
    ensures
        forall|i: int|
            0 <= i < slug_of(name).len() ==> is_plain(#[trigger] slug_of(name)[i]) || slug_of(
                name,
            )[i] == '-',
        single_dashes(slug_of(name)),
        slug_of(name).len() > 0 ==> slug_of(name)[0] != '-' && slug_of(name).last() != '-',
{
    let d = dashed(text::lowercase(name));
    lemma_dashed(text::lowercase(name));
    let a = without_first_dash(d);
    let off: int = if d.len() > 0 && d[0] == '-' {
        1
    } else {
        0
    };
    let b = slug_of(name);
    assert(forall|i: int| 0 <= i < a.len() ==> #[trigger] a[i] == d[i + off]);
    assert(forall|i: int| 0 <= i < b.len() ==> #[trigger] b[i] == d[i + off]);
    assert forall|i: int, j: int| 0 <= i && j == i + 1 && j < b.len() implies !(#[trigger] b[i]
        == '-' && #[trigger] b[j] == '-') by {
        assert(b[i] == d[i + off] && b[j] == d[j + off]);
    }
    if b.len() > 0 {
        if off == 1 {
            assert(b[0] == d[1]);
            assert(d[0] == '-');
        }
        if d.last() == '-' && d.len() > 1 {
            assert(b.last() == d[b.len() - 1 + off]);
            assert(d[d.len() - 2] != '-' || d[d.len() - 1] != '-');
        }
    }
}

/// An identifier without its dashes is made of the ASCII letters and digits of the
/// lower case name, in order.
pub proof fn slugs_keep_letters_and_digits(name: Seq<char>)
    ensures
        slug_of(name).filter(|c: char| c != '-') == text::lowercase(name).filter(
            |c: char| is_plain(c),
        ),
{
    let low = text::lowercase(name);
    let d = dashed(low);
    let a = without_first_dash(d);
    let b = slug_of(name);
    let keep = |c: char| c != '-';
    lemma_dashed_keeps_order(low);
    let dash = seq!['-'];
    assert(dash.filter(keep) == Seq::<char>::empty()) by {
        reveal(Seq::filter);
        assert(dash.drop_last() == Seq::<char>::empty());
        assert(dash.drop_last().filter(keep) == Seq::<char>::empty());
        assert(!keep(dash.last()));
    }
    if d.len() > 0 && d[0] == '-' {
        assert(d == dash + a);
        Seq::filter_distributes_over_add(dash, a, keep);
        assert(d.filter(keep) == a.filter(keep));
    }
    if a.len() > 0 && a.last() == '-' {
        assert(a == b + dash);
        Seq::filter_distributes_over_add(b, dash, keep);
        assert(a.filter(keep) == b.filter(keep));
    }
}

proof fn lemma_dashed_keeps_order(s: Seq<char>)
    ensures
        dashed(s).filter(|c: char| c != '-') == s.filter(|c: char| is_plain(c)),
    decreases s.len(),
{
    reveal(Seq::filter);
    if s.len() > 0 {
        let t = dashed(s.drop_last());
        lemma_dashed_keeps_order(s.drop_last());
        if dashed(s) != t {
            assert(dashed(s).drop_last() == t);
        }
    }
}

// ---------------------------------------------------------------------------
// The catalogue
// ---------------------------------------------------------------------------

/// The models that the user has added.
#[derive(Debug, Clone)]
pub struct Registry {
    pub custom: Vec<ModelSpec>,
}

impl View for Registry {
    type V = Seq<ModelView>;

    open spec fn view(&self) -> Seq<ModelView> {
        model_views(self.custom@)
    }
}

/// All models: those that come with the application, then those that were added.
pub open spec fn all_models(added: Seq<ModelView>) -> Seq<ModelView> {
    catalog::builtin_views() + added
}

/// The first model of `list` with the identifier `id`.
pub open spec fn first_with_id(list: Seq<ModelView>, id: Seq<char>) -> Option<ModelView>
    decreases list.len(),
{
    if list.len() == 0 {
        None
    } else if list[0].id == id {
        Some(list[0])
    } else {
        first_with_id(list.drop_first(), id)
    }
}

/// `list` without the models with the identifier `id`.
pub open spec fn without_id(list: Seq<ModelView>, id: Seq<char>) -> Seq<ModelView>
    decreases list.len(),
{
    if list.len() == 0 {
        Seq::empty()
    } else if list.last().id == id {
        without_id(list.drop_last(), id)
    } else {
        without_id(list.drop_last(), id).push(list.last())
    }
}

/// Why a model was not added.
#[derive(Debug, Clone, PartialEq, Eq)]
pub enum CustomError<T = String> {
    /// It has no name.
    NoName,
    /// It has no file.
    NoFile,
    /// This file is neither a URL nor an absolute path.
    BadFile(T),
}

impl View for CustomError {
    type V = CustomError<Seq<char>>;

    open spec fn view(&self) -> CustomError<Seq<char>> {
        match *self {
            CustomError::NoName => CustomError::NoName,
            CustomError::NoFile => CustomError::NoFile,
            CustomError::BadFile(f) => CustomError::BadFile(f@),
        }
    }
}

impl CustomError {
    /// The error as it is shown to the user.
    pub fn message(&self) -> (r: String)
        ensures
            match *self {
                CustomError::NoName => r@ == "Donnez un nom au modèle."@,
                CustomError::NoFile => r@
                    == "Indiquez au moins le fichier principal (URL ou chemin)."@,
                CustomError::BadFile(f) => r@ == "« "@ + f@
                    + " » n'est ni une URL ni un chemin absolu."@,
            },
    {
        match self {
            CustomError::NoName => "Donnez un nom au modèle.".to_string(),
            CustomError::NoFile => "Indiquez au moins le fichier principal (URL ou chemin).".to_string(),
            CustomError::BadFile(f) => text::concat3(
                "« ",
                f.as_str(),
                " » n'est ni une URL ni un chemin absolu.",
            ),
        }
    }
}

/// A model that the user wants to add.
#[derive(Debug, Clone)]
pub struct CustomModelInput {
    pub name: String,
    pub engine: EngineKind,
    /// URLs or paths; the first is the main file.
    pub files: Vec<String>,
    pub prompt: Option<String>,
    pub output: OutputFormat,
    pub languages: Option<String>,
}

/// The entries of `files` that are not blank, trimmed.
pub open spec fn given_files(files: Seq<Seq<char>>) -> Seq<Seq<char>>
    decreases files.len(),
{
    if files.len() == 0 {
        Seq::empty()
    } else {
        let t = given_files(files.drop_last());
        if text::is_blank(files.last()) {
            t
        } else {
            t.push(text::trimmed(files.last()))
        }
    }
}

/// The first entry of `files`, trimmed, that is not blank and neither a URL nor an
/// absolute path; `absolute` tells which of the trimmed entries are absolute paths.
pub open spec fn first_bad_file(files: Seq<Seq<char>>, absolute: Seq<bool>) -> Option<Seq<char>>
    decreases files.len(),
{
    if files.len() == 0 {
        None
    } else {
        match first_bad_file(files.drop_last(), absolute) {
            Some(f) => Some(f),
            None => {
                let f = text::trimmed(files.last());
                if f.len() > 0 && local(f) && !absolute[files.len() - 1] {
                    Some(f)
                } else {
                    None
                }
            },
        }
    }
}

/// The files of an added model: each under its file name.
pub open spec fn custom_files(files: Seq<Seq<char>>) -> Seq<RemoteFile<Seq<char>>> {
    files.map_values(|f: Seq<char>| RemoteFile { url: f, name: file_name(f) })
}

/// The first of `files`, from `from` on, whose name tells that it holds an audio
/// encoder.
pub open spec fn first_mmproj(files: Seq<RemoteFile<Seq<char>>>, from: int) -> Option<Seq<char>>
    decreases files.len() - from,
{
    if from < 0 || from >= files.len() {
        None
    } else if text::has(text::lowercase(files[from].name), "mmproj"@) {
        Some(files[from].name)
    } else {
        first_mmproj(files, from + 1)
    }
}

/// The file with the audio encoder of an added model for llama.cpp: the first file
/// after the main one whose name says so, or else the second file.
pub open spec fn mmproj_of(engine: EngineKind, files: Seq<RemoteFile<Seq<char>>>) -> Option<
    Seq<char>,
> {
    if engine != EngineKind::LlamaCpp {
        None
    } else {
        match first_mmproj(files, 1) {
            Some(f) => Some(f),
            None => if files.len() > 1 {
                Some(files[1].name)
            } else {
                None
            },
        }
    }
}

/// The identifier of an added model with the trimmed name `name`; a number made
/// from the time is added to it where it is taken.
pub open spec fn custom_id(added: Seq<ModelView>, name: Seq<char>, now_secs: u64) -> Seq<char> {
    let id = "custom-"@ + slug_of(name);
    if first_with_id(all_models(added), id) is Some {
        id + "-"@ + text::decimal((now_secs % 100000) as nat)
    } else {
        id
    }
}

/// `o`, unless it is blank.
pub open spec fn unless_blank(o: Option<Seq<char>>) -> Option<Seq<char>> {
    match o {
        Some(s) => if text::is_blank(s) {
            None
        } else {
            Some(s)
        },
        None => None,
    }
}

/// The model that the user adds.
pub open spec fn custom_model(
    added: Seq<ModelView>,
    input: CustomModelInput,
    now_secs: u64,
) -> ModelView {
    let files = custom_files(given_files(text::texts(input.files@)));
    ModelView {
        id: custom_id(added, text::trimmed(input.name@), now_secs),
        name: text::trimmed(input.name@),
        description: "Modèle ajouté manuellement. Pas de score de référence."@,
        size_label: "—"@,
        params: "—"@,
        languages: match unless_blank(engine::opt_text(input.languages)) {
            Some(l) => l,
            None => "—"@,
        },
        license: "—"@,
        engine: input.engine,
        files,
        main_file: files[0].name,
        mmproj_file: mmproj_of(input.engine, files),
        prompt: unless_blank(engine::opt_text(input.prompt)),
        output: input.output,
        bench: None,
        recommended: false,
        custom: true,
    }
}

/// Why the model `input` cannot be added, if so.
pub open spec fn custom_refusal(input: CustomModelInput, absolute: Seq<bool>) -> Option<
    CustomError<Seq<char>>,
> {
    if text::is_blank(input.name@) {
        Some(CustomError::NoName)
    } else if given_files(text::texts(input.files@)).len() == 0 {
        Some(CustomError::NoFile)
    } else {
        match first_bad_file(text::texts(input.files@), absolute) {
            Some(f) => Some(CustomError::BadFile(f)),
            None => None,
        }
    }
}

fn keep_unless_blank(o: &Option<String>) -> (r: Option<String>)
    ensures
        engine::opt_text(r) == unless_blank(engine::opt_text(*o)),
{
    match o {
        Some(s) => if text::blank(s.as_str()) {
            None
        } else {
            Some(s.clone())
        },
        None => None,
    }
}

/// The given files, each under its file name.
fn remote_files(files: &Vec<String>) -> (r: Vec<RemoteFile>)
    ensures
        file_views(r@) == custom_files(given_files(text::texts(files@))),
{
    let mut r: Vec<RemoteFile> = Vec::new();
    let mut i: usize = 0;
    let ghost all = text::texts(files@);
    assert(all.take(0).len() == 0);
    assert(file_views(r@) == custom_files(given_files(all.take(0))));
    while i < files.len()
        invariant
            i <= files.len(),
            all == text::texts(files@),
            file_views(r@) == custom_files(given_files(all.take(i as int))),
        decreases files.len() - i,
    {
        let f = text::trim(files[i].as_str());
        let ghost before = r@;
        assert(all.take(i + 1).drop_last() == all.take(i as int));
        assert(all.take(i + 1).last() == files@[i as int]@);
        let ghost t = given_files(all.take(i as int));
        if !f.as_str().is_empty() {
            let name = file_name_of(f.as_str());
            r.push(RemoteFile { url: f, name });
            assert(file_views(r@) == file_views(before).push(r@.last()@));
            assert(custom_files(t.push(f@)) == custom_files(t).push(r@.last()@));
        }
        i = i + 1;
    }
    assert(all.take(files@.len() as int) == all);
    r
}

/// The first file, trimmed, that is neither a URL nor an absolute path.
fn bad_file(files: &Vec<String>, absolute: &Vec<bool>) -> (r: Option<String>)
    requires
        absolute.len() == files.len(),
    ensures
        engine::opt_text(r) == first_bad_file(text::texts(files@), absolute@),
{
    let ghost all = text::texts(files@);
    let mut i: usize = 0;
    assert(all.take(0).len() == 0);
    while i < files.len()
        invariant
            i <= files.len(),
            absolute.len() == files.len(),
            all == text::texts(files@),
            first_bad_file(all.take(i as int), absolute@) is None,
        decreases files.len() - i,
    {
        let f = text::trim(files[i].as_str());
        assert(all.take(i + 1).drop_last() == all.take(i as int));
        assert(all.take(i + 1).last() == files@[i as int]@);
        if !f.as_str().is_empty() && is_local(f.as_str()) && !absolute[i] {
            proof {
                lemma_bad_file_extends(all, absolute@, i + 1);
            }
            return Some(f);
        }
        i = i + 1;
    }
    assert(all.take(files@.len() as int) == all);
    None
}

proof fn lemma_bad_file_extends(files: Seq<Seq<char>>, absolute: Seq<bool>, k: int)
    requires
        0 <= k <= files.len(),
        first_bad_file(files.take(k), absolute) is Some,
    ensures
        first_bad_file(files, absolute) == first_bad_file(files.take(k), absolute),
    decreases files.len(),
{
    if k == files.len() {
        assert(files.take(k) == files);
    } else {
        assert(files.drop_last().take(k) == files.take(k));
        lemma_bad_file_extends(files.drop_last(), absolute, k);
    }
}

fn find_mmproj(engine: EngineKind, files: &Vec<RemoteFile>) -> (r: Option<String>)
    ensures
        engine::opt_text(r) == mmproj_of(engine, file_views(files@)),
{
    if engine != EngineKind::LlamaCpp {
        return None;
    }
    let ghost all = file_views(files@);
    let mut i: usize = 1;
    while i < files.len()
        invariant
            1 <= i,
            engine == EngineKind::LlamaCpp,
            all == file_views(files@),
            first_mmproj(all, 1) == first_mmproj(all, i as int),
        decreases files.len() - i,
    {
        let lower = text::to_lowercase(files[i].name.as_str());
        if text::contains(lower.as_str(), "mmproj") {
            return Some(files[i].name.clone());
        }
        i = i + 1;
    }
    if files.len() > 1 {
        Some(files[1].name.clone())
    } else {
        None
    }
}

fn position_of(list: &Vec<ModelSpec>, id: &str) -> (r: Option<usize>)
    ensures
        match r {
            Some(i) => i < list.len() && first_with_id(model_views(list@), id@) == Some(
                list@[i as int]@,
            ),
            None => first_with_id(model_views(list@), id@) is None,
        },
{
    let ghost all = model_views(list@);
    let mut i: usize = 0;
    assert(all.skip(0) == all);
    while i < list.len()
        invariant
            i <= list.len(),
            all == model_views(list@),
            first_with_id(all, id@) == first_with_id(all.skip(i as int), id@),
        decreases list.len() - i,
    {
        assert(all.skip(i as int)[0] == list@[i as int]@);
        assert(all.skip(i as int).drop_first() == all.skip(i + 1));
        if text::same(list[i].id.as_str(), id) {
            return Some(i);
        }
        i = i + 1;
    }
    None
}

impl Registry {
    /// A registry with no models.
    pub fn new() -> (r: Self)
        ensures
            r@ == Seq::<ModelView>::empty(),
    {
        let r = Registry { custom: Vec::new() };
        assert(r@ == Seq::<ModelView>::empty());
        r
    }

    /// A registry with the models that were stored, or none where they could not be
    /// read.
    pub fn load_custom(stored: Option<Vec<ModelSpec>>) -> (r: Self)
        ensures
            match stored {
                Some(list) => r@ == model_views(list@),
                None => r@ == Seq::<ModelView>::empty(),
            },
    {
        match stored {
            Some(list) => Registry { custom: list },
            None => Registry::new(),
        }
    }

    /// All models, those that come with the application first.
    pub fn catalog(&self) -> (r: Vec<ModelSpec>)
        ensures
            model_views(r@) == all_models(self@),
    {
        let mut r = catalog::builtin();
        let mut i: usize = 0;
        assert(catalog::builtin_views() + self@.take(0) == catalog::builtin_views());
        while i < self.custom.len()
            invariant
                i <= self.custom.len(),
                model_views(r@) == catalog::builtin_views() + self@.take(i as int),
            decreases self.custom.len() - i,
        {
            let ghost before = r@;
            r.push(self.custom[i].copy());
            i = i + 1;
            assert(model_views(r@) == model_views(before).push(self.custom@[i - 1]@));
            assert(self@.take(i as int) == self@.take(i - 1).push(self.custom@[i - 1]@));
        }
        assert(self@.take(self@.len() as int) == self@);
        r
    }

    /// The first model with the identifier `id`.
    pub fn find(&self, id: &str) -> (r: Option<ModelSpec>)
        ensures
            match r {
                Some(m) => first_with_id(all_models(self@), id@) == Some(m@),
                None => first_with_id(all_models(self@), id@) is None,
            },
    {
        let all = self.catalog();
        match position_of(&all, id) {
            Some(i) => Some(all[i].copy()),
            None => None,
        }
    }

    /// Adds the model `input`, unless its name or its files do not do. `absolute`
    /// tells of each file, trimmed, whether it is an absolute path; `now_secs` is
    /// the time.
    pub fn add_custom(
        &mut self,
        input: &CustomModelInput,
        absolute: &Vec<bool>,
        now_secs: u64,
    ) -> (r: Result<ModelSpec, CustomError>)
        requires
            absolute.len() == input.files.len(),
        ensures
            match r {
                Ok(m) => {
                    &&& custom_refusal(*input, absolute@) is None
                    &&& m@ == custom_model(old(self)@, *input, now_secs)
                    &&& final(self)@ == old(self)@.push(m@)
                },
                Err(e) => {
                    &&& custom_refusal(*input, absolute@) == Some(e@)
                    &&& final(self)@ == old(self)@
                },
            },
    {
        let name = text::trim(input.name.as_str());
        if name.as_str().is_empty() {
            return Err(CustomError::NoName);
        }
        let files = remote_files(&input.files);
        assert(file_views(files@).len() == files@.len());
        if files.len() == 0 {
            return Err(CustomError::NoFile);
        }
        if let Some(f) = bad_file(&input.files, absolute) {
            return Err(CustomError::BadFile(f));
        }
        let part = slug(name.as_str());
        let mut id = text::concat("custom-", part.as_str());
        if self.find(id.as_str()).is_some() {
            id.append("-");
            let number = text::decimal_of(now_secs % 100000);
            id.append(number.as_str());
        }
        let languages = match keep_unless_blank(&input.languages) {
            Some(l) => l,
            None => "—".to_string(),
        };
        let main_file = files[0].name.clone();
        assert(main_file@ == file_views(files@)[0].name);
        let mmproj_file = find_mmproj(input.engine, &files);
        let spec = ModelSpec {
            id,
            name,
            description: "Modèle ajouté manuellement. Pas de score de référence.".to_string(),
            size_label: "—".to_string(),
            params: "—".to_string(),
            languages,
            license: "—".to_string(),
            engine: input.engine,
            files,
            main_file,
            mmproj_file,
            prompt: keep_unless_blank(&input.prompt),
            output: input.output,
            bench: None,
            recommended: false,
            custom: true,
        };
        let ghost before = self.custom@;
        self.custom.push(spec.copy());
        assert(model_views(self.custom@) == model_views(before).push(spec@));
        Ok(spec)
    }

    /// Takes out every added model with the identifier `id`.
    pub fn remove_custom(&mut self, id: &str)
        ensures
            final(self)@ == without_id(old(self)@, id@),
    {
        let mut kept: Vec<ModelSpec> = Vec::new();
        let ghost all = self@;
        let mut i: usize = 0;
        assert(all.take(0).len() == 0);
        assert(model_views(kept@) == without_id(all.take(0), id@));
        while i < self.custom.len()
            invariant
                i <= self.custom.len(),
                all == model_views(self.custom@),
                model_views(kept@) == without_id(all.take(i as int), id@),
            decreases self.custom.len() - i,
        {
            let ghost before = kept@;
            assert(all.take(i + 1).drop_last() == all.take(i as int));
            assert(all.take(i + 1).last() == self.custom@[i as int]@);
            if !text::same(self.custom[i].id.as_str(), id) {
                kept.push(self.custom[i].copy());
                assert(model_views(kept@) == model_views(before).push(self.custom@[i as int]@));
            }
            i = i + 1;
        }
        assert(all.take(all.len() as int) == all);
        self.custom = kept;
    }
}

proof fn lemma_find_in_longer(list: Seq<ModelView>, m: ModelView, id: Seq<char>)
    ensures
        first_with_id(list.push(m), id) == match first_with_id(list, id) {
            Some(x) => Some(x),
            None => if m.id == id {
                Some(m)
            } else {
                None
            },
        },
    decreases list.len(),
{
    if list.len() == 0 {
        assert(list.push(m).drop_first() == Seq::<ModelView>::empty());
        assert(list.push(m)[0] == m);
    } else {
        assert(list.push(m).drop_first() == list.drop_first().push(m));
        lemma_find_in_longer(list.drop_first(), m, id);
    }
}

/// A model that was added under an identifier that was free is found under it; the
/// models that could be found before are found as before.
pub proof fn added_models_are_found(added: Seq<ModelView>, m: ModelView, id: Seq<char>)
    ensures
        first_with_id(all_models(added), id) is None && m.id == id ==> first_with_id(
            all_models(added.push(m)),
            id,
        ) == Some(m),
        first_with_id(all_models(added), id) is Some ==> first_with_id(
            all_models(added.push(m)),
            id,
        ) == first_with_id(all_models(added), id),
{
    assert(all_models(added.push(m)) == all_models(added).push(m));
    lemma_find_in_longer(all_models(added), m, id);
}

/// After a removal no added model has the identifier any more, and the others are
/// still there, in their order.
pub proof fn removed_models_are_gone(added: Seq<ModelView>, id: Seq<char>)
    ensures
        forall|i: int|
            0 <= i < without_id(added, id).len() ==> (#[trigger] without_id(added, id)[i]).id != id,
        without_id(added, id) == added.filter(|m: ModelView| m.id != id),
    decreases added.len(),
{
    reveal(Seq::filter);
    if added.len() > 0 {
        removed_models_are_gone(added.drop_last(), id);
    }
}

/// Removing the model that was just added leaves the others as they were, where
/// none of them has its identifier.
pub proof fn removal_undoes_addition(added: Seq<ModelView>, m: ModelView)
    requires
        forall|i: int| 0 <= i < added.len() ==> (#[trigger] added[i]).id != m.id,
    ensures
        without_id(added.push(m), m.id) == added,
{
    assert(added.push(m).drop_last() == added);
    lemma_without_nothing(added, m.id);
}

proof fn lemma_without_nothing(list: Seq<ModelView>, id: Seq<char>)
    requires
        forall|i: int| 0 <= i < list.len() ==> (#[trigger] list[i]).id != id,
    ensures
        without_id(list, id) == list,
    decreases list.len(),
{
    if list.len() > 0 {
        lemma_without_nothing(list.drop_last(), id);
        assert(list.drop_last().push(list.last()) == list);
    }
}

// ---------------------------------------------------------------------------
// The files of a model on this machine
// ---------------------------------------------------------------------------

/// The directory of the model `id`.
pub fn model_dir(id: &str) -> (p: Place)
    ensures
        p@ == (PlaceView { root: Root::Models, parts: seq![id@] }),
{
    below1(Root::Models, id)
}

/// The size, in bytes, that a file of a model must exceed to count as present.
pub const LEAST_FILE_SIZE: u64 = 1024;

/// Whether each of the files of a model has a size that counts as present.
pub open spec fn all_present(sizes: Seq<Option<u64>>) -> bool {
    forall|i: int|
        0 <= i < sizes.len() ==> (#[trigger] sizes[i] matches Some(n) && n > LEAST_FILE_SIZE)
}

/// Whether all files of `spec` are there: `sizes` gives the size of each of them,
/// or nothing where it is missing.
pub fn is_downloaded(spec: &ModelSpec, sizes: &Vec<Option<u64>>) -> (b: bool)
    requires
        sizes.len() == spec.files.len(),
    ensures
        b == all_present(sizes@),
{
    let mut i: usize = 0;
    while i < sizes.len()
        invariant
            i <= sizes.len(),
            forall|j: int|
                0 <= j < i ==> (#[trigger] sizes@[j] matches Some(n) && n > LEAST_FILE_SIZE),
        decreases sizes.len() - i,
    {
        let present = match sizes[i] {
            Some(n) => n > LEAST_FILE_SIZE,
            None => false,
        };
        if !present {
            assert(!(sizes@[i as int] matches Some(n) && n > LEAST_FILE_SIZE));
            return false;
        }
        i = i + 1;
    }
    true
}

// ---------------------------------------------------------------------------
// Laws
// ---------------------------------------------------------------------------

/// The name of a file is what stands behind the last separator of its address, without
/// the slashes at the end and without what follows a question mark.
pub proof fn files_are_named_by_their_address(
    dir: Seq<char>,
    sep: char,
    name: Seq<char>,
    query: Seq<char>,
    slashes: Seq<char>,
)
    requires
        sep == '/' || sep == '\\',
        name.len() > 0,
        forall|i: int|
            0 <= i < name.len() ==> #[trigger] name[i] != '/' && name[i] != '\\' && name[i] != '?',
        query.len() > 0 ==> query[0] == '?',
        forall|i: int| 0 <= i < query.len() ==> #[trigger] query[i] != '/' && query[i] != '\\',
        forall|i: int| 0 <= i < slashes.len() ==> #[trigger] slashes[i] == '/',
    ensures
        file_name(dir + seq![sep] + name + query + slashes) == name,
        file_name(name + query + slashes) == name,
{
    let end = name + query;
    let a = dir + seq![sep];
    let s = a + name + query + slashes;
    let k = a.len() + end.len();
    assert forall|i: int| k <= i < s.len() implies #[trigger] s[i] == '/' by {
        assert(s[i] == slashes[i - k]);
    }
    assert(s[k - 1] == end.last());
    assert(end.last() != '/') by {
        if query.len() > 0 {
            assert(end.last() == query[query.len() - 1]);
        } else {
            assert(end.last() == name[name.len() - 1]);
        }
    }
    lemma_without_trailing_at(s, '/', k as int);
    let t = s.subrange(0, k as int);
    assert(t == a + end);
    let b = a.len() as int;
    assert forall|i: int| b <= i < t.len() implies !is_separator(#[trigger] t[i], true) by {
        assert(t[i] == end[i - b]);
        if i - b < name.len() {
            assert(end[i - b] == name[i - b]);
        } else {
            assert(end[i - b] == query[i - b - name.len()]);
        }
    }
    assert(t[b - 1] == sep);
    last_part_at(t, true, b);
    assert(t.subrange(b, t.len() as int) == end);
    lemma_name_of_end(name, query);
    let s2 = end + slashes;
    let n = end.len() as int;
    assert forall|i: int| n <= i < s2.len() implies #[trigger] s2[i] == '/' by {
        assert(s2[i] == slashes[i - n]);
    }
    assert(s2[n - 1] == end.last());
    lemma_without_trailing_at(s2, '/', n);
    assert(s2.subrange(0, n) == end);
    assert forall|i: int| 0 <= i < end.len() implies !is_separator(#[trigger] end[i], true) by {
        assert(t[i + b] == end[i]);
    }
    last_part_at(end, true, 0);
    assert(end.subrange(0, n) == end);
}

proof fn lemma_name_of_end(name: Seq<char>, query: Seq<char>)
    requires
        forall|i: int| 0 <= i < name.len() ==> #[trigger] name[i] != '?',
        query.len() > 0 ==> query[0] == '?',
    ensures
        up_to(name + query, '?') == name,
{
    let end = name + query;
    assert forall|i: int| 0 <= i < name.len() implies #[trigger] end[i] != '?' by {
        assert(end[i] == name[i]);
    }
    lemma_up_to_at(end, '?', name.len() as int);
    assert(end.subrange(0, name.len() as int) == name);
}

/// A file is on this machine unless its address is one of the web.
pub proof fn web_addresses_are_not_local(rest: Seq<char>, url: Seq<char>)
    ensures
        !local("http://"@ + rest),
        !local("https://"@ + rest),
        !local(url) ==> (exists|x: Seq<char>| url == #[trigger] ("http://"@ + x)) || (exists|
            x: Seq<char>,
        | url == #[trigger] ("https://"@ + x)),
{
    let (a, b) = ("http://"@, "https://"@);
    assert((a + rest).subrange(0, a.len() as int) == a);
    assert((b + rest).subrange(0, b.len() as int) == b);
    if text::begins(url, a) {
        assert(url == a + url.skip(a.len() as int));
    }
    if text::begins(url, b) {
        assert(url == b + url.skip(b.len() as int));
    }
}

/// A model is found by its identifier: the first one that has it, and none only where
/// there is none.
pub proof fn models_are_found_by_identifier(
    before: Seq<ModelView>,
    m: ModelView,
    behind: Seq<ModelView>,
)
    requires
        forall|i: int| 0 <= i < before.len() ==> (#[trigger] before[i]).id != m.id,
    ensures
        first_with_id(before + seq![m] + behind, m.id) == Some(m),
        first_with_id(before, m.id) is None,
    decreases before.len(),
{
    let all = before + seq![m] + behind;
    if before.len() > 0 {
        let rest = before.drop_first();
        assert forall|i: int| 0 <= i < rest.len() implies (#[trigger] rest[i]).id != m.id by {
            assert(before[i + 1] == rest[i]);
        }
        models_are_found_by_identifier(rest, m, behind);
        assert(all.drop_first() == rest + seq![m] + behind);
        assert(all[0] == before[0]);
    } else {
        assert(all[0] == m);
    }
}

/// The models that come with the application stand in front of the added ones, which
/// keep their order.
pub proof fn added_models_come_last(added: Seq<ModelView>)
    ensures
        all_models(added).take(catalog::builtin_views().len() as int) == catalog::builtin_views(),
        all_models(added).skip(catalog::builtin_views().len() as int) == added,
{
    assert(all_models(added).take(catalog::builtin_views().len() as int)
        == catalog::builtin_views());
    assert(all_models(added).skip(catalog::builtin_views().len() as int) == added);
}

/// Of the files that the user gives, the blank ones do not count; the others do, in their
/// order, without the white space around them.
pub proof fn blank_files_do_not_count(files: Seq<Seq<char>>)
    ensures
        given_files(files) == files.filter(|f: Seq<char>| !text::is_blank(f)).map_values(
            |f: Seq<char>| text::trimmed(f),
        ),
    decreases files.len(),
{
    reveal(Seq::filter);
    let keep = |f: Seq<char>| !text::is_blank(f);
    let trim = |f: Seq<char>| text::trimmed(f);
    if files.len() > 0 {
        let front = files.drop_last();
        blank_files_do_not_count(front);
        assert(given_files(front) == front.filter(keep).map_values(trim));
        if keep(files.last()) {
            assert(files.filter(keep) == front.filter(keep).push(files.last()));
            assert(front.filter(keep).push(files.last()).map_values(trim) == front.filter(
                keep,
            ).map_values(trim).push(trim(files.last())));
        } else {
            assert(files.filter(keep) == front.filter(keep));
        }
    } else {
        assert(files.filter(keep).map_values(trim) == Seq::<Seq<char>>::empty());
    }
}

/// A file on this machine has to be given by its whole path: the first one that is not is
/// refused, and none where there is no such file.
pub proof fn files_need_a_whole_path(files: Seq<Seq<char>>, absolute: Seq<bool>, k: int)
    requires
        0 <= k <= files.len() <= absolute.len(),
        forall|i: int|
            0 <= i < k ==> text::is_blank(#[trigger] files[i]) || !local(text::trimmed(files[i]))
                || absolute[i],
        k < files.len() ==> !text::is_blank(files[k]) && local(text::trimmed(files[k]))
            && !absolute[k],
    ensures
        first_bad_file(files, absolute) == if k < files.len() {
            Some(text::trimmed(files[k]))
        } else {
            None
        },
    decreases files.len(),
{
    if files.len() > 0 {
        let front = files.drop_last();
        let j = if k < front.len() {
            k
        } else {
            front.len() as int
        };
        assert forall|i: int| 0 <= i < j implies text::is_blank(#[trigger] front[i]) || !local(
            text::trimmed(front[i]),
        ) || absolute[i] by {
            assert(front[i] == files[i]);
        }
        if k < front.len() {
            assert(front[k] == files[k]);
        }
        files_need_a_whole_path(front, absolute, j);
        if k == files.len() {
            assert(files[k - 1] == files.last());
        }
    }
}

proof fn lemma_first_mmproj(files: Seq<RemoteFile<Seq<char>>>, from: int, k: int)
    requires
        0 <= from <= k <= files.len(),
        forall|i: int|
            from <= i < k ==> !text::has(text::lowercase((#[trigger] files[i]).name), "mmproj"@),
        k < files.len() ==> text::has(text::lowercase(files[k].name), "mmproj"@),
    ensures
        first_mmproj(files, from) == if k < files.len() {
            Some(files[k].name)
        } else {
            None
        },
    decreases k - from,
{
    if from < k {
        assert(!text::has(text::lowercase(files[from].name), "mmproj"@));
        lemma_first_mmproj(files, from + 1, k);
    }
}

/// The projector of a model of llama.cpp is the first of its further files that is named
/// so, or the second file where none is; other engines have none.
pub proof fn projectors_are_found_by_name(files: Seq<RemoteFile<Seq<char>>>, k: int)
    requires
        1 <= k <= files.len(),
        forall|i: int|
            1 <= i < k ==> !text::has(text::lowercase((#[trigger] files[i]).name), "mmproj"@),
        k < files.len() ==> text::has(text::lowercase(files[k].name), "mmproj"@),
    ensures
        k < files.len() ==> mmproj_of(EngineKind::LlamaCpp, files) == Some(files[k].name),
        k == files.len() && k > 1 ==> mmproj_of(EngineKind::LlamaCpp, files) == Some(files[1].name),
        k == files.len() && k == 1 ==> mmproj_of(EngineKind::LlamaCpp, files) is None,
        mmproj_of(EngineKind::WhisperCpp, files) is None,
        mmproj_of(EngineKind::SherpaOnnx, files) is None,
{
    lemma_first_mmproj(files, 1, k);
}

/// An added model is named after the user's name for it, with a number behind it where
/// another model has that identifier.
pub proof fn added_models_are_named(added: Seq<ModelView>, name: Seq<char>, now_secs: u64)
    ensures
        ({
            let id = "custom-"@ + slug_of(name);
            &&& first_with_id(all_models(added), id) is None ==> custom_id(added, name, now_secs) == id
            &&& first_with_id(all_models(added), id) is Some ==> custom_id(added, name, now_secs) != id
                && custom_id(added, name, now_secs) == id + "-"@ + text::decimal(
                (now_secs % 100_000) as nat,
            )
        }),
{
    reveal_strlit("-");
    text::decimals_read_back((now_secs % 100_000) as nat);
    let id = "custom-"@ + slug_of(name);
    assert((id + "-"@ + text::decimal((now_secs % 100_000) as nat)).len() > id.len());
}

/// An added model is what the user gave: the name without the white space around it, the
/// engine, the form of the output, the files that are not blank with the first of them as
/// the main one, and the instruction and the languages where they are not blank.
pub proof fn added_models_are_as_given(
    added: Seq<ModelView>,
    input: CustomModelInput,
    now_secs: u64,
    i: int,
)
    ensures
        ({
            let m = custom_model(added, input, now_secs);
            let given = given_files(text::texts(input.files@));
            &&& m.name == text::trimmed(input.name@)
            &&& m.engine == input.engine && m.output == input.output
            &&& m.custom && !m.recommended && m.bench is None
            &&& m.files.len() == given.len()
            &&& 0 <= i < given.len() ==> m.files[i].url == given[i] && m.files[i].name == file_name(
                given[i],
            )
            &&& given.len() > 0 ==> m.main_file == file_name(given[0])
            &&& input.prompt matches Some(p) ==> (if text::is_blank(p@) {
                m.prompt is None
            } else {
                m.prompt == Some(p@)
            })
            &&& input.prompt is None ==> m.prompt is None
            &&& input.languages matches Some(l) ==> (if text::is_blank(l@) {
                m.languages == "—"@
            } else {
                m.languages == l@
            })
            &&& input.languages is None ==> m.languages == "—"@
        }),
{
}

/// A model is refused without a name, without a file, or with a file on this machine that
/// is not given by its whole path, and only then; the first of these that holds is the
/// reason.
pub proof fn incomplete_models_are_refused(input: CustomModelInput, absolute: Seq<bool>)
    ensures
        ({
            let files = text::texts(input.files@);
            let r = custom_refusal(input, absolute);
            &&& text::is_blank(input.name@) ==> r == Some(CustomError::<Seq<char>>::NoName)
            &&& !text::is_blank(input.name@) && given_files(files).len() == 0 ==> r == Some(
                CustomError::<Seq<char>>::NoFile,
            )
            &&& r matches Some(CustomError::BadFile(f)) ==> first_bad_file(files, absolute) == Some(f)
            &&& r is None <==> !text::is_blank(input.name@) && given_files(files).len() > 0
                && first_bad_file(files, absolute) is None
        }),
{
}

/// A model is there where each of its files is there and is larger than a kilobyte.
pub proof fn models_are_there_with_all_files(sizes: Seq<Option<u64>>, i: int)
    requires
        0 <= i < sizes.len(),
    ensures
        sizes[i] is None ==> !all_present(sizes),
        sizes[i] matches Some(n) ==> n <= 1024 ==> !all_present(sizes),
        (forall|j: int| 0 <= j < sizes.len() ==> (#[trigger] sizes[j]) is Some && sizes[j].unwrap() > 1024)
            ==> all_present(sizes),
{
    assert(all_present(sizes) ==> (sizes[i] matches Some(n) && n > 1024));
}

/// A text of words, with other characters in front of each word and behind the last.
pub open spec fn spelled(gaps: Seq<Seq<char>>, words: Seq<Seq<char>>) -> Seq<char>
    decreases words.len(),
{
    if words.len() == 0 {
        gaps[0]
    } else {
        spelled(gaps.drop_last(), words.drop_last()) + words.last() + gaps.last()
    }
}

/// Whether words are made of plain characters, and what is between them of others, with
/// at least one of these between two words.
pub open spec fn is_spelled(gaps: Seq<Seq<char>>, words: Seq<Seq<char>>) -> bool {
    &&& gaps.len() == words.len() + 1
    &&& forall|i: int| 0 < i < words.len() ==> (#[trigger] gaps[i]).len() > 0
    &&& forall|i: int| 0 <= i < words.len() ==> (#[trigger] words[i]).len() > 0
    &&& forall|i: int, j: int|
        0 <= i < words.len() && 0 <= j < words[i].len() ==> is_plain(#[trigger] words[i][j])
    &&& forall|i: int, j: int|
        0 <= i < gaps.len() && 0 <= j < gaps[i].len() ==> !is_plain(#[trigger] gaps[i][j])
}

proof fn lemma_dashed_word(t: Seq<char>, w: Seq<char>)
    requires
        forall|j: int| 0 <= j < w.len() ==> is_plain(#[trigger] w[j]),
    ensures
        dashed(t + w) == dashed(t) + w,
    decreases w.len(),
{
    if w.len() == 0 {
        assert(t + w == t);
        assert(dashed(t) + w == dashed(t));
    } else {
        let front = w.drop_last();
        assert((t + w).drop_last() == t + front);
        assert(is_plain(w[w.len() - 1]));
        lemma_dashed_word(t, front);
        assert((dashed(t) + front).push(w.last()) == dashed(t) + w);
    }
}

proof fn lemma_dashed_gap(t: Seq<char>, g: Seq<char>)
    requires
        g.len() > 0,
        forall|j: int| 0 <= j < g.len() ==> !is_plain(#[trigger] g[j]),
    ensures
        dashed(t + g) == if dashed(t).len() > 0 && dashed(t).last() == '-' {
            dashed(t)
        } else {
            dashed(t).push('-')
        },
    decreases g.len(),
{
    let front = g.drop_last();
    assert((t + g).drop_last() == t + front);
    assert(!is_plain(g[g.len() - 1]));
    if front.len() == 0 {
        assert(t + front == t);
    } else {
        lemma_dashed_gap(t, front);
    }
}

/// A dash where `gap` holds anything.
pub open spec fn dash_for(gap: Seq<char>) -> Seq<char> {
    if gap.len() > 0 {
        seq!['-']
    } else {
        Seq::empty()
    }
}

proof fn lemma_dashed_words(gaps: Seq<Seq<char>>, words: Seq<Seq<char>>)
    requires
        is_spelled(gaps, words),
    ensures
        words.len() == 0 ==> dashed(spelled(gaps, words)) == dash_for(gaps[0]),
        words.len() > 0 ==> dashed(spelled(gaps, words)) == dash_for(gaps[0]) + text::joined(
            words,
            seq!['-'],
        ) + dash_for(gaps.last()),
    decreases words.len(),
{
    let lead = dash_for(gaps[0]);
    let none = Seq::<char>::empty();
    if words.len() == 0 {
        assert(none + gaps[0] == gaps[0]);
        if gaps[0].len() > 0 {
            lemma_dashed_gap(none, gaps[0]);
            assert(none.push('-') == seq!['-']);
        }
    } else {
        let (fg, fw) = (gaps.drop_last(), words.drop_last());
        let (w, g) = (words.last(), gaps.last());
        let n = words.len() as int;
        assert(is_spelled(fg, fw)) by {
            assert forall|i: int| 0 < i < fw.len() implies (#[trigger] fg[i]).len() > 0 by {
                assert(fg[i] == gaps[i]);
            }
            assert forall|i: int, j: int|
                0 <= i < fw.len() && 0 <= j < fw[i].len() implies is_plain(#[trigger] fw[i][j]) by {
                assert(fw[i] == words[i]);
                assert(is_plain(words[i][j]));
            }
            assert forall|i: int, j: int|
                0 <= i < fg.len() && 0 <= j < fg[i].len() implies !is_plain(
                #[trigger] fg[i][j],
            ) by {
                assert(fg[i] == gaps[i]);
                assert(!is_plain(gaps[i][j]));
            }
        }
        lemma_dashed_words(fg, fw);
        let t = spelled(fg, fw);
        assert forall|j: int| 0 <= j < w.len() implies is_plain(#[trigger] w[j]) by {
            assert(is_plain(words[n - 1][j]));
        }
        lemma_dashed_word(t, w);
        assert(fg[0] == gaps[0]);
        let body = text::joined(words, seq!['-']);
        if n > 1 {
            assert(fg.last() == gaps[n - 1]);
            assert(gaps[n - 1].len() > 0);
            text::parts_join_in_turn(fw, seq![w], seq!['-']);
            assert(fw + seq![w] == words);
            assert(text::joined(seq![w], seq!['-']) == w);
            assert(lead + text::joined(fw, seq!['-']) + seq!['-'] + w == lead + body);
        } else {
            assert(body == w);
        }
        assert(dashed(t + w) == lead + body);
        assert(words[n - 1].len() > 0);
        assert((lead + body).last() == w.last()) by {
            assert(dashed(t + w) == dashed(t) + w);
        }
        assert(is_plain(w[w.len() - 1]));
        if g.len() > 0 {
            assert forall|j: int| 0 <= j < g.len() implies !is_plain(#[trigger] g[j]) by {
                assert(!is_plain(gaps[n][j]));
            }
            lemma_dashed_gap(t + w, g);
            assert((lead + body).push('-') == lead + body + seq!['-']);
        } else {
            assert(t + w + g == t + w);
            assert(lead + body + dash_for(g) == lead + body);
        }
    }
}

/// The slug of a name is made of its words in lower case, letters and digits, with one
/// dash between two of them, whatever stands between them, and nothing at the ends.
pub proof fn slugs_are_dashed_words(name: Seq<char>, gaps: Seq<Seq<char>>, words: Seq<Seq<char>>)
    requires
        is_spelled(gaps, words),
        text::lowercase(name) == spelled(gaps, words),
    ensures
        slug_of(name) == text::joined(words, seq!['-']),
{
    lemma_dashed_words(gaps, words);
    let (lead, trail) = (dash_for(gaps[0]), dash_for(gaps.last()));
    let body = text::joined(words, seq!['-']);
    if words.len() == 0 {
        assert(without_first_dash(dash_for(gaps[0])) == Seq::<char>::empty());
        assert(body == Seq::<char>::empty());
    } else {
        lemma_joined_ends(words);
        let all = lead + body + trail;
        if gaps[0].len() > 0 {
            assert(all[0] == '-');
            assert(all.drop_first() == body + trail);
        } else {
            assert(all == body + trail);
            assert(all[0] == body[0]);
        }
        let rest = body + trail;
        if gaps.last().len() > 0 {
            assert(rest.last() == '-');
            assert(rest.drop_last() == body);
        } else {
            assert(rest == body);
        }
    }
}

proof fn lemma_joined_ends(words: Seq<Seq<char>>)
    requires
        words.len() > 0,
        forall|i: int| 0 <= i < words.len() ==> (#[trigger] words[i]).len() > 0,
        forall|i: int, j: int|
            0 <= i < words.len() && 0 <= j < words[i].len() ==> is_plain(#[trigger] words[i][j]),
    ensures
        ({
            let body = text::joined(words, seq!['-']);
            body.len() > 0 && body[0] != '-' && body.last() != '-'
        }),
    decreases words.len(),
{
    let n = words.len() as int;
    assert(words[0].len() > 0 && words[n - 1].len() > 0);
    assert(is_plain(words[0][0]));
    assert(is_plain(words[n - 1][words[n - 1].len() - 1]));
    if n > 1 {
        let fw = words.drop_last();
        assert forall|i: int, j: int|
            0 <= i < fw.len() && 0 <= j < fw[i].len() implies is_plain(#[trigger] fw[i][j]) by {
            assert(fw[i] == words[i]);
            assert(is_plain(words[i][j]));
        }
        lemma_joined_ends(fw);
        let a = text::joined(fw, seq!['-']);
        assert((a + seq!['-'] + words.last())[0] == a[0]);
    }
}

/// The characters that a slug keeps are the letters from A to Z, large and small, and the
/// digits.
pub proof fn letters_and_digits_are_plain(c: char)
    ensures
        is_plain(c) <==> ('a' <= c && c <= 'z') || ('A' <= c && c <= 'Z') || ('0' <= c && c <= '9'),
{
}

}
