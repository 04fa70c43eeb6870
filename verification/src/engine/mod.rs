//! The inference engines: which there are, what they are called, where their
//! server programs are looked for, and what state one is in.
pub mod command;
pub mod install;
pub mod llama;
pub mod sherpa;
pub mod sidecar;
pub mod startup;
pub mod whisper;

use crate::platform::{below1, below2, below3, below4, given, Os, Place, PlaceView, Root};
use crate::text;
use vstd::prelude::*;

verus! {

/// A speech recognition runtime.
#[derive(Debug, Clone, Copy, PartialEq, Eq, Hash, Structural)]
pub enum EngineKind {
    LlamaCpp,
    WhisperCpp,
    SherpaOnnx,
}

impl EngineKind {
    /// The identifier of the engine, used in settings and file names.
    pub open spec fn id_text(self) -> Seq<char> {
        match self {
            EngineKind::LlamaCpp => "llama-cpp"@,
            EngineKind::WhisperCpp => "whisper-cpp"@,
            EngineKind::SherpaOnnx => "sherpa-onnx"@,
        }
    }

    /// The name of the engine, for display.
    pub open spec fn label_text(self) -> Seq<char> {
        match self {
            EngineKind::LlamaCpp => "llama.cpp"@,
            EngineKind::WhisperCpp => "whisper.cpp"@,
            EngineKind::SherpaOnnx => "sherpa-onnx"@,
        }
    }

    /// The name of the server program.
    pub open spec fn binary_text(self) -> Seq<char> {
        match self {
            EngineKind::LlamaCpp => "llama-server"@,
            EngineKind::WhisperCpp => "whisper-server"@,
            EngineKind::SherpaOnnx => "sherpa-onnx-offline-websocket-server"@,
        }
    }

    /// How to install the runtime on `os`.
    pub open spec fn hint_text(self, os: Os) -> Seq<char> {
        match self {
            EngineKind::LlamaCpp => if os == Os::MacOs {
                "brew install llama.cpp"@
            } else {
                "Téléchargez llama.cpp (release GitHub) et indiquez le chemin de llama-server.exe"@
            },
            EngineKind::WhisperCpp => if os == Os::MacOs {
                "brew install whisper-cpp"@
            } else {
                "Téléchargez whisper.cpp (release GitHub) et indiquez le chemin de whisper-server.exe"@
            },
            EngineKind::SherpaOnnx => "Téléchargé automatiquement au premier démarrage"@,
        }
    }

    /// Every engine, in the order in which they are shown.
    pub fn all() -> (r: [EngineKind; 3])
        ensures
            r@ == seq![EngineKind::LlamaCpp, EngineKind::WhisperCpp, EngineKind::SherpaOnnx],
    {
        [EngineKind::LlamaCpp, EngineKind::WhisperCpp, EngineKind::SherpaOnnx]
    }

    /// The identifier of the engine.
    pub fn id(&self) -> (r: &'static str)
        ensures
            r@ == self.id_text(),
    {
        match self {
            EngineKind::LlamaCpp => "llama-cpp",
            EngineKind::WhisperCpp => "whisper-cpp",
            EngineKind::SherpaOnnx => "sherpa-onnx",
        }
    }

    /// The name of the engine, for display.
    pub fn label(&self) -> (r: &'static str)
        ensures
            r@ == self.label_text(),
    {
        match self {
            EngineKind::LlamaCpp => "llama.cpp",
            EngineKind::WhisperCpp => "whisper.cpp",
            EngineKind::SherpaOnnx => "sherpa-onnx",
        }
    }

    /// The name of the server program.
    pub fn binary(&self) -> (r: &'static str)
        ensures
            r@ == self.binary_text(),
    {
        match self {
            EngineKind::LlamaCpp => "llama-server",
            EngineKind::WhisperCpp => "whisper-server",
            EngineKind::SherpaOnnx => "sherpa-onnx-offline-websocket-server",
        }
    }

    /// The environment variable that may give the path of the server program.
    pub fn env_var(&self) -> (r: &'static str)
        ensures
            *self == EngineKind::LlamaCpp ==> r@ == "MURMURE_LLAMA_SERVER"@,
            *self == EngineKind::WhisperCpp ==> r@ == "MURMURE_WHISPER_SERVER"@,
            *self == EngineKind::SherpaOnnx ==> r@ == "MURMURE_SHERPA_ONNX"@,
    {
        match self {
            EngineKind::LlamaCpp => "MURMURE_LLAMA_SERVER",
            EngineKind::WhisperCpp => "MURMURE_WHISPER_SERVER",
            EngineKind::SherpaOnnx => "MURMURE_SHERPA_ONNX",
        }
    }

    /// How to install the runtime on `os` where it is missing.
    pub fn install_hint(&self, os: Os) -> (r: &'static str)
        ensures
            r@ == self.hint_text(os),
    {
        match self {
            EngineKind::LlamaCpp => if os == Os::MacOs {
                "brew install llama.cpp"
            } else {
                "Téléchargez llama.cpp (release GitHub) et indiquez le chemin de llama-server.exe"
            },
            EngineKind::WhisperCpp => if os == Os::MacOs {
                "brew install whisper-cpp"
            } else {
                "Téléchargez whisper.cpp (release GitHub) et indiquez le chemin de whisper-server.exe"
            },
            EngineKind::SherpaOnnx => "Téléchargé automatiquement au premier démarrage",
        }
    }
}

/// Two engines never share an identifier.
pub proof fn identifiers_are_distinct(a: EngineKind, b: EngineKind)
    ensures
        a.id_text() == b.id_text() ==> a == b,
{
    reveal_strlit("llama-cpp");
    reveal_strlit("whisper-cpp");
    reveal_strlit("sherpa-onnx");
    assert("llama-cpp"@.len() == 9);
    assert("whisper-cpp"@[0] == 'w');
    assert("sherpa-onnx"@[0] == 's');
    assert("whisper-cpp"@.len() == 11);
}

/// What an engine is doing.
#[derive(Debug, Clone, Copy, PartialEq, Eq, Structural)]
pub enum EngineState {
    Stopped,
    Starting,
    Ready,
    Error,
}

/// The state of an engine, as it is shown to the user.
#[derive(Debug, Clone)]
pub struct EngineStatus<T = String> {
    pub state: EngineState,
    pub message: T,
    pub model_id: Option<T>,
    pub port: Option<u16>,
    pub runtime_path: Option<T>,
}

/// The text that an optional string holds.
pub open spec fn opt_text(o: Option<String>) -> Option<Seq<char>> {
    match o {
        Some(s) => Some(s@),
        None => None,
    }
}

impl View for EngineStatus {
    type V = EngineStatus<Seq<char>>;

    open spec fn view(&self) -> EngineStatus<Seq<char>> {
        EngineStatus {
            state: self.state,
            message: self.message@,
            model_id: opt_text(self.model_id),
            port: self.port,
            runtime_path: opt_text(self.runtime_path),
        }
    }
}

/// The status of an engine that does not run.
pub open spec fn stopped_status() -> EngineStatus<Seq<char>> {
    EngineStatus {
        state: EngineState::Stopped,
        message: "Moteur arrêté"@,
        model_id: None,
        port: None,
        runtime_path: None,
    }
}

impl EngineStatus {
    /// The status of an engine that does not run.
    pub fn stopped() -> (s: Self)
        ensures
            s@ == stopped_status(),
    {
        EngineStatus {
            state: EngineState::Stopped,
            message: "Moteur arrêté".to_string(),
            model_id: None,
            port: None,
            runtime_path: None,
        }
    }

    /// The status once the engine has been stopped: an error stays on display.
    pub fn after_stop(self) -> (s: Self)
        ensures
            self.state == EngineState::Error ==> s == self,
            self.state != EngineState::Error ==> s@ == stopped_status(),
    {
        if self.state != EngineState::Error {
            EngineStatus::stopped()
        } else {
            self
        }
    }
}

/// What an engine made of a recording.
#[derive(Debug, Clone)]
pub struct Transcript {
    pub text: String,
    pub language: Option<String>,
    pub duration_ms: u128,
}

// ---------------------------------------------------------------------------
// Where the server programs are looked for
// ---------------------------------------------------------------------------

/// What is known of the machine when a server program is looked for.
#[derive(Debug, Clone)]
pub struct BinarySearch {
    /// A path that the user gave.
    pub override_path: Option<String>,
    /// The path that the environment variable of the engine holds.
    pub env_path: Option<String>,
    /// Whether the data directory is searched.
    pub data_dir: bool,
    /// Whether the directory of the executable is known.
    pub exe_dir: bool,
    /// The number of entries of the search path.
    pub search_entries: usize,
}

/// The file name of the server program of `kind`.
pub open spec fn binary_file(kind: EngineKind, os: Os) -> Seq<char> {
    if os == Os::Windows {
        kind.binary_text() + ".exe"@
    } else {
        kind.binary_text()
    }
}

/// The path that the user gave, unless it is blank.
pub open spec fn override_candidates(path: Option<Seq<char>>) -> Seq<PlaceView> {
    match path {
        Some(p) if !text::is_blank(p) => seq![
            PlaceView { root: Root::Given(p), parts: Seq::empty() },
        ],
        _ => Seq::empty(),
    }
}

/// The path that the environment gave.
pub open spec fn env_candidates(path: Option<Seq<char>>) -> Seq<PlaceView> {
    match path {
        Some(p) => seq![PlaceView { root: Root::Given(p), parts: Seq::empty() }],
        None => Seq::empty(),
    }
}

/// The places below the data directory.
pub open spec fn data_candidates(known: bool, id: Seq<char>, file: Seq<char>) -> Seq<PlaceView> {
    if known {
        seq![
            PlaceView { root: Root::Data, parts: seq!["runtimes"@, id, "bin"@, file] },
            PlaceView { root: Root::Data, parts: seq!["runtimes"@, id, file] },
        ]
    } else {
        Seq::empty()
    }
}

/// The places around the executable.
pub open spec fn exe_candidates(known: bool, id: Seq<char>, file: Seq<char>) -> Seq<PlaceView> {
    if known {
        seq![
            PlaceView { root: Root::Executable, parts: seq!["runtimes"@, id, file] },
            PlaceView { root: Root::Executable, parts: seq!["../Resources/runtimes"@, id, file] },
            PlaceView { root: Root::Executable, parts: seq![file] },
            PlaceView { root: Root::Executable, parts: seq!["bin"@, file] },
        ]
    } else {
        Seq::empty()
    }
}

/// The places on the search path.
pub open spec fn search_candidates(entries: nat, file: Seq<char>) -> Seq<PlaceView> {
    Seq::new(
        entries,
        |i: int| PlaceView { root: Root::SearchPath(i as usize), parts: seq![file] },
    )
}

/// The places of the package managers.
pub open spec fn package_candidates(file: Seq<char>) -> Seq<PlaceView> {
    seq![
        PlaceView { root: Root::Given("/opt/homebrew/bin"@), parts: seq![file] },
        PlaceView { root: Root::Given("/usr/local/bin"@), parts: seq![file] },
    ]
}

/// The places at which the server program of `kind` is looked for, the first
/// choice first: the path that the user gave, the environment, the data
/// directory, the surroundings of the executable, the search path, the package
/// managers.
pub open spec fn candidate_places(kind: EngineKind, os: Os, search: BinarySearch) -> Seq<
    PlaceView,
> {
    let file = binary_file(kind, os);
    override_candidates(opt_text(search.override_path)) + env_candidates(opt_text(search.env_path))
        + data_candidates(search.data_dir, kind.id_text(), file) + exe_candidates(
        search.exe_dir,
        kind.id_text(),
        file,
    ) + search_candidates(search.search_entries as nat, file) + package_candidates(file)
}

/// What the places of `v` denote.
pub open spec fn places(v: Seq<Place>) -> Seq<PlaceView> {
    v.map_values(|p: Place| p@)
}

fn add_place(v: &mut Vec<Place>, p: Place)
    ensures
        places(final(v)@) == places(old(v)@).push(p@),
{
    let ghost before = v@;
    v.push(p);
    assert(places(v@) == places(before).push(p@));
}

fn add_data_places(v: &mut Vec<Place>, id: &str, file: &str)
    ensures
        places(final(v)@) == places(old(v)@) + data_candidates(true, id@, file@),
{
    add_place(v, below4(Root::Data, "runtimes", id, "bin", file));
    add_place(v, below3(Root::Data, "runtimes", id, file));
}

fn add_exe_places(v: &mut Vec<Place>, id: &str, file: &str)
    ensures
        places(final(v)@) == places(old(v)@) + exe_candidates(true, id@, file@),
{
    add_place(v, below3(Root::Executable, "runtimes", id, file));
    add_place(v, below3(Root::Executable, "../Resources/runtimes", id, file));
    add_place(v, below1(Root::Executable, file));
    add_place(v, below2(Root::Executable, "bin", file));
}

fn add_search_places(v: &mut Vec<Place>, entries: usize, file: &str)
    ensures
        places(final(v)@) == places(old(v)@) + search_candidates(entries as nat, file@),
{
    let ghost before = places(v@);
    assert(before + search_candidates(0, file@) == before);
    let mut i: usize = 0;
    while i < entries
        invariant
            i <= entries,
            places(v@) == before + search_candidates(i as nat, file@),
        decreases entries - i,
    {
        add_place(v, below1(Root::SearchPath(i), file));
        i = i + 1;
        assert(search_candidates(i as nat, file@) == search_candidates((i - 1) as nat, file@).push(
            PlaceView { root: Root::SearchPath((i - 1) as usize), parts: seq![file@] },
        ));
    }
}

fn add_package_places(v: &mut Vec<Place>, file: &str)
    ensures
        places(final(v)@) == places(old(v)@) + package_candidates(file@),
{
    add_place(v, below1(Root::Given("/opt/homebrew/bin".to_string()), file));
    add_place(v, below1(Root::Given("/usr/local/bin".to_string()), file));
}

/// The places at which the server program of `kind` is looked for, in order.
pub fn binary_candidates(kind: EngineKind, os: Os, search: &BinarySearch) -> (r: Vec<Place>)
    ensures
        places(r@) == candidate_places(kind, os, *search),
{
    let mut file = kind.binary().to_string();
    if os == Os::Windows {
        file.append(".exe");
    }
    let mut r: Vec<Place> = Vec::new();
    assert(places(r@) == Seq::<PlaceView>::empty());
    if let Some(p) = &search.override_path {
        if !text::blank(p.as_str()) {
            add_place(&mut r, given(p.as_str()));
        }
    }
    assert(places(r@) == override_candidates(opt_text(search.override_path)));
    let ghost before = places(r@);
    if let Some(p) = &search.env_path {
        add_place(&mut r, given(p.as_str()));
    }
    assert(places(r@) == before + env_candidates(opt_text(search.env_path)));
    let ghost before = places(r@);
    if search.data_dir {
        add_data_places(&mut r, kind.id(), file.as_str());
    }
    assert(places(r@) == before + data_candidates(search.data_dir, kind.id_text(), file@));
    let ghost before = places(r@);
    if search.exe_dir {
        add_exe_places(&mut r, kind.id(), file.as_str());
    }
    assert(places(r@) == before + exe_candidates(search.exe_dir, kind.id_text(), file@));
    add_search_places(&mut r, search.search_entries, file.as_str());
    add_package_places(&mut r, file.as_str());
    r
}

/// The index of the first flag that is set.
pub open spec fn first_set(flags: Seq<bool>) -> Option<int>
    decreases flags.len(),
{
    if flags.len() == 0 {
        None
    } else {
        match first_set(flags.drop_last()) {
            Some(i) => Some(i),
            None => if flags.last() {
                Some(flags.len() - 1)
            } else {
                None
            },
        }
    }
}

/// [`first_set`] is the least index of a set flag, or nothing where none is set.
pub proof fn first_set_is_least(flags: Seq<bool>)
    ensures
        match first_set(flags) {
            Some(i) => 0 <= i < flags.len() && flags[i] && forall|j: int|
                0 <= j < i ==> !#[trigger] flags[j],
            None => forall|j: int| 0 <= j < flags.len() ==> !#[trigger] flags[j],
        },
    decreases flags.len(),
{
    if flags.len() > 0 {
        let t = flags.drop_last();
        first_set_is_least(t);
        assert(forall|j: int| 0 <= j < t.len() ==> t[j] == #[trigger] flags[j]);
    }
}

/// The first place of [`binary_candidates`] that is a file, where `is_file` says
/// so of each of them in turn.
pub fn find_binary(kind: EngineKind, os: Os, search: &BinarySearch, is_file: &Vec<bool>) -> (r:
    Option<Place>)
    ensures
        match r {
            Some(p) => first_set(is_file@) is Some && first_set(is_file@).unwrap()
                < candidate_places(kind, os, *search).len() && p@ == candidate_places(
                kind,
                os,
                *search,
            )[first_set(is_file@).unwrap()],
            None => first_set(is_file@) is None || first_set(is_file@).unwrap()
                >= candidate_places(kind, os, *search).len(),
        },
{
    let mut all = binary_candidates(kind, os, search);
    let mut i: usize = 0;
    assert(is_file@.take(0).len() == 0);
    while i < is_file.len()
        invariant
            i <= is_file.len(),
            first_set(is_file@.take(i as int)) is None,
            places(all@) == candidate_places(kind, os, *search),
        decreases is_file.len() - i,
    {
        assert(is_file@.take(i + 1).drop_last() == is_file@.take(i as int));
        if is_file[i] {
            proof {
                lemma_first_set_extends(is_file@, i + 1);
            }
            if i < all.len() {
                let p = all.swap_remove(i);
                return Some(p);
            }
            return None;
        }
        i = i + 1;
    }
    assert(is_file@.take(is_file@.len() as int) == is_file@);
    None
}

proof fn lemma_first_set_extends(flags: Seq<bool>, k: int)
    requires
        0 <= k <= flags.len(),
        first_set(flags.take(k)) is Some,
    ensures
        first_set(flags) == first_set(flags.take(k)),
    decreases flags.len(),
{
    if k == flags.len() {
        assert(flags.take(k) == flags);
    } else {
        assert(flags.drop_last().take(k) == flags.take(k));
        lemma_first_set_extends(flags.drop_last(), k);
    }
}

/// A path that the user gave comes before every other place.
pub proof fn override_comes_first(kind: EngineKind, os: Os, search: BinarySearch)
    requires
        search.override_path is Some,
        !text::is_blank(search.override_path.unwrap()@),
    ensures
        candidate_places(kind, os, search)[0] == (PlaceView {
            root: Root::Given(search.override_path.unwrap()@),
            parts: Seq::empty(),
        }),
{
}

/// The program of an engine is looked for in this order: the path of the user, the one of
/// the environment, the data directory, the directory of the application, the search path
/// entry by entry, and the directories of package managers.
#[verifier::rlimit(50)]
pub proof fn programs_are_looked_for_in_order(
    kind: EngineKind,
    os: Os,
    search: BinarySearch,
    i: int,
)
    requires
        0 <= i < search.search_entries,
    ensures
        ({
            let all = candidate_places(kind, os, search);
            let file = if os == Os::Windows {
                kind.binary_text() + ".exe"@
            } else {
                kind.binary_text()
            };
            let o: int = if search.override_path is Some && !text::is_blank(
                search.override_path.unwrap()@,
            ) {
                1
            } else {
                0
            };
            let e: int = if search.env_path is Some {
                1
            } else {
                0
            };
            let d: int = if search.data_dir {
                2
            } else {
                0
            };
            let x: int = if search.exe_dir {
                4
            } else {
                0
            };
            let n = search.search_entries as int;
            &&& all.len() == o + e + d + x + n + 2
            &&& o == 1 ==> all[0] == (PlaceView {
                root: Root::Given(search.override_path.unwrap()@),
                parts: Seq::empty(),
            })
            &&& e == 1 ==> all[o] == (PlaceView {
                root: Root::Given(search.env_path.unwrap()@),
                parts: Seq::empty(),
            })
            &&& d == 2 ==> all[o + e].root == Root::<Seq<char>>::Data && all[o + e + 1].root
                == Root::<Seq<char>>::Data && all[o + e].parts.last() == file && all[o + e
                + 1].parts.last() == file
            &&& x == 4 ==> all[o + e + d].root == Root::<Seq<char>>::Executable && all[o + e + d
                + 3].root == Root::<Seq<char>>::Executable && all[o + e + d].parts.last() == file
            &&& all[o + e + d + x + i] == (PlaceView {
                root: Root::SearchPath(i as usize),
                parts: seq![file],
            })
            &&& all[all.len() - 2] == (PlaceView {
                root: Root::Given("/opt/homebrew/bin"@),
                parts: seq![file],
            })
            &&& all[all.len() - 1] == (PlaceView {
                root: Root::Given("/usr/local/bin"@),
                parts: seq![file],
            })
        }),
{
    let file = binary_file(kind, os);
    let p1 = override_candidates(opt_text(search.override_path));
    let a2 = env_candidates(opt_text(search.env_path));
    let a3 = data_candidates(search.data_dir, kind.id_text(), file);
    let a4 = exe_candidates(search.exe_dir, kind.id_text(), file);
    let a5 = search_candidates(search.search_entries as nat, file);
    let a6 = package_candidates(file);
    let p2 = p1 + a2;
    let p3 = p2 + a3;
    let p4 = p3 + a4;
    let p5 = p4 + a5;
    let all = p5 + a6;
    lemma_prefix(p1, a2);
    lemma_prefix(p2, a3);
    lemma_prefix(p3, a4);
    lemma_prefix(p4, a5);
    lemma_prefix(p5, a6);
    assert(all == candidate_places(kind, os, search));
}

proof fn lemma_prefix(a: Seq<PlaceView>, b: Seq<PlaceView>)
    ensures
        (a + b).len() == a.len() + b.len(),
        forall|i: int| 0 <= i < a.len() ==> #[trigger] (a + b)[i] == a[i],
        forall|i: int| a.len() <= i < a.len() + b.len() ==> #[trigger] (a + b)[i] == b[i - a.len()],
{
}

}
