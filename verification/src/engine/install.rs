//! Installing the sherpa-onnx runtime: fetching its archive and unpacking it.
use crate::engine;
use crate::engine::sherpa;
use crate::platform::{Arch, Os};
use crate::text;
use vstd::prelude::*;

verus! {

// ---------------------------------------------------------------------------
// Archives
// ---------------------------------------------------------------------------

/// A component of a path.
#[derive(Debug, Clone, PartialEq, Eq)]
pub enum PathPart<T = String> {
    Normal(T),
    /// `.`
    Current,
    /// `..`
    Parent,
    /// The root of the file system.
    Root,
    /// A drive or a share.
    Prefix(T),
}

impl View for PathPart {
    type V = PathPart<Seq<char>>;

    open spec fn view(&self) -> PathPart<Seq<char>> {
        match *self {
            PathPart::Normal(s) => PathPart::Normal(s@),
            PathPart::Current => PathPart::Current,
            PathPart::Parent => PathPart::Parent,
            PathPart::Root => PathPart::Root,
            PathPart::Prefix(s) => PathPart::Prefix(s@),
        }
    }
}

/// What the components of a path denote.
pub open spec fn part_views(v: Seq<PathPart>) -> Seq<PathPart<Seq<char>>> {
    v.map_values(|p: PathPart| p@)
}

/// Whether a component leads out of the directory that a path is joined to.
pub open spec fn leads_out<T>(p: PathPart<T>) -> bool {
    match p {
        PathPart::Normal(_) => false,
        PathPart::Current => false,
        PathPart::Parent => true,
        PathPart::Root => true,
        PathPart::Prefix(_) => true,
    }
}

/// What is done with an entry of an archive.
#[derive(Debug, Clone, Copy, PartialEq, Eq, Structural)]
pub enum EntryAction {
    /// Nothing: it is the directory that the archive holds.
    Skip,
    /// The archive is refused.
    Refuse,
    /// It is unpacked.
    Unpack,
}

/// What is done with an entry of an archive whose path, without its first
/// component, is `rest`: one that would lead out of the destination has the archive
/// refused.
pub open spec fn entry_meaning(rest: Seq<PathPart<Seq<char>>>) -> EntryAction {
    if rest.len() == 0 {
        EntryAction::Skip
    } else if exists|i: int| 0 <= i < rest.len() && leads_out(#[trigger] rest[i]) {
        EntryAction::Refuse
    } else {
        EntryAction::Unpack
    }
}

/// What is done with an entry of an archive whose path, without its first
/// component, is `rest`.
pub fn entry_action(rest: &Vec<PathPart>) -> (r: EntryAction)
    ensures
        r == entry_meaning(part_views(rest@)),
{
    let ghost all = part_views(rest@);
    if rest.len() == 0 {
        return EntryAction::Skip;
    }
    let mut i: usize = 0;
    while i < rest.len()
        invariant
            i <= rest.len(),
            all == part_views(rest@),
            forall|j: int| 0 <= j < i ==> !leads_out(#[trigger] all[j]),
        decreases rest.len() - i,
    {
        let out = match &rest[i] {
            PathPart::Normal(_) => false,
            PathPart::Current => false,
            PathPart::Parent => true,
            PathPart::Root => true,
            PathPart::Prefix(_) => true,
        };
        assert(out == leads_out(all[i as int]));
        if out {
            return EntryAction::Refuse;
        }
        i = i + 1;
    }
    EntryAction::Unpack
}

/// The message on an entry that has the archive refused.
pub fn suspect_message(path: &str) -> (r: String)
    ensures
        r@ == "chemin suspect dans l'archive : "@ + path@,
{
    text::concat("chemin suspect dans l'archive : ", path)
}

/// The message on an entry that cannot be unpacked.
pub fn unpack_message(path: &str) -> (r: String)
    ensures
        r@ == "extraction de "@ + path@,
{
    text::concat("extraction de ", path)
}

/// Where a path leads that is followed from the directory `from`: directories are
/// lists of names, the root has none.
pub open spec fn followed(from: Seq<Seq<char>>, path: Seq<PathPart<Seq<char>>>) -> Seq<Seq<char>>
    decreases path.len(),
{
    if path.len() == 0 {
        from
    } else {
        let before = followed(from, path.drop_last());
        match path.last() {
            PathPart::Normal(name) => before.push(name),
            PathPart::Current => before,
            PathPart::Parent => if before.len() > 0 {
                before.drop_last()
            } else {
                before
            },
            PathPart::Root => Seq::empty(),
            PathPart::Prefix(_) => Seq::empty(),
        }
    }
}

/// Whatever an archive holds, what is unpacked of it stays below the destination.
pub proof fn unpacking_stays_inside(dest: Seq<Seq<char>>, rest: Seq<PathPart<Seq<char>>>)
    requires
        entry_meaning(rest) == EntryAction::Unpack,
    ensures
        dest.is_prefix_of(followed(dest, rest)),
    decreases rest.len(),
{
    let shorter = rest.drop_last();
    assert(forall|i: int| 0 <= i < shorter.len() ==> #[trigger] shorter[i] == rest[i]);
    assert(!leads_out(rest[rest.len() - 1]));
    if shorter.len() > 0 {
        unpacking_stays_inside(dest, shorter);
    } else {
        assert(followed(dest, shorter) == dest);
    }
    let before = followed(dest, shorter);
    assert(dest.is_prefix_of(before));
    if let PathPart::Normal(name) = rest.last() {
        assert(before.push(name).subrange(0, dest.len() as int) == before.subrange(
            0,
            dest.len() as int,
        ));
    }
}

// ---------------------------------------------------------------------------
// The installation
// ---------------------------------------------------------------------------

/// What is to be done next.
#[derive(Debug, Clone, Copy, PartialEq, Eq, Structural)]
pub enum InstallStage {
    /// Look for the runtime.
    Find,
    /// Make the directory for the archive.
    Prepare,
    /// Ask for the archive.
    Request,
    /// Open the file for the archive.
    Create,
    /// Receive the archive.
    Receive,
    /// Unpack the archive, remove it, and make the programs executable.
    Unpack,
    /// Look for the runtime again.
    Check,
    /// Nothing: the runtime is there.
    Installed,
    /// Nothing: the installation has failed.
    Failed,
}

/// What has happened.
#[derive(Debug, Clone, PartialEq, Eq)]
pub enum InstallEvent<T = String> {
    /// The runtime was found at this path, or was not found.
    Runtime(Option<T>),
    Prepared,
    /// The server answers, and may tell the size of the archive.
    Response(Option<u64>),
    Created,
    /// Bytes have come in; a report is due where `due` is set.
    Chunk { len: u64, due: bool },
    /// The archive is complete.
    Received,
    Unpacked,
    /// The archive could not be unpacked, for this reason.
    NotUnpacked(T),
    /// The unpacking was cut short, for this reason.
    Aborted(T),
    /// The archive could not be written, for this reason.
    NotWritten(T),
    /// The step of the stage has failed.
    Failure,
}

impl View for InstallEvent {
    type V = InstallEvent<Seq<char>>;

    open spec fn view(&self) -> InstallEvent<Seq<char>> {
        match *self {
            InstallEvent::Runtime(p) => InstallEvent::Runtime(engine::opt_text(p)),
            InstallEvent::Prepared => InstallEvent::Prepared,
            InstallEvent::Response(n) => InstallEvent::Response(n),
            InstallEvent::Created => InstallEvent::Created,
            InstallEvent::Chunk { len, due } => InstallEvent::Chunk { len, due },
            InstallEvent::Received => InstallEvent::Received,
            InstallEvent::Unpacked => InstallEvent::Unpacked,
            InstallEvent::NotUnpacked(e) => InstallEvent::NotUnpacked(e@),
            InstallEvent::Aborted(e) => InstallEvent::Aborted(e@),
            InstallEvent::NotWritten(e) => InstallEvent::NotWritten(e@),
            InstallEvent::Failure => InstallEvent::Failure,
        }
    }
}

/// What follows from an event: a report (bytes so far, bytes in all), the path of
/// the runtime, or the error that the installation ends with.
#[derive(Debug, Clone)]
#[verifier::ext_equal]
pub struct InstallStep<T = String> {
    pub report: Option<(u64, u64)>,
    pub runtime: Option<T>,
    pub failure: Option<T>,
}

impl View for InstallStep {
    type V = InstallStep<Seq<char>>;

    open spec fn view(&self) -> InstallStep<Seq<char>> {
        InstallStep {
            report: self.report,
            runtime: engine::opt_text(self.runtime),
            failure: engine::opt_text(self.failure),
        }
    }
}

/// The installation of the runtime.
#[derive(Debug, Clone, Copy, PartialEq, Eq, Structural)]
pub struct Install {
    pub os: Os,
    pub arch: Arch,
    pub stage: InstallStage,
    /// The bytes that have come in.
    pub got: u64,
    /// The bytes that are expected; zero where their number is not known.
    pub total: u64,
}

/// Nothing to report.
pub open spec fn silent() -> InstallStep<Seq<char>> {
    InstallStep { report: None, runtime: None, failure: None }
}

/// A report.
pub open spec fn reported(got: u64, total: u64) -> InstallStep<Seq<char>> {
    InstallStep { report: Some((got, total)), ..silent() }
}

/// The end of an installation that has failed.
pub open spec fn failed(s: Install, m: Seq<char>) -> (Install, InstallStep<Seq<char>>) {
    (
        Install { stage: InstallStage::Failed, ..s },
        InstallStep { failure: Some(m), ..silent() },
    )
}

/// The end of an installation that has succeeded.
pub open spec fn installed(s: Install, path: Seq<char>) -> (Install, InstallStep<Seq<char>>) {
    (
        Install { stage: InstallStage::Installed, ..s },
        InstallStep { runtime: Some(path), ..silent() },
    )
}

/// The installation at another stage.
pub open spec fn at(s: Install, stage: InstallStage) -> (Install, InstallStep<Seq<char>>) {
    (Install { stage, ..s }, silent())
}

/// The message where the step of a stage has failed.
pub open spec fn stage_error(s: Install) -> Option<Seq<char>> {
    match s.stage {
        InstallStage::Prepare => Some("création du dossier du runtime"@),
        InstallStage::Request => Some(
            "téléchargement de "@ + match sherpa::asset_for(s.os, s.arch) {
                Some(a) => a,
                None => Seq::empty(),
            },
        ),
        InstallStage::Create => Some("écriture de l'archive du runtime"@),
        InstallStage::Receive => Some("téléchargement du runtime interrompu"@),
        _ => None,
    }
}

/// What follows, at each stage, from each event that can happen there. An event
/// that cannot happen at a stage changes nothing.
pub open spec fn progressed(s: Install, e: InstallEvent<Seq<char>>) -> (
    Install,
    InstallStep<Seq<char>>,
) {
    match (s.stage, e) {
        (InstallStage::Find, InstallEvent::Runtime(Some(p))) => installed(s, p),
        (InstallStage::Find, InstallEvent::Runtime(None)) => if sherpa::asset_for(
            s.os,
            s.arch,
        ) is None {
            failed(s, "sherpa-onnx ne fournit pas de binaires précompilés pour cette plateforme"@)
        } else {
            at(s, InstallStage::Prepare)
        },
        (InstallStage::Prepare, InstallEvent::Prepared) => at(s, InstallStage::Request),
        (InstallStage::Request, InstallEvent::Response(n)) => (
            Install {
                stage: InstallStage::Create,
                got: 0,
                total: match n {
                    Some(t) => t,
                    None => 0,
                },
                ..s
            },
            silent(),
        ),
        (InstallStage::Create, InstallEvent::Created) => at(s, InstallStage::Receive),
        (InstallStage::Receive, InstallEvent::Chunk { len, due }) => {
            let got = crate::download::sat(s.got, len);
            (
                Install { got, ..s },
                if due {
                    reported(got, s.total)
                } else {
                    silent()
                },
            )
        },
        (InstallStage::Receive, InstallEvent::Received) => (
            Install { stage: InstallStage::Unpack, ..s },
            reported(s.got, s.total),
        ),
        (InstallStage::Receive, InstallEvent::NotWritten(m)) => failed(s, m),
        (InstallStage::Unpack, InstallEvent::Unpacked) => at(s, InstallStage::Check),
        (InstallStage::Unpack, InstallEvent::NotUnpacked(m)) => failed(s, m),
        (InstallStage::Unpack, InstallEvent::Aborted(m)) => failed(
            s,
            "décompression du runtime : "@ + m,
        ),
        (InstallStage::Check, InstallEvent::Runtime(Some(p))) => installed(s, p),
        (InstallStage::Check, InstallEvent::Runtime(None)) => failed(
            s,
            sherpa::PROC_MARKER@ + " absent après décompression du runtime"@,
        ),
        (_, InstallEvent::Failure) => match stage_error(s) {
            Some(m) => failed(s, m),
            None => (s, silent()),
        },
        _ => (s, silent()),
    }
}

fn no_step() -> (r: InstallStep)
    ensures
        r@ == silent(),
{
    InstallStep { report: None, runtime: None, failure: None }
}

impl Install {
    /// The installation on a machine, before anything was done.
    pub fn new(os: Os, arch: Arch) -> (s: Self)
        ensures
            s == (Install { os, arch, stage: InstallStage::Find, got: 0, total: 0 }),
    {
        Install { os, arch, stage: InstallStage::Find, got: 0, total: 0 }
    }

    fn fail(&mut self, m: String) -> (r: InstallStep)
        ensures
            (*final(self), r@) == failed(*old(self), m@),
    {
        self.stage = InstallStage::Failed;
        InstallStep { report: None, runtime: None, failure: Some(m) }
    }

    fn found(&mut self, path: String) -> (r: InstallStep)
        ensures
            (*final(self), r@) == installed(*old(self), path@),
    {
        self.stage = InstallStage::Installed;
        InstallStep { report: None, runtime: Some(path), failure: None }
    }

    fn go_to(&mut self, stage: InstallStage) -> (r: InstallStep)
        ensures
            (*final(self), r@) == at(*old(self), stage),
    {
        self.stage = stage;
        no_step()
    }

    fn receive(&mut self, len: u64, due: bool) -> (r: InstallStep)
        requires
            old(self).stage == InstallStage::Receive,
        ensures
            (*final(self), r@) == progressed(*old(self), InstallEvent::Chunk { len, due }),
    {
        self.got = if self.got > u64::MAX - len {
            u64::MAX
        } else {
            self.got + len
        };
        if due {
            InstallStep { report: Some((self.got, self.total)), runtime: None, failure: None }
        } else {
            no_step()
        }
    }

    fn give_up(&mut self) -> (r: InstallStep)
        ensures
            (*final(self), r@) == progressed(*old(self), InstallEvent::Failure),
    {
        match self.stage {
            InstallStage::Prepare => self.fail("création du dossier du runtime".to_string()),
            InstallStage::Request => {
                let asset = match sherpa::runtime_asset(self.os, self.arch) {
                    Some(a) => a,
                    None => {
                        proof {
                            reveal_strlit("");
                            assert(""@ == Seq::<char>::empty());
                        }
                        ""
                    },
                };
                let m = text::concat("téléchargement de ", asset);
                self.fail(m)
            },
            InstallStage::Create => self.fail("écriture de l'archive du runtime".to_string()),
            InstallStage::Receive => self.fail("téléchargement du runtime interrompu".to_string()),
            _ => no_step(),
        }
    }

    /// Takes note of an event and tells what follows from it; `stage` tells what is
    /// to be done next.
    pub fn ensure_runtime(&mut self, event: InstallEvent) -> (r: InstallStep)
        ensures
            (*final(self), r@) == progressed(*old(self), event@),
    {
        match (self.stage, event) {
            (InstallStage::Find, InstallEvent::Runtime(Some(p))) => self.found(p),
            (InstallStage::Find, InstallEvent::Runtime(None)) => {
                if sherpa::runtime_asset(self.os, self.arch).is_none() {
                    self.fail(
                        "sherpa-onnx ne fournit pas de binaires précompilés pour cette plateforme".to_string(),
                    )
                } else {
                    self.go_to(InstallStage::Prepare)
                }
            },
            (InstallStage::Prepare, InstallEvent::Prepared) => self.go_to(InstallStage::Request),
            (InstallStage::Request, InstallEvent::Response(n)) => {
                self.got = 0;
                self.total = match n {
                    Some(t) => t,
                    None => 0,
                };
                self.go_to(InstallStage::Create)
            },
            (InstallStage::Create, InstallEvent::Created) => self.go_to(InstallStage::Receive),
            (InstallStage::Receive, InstallEvent::Chunk { len, due }) => self.receive(len, due),
            (InstallStage::Receive, InstallEvent::Received) => {
                self.stage = InstallStage::Unpack;
                InstallStep { report: Some((self.got, self.total)), runtime: None, failure: None }
            },
            (InstallStage::Receive, InstallEvent::NotWritten(m)) => self.fail(m),
            (InstallStage::Unpack, InstallEvent::Unpacked) => self.go_to(InstallStage::Check),
            (InstallStage::Unpack, InstallEvent::NotUnpacked(m)) => self.fail(m),
            (InstallStage::Unpack, InstallEvent::Aborted(m)) => {
                let m = text::concat("décompression du runtime : ", m.as_str());
                self.fail(m)
            },
            (InstallStage::Check, InstallEvent::Runtime(Some(p))) => self.found(p),
            (InstallStage::Check, InstallEvent::Runtime(None)) => {
                let m = text::concat(sherpa::PROC_MARKER, " absent après décompression du runtime");
                self.fail(m)
            },
            (_, InstallEvent::Failure) => self.give_up(),
            _ => no_step(),
        }
    }
}

/// Where the runtime is there already nothing is fetched.
pub proof fn present_runtimes_are_kept(s: Install, path: Seq<char>)
    requires
        s.stage == InstallStage::Find,
    ensures
        progressed(s, InstallEvent::Runtime(Some(path))) == installed(s, path),
{
}

/// An installation that ends with an error has failed, and one that has failed
/// ends with an error; one that names a runtime has found it.
pub proof fn outcomes_match_the_stage(s: Install, e: InstallEvent<Seq<char>>)
    requires
        s.stage != InstallStage::Failed,
        s.stage != InstallStage::Installed,
    ensures
        ({
            let (after, step) = progressed(s, e);
            &&& step.failure is Some <==> after.stage == InstallStage::Failed
            &&& step.runtime is Some <==> after.stage == InstallStage::Installed
        }),
{
}

/// What is fetched is fetched for a machine that there is an archive for.
pub proof fn archives_exist_where_they_are_fetched(s: Install, e: InstallEvent<Seq<char>>)
    requires
        s.stage == InstallStage::Find,
        progressed(s, e).0.stage == InstallStage::Prepare,
    ensures
        sherpa::asset_for(s.os, s.arch) is Some,
{
}

/// A runtime is installed in this order: the archive is requested, received and unpacked,
/// and then the program is there. What comes in is counted byte for byte, and what was
/// received is reported with the size that the server gave.
pub proof fn runtimes_are_installed_step_by_step(s: Install, n: u64, len: u64, path: Seq<char>)
    requires
        s.stage == InstallStage::Find,
        sherpa::asset_for(s.os, s.arch) is Some,
    ensures
        ({
            let a = progressed(s, InstallEvent::Runtime(None)).0;
            let b = progressed(a, InstallEvent::Prepared).0;
            let c = progressed(b, InstallEvent::Response(Some(n))).0;
            let d = progressed(c, InstallEvent::Created).0;
            let e = progressed(d, InstallEvent::Chunk { len, due: true });
            let f = progressed(e.0, InstallEvent::Received);
            let g = progressed(f.0, InstallEvent::Unpacked).0;
            let h = progressed(g, InstallEvent::Runtime(Some(path)));
            &&& a.stage == InstallStage::Prepare
            &&& b.stage == InstallStage::Request
            &&& c.stage == InstallStage::Create
            &&& d.stage == InstallStage::Receive
            &&& e.1.report == Some((len, n))
            &&& f.0.stage == InstallStage::Unpack && f.1.report == Some((len, n))
            &&& g.stage == InstallStage::Check
            &&& h.0.stage == InstallStage::Installed && h.1.runtime == Some(path)
        }),
{
}

/// What comes in of an archive adds up, and is reported when a report is due.
pub proof fn received_bytes_add_up(s: Install, len: u64, due: bool)
    requires
        s.stage == InstallStage::Receive,
        s.got + len <= u64::MAX,
    ensures
        ({
            let (a, step) = progressed(s, InstallEvent::Chunk { len, due });
            &&& a.got == s.got + len && a.total == s.total && a.stage == s.stage
            &&& step.report is Some <==> due
            &&& step.report matches Some(r) ==> r == (a.got, a.total)
        }),
{
}

/// An archive that cannot be fetched, written or unpacked, or that lacks the program, ends
/// the installation with an error; so does a machine that there is no archive for.
pub proof fn failed_installations_say_why(s: Install, m: Seq<char>)
    ensures
        s.stage == InstallStage::Find && sherpa::asset_for(s.os, s.arch) is None ==> progressed(
            s,
            InstallEvent::Runtime(None),
        ).1.failure == Some(
            "sherpa-onnx ne fournit pas de binaires précompilés pour cette plateforme"@,
        ),
        s.stage == InstallStage::Receive ==> progressed(s, InstallEvent::NotWritten(m)).1.failure
            == Some(m),
        s.stage == InstallStage::Unpack ==> progressed(s, InstallEvent::NotUnpacked(m)).1.failure
            == Some(m),
        s.stage == InstallStage::Unpack ==> progressed(s, InstallEvent::Aborted(m)).1.failure == Some(
            "décompression du runtime : "@ + m,
        ),
        s.stage == InstallStage::Check ==> progressed(s, InstallEvent::Runtime(None)).1.failure
            == Some(
            "sherpa-onnx-offline-websocket-server"@ + " absent après décompression du runtime"@,
        ),
        s.stage == InstallStage::Prepare || s.stage == InstallStage::Request || s.stage
            == InstallStage::Create || s.stage == InstallStage::Receive ==> progressed(
            s,
            InstallEvent::Failure,
        ).0.stage == InstallStage::Failed && progressed(s, InstallEvent::Failure).1.failure is Some,
{
}

/// An entry of an archive is unpacked where none of its parts leads out of the directory;
/// one of no parts is passed over, and any other is refused.
pub proof fn entries_that_lead_out_are_refused(rest: Seq<PathPart<Seq<char>>>, i: int)
    ensures
        rest.len() == 0 ==> entry_meaning(rest) == EntryAction::Skip,
        0 <= i < rest.len() && (rest[i] is Parent || rest[i] is Root || rest[i] is Prefix)
            ==> entry_meaning(rest) == EntryAction::Refuse,
        rest.len() > 0 && (forall|j: int|
            0 <= j < rest.len() ==> (#[trigger] rest[j]) is Normal || rest[j] is Current)
            ==> entry_meaning(rest) == EntryAction::Unpack,
{
    if 0 <= i < rest.len() && (rest[i] is Parent || rest[i] is Root || rest[i] is Prefix) {
        assert(leads_out(rest[i]));
    }
}

}
