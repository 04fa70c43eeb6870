//! Fetching the files of a model: what is fetched, copied or left alone, where an
//! interrupted transfer goes on, and what is reported of it.
use crate::engine;
use crate::text;
use vstd::prelude::*;

verus! {

/// The least time between two reports during a transfer, in milliseconds.
pub const REPORT_PERIOD_MS: u64 = 150;

/// How far the download of a model has come.
#[derive(Debug, Clone, PartialEq, Eq)]
pub struct DownloadProgress<T = String> {
    pub id: T,
    pub downloaded: u64,
    pub total: u64,
    pub done: bool,
    pub error: Option<T>,
}

impl View for DownloadProgress {
    type V = DownloadProgress<Seq<char>>;

    open spec fn view(&self) -> DownloadProgress<Seq<char>> {
        DownloadProgress {
            id: self.id@,
            downloaded: self.downloaded,
            total: self.total,
            done: self.done,
            error: engine::opt_text(self.error),
        }
    }
}

/// `a + b`, or the largest number where that is larger.
pub open spec fn sat(a: u64, b: u64) -> u64 {
    if a + b > u64::MAX {
        u64::MAX
    } else {
        (a + b) as u64
    }
}

fn sat_sum(a: u64, b: u64) -> (r: u64)
    ensures
        r == sat(a, b),
{
    if a > u64::MAX - b {
        u64::MAX
    } else {
        a + b
    }
}

/// The sum of the sizes.
pub open spec fn sat_total(sizes: Seq<u64>) -> u64
    decreases sizes.len(),
{
    if sizes.len() == 0 {
        0
    } else {
        sat(sat_total(sizes.drop_last()), sizes.last())
    }
}

/// What is to be done next.
#[derive(Debug, Clone, Copy, PartialEq, Eq, Structural)]
pub enum DownloadStage {
    /// See how large the current file, and what was received of it before, are.
    Inspect,
    /// Copy the current file from this machine.
    Copy,
    /// Ask for the current file from byte `from` on, first discarding what was
    /// received of it before where `discard` is set.
    Request { discard: bool, from: u64 },
    /// Receive the current file, behind what was received before where `append`
    /// is set.
    Receive { append: bool },
    /// Nothing: all files are there.
    Finished,
    /// Nothing: the download has failed.
    Failed,
}

/// What has happened.
#[derive(Debug, Clone, PartialEq, Eq)]
pub enum DownloadEvent<T = String> {
    /// The sizes of the current file and of what was received of it before.
    Sizes { file: Option<u64>, part: Option<u64> },
    Copied,
    CopyFailed { url: T, error: T },
    /// The server answers, with the requested part where `partial` is set.
    Response { partial: bool },
    /// Bytes have come in; a report is due where `due` is set.
    Chunk { len: u64, due: bool },
    /// The file is complete.
    Received,
    /// The transfer has failed.
    Broken(T),
}

impl View for DownloadEvent {
    type V = DownloadEvent<Seq<char>>;

    open spec fn view(&self) -> DownloadEvent<Seq<char>> {
        match *self {
            DownloadEvent::Sizes { file, part } => DownloadEvent::Sizes { file, part },
            DownloadEvent::Copied => DownloadEvent::Copied,
            DownloadEvent::CopyFailed { url, error } => DownloadEvent::CopyFailed {
                url: url@,
                error: error@,
            },
            DownloadEvent::Response { partial } => DownloadEvent::Response { partial },
            DownloadEvent::Chunk { len, due } => DownloadEvent::Chunk { len, due },
            DownloadEvent::Received => DownloadEvent::Received,
            DownloadEvent::Broken(e) => DownloadEvent::Broken(e@),
        }
    }
}

/// What follows from an event: a report (bytes so far, bytes in all, whether all is
/// done); behind it the report that all is done; or the error that the download
/// ends with.
#[derive(Debug, Clone, PartialEq, Eq)]
pub struct DownloadStep<T = String> {
    pub report: Option<(u64, u64, bool)>,
    pub done: Option<(u64, u64, bool)>,
    pub failure: Option<T>,
}

impl View for DownloadStep {
    type V = DownloadStep<Seq<char>>;

    open spec fn view(&self) -> DownloadStep<Seq<char>> {
        DownloadStep {
            report: self.report,
            done: self.done,
            failure: engine::opt_text(self.failure),
        }
    }
}

/// The download of the files of a model.
#[derive(Debug, Clone)]
pub struct Download {
    /// The expected size of each file; zero where it is not known.
    pub expected: Vec<u64>,
    /// Whether each file is on this machine.
    pub local: Vec<bool>,
    /// The current file.
    pub index: usize,
    pub downloaded: u64,
    pub total: u64,
    pub stage: DownloadStage,
}

/// What a [`Download`] denotes.
#[verifier::ext_equal]
pub struct DownloadView {
    pub expected: Seq<u64>,
    pub local: Seq<bool>,
    pub index: int,
    pub downloaded: u64,
    pub total: u64,
    pub stage: DownloadStage,
}

impl View for Download {
    type V = DownloadView;

    open spec fn view(&self) -> DownloadView {
        DownloadView {
            expected: self.expected@,
            local: self.local@,
            index: self.index as int,
            downloaded: self.downloaded,
            total: self.total,
            stage: self.stage,
        }
    }
}

/// Whether each file has a size and a place, and the current file is one of them
/// as long as there is something to do.
pub open spec fn well_formed(s: DownloadView) -> bool {
    &&& s.local.len() == s.expected.len()
    &&& 0 <= s.index <= s.expected.len()
    &&& s.stage != DownloadStage::Finished && s.stage != DownloadStage::Failed ==> s.index
        < s.expected.len()
}

/// Nothing to report.
pub open spec fn silent() -> DownloadStep<Seq<char>> {
    DownloadStep { report: None, done: None, failure: None }
}

/// A failure with the message `m`.
pub open spec fn failed(m: Seq<char>) -> DownloadStep<Seq<char>> {
    DownloadStep { report: None, done: None, failure: Some(m) }
}

/// The step to the next file, `downloaded` bytes being there, with a report of
/// that where `tell` is set. Behind the last file the download is done, and that
/// is reported.
pub open spec fn to_next_file(s: DownloadView, downloaded: u64, tell: bool) -> (
    DownloadView,
    DownloadStep<Seq<char>>,
) {
    let last = s.index + 1 >= s.expected.len();
    (
        DownloadView {
            index: s.index + 1,
            downloaded,
            stage: if last {
                DownloadStage::Finished
            } else {
                DownloadStage::Inspect
            },
            ..s
        },
        DownloadStep {
            report: if tell {
                Some((downloaded, s.total, false))
            } else {
                None
            },
            done: if last {
                Some((s.total, s.total, true))
            } else {
                None
            },
            failure: None,
        },
    )
}

/// What is to be done for the current file, given its size and that of what was
/// received of it before: nothing where it is complete; a copy where it is on this
/// machine; otherwise a transfer, which goes on behind what was received before
/// unless that is more than the whole file.
pub open spec fn inspected(s: DownloadView, file: Option<u64>, part: Option<u64>) -> (
    DownloadView,
    DownloadStep<Seq<char>>,
) {
    let expected = s.expected[s.index];
    let have: u64 = match part {
        Some(n) => n,
        None => 0,
    };
    if file == Some(expected) && expected > 0 {
        to_next_file(s, sat(s.downloaded, expected), true)
    } else if s.local[s.index] {
        (DownloadView { stage: DownloadStage::Copy, ..s }, silent())
    } else if have > expected {
        (
            DownloadView { stage: DownloadStage::Request { discard: true, from: 0 }, ..s },
            silent(),
        )
    } else {
        (
            DownloadView { stage: DownloadStage::Request { discard: false, from: have }, ..s },
            silent(),
        )
    }
}

/// What follows, at each stage, from each event that can happen there. An event
/// that cannot happen at a stage changes nothing.
pub open spec fn progressed(s: DownloadView, e: DownloadEvent<Seq<char>>) -> (
    DownloadView,
    DownloadStep<Seq<char>>,
) {
    match (s.stage, e) {
        (DownloadStage::Inspect, DownloadEvent::Sizes { file, part }) => inspected(s, file, part),
        (DownloadStage::Copy, DownloadEvent::Copied) => to_next_file(
            s,
            sat(s.downloaded, s.expected[s.index]),
            true,
        ),
        (DownloadStage::Copy, DownloadEvent::CopyFailed { url, error }) => (
            DownloadView { stage: DownloadStage::Failed, ..s },
            failed("copie de "@ + url + " : "@ + error),
        ),
        (DownloadStage::Request { from, .. }, DownloadEvent::Response { partial }) => (
            DownloadView {
                downloaded: if partial {
                    sat(s.downloaded, from)
                } else {
                    s.downloaded
                },
                stage: DownloadStage::Receive { append: partial },
                ..s
            },
            silent(),
        ),
        (DownloadStage::Receive { .. }, DownloadEvent::Chunk { len, due }) => {
            let downloaded = sat(s.downloaded, len);
            (
                DownloadView { downloaded, ..s },
                DownloadStep {
                    report: if due {
                        Some((downloaded, s.total, false))
                    } else {
                        None
                    },
                    done: None,
                    failure: None,
                },
            )
        },
        (DownloadStage::Receive { .. }, DownloadEvent::Received) => to_next_file(
            s,
            s.downloaded,
            false,
        ),
        (DownloadStage::Request { .. }, DownloadEvent::Broken(m)) => (
            DownloadView { stage: DownloadStage::Failed, ..s },
            failed(m),
        ),
        (DownloadStage::Receive { .. }, DownloadEvent::Broken(m)) => (
            DownloadView { stage: DownloadStage::Failed, ..s },
            failed(m),
        ),
        _ => (s, silent()),
    }
}

impl Download {
    /// The download of files of these sizes. Where there are no files it is done at
    /// once.
    pub fn new(expected: Vec<u64>, local: Vec<bool>) -> (s: Self)
        requires
            local.len() == expected.len(),
        ensures
            well_formed(s@),
            s@ == (DownloadView {
                expected: expected@,
                local: local@,
                index: 0,
                downloaded: 0,
                total: sat_total(expected@),
                stage: if expected@.len() == 0 {
                    DownloadStage::Finished
                } else {
                    DownloadStage::Inspect
                },
            }),
    {
        let mut total: u64 = 0;
        let mut i: usize = 0;
        assert(expected@.take(0).len() == 0);
        while i < expected.len()
            invariant
                i <= expected.len(),
                total == sat_total(expected@.take(i as int)),
            decreases expected.len() - i,
        {
            total = sat_sum(total, expected[i]);
            i = i + 1;
            assert(expected@.take(i as int).drop_last() == expected@.take(i - 1));
        }
        assert(expected@.take(expected@.len() as int) == expected@);
        let stage = if expected.len() == 0 {
            DownloadStage::Finished
        } else {
            DownloadStage::Inspect
        };
        Download { expected, local, index: 0, downloaded: 0, total, stage }
    }

    /// The report of a download that is done before anything is fetched: one of no
    /// files.
    pub fn done_at_once(&self) -> (r: Option<(u64, u64, bool)>)
        ensures
            r == if self@.expected.len() == 0 {
                Some((self@.total, self@.total, true))
            } else {
                None
            },
    {
        if self.expected.len() == 0 {
            Some((self.total, self.total, true))
        } else {
            None
        }
    }

    fn next_file(&mut self, downloaded: u64, tell: bool) -> (r: DownloadStep)
        requires
            well_formed(old(self)@),
            old(self)@.index < old(self)@.expected.len(),
        ensures
            well_formed(final(self)@),
            (final(self)@, r@) == to_next_file(old(self)@, downloaded, tell),
    {
        assert(self.index < self.expected.len());
        self.index = self.index + 1;
        self.downloaded = downloaded;
        let report = if tell {
            Some((downloaded, self.total, false))
        } else {
            None
        };
        if self.index >= self.expected.len() {
            self.stage = DownloadStage::Finished;
            DownloadStep { report, done: Some((self.total, self.total, true)), failure: None }
        } else {
            self.stage = DownloadStage::Inspect;
            DownloadStep { report, done: None, failure: None }
        }
    }

    fn inspect(&mut self, file: Option<u64>, part: Option<u64>) -> (r: DownloadStep)
        requires
            well_formed(old(self)@),
            old(self)@.index < old(self)@.expected.len(),
        ensures
            well_formed(final(self)@),
            (final(self)@, r@) == inspected(old(self)@, file, part),
    {
        let expected = self.expected[self.index];
        let have: u64 = match part {
            Some(n) => n,
            None => 0,
        };
        let complete = match file {
            Some(n) => n == expected && expected > 0,
            None => false,
        };
        if complete {
            let downloaded = sat_sum(self.downloaded, expected);
            return self.next_file(downloaded, true);
        }
        if self.local[self.index] {
            self.stage = DownloadStage::Copy;
        } else if have > expected {
            self.stage = DownloadStage::Request { discard: true, from: 0 };
        } else {
            self.stage = DownloadStage::Request { discard: false, from: have };
        }
        DownloadStep { report: None, done: None, failure: None }
    }

    fn fail(&mut self, message: String) -> (r: DownloadStep)
        requires
            well_formed(old(self)@),
        ensures
            well_formed(final(self)@),
            final(self)@ == (DownloadView { stage: DownloadStage::Failed, ..old(self)@ }),
            r@ == failed(message@),
    {
        self.stage = DownloadStage::Failed;
        DownloadStep { report: None, done: None, failure: Some(message) }
    }

    /// Takes note of an event and tells what follows from it; `stage` tells what is
    /// to be done next.
    pub fn progress(&mut self, event: DownloadEvent) -> (r: DownloadStep)
        requires
            well_formed(old(self)@),
        ensures
            well_formed(final(self)@),
            (final(self)@, r@) == progressed(old(self)@, event@),
    {
        match (self.stage, event) {
            (DownloadStage::Inspect, DownloadEvent::Sizes { file, part }) => self.inspect(
                file,
                part,
            ),
            (DownloadStage::Copy, DownloadEvent::Copied) => {
                let downloaded = sat_sum(self.downloaded, self.expected[self.index]);
                self.next_file(downloaded, true)
            },
            (DownloadStage::Copy, DownloadEvent::CopyFailed { url, error }) => {
                let mut message = text::concat3("copie de ", url.as_str(), " : ");
                message.append(error.as_str());
                self.fail(message)
            },
            (DownloadStage::Request { discard: _, from }, DownloadEvent::Response { partial }) => {
                if partial {
                    self.downloaded = sat_sum(self.downloaded, from);
                }
                self.stage = DownloadStage::Receive { append: partial };
                DownloadStep { report: None, done: None, failure: None }
            },
            (DownloadStage::Receive { append: _ }, DownloadEvent::Chunk { len, due }) => {
                self.downloaded = sat_sum(self.downloaded, len);
                if due {
                    DownloadStep {
                        report: Some((self.downloaded, self.total, false)),
                        done: None,
                        failure: None,
                    }
                } else {
                    DownloadStep { report: None, done: None, failure: None }
                }
            },
            (DownloadStage::Receive { append: _ }, DownloadEvent::Received) => {
                let downloaded = self.downloaded;
                self.next_file(downloaded, false)
            },
            (DownloadStage::Request { discard: _, from: _ }, DownloadEvent::Broken(m)) => self.fail(
                m,
            ),
            (DownloadStage::Receive { append: _ }, DownloadEvent::Broken(m)) => self.fail(m),
            _ => DownloadStep { report: None, done: None, failure: None },
        }
    }
}

/// The file that holds what was received of the file `name`.
pub fn part_name(name: &str) -> (r: String)
    ensures
        r@ == name@ + ".part"@,
{
    text::concat(name, ".part")
}

/// The range of bytes that a transfer asks for which goes on at byte `from`; none
/// where it asks for the whole file.
pub fn range_header(from: u64) -> (r: Option<String>)
    ensures
        match r {
            Some(h) => from > 0 && h@ == "bytes="@ + text::decimal(from as nat) + "-"@,
            None => from == 0,
        },
        r matches Some(h) ==> text::digits_value(h@.subrange(6, h@.len() - 1)) == Some(from as nat),
{
    if from > 0 {
        let n = text::decimal_of(from);
        proof {
            reveal_strlit("bytes=");
            reveal_strlit("-");
            let h = "bytes="@ + n@ + "-"@;
            assert(h.subrange(6, h.len() - 1) == n@);
            text::decimals_read_back(from as nat);
        }
        Some(text::concat3("bytes=", n.as_str(), "-"))
    } else {
        None
    }
}

/// The message to the interface on a report for the model `id`.
pub fn progress_message(id: &str, report: (u64, u64, bool)) -> (r: DownloadProgress)
    ensures
        r@ == (DownloadProgress {
            id: id@,
            downloaded: report.0,
            total: report.1,
            done: report.2,
            error: None,
        }),
{
    DownloadProgress {
        id: id.to_string(),
        downloaded: report.0,
        total: report.1,
        done: report.2,
        error: None,
    }
}

/// The message to the interface on a download of the model `id` that failed.
pub fn failure_message(id: &str, error: String) -> (r: DownloadProgress)
    ensures
        r@ == (DownloadProgress {
            id: id@,
            downloaded: 0,
            total: 0,
            done: false,
            error: Some(error@),
        }),
{
    DownloadProgress { id: id.to_string(), downloaded: 0, total: 0, done: false, error: Some(error) }
}

// ---------------------------------------------------------------------------
// Laws
// ---------------------------------------------------------------------------

/// The sum of the sizes.
pub open spec fn size_sum(sizes: Seq<u64>) -> int
    decreases sizes.len(),
{
    if sizes.len() == 0 {
        0
    } else {
        size_sum(sizes.drop_last()) + sizes.last()
    }
}

/// The download after pieces of these sizes have come in.
pub open spec fn after_chunks(s: DownloadView, pieces: Seq<u64>) -> DownloadView
    decreases pieces.len(),
{
    if pieces.len() == 0 {
        s
    } else {
        progressed(
            after_chunks(s, pieces.drop_last()),
            DownloadEvent::Chunk { len: pieces.last(), due: false },
        ).0
    }
}

proof fn lemma_after_chunks(s: DownloadView, pieces: Seq<u64>, append: bool)
    requires
        s.stage == (DownloadStage::Receive { append }),
        s.downloaded + size_sum(pieces) <= u64::MAX,
    ensures
        after_chunks(s, pieces) == (DownloadView {
            downloaded: (s.downloaded + size_sum(pieces)) as u64,
            ..s
        }),
        size_sum(pieces) >= 0,
    decreases pieces.len(),
{
    if pieces.len() > 0 {
        lemma_size_sum_positive(pieces.drop_last());
        lemma_after_chunks(s, pieces.drop_last(), append);
    }
}

proof fn lemma_size_sum_positive(sizes: Seq<u64>)
    ensures
        size_sum(sizes) >= 0,
    decreases sizes.len(),
{
    if sizes.len() > 0 {
        lemma_size_sum_positive(sizes.drop_last());
    }
}

proof fn lemma_size_sum_grows(sizes: Seq<u64>, k: int)
    requires
        0 <= k <= sizes.len(),
    ensures
        0 <= size_sum(sizes.take(k)) <= size_sum(sizes),
    decreases sizes.len(),
{
    lemma_size_sum_positive(sizes.take(k));
    if k < sizes.len() {
        lemma_size_sum_grows(sizes.drop_last(), k);
        assert(sizes.drop_last().take(k) == sizes.take(k));
    } else {
        assert(sizes.take(k) == sizes);
    }
}

/// A transfer goes on at no byte beyond the expected size, and what was received
/// before is discarded exactly where it is more than the whole file.
pub proof fn transfers_stay_in_the_file(s: DownloadView, file: Option<u64>, part: Option<u64>)
    requires
        well_formed(s),
        s.stage == DownloadStage::Inspect,
    ensures
        progressed(s, DownloadEvent::Sizes { file, part }).0.stage matches DownloadStage::Request {
            discard,
            from,
        } ==> {
            &&& from <= s.expected[s.index]
            &&& discard <==> (part matches Some(n) && n > s.expected[s.index])
        },
{
}

/// The count of bytes is exact from file to file: where it is the size of the files
/// before the current one, and the current file is complete, is copied, or is
/// received to its expected size (behind what was received before, where the
/// server goes on there), it is afterwards the size of the files up to and with
/// the current one.
pub proof fn bytes_are_counted_exactly(
    s: DownloadView,
    file: Option<u64>,
    part: Option<u64>,
    partial: bool,
    pieces: Seq<u64>,
)
    requires
        well_formed(s),
        s.stage == DownloadStage::Inspect,
        size_sum(s.expected) <= u64::MAX,
        s.downloaded == size_sum(s.expected.take(s.index)),
    ensures
        ({
            let expected = s.expected[s.index];
            let goal = size_sum(s.expected.take(s.index + 1));
            let a = progressed(s, DownloadEvent::Sizes { file, part }).0;
            match a.stage {
                DownloadStage::Copy => progressed(a, DownloadEvent::Copied).0.downloaded == goal,
                DownloadStage::Request { discard, from } => {
                    let b = progressed(a, DownloadEvent::Response { partial }).0;
                    let kept: int = if partial {
                        from as int
                    } else {
                        0
                    };
                    kept + size_sum(pieces) == expected ==> progressed(
                        after_chunks(b, pieces),
                        DownloadEvent::Received,
                    ).0.downloaded == goal
                },
                _ => a.downloaded == goal,
            }
        }),
{
    let i = s.index;
    lemma_size_sum_grows(s.expected, i + 1);
    assert(s.expected.take(i + 1).drop_last() == s.expected.take(i));
    let a = progressed(s, DownloadEvent::Sizes { file, part }).0;
    if let DownloadStage::Request { discard, from } = a.stage {
        let b = progressed(a, DownloadEvent::Response { partial }).0;
        let kept: int = if partial {
            from as int
        } else {
            0
        };
        if kept + size_sum(pieces) == s.expected[i] {
            lemma_size_sum_positive(pieces);
            lemma_after_chunks(b, pieces, partial);
        }
    }
}

/// A download reports that it is done exactly when it moves on from its last file,
/// and then all bytes are there; no other report says so.
pub proof fn done_is_reported_at_the_end(s: DownloadView, e: DownloadEvent<Seq<char>>)
    requires
        well_formed(s),
    ensures
        progressed(s, e).1.done is Some <==> s.stage != DownloadStage::Finished && progressed(
            s,
            e,
        ).0.stage == DownloadStage::Finished,
        progressed(s, e).1.done matches Some(r) ==> r == (s.total, s.total, true),
        progressed(s, e).1.report matches Some(r) ==> r.1 == s.total && !r.2,
{
}

/// What a file on this machine holds once `sent` was received: it is added to what is
/// kept of `part`, unless that is discarded or replaced.
pub open spec fn stored(discard: bool, append: bool, part: Seq<u8>, sent: Seq<u8>) -> Seq<u8> {
    if append && !discard {
        part + sent
    } else {
        sent
    }
}

/// A transfer completes the file: where what was received before is the beginning of
/// the file, or is more than the whole of it, then what is kept and what the server
/// sends, from the requested byte on or the whole file, are together the file.
pub proof fn resumed_transfers_complete_the_file(
    s: DownloadView,
    content: Seq<u8>,
    file: Option<u64>,
    part: Option<Seq<u8>>,
    partial: bool,
)
    requires
        well_formed(s),
        s.stage == DownloadStage::Inspect,
        s.expected[s.index] == content.len(),
        part matches Some(p) ==> p.len() <= u64::MAX && (p.len() > content.len() || p
            == content.take(p.len() as int)),
    ensures
        ({
            let size: Option<u64> = match part {
                Some(p) => Some(p.len() as u64),
                None => None,
            };
            let received = match part {
                Some(p) => p,
                None => Seq::empty(),
            };
            let a = progressed(s, DownloadEvent::Sizes { file, part: size }).0;
            a.stage matches DownloadStage::Request { discard, from } ==> {
                let b = progressed(a, DownloadEvent::Response { partial }).0;
                &&& from <= content.len()
                &&& b.stage == (DownloadStage::Receive { append: partial })
                &&& b.index == s.index
                &&& stored(
                    discard,
                    partial,
                    received,
                    if partial {
                        content.skip(from as int)
                    } else {
                        content
                    },
                ) == content
            }
        }),
{
    assert(content.skip(0) == content);
    if let Some(p) = part {
        if p.len() <= content.len() {
            assert(content.take(p.len() as int) + content.skip(p.len() as int) == content);
        }
    } else {
        assert(Seq::<u8>::empty() + content == content);
    }
}

/// A transfer that keeps what was received before asks for the file from the byte at
/// which that ends; one that discards it asks for the whole file.
pub proof fn transfers_go_on_where_they_stopped(
    s: DownloadView,
    file: Option<u64>,
    part: Option<u64>,
)
    requires
        well_formed(s),
        s.stage == DownloadStage::Inspect,
    ensures
        progressed(s, DownloadEvent::Sizes { file, part }).0.stage matches DownloadStage::Request {
            discard,
            from,
        } ==> {
            &&& !discard && part is Some ==> part == Some(from)
            &&& part is None ==> !discard && from == 0
            &&& discard ==> from == 0
        },
{
}

/// A file is left alone where it has its expected size, which is known; otherwise it
/// is copied where it is on this machine, and fetched where it is not. Nothing is
/// counted before it is there.
pub proof fn files_are_left_copied_or_fetched(
    s: DownloadView,
    file: Option<u64>,
    part: Option<u64>,
)
    requires
        well_formed(s),
        s.stage == DownloadStage::Inspect,
    ensures
        ({
            let (a, step) = progressed(s, DownloadEvent::Sizes { file, part });
            let complete = s.expected[s.index] > 0 && file is Some && file.unwrap()
                == s.expected[s.index];
            &&& step.failure is None
            &&& a.index == s.index + 1 <==> complete
            &&& a.index == s.index <==> !complete
            &&& a.stage == DownloadStage::Copy <==> !complete && s.local[s.index]
            &&& a.stage is Request <==> !complete && !s.local[s.index]
            &&& !complete ==> a.downloaded == s.downloaded && step.report is None
            &&& complete ==> step.report == Some((a.downloaded, s.total, false))
        }),
{
}

/// What was received before counts where the server goes on behind it, and only there;
/// what comes in counts byte for byte, and is reported when a report is due.
pub proof fn received_bytes_count(s: DownloadView, from: u64, discard: bool, partial: bool, len: u64, due: bool)
    requires
        well_formed(s),
        s.downloaded + from + len <= u64::MAX,
    ensures
        s.stage == (DownloadStage::Request { discard, from }) ==> progressed(
            s,
            DownloadEvent::Response { partial },
        ).0.downloaded == s.downloaded + if partial {
            from as int
        } else {
            0
        },
        s.stage is Receive ==> ({
            let (a, step) = progressed(s, DownloadEvent::Chunk { len, due });
            &&& a.downloaded == s.downloaded + len
            &&& a.stage == s.stage
            &&& a.index == s.index
            &&& step.report is Some <==> due
            &&& step.report matches Some(r) ==> r.0 == s.downloaded + len
        }),
{
}

/// Files are dealt with one after the other: an event leaves the current file, or moves
/// on to the next; the list of files and the total stay as they are. All is done behind
/// the last file, and only there.
pub proof fn files_come_one_after_the_other(s: DownloadView, e: DownloadEvent<Seq<char>>)
    requires
        well_formed(s),
    ensures
        ({
            let (a, step) = progressed(s, e);
            &&& well_formed(a)
            &&& a.expected == s.expected && a.local == s.local && a.total == s.total
            &&& a.index == s.index || a.index == s.index + 1
            &&& a.index == s.index + 1 ==> a.stage == if a.index < s.expected.len() {
                DownloadStage::Inspect
            } else {
                DownloadStage::Finished
            }
            &&& a.index == s.index && a.stage == DownloadStage::Finished ==> s.stage
                == DownloadStage::Finished
            &&& a.stage == DownloadStage::Failed ==> a.index == s.index
            &&& e == DownloadEvent::<Seq<char>>::Received && s.stage is Receive ==> a.index == s.index + 1
            &&& e == DownloadEvent::<Seq<char>>::Copied && s.stage == DownloadStage::Copy ==> a.index
                == s.index + 1
            &&& a.index == s.index + 1 ==> s.stage == DownloadStage::Inspect || e
                == DownloadEvent::<Seq<char>>::Received || e == DownloadEvent::<Seq<char>>::Copied
        }),
{
}

/// A transfer or a copy that fails ends the download with its error, and nothing else
/// does; a download that has ended stays as it is and says nothing more.
pub proof fn failures_end_the_download(s: DownloadView, e: DownloadEvent<Seq<char>>, m: Seq<char>, url: Seq<char>)
    requires
        well_formed(s),
    ensures
        ({
            let (a, step) = progressed(s, e);
            &&& s.stage == DownloadStage::Finished || s.stage == DownloadStage::Failed ==> a == s
                && step.report is None && step.done is None && step.failure is None
            &&& step.failure is Some <==> s.stage != DownloadStage::Failed && a.stage
                == DownloadStage::Failed
            &&& (s.stage is Request || s.stage is Receive) && e == DownloadEvent::Broken(m)
                ==> step.failure == Some(m)
            &&& s.stage == DownloadStage::Copy && e == (DownloadEvent::CopyFailed { url, error: m })
                ==> step.failure == Some("copie de "@ + url + " : "@ + m)
            &&& step.failure is Some ==> e is Broken || e is CopyFailed
            &&& step.failure is Some ==> step.report is None && step.done is None && a.downloaded
                == s.downloaded
        }),
{
}

/// The total is the sum of the sizes, as long as that can be counted: it is the total
/// of the first files and of the others together, and a single file counts with its
/// size.
pub proof fn totals_add_up(a: Seq<u64>, b: Seq<u64>, x: u64)
    requires
        size_sum(a + b) <= u64::MAX,
    ensures
        sat_total(a + b) == size_sum(a + b),
        size_sum(a + b) == size_sum(a) + size_sum(b),
        sat_total(a + b) == sat_total(a) + sat_total(b),
        sat_total(seq![x]) == x,
        sat_total(Seq::empty()) == 0,
{
    lemma_size_sum_concat(a, b);
    lemma_size_sum_positive(a);
    lemma_size_sum_positive(b);
    lemma_total(a + b);
    lemma_total(a);
    lemma_total(b);
    reveal_with_fuel(sat_total, 2);
    assert(seq![x].drop_last() == Seq::<u64>::empty());
}

proof fn lemma_size_sum_concat(a: Seq<u64>, b: Seq<u64>)
    ensures
        size_sum(a + b) == size_sum(a) + size_sum(b),
    decreases b.len(),
{
    if b.len() == 0 {
        assert(a + b == a);
    } else {
        assert((a + b).drop_last() == a + b.drop_last());
        lemma_size_sum_concat(a, b.drop_last());
    }
}

proof fn lemma_total(sizes: Seq<u64>)
    requires
        size_sum(sizes) <= u64::MAX,
    ensures
        sat_total(sizes) == size_sum(sizes),
    decreases sizes.len(),
{
    if sizes.len() > 0 {
        lemma_size_sum_positive(sizes.drop_last());
        lemma_total(sizes.drop_last());
    }
}

}
