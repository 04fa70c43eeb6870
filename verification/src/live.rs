//! Transcribing while the user still speaks: the running segment is transcribed
//! again and again for a provisional text, and is committed at a pause.
use crate::audio;
use crate::edit;
use crate::edit::Edit;
use crate::text;
use vstd::prelude::*;

verus! {

/// The time between two looks at the recording, in milliseconds.
pub const TICK_MS: u64 = 450;

/// The least length of a provisional segment, in milliseconds.
pub const MIN_PARTIAL_MS: u32 = 1_000;

/// The length from which on a pause is looked for, in milliseconds.
pub const MIN_COMMIT_MS: u32 = 3_500;

/// The length from which on a segment is cut without a pause, in milliseconds.
pub const FORCE_COMMIT_MS: u32 = 18_000;

/// The least length of a pause, in milliseconds.
pub const PAUSE_MS: u32 = 550;

/// Where the middle of a pause lies at the earliest, in milliseconds.
pub const PAUSE_POSITION_MS: u32 = 1_500;

/// The length of the end in which the quietest frame is looked for, in
/// milliseconds.
pub const QUIET_WINDOW_MS: u32 = 4_000;

/// The least length of a committed segment, in milliseconds.
pub const MIN_SEGMENT_MS: u32 = 1_000;

// ---------------------------------------------------------------------------
// Joining texts
// ---------------------------------------------------------------------------

/// `a` and `b` without the white space around them, with a space between them
/// where neither is blank.
pub open spec fn joined(a: Seq<char>, b: Seq<char>) -> Seq<char> {
    let (a, b) = (text::trimmed(a), text::trimmed(b));
    if a.len() == 0 {
        b
    } else if b.len() == 0 {
        a
    } else {
        a + " "@ + b
    }
}

/// `a` and `b` without the white space around them, with a space between them
/// where neither is blank.
pub fn join_text(a: &str, b: &str) -> (r: String)
    ensures
        r@ == joined(a@, b@),
{
    let a = text::trim(a);
    let b = text::trim(b);
    if a.as_str().is_empty() {
        b
    } else if b.as_str().is_empty() {
        a
    } else {
        text::concat3(a.as_str(), " ", b.as_str())
    }
}

/// A joined text has no white space at its ends.
pub proof fn joined_texts_are_trimmed(a: Seq<char>, b: Seq<char>)
    ensures
        text::trimmed(joined(a, b)) == joined(a, b),
{
    let (x, y) = (text::trimmed(a), text::trimmed(b));
    text::trimming_is_idempotent(a);
    text::trimming_is_idempotent(b);
    if x.len() > 0 && y.len() > 0 {
        text::trimmed_has_no_white_ends(a);
        text::trimmed_has_no_white_ends(b);
        let r = x + " "@ + y;
        assert(r[0] == x[0]);
        assert(r.last() == y.last());
    }
}

/// Segments can be joined in any grouping: the text of a dictation does not depend
/// on where it was cut into joined parts.
pub proof fn joining_is_associative(a: Seq<char>, b: Seq<char>, c: Seq<char>)
    ensures
        joined(joined(a, b), c) == joined(a, joined(b, c)),
{
    joined_texts_are_trimmed(a, b);
    joined_texts_are_trimmed(b, c);
    text::trimming_is_idempotent(a);
    text::trimming_is_idempotent(c);
    let (x, y, z) = (text::trimmed(a), text::trimmed(b), text::trimmed(c));
    reveal_strlit(" ");
    if x.len() > 0 && y.len() > 0 && z.len() > 0 {
        assert(x + " "@ + y + " "@ + z == x + " "@ + (y + " "@ + z));
    }
}

// ---------------------------------------------------------------------------
// Where the recording is cut
// ---------------------------------------------------------------------------

/// The number of frames of a signal of `n` samples.
pub open spec fn frames_of(n: nat, rate: u32) -> nat {
    ((n + audio::frame_samples(rate) - 1) / audio::frame_samples(rate) as int) as nat
}

/// Whether `c` is a place to cut a signal of `n` samples whose frames have the
/// levels `levels`, those below `threshold` being quiet: the middle of the last
/// pause, where the signal is long enough to be committed; where it is much longer
/// and has no pause, the quietest frame of its end.
pub open spec fn cut_candidate(
    n: nat,
    rate: u32,
    levels: Seq<u32>,
    threshold: u32,
    c: Option<int>,
) -> bool {
    let quiet = audio::quiet_frames(levels, threshold);
    if n > 0 && audio::lasts(n, rate, MIN_COMMIT_MS as nat) {
        if audio::pause_found(quiet, rate, PAUSE_MS, PAUSE_POSITION_MS, None) && audio::lasts(
            n,
            rate,
            FORCE_COMMIT_MS as nat,
        ) {
            c is Some && audio::quiet_point(levels, rate, QUIET_WINDOW_MS, c.unwrap())
        } else {
            audio::pause_found(quiet, rate, PAUSE_MS, PAUSE_POSITION_MS, c)
        }
    } else {
        c is None
    }
}

/// The cut, unless the segment in front of it is too short.
pub open spec fn long_enough(c: Option<int>, rate: u32) -> Option<int> {
    match c {
        Some(x) if x > 0 && audio::lasts(x as nat, rate, MIN_SEGMENT_MS as nat) => Some(x),
        _ => None,
    }
}

proof fn lemma_frames(n: nat, rate: u32, k: int)
    requires
        0 <= k < frames_of(n, rate),
    ensures
        k * audio::frame_samples(rate) < n,
        0 <= k * audio::frame_samples(rate),
        k * audio::frame_samples(rate) / (audio::frame_samples(rate) as int) == k,
{
    let f = audio::frame_samples(rate) as int;
    let q = (n + f - 1) / f;
    assert(q * f <= n + f - 1) by (nonlinear_arith)
        requires
            q == (n + f - 1) / f,
            f >= 1,
            n >= 0,
    ;
    assert(k * f <= (q - 1) * f) by (nonlinear_arith)
        requires
            k <= q - 1,
            f >= 1,
    ;
    assert((q - 1) * f == q * f - f) by (nonlinear_arith);
    assert(0 <= k * f && k * f / f == k) by (nonlinear_arith)
        requires
            k >= 0,
            f >= 1,
    ;
}

/// A cut lies inside the signal, at the start of one of its frames.
pub proof fn cuts_lie_on_frames(
    n: nat,
    rate: u32,
    levels: Seq<u32>,
    threshold: u32,
    c: Option<int>,
)
    requires
        levels.len() == frames_of(n, rate),
        cut_candidate(n, rate, levels, threshold, c),
        c is Some,
    ensures
        0 <= c.unwrap() < n,
        exists|k: int| 0 <= k < levels.len() && c.unwrap() == #[trigger] (k
            * audio::frame_samples(rate)),
{
    let quiet = audio::quiet_frames(levels, threshold);
    let f = audio::frame_samples(rate) as int;
    let p = c.unwrap();
    assert((n + f - 1) / f >= 1) by (nonlinear_arith)
        requires
            n >= 1,
            f >= 1,
    ;
    if audio::pause_found(quiet, rate, PAUSE_MS, PAUSE_POSITION_MS, None) && audio::lasts(
        n,
        rate,
        FORCE_COMMIT_MS as nat,
    ) {
        let start = audio::window_start(levels.len(), QUIET_WINDOW_MS);
        let i = choose|i: int| #[trigger] audio::quietest(levels, start, i) && p == i * f;
        lemma_frames(n, rate, i);
        assert(p == i * f);
    } else {
        let frames = audio::silence_frames(PAUSE_MS);
        let center = audio::sample_at(rate, PAUSE_POSITION_MS);
        let (s, e) = choose|s: int, e: int| #[trigger]
            audio::pause(quiet, rate, frames, center, s, e) && p == audio::middle(s, e, rate);
        let k = (s + e) / 2;
        lemma_frames(n, rate, k);
        assert(p == k * f);
    }
}

/// There is one place to cut a signal: two cuts of the same signal are the same.
pub proof fn cuts_are_unique(
    n: nat,
    rate: u32,
    levels: Seq<u32>,
    threshold: u32,
    c: Option<int>,
    d: Option<int>,
)
    requires
        cut_candidate(n, rate, levels, threshold, c),
        cut_candidate(n, rate, levels, threshold, d),
    ensures
        c == d,
{
    let quiet = audio::quiet_frames(levels, threshold);
    let f = audio::frame_samples(rate) as int;
    if n > 0 && audio::lasts(n, rate, MIN_COMMIT_MS as nat) {
        if audio::pause_found(quiet, rate, PAUSE_MS, PAUSE_POSITION_MS, None) && audio::lasts(
            n,
            rate,
            FORCE_COMMIT_MS as nat,
        ) {
            let start = audio::window_start(levels.len(), QUIET_WINDOW_MS);
            let i = choose|i: int| #[trigger]
                audio::quietest(levels, start, i) && c.unwrap() == i * f;
            let j = choose|i: int| #[trigger]
                audio::quietest(levels, start, i) && d.unwrap() == i * f;
            assert(levels[i] == levels[i] && levels[j] == levels[j]);
            assert(i == j);
        } else if c is Some && d is Some {
            let frames = audio::silence_frames(PAUSE_MS);
            let center = audio::sample_at(rate, PAUSE_POSITION_MS);
            let (s, e) = choose|s: int, e: int|
                {
                    &&& #[trigger] audio::pause(quiet, rate, frames, center, s, e)
                    &&& c.unwrap() == audio::middle(s, e, rate)
                    &&& forall|s2: int, e2: int| #[trigger]
                        audio::pause(quiet, rate, frames, center, s2, e2) ==> e2 <= e
                };
            let (t, g) = choose|s: int, e: int|
                {
                    &&& #[trigger] audio::pause(quiet, rate, frames, center, s, e)
                    &&& d.unwrap() == audio::middle(s, e, rate)
                    &&& forall|s2: int, e2: int| #[trigger]
                        audio::pause(quiet, rate, frames, center, s2, e2) ==> e2 <= e
                };
            assert(e == g);
            if s < t {
                assert(quiet[t - 1]);
            }
            if t < s {
                assert(quiet[s - 1]);
            }
        }
    }
}

/// The place to cut a signal of `n` samples whose frames have the levels `levels`,
/// those below `threshold` being quiet.
pub fn choose_cut(n: usize, rate: u32, levels: &Vec<u32>, threshold: u32) -> (r: Option<usize>)
    requires
        levels.len() == frames_of(n as nat, rate),
    ensures
        exists|c: Option<int>| #[trigger]
            cut_candidate(n as nat, rate, levels@, threshold, c) && audio::opt_int(r)
                == long_enough(c, rate),
        r matches Some(c) ==> c < n,
{
    if n == 0 || !audio::lasts_at_least(n, rate, MIN_COMMIT_MS) {
        assert(cut_candidate(n as nat, rate, levels@, threshold, None));
        return None;
    }
    let ghost f = audio::frame_samples(rate) as int;
    proof {
        assert((n + f - 1) / f >= 1) by (nonlinear_arith)
            requires
                n >= 1,
                f >= 1,
        ;
        lemma_frames(n as nat, rate, levels@.len() - 1);
    }
    let mut cut = audio::find_pause(levels, threshold, rate, PAUSE_MS, PAUSE_POSITION_MS);
    if cut.is_none() && audio::lasts_at_least(n, rate, FORCE_COMMIT_MS) {
        cut = Some(audio::quietest_point(levels, rate, QUIET_WINDOW_MS));
    }
    let ghost c = audio::opt_int(cut);
    proof {
        let quiet = audio::quiet_frames(levels@, threshold);
        if c is Some && !audio::pause_found(quiet, rate, PAUSE_MS, PAUSE_POSITION_MS, None) {
            assert(audio::pause_found(quiet, rate, PAUSE_MS, PAUSE_POSITION_MS, c));
        }
        assert(cut_candidate(n as nat, rate, levels@, threshold, c));
        if c is Some {
            cuts_lie_on_frames(n as nat, rate, levels@, threshold, c);
        }
    }
    match cut {
        Some(x) => if x > 0 && audio::lasts_at_least(x, rate, MIN_SEGMENT_MS) {
            Some(x)
        } else {
            None
        },
        None => None,
    }
}

// ---------------------------------------------------------------------------
// The loop
// ---------------------------------------------------------------------------

/// What is being transcribed.
#[derive(Debug, Clone, Copy, PartialEq, Eq, Structural)]
pub enum Awaiting {
    Nothing,
    /// The first `cut` samples of a tail of `len` samples, to be committed;
    /// `speech` tells whether the tail may hold speech.
    Segment { cut: usize, len: usize, speech: bool },
    /// A tail of `len` samples, for a provisional text.
    Tail { len: usize },
}

/// What has become of a transcription.
#[derive(Debug, Clone, PartialEq, Eq)]
pub enum Reply<T = String> {
    /// The samples could not be encoded.
    NotEncoded,
    /// The engine has failed.
    Failed,
    /// The engine has answered.
    Text(T),
}

impl View for Reply {
    type V = Reply<Seq<char>>;

    open spec fn view(&self) -> Reply<Seq<char>> {
        match *self {
            Reply::NotEncoded => Reply::NotEncoded,
            Reply::Failed => Reply::Failed,
            Reply::Text(t) => Reply::Text(t@),
        }
    }
}

/// What is done next.
#[derive(Debug, Clone, Copy, PartialEq, Eq, Structural)]
pub enum LiveNext {
    /// Look again after [`TICK_MS`].
    Wait,
    /// Have the first so many samples of the tail transcribed.
    Transcribe(usize),
    /// Nothing: the dictation is over.
    Stop,
}

/// What follows from an event: a change to the text in the field of the user, the
/// committed and the provisional text to show, and what is done next.
#[derive(Debug, Clone)]
#[verifier::ext_equal]
pub struct LiveStep<T = String> {
    pub edit: Option<Edit<T>>,
    pub show: Option<(T, T)>,
    pub next: LiveNext,
}

impl View for LiveStep {
    type V = LiveStep<Seq<char>>;

    open spec fn view(&self) -> LiveStep<Seq<char>> {
        LiveStep {
            edit: match self.edit {
                Some(e) => Some(e@),
                None => None,
            },
            show: match self.show {
                Some(p) => Some((p.0@, p.1@)),
                None => None,
            },
            next: self.next,
        }
    }
}

/// The transcription of a dictation that goes on.
#[derive(Debug, Clone)]
#[verifier::ext_equal]
pub struct LiveState<T = String> {
    /// The sample rate of the recording.
    pub rate: u32,
    /// Whether the text is typed into the field of the user as it comes.
    pub direct: bool,
    /// The text of the committed segments.
    pub committed: T,
    /// The sample at which the running segment begins.
    pub boundary: usize,
    /// The provisional text of the running segment.
    pub partial: T,
    /// The provisional text that stands in the field of the user.
    pub typed_partial: T,
    /// The length of the tail that was last transcribed for a provisional text.
    pub last_partial_len: usize,
    pub awaiting: Awaiting,
}

impl View for LiveState {
    type V = LiveState<Seq<char>>;

    open spec fn view(&self) -> LiveState<Seq<char>> {
        LiveState {
            rate: self.rate,
            direct: self.direct,
            committed: self.committed@,
            boundary: self.boundary,
            partial: self.partial@,
            typed_partial: self.typed_partial@,
            last_partial_len: self.last_partial_len,
            awaiting: self.awaiting,
        }
    }
}

/// Whether the segment that is being transcribed ends at a sample that has a
/// number.
pub open spec fn well_formed<T>(s: LiveState<T>) -> bool {
    s.awaiting matches Awaiting::Segment { cut, .. } ==> s.boundary + cut <= usize::MAX
}

/// Nothing to change or to show.
pub open spec fn idle(next: LiveNext) -> LiveStep<Seq<char>> {
    LiveStep { edit: None, show: None, next }
}

/// The committed text as it is shown: where it is typed as it comes, it stands in
/// the field of the user and is not shown again.
pub open spec fn shown_committed(s: LiveState<Seq<char>>) -> Seq<char> {
    if s.direct {
        Seq::empty()
    } else {
        s.committed
    }
}

/// The change that puts `new` in place of the provisional text in the field of the
/// user, where there is one.
pub open spec fn typing(s: LiveState<Seq<char>>, new: Seq<char>, settle: bool) -> Option<
    Edit<Seq<char>>,
> {
    if s.direct {
        edit::edit_between(s.typed_partial, new, settle)
    } else {
        None
    }
}

/// What is done for a provisional text of a tail of `n` samples: nothing as long as
/// less than half a second is new; without speech the provisional text goes;
/// otherwise the tail is transcribed.
pub open spec fn provisional(s: LiveState<Seq<char>>, n: usize, speech: bool) -> (
    LiveState<Seq<char>>,
    LiveStep<Seq<char>>,
) {
    if n < s.last_partial_len + s.rate / 2 {
        (s, idle(LiveNext::Wait))
    } else if !speech {
        (
            LiveState { partial: Seq::empty(), last_partial_len: n, ..s },
            if s.partial.len() > 0 {
                LiveStep {
                    edit: typing(s, Seq::empty(), false),
                    show: Some((shown_committed(s), Seq::empty())),
                    next: LiveNext::Wait,
                }
            } else {
                idle(LiveNext::Wait)
            },
        )
    } else {
        (LiveState { awaiting: Awaiting::Tail { len: n }, ..s }, idle(LiveNext::Transcribe(n)))
    }
}

/// What follows when a tail of `n` samples is there that can be cut at `cut`;
/// `cut_speech` and `speech` tell whether the part in front of the cut and the
/// whole tail may hold speech.
pub open spec fn heard(
    s: LiveState<Seq<char>>,
    n: usize,
    cut: Option<int>,
    cut_speech: bool,
    speech: bool,
) -> (LiveState<Seq<char>>, LiveStep<Seq<char>>) {
    if !audio::lasts(n as nat, s.rate, MIN_PARTIAL_MS as nat) {
        (s, idle(LiveNext::Wait))
    } else {
        match cut {
            Some(c) => if !cut_speech {
                (
                    LiveState {
                        boundary: (s.boundary + c) as usize,
                        partial: Seq::empty(),
                        last_partial_len: 0,
                        ..s
                    },
                    idle(LiveNext::Wait),
                )
            } else {
                (
                    LiveState {
                        awaiting: Awaiting::Segment { cut: c as usize, len: n, speech },
                        ..s
                    },
                    idle(LiveNext::Transcribe(c as usize)),
                )
            },
            None => provisional(s, n, speech),
        }
    }
}

/// Going on while the dictation is active.
pub open spec fn while_active(active: bool) -> LiveNext {
    if active {
        LiveNext::Wait
    } else {
        LiveNext::Stop
    }
}

/// What a committed segment is typed as: with a space behind it, unless it is
/// empty.
pub open spec fn typed_segment(seg: Seq<char>) -> Seq<char> {
    if seg.len() > 0 {
        seg + " "@
    } else {
        Seq::empty()
    }
}

/// What follows when the segment in front of the cut is transcribed as `t`: it is
/// joined to the committed text, and the next segment begins behind it.
pub open spec fn committed_segment(
    s: LiveState<Seq<char>>,
    cut: usize,
    t: Seq<char>,
    active: bool,
) -> (LiveState<Seq<char>>, LiveStep<Seq<char>>) {
    let seg = text::trimmed(t);
    let after = LiveState {
        committed: joined(s.committed, seg),
        boundary: (s.boundary + cut) as usize,
        partial: Seq::empty(),
        typed_partial: if s.direct {
            Seq::empty()
        } else {
            s.typed_partial
        },
        last_partial_len: 0,
        awaiting: Awaiting::Nothing,
        ..s
    };
    (
        after,
        LiveStep {
            edit: typing(s, typed_segment(seg), true),
            show: Some((shown_committed(after), Seq::empty())),
            next: while_active(active),
        },
    )
}

/// What follows from the outcome of a transcription; `active` tells whether the
/// dictation goes on.
pub open spec fn answered(s: LiveState<Seq<char>>, reply: Reply<Seq<char>>, active: bool) -> (
    LiveState<Seq<char>>,
    LiveStep<Seq<char>>,
) {
    let free = LiveState { awaiting: Awaiting::Nothing, ..s };
    match (s.awaiting, reply) {
        (Awaiting::Nothing, _) => (s, idle(LiveNext::Wait)),
        (Awaiting::Segment { cut, len, speech }, Reply::NotEncoded) => provisional(
            free,
            len,
            speech,
        ),
        (Awaiting::Segment { cut, len, speech }, Reply::Failed) => (
            free,
            idle(while_active(active)),
        ),
        (Awaiting::Segment { cut, len, speech }, Reply::Text(t)) => committed_segment(
            s,
            cut,
            t,
            active,
        ),
        (Awaiting::Tail { len }, Reply::Text(t)) => if active {
            (
                LiveState { partial: t, last_partial_len: len, ..free },
                LiveStep {
                    edit: typing(s, t, false),
                    show: Some((shown_committed(s), t)),
                    next: LiveNext::Wait,
                },
            )
        } else {
            (free, idle(LiveNext::Stop))
        },
        (Awaiting::Tail { len }, _) => (free, idle(LiveNext::Wait)),
    }
}

/// The provisional text in the field of the user once `e` was tried: `e` has put
/// its target there where it succeeded, and that is provisional unless it is final.
pub open spec fn after_typing(s: LiveState<Seq<char>>, e: Edit<Seq<char>>, ok: bool) -> LiveState<
    Seq<char>,
> {
    if ok && !e.settle {
        LiveState { typed_partial: e.target, ..s }
    } else {
        s
    }
}

fn retype_opt(direct: bool, old: &str, new: &str, settle: bool) -> (r: Option<Edit>)
    ensures
        match r {
            Some(e) => direct && edit::edit_between(old@, new@, settle) == Some(e@),
            None => !direct || edit::edit_between(old@, new@, settle) is None,
        },
        r is Some ==> edit::field_after(old@, edit::opt_edit(r)) == new@,
        r matches Some(e) ==> e@.target == new@,
{
    if direct {
        edit::retype(old, new, settle)
    } else {
        None
    }
}

impl LiveState {
    /// The transcription of a dictation that begins.
    pub fn new(rate: u32, direct: bool) -> (s: Self)
        ensures
            well_formed(s),
            s@ == (LiveState {
                rate,
                direct,
                committed: Seq::<char>::empty(),
                boundary: 0,
                partial: Seq::empty(),
                typed_partial: Seq::empty(),
                last_partial_len: 0,
                awaiting: Awaiting::Nothing,
            }),
    {
        LiveState {
            rate,
            direct,
            committed: String::new(),
            boundary: 0,
            partial: String::new(),
            typed_partial: String::new(),
            last_partial_len: 0,
            awaiting: Awaiting::Nothing,
        }
    }

    fn shown(&self) -> (r: String)
        ensures
            r@ == shown_committed(self@),
    {
        if self.direct {
            String::new()
        } else {
            self.committed.as_str().to_string()
        }
    }

    fn try_partial(&mut self, n: usize, speech: bool) -> (r: LiveStep)
        requires
            old(self).awaiting == Awaiting::Nothing,
        ensures
            (final(self)@, r@) == provisional(old(self)@, n, speech),
            well_formed(*final(self)),
            r@.edit matches Some(e) ==> edit::field_after(old(self)@.typed_partial, r@.edit)
                == e.target,
    {
        let due: u128 = self.last_partial_len as u128 + (self.rate / 2) as u128;
        if (n as u128) < due {
            return LiveStep { edit: None, show: None, next: LiveNext::Wait };
        }
        if !speech {
            let had = !self.partial.as_str().is_empty();
            self.partial = String::new();
            self.last_partial_len = n;
            if had {
                let edit = retype_opt(self.direct, self.typed_partial.as_str(), "", false);
                proof {
                    reveal_strlit("");
                    assert(""@ == Seq::<char>::empty());
                }
                LiveStep {
                    edit,
                    show: Some((self.shown(), String::new())),
                    next: LiveNext::Wait,
                }
            } else {
                LiveStep { edit: None, show: None, next: LiveNext::Wait }
            }
        } else {
            self.awaiting = Awaiting::Tail { len: n };
            LiveStep { edit: None, show: None, next: LiveNext::Transcribe(n) }
        }
    }

    /// Looks at the recording, of which `samples` come behind the boundary; their
    /// frames have the levels `levels`, and those below `threshold` are quiet. The
    /// loop ends where the dictation is not active any more. While a transcription
    /// is awaited nothing is done.
    pub fn tick(&mut self, active: bool, samples: &Vec<u32>, levels: &Vec<u32>, threshold: u32) -> (r:
        LiveStep)
        requires
            well_formed(*old(self)),
            levels.len() == frames_of(samples@.len(), old(self).rate),
            old(self).boundary + samples.len() <= usize::MAX,
        ensures
            well_formed(*final(self)),
            old(self).awaiting != Awaiting::Nothing ==> (final(self)@, r@) == (
                old(self)@,
                idle(LiveNext::Wait),
            ),
            old(self).awaiting == Awaiting::Nothing && !active ==> (final(self)@, r@) == (
                old(self)@,
                idle(LiveNext::Stop),
            ),
            old(self).awaiting == Awaiting::Nothing && active ==> exists|c: Option<int>|
                #[trigger] cut_candidate(
                    samples@.len(),
                    old(self).rate,
                    levels@,
                    threshold,
                    c,
                ) && (final(self)@, r@) == heard(
                    old(self)@,
                    samples.len(),
                    long_enough(c, old(self).rate),
                    speech_before(
                        samples@,
                        levels@,
                        old(self).rate,
                        long_enough(c, old(self).rate),
                    ),
                    audio::speech(samples@, levels@),
                ),
            r@.edit matches Some(e) ==> edit::field_after(old(self)@.typed_partial, r@.edit)
                == e.target,
    {
        if self.awaiting != Awaiting::Nothing {
            return LiveStep { edit: None, show: None, next: LiveNext::Wait };
        }
        if !active {
            return LiveStep { edit: None, show: None, next: LiveNext::Stop };
        }
        let n = samples.len();
        let cut = choose_cut(n, self.rate, levels, threshold);
        let ghost raw = choose|c: Option<int>| #[trigger]
            cut_candidate(n as nat, self.rate, levels@, threshold, c) && audio::opt_int(cut)
                == long_enough(c, self.rate);
        assert(cut_candidate(samples@.len(), self.rate, levels@, threshold, raw));
        if !audio::lasts_at_least(n, self.rate, MIN_PARTIAL_MS) {
            return LiveStep { edit: None, show: None, next: LiveNext::Wait };
        }
        let speech = audio::has_speech(samples, levels);
        match cut {
            Some(c) => {
                let frame = audio::frame_len(self.rate);
                proof {
                    cuts_lie_on_frames(n as nat, self.rate, levels@, threshold, raw);
                    let k = choose|k: int|
                        0 <= k < levels@.len() && c == #[trigger] (k * audio::frame_samples(
                            self.rate,
                        ));
                    lemma_frames(n as nat, self.rate, k);
                }
                if !audio::starts_with_speech(samples, c, levels, c / frame) {
                    self.boundary = self.boundary + c;
                    self.partial = String::new();
                    self.last_partial_len = 0;
                    LiveStep { edit: None, show: None, next: LiveNext::Wait }
                } else {
                    self.awaiting = Awaiting::Segment { cut: c, len: n, speech };
                    LiveStep { edit: None, show: None, next: LiveNext::Transcribe(c) }
                }
            },
            None => self.try_partial(n, speech),
        }
    }

    fn commit(&mut self, cut: usize, t: &str, active: bool) -> (r: LiveStep)
        requires
            old(self).boundary + cut <= usize::MAX,
        ensures
            (final(self)@, r@) == committed_segment(old(self)@, cut, t@, active),
            well_formed(*final(self)),
            r@.edit matches Some(e) ==> edit::field_after(old(self)@.typed_partial, r@.edit)
                == e.target,
    {
        let seg = text::trim(t);
        let mut typed = String::new();
        if !seg.as_str().is_empty() {
            typed = text::concat(seg.as_str(), " ");
        }
        let edit = retype_opt(self.direct, self.typed_partial.as_str(), typed.as_str(), true);
        self.committed = join_text(self.committed.as_str(), seg.as_str());
        self.boundary = self.boundary + cut;
        self.partial = String::new();
        if self.direct {
            self.typed_partial = String::new();
        }
        self.last_partial_len = 0;
        self.awaiting = Awaiting::Nothing;
        let next = if active {
            LiveNext::Wait
        } else {
            LiveNext::Stop
        };
        LiveStep { edit, show: Some((self.shown(), String::new())), next }
    }

    /// Takes note of the outcome of the transcription that was asked for; `active`
    /// tells whether the dictation goes on.
    pub fn answer(&mut self, reply: Reply, active: bool) -> (r: LiveStep)
        requires
            well_formed(*old(self)),
        ensures
            well_formed(*final(self)),
            (final(self)@, r@) == answered(old(self)@, reply@, active),
            r@.edit matches Some(e) ==> edit::field_after(old(self)@.typed_partial, r@.edit)
                == e.target,
    {
        match (self.awaiting, reply) {
            (Awaiting::Nothing, _) => LiveStep { edit: None, show: None, next: LiveNext::Wait },
            (Awaiting::Segment { cut, len, speech }, Reply::NotEncoded) => {
                self.awaiting = Awaiting::Nothing;
                self.try_partial(len, speech)
            },
            (Awaiting::Segment { cut, len, speech }, Reply::Failed) => {
                self.awaiting = Awaiting::Nothing;
                let next = if active {
                    LiveNext::Wait
                } else {
                    LiveNext::Stop
                };
                LiveStep { edit: None, show: None, next }
            },
            (Awaiting::Segment { cut, len, speech }, Reply::Text(t)) => self.commit(
                cut,
                t.as_str(),
                active,
            ),
            (Awaiting::Tail { len }, Reply::Text(t)) => {
                self.awaiting = Awaiting::Nothing;
                if active {
                    let edit = retype_opt(
                        self.direct,
                        self.typed_partial.as_str(),
                        t.as_str(),
                        false,
                    );
                    self.partial = t.as_str().to_string();
                    self.last_partial_len = len;
                    LiveStep { edit, show: Some((self.shown(), t)), next: LiveNext::Wait }
                } else {
                    LiveStep { edit: None, show: None, next: LiveNext::Stop }
                }
            },
            (Awaiting::Tail { len }, _) => {
                self.awaiting = Awaiting::Nothing;
                LiveStep { edit: None, show: None, next: LiveNext::Wait }
            },
        }
    }

    /// Takes note of the outcome of an edit.
    pub fn typed(&mut self, edit: &Edit, ok: bool)
        ensures
            final(self)@ == after_typing(old(self)@, edit@, ok),
            final(self).boundary == old(self).boundary,
            final(self).awaiting == old(self).awaiting,
    {
        if ok && !edit.settle {
            self.typed_partial = edit.target.as_str().to_string();
        }
    }
}

/// Whether the part of a signal in front of the cut may hold speech.
pub open spec fn speech_before(
    samples: Seq<u32>,
    levels: Seq<u32>,
    rate: u32,
    cut: Option<int>,
) -> bool {
    match cut {
        Some(c) => audio::speech(
            samples.take(c),
            levels.take(c / (audio::frame_samples(rate) as int)),
        ),
        None => false,
    }
}

// ---------------------------------------------------------------------------
// Laws
// ---------------------------------------------------------------------------

/// The running segment never begins earlier than before, and never behind what was
/// recorded: a look at the recording moves the boundary by less than the tail.
pub proof fn looking_moves_forward(
    s: LiveState<Seq<char>>,
    samples: Seq<u32>,
    levels: Seq<u32>,
    threshold: u32,
    c: Option<int>,
    cut_speech: bool,
    speech: bool,
)
    requires
        s.awaiting == Awaiting::Nothing,
        levels.len() == frames_of(samples.len(), s.rate),
        s.boundary + samples.len() <= usize::MAX,
        cut_candidate(samples.len(), s.rate, levels, threshold, c),
    ensures
        ({
            let after = heard(
                s,
                samples.len() as usize,
                long_enough(c, s.rate),
                cut_speech,
                speech,
            ).0;
            &&& s.boundary <= after.boundary <= s.boundary + samples.len()
            &&& after.committed == s.committed
            &&& after.awaiting matches Awaiting::Segment { cut, .. } ==> cut < samples.len()
        }),
{
    if c is Some {
        cuts_lie_on_frames(samples.len(), s.rate, levels, threshold, c);
    }
}

/// An answer never takes back committed text: the committed text stays as it is,
/// or the transcribed segment is joined to it and the boundary moves behind that
/// segment.
pub proof fn committed_text_only_grows(
    s: LiveState<Seq<char>>,
    reply: Reply<Seq<char>>,
    active: bool,
)
    requires
        well_formed(s),
    ensures
        ({
            let after = answered(s, reply, active).0;
            match (s.awaiting, reply) {
                (Awaiting::Segment { cut, .. }, Reply::Text(t)) => after.committed == joined(
                    s.committed,
                    t,
                ) && after.boundary == s.boundary + cut,
                _ => after.committed == s.committed && after.boundary == s.boundary,
            }
        }),
{
    if let Reply::Text(t) = reply {
        text::trimming_is_idempotent(t);
    }
}

/// The loop ends only once the dictation is over.
pub proof fn active_loops_go_on(s: LiveState<Seq<char>>, reply: Reply<Seq<char>>)
    ensures
        answered(s, reply, true).1.next != LiveNext::Stop,
{
}

/// Where the text is typed as it comes, an answer leaves in the field, in place of
/// the provisional text, the committed segment with a space behind it, or the new
/// provisional text; and that is what the next edit starts from.
pub proof fn the_field_follows(s: LiveState<Seq<char>>, t: Seq<char>)
    requires
        s.direct,
    ensures
        ({
            let (after, step) = answered(s, Reply::Text(t), true);
            let field = match step.edit {
                Some(e) => e.target,
                None => s.typed_partial,
            };
            let known = match step.edit {
                Some(e) => after_typing(after, e, true).typed_partial,
                None => after.typed_partial,
            };
            match s.awaiting {
                Awaiting::Segment { .. } => field == typed_segment(text::trimmed(t)) && known
                    == Seq::<char>::empty(),
                Awaiting::Tail { .. } => field == t && known == t,
                Awaiting::Nothing => after == s && step.edit is None,
            }
        }),
{
}

/// Where the text is not typed as it comes, the field of the user is left alone.
pub proof fn other_fields_are_left_alone(
    s: LiveState<Seq<char>>,
    reply: Reply<Seq<char>>,
    active: bool,
)
    requires
        !s.direct,
    ensures
        answered(s, reply, active).1.edit is None,
{
}

/// A joined text holds both texts without the white space around them, the first one
/// first, and one space between them where neither is blank.
pub proof fn joined_texts_hold_both(a: Seq<char>, b: Seq<char>)
    ensures
        ({
            let (x, y) = (text::trimmed(a), text::trimmed(b));
            &&& x.len() > 0 && y.len() > 0 ==> joined(a, b) == x + seq![' '] + y
            &&& x.len() == 0 ==> joined(a, b) == y
            &&& y.len() == 0 ==> joined(a, b) == x
        }),
{
    reveal_strlit(" ");
    assert(" "@ == seq![' ']);
}

/// A signal has as many frames as are needed for its samples, and no more.
pub proof fn frames_hold_the_samples(n: nat, rate: u32)
    ensures
        n <= frames_of(n, rate) * audio::frame_samples(rate),
        n > 0 ==> (frames_of(n, rate) - 1) * audio::frame_samples(rate) < n,
        n == 0 ==> frames_of(n, rate) == 0,
{
    let f = audio::frame_samples(rate) as int;
    let q = (n + f - 1) / f;
    assert(q >= 0 && q * f <= n + f - 1 < q * f + f && (n > 0 ==> q >= 1) && (n == 0 ==> q == 0))
        by (nonlinear_arith)
        requires
            q == (n + f - 1) / f,
            f >= 1,
            n >= 0,
    ;
    assert((q - 1) * f == q * f - f) by (nonlinear_arith);
}

/// A signal is cut from 3.5 seconds on: at a pause where it has one, and from 18 seconds
/// on in any case, at the quietest frame of its last four seconds where it has no pause.
pub proof fn long_signals_are_cut(
    n: nat,
    rate: u32,
    levels: Seq<u32>,
    threshold: u32,
    c: Option<int>,
)
    requires
        n > 0,
        cut_candidate(n, rate, levels, threshold, c),
    ensures
        ({
            let quiet = audio::quiet_frames(levels, threshold);
            &&& n * 1000 < 3500 * rate ==> c is None
            &&& n * 1000 >= 18000 * rate ==> c is Some
            &&& c is Some && n * 1000 < 18000 * rate ==> audio::pause_found(
                quiet,
                rate,
                550,
                1500,
                c,
            )
            &&& n * 1000 >= 3500 * rate && !audio::pause_found(quiet, rate, 550, 1500, None)
                ==> audio::pause_found(quiet, rate, 550, 1500, c)
            &&& n * 1000 >= 3500 * rate && n * 1000 < 18000 * rate && audio::pause_found(
                quiet,
                rate,
                550,
                1500,
                None,
            ) ==> audio::pause_found(quiet, rate, 550, 1500, c)
            &&& n * 1000 >= 18000 * rate && audio::pause_found(quiet, rate, 550, 1500, None)
                ==> c is Some && audio::quiet_point(levels, rate, 4000, c.unwrap())
        }),
{
}

/// A cut counts where the part in front of it lasts at least one second, and then as it
/// is.
pub proof fn segments_last_a_second(c: int, rate: u32)
    ensures
        long_enough(Some(c), rate) == Some(c) <==> c > 0 && c >= rate,
        long_enough(Some(c), rate) is Some ==> long_enough(Some(c), rate) == Some(c),
        long_enough(None, rate) is None,
{
}

/// Speech in front of a cut is transcribed, all of it, and nothing of it is passed over:
/// the running segment moves on without a transcription only where the part in front of
/// the cut holds no speech, and then to the cut.
pub proof fn speech_is_not_passed_over(
    s: LiveState<Seq<char>>,
    n: usize,
    c: int,
    cut_speech: bool,
    speech: bool,
)
    requires
        n * 1000 >= 1000 * s.rate,
        0 < c < n,
        s.boundary + n <= usize::MAX,
        s.awaiting == Awaiting::Nothing,
    ensures
        ({
            let (after, step) = heard(s, n, Some(c), cut_speech, speech);
            &&& cut_speech ==> step.next == LiveNext::Transcribe(c as usize) && after.boundary
                == s.boundary && after.awaiting == (Awaiting::Segment {
                cut: c as usize,
                len: n,
                speech,
            })
            &&& !cut_speech ==> step.next == LiveNext::Wait && after.boundary == s.boundary + c
                && after.awaiting == Awaiting::Nothing && after.partial.len() == 0
                && after.last_partial_len == 0
            &&& after.committed == s.committed && after.typed_partial == s.typed_partial
                && after.direct == s.direct && after.rate == s.rate
            &&& step.edit is None && step.show is None
        }),
{
}

/// Whether the part in front of a cut holds speech is a matter of the samples and of the
/// frames in front of the cut, and of nothing behind it.
pub proof fn only_the_part_in_front_counts(
    samples: Seq<u32>,
    more_samples: Seq<u32>,
    levels: Seq<u32>,
    more_levels: Seq<u32>,
    rate: u32,
)
    requires
        samples.len() == levels.len() * audio::frame_samples(rate),
    ensures
        speech_before(
            samples + more_samples,
            levels + more_levels,
            rate,
            Some(samples.len() as int),
        ) == audio::speech(samples, levels),
        !speech_before(samples, levels, rate, None),
{
    let (k, f) = (levels.len() as int, audio::frame_samples(rate) as int);
    assert(k * f / f == k) by (nonlinear_arith)
        requires
            k >= 0,
            f >= 1,
    ;
    assert((samples + more_samples).take(samples.len() as int) == samples);
    assert((levels + more_levels).take(k) == levels);
}

/// Without a cut a tail of less than a second waits. A longer one is transcribed for a
/// provisional text, all of it, where it holds speech and at least half a second is new;
/// where it holds none, the provisional text goes, from the display and from the field.
pub proof fn tails_are_transcribed_along(
    s: LiveState<Seq<char>>,
    n: usize,
    cut_speech: bool,
    speech: bool,
)
    requires
        s.awaiting == Awaiting::Nothing,
    ensures
        ({
            let (after, step) = heard(s, n, None, cut_speech, speech);
            let ready = n * 1000 >= 1000 * s.rate && n >= s.last_partial_len + s.rate / 2;
            &&& after.boundary == s.boundary && after.committed == s.committed
                && after.typed_partial == s.typed_partial && after.direct == s.direct && after.rate
                == s.rate
            &&& !ready ==> after == s && step.next == LiveNext::Wait && step.edit is None
                && step.show is None
            &&& ready && speech ==> step.next == LiveNext::Transcribe(n) && after.awaiting == (
            Awaiting::Tail { len: n }) && after.partial == s.partial && step.edit is None
                && step.show is None
            &&& ready && !speech ==> step.next == LiveNext::Wait && after.awaiting
                == Awaiting::Nothing && after.partial.len() == 0 && after.last_partial_len == n
            &&& ready && !speech && s.partial.len() > 0 ==> step.show == Some(
                (
                    if s.direct {
                        Seq::empty()
                    } else {
                        s.committed
                    },
                    Seq::<char>::empty(),
                ),
            )
            &&& ready && !speech && s.partial.len() > 0 && s.direct ==> match step.edit {
                Some(e) => e.target == Seq::<char>::empty() && !e.settle,
                None => s.typed_partial == Seq::<char>::empty(),
            }
            &&& !s.direct || s.partial.len() == 0 ==> step.edit is None
        }),
{
}

/// A segment that was transcribed is typed where the text is typed as it comes: without
/// the white space around it, with one space behind it, in place of the provisional text,
/// for good; an empty one only takes the provisional text away.
pub proof fn segments_are_typed_with_a_space(
    s: LiveState<Seq<char>>,
    t: Seq<char>,
    cut: usize,
    len: usize,
    speech: bool,
    active: bool,
)
    requires
        s.awaiting == (Awaiting::Segment { cut, len, speech }),
        well_formed(s),
    ensures
        ({
            let (after, step) = answered(s, Reply::Text(t), active);
            let seg = text::trimmed(t);
            let typed = if seg.len() > 0 {
                seg.push(' ')
            } else {
                Seq::empty()
            };
            &&& s.direct ==> match step.edit {
                Some(e) => e.target == typed && e.settle,
                None => s.typed_partial == typed,
            }
            &&& !s.direct ==> step.edit is None && after.typed_partial == s.typed_partial
            &&& s.direct ==> after.typed_partial.len() == 0
            &&& after.partial.len() == 0 && after.last_partial_len == 0 && after.awaiting
                == Awaiting::Nothing && after.boundary == s.boundary + cut
            &&& step.show == Some(
                (
                    if s.direct {
                        Seq::empty()
                    } else {
                        joined(s.committed, t)
                    },
                    Seq::<char>::empty(),
                ),
            )
            &&& step.next == LiveNext::Wait <==> active
            &&& step.next == LiveNext::Stop <==> !active
        }),
{
    text::trimming_is_idempotent(t);
    reveal_strlit(" ");
    let seg = text::trimmed(t);
    assert(seg + " "@ == seg.push(' '));
    edit::edits_lead_to_the_new_text(s.typed_partial, typed_segment(seg), true);
}

/// A provisional text is shown as it is behind the committed text, and typed as it is in
/// place of the one before; once the dictation is over it does not count any more.
pub proof fn provisional_texts_are_shown(
    s: LiveState<Seq<char>>,
    t: Seq<char>,
    len: usize,
    active: bool,
)
    requires
        s.awaiting == (Awaiting::Tail { len }),
    ensures
        ({
            let (after, step) = answered(s, Reply::Text(t), active);
            &&& after.awaiting == Awaiting::Nothing && after.boundary == s.boundary
                && after.committed == s.committed && after.typed_partial == s.typed_partial
            &&& active ==> after.partial == t && after.last_partial_len == len && step.next
                == LiveNext::Wait && step.show == Some(
                (
                    if s.direct {
                        Seq::empty()
                    } else {
                        s.committed
                    },
                    t,
                ),
            )
            &&& active && s.direct ==> match step.edit {
                Some(e) => e.target == t && !e.settle,
                None => s.typed_partial == t,
            }
            &&& !active ==> step.next == LiveNext::Stop && step.edit is None && step.show is None
                && after.partial == s.partial && after.last_partial_len == s.last_partial_len
        }),
{
    edit::edits_lead_to_the_new_text(s.typed_partial, t, false);
}

/// A transcription that fails changes no text: the segment stays where it is and is tried
/// again later. One whose samples could not be encoded is followed by an attempt at a
/// provisional text.
pub proof fn failed_transcriptions_lose_nothing(s: LiveState<Seq<char>>, active: bool)
    requires
        s.awaiting != Awaiting::Nothing,
    ensures
        ({
            let (after, step) = answered(s, Reply::Failed, active);
            &&& after == (LiveState { awaiting: Awaiting::Nothing, ..s })
            &&& step.edit is None && step.show is None
            &&& step.next == LiveNext::Stop <==> s.awaiting is Segment && !active
            &&& step.next == LiveNext::Wait <==> !(s.awaiting is Segment && !active)
        }),
        ({
            let (after, step) = answered(s, Reply::NotEncoded, active);
            &&& after.boundary == s.boundary && after.committed == s.committed
                && after.typed_partial == s.typed_partial
            &&& s.awaiting is Tail ==> after == (LiveState { awaiting: Awaiting::Nothing, ..s })
                && step.edit is None && step.show is None && step.next == LiveNext::Wait
            &&& s.awaiting matches Awaiting::Segment { len, speech, .. } ==> {
                let ready = len >= s.last_partial_len + s.rate / 2;
                &&& step.next == LiveNext::Transcribe(len) <==> ready && speech
                &&& step.next == LiveNext::Wait <==> !(ready && speech)
                &&& after.awaiting == if ready && speech {
                    Awaiting::Tail { len }
                } else {
                    Awaiting::Nothing
                }
            }
        }),
{
}

/// An edit that was made leaves its target as the provisional text in the field, unless
/// it was final; one that was not made leaves things as they were.
pub proof fn made_edits_are_noted(s: LiveState<Seq<char>>, e: Edit<Seq<char>>)
    ensures
        !e.settle ==> after_typing(s, e, true).typed_partial == e.target,
        e.settle ==> after_typing(s, e, true) == s,
        after_typing(s, e, false) == s,
        after_typing(s, e, true).committed == s.committed,
        after_typing(s, e, true).partial == s.partial,
{
}

}
