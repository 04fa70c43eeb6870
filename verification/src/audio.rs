//! The recorded signal: where to cut it, and whether it holds speech.
//!
//! The energy of a frame, a level, is a non-negative number in single precision.
//! It is handed over as its bit pattern: of two such numbers the larger one has
//! the larger pattern.
use vstd::prelude::*;

verus! {

/// The sample rate that the engines expect.
pub const TARGET_RATE: u32 = 16_000;

/// The pattern of positive infinity; every larger one denotes no level.
pub const INFINITE: u32 = 0x7f80_0000;

/// The pattern of the largest finite level.
pub const LARGEST: u32 = 0x7f7f_ffff;

/// The level above which a frame counts as loud, 0.012.
pub const LOUD_LEVEL: u32 = 0x3c44_9ba6;

/// The magnitude that the peak of speech exceeds, 0.04.
pub const SPEECH_PEAK: u32 = 0x3d23_d70a;

/// The number of loud frames that speech has at least.
pub const LOUD_FRAMES: usize = 7;

/// The least number of frames in which a pause is looked for.
pub const PAUSE_FRAMES: usize = 10;

/// The least time between two reports of the input level, in milliseconds.
pub const LEVEL_PERIOD_MS: u64 = 50;

/// The number of samples of a frame of 20 ms.
pub open spec fn frame_samples(rate: u32) -> nat {
    if rate / 50 > 1 {
        (rate / 50) as nat
    } else {
        1
    }
}

/// The number of samples of a frame of 20 ms.
pub fn frame_len(rate: u32) -> (n: usize)
    ensures
        n == frame_samples(rate),
{
    let n: u32 = rate / 50;
    if n > 1 {
        n as usize
    } else {
        1
    }
}

/// Whether `n` samples last at least `ms` milliseconds.
pub open spec fn lasts(n: nat, rate: u32, ms: nat) -> bool {
    n * 1000 >= ms * rate
}

/// Whether `n` samples last at least `ms` milliseconds.
pub fn lasts_at_least(n: usize, rate: u32, ms: u32) -> (b: bool)
    ensures
        b == lasts(n as nat, rate, ms as nat),
{
    assert(ms * rate <= 0xffff_ffff * 0xffff_ffff) by (nonlinear_arith)
        requires
            ms <= 0xffff_ffff,
            rate <= 0xffff_ffff,
    ;
    n as u128 * 1000 >= ms as u128 * rate as u128
}

/// The samples from index `from` on; none where there are no more than `from`.
pub fn snapshot<T: Copy>(buffer: &[T], from: usize) -> (r: Vec<T>)
    ensures
        r@ == if from >= buffer@.len() {
            Seq::<T>::empty()
        } else {
            buffer@.skip(from as int)
        },
{
    let mut r: Vec<T> = Vec::new();
    let mut i: usize = from;
    while i < buffer.len()
        invariant
            from <= i,
            from < buffer@.len() ==> i <= buffer@.len(),
            from >= buffer@.len() ==> r@.len() == 0,
            from < buffer@.len() ==> r@ == buffer@.subrange(from as int, i as int),
        decreases buffer.len() - i,
    {
        r.push(buffer[i]);
        i = i + 1;
        assert(buffer@.subrange(from as int, i as int) == buffer@.subrange(
            from as int,
            i - 1,
        ).push(buffer@[i - 1]));
    }
    proof {
        if from < buffer@.len() {
            assert(buffer@.subrange(from as int, buffer@.len() as int) == buffer@.skip(
                from as int,
            ));
        }
    }
    r
}

/// The pattern of one, the largest level that is reported.
pub const ONE: u32 = 0x3f80_0000;

/// Whether the input level is due to be reported at `now`, the last report being
/// of `last`, both in milliseconds.
pub open spec fn due(now: u64, last: u64) -> bool {
    now - last >= LEVEL_PERIOD_MS
}

/// A level no larger than one.
pub open spec fn capped(level: u32) -> u32 {
    if level < ONE {
        level
    } else {
        ONE
    }
}

/// The reports of the input level.
#[derive(Debug, Clone, Copy, PartialEq, Eq, Structural)]
pub struct Meter {
    /// The time of the last report, in milliseconds.
    pub last: u64,
}

/// The meter after a level was offered at `now`, and the level that is reported.
pub open spec fn metered(m: Meter, now: u64, level: u32) -> (Meter, Option<u32>) {
    if due(now, m.last) {
        (Meter { last: now }, Some(capped(level)))
    } else {
        (m, None)
    }
}

impl Meter {
    /// A meter that has reported nothing.
    pub fn new() -> (m: Self)
        ensures
            m.last == 0,
    {
        Meter { last: 0 }
    }

    /// Offers the level with the pattern `level` at `now`. Gives the pattern of the
    /// level to report, between zero and one, where a report is due.
    pub fn offer(&mut self, now: u64, level: u32) -> (r: Option<u32>)
        ensures
            (*final(self), r) == metered(*old(self), now, level),
    {
        if now >= self.last && now - self.last >= LEVEL_PERIOD_MS {
            self.last = now;
            if level < ONE {
                Some(level)
            } else {
                Some(ONE)
            }
        } else {
            None
        }
    }
}

/// The meter after levels were offered, each with its time, and the reports: times
/// and levels.
pub open spec fn metered_all(m: Meter, offers: Seq<(u64, u32)>) -> (Meter, Seq<(u64, u32)>)
    decreases offers.len(),
{
    if offers.len() == 0 {
        (m, Seq::empty())
    } else {
        let (before, reports) = metered_all(m, offers.drop_last());
        let (now, level) = offers.last();
        let (after, report) = metered(before, now, level);
        (
            after,
            match report {
                Some(l) => reports.push((now, l)),
                None => reports,
            },
        )
    }
}

/// Every level that is reported lies between zero and one, and two reports are at
/// least [`LEVEL_PERIOD_MS`] apart.
pub proof fn reports_are_bounded_and_apart(m: Meter, offers: Seq<(u64, u32)>)
    ensures
        ({
            let (after, reports) = metered_all(m, offers);
            &&& forall|i: int| 0 <= i < reports.len() ==> (#[trigger] reports[i]).1 <= ONE
            &&& forall|i: int, j: int|
                0 <= i && j == i + 1 && j < reports.len() ==> #[trigger] reports[j].0
                    - #[trigger] reports[i].0 >= LEVEL_PERIOD_MS
            &&& reports.len() > 0 ==> after.last == reports.last().0
            &&& reports.len() == 0 ==> after == m
        }),
    decreases offers.len(),
{
    if offers.len() > 0 {
        reports_are_bounded_and_apart(m, offers.drop_last());
    }
}

// ---------------------------------------------------------------------------
// Pauses
// ---------------------------------------------------------------------------

/// Whether each step of `s` leads up or stays level.
pub open spec fn ascending(s: Seq<u32>) -> bool {
    forall|i: int, j: int| 0 <= i <= j < s.len() ==> s[i] <= s[j]
}

/// Whether `s` holds the items of `levels`, the smallest first.
pub open spec fn sorted_from(levels: Seq<u32>, s: Seq<u32>) -> bool {
    ascending(s) && s.to_multiset() == levels.to_multiset()
}

/// Levels can be sorted in one way only.
pub proof fn levels_sort_in_one_way(levels: Seq<u32>, s: Seq<u32>, t: Seq<u32>)
    requires
        sorted_from(levels, s),
        sorted_from(levels, t),
    ensures
        s == t,
{
    vstd::seq_lib::lemma_sorted_unique(s, t, |a: u32, b: u32| a <= b);
}

/// The items of `levels`, the smallest first.
fn sort_levels(levels: &Vec<u32>) -> (r: Vec<u32>)
    ensures
        sorted_from(levels@, r@),
        r.len() == levels.len(),
{
    let mut r: Vec<u32> = Vec::new();
    let mut i: usize = 0;
    assert(levels@.take(0) == Seq::<u32>::empty());
    while i < levels.len()
        invariant
            i <= levels.len(),
            r.len() == i,
            sorted_from(levels@.take(i as int), r@),
        decreases levels.len() - i,
    {
        let x = levels[i];
        let mut k: usize = r.len();
        while k > 0 && r[k - 1] > x
            invariant
                k <= r.len(),
                ascending(r@),
                forall|j: int| k <= j < r.len() ==> #[trigger] r@[j] > x,
            decreases k,
        {
            k = k - 1;
        }
        let ghost before = r@;
        assert(forall|j: int| 0 <= j < k ==> #[trigger] before[j] <= x);
        r.insert(k, x);
        i = i + 1;
        proof {
            vstd::seq_lib::to_multiset_insert(before, k as int, x);
            assert(levels@.take(i as int) == levels@.take(i - 1).push(x));
            vstd::seq_lib::to_multiset_build(levels@.take(i - 1), x);
            assert(ascending(r@));
        }
    }
    assert(levels@.take(levels@.len() as int) == levels@);
    r
}

/// Whether `floor` and `peak` stand, among the sorted levels, behind a fifth of them and
/// in front of a tenth.
pub open spec fn stands_out(levels: Seq<u32>, floor: u32, peak: u32) -> bool {
    exists|s: Seq<u32>| #[trigger]
        sorted_from(levels, s) && s.len() == levels.len() && floor == s[levels.len() as int / 5]
            && peak == s[levels.len() as int * 9 / 10]
}

/// The level that a fifth of the frames lie below, and the one that a tenth of
/// them lie above: the noise floor and the peak that tell what is quiet.
pub fn floor_and_peak(levels: &Vec<u32>) -> (r: (u32, u32))
    requires
        levels.len() > 0,
    ensures
        stands_out(levels@, r.0, r.1),
{
    let s = sort_levels(levels);
    let n = s.len();
    let k: usize = n / 10 * 9 + n % 10 * 9 / 10;
    assert(k == n * 9 / 10);
    assert(sorted_from(levels@, s@));
    (s[n / 5], s[k])
}

/// Whether the positive number with the pattern `x` is smaller than the one with
/// the pattern `limit`.
pub open spec fn below(x: u32, limit: u32) -> bool {
    x < limit <= INFINITE
}

/// Of each frame whether its level is below `threshold`.
pub open spec fn quiet_frames(levels: Seq<u32>, threshold: u32) -> Seq<bool> {
    levels.map_values(|x: u32| below(x, threshold))
}

fn mark_quiet(levels: &Vec<u32>, threshold: u32) -> (r: Vec<bool>)
    ensures
        r@ == quiet_frames(levels@, threshold),
{
    let mut r: Vec<bool> = Vec::new();
    let mut i: usize = 0;
    while i < levels.len()
        invariant
            i <= levels.len(),
            r@ == quiet_frames(levels@.take(i as int), threshold),
        decreases levels.len() - i,
    {
        r.push(levels[i] < threshold && threshold <= INFINITE);
        i = i + 1;
        assert(levels@.take(i as int) == levels@.take(i - 1).push(levels@[i - 1]));
    }
    assert(levels@.take(levels@.len() as int) == levels@);
    r
}

/// Whether the frames `s..e` are quiet, and the frames next to them are not.
pub open spec fn quiet_run(quiet: Seq<bool>, s: int, e: int) -> bool {
    &&& 0 <= s < e <= quiet.len()
    &&& forall|i: int| s <= i < e ==> #[trigger] quiet[i]
    &&& s == 0 || !quiet[s - 1]
    &&& e == quiet.len() || !quiet[e]
}

/// The sample in the middle of the frames `s..e`.
pub open spec fn middle(s: int, e: int, rate: u32) -> int {
    (s + e) / 2 * frame_samples(rate)
}

/// Whether the frames `s..e` are a pause: a run of quiet frames of at least
/// `min_frames`, with its middle at sample `min_center` or after it.
pub open spec fn pause(
    quiet: Seq<bool>,
    rate: u32,
    min_frames: int,
    min_center: int,
    s: int,
    e: int,
) -> bool {
    &&& quiet_run(quiet, s, e)
    &&& e - s >= min_frames
    &&& middle(s, e, rate) >= min_center
}

/// The least number of frames that last `ms` milliseconds; at least one.
pub open spec fn silence_frames(ms: u32) -> int {
    if ms <= 20 {
        1
    } else {
        (ms + 19) / 20
    }
}

/// A silence of [`silence_frames`] frames lasts the milliseconds asked for, and one
/// of fewer frames does not.
pub proof fn silences_last_long_enough(ms: u32)
    ensures
        silence_frames(ms) * 20 >= ms,
        silence_frames(ms) > 1 ==> (silence_frames(ms) - 1) * 20 < ms,
{
}

/// The sample that comes `ms` milliseconds after the first.
pub open spec fn sample_at(rate: u32, ms: u32) -> int {
    ms * rate / 1000
}

/// Whether `c` is the place to cut the signal at a pause: the middle of the last
/// pause of at least `min_silence_ms` milliseconds, the middle being `min_pos_ms`
/// milliseconds or more after the start; nothing where there is none, or where
/// the signal has fewer than [`PAUSE_FRAMES`] frames.
pub open spec fn pause_found(
    quiet: Seq<bool>,
    rate: u32,
    min_silence_ms: u32,
    min_pos_ms: u32,
    c: Option<int>,
) -> bool {
    let frames = silence_frames(min_silence_ms);
    let center = sample_at(rate, min_pos_ms);
    match c {
        Some(c) => quiet.len() >= PAUSE_FRAMES && exists|s: int, e: int|
            {
                &&& #[trigger] pause(quiet, rate, frames, center, s, e)
                &&& c == middle(s, e, rate)
                &&& forall|s2: int, e2: int| #[trigger]
                    pause(quiet, rate, frames, center, s2, e2) ==> e2 <= e
            },
        None => quiet.len() < PAUSE_FRAMES || forall|s: int, e: int|
            !#[trigger] pause(quiet, rate, frames, center, s, e),
    }
}

/// The number that an optional index denotes.
pub open spec fn opt_int(o: Option<usize>) -> Option<int> {
    match o {
        Some(n) => Some(n as int),
        None => None,
    }
}

/// A place to cut the signal: the middle of the last pause of at least
/// `min_silence_ms` milliseconds, the middle being `min_pos_ms` milliseconds or
/// more after the start. A frame is quiet where its level is below `threshold`.
pub fn find_pause(
    levels: &Vec<u32>,
    threshold: u32,
    rate: u32,
    min_silence_ms: u32,
    min_pos_ms: u32,
) -> (r: Option<usize>)
    requires
        (levels.len() - 1) * frame_samples(rate) <= usize::MAX,
    ensures
        pause_found(
            quiet_frames(levels@, threshold),
            rate,
            min_silence_ms,
            min_pos_ms,
            opt_int(r),
        ),
{
    let quiet = mark_quiet(levels, threshold);
    last_pause(&quiet, rate, min_silence_ms, min_pos_ms)
}

/// The same, where `quiet` tells of each frame whether it is quiet.
fn last_pause(quiet: &Vec<bool>, rate: u32, min_silence_ms: u32, min_pos_ms: u32) -> (r: Option<
    usize,
>)
    requires
        (quiet.len() - 1) * frame_samples(rate) <= usize::MAX,
    ensures
        pause_found(quiet@, rate, min_silence_ms, min_pos_ms, opt_int(r)),
{
    if quiet.len() < PAUSE_FRAMES {
        return None;
    }
    let frame = frame_len(rate);
    let mut min_frames: usize = 1;
    if min_silence_ms > 20 {
        min_frames = ((min_silence_ms as u64 + 19) / 20) as usize;
    }
    assert(min_pos_ms * rate <= 0xffff_ffff * 0xffff_ffff) by (nonlinear_arith)
        requires
            min_pos_ms <= 0xffff_ffff,
            rate <= 0xffff_ffff,
    ;
    let min_center: u64 = min_pos_ms as u64 * rate as u64 / 1000;
    let ghost mf = silence_frames(min_silence_ms);
    let ghost mc = sample_at(rate, min_pos_ms);
    let mut best: Option<usize> = None;
    let ghost mut bs: int = 0;
    let ghost mut be: int = 0;
    let mut run_start: Option<usize> = None;
    let mut i: usize = 0;
    let n = quiet.len();
    while i < n
        invariant
            n == quiet.len(),
            i <= n,
            frame == frame_samples(rate),
            (n - 1) * frame_samples(rate) <= usize::MAX,
            min_frames == mf,
            mf >= 1,
            min_center == mc,
            match run_start {
                Some(s) => s < i && (s == 0 || !quiet@[s - 1]) && forall|k: int|
                    s <= k < i ==> #[trigger] quiet@[k],
                None => i == 0 || !quiet@[i - 1],
            },
            match best {
                Some(c) => pause(quiet@, rate, mf, mc, bs, be) && c == middle(bs, be, rate),
                None => true,
            },
            forall|s: int, e: int|
                e < i && #[trigger] pause(quiet@, rate, mf, mc, s, e) ==> best is Some && e <= be,
        decreases n - i,
    {
        let ghost before_best = best;
        let ghost before_be = be;
        if quiet[i] {
            if run_start.is_none() {
                run_start = Some(i);
            }
            assert forall|s: int, e: int|
                e < i + 1 && #[trigger] pause(quiet@, rate, mf, mc, s, e) implies best is Some && e
                <= be by {
                if e == i {
                    assert(!quiet@[i as int]);
                }
            }
        } else {
            if let Some(s) = run_start {
                let c = close_run(quiet, rate, s, i, frame, min_frames, min_center);
                if c.is_some() {
                    best = c;
                    proof {
                        bs = s as int;
                        be = i as int;
                    }
                }
                proof {
                    lemma_run_unique(quiet@, rate, mf, mc, s as int, i as int);
                }
            } else {
                assert forall|s: int, e: int|
                    e < i + 1 && #[trigger] pause(quiet@, rate, mf, mc, s, e) implies best is Some
                    && e <= be by {
                    if e == i {
                        assert(quiet@[i - 1]);
                    }
                }
            }
            run_start = None;
        }
        i = i + 1;
    }
    if let Some(s) = run_start {
        let c = close_run(quiet, rate, s, n, frame, min_frames, min_center);
        if c.is_some() {
            best = c;
            proof {
                bs = s as int;
                be = n as int;
            }
        }
        proof {
            lemma_run_unique(quiet@, rate, mf, mc, s as int, n as int);
        }
    } else {
        assert forall|s: int, e: int|
            #[trigger] pause(quiet@, rate, mf, mc, s, e) implies best is Some && e <= be by {
            if e == n {
                assert(quiet@[n - 1]);
            }
        }
    }
    best
}

/// The middle of the run `s..e` where it is a pause.
fn close_run(
    quiet: &Vec<bool>,
    rate: u32,
    s: usize,
    e: usize,
    frame: usize,
    min_frames: usize,
    min_center: u64,
) -> (c: Option<usize>)
    requires
        quiet_run(quiet@, s as int, e as int),
        frame == frame_samples(rate),
        (quiet.len() - 1) * frame_samples(rate) <= usize::MAX,
    ensures
        match c {
            Some(x) => pause(quiet@, rate, min_frames as int, min_center as int, s as int, e as int)
                && x == middle(s as int, e as int, rate),
            None => !pause(
                quiet@,
                rate,
                min_frames as int,
                min_center as int,
                s as int,
                e as int,
            ),
        },
{
    let m: usize = s + (e - s) / 2;
    assert(m == (s + e) / 2);
    assert(m * frame <= (quiet@.len() - 1) * frame) by (nonlinear_arith)
        requires
            m <= quiet@.len() - 1,
            frame >= 0,
    ;
    let x: usize = m * frame;
    if e - s >= min_frames && x as u64 >= min_center {
        Some(x)
    } else {
        None
    }
}

/// A run that ends at `e` begins where the quiet frames in front of `e` begin.
proof fn lemma_run_unique(quiet: Seq<bool>, rate: u32, mf: int, mc: int, s: int, e: int)
    requires
        quiet_run(quiet, s, e),
    ensures
        forall|t: int| #[trigger] pause(quiet, rate, mf, mc, t, e) ==> t == s,
{
    assert forall|t: int| #[trigger] pause(quiet, rate, mf, mc, t, e) implies t == s by {
        if t < s {
            assert(quiet[s - 1]);
        }
        if s < t {
            assert(quiet[t - 1]);
        }
    }
}

// ---------------------------------------------------------------------------
// The quietest frame
// ---------------------------------------------------------------------------

/// The first of the frames of the last `window_ms` milliseconds; at least the last
/// frame is one of them.
pub open spec fn window_start(frames: nat, window_ms: u32) -> int {
    let wanted = (window_ms / 20) as int;
    if wanted < 1 {
        frames - 1
    } else if wanted < frames {
        frames - wanted
    } else {
        0
    }
}

/// A frame is one of those of the last `window_ms` milliseconds where it begins no
/// earlier than these do, or is the last.
pub proof fn windows_hold_the_last_frames(frames: nat, window_ms: u32, i: int)
    requires
        0 <= i < frames,
    ensures
        window_start(frames, window_ms) <= i <==> i == frames - 1 || (frames - i) * 20 <= window_ms,
{
}

/// Whether `i` is the first of the quietest frames from `start` on; where none of
/// them has a finite level below the largest, whether it is `start`.
pub open spec fn quietest(levels: Seq<u32>, start: int, i: int) -> bool {
    &&& start <= i < levels.len()
    &&& levels[i] < LARGEST ==> forall|j: int|
        start <= j < levels.len() ==> levels[i] <= #[trigger] levels[j]
    &&& levels[i] < LARGEST ==> forall|j: int|
        start <= j < i ==> levels[i] < #[trigger] levels[j]
    &&& levels[i] >= LARGEST ==> i == start && forall|j: int|
        start <= j < levels.len() ==> #[trigger] levels[j] >= LARGEST
}

/// Whether `p` is the first sample of the quietest frame of the last `window_ms`
/// milliseconds.
pub open spec fn quiet_point(levels: Seq<u32>, rate: u32, window_ms: u32, p: int) -> bool {
    exists|i: int| #[trigger]
        quietest(levels, window_start(levels.len(), window_ms), i) && p == i * frame_samples(rate)
}

/// The first sample of the quietest frame of the last `window_ms` milliseconds,
/// where the signal can be cut if it holds no clear pause.
pub fn quietest_point(levels: &Vec<u32>, rate: u32, window_ms: u32) -> (r: usize)
    requires
        levels.len() > 0,
        (levels.len() - 1) * frame_samples(rate) <= usize::MAX,
    ensures
        quiet_point(levels@, rate, window_ms, r as int),
{
    let frame = frame_len(rate);
    let n = levels.len();
    let mut w: usize = (window_ms / 20) as usize;
    if w > n {
        w = n;
    }
    if w < 1 {
        w = 1;
    }
    let start: usize = n - w;
    let mut best_i: usize = start;
    let mut best_v: u32 = LARGEST;
    let mut i: usize = start;
    while i < n
        invariant
            n == levels.len(),
            start <= i <= n,
            start <= best_i < n,
            best_v <= LARGEST,
            best_v < LARGEST ==> best_i < i && best_v == levels@[best_i as int],
            best_v == LARGEST ==> best_i == start,
            forall|j: int| start <= j < i ==> best_v <= #[trigger] levels@[j],
            best_v < LARGEST ==> forall|j: int| start <= j < best_i ==> best_v < #[trigger] levels@[j],
        decreases n - i,
    {
        if levels[i] < best_v {
            best_v = levels[i];
            best_i = i;
        }
        i = i + 1;
    }
    assert(quietest(levels@, window_start(levels@.len(), window_ms), best_i as int));
    assert(best_i * frame <= (n - 1) * frame) by (nonlinear_arith)
        requires
            best_i <= n - 1,
            frame >= 0,
    ;
    best_i * frame
}

// ---------------------------------------------------------------------------
// Speech
// ---------------------------------------------------------------------------

/// Whether the number with the pattern `x` is larger than the positive number
/// with the pattern `limit`.
pub open spec fn above(x: u32, limit: u32) -> bool {
    limit < x <= INFINITE
}

/// The pattern of the magnitude of the number with the pattern `x`.
pub open spec fn magnitude(x: u32) -> u32 {
    if x >= 0x8000_0000u32 {
        (x - 0x8000_0000u32) as u32
    } else {
        x
    }
}

/// The number of loud frames.
pub open spec fn loud_frames(levels: Seq<u32>) -> nat
    decreases levels.len(),
{
    if levels.len() == 0 {
        0
    } else {
        loud_frames(levels.drop_last()) + if above(levels.last(), LOUD_LEVEL) {
            1nat
        } else {
            0nat
        }
    }
}

/// Whether a signal may hold speech: enough of its frames are loud, and one of
/// its samples is large enough.
pub open spec fn speech(samples: Seq<u32>, levels: Seq<u32>) -> bool {
    &&& loud_frames(levels) >= LOUD_FRAMES
    &&& exists|i: int|
        0 <= i < samples.len() && above(magnitude(#[trigger] samples[i]), SPEECH_PEAK)
}

/// Whether the signal with the samples `samples`, whose frames have the levels
/// `levels`, may hold speech. Silence is not handed to the engines, which make up
/// words for it.
pub fn has_speech(samples: &Vec<u32>, levels: &Vec<u32>) -> (b: bool)
    ensures
        b == speech(samples@, levels@),
{
    assert(samples@.take(samples@.len() as int) == samples@);
    assert(levels@.take(levels@.len() as int) == levels@);
    starts_with_speech(samples, samples.len(), levels, levels.len())
}

/// Whether the first `n` samples, the first `m` frames of the signal, may hold
/// speech.
pub fn starts_with_speech(samples: &Vec<u32>, n: usize, levels: &Vec<u32>, m: usize) -> (b: bool)
    requires
        n <= samples.len(),
        m <= levels.len(),
    ensures
        b == speech(samples@.take(n as int), levels@.take(m as int)),
{
    let mut loud: usize = 0;
    let mut i: usize = 0;
    while i < m
        invariant
            i <= m <= levels.len(),
            loud <= i,
            loud == loud_frames(levels@.take(i as int)),
        decreases m - i,
    {
        if LOUD_LEVEL < levels[i] && levels[i] <= INFINITE {
            loud = loud + 1;
        }
        i = i + 1;
        assert(levels@.take(i as int).drop_last() == levels@.take(i - 1));
    }
    if loud < LOUD_FRAMES {
        return false;
    }
    let ghost part = samples@.take(n as int);
    let mut k: usize = 0;
    while k < n
        invariant
            k <= n <= samples.len(),
            part == samples@.take(n as int),
            loud_frames(levels@.take(m as int)) >= LOUD_FRAMES,
            forall|j: int| 0 <= j < k ==> !above(magnitude(#[trigger] part[j]), SPEECH_PEAK),
        decreases n - k,
    {
        let x = samples[k];
        let mut m: u32 = x;
        if x >= 0x8000_0000 {
            m = x - 0x8000_0000;
        }
        assert(part[k as int] == x);
        if SPEECH_PEAK < m && m <= INFINITE {
            return true;
        }
        k = k + 1;
    }
    false
}

/// The middle of a pause lies inside the signal: not after the start of its last
/// frame.
pub proof fn pauses_lie_inside(
    quiet: Seq<bool>,
    rate: u32,
    min_frames: int,
    min_center: int,
    s: int,
    e: int,
)
    requires
        pause(quiet, rate, min_frames, min_center, s, e),
    ensures
        0 <= middle(s, e, rate) <= (quiet.len() - 1) * frame_samples(rate),
{
    let m = (s + e) / 2;
    let f = frame_samples(rate) as int;
    assert(0 <= m * f <= (quiet.len() - 1) * f) by (nonlinear_arith)
        requires
            0 <= m <= quiet.len() - 1,
            f >= 0,
    ;
}

// ---------------------------------------------------------------------------
// Laws
// ---------------------------------------------------------------------------

/// Whether `at` lists different frames, in their order, that are louder than 0.012.
pub open spec fn loud_at(levels: Seq<u32>, at: Seq<int>) -> bool {
    &&& forall|i: int, j: int| 0 <= i < j < at.len() ==> at[i] < at[j]
    &&& forall|i: int|
        0 <= i < at.len() ==> 0 <= #[trigger] at[i] < levels.len() && 0x3c44_9ba6u32
            < levels[at[i]] <= 0x7f80_0000u32
}

/// Whether a sample is larger than 0.04 in magnitude: its pattern without the sign is
/// larger than that of 0.04.
pub open spec fn large_sample(x: u32) -> bool {
    0x3d23_d70a < x % 0x8000_0000u32 <= 0x7f80_0000
}

/// As many loud frames can be listed as are counted.
proof fn lemma_loud_listed(levels: Seq<u32>, n: nat) -> (at: Seq<int>)
    requires
        n <= loud_frames(levels),
    ensures
        at.len() == n,
        loud_at(levels, at),
    decreases levels.len(),
{
    if n == 0 {
        Seq::empty()
    } else {
        let front = levels.drop_last();
        if above(levels.last(), LOUD_LEVEL) {
            let at = lemma_loud_listed(front, (n - 1) as nat);
            let r = at.push(levels.len() - 1);
            assert forall|i: int| 0 <= i < r.len() implies 0 <= #[trigger] r[i] < levels.len()
                && 0x3c44_9ba6u32 < levels[r[i]] <= 0x7f80_0000u32 by {
                if i < at.len() {
                    assert(r[i] == at[i]);
                    assert(front[at[i]] == levels[at[i]]);
                }
            }
            r
        } else {
            let at = lemma_loud_listed(front, n);
            assert forall|i: int| 0 <= i < at.len() implies 0 <= #[trigger] at[i] < levels.len()
                && 0x3c44_9ba6u32 < levels[at[i]] <= 0x7f80_0000u32 by {
                assert(front[at[i]] == levels[at[i]]);
            }
            at
        }
    }
}

/// As many loud frames are counted as can be listed.
proof fn lemma_loud_counted(levels: Seq<u32>, at: Seq<int>)
    requires
        loud_at(levels, at),
    ensures
        loud_frames(levels) >= at.len(),
    decreases levels.len(),
{
    if at.len() > 0 {
        let front = levels.drop_last();
        let n = at.len() as int;
        let last = at[n - 1];
        assert(0 <= last < levels.len());
        let fewer = if last == levels.len() - 1 {
            at.drop_last()
        } else {
            at
        };
        assert forall|i: int| 0 <= i < fewer.len() implies 0 <= #[trigger] fewer[i] < front.len()
            && 0x3c44_9ba6u32 < front[fewer[i]] <= 0x7f80_0000u32 by {
            assert(fewer[i] == at[i]);
            if i < n - 1 {
                assert(at[i] < at[n - 1]);
            }
            assert(front[at[i]] == levels[at[i]]);
        }
        lemma_loud_counted(front, fewer);
    }
}

/// A signal holds speech where seven different frames, wherever they are, are louder
/// than 0.012 and one sample is larger than 0.04, and only there.
pub proof fn speech_is_loud_in_seven_frames(samples: Seq<u32>, levels: Seq<u32>)
    ensures
        speech(samples, levels) <==> (exists|at: Seq<int>| at.len() == 7 && #[trigger] loud_at(levels, at))
            && (exists|i: int| 0 <= i < samples.len() && large_sample(#[trigger] samples[i])),
{
    assert forall|x: u32| #[trigger] large_sample(x) == above(magnitude(x), SPEECH_PEAK) by {
        assert(x % 0x8000_0000u32 == magnitude(x));
    }
    if speech(samples, levels) {
        let at = lemma_loud_listed(levels, 7);
        assert(loud_at(levels, at));
        let i = choose|i: int|
            0 <= i < samples.len() && above(magnitude(#[trigger] samples[i]), SPEECH_PEAK);
        assert(large_sample(samples[i]));
    }
    if exists|at: Seq<int>| at.len() == 7 && #[trigger] loud_at(levels, at) {
        let at = choose|at: Seq<int>| at.len() == 7 && #[trigger] loud_at(levels, at);
        lemma_loud_counted(levels, at);
        if exists|i: int| 0 <= i < samples.len() && large_sample(#[trigger] samples[i]) {
            let i = choose|i: int| 0 <= i < samples.len() && large_sample(#[trigger] samples[i]);
            assert(above(magnitude(samples[i]), SPEECH_PEAK));
        }
    }
}

/// What is added to a signal, wherever and however loud, never turns speech into
/// silence.
pub proof fn speech_stays_speech(
    before: Seq<u32>,
    added: Seq<u32>,
    behind: Seq<u32>,
    levels_before: Seq<u32>,
    levels_added: Seq<u32>,
    levels_behind: Seq<u32>,
)
    requires
        speech(before + behind, levels_before + levels_behind),
    ensures
        speech(before + added + behind, levels_before + levels_added + levels_behind),
{
    let (s, t) = (before + behind, before + added + behind);
    let (l, m) = (levels_before + levels_behind, levels_before + levels_added + levels_behind);
    speech_is_loud_in_seven_frames(s, l);
    speech_is_loud_in_seven_frames(t, m);
    let at = choose|at: Seq<int>| at.len() == 7 && #[trigger] loud_at(l, at);
    let (n, k) = (levels_before.len() as int, levels_added.len() as int);
    let shift = |x: int|
        if x < n {
            x
        } else {
            x + k
        };
    let moved = at.map_values(shift);
    assert forall|i: int| 0 <= i < moved.len() implies 0 <= #[trigger] moved[i] < m.len()
        && 0x3c44_9ba6u32 < m[moved[i]] <= 0x7f80_0000u32 by {
        assert(moved[i] == shift(at[i]));
        assert(m[moved[i]] == l[at[i]]);
    }
    assert(loud_at(m, moved));
    let i = choose|i: int| 0 <= i < s.len() && large_sample(#[trigger] s[i]);
    if i < before.len() {
        assert(t[i] == s[i]);
    } else {
        assert(t[i + added.len()] == s[i]);
    }
}

/// A frame lasts 20 ms, as far as whole samples can, and holds at least one sample.
pub proof fn frames_last_twenty_milliseconds(rate: u32)
    ensures
        frame_samples(rate) >= 1,
        rate >= 50 ==> frame_samples(rate) * 50 <= rate < (frame_samples(rate) + 1) * 50,
        rate < 50 ==> frame_samples(rate) == 1,
{
}

/// As many samples as the sample rate last one second, and durations are proportional
/// to the number of samples.
pub proof fn durations_are_proportional(n: nat, rate: u32, ms: nat, k: nat)
    requires
        k > 0,
    ensures
        lasts(n, rate, 1000 * k) <==> n >= k * rate,
        lasts(k * n, rate, k * ms) <==> lasts(n, rate, ms),
{
    assert(1000 * k * rate == 1000 * (k * rate)) by (nonlinear_arith);
    assert(k * n * 1000 == k * (n * 1000) && k * ms * rate == k * (ms * rate)) by (nonlinear_arith);
    let (x, y) = (n * 1000, ms * rate);
    assert(k * x >= k * y <==> x >= y) by (nonlinear_arith)
        requires
            k > 0,
    ;
}

/// The sample at a time is the last one that does not come later than it.
pub proof fn samples_come_in_time(rate: u32, ms: u32)
    ensures
        sample_at(rate, ms) * 1000 <= ms * rate < (sample_at(rate, ms) + 1) * 1000,
{
    let x = ms * rate;
    assert(x / 1000 * 1000 <= x < (x / 1000 + 1) * 1000);
}

/// Whether the frames `s..e`, at least one, are all quieter than `threshold`, which
/// denotes a number.
pub open spec fn silent_stretch(levels: Seq<u32>, threshold: u32, s: int, e: int) -> bool {
    &&& 0 <= s < e <= levels.len()
    &&& threshold <= 0x7f80_0000u32
    &&& forall|i: int| s <= i < e ==> #[trigger] levels[i] < threshold
}

/// The start of the quiet run that ends at `e` and holds `s..e`.
proof fn lemma_run_left(quiet: Seq<bool>, s: int, e: int) -> (a: int)
    requires
        0 <= s <= e <= quiet.len(),
        forall|i: int| s <= i < e ==> #[trigger] quiet[i],
    ensures
        0 <= a <= s,
        forall|i: int| a <= i < e ==> #[trigger] quiet[i],
        a == 0 || !quiet[a - 1],
    decreases s,
{
    if s > 0 && quiet[s - 1] {
        lemma_run_left(quiet, s - 1, e)
    } else {
        s
    }
}

/// The end of the quiet run that begins at `s` and holds `s..e`.
proof fn lemma_run_right(quiet: Seq<bool>, s: int, e: int) -> (b: int)
    requires
        0 <= s <= e <= quiet.len(),
        forall|i: int| s <= i < e ==> #[trigger] quiet[i],
    ensures
        e <= b <= quiet.len(),
        forall|i: int| s <= i < b ==> #[trigger] quiet[i],
        b == quiet.len() || !quiet[b],
    decreases quiet.len() - e,
{
    if e < quiet.len() && quiet[e] {
        lemma_run_right(quiet, s, e + 1)
    } else {
        e
    }
}

/// A cut at a pause falls into the middle of a silence that is long enough and not too
/// early, and behind that silence there is no other one that is long enough.
pub proof fn cuts_fall_into_the_last_silence(
    levels: Seq<u32>,
    threshold: u32,
    rate: u32,
    min_silence_ms: u32,
    min_pos_ms: u32,
    c: int,
)
    requires
        pause_found(
            quiet_frames(levels, threshold),
            rate,
            min_silence_ms,
            min_pos_ms,
            Some(c),
        ),
    ensures
        levels.len() >= 10,
        c >= sample_at(rate, min_pos_ms),
        exists|s: int, e: int, k: int|
            {
                &&& #[trigger] silent_stretch(levels, threshold, s, e)
                &&& (e - s) * 20 >= min_silence_ms
                &&& c == #[trigger] (k * frame_samples(rate))
                &&& s <= k < e
                &&& (k - s == e - k || k - s == e - k - 1)
                &&& forall|i: int, j: int|
                    e <= i && (j - i) * 20 >= min_silence_ms ==> !#[trigger] silent_stretch(
                        levels,
                        threshold,
                        i,
                        j,
                    )
                &&& forall|i: int, j: int|
                    i <= s && e <= j && #[trigger] silent_stretch(levels, threshold, i, j) ==> i == s
                        && j == e
            },
{
    let quiet = quiet_frames(levels, threshold);
    let frames = silence_frames(min_silence_ms);
    let center = sample_at(rate, min_pos_ms);
    let f = frame_samples(rate) as int;
    let (s, e) = choose|s: int, e: int|
        {
            &&& #[trigger] pause(quiet, rate, frames, center, s, e)
            &&& c == middle(s, e, rate)
            &&& forall|s2: int, e2: int| #[trigger]
                pause(quiet, rate, frames, center, s2, e2) ==> e2 <= e
        };
    let k = (s + e) / 2;
    assert(quiet[s]);
    assert forall|i: int| s <= i < e implies #[trigger] levels[i] < threshold by {
        assert(quiet[i]);
    }
    assert(silent_stretch(levels, threshold, s, e));
    assert(c == k * f);
    assert forall|i: int, j: int|
        e <= i && (j - i) * 20 >= min_silence_ms implies !#[trigger] silent_stretch(
        levels,
        threshold,
        i,
        j,
    ) by {
        if silent_stretch(levels, threshold, i, j) {
            assert forall|x: int| i <= x < j implies #[trigger] quiet[x] by {
                assert(levels[x] < threshold);
            }
            let a = lemma_run_left(quiet, i, j);
            let b = lemma_run_right(quiet, a, j);
            if a <= e {
                assert(e == quiet.len() || !quiet[e]);
                assert(quiet[i]);
                assert(quiet[e]);
            }
            let m = (a + b) / 2;
            assert(m * f >= k * f) by (nonlinear_arith)
                requires
                    m >= k,
                    f >= 0,
            ;
            assert(pause(quiet, rate, frames, center, a, b));
        }
    }
    assert forall|i: int, j: int|
        i <= s && e <= j && #[trigger] silent_stretch(levels, threshold, i, j) implies i == s && j
        == e by {
        if i < s {
            assert(levels[s - 1] < threshold);
            assert(quiet[s - 1]);
        }
        if j > e {
            assert(levels[e] < threshold);
            assert(quiet[e]);
        }
    }
    assert(silent_stretch(levels, threshold, s, e) && c == k * frame_samples(rate));
}

/// Where no cut at a pause is found, the signal is short, or the middle of each whole
/// silence that is long enough comes too early.
pub proof fn missed_silences_come_too_early(
    levels: Seq<u32>,
    threshold: u32,
    rate: u32,
    min_silence_ms: u32,
    min_pos_ms: u32,
    s: int,
    e: int,
)
    requires
        pause_found(quiet_frames(levels, threshold), rate, min_silence_ms, min_pos_ms, None),
        levels.len() >= 10,
        silent_stretch(levels, threshold, s, e),
        s > 0 ==> levels[s - 1] >= threshold,
        e < levels.len() ==> levels[e] >= threshold,
        (e - s) * 20 >= min_silence_ms,
    ensures
        (s + e) / 2 * frame_samples(rate) < sample_at(rate, min_pos_ms),
{
    let quiet = quiet_frames(levels, threshold);
    assert forall|x: int| s <= x < e implies #[trigger] quiet[x] by {
        assert(levels[x] < threshold);
    }
    assert(quiet_run(quiet, s, e));
    assert(!pause(
        quiet,
        rate,
        silence_frames(min_silence_ms),
        sample_at(rate, min_pos_ms),
        s,
        e,
    ));
}

/// A cut without a pause falls on the start of a frame near the end that is no louder
/// than any other frame there, and quieter than those in front of it.
pub proof fn forced_cuts_are_quiet(levels: Seq<u32>, rate: u32, window_ms: u32, p: int)
    requires
        levels.len() > 0,
        quiet_point(levels, rate, window_ms, p),
    ensures
        exists|i: int|
            {
                &&& p == #[trigger] (i * frame_samples(rate))
                &&& 0 <= i < levels.len()
                &&& i == levels.len() - 1 || (levels.len() - i) * 20 <= window_ms
                &&& forall|j: int|
                    0 <= j < levels.len() && (j == levels.len() - 1 || (levels.len() - j) * 20
                        <= window_ms) && levels[j] < LARGEST ==> levels[i] <= #[trigger] levels[j]
                &&& forall|j: int|
                    0 <= j < i && (levels.len() - j) * 20 <= window_ms && levels[j] < LARGEST
                        ==> levels[i] < #[trigger] levels[j]
            },
{
    let start = window_start(levels.len(), window_ms);
    let i = choose|i: int| #[trigger] quietest(levels, start, i) && p == i * frame_samples(rate);
    windows_hold_the_last_frames(levels.len(), window_ms, i);
    assert forall|j: int|
        0 <= j < levels.len() && (j == levels.len() - 1 || (levels.len() - j) * 20 <= window_ms)
            && levels[j] < LARGEST implies levels[i] <= #[trigger] levels[j] by {
        windows_hold_the_last_frames(levels.len(), window_ms, j);
    }
    assert forall|j: int|
        0 <= j < i && (levels.len() - j) * 20 <= window_ms && levels[j] < LARGEST implies levels[i]
        < #[trigger] levels[j] by {
        windows_hold_the_last_frames(levels.len(), window_ms, j);
    }
    assert(p == i * frame_samples(rate));
}

/// A level is reported as soon as 50 ms have passed since the last report, as it is
/// where it is below one and as one otherwise; the time of the report is noted.
pub proof fn levels_are_reported_in_time(m: Meter, now: u64, level: u32)
    ensures
        metered(m, now, level).1 is Some <==> now >= m.last + 50,
        metered(m, now, level).1 matches Some(l) ==> l <= level && l <= 0x3f80_0000u32 && (l == level
            || l == 0x3f80_0000u32) && metered(m, now, level).0.last == now,
        metered(m, now, level).1 is None ==> metered(m, now, level).0 == m,
{
}

/// The number of items of `levels` for which `p` holds.
pub open spec fn how_many(levels: Seq<u32>, p: spec_fn(u32) -> bool) -> nat {
    levels.filter(p).len()
}

proof fn lemma_counted_in_any_order(s: Seq<u32>, p: spec_fn(u32) -> bool)
    ensures
        s.to_multiset().filter(p).len() == s.filter(p).len(),
    decreases s.len(),
{
    reveal(Seq::filter);
    broadcast use vstd::multiset::group_multiset_axioms;

    if s.len() == 0 {
        assert(s == Seq::<u32>::empty());
        s.to_multiset_ensures();
        assert(s.to_multiset().filter(p) =~= vstd::multiset::Multiset::<u32>::empty());
    } else {
        let (front, x) = (s.drop_last(), s.last());
        lemma_counted_in_any_order(front, p);
        assert(s == front.push(x));
        vstd::seq_lib::to_multiset_build(front, x);
        let m = front.to_multiset();
        if p(x) {
            assert(m.insert(x).filter(p) =~= m.filter(p).insert(x));
        } else {
            assert(m.insert(x).filter(p) =~= m.filter(p));
        }
    }
}

proof fn lemma_all_counted(s: Seq<u32>, p: spec_fn(u32) -> bool)
    requires
        forall|i: int| 0 <= i < s.len() ==> p(#[trigger] s[i]),
    ensures
        s.filter(p).len() == s.len(),
    decreases s.len(),
{
    reveal(Seq::filter);
    if s.len() > 0 {
        assert(p(s[s.len() - 1]));
        lemma_all_counted(s.drop_last(), p);
    }
}

proof fn lemma_place_in_order(levels: Seq<u32>, s: Seq<u32>, k: int)
    requires
        sorted_from(levels, s),
        0 <= k < s.len(),
    ensures
        how_many(levels, |x: u32| x < s[k]) <= k,
        how_many(levels, |x: u32| x <= s[k]) >= k + 1,
        how_many(levels, |x: u32| x > s[k]) <= s.len() - 1 - k,
        how_many(levels, |x: u32| x >= s[k]) >= s.len() - k,
{
    let v = s[k];
    let (lt, le) = (|x: u32| x < v, |x: u32| x <= v);
    let (gt, ge) = (|x: u32| x > v, |x: u32| x >= v);
    lemma_counted_in_any_order(levels, lt);
    lemma_counted_in_any_order(s, lt);
    lemma_counted_in_any_order(levels, le);
    lemma_counted_in_any_order(s, le);
    lemma_counted_in_any_order(levels, gt);
    lemma_counted_in_any_order(s, gt);
    lemma_counted_in_any_order(levels, ge);
    lemma_counted_in_any_order(s, ge);
    let (a, b) = (s.take(k), s.skip(k));
    let (c, d) = (s.take(k + 1), s.skip(k + 1));
    assert(a + b == s && c + d == s);
    Seq::filter_distributes_over_add(a, b, lt);
    Seq::filter_distributes_over_add(a, b, ge);
    Seq::filter_distributes_over_add(c, d, le);
    Seq::filter_distributes_over_add(c, d, gt);
    assert forall|i: int| 0 <= i < b.len() implies !lt(#[trigger] b[i]) && ge(b[i]) by {
        assert(b[i] == s[k + i]);
    }
    assert forall|i: int| 0 <= i < c.len() implies le(#[trigger] c[i]) && !gt(c[i]) by {
        assert(c[i] == s[i]);
    }
    b.lemma_all_neg_filter_empty(lt);
    c.lemma_all_neg_filter_empty(gt);
    lemma_all_counted(b, ge);
    lemma_all_counted(c, le);
    a.lemma_filter_len(lt);
    d.lemma_filter_len(gt);
}

/// No more than a fifth of the levels lie below the floor, and more than a fifth at it or
/// below; fewer than a tenth lie above the peak, and at least a tenth at it or above.
pub proof fn floors_and_peaks_are_fractions(levels: Seq<u32>, floor: u32, peak: u32)
    requires
        levels.len() > 0,
        stands_out(levels, floor, peak),
    ensures
        how_many(levels, |x: u32| x < floor) * 5 <= levels.len(),
        how_many(levels, |x: u32| x <= floor) * 5 > levels.len(),
        how_many(levels, |x: u32| x > peak) * 10 < levels.len(),
        how_many(levels, |x: u32| x >= peak) * 10 >= levels.len(),
{
    let n = levels.len() as int;
    let s = choose|s: Seq<u32>| #[trigger]
        sorted_from(levels, s) && s.len() == levels.len() && floor == s[n / 5] && peak == s[n * 9
            / 10];
    lemma_place_in_order(levels, s, n / 5);
    lemma_place_in_order(levels, s, n * 9 / 10);
}

}
