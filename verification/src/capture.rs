//! Recording: how the microphone is opened, and how a recording is stopped.
use crate::audio;
use crate::text;
use vstd::prelude::*;

verus! {

/// How long is waited for the microphone, in seconds.
pub const READY_SECS: u64 = 5;

/// How long is waited for a recording to stop, in seconds.
pub const STOP_SECS: u64 = 5;

/// The seconds of recording that memory is set aside for.
pub const RESERVED_SECS: usize = 60;

/// The form of the samples that a microphone delivers.
#[derive(Debug, Clone, PartialEq, Eq)]
pub enum SampleForm<T = String> {
    Float32,
    Int16,
    Uint16,
    Int32,
    /// Another one, with its name.
    Other(T),
}

impl View for SampleForm {
    type V = SampleForm<Seq<char>>;

    open spec fn view(&self) -> SampleForm<Seq<char>> {
        match *self {
            SampleForm::Float32 => SampleForm::Float32,
            SampleForm::Int16 => SampleForm::Int16,
            SampleForm::Uint16 => SampleForm::Uint16,
            SampleForm::Int32 => SampleForm::Int32,
            SampleForm::Other(s) => SampleForm::Other(s@),
        }
    }
}

/// What is to be done next.
#[derive(Debug, Clone, Copy, PartialEq, Eq, Structural)]
pub enum CaptureStage {
    /// Look for a microphone.
    FindDevice,
    /// Ask for its configuration.
    Configure,
    /// Open a stream of samples.
    Open,
    /// Start the stream.
    Play,
    /// Take in samples until the recording is stopped.
    Record,
    /// Nothing: the recording is over, or there is none.
    Ended,
}

/// What has happened.
#[derive(Debug, Clone, PartialEq, Eq)]
pub enum CaptureEvent<T = String> {
    Device,
    NoDevice,
    Configured { rate: u32, form: SampleForm<T> },
    NotConfigured(T),
    Opened,
    NotOpened(T),
    Playing,
    NotPlaying(T),
    StopRequested,
}

impl View for CaptureEvent {
    type V = CaptureEvent<Seq<char>>;

    open spec fn view(&self) -> CaptureEvent<Seq<char>> {
        match *self {
            CaptureEvent::Device => CaptureEvent::Device,
            CaptureEvent::NoDevice => CaptureEvent::NoDevice,
            CaptureEvent::Configured { rate, form } => CaptureEvent::Configured {
                rate,
                form: form@,
            },
            CaptureEvent::NotConfigured(e) => CaptureEvent::NotConfigured(e@),
            CaptureEvent::Opened => CaptureEvent::Opened,
            CaptureEvent::NotOpened(e) => CaptureEvent::NotOpened(e@),
            CaptureEvent::Playing => CaptureEvent::Playing,
            CaptureEvent::NotPlaying(e) => CaptureEvent::NotPlaying(e@),
            CaptureEvent::StopRequested => CaptureEvent::StopRequested,
        }
    }
}

/// What is told to whoever started the recording: its sample rate once it runs, or
/// why there is none.
#[derive(Debug, Clone, PartialEq, Eq)]
pub enum CaptureReport<T = String> {
    Nothing,
    Ready(u32),
    Failed(T),
}

impl View for CaptureReport {
    type V = CaptureReport<Seq<char>>;

    open spec fn view(&self) -> CaptureReport<Seq<char>> {
        match *self {
            CaptureReport::Nothing => CaptureReport::Nothing,
            CaptureReport::Ready(r) => CaptureReport::Ready(r),
            CaptureReport::Failed(e) => CaptureReport::Failed(e@),
        }
    }
}

/// A recording that is being opened.
#[derive(Debug, Clone, Copy, PartialEq, Eq, Structural)]
pub struct Capture {
    pub stage: CaptureStage,
    pub rate: u32,
}

/// What follows, at each stage, from each event that can happen there. An event
/// that cannot happen at a stage changes nothing.
pub open spec fn captured(s: Capture, e: CaptureEvent<Seq<char>>) -> (
    Capture,
    CaptureReport<Seq<char>>,
) {
    let ended = Capture { stage: CaptureStage::Ended, ..s };
    match (s.stage, e) {
        (CaptureStage::FindDevice, CaptureEvent::Device) => (
            Capture { stage: CaptureStage::Configure, ..s },
            CaptureReport::Nothing,
        ),
        (CaptureStage::FindDevice, CaptureEvent::NoDevice) => (
            ended,
            CaptureReport::Failed("aucun micro détecté"@),
        ),
        (CaptureStage::Configure, CaptureEvent::Configured { rate, form }) => match form {
            SampleForm::Other(name) => (
                Capture { rate, ..ended },
                CaptureReport::Failed("format audio non géré : "@ + name),
            ),
            _ => (Capture { stage: CaptureStage::Open, rate }, CaptureReport::Nothing),
        },
        (CaptureStage::Configure, CaptureEvent::NotConfigured(m)) => (
            ended,
            CaptureReport::Failed("micro indisponible : "@ + m),
        ),
        (CaptureStage::Open, CaptureEvent::Opened) => (
            Capture { stage: CaptureStage::Play, ..s },
            CaptureReport::Nothing,
        ),
        (CaptureStage::Open, CaptureEvent::NotOpened(m)) => (
            ended,
            CaptureReport::Failed("ouverture du micro impossible : "@ + m),
        ),
        (CaptureStage::Play, CaptureEvent::Playing) => (
            Capture { stage: CaptureStage::Record, ..s },
            CaptureReport::Ready(s.rate),
        ),
        (CaptureStage::Play, CaptureEvent::NotPlaying(m)) => (
            ended,
            CaptureReport::Failed("démarrage du micro impossible : "@ + m),
        ),
        (CaptureStage::Record, CaptureEvent::StopRequested) => (ended, CaptureReport::Nothing),
        _ => (s, CaptureReport::Nothing),
    }
}

impl Capture {
    /// A recording of which nothing is known yet.
    pub fn new() -> (s: Self)
        ensures
            s == (Capture { stage: CaptureStage::FindDevice, rate: 0 }),
    {
        Capture { stage: CaptureStage::FindDevice, rate: 0 }
    }

    fn end(&mut self, what: &str, error: &str) -> (r: CaptureReport)
        ensures
            *final(self) == (Capture { stage: CaptureStage::Ended, ..*old(self) }),
            r@ == CaptureReport::Failed(what@ + error@),
    {
        self.stage = CaptureStage::Ended;
        CaptureReport::Failed(text::concat(what, error))
    }

    /// Takes note of an event and tells what follows from it; `stage` tells what is
    /// to be done next.
    pub fn advance(&mut self, event: CaptureEvent) -> (r: CaptureReport)
        ensures
            (*final(self), r@) == captured(*old(self), event@),
    {
        match (self.stage, event) {
            (CaptureStage::FindDevice, CaptureEvent::Device) => {
                self.stage = CaptureStage::Configure;
                CaptureReport::Nothing
            },
            (CaptureStage::FindDevice, CaptureEvent::NoDevice) => {
                self.stage = CaptureStage::Ended;
                CaptureReport::Failed("aucun micro détecté".to_string())
            },
            (CaptureStage::Configure, CaptureEvent::Configured { rate, form }) => {
                self.rate = rate;
                match form {
                    SampleForm::Other(name) => self.end(
                        "format audio non géré : ",
                        name.as_str(),
                    ),
                    _ => {
                        self.stage = CaptureStage::Open;
                        CaptureReport::Nothing
                    },
                }
            },
            (CaptureStage::Configure, CaptureEvent::NotConfigured(m)) => self.end(
                "micro indisponible : ",
                m.as_str(),
            ),
            (CaptureStage::Open, CaptureEvent::Opened) => {
                self.stage = CaptureStage::Play;
                CaptureReport::Nothing
            },
            (CaptureStage::Open, CaptureEvent::NotOpened(m)) => self.end(
                "ouverture du micro impossible : ",
                m.as_str(),
            ),
            (CaptureStage::Play, CaptureEvent::Playing) => {
                self.stage = CaptureStage::Record;
                CaptureReport::Ready(self.rate)
            },
            (CaptureStage::Play, CaptureEvent::NotPlaying(m)) => self.end(
                "démarrage du micro impossible : ",
                m.as_str(),
            ),
            (CaptureStage::Record, CaptureEvent::StopRequested) => {
                self.stage = CaptureStage::Ended;
                CaptureReport::Nothing
            },
            _ => CaptureReport::Nothing,
        }
    }
}

/// A recording is reported once: as ready when it starts to record, or as failed
/// when it ends before that.
pub proof fn reports_match_the_stage(s: Capture, e: CaptureEvent<Seq<char>>)
    ensures
        ({
            let (after, report) = captured(s, e);
            &&& report is Ready <==> s.stage != CaptureStage::Record && after.stage
                == CaptureStage::Record
            &&& report is Failed <==> s.stage != CaptureStage::Ended && s.stage
                != CaptureStage::Record && after.stage == CaptureStage::Ended
        }),
{
}

/// The sample rate that is reported is the one of the configuration.
pub proof fn the_rate_is_kept(s: Capture, rate: u32, form: SampleForm<Seq<char>>)
    requires
        s.stage == CaptureStage::Configure,
        !(form is Other),
    ensures
        ({
            let a = captured(s, CaptureEvent::Configured { rate, form }).0;
            let b = captured(a, CaptureEvent::Opened).0;
            captured(b, CaptureEvent::Playing).1 == CaptureReport::<Seq<char>>::Ready(rate)
        }),
{
}

/// What is still to be done to stop a recording.
#[derive(Debug, Clone, Copy, PartialEq, Eq, Structural)]
pub struct Stopper {
    /// Whether the recording is still to be told to stop.
    pub signal: bool,
    /// Whether its end is still to be waited for.
    pub wait: bool,
}

impl Stopper {
    /// A recording that runs.
    pub fn new() -> (s: Self)
        ensures
            s == (Stopper { signal: true, wait: true }),
    {
        Stopper { signal: true, wait: true }
    }

    /// Stops the recording: what is to be done for that. Nothing is done twice.
    pub fn stop(&mut self) -> (todo: Stopper)
        ensures
            todo == *old(self),
            *final(self) == (Stopper { signal: false, wait: false }),
    {
        let todo = *self;
        self.signal = false;
        self.wait = false;
        todo
    }
}

/// The message on a recording that did not stop in time.
pub fn stop_error() -> (r: String)
    ensures
        r@ == "l'arrêt de la capture a expiré"@,
{
    "l'arrêt de la capture a expiré".to_string()
}

/// What has happened to a recording.
pub enum RecordingEvent<T> {
    /// A sample has come in.
    Sample(T),
    /// The recording is stopped.
    Stop,
    /// The end was waited for, and has come in time or not.
    Ended(bool),
}

/// A recording: its samples, what is still to be done to stop it, and whether it has
/// come to its end.
#[derive(Debug, Clone)]
pub struct Recording<T> {
    pub samples: Vec<T>,
    pub stopper: Stopper,
    pub closed: bool,
}

/// What a [`Recording`] denotes.
#[verifier::ext_equal]
pub struct RecordingView<T> {
    pub samples: Seq<T>,
    pub stopper: Stopper,
    pub closed: bool,
}

impl<T> View for Recording<T> {
    type V = RecordingView<T>;

    open spec fn view(&self) -> RecordingView<T> {
        RecordingView { samples: self.samples@, stopper: self.stopper, closed: self.closed }
    }
}

/// A recording after an event: samples are taken in until the end has come.
pub open spec fn recorded<T>(r: RecordingView<T>, e: RecordingEvent<T>) -> RecordingView<T> {
    match e {
        RecordingEvent::Sample(x) => if r.closed {
            r
        } else {
            RecordingView { samples: r.samples.push(x), ..r }
        },
        RecordingEvent::Stop => RecordingView {
            stopper: Stopper { signal: false, wait: false },
            ..r
        },
        RecordingEvent::Ended(in_time) => RecordingView { closed: r.closed || in_time, ..r },
    }
}

/// A recording after events, one after the other.
pub open spec fn recorded_all<T>(
    r: RecordingView<T>,
    events: Seq<RecordingEvent<T>>,
) -> RecordingView<T>
    decreases events.len(),
{
    if events.len() == 0 {
        r
    } else {
        recorded(recorded_all(r, events.drop_last()), events.last())
    }
}

impl<T: Copy> Recording<T> {
    /// A recording that runs, without samples so far.
    pub fn new() -> (r: Self)
        ensures
            r@ == (RecordingView {
                samples: Seq::<T>::empty(),
                stopper: Stopper { signal: true, wait: true },
                closed: false,
            }),
    {
        Recording { samples: Vec::new(), stopper: Stopper::new(), closed: false }
    }

    /// Takes in a sample, unless the recording has come to its end.
    pub fn push(&mut self, x: T)
        ensures
            final(self)@ == recorded(old(self)@, RecordingEvent::Sample(x)),
    {
        if !self.closed {
            self.samples.push(x);
        }
    }

    /// The number of samples so far.
    pub fn len(&self) -> (n: usize)
        ensures
            n == self@.samples.len(),
    {
        self.samples.len()
    }

    /// The samples from the index `from` on.
    pub fn snapshot(&self, from: usize) -> (r: Vec<T>)
        ensures
            r@ == if from >= self@.samples.len() {
                Seq::<T>::empty()
            } else {
                self@.samples.skip(from as int)
            },
    {
        audio::snapshot(self.samples.as_slice(), from)
    }

    /// Stops the recording: what is to be done for that. Nothing is done twice.
    pub fn stop(&mut self) -> (todo: Stopper)
        ensures
            todo == old(self)@.stopper,
            final(self)@ == recorded(old(self)@, RecordingEvent::Stop),
    {
        self.stopper.stop()
    }

    /// Takes note that the end was waited for, and has come in time or not.
    pub fn ended(&mut self, in_time: bool) -> (r: Result<(), String>)
        ensures
            final(self)@ == recorded(old(self)@, RecordingEvent::Ended(in_time)),
            r is Ok <==> in_time,
            r matches Err(e) ==> e@ == "l'arrêt de la capture a expiré"@,
    {
        if in_time {
            self.closed = true;
            Ok(())
        } else {
            Err(stop_error())
        }
    }
}

/// Once a recording was stopped and has come to its end, nothing changes it: its
/// samples stay as they are, whatever comes in, and stopping it again does nothing.
pub proof fn ended_recordings_stay<T>(r: RecordingView<T>, events: Seq<RecordingEvent<T>>)
    requires
        r.closed,
        r.stopper == (Stopper { signal: false, wait: false }),
    ensures
        recorded_all(r, events) == r,
    decreases events.len(),
{
    if events.len() > 0 {
        ended_recordings_stay(r, events.drop_last());
    }
}

/// Stopping a recording and waiting for its end in time brings it to its end, with
/// the samples it has by then.
pub proof fn stopping_ends_a_recording<T>(r: RecordingView<T>)
    ensures
        ({
            let after = recorded(
                recorded(r, RecordingEvent::Stop),
                RecordingEvent::Ended(true),
            );
            &&& after.closed
            &&& after.stopper == (Stopper { signal: false, wait: false })
            &&& after.samples == r.samples
        }),
{
}

/// What the start of a recording ends with: the report of the recording, where it
/// came in time.
pub fn started(report: Option<CaptureReport>) -> (r: Result<u32, String>)
    ensures
        match report {
            Some(CaptureReport::Ready(rate)) => r == Ok::<u32, String>(rate),
            Some(CaptureReport::Failed(e)) => r == Err::<u32, String>(e),
            _ => r is Err && r->Err_0@ == "le micro ne répond pas"@,
        },
{
    match report {
        Some(CaptureReport::Ready(rate)) => Ok(rate),
        Some(CaptureReport::Failed(e)) => Err(e),
        _ => Err("le micro ne répond pas".to_string()),
    }
}

/// The samples of a recording are those that came in, in their order, behind those that
/// were there.
pub proof fn samples_are_kept_in_order<T>(r: RecordingView<T>, xs: Seq<T>)
    requires
        !r.closed,
    ensures
        recorded_all(r, xs.map_values(|x: T| RecordingEvent::Sample(x))) == (RecordingView {
            samples: r.samples + xs,
            ..r
        }),
    decreases xs.len(),
{
    let f = |x: T| RecordingEvent::Sample(x);
    let events = xs.map_values(f);
    if xs.len() > 0 {
        let front = xs.drop_last();
        samples_are_kept_in_order(r, front);
        assert(events.drop_last() == front.map_values(f));
        assert((r.samples + front).push(xs.last()) == r.samples + xs);
    } else {
        assert(r.samples + xs == r.samples);
    }
}

/// Once a recording was stopped, nothing is left to do for that, and the samples stay. It
/// has come to its end where that came in time, and is as it was where it did not.
pub proof fn recordings_are_stopped_once<T>(r: RecordingView<T>, in_time: bool)
    ensures
        ({
            let a = recorded(r, RecordingEvent::Stop);
            &&& !a.stopper.signal && !a.stopper.wait
            &&& a.samples == r.samples && a.closed == r.closed
        }),
        recorded(r, RecordingEvent::Ended(in_time)).samples == r.samples,
        recorded(r, RecordingEvent::Ended(true)).closed,
        recorded(r, RecordingEvent::Ended(false)) == r,
{
}

/// A microphone that is found, can be configured with samples of a known form, is opened
/// and plays is ready, and tells the rate that it was configured with.
pub proof fn microphones_become_ready(s: Capture, rate: u32, form: SampleForm<Seq<char>>)
    requires
        s.stage == CaptureStage::FindDevice,
        !(form is Other),
    ensures
        ({
            let a = captured(s, CaptureEvent::Device);
            let b = captured(a.0, CaptureEvent::Configured { rate, form });
            let c = captured(b.0, CaptureEvent::Opened);
            let d = captured(c.0, CaptureEvent::Playing);
            let e = captured(d.0, CaptureEvent::StopRequested);
            &&& a.1 == CaptureReport::<Seq<char>>::Nothing
            &&& b.1 == CaptureReport::<Seq<char>>::Nothing
            &&& c.1 == CaptureReport::<Seq<char>>::Nothing
            &&& d.1 == CaptureReport::<Seq<char>>::Ready(rate)
            &&& d.0.stage == CaptureStage::Record
            &&& e.0.stage == CaptureStage::Ended
        }),
{
}

/// A failure ends the capture with what failed and why.
pub proof fn failures_name_their_cause(s: Capture, m: Seq<char>, rate: u32)
    ensures
        s.stage == CaptureStage::FindDevice ==> captured(s, CaptureEvent::NoDevice).1
            == CaptureReport::Failed("aucun micro détecté"@),
        s.stage == CaptureStage::Configure ==> captured(s, CaptureEvent::NotConfigured(m)).1
            == CaptureReport::Failed("micro indisponible : "@ + m),
        s.stage == CaptureStage::Configure ==> captured(
            s,
            CaptureEvent::Configured { rate, form: SampleForm::Other(m) },
        ).1 == CaptureReport::Failed("format audio non géré : "@ + m),
        s.stage == CaptureStage::Open ==> captured(s, CaptureEvent::NotOpened(m)).1
            == CaptureReport::Failed("ouverture du micro impossible : "@ + m),
        s.stage == CaptureStage::Play ==> captured(s, CaptureEvent::NotPlaying(m)).1
            == CaptureReport::Failed("démarrage du micro impossible : "@ + m),
        s.stage == CaptureStage::Play ==> captured(s, CaptureEvent::NotPlaying(m)).0.stage
            == CaptureStage::Ended,
{
}

}
