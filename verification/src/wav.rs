//! Recordings as WAV files: 16-bit mono out, integer samples in.
use crate::audio::TARGET_RATE;
use crate::text;
use vstd::prelude::*;

verus! {

/// The two bytes of `x`, the low one first.
pub open spec fn le2(x: int) -> Seq<u8> {
    seq![(x % 256) as u8, (x / 256 % 256) as u8]
}

/// The four low bytes of `x`, the lowest first.
pub open spec fn le4(x: int) -> Seq<u8> {
    seq![
        (x % 256) as u8,
        (x / 256 % 256) as u8,
        (x / 65536 % 256) as u8,
        (x / 16777216 % 256) as u8,
    ]
}

/// The bytes of the samples, two for each, the low one first.
pub open spec fn sample_bytes(samples: Seq<i16>) -> Seq<u8>
    decreases samples.len(),
{
    if samples.len() == 0 {
        Seq::empty()
    } else {
        sample_bytes(samples.drop_last()) + le2(samples.last() as int)
    }
}

/// The WAV file that holds one channel of 16-bit samples: the RIFF header, the
/// `fmt ` chunk of a PCM file, and the `data` chunk.
pub open spec fn pcm16_file(samples: Seq<i16>, rate: u32) -> Seq<u8> {
    seq![0x52u8, 0x49, 0x46, 0x46] + le4(36 + 2 * samples.len() as int) + seq![
        0x57u8,
        0x41,
        0x56,
        0x45,
        0x66,
        0x6d,
        0x74,
        0x20,
    ] + le4(16) + le2(1) + le2(1) + le4(rate as int) + le4(2 * rate) + le2(2) + le2(16) + seq![
        0x64u8,
        0x61,
        0x74,
        0x61,
    ] + le4(2 * samples.len() as int) + sample_bytes(samples)
}

/// How the samples of a WAV file are stored.
#[derive(Debug, Clone, Copy, PartialEq, Eq, Structural)]
pub struct WavLayout {
    pub channels: u16,
    pub sample_rate: u32,
    pub bits_per_sample: u16,
    /// Whether the samples are floating point numbers.
    pub float: bool,
}

/// The layout that `hound::WavReader::new` finds in the bytes of a file, or
/// nothing where it finds no WAV file.
pub uninterp spec fn layout_in(wav: Seq<u8>) -> Option<WavLayout>;

/// The samples that `hound::WavReader::samples` reads from the bytes of a file as
/// 16-bit integers, or nothing where one of them cannot be read.
pub uninterp spec fn samples16_in(wav: Seq<u8>) -> Option<Seq<i16>>;

/// The samples that `hound::WavReader::samples` reads from the bytes of a file as
/// 32-bit integers, or nothing where one of them cannot be read.
pub uninterp spec fn samples32_in(wav: Seq<u8>) -> Option<Seq<i32>>;

/// Calls `hound::WavWriter` on a buffer in memory: a header, the samples, and the
/// end of the file. Nothing can fail in memory. The bytes are those of
/// [`pcm16_file`], and the reader finds in them the layout and the samples that
/// were written.
#[verifier::external_body]
pub(crate) fn write_pcm16(samples: &Vec<i16>, layout: WavLayout) -> (r: Option<Vec<u8>>)
    requires
        36 + 2 * samples@.len() <= u32::MAX,
        layout.channels == 1,
        0 < layout.sample_rate <= u32::MAX / 2,
        layout.bits_per_sample == 16,
        !layout.float,
    ensures
        r is Some,
        r matches Some(b) ==> b@ == pcm16_file(samples@, layout.sample_rate),
        r matches Some(b) ==> layout_in(b@) == Some(layout),
        r matches Some(b) ==> samples16_in(b@) == Some(samples@),
{
    let spec = hound::WavSpec {
        channels: layout.channels,
        sample_rate: layout.sample_rate,
        bits_per_sample: layout.bits_per_sample,
        sample_format: hound::SampleFormat::Int,
    };
    let mut cursor = std::io::Cursor::new(Vec::new());
    let mut writer = hound::WavWriter::new(&mut cursor, spec).ok()?;
    for s in samples {
        writer.write_sample(*s).ok()?;
    }
    writer.finalize().ok()?;
    Some(cursor.into_inner())
}

/// Calls `hound::WavReader::new` on bytes in memory and returns what the header
/// says. It is a function of the bytes alone.
#[verifier::external_body]
pub(crate) fn read_layout(wav: &[u8]) -> (r: Option<WavLayout>)
    ensures
        r == layout_in(wav@),
{
    let spec = hound::WavReader::new(std::io::Cursor::new(wav)).ok()?.spec();
    Some(WavLayout {
        channels: spec.channels,
        sample_rate: spec.sample_rate,
        bits_per_sample: spec.bits_per_sample,
        float: matches!(spec.sample_format, hound::SampleFormat::Float),
    })
}

/// Calls `hound::WavReader::samples` for all samples as 16-bit integers. They are
/// a function of the bytes alone.
#[verifier::external_body]
pub(crate) fn read_samples16(wav: &[u8]) -> (r: Option<Vec<i16>>)
    ensures
        match r {
            Some(v) => samples16_in(wav@) == Some(v@),
            None => samples16_in(wav@) is None,
        },
{
    let mut reader = hound::WavReader::new(std::io::Cursor::new(wav)).ok()?;
    reader.samples::<i16>().collect::<Result<Vec<i16>, hound::Error>>().ok()
}

/// Calls `hound::WavReader::samples` for all samples as 32-bit integers. They are
/// a function of the bytes alone.
#[verifier::external_body]
pub(crate) fn read_samples32(wav: &[u8]) -> (r: Option<Vec<i32>>)
    ensures
        match r {
            Some(v) => samples32_in(wav@) == Some(v@),
            None => samples32_in(wav@) is None,
        },
{
    let mut reader = hound::WavReader::new(std::io::Cursor::new(wav)).ok()?;
    reader.samples::<i32>().collect::<Result<Vec<i32>, hound::Error>>().ok()
}

/// Why a WAV file could not be written or read.
#[derive(Debug, Clone, Copy, PartialEq, Eq, Structural)]
pub enum WavError {
    /// The file could not be written.
    NotWritten,
    /// The file is no WAV file.
    Unreadable,
    /// A sample cannot be read.
    BadSamples,
    /// Integer samples with this number of bits are not supported.
    Unsupported(u16),
}

/// The error as it is shown to the user.
pub open spec fn error_text(e: WavError) -> Seq<char> {
    match e {
        WavError::NotWritten => "WAV impossible à écrire"@,
        WavError::Unreadable => "WAV illisible"@,
        WavError::BadSamples => "échantillons WAV illisibles"@,
        WavError::Unsupported(n) => "WAV "@ + text::decimal(n as nat) + " bits non pris en charge"@,
    }
}

impl WavError {
    /// The error as it is shown to the user.
    pub fn message(&self) -> (r: String)
        ensures
            r@ == error_text(*self),
    {
        match *self {
            WavError::NotWritten => "WAV impossible à écrire".to_string(),
            WavError::Unreadable => "WAV illisible".to_string(),
            WavError::BadSamples => "échantillons WAV illisibles".to_string(),
            WavError::Unsupported(n) => {
                let d = text::decimal_of(n as u64);
                text::concat3("WAV ", d.as_str(), " bits non pris en charge")
            },
        }
    }
}

/// The WAV file of `samples`, taken at [`TARGET_RATE`]: mono, 16 bits.
pub fn to_wav_16k(samples: &Vec<i16>) -> (r: Result<Vec<u8>, WavError>)
    requires
        36 + 2 * samples@.len() <= u32::MAX,
    ensures
        r is Ok,
        r matches Ok(b) ==> b@ == pcm16_file(samples@, TARGET_RATE),
        r matches Ok(b) ==> read_back(b@) == Ok::<WavView, WavError>(
            WavView {
                samples: SamplesView::Int16(samples@),
                channels: 1,
                sample_rate: TARGET_RATE,
            },
        ),
{
    let layout = WavLayout {
        channels: 1,
        sample_rate: TARGET_RATE,
        bits_per_sample: 16,
        float: false,
    };
    match write_pcm16(samples, layout) {
        Some(b) => Ok(b),
        None => Err(WavError::NotWritten),
    }
}

/// The samples of a WAV file, interleaved by channel.
#[derive(Debug, Clone, PartialEq, Eq)]
pub enum Samples {
    Int16(Vec<i16>),
    Int32(Vec<i32>),
    /// The samples are floating point numbers, which are left to the caller.
    Float,
}

/// What a WAV file holds.
#[derive(Debug, Clone, PartialEq, Eq)]
pub struct WavAudio {
    pub samples: Samples,
    pub channels: u16,
    pub sample_rate: u32,
}

/// What [`Samples`] denotes.
pub enum SamplesView {
    Int16(Seq<i16>),
    Int32(Seq<i32>),
    Float,
}

/// What a [`WavAudio`] denotes.
pub struct WavView {
    pub samples: SamplesView,
    pub channels: u16,
    pub sample_rate: u32,
}

impl View for WavAudio {
    type V = WavView;

    open spec fn view(&self) -> WavView {
        WavView {
            samples: match self.samples {
                Samples::Int16(v) => SamplesView::Int16(v@),
                Samples::Int32(v) => SamplesView::Int32(v@),
                Samples::Float => SamplesView::Float,
            },
            channels: self.channels,
            sample_rate: self.sample_rate,
        }
    }
}

/// What is read of a file, given its layout and its samples as 16-bit and as
/// 32-bit integers.
pub open spec fn audio_of(
    layout: Option<WavLayout>,
    ints16: Option<Seq<i16>>,
    ints32: Option<Seq<i32>>,
) -> Result<WavView, WavError> {
    match layout {
        None => Err(WavError::Unreadable),
        Some(l) => {
            let channels = if l.channels > 1 {
                l.channels
            } else {
                1
            };
            if l.float {
                Ok(
                    WavView { samples: SamplesView::Float, channels, sample_rate: l.sample_rate },
                )
            } else if l.bits_per_sample == 16 {
                match ints16 {
                    Some(v) => Ok(
                        WavView {
                            samples: SamplesView::Int16(v),
                            channels,
                            sample_rate: l.sample_rate,
                        },
                    ),
                    None => Err(WavError::BadSamples),
                }
            } else if l.bits_per_sample == 32 {
                match ints32 {
                    Some(v) => Ok(
                        WavView {
                            samples: SamplesView::Int32(v),
                            channels,
                            sample_rate: l.sample_rate,
                        },
                    ),
                    None => Err(WavError::BadSamples),
                }
            } else {
                Err(WavError::Unsupported(l.bits_per_sample))
            }
        },
    }
}

/// What is read of the bytes of a file.
pub open spec fn read_back(wav: Seq<u8>) -> Result<WavView, WavError> {
    audio_of(layout_in(wav), samples16_in(wav), samples32_in(wav))
}

/// The number of channels to mix: at least one.
fn channel_count(l: WavLayout) -> (n: u16)
    ensures
        n == if l.channels > 1 {
            l.channels
        } else {
            1
        },
{
    if l.channels > 1 {
        l.channels
    } else {
        1
    }
}

/// What a file of this layout holds, once its samples have been read as 16-bit
/// and as 32-bit integers.
pub fn assemble(layout: Option<WavLayout>, ints16: Option<Vec<i16>>, ints32: Option<Vec<i32>>) -> (r:
    Result<WavAudio, WavError>)
    ensures
        match r {
            Ok(a) => audio_of(layout, seq_of(ints16), seq_of(ints32)) == Ok::<WavView, WavError>(a@),
            Err(e) => audio_of(layout, seq_of(ints16), seq_of(ints32)) == Err::<WavView, WavError>(
                e,
            ),
        },
{
    match layout {
        None => Err(WavError::Unreadable),
        Some(l) => {
            let channels = channel_count(l);
            let sample_rate = l.sample_rate;
            if l.float {
                Ok(WavAudio { samples: Samples::Float, channels, sample_rate })
            } else if l.bits_per_sample == 16 {
                match ints16 {
                    Some(v) => Ok(WavAudio { samples: Samples::Int16(v), channels, sample_rate }),
                    None => Err(WavError::BadSamples),
                }
            } else if l.bits_per_sample == 32 {
                match ints32 {
                    Some(v) => Ok(WavAudio { samples: Samples::Int32(v), channels, sample_rate }),
                    None => Err(WavError::BadSamples),
                }
            } else {
                Err(WavError::Unsupported(l.bits_per_sample))
            }
        },
    }
}

/// The items that an optional vector holds.
pub open spec fn seq_of<T>(v: Option<Vec<T>>) -> Option<Seq<T>> {
    match v {
        Some(v) => Some(v@),
        None => None,
    }
}

/// Reads a WAV file of integer samples. The samples are read at the width that the
/// layout gives; floating point samples are left to the caller.
pub fn read_wav(wav: &[u8]) -> (r: Result<WavAudio, WavError>)
    ensures
        match r {
            Ok(a) => read_back(wav@) == Ok::<WavView, WavError>(a@),
            Err(e) => read_back(wav@) == Err::<WavView, WavError>(e),
        },
{
    let layout = read_layout(wav);
    let mut ints16: Option<Vec<i16>> = None;
    let mut ints32: Option<Vec<i32>> = None;
    if let Some(l) = layout {
        if !l.float && l.bits_per_sample == 16 {
            ints16 = read_samples16(wav);
        }
        if !l.float && l.bits_per_sample == 32 {
            ints32 = read_samples32(wav);
        }
    }
    assemble(layout, ints16, ints32)
}

// ---------------------------------------------------------------------------
// The frame that the sherpa-onnx server is sent
// ---------------------------------------------------------------------------

/// The bytes of the words, four for each, the lowest first.
pub open spec fn word_bytes(words: Seq<u32>) -> Seq<u8>
    decreases words.len(),
{
    if words.len() == 0 {
        Seq::empty()
    } else {
        word_bytes(words.drop_last()) + le4(words.last() as int)
    }
}

/// The sample rate, the number of bytes of the samples (its low 32 bits), and the
/// samples, all of them with the lowest byte first.
pub open spec fn payload(samples: Seq<u32>, sample_rate: u32) -> Seq<u8> {
    le4(sample_rate as int) + le4(4 * samples.len() as int) + word_bytes(samples)
}

fn push_le4(buf: &mut Vec<u8>, x: u32)
    ensures
        final(buf)@ == old(buf)@ + le4(x as int),
{
    buf.push((x % 256) as u8);
    buf.push((x / 256 % 256) as u8);
    buf.push((x / 65536 % 256) as u8);
    buf.push((x / 16777216 % 256) as u8);
}

/// A multiple of `256 * d` does not change the byte that starts at `d`.
proof fn lemma_same_byte(low: int, k: int, d: nat)
    requires
        d > 0,
    ensures
        (low + k * 256 * d) / (d as int) % 256 == low / (d as int) % 256,
{
    vstd::arithmetic::div_mod::lemma_hoist_over_denominator(low, k * 256, d);
    vstd::arithmetic::div_mod::lemma_mod_multiples_vanish(k, low / (d as int), 256);
}

/// Four times a number has the same four low bytes as four times its low 30 bits.
proof fn lemma_le4_low(m: int)
    requires
        0 <= m,
    ensures
        le4(4 * (m % 0x4000_0000)) == le4(4 * m),
{
    let low: int = 4 * (m % 0x4000_0000);
    let q: int = m / 0x4000_0000;
    assert(4 * m == low + q * 0x1_0000_0000);
    lemma_same_byte(low, q * 0x100_0000, 1);
    lemma_same_byte(low, q * 0x1_0000, 256);
    lemma_same_byte(low, q * 0x100, 65536);
    lemma_same_byte(low, q, 16777216);
    assert(low / 1 == low && (4 * m) / 1 == 4 * m);
}

/// The frame that the server expects for the samples whose single precision
/// patterns are `samples`.
pub fn build_payload(samples: &Vec<u32>, sample_rate: u32) -> (buf: Vec<u8>)
    ensures
        buf@ == payload(samples@, sample_rate),
{
    let mut buf: Vec<u8> = Vec::new();
    push_le4(&mut buf, sample_rate);
    let n: u64 = samples.len() as u64;
    let size: u32 = ((n % 0x4000_0000) * 4) as u32;
    proof {
        lemma_le4_low(samples@.len() as int);
    }
    push_le4(&mut buf, size);
    let ghost head = buf@;
    let mut i: usize = 0;
    assert(samples@.take(0).len() == 0);
    assert(head + word_bytes(samples@.take(0)) == head);
    while i < samples.len()
        invariant
            i <= samples.len(),
            buf@ == head + word_bytes(samples@.take(i as int)),
        decreases samples.len() - i,
    {
        push_le4(&mut buf, samples[i]);
        i = i + 1;
        assert(samples@.take(i as int).drop_last() == samples@.take(i - 1));
    }
    assert(samples@.take(samples@.len() as int) == samples@);
    buf
}

// ---------------------------------------------------------------------------
// Laws
// ---------------------------------------------------------------------------

/// The number that the four bytes of `b` from `at` on denote, the lowest first.
pub open spec fn word_at(b: Seq<u8>, at: int) -> int {
    b[at] + 256 * b[at + 1] + 65536 * b[at + 2] + 16777216 * b[at + 3]
}

/// The number that the two bytes of `b` from `at` on denote, the low one first.
pub open spec fn half_at(b: Seq<u8>, at: int) -> int {
    b[at] + 256 * b[at + 1]
}

/// The signed number that the two bytes of `b` from `at` on denote, the low one first.
pub open spec fn signed_at(b: Seq<u8>, at: int) -> int {
    if half_at(b, at) >= 0x8000 {
        half_at(b, at) - 0x1_0000
    } else {
        half_at(b, at)
    }
}

proof fn lemma_four_bytes(r: int)
    requires
        0 <= r < 0x1_0000_0000,
    ensures
        r % 256 + 256 * (r / 256 % 256) + 65536 * (r / 65536 % 256) + 16777216 * (r / 16777216
            % 256) == r,
{
    assert(r / 65536 == r / 256 / 256);
    assert(r / 16777216 == r / 65536 / 256);
    assert(r / 16777216 < 256);
}

proof fn lemma_le4_value(x: int)
    requires
        0 <= x,
    ensures
        le4(x).len() == 4,
        word_at(le4(x), 0) == x % 0x1_0000_0000,
{
    let q = x / 0x1_0000_0000;
    let r = x % 0x1_0000_0000;
    assert(x == r + q * 0x1_0000_0000);
    assert(x % 256 == r % 256 && x / 256 % 256 == r / 256 % 256 && x / 65536 % 256 == r / 65536
        % 256 && x / 16777216 % 256 == r / 16777216 % 256) by {
        lemma_same_byte(r, q * 0x100_0000, 1);
        lemma_same_byte(r, q * 0x1_0000, 256);
        lemma_same_byte(r, q * 0x100, 65536);
        lemma_same_byte(r, q, 16777216);
        assert(r / 1 == r && x / 1 == x);
    }
    lemma_four_bytes(r);
}

proof fn lemma_le2_value(x: int)
    ensures
        le2(x).len() == 2,
        half_at(le2(x), 0) == x % 0x1_0000,
{
}

proof fn lemma_word_bytes(words: Seq<u32>)
    ensures
        word_bytes(words).len() == 4 * words.len(),
        forall|i: int|
            0 <= i < words.len() ==> word_at(word_bytes(words), 4 * i) == #[trigger] words[i],
    decreases words.len(),
{
    if words.len() > 0 {
        let front = words.drop_last();
        lemma_word_bytes(front);
        lemma_le4_value(words.last() as int);
        let n = front.len() as int;
        let b = word_bytes(words);
        assert forall|i: int| 0 <= i < words.len() implies word_at(b, 4 * i) == #[trigger] words[i] by {
            if i < n {
                assert(front[i] == words[i]);
                assert(word_at(b, 4 * i) == word_at(word_bytes(front), 4 * i));
            } else {
                assert(word_at(b, 4 * i) == word_at(le4(words.last() as int), 0));
            }
        }
    }
}

proof fn lemma_sample_bytes(samples: Seq<i16>)
    ensures
        sample_bytes(samples).len() == 2 * samples.len(),
        forall|i: int|
            0 <= i < samples.len() ==> signed_at(sample_bytes(samples), 2 * i)
                == #[trigger] samples[i],
    decreases samples.len(),
{
    if samples.len() > 0 {
        let front = samples.drop_last();
        lemma_sample_bytes(front);
        lemma_le2_value(samples.last() as int);
        let n = front.len() as int;
        let b = sample_bytes(samples);
        assert forall|i: int| 0 <= i < samples.len() implies signed_at(b, 2 * i)
            == #[trigger] samples[i] by {
            if i < n {
                assert(front[i] == samples[i]);
                assert(half_at(b, 2 * i) == half_at(sample_bytes(front), 2 * i));
            } else {
                assert(half_at(b, 2 * i) == half_at(le2(samples.last() as int), 0));
            }
        }
    }
}

/// The server is sent eight bytes and four more for each sample: first the sample
/// rate, then the number of bytes that follow, then the samples in the order in which
/// they were recorded, each number with its lowest byte first.
pub proof fn payloads_hold_the_samples_in_order(samples: Seq<u32>, sample_rate: u32)
    ensures
        payload(samples, sample_rate).len() == 8 + 4 * samples.len(),
        word_at(payload(samples, sample_rate), 0) == sample_rate,
        word_at(payload(samples, sample_rate), 4) == (4 * samples.len()) % 0x1_0000_0000,
        forall|i: int|
            0 <= i < samples.len() ==> word_at(payload(samples, sample_rate), 8 + 4 * i)
                == #[trigger] samples[i],
{
    let b = payload(samples, sample_rate);
    let n = 4 * samples.len() as int;
    lemma_le4_value(sample_rate as int);
    lemma_le4_value(n);
    lemma_word_bytes(samples);
    assert(word_at(b, 0) == word_at(le4(sample_rate as int), 0));
    assert(word_at(b, 4) == word_at(le4(n), 0));
    assert forall|i: int| 0 <= i < samples.len() implies word_at(b, 8 + 4 * i)
        == #[trigger] samples[i] by {
        assert(word_at(b, 8 + 4 * i) == word_at(word_bytes(samples), 4 * i));
    }
}

/// Two recordings that are sent as the same bytes are the same recording.
pub proof fn payloads_tell_recordings_apart(
    a: Seq<u32>,
    rate_a: u32,
    b: Seq<u32>,
    rate_b: u32,
)
    requires
        payload(a, rate_a) == payload(b, rate_b),
    ensures
        a == b,
        rate_a == rate_b,
{
    payloads_hold_the_samples_in_order(a, rate_a);
    payloads_hold_the_samples_in_order(b, rate_b);
    assert forall|i: int| 0 <= i < a.len() implies a[i] == b[i] by {
        assert(word_at(payload(a, rate_a), 8 + 4 * i) == a[i]);
        assert(word_at(payload(b, rate_b), 8 + 4 * i) == b[i]);
    }
}

/// Behind the header of a WAV file, of 44 bytes, stand the samples in their order, two
/// bytes for each.
pub proof fn files_hold_the_samples_in_order(samples: Seq<i16>, rate: u32)
    ensures
        pcm16_file(samples, rate).len() == 44 + 2 * samples.len(),
        forall|i: int|
            0 <= i < samples.len() ==> signed_at(pcm16_file(samples, rate), 44 + 2 * i)
                == #[trigger] samples[i],
{
    let b = pcm16_file(samples, rate);
    lemma_sample_bytes(samples);
    assert(b.len() == 44 + 2 * samples.len());
    assert(b.skip(44) == sample_bytes(samples));
    assert forall|i: int| 0 <= i < samples.len() implies signed_at(b, 44 + 2 * i)
        == #[trigger] samples[i] by {
        assert(b.skip(44)[2 * i] == b[44 + 2 * i]);
        assert(b.skip(44)[2 * i + 1] == b[44 + 2 * i + 1]);
        assert(half_at(b, 44 + 2 * i) == half_at(sample_bytes(samples), 2 * i));
    }
}

/// A file is read at the width and the rate that its header gives, its samples being
/// taken as they stand, with at least one channel; nothing else is read from it.
pub proof fn files_are_read_as_their_header_says(
    l: WavLayout,
    ints16: Option<Seq<i16>>,
    ints32: Option<Seq<i32>>,
)
    ensures
        ({
            let r = audio_of(Some(l), ints16, ints32);
            &&& r matches Ok(a) ==> a.sample_rate == l.sample_rate && a.channels >= 1 && (l.channels
                >= 1 ==> a.channels == l.channels) && (l.channels == 0 ==> a.channels == 1)
            &&& r matches Ok(a) ==> (a.samples is Float <==> l.float)
            &&& r matches Ok(a) ==> (a.samples matches SamplesView::Int16(v) ==> ints16 == Some(v)
                && l.bits_per_sample == 16)
            &&& r matches Ok(a) ==> (a.samples matches SamplesView::Int32(v) ==> ints32 == Some(v)
                && l.bits_per_sample == 32)
            &&& l.float ==> r is Ok
            &&& !l.float && l.bits_per_sample == 16 ==> (r is Ok <==> ints16 is Some)
            &&& !l.float && l.bits_per_sample == 32 ==> (r is Ok <==> ints32 is Some)
            &&& r == Err::<WavView, WavError>(WavError::Unsupported(l.bits_per_sample)) <==> !l.float
                && l.bits_per_sample != 16 && l.bits_per_sample != 32
            &&& r != Err::<WavView, WavError>(WavError::Unreadable)
            &&& r != Err::<WavView, WavError>(WavError::NotWritten)
        }),
        audio_of(None, ints16, ints32) == Err::<WavView, WavError>(WavError::Unreadable),
{
}

}
