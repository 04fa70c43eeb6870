use murmure::wav::{assemble, build_payload, read_wav, to_wav_16k, Samples, WavError, WavLayout};

#[test]
fn payload_header() {
    let p = build_payload(&vec![1.0f32.to_bits(), (-1.0f32).to_bits()], 16000);
    assert_eq!(&p[0..4], &16000i32.to_le_bytes());
    assert_eq!(&p[4..8], &8i32.to_le_bytes());
    assert_eq!(p.len(), 16);
}

#[test]
fn payload_samples() {
    let p = build_payload(&vec![0.5f32.to_bits()], 48_000);
    assert_eq!(&p[8..12], &0.5f32.to_le_bytes());
    assert_eq!(build_payload(&Vec::new(), 1).len(), 8);
}

#[test]
fn written_files_are_read_back() {
    let samples: Vec<i16> = vec![0, 1, -1, i16::MAX, i16::MIN];
    let file = to_wav_16k(&samples).unwrap();
    assert_eq!(file.len(), 44 + 10);
    assert_eq!(&file[0..4], b"RIFF");
    assert_eq!(&file[4..8], &46u32.to_le_bytes());
    assert_eq!(&file[8..16], b"WAVEfmt ");
    assert_eq!(&file[22..24], &1u16.to_le_bytes());
    assert_eq!(&file[24..28], &16_000u32.to_le_bytes());
    assert_eq!(&file[34..36], &16u16.to_le_bytes());
    assert_eq!(&file[36..40], b"data");
    assert_eq!(&file[40..44], &10u32.to_le_bytes());
    assert_eq!(&file[46..48], &1i16.to_le_bytes());
    let audio = read_wav(&file).unwrap();
    assert_eq!(audio.samples, Samples::Int16(samples));
    assert_eq!((audio.channels, audio.sample_rate), (1, 16_000));
}

#[test]
fn empty_files_are_read_back() {
    let file = to_wav_16k(&Vec::new()).unwrap();
    assert_eq!(read_wav(&file).unwrap().samples, Samples::Int16(Vec::new()));
}

fn wide_file(bits: u16, float: bool, data: &[u8]) -> Vec<u8> {
    let mut f: Vec<u8> = Vec::new();
    f.extend_from_slice(b"RIFF");
    f.extend_from_slice(&(36 + data.len() as u32).to_le_bytes());
    f.extend_from_slice(b"WAVEfmt ");
    f.extend_from_slice(&16u32.to_le_bytes());
    f.extend_from_slice(&(if float { 3u16 } else { 1u16 }).to_le_bytes());
    f.extend_from_slice(&2u16.to_le_bytes());
    f.extend_from_slice(&8_000u32.to_le_bytes());
    f.extend_from_slice(&(8_000 * 2 * bits as u32 / 8).to_le_bytes());
    f.extend_from_slice(&(2 * bits / 8).to_le_bytes());
    f.extend_from_slice(&bits.to_le_bytes());
    f.extend_from_slice(b"data");
    f.extend_from_slice(&(data.len() as u32).to_le_bytes());
    f.extend_from_slice(data);
    f
}

#[test]
fn wide_samples_are_read() {
    let mut data: Vec<u8> = Vec::new();
    for x in [1i32 << 30, -5] {
        data.extend_from_slice(&x.to_le_bytes());
    }
    let audio = read_wav(&wide_file(32, false, &data)).unwrap();
    assert_eq!(audio.samples, Samples::Int32(vec![1 << 30, -5]));
    assert_eq!((audio.channels, audio.sample_rate), (2, 8_000));
}

#[test]
fn float_samples_are_left_to_the_caller() {
    let audio = read_wav(&wide_file(32, true, &[0; 8])).unwrap();
    assert_eq!(audio.samples, Samples::Float);
}

#[test]
fn broken_files_are_refused() {
    assert_eq!(read_wav(b"not a file").unwrap_err(), WavError::Unreadable);
    assert_eq!(read_wav(&wide_file(24, false, &[0; 6])).unwrap_err(), WavError::Unsupported(24));
    assert_eq!(WavError::Unreadable.message(), "WAV illisible");
    assert_eq!(WavError::BadSamples.message(), "échantillons WAV illisibles");
    assert_eq!(WavError::Unsupported(24).message(), "WAV 24 bits non pris en charge");
}

#[test]
fn samples_that_cannot_be_read_are_an_error() {
    let layout = WavLayout { channels: 1, sample_rate: 8_000, bits_per_sample: 16, float: false };
    assert_eq!(assemble(Some(layout), None, None).unwrap_err(), WavError::BadSamples);
    assert_eq!(assemble(None, None, None).unwrap_err(), WavError::Unreadable);
    let audio = assemble(Some(layout), Some(vec![7]), None).unwrap();
    assert_eq!(audio.samples, Samples::Int16(vec![7]));
}
