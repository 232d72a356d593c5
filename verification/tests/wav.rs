use std::io::Cursor;
use voicebox_asr::error::ErrorKind;
use voicebox_asr::wav::{accept_wav_header, inspect_wav, pcm_full_scale, SampleKind, WavHeader};

fn wav_bytes(channels: u16, sample_rate: u32, bits: u16, float: bool, frames: usize) -> Vec<u8> {
    let spec = hound::WavSpec {
        channels,
        sample_rate,
        bits_per_sample: bits,
        sample_format: if float { hound::SampleFormat::Float } else { hound::SampleFormat::Int },
    };
    let mut cursor = Cursor::new(Vec::new());
    {
        let mut writer = hound::WavWriter::new(&mut cursor, spec).unwrap();
        for i in 0..frames * channels as usize {
            if float {
                writer.write_sample(0.25f32).unwrap();
            } else {
                writer.write_sample((i % 100) as i16).unwrap();
            }
        }
        writer.finalize().unwrap();
    }
    cursor.into_inner()
}

#[test]
fn reads_an_integer_header() {
    let header = inspect_wav(&wav_bytes(1, 16000, 16, false, 10)).unwrap();
    assert_eq!(header.channels, 1);
    assert_eq!(header.sample_rate, 16000);
    assert_eq!(header.bits_per_sample, 16);
    assert_eq!(header.sample_format, SampleKind::Int);
}

#[test]
fn reads_a_float_stereo_header() {
    let header = inspect_wav(&wav_bytes(2, 44100, 32, true, 4)).unwrap();
    assert_eq!(header.channels, 2);
    assert_eq!(header.sample_rate, 44100);
    assert_eq!(header.bits_per_sample, 32);
    assert_eq!(header.sample_format, SampleKind::Float);
}

#[test]
fn refuses_bytes_that_are_not_wav() {
    let err = inspect_wav(b"hello, world").unwrap_err();
    assert_eq!(err.kind, ErrorKind::BadRequest);
    assert!(err.message.starts_with("Invalid WAV audio: "));
    assert!(err.message.len() > "Invalid WAV audio: ".len());
}

#[test]
fn header_check_maps_each_case() {
    let err = accept_wav_header(Err("broken".to_string())).unwrap_err();
    assert_eq!(err.message, "Invalid WAV audio: broken");
    let silent = WavHeader { channels: 0, sample_rate: 16000, bits_per_sample: 16, sample_format: SampleKind::Int };
    let err = accept_wav_header(Ok(silent)).unwrap_err();
    assert_eq!(err.kind, ErrorKind::BadRequest);
    assert_eq!(err.message, "WAV file has zero channels.");
    let mono = WavHeader { channels: 1, ..silent };
    assert_eq!(accept_wav_header(Ok(mono)).unwrap(), mono);
}

#[test]
fn full_scale_of_common_sample_widths() {
    assert_eq!(pcm_full_scale(8), 127);
    assert_eq!(pcm_full_scale(16), 32767);
    assert_eq!(pcm_full_scale(24), 8388607);
    assert_eq!(pcm_full_scale(32), 2147483647);
    assert_eq!(pcm_full_scale(63), 4611686018427387903);
    assert_eq!(pcm_full_scale(1), 0);
    assert_eq!(pcm_full_scale(0), 0);
}
