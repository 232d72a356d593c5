//! Checks on the header of an uploaded WAV file, and the integer full scale
//! of its PCM samples.

use vstd::prelude::*;
use vstd::arithmetic::power2::pow2;
use crate::error::{AppError, ErrorKind};

verus! {

/// How the samples of a WAV file are stored.
#[derive(Debug, Clone, Copy, PartialEq, Eq, Structural)]
pub enum SampleKind {
    Float,
    Int,
}

/// The format fields of a WAV file's header.
#[derive(Debug, Clone, Copy, PartialEq, Eq, Structural)]
pub struct WavHeader {
    pub channels: u16,
    pub sample_rate: u32,
    pub bits_per_sample: u16,
    pub sample_format: SampleKind,
}

/// The header fields as plain values: channels, sample rate, bits per sample,
/// and whether the samples are floating point.
pub open spec fn header_fields(h: WavHeader) -> (u16, u32, u16, bool) {
    (h.channels, h.sample_rate, h.bits_per_sample, h.sample_format == SampleKind::Float)
}

/// What `hound::WavReader::new` reads from `bytes`: the header fields, or the
/// text of its error.
pub uninterp spec fn wav_header_of(bytes: Seq<u8>) -> Result<(u16, u32, u16, bool), Seq<char>>;

/// Opens `bytes` with `hound::WavReader::new` and gives the header fields of
/// `WavReader::spec`, or the `Display` text of hound's error. Both are left to
/// the name `wav_header_of`.
#[verifier::external_body]
fn read_wav_header(bytes: &[u8]) -> (res: Result<WavHeader, String>)
    ensures
        match res {
            Ok(h) => wav_header_of(bytes@) == Ok::<(u16, u32, u16, bool), Seq<char>>(header_fields(h)),
            Err(text) => wav_header_of(bytes@) == Err::<(u16, u32, u16, bool), Seq<char>>(text@),
        },
{
    match hound::WavReader::new(std::io::Cursor::new(bytes)) {
        Ok(reader) => {
            let spec = reader.spec();
            let sample_format = match spec.sample_format {
                hound::SampleFormat::Float => SampleKind::Float,
                hound::SampleFormat::Int => SampleKind::Int,
            };
            Ok(WavHeader { channels: spec.channels, sample_rate: spec.sample_rate, bits_per_sample: spec.bits_per_sample, sample_format })
        },
        Err(err) => Err(err.to_string()),
    }
}

/// The message for bytes that are not a WAV file hound can read.
pub open spec fn invalid_wav_message(detail: Seq<char>) -> Seq<char> {
    "Invalid WAV audio: "@ + detail
}

/// The outcome of checking a read header: a read error becomes a bad-request
/// error, a header without channels is refused, any other header is accepted.
pub open spec fn header_check(parsed: Result<WavHeader, Seq<char>>, res: Result<WavHeader, (ErrorKind, Seq<char>)>) -> bool {
    match parsed {
        Err(detail) => res == Err::<WavHeader, (ErrorKind, Seq<char>)>(
            (ErrorKind::BadRequest, invalid_wav_message(detail)),
        ),
        Ok(h) => if h.channels == 0 {
            res == Err::<WavHeader, (ErrorKind, Seq<char>)>(
                (ErrorKind::BadRequest, "WAV file has zero channels."@),
            )
        } else {
            res == Ok::<WavHeader, (ErrorKind, Seq<char>)>(h)
        },
    }
}

/// The view of a header check's outcome.
pub open spec fn checked_of(res: Result<WavHeader, AppError>) -> Result<WavHeader, (ErrorKind, Seq<char>)> {
    match res {
        Ok(h) => Ok(h),
        Err(e) => Err(e@),
    }
}

/// The view of what hound read.
pub open spec fn parsed_of(parsed: Result<WavHeader, String>) -> Result<WavHeader, Seq<char>> {
    match parsed {
        Ok(h) => Ok(h),
        Err(t) => Err(t@),
    }
}

/// Turns what hound read from an upload into the header the service accepts,
/// or the error the request is refused with.
pub fn accept_wav_header(parsed: Result<WavHeader, String>) -> (res: Result<WavHeader, AppError>)
    ensures
        header_check(parsed_of(parsed), checked_of(res)),
{
    match parsed {
        Err(detail) => {
            let mut message = String::from_str("Invalid WAV audio: ");
            message.append(detail.as_str());
            Err(AppError::bad_request(message))
        },
        Ok(h) => {
            if h.channels == 0 {
                Err(AppError::bad_request(String::from_str("WAV file has zero channels.")))
            } else {
                Ok(h)
            }
        },
    }
}

/// Reads the header of an uploaded WAV file and checks it.
pub fn inspect_wav(bytes: &[u8]) -> (res: Result<WavHeader, AppError>)
    ensures
        match wav_header_of(bytes@) {
            Err(detail) => checked_of(res) == Err::<WavHeader, (ErrorKind, Seq<char>)>(
                (ErrorKind::BadRequest, invalid_wav_message(detail)),
            ),
            Ok(fields) => if fields.0 == 0 {
                checked_of(res) == Err::<WavHeader, (ErrorKind, Seq<char>)>(
                    (ErrorKind::BadRequest, "WAV file has zero channels."@),
                )
            } else {
                res matches Ok(h) && header_fields(h) == fields
            },
        },
{
    let parsed = read_wav_header(bytes);
    accept_wav_header(parsed)
}

/// The largest magnitude of a signed integer sample of `bits_per_sample`
/// bits: 2^(bits - 1) - 1, with 0 bits counted as 1.
pub fn pcm_full_scale(bits_per_sample: u16) -> (res: i64)
    requires
        bits_per_sample <= 63,
    ensures
        res == pow2((if bits_per_sample == 0 { 0 } else { bits_per_sample - 1 }) as nat) - 1,
{
    let exponent: u16 = bits_per_sample.saturating_sub(1);
    let e: u64 = exponent as u64;
    proof {
        vstd::bits::lemma_u64_pow2_no_overflow(e as nat);
        vstd::arithmetic::power2::lemma_pow2_strictly_increases(e as nat, 63);
        vstd::arithmetic::power2::lemma2_to64();
        vstd::arithmetic::power2::lemma2_to64_rest();
        vstd::bits::lemma_u64_shl_is_mul(1, e);
    }
    let full: u64 = 1u64 << e;
    (full - 1) as i64
}

} // verus!
