use vstd::prelude::*;

use vstd::arithmetic::power2::lemma2_to64;

use crate::bits::{bits_val, lemma_bits_val_bound, lemma_bits_val_word, word_bits, word_of, BitCursor};
use crate::error::AdtsError;
use crate::stream::ByteStream;

verus! {

/// The length of an ADTS header without its CRC, and the number of bytes a decode reads.
pub const ADTS_HDR_MIN_LEN: usize = 7;

/// The value every valid syncword holds.
pub const ADTS_SYNCWORD: u16 = 0xFFF;

/// The MPEG revision that a header declares.
#[derive(Debug, Clone, Copy, PartialEq, Eq, Structural)]
pub enum MpegVersion {
    Mpeg4,
    Mpeg2,
}

/// The codec variant that a header declares.
#[derive(Debug, Clone, Copy, PartialEq, Eq, Structural)]
pub enum AudioObjectType {
    AacMain,
    AacLc,
    AacSsr,
    AacLtp,
    Sbr,
    AacScalable,
    TwinVq,
    Celp,
    Layer1,
    Layer2,
    Layer3,
}

/// The fields of one ADTS header that are kept after decoding.
#[derive(Debug, Clone, Copy, PartialEq, Eq, Structural)]
pub struct AdtsHeader {
    pub syncword: u16,
    pub mpeg_version: MpegVersion,
    /// When false, a 16-bit CRC follows the fixed header; it is neither read nor checked.
    pub protection_absent: bool,
    pub audio_object_type: AudioObjectType,
    /// The 4-bit sampling frequency index, not mapped to a rate.
    pub sampling_frequency_index: u8,
    pub channel_configuration: u8,
    /// The length of the whole frame in bytes, header included.
    pub frame_length: u16,
}

/// The audio object type for a profile code, if the code names one.
pub open spec fn audio_object_type_of(code: nat) -> Option<AudioObjectType> {
    if code == 0 {
        Some(AudioObjectType::AacMain)
    } else if code == 1 {
        Some(AudioObjectType::AacLc)
    } else if code == 2 {
        Some(AudioObjectType::AacSsr)
    } else if code == 3 {
        Some(AudioObjectType::AacLtp)
    } else if code == 4 {
        Some(AudioObjectType::Sbr)
    } else if code == 5 {
        Some(AudioObjectType::AacScalable)
    } else if code == 6 {
        Some(AudioObjectType::TwinVq)
    } else if code == 7 {
        Some(AudioObjectType::Celp)
    } else if code == 31 {
        Some(AudioObjectType::Layer1)
    } else if code == 32 {
        Some(AudioObjectType::Layer2)
    } else if code == 33 {
        Some(AudioObjectType::Layer3)
    } else {
        None
    }
}

/// The shortest frame that a header may declare: the header itself, with its CRC when present.
pub open spec fn min_frame_len(protection_absent: bool) -> nat {
    if protection_absent {
        7
    } else {
        9
    }
}

/// What the first seven bytes of `b` decode to: the fields read most significant bit first,
/// then the syncword, the audio object type and the frame length checked in that order.
pub open spec fn decode_spec(b: Seq<u8>) -> Result<AdtsHeader, AdtsError> {
    let syncword = bits_val(b, 0, 12);
    let version = bits_val(b, 12, 1);
    let protection_absent = bits_val(b, 15, 1) == 1;
    let profile = bits_val(b, 16, 2);
    let sampling_frequency_index = bits_val(b, 18, 4);
    let channel_configuration = bits_val(b, 23, 3);
    let frame_length = bits_val(b, 30, 13);
    if syncword != ADTS_SYNCWORD {
        Err(AdtsError::InvalidSyncword)
    } else if audio_object_type_of(profile) is None {
        Err(AdtsError::InvalidAudioObjectType)
    } else if frame_length < min_frame_len(protection_absent) {
        Err(AdtsError::InvalidFrameLength)
    } else {
        Ok(
            AdtsHeader {
                syncword: syncword as u16,
                mpeg_version: if version == 0 {
                    MpegVersion::Mpeg4
                } else {
                    MpegVersion::Mpeg2
                },
                protection_absent,
                audio_object_type: audio_object_type_of(profile)->Some_0,
                sampling_frequency_index: sampling_frequency_index as u8,
                channel_configuration: channel_configuration as u8,
                frame_length: frame_length as u16,
            },
        )
    }
}

/// What a peek at position `p` of `d` yields.
pub open spec fn peek_spec(d: Seq<u8>, p: int) -> Result<AdtsHeader, AdtsError> {
    if p + ADTS_HDR_MIN_LEN > d.len() {
        Err(AdtsError::IoFailure)
    } else {
        decode_spec(d.subrange(p, p + ADTS_HDR_MIN_LEN))
    }
}

/// The profile code of each audio object type: the inverse of `audio_object_type_of`.
pub open spec fn profile_code(t: AudioObjectType) -> nat {
    match t {
        AudioObjectType::AacMain => 0,
        AudioObjectType::AacLc => 1,
        AudioObjectType::AacSsr => 2,
        AudioObjectType::AacLtp => 3,
        AudioObjectType::Sbr => 4,
        AudioObjectType::AacScalable => 5,
        AudioObjectType::TwinVq => 6,
        AudioObjectType::Celp => 7,
        AudioObjectType::Layer1 => 31,
        AudioObjectType::Layer2 => 32,
        AudioObjectType::Layer3 => 33,
    }
}

/// The version bit that stands for each MPEG revision.
pub open spec fn version_bit(v: MpegVersion) -> u64 {
    match v {
        MpegVersion::Mpeg4 => 0,
        MpegVersion::Mpeg2 => 1,
    }
}

/// The 56 header bits that carry the fields of `h`, every field that `h` does not keep zero.
pub open spec fn header_word(h: AdtsHeader) -> u64 {
    (h.syncword as u64) << 44u64 | version_bit(h.mpeg_version) << 43u64 | (if h.protection_absent {
        1u64
    } else {
        0u64
    }) << 40u64 | (profile_code(h.audio_object_type) as u64) << 38u64
        | (h.sampling_frequency_index as u64) << 34u64 | (h.channel_configuration as u64) << 30u64
        | (h.frame_length as u64) << 13u64
}

/// The seven bytes of a header built from the fields of `h`.
pub open spec fn header_bytes(h: AdtsHeader) -> Seq<u8> {
    let w = header_word(h);
    seq![
        (w >> 48u64) as u8,
        (w >> 40u64) as u8,
        (w >> 32u64) as u8,
        (w >> 24u64) as u8,
        (w >> 16u64) as u8,
        (w >> 8u64) as u8,
        w as u8,
    ]
}

/// Decoding the bytes of a header built from chosen field values gives back exactly those
/// values, for every choice that a header can carry and that decodes: syncword `0xFFF`, an audio
/// object type with a two-bit code, fields within their widths, and a frame length no shorter
/// than the header.
pub proof fn lemma_decode_round_trip(h: AdtsHeader)
    requires
        h.syncword == ADTS_SYNCWORD,
        profile_code(h.audio_object_type) < 4,
        h.sampling_frequency_index < 16,
        h.channel_configuration < 8,
        h.frame_length < 8192,
        h.frame_length >= min_frame_len(h.protection_absent),
    ensures
        decode_spec(header_bytes(h)) == Ok::<AdtsHeader, AdtsError>(h),
{
    let b = header_bytes(h);
    let w = header_word(h);
    let sync = h.syncword as u64;
    let v = version_bit(h.mpeg_version);
    let pa: u64 = if h.protection_absent {
        1
    } else {
        0
    };
    let pc = profile_code(h.audio_object_type) as u64;
    let sfi = h.sampling_frequency_index as u64;
    let cc = h.channel_configuration as u64;
    let fl = h.frame_length as u64;
    let (b0, b1, b2, b3, b4, b5, b6) = (b[0], b[1], b[2], b[3], b[4], b[5], b[6]);
    let wb = word_of(b);
    assert({
        &&& wb == w
        &&& (w >> 44u64) & (((1u64 << 12u64) - 1) as u64) == sync
        &&& (w >> 43u64) & (((1u64 << 1u64) - 1) as u64) == v
        &&& (w >> 40u64) & (((1u64 << 1u64) - 1) as u64) == pa
        &&& (w >> 38u64) & (((1u64 << 2u64) - 1) as u64) == pc
        &&& (w >> 34u64) & (((1u64 << 4u64) - 1) as u64) == sfi
        &&& (w >> 30u64) & (((1u64 << 3u64) - 1) as u64) == cc
        &&& (w >> 13u64) & (((1u64 << 13u64) - 1) as u64) == fl
    }) by (bit_vector)
        requires
            w == sync << 44u64 | v << 43u64 | pa << 40u64 | pc << 38u64 | sfi << 34u64 | cc << 30u64
                | fl << 13u64,
            b0 == (w >> 48u64) as u8,
            b1 == (w >> 40u64) as u8,
            b2 == (w >> 32u64) as u8,
            b3 == (w >> 24u64) as u8,
            b4 == (w >> 16u64) as u8,
            b5 == (w >> 8u64) as u8,
            b6 == w as u8,
            wb == (b0 as u64) << 48u64 | (b1 as u64) << 40u64 | (b2 as u64) << 32u64 | (b3 as u64)
                << 24u64 | (b4 as u64) << 16u64 | (b5 as u64) << 8u64 | (b6 as u64),
            sync < 0x1000,
            v < 2,
            pa < 2,
            pc < 4,
            sfi < 16,
            cc < 8,
            fl < 0x2000,
    ;
    lemma_bits_val_word(b, 0, 12);
    lemma_bits_val_word(b, 12, 1);
    lemma_bits_val_word(b, 15, 1);
    lemma_bits_val_word(b, 16, 2);
    lemma_bits_val_word(b, 18, 4);
    lemma_bits_val_word(b, 23, 3);
    lemma_bits_val_word(b, 30, 13);
    assert(bits_val(b, 0, 12) == sync);
    assert(bits_val(b, 12, 1) == v);
    assert(bits_val(b, 15, 1) == pa);
    assert(bits_val(b, 16, 2) == pc);
    assert(bits_val(b, 18, 4) == sfi);
    assert(bits_val(b, 23, 3) == cc);
    assert(bits_val(b, 30, 13) == fl);
}

/// A syncword other than `0xFFF` is rejected with `InvalidSyncword`, whatever the other fields.
pub proof fn lemma_bad_syncword_rejected(b: Seq<u8>)
    requires
        bits_val(b, 0, 12) != ADTS_SYNCWORD,
    ensures
        decode_spec(b) == Err::<AdtsHeader, AdtsError>(AdtsError::InvalidSyncword),
{
}

/// A header with a valid syncword whose frame length is shorter than the header itself (under 7
/// bytes, or under 9 when a CRC is present) is rejected with `InvalidFrameLength`.
pub proof fn lemma_short_frame_rejected(b: Seq<u8>)
    requires
        bits_val(b, 0, 12) == ADTS_SYNCWORD,
        bits_val(b, 30, 13) < min_frame_len(bits_val(b, 15, 1) == 1),
    ensures
        decode_spec(b) == Err::<AdtsHeader, AdtsError>(AdtsError::InvalidFrameLength),
{
    lemma_bits_val_bound(b, 16, 2);
    lemma2_to64();
}

/// A peek with fewer than seven bytes left fails with `IoFailure`.
pub proof fn lemma_short_peek_fails(d: Seq<u8>, p: int)
    requires
        p + ADTS_HDR_MIN_LEN > d.len(),
    ensures
        peek_spec(d, p) == Err::<AdtsHeader, AdtsError>(AdtsError::IoFailure),
{
}

/// The audio object type for a profile code, or `None` for a code outside the known set.
pub fn audio_object_type_from_code(code: u16) -> (r: Option<AudioObjectType>)
    ensures
        r == audio_object_type_of(code as nat),
{
    match code {
        0 => Some(AudioObjectType::AacMain),
        1 => Some(AudioObjectType::AacLc),
        2 => Some(AudioObjectType::AacSsr),
        3 => Some(AudioObjectType::AacLtp),
        4 => Some(AudioObjectType::Sbr),
        5 => Some(AudioObjectType::AacScalable),
        6 => Some(AudioObjectType::TwinVq),
        7 => Some(AudioObjectType::Celp),
        31 => Some(AudioObjectType::Layer1),
        32 => Some(AudioObjectType::Layer2),
        33 => Some(AudioObjectType::Layer3),
        _ => None,
    }
}

/// Reads the next `n` bits of `c`; a cursor that runs out is a short read.
fn read_field(c: &mut BitCursor, n: usize) -> (r: Result<u16, AdtsError>)
    requires
        old(c).wf(),
        n <= 16,
    ensures
        final(c).wf(),
        final(c).bytes() == old(c).bytes(),
        old(c).bit_pos() + n <= 8 * old(c).bytes().len() ==> {
            &&& r is Ok
            &&& r->Ok_0 as nat == bits_val(old(c).bytes(), old(c).bit_pos() as int, n as nat)
            &&& final(c).bit_pos() == old(c).bit_pos() + n
        },
{
    match c.read_bits(n) {
        Some(v) => Ok(v),
        None => Err(AdtsError::IoFailure),
    }
}

/// Decodes the ADTS header in the first seven bytes of `buf`.
///
/// Fails with `IoFailure` when `buf` is shorter than a header, and otherwise as
/// `decode_spec` says.
pub fn decode_header(buf: &[u8]) -> (r: Result<AdtsHeader, AdtsError>)
    ensures
        buf@.len() < ADTS_HDR_MIN_LEN ==> r == Err::<AdtsHeader, AdtsError>(AdtsError::IoFailure),
        buf@.len() >= ADTS_HDR_MIN_LEN ==> r == decode_spec(buf@),
{
    if buf.len() < ADTS_HDR_MIN_LEN {
        return Err(AdtsError::IoFailure);
    }
    let mut c = BitCursor::new(buf);
    let syncword = match read_field(&mut c, 12) {
        Ok(v) => v,
        Err(e) => return Err(e),
    };
    let version = match read_field(&mut c, 1) {
        Ok(v) => v,
        Err(e) => return Err(e),
    };
    // layer, always zero
    let _ = c.skip(2);
    let protection = match read_field(&mut c, 1) {
        Ok(v) => v,
        Err(e) => return Err(e),
    };
    let profile = match read_field(&mut c, 2) {
        Ok(v) => v,
        Err(e) => return Err(e),
    };
    let sampling_frequency_index = match read_field(&mut c, 4) {
        Ok(v) => v,
        Err(e) => return Err(e),
    };
    // private bit
    let _ = c.skip(1);
    let channel_configuration = match read_field(&mut c, 3) {
        Ok(v) => v,
        Err(e) => return Err(e),
    };
    // originality, home, copyright id bit, copyright id start
    let _ = c.skip(4);
    let frame_length = match read_field(&mut c, 13) {
        Ok(v) => v,
        Err(e) => return Err(e),
    };
    // buffer fullness, then the count of raw data blocks
    let _ = c.skip(11);
    let _ = c.skip(2);
    // A CRC follows when protection is present; it is not read.

    if syncword != ADTS_SYNCWORD {
        return Err(AdtsError::InvalidSyncword);
    }
    let mpeg_version = if version == 0 {
        MpegVersion::Mpeg4
    } else {
        MpegVersion::Mpeg2
    };
    let protection_absent = protection == 1;
    let audio_object_type = match audio_object_type_from_code(profile) {
        Some(t) => t,
        None => return Err(AdtsError::InvalidAudioObjectType),
    };
    let min_len: u16 = if protection_absent {
        7
    } else {
        9
    };
    if frame_length < min_len {
        return Err(AdtsError::InvalidFrameLength);
    }
    Ok(
        AdtsHeader {
            syncword,
            mpeg_version,
            protection_absent,
            audio_object_type,
            sampling_frequency_index: sampling_frequency_index as u8,
            channel_configuration: channel_configuration as u8,
            frame_length,
        },
    )
}

/// Decodes the header at the position of `stream` without consuming it: the position is the
/// same afterwards, whatever the outcome.
pub fn peek_header(stream: &mut ByteStream) -> (r: Result<AdtsHeader, AdtsError>)
    ensures
        final(stream).contents() == old(stream).contents(),
        final(stream).cursor() == old(stream).cursor(),
        r == peek_spec(old(stream).contents(), old(stream).cursor() as int),
{
    let bytes = match stream.read_exact(ADTS_HDR_MIN_LEN) {
        Ok(v) => v,
        Err(e) => return Err(e),
    };
    let decoded = decode_header(bytes.as_slice());
    let _ = stream.seek_relative(-(ADTS_HDR_MIN_LEN as i64));
    decoded
}

} // verus!
