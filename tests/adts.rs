use adts_scan::bits::BitCursor;
use adts_scan::error::AdtsError;
use adts_scan::header::{
    audio_object_type_from_code, decode_header, peek_header, AdtsHeader, AudioObjectType,
    MpegVersion,
};
use adts_scan::scan::{find_startcode, seek_startcode};
use adts_scan::stream::ByteStream;
use adts_scan::walk::FrameWalker;

fn header_bytes(
    syncword: u64,
    version: u64,
    protection_absent: u64,
    profile: u64,
    sfi: u64,
    channels: u64,
    frame_length: u64,
) -> Vec<u8> {
    let w = syncword << 44
        | version << 43
        | protection_absent << 40
        | profile << 38
        | sfi << 34
        | channels << 30
        | frame_length << 13
        | 0x7FF << 2;
    (0..7).map(|j| (w >> (48 - 8 * j)) as u8).collect()
}

fn noise_then_sync(k: usize, total: usize) -> Vec<u8> {
    let mut d = vec![0u8; total];
    for (i, x) in d.iter_mut().enumerate().take(k) {
        *x = if i % 3 == 0 && i + 1 < k { 0xFF } else { 0x0E };
    }
    d[k] = 0xFF;
    d[k + 1] = 0xF1;
    d
}

#[test]
fn find_startcode_first_pair() {
    let buf = [0x00, 0xFF, 0xF9, 0xFF, 0xF1, 0x00, 0x00, 0x00, 0x00];
    assert_eq!(find_startcode(&buf), Some(1));
}

#[test]
fn find_startcode_last_pair() {
    let buf = [0x00, 0x00, 0x00, 0x00, 0x00, 0x00, 0x00, 0xFF, 0xF0];
    assert_eq!(find_startcode(&buf), Some(7));
}

#[test]
fn find_startcode_loose_nibble_only() {
    let buf = [0xFF, 0xEF, 0xFF, 0x7F, 0x0F, 0xFF, 0x00, 0x00, 0xFF];
    assert_eq!(find_startcode(&buf), None);
    assert_eq!(find_startcode(&[]), None);
    assert_eq!(find_startcode(&[0xFF]), None);
}

#[test]
fn locate_returns_every_offset_across_windows() {
    for k in 0..40 {
        let d = noise_then_sync(k, k + 20);
        let mut s = ByteStream::new(d);
        assert_eq!(seek_startcode(&mut s), Ok(k), "sync at {}", k);
        assert_eq!(s.position(), k);
    }
}

#[test]
fn locate_window_boundary_positions() {
    for k in [7usize, 8, 9, 12, 13, 14, 17, 18] {
        let d = noise_then_sync(k, k + 9);
        let mut s = ByteStream::new(d);
        assert_eq!(seek_startcode(&mut s), Ok(k));
    }
}

#[test]
fn locate_from_nonzero_start() {
    let mut d = vec![0u8; 40];
    d[2] = 0xFF;
    d[3] = 0xF1;
    d[21] = 0xFF;
    d[22] = 0xF8;
    let mut s = ByteStream::new(d);
    s.seek_to(5);
    assert_eq!(seek_startcode(&mut s), Ok(21));
    assert_eq!(s.position(), 21);
}

#[test]
fn locate_truncated_stream_is_io_failure() {
    let mut d = vec![0u8; 8];
    d[0] = 0xFF;
    d[1] = 0xF1;
    let mut s = ByteStream::new(d);
    assert_eq!(seek_startcode(&mut s), Err(AdtsError::IoFailure));
    let mut e = ByteStream::new(Vec::new());
    assert_eq!(seek_startcode(&mut e), Err(AdtsError::IoFailure));
}

#[test]
fn locate_pattern_in_unreadable_window_is_io_failure() {
    let mut d = vec![0u8; 20];
    d[18] = 0xFF;
    d[19] = 0xF1;
    let mut s = ByteStream::new(d);
    assert_eq!(seek_startcode(&mut s), Err(AdtsError::IoFailure));
}

#[test]
fn peek_is_repeatable_and_keeps_position() {
    let mut d = vec![0x11u8, 0x22];
    d.extend(header_bytes(0xFFF, 1, 0, 2, 3, 6, 300));
    let mut s = ByteStream::new(d);
    s.seek_to(2);
    let a = peek_header(&mut s);
    assert_eq!(s.position(), 2);
    let b = peek_header(&mut s);
    assert_eq!(s.position(), 2);
    assert_eq!(a, b);
    assert!(a.is_ok());
}

#[test]
fn decode_round_trip() {
    let cases: [(u64, u64, u64, u64, u64, u64); 5] = [
        (1, 0, 0, 0, 7, 8191),
        (0, 1, 1, 4, 2, 543),
        (0, 1, 2, 15, 1, 7),
        (1, 1, 3, 11, 7, 9),
        (1, 0, 3, 0, 0, 9),
    ];
    let types = [
        AudioObjectType::AacMain,
        AudioObjectType::AacLc,
        AudioObjectType::AacSsr,
        AudioObjectType::AacLtp,
    ];
    for (version, pa, profile, sfi, channels, fl) in cases {
        let b = header_bytes(0xFFF, version, pa, profile, sfi, channels, fl);
        let h = decode_header(&b).unwrap();
        assert_eq!(
            h,
            AdtsHeader {
                syncword: 0xFFF,
                mpeg_version: if version == 0 { MpegVersion::Mpeg4 } else { MpegVersion::Mpeg2 },
                protection_absent: pa == 1,
                audio_object_type: types[profile as usize],
                sampling_frequency_index: sfi as u8,
                channel_configuration: channels as u8,
                frame_length: fl as u16,
            }
        );
    }
}

#[test]
fn short_frame_length_is_rejected() {
    for fl in 0..7u64 {
        let b = header_bytes(0xFFF, 0, 1, 1, 4, 2, fl);
        assert_eq!(decode_header(&b), Err(AdtsError::InvalidFrameLength));
    }
    for fl in 0..9u64 {
        let b = header_bytes(0xFFF, 0, 0, 1, 4, 2, fl);
        assert_eq!(decode_header(&b), Err(AdtsError::InvalidFrameLength));
    }
    assert!(decode_header(&header_bytes(0xFFF, 0, 1, 1, 4, 2, 7)).is_ok());
    assert!(decode_header(&header_bytes(0xFFF, 0, 0, 1, 4, 2, 9)).is_ok());
}

#[test]
fn bad_syncword_is_rejected() {
    let b = header_bytes(0xFFE, 0, 1, 1, 4, 2, 100);
    assert_eq!(decode_header(&b), Err(AdtsError::InvalidSyncword));
    let c = header_bytes(0x7FF, 0, 1, 1, 4, 2, 100);
    assert_eq!(decode_header(&c), Err(AdtsError::InvalidSyncword));
    let d = header_bytes(0xFFE, 0, 1, 1, 4, 2, 3);
    assert_eq!(decode_header(&d), Err(AdtsError::InvalidSyncword));
}

#[test]
fn end_to_end_walk() {
    let mut d = vec![0x00, 0xFF, 0xF1, 0x50, 0x80, 0x43, 0xFF, 0xFC];
    d.resize(544, 0xAA);
    d.extend([0xFF, 0xF1, 0x50, 0x80, 0x01, 0x1F, 0xFC]);
    d.resize(552, 0xAA);
    let (mut w, start) = FrameWalker::start(d, 0).unwrap();
    assert_eq!(start, 1);
    let (pos, h) = w.next_frame().unwrap();
    assert_eq!(pos, 1);
    assert_eq!(h.mpeg_version, MpegVersion::Mpeg4);
    assert!(h.protection_absent);
    assert_eq!(h.audio_object_type, AudioObjectType::AacLc);
    assert_eq!(h.sampling_frequency_index, 4);
    assert_eq!(h.channel_configuration, 2);
    assert_eq!(h.frame_length, 543);
    assert_eq!(w.position(), 544);
    let (pos2, h2) = w.next_frame().unwrap();
    assert_eq!(pos2, 544);
    assert_eq!(h2.frame_length, 8);
    assert_eq!(w.position(), 552);
    assert_eq!(w.next_frame(), Err(AdtsError::IoFailure));
    assert_eq!(w.position(), 552);
}

#[test]
fn walk_stops_on_bad_header() {
    let mut d = header_bytes(0xFFF, 0, 1, 1, 4, 2, 10);
    d.extend([0u8; 3]);
    d.extend(header_bytes(0xFFF, 0, 1, 1, 4, 2, 3));
    let (mut w, start) = FrameWalker::start(d, 0).unwrap();
    assert_eq!(start, 0);
    assert_eq!(w.next_frame().map(|f| f.0), Ok(0));
    assert_eq!(w.next_frame(), Err(AdtsError::InvalidFrameLength));
    assert_eq!(w.position(), 10);
}

#[test]
fn walk_start_without_sync() {
    assert_eq!(
        FrameWalker::start(vec![0u8; 64], 0).map(|r| r.1),
        Err(AdtsError::IoFailure)
    );
    assert_eq!(
        FrameWalker::start(vec![0xFF, 0xF1, 0, 0, 0, 0, 0, 0, 0, 0], 100).map(|r| r.1),
        Err(AdtsError::IoFailure)
    );
}

#[test]
fn truncated_header_is_io_failure() {
    let b = header_bytes(0xFFF, 0, 1, 1, 4, 2, 100);
    assert_eq!(decode_header(&b[..6]), Err(AdtsError::IoFailure));
    let mut d = vec![0u8; 3];
    d.extend(&b[..6]);
    let mut s = ByteStream::new(d);
    s.seek_to(3);
    assert_eq!(peek_header(&mut s), Err(AdtsError::IoFailure));
    assert_eq!(s.position(), 3);
}

#[test]
fn audio_object_type_codes() {
    assert_eq!(audio_object_type_from_code(0), Some(AudioObjectType::AacMain));
    assert_eq!(audio_object_type_from_code(3), Some(AudioObjectType::AacLtp));
    assert_eq!(audio_object_type_from_code(4), Some(AudioObjectType::Sbr));
    assert_eq!(audio_object_type_from_code(7), Some(AudioObjectType::Celp));
    assert_eq!(audio_object_type_from_code(31), Some(AudioObjectType::Layer1));
    assert_eq!(audio_object_type_from_code(32), Some(AudioObjectType::Layer2));
    assert_eq!(audio_object_type_from_code(33), Some(AudioObjectType::Layer3));
    assert_eq!(audio_object_type_from_code(8), None);
    assert_eq!(audio_object_type_from_code(30), None);
    assert_eq!(audio_object_type_from_code(34), None);
}

#[test]
fn bit_cursor_reads_msb_first() {
    let buf = [0xA5u8, 0x3C];
    let mut c = BitCursor::new(&buf);
    assert_eq!(c.read_bits(3), Some(0b101));
    assert_eq!(c.read_bits(7), Some(0b0010100));
    assert!(c.skip(2));
    assert_eq!(c.read_bits(5), None);
    assert_eq!(c.read_bits(4), Some(0b1100));
    assert_eq!(c.read_bits(1), None);
    assert!(!c.skip(1));
    let mut d = BitCursor::new(&buf);
    assert_eq!(d.read_bits(16), Some(0xA53C));
}

#[test]
fn stream_reads_and_seeks() {
    let mut s = ByteStream::new(vec![1, 2, 3, 4, 5]);
    assert_eq!(s.len(), 5);
    assert_eq!(s.read_exact(2), Ok(vec![1, 2]));
    assert_eq!(s.position(), 2);
    assert_eq!(s.read_exact(4), Err(AdtsError::IoFailure));
    assert_eq!(s.position(), 2);
    assert_eq!(s.seek_relative(-3), Err(AdtsError::IoFailure));
    assert_eq!(s.seek_relative(-2), Ok(0));
    assert_eq!(s.seek_relative(10), Ok(10));
    assert_eq!(s.read_exact(0), Err(AdtsError::IoFailure));
    assert_eq!(s.seek_to(3), 3);
    assert_eq!(s.read_exact(2), Ok(vec![4, 5]));
    assert_eq!(s.read_exact(0), Ok(vec![]));
}
