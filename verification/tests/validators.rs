use stream_carver::detector::aac::{detect_aac, is_valid_frame_header, parse_frame_length};
use stream_carver::detector::bitmap::detect_bitmap;
use stream_carver::detector::mp3::{detect_mp3, parse_frame_header, BitRate, MpegLayer, SampleRate};
use stream_carver::detector::ogg::detect_ogg;
use stream_carver::detector::riff_wave::detect_riff_wave;
use stream_carver::detector::DetectOptions;

fn push_u16_le(v: &mut Vec<u8>, x: u16) {
    v.push((x & 0xff) as u8);
    v.push((x >> 8) as u8);
}

fn push_u32_le(v: &mut Vec<u8>, x: u32) {
    v.push((x & 0xff) as u8);
    v.push(((x >> 8) & 0xff) as u8);
    v.push(((x >> 16) & 0xff) as u8);
    v.push(((x >> 24) & 0xff) as u8);
}

/// A valid 44-byte RIFF/WAVE PCM header followed by `n` data bytes.
fn build_wav(n: u32) -> Vec<u8> {
    let mut v = Vec::new();
    v.extend_from_slice(b"RIFF");
    push_u32_le(&mut v, 36 + n);
    v.extend_from_slice(b"WAVE");
    v.extend_from_slice(b"fmt ");
    push_u32_le(&mut v, 16);
    push_u16_le(&mut v, 1); // linear PCM
    push_u16_le(&mut v, 2); // channels
    push_u32_le(&mut v, 44100);
    push_u32_le(&mut v, 44100 * 2 * 16 / 8); // byte rate
    push_u16_le(&mut v, 2 * 16 / 8); // block align
    push_u16_le(&mut v, 16); // bits per sample
    v.extend_from_slice(b"data");
    push_u32_le(&mut v, n);
    for i in 0..n {
        v.push((i % 251) as u8);
    }
    v
}

/// A 54-byte classic BMP header whose file-size field is `size`, padded
/// with zeros up to `size` bytes.
fn build_bmp(size: u32) -> Vec<u8> {
    let mut v = Vec::new();
    v.extend_from_slice(b"BM");
    push_u32_le(&mut v, size);
    push_u16_le(&mut v, 0);
    push_u16_le(&mut v, 0);
    push_u32_le(&mut v, 54); // pixel data offset
    push_u32_le(&mut v, 40); // classic INFOHEADER
    push_u32_le(&mut v, 4); // width
    push_u32_le(&mut v, 4); // height
    push_u16_le(&mut v, 1); // planes
    push_u16_le(&mut v, 24); // bits per pixel
    push_u32_le(&mut v, 0); // compression
    push_u32_le(&mut v, 0); // image size
    push_u32_le(&mut v, 0);
    push_u32_le(&mut v, 0);
    push_u32_le(&mut v, 0);
    push_u32_le(&mut v, 0);
    while (v.len() as u32) < size {
        v.push(0);
    }
    v
}

/// One OGG page with the given header flags and segment table.
fn build_ogg_page(flags: u8, segments: &[u8]) -> Vec<u8> {
    let mut v = Vec::new();
    v.extend_from_slice(b"OggS");
    v.push(0); // stream structure revision
    v.push(flags);
    v.extend_from_slice(&[0; 8]); // granule position
    push_u32_le(&mut v, 0x11223344); // serial
    push_u32_le(&mut v, 0); // sequence
    push_u32_le(&mut v, 0); // checksum
    v.push(segments.len() as u8);
    v.extend_from_slice(segments);
    let payload: usize = segments.iter().map(|&b| b as usize).sum();
    for i in 0..payload {
        v.push((i % 13) as u8);
    }
    v
}

/// One ADTS AAC frame of `len` total bytes (header included).
fn build_aac_frame(len: u16) -> Vec<u8> {
    assert!(len >= 7 && len < 0x2000);
    let mut v = vec![
        0xff,
        0xf0,
        0x00,
        ((len >> 11) & 0x03) as u8,
        ((len >> 3) & 0xff) as u8,
        (((len & 0x07) << 5) as u8) | 0x1f,
        0xfc,
    ];
    while (v.len() as u16) < len {
        v.push(0);
    }
    v
}

/// One CRC-protected MPEG1 Layer3 frame, 128 kbps, 44100 Hz, no padding:
/// 417 bytes.
fn build_mp3_frame_417() -> Vec<u8> {
    let mut v = vec![0xff, 0xfa, 0x90];
    while v.len() < 417 {
        v.push(0);
    }
    v
}

fn opts(min: u8, max: u16) -> DetectOptions {
    DetectOptions { mpeg_min_frames: min, mpeg_max_frames: max }
}

#[test]
fn wav_valid_header_reports_header_plus_data() {
    let n = 1000;
    let buf = build_wav(n);
    let m = detect_riff_wave(&buf, 0).expect("valid wav must be confirmed");
    assert_eq!(m.offset, 0);
    assert_eq!(m.size, 44 + n as usize);
    assert_eq!(m.ext, "wav");
}

#[test]
fn wav_flipped_audio_format_rejected() {
    let mut buf = build_wav(100);
    buf[20] = 3; // audio format != linear PCM
    assert!(detect_riff_wave(&buf, 0).is_none());
}

#[test]
fn wav_flipped_subchunk_ids_rejected() {
    let mut buf = build_wav(100);
    buf[12] = b'F'; // "fmt " damaged
    assert!(detect_riff_wave(&buf, 0).is_none());

    let mut buf2 = build_wav(100);
    buf2[36] = b'x'; // "data" damaged
    assert!(detect_riff_wave(&buf2, 0).is_none());
}

#[test]
fn wav_flipped_subchunk1_size_rejected() {
    let mut buf = build_wav(100);
    buf[16] = 18; // fmt sub-chunk size != 16
    assert!(detect_riff_wave(&buf, 0).is_none());
}

#[test]
fn wav_inconsistent_byte_rate_rejected() {
    let mut buf = build_wav(100);
    buf[28] = buf[28].wrapping_add(1);
    assert!(detect_riff_wave(&buf, 0).is_none());
}

#[test]
fn wav_data_claiming_past_buffer_is_clamped() {
    let mut buf = build_wav(1000);
    buf.truncate(44 + 400);
    let m = detect_riff_wave(&buf, 0).expect("truncated wav still confirms");
    assert_eq!(m.size, 44 + 400);
}

#[test]
fn bmp_valid_header_reports_file_size_field() {
    let buf = build_bmp(200);
    let m = detect_bitmap(&buf, 0).expect("valid bmp must be confirmed");
    assert_eq!(m.offset, 0);
    assert_eq!(m.size, 200);
    assert_eq!(m.ext, "bmp");
}

#[test]
fn bmp_wrong_info_header_size_rejected() {
    let mut buf = build_bmp(200);
    buf[14] = 108; // newer header variant is not matched
    assert!(detect_bitmap(&buf, 0).is_none());
}

#[test]
fn bmp_size_field_past_buffer_is_clamped() {
    let mut buf = build_bmp(200);
    buf.truncate(150);
    let m = detect_bitmap(&buf, 0).expect("truncated bmp still confirms");
    assert_eq!(m.size, 150);
}

#[test]
fn ogg_single_page_size_is_header_plus_table_plus_payload() {
    let segments = [100u8, 55, 0, 200];
    let k: usize = segments.iter().map(|&b| b as usize).sum();
    let buf = build_ogg_page(2 | 4, &segments);
    let m = detect_ogg(&buf, 0).expect("single complete page must be confirmed");
    assert_eq!(m.offset, 0);
    assert_eq!(m.size, 27 + segments.len() + k);
    assert_eq!(m.ext, "ogg");
}

#[test]
fn ogg_missing_begin_of_stream_rejected() {
    let buf = build_ogg_page(4, &[10u8, 20]);
    assert!(detect_ogg(&buf, 0).is_none());
}

#[test]
fn ogg_two_page_chain_accumulates_both_pages() {
    let mut buf = build_ogg_page(2, &[50u8]);
    let first_len = buf.len();
    let second = build_ogg_page(4, &[30u8, 40]);
    let second_len = second.len();
    buf.extend_from_slice(&second);
    let m = detect_ogg(&buf, 0).expect("two-page chain must be confirmed");
    assert_eq!(m.size, first_len + second_len);
}

#[test]
fn ogg_payload_past_buffer_rejected() {
    let mut buf = build_ogg_page(2 | 4, &[200u8, 200]);
    buf.truncate(buf.len() - 10);
    assert!(detect_ogg(&buf, 0).is_none());
}

#[test]
fn aac_frame_length_field_decodes() {
    let frame = build_aac_frame(1234);
    assert!(is_valid_frame_header(&frame));
    assert_eq!(parse_frame_length(&frame), 1234);
}

#[test]
fn aac_broken_sync_gives_zero_length() {
    let mut frame = build_aac_frame(1234);
    frame[0] = 0xfe;
    assert!(!is_valid_frame_header(&frame));
    assert_eq!(parse_frame_length(&frame), 0);
}

#[test]
fn aac_chain_below_min_frames_rejected() {
    let mut buf = Vec::new();
    for _ in 0..5 {
        buf.extend_from_slice(&build_aac_frame(100));
    }
    // every frame is well formed, but 5 <= 5
    assert!(detect_aac(&buf, 0, &opts(5, 0)).is_none());
    // one more than the bound is enough
    let m = detect_aac(&buf, 0, &opts(4, 0)).expect("chain above the bound confirms");
    assert_eq!(m.size, 500);
    assert_eq!(m.ext, "aac");
}

#[test]
fn aac_max_frames_truncates_to_exactly_that_many_frames() {
    let mut buf = Vec::new();
    for _ in 0..5 {
        buf.extend_from_slice(&build_aac_frame(100));
    }
    let m = detect_aac(&buf, 0, &opts(0, 3)).expect("truncated chain confirms");
    assert_eq!(m.size, 300);
}

#[test]
fn mp3_classic_frame_computes_417() {
    let frame = build_mp3_frame_417();
    let h = parse_frame_header(&frame).expect("classic frame header must parse");
    assert_eq!(h.data_size, 417);
    assert!(matches!(h.layer, MpegLayer::Layer3));

    // the protection bit does not change the frame length
    let unprotected = parse_frame_header(&[0xff, 0xfb, 0x90]).expect("header must parse");
    assert_eq!(unprotected.data_size, 417);
}

#[test]
fn mp3_missing_frame_sync_rejected() {
    assert!(parse_frame_header(&[0x00, 0xfa, 0x90]).is_none());
    assert!(parse_frame_header(&[0xff, 0x7a, 0x90]).is_none());
}

#[test]
fn ogg_wrong_capture_pattern_rejected() {
    let mut buf = build_ogg_page(2 | 4, &[10u8, 20]);
    buf[0] = b'X'; // damage the capture pattern; revision stays 0
    assert!(detect_ogg(&buf, 0).is_none());
}

#[test]
fn mp3_layer_change_terminates_chain_at_frame_boundary() {
    let mut buf = build_mp3_frame_417();
    buf.extend_from_slice(&build_mp3_frame_417());
    // a third frame with the Layer2 bits set ends the chain
    let mut third = build_mp3_frame_417();
    third[1] = 0xfd;
    buf.extend_from_slice(&third);
    let m = detect_mp3(&buf, 0, &opts(1, 0)).expect("two-frame chain confirms");
    assert_eq!(m.size, 834);
    assert_eq!(m.ext, "mp3");
}

#[test]
fn mp3_max_frames_truncates_to_exactly_that_many_frames() {
    let mut buf = Vec::new();
    for _ in 0..3 {
        buf.extend_from_slice(&build_mp3_frame_417());
    }
    let m = detect_mp3(&buf, 0, &opts(0, 2)).expect("truncated chain confirms");
    assert_eq!(m.size, 834);
}

#[test]
fn ogg_unexpected_begin_of_stream_ends_chain_at_page_boundary() {
    // a second page that wrongly repeats the beginning-of-stream flag is
    // not part of the chain
    let mut buf = build_ogg_page(2, &[50u8]);
    let first_len = buf.len();
    buf.extend_from_slice(&build_ogg_page(2 | 4, &[30u8]));
    let m = detect_ogg(&buf, 0).expect("first page alone confirms");
    assert_eq!(m.size, first_len);
}

#[test]
fn mp3_reserved_fields_rejected() {
    // reserved version bits
    assert!(parse_frame_header(&[0xff, 0xeb, 0x90]).is_none());
    // reserved layer bits
    assert!(parse_frame_header(&[0xff, 0xf9, 0x90]).is_none());
    // bad bitrate index
    assert!(parse_frame_header(&[0xff, 0xfb, 0xf0]).is_none());
    // bad sample rate index
    assert!(parse_frame_header(&[0xff, 0xfb, 0x9c]).is_none());
}

#[test]
fn sample_rate_and_bit_rate_tables() {
    assert_eq!(SampleRate::Hz44100.hz(), 44_100);
    assert_eq!(SampleRate::Hz8000.hz(), 8_000);
    assert_eq!(BitRate::Kbps128.bps(), 128_000);
    assert_eq!(BitRate::Kbps320.bps(), 320_000);
}

#[test]
fn validators_reject_empty_and_short_buffers() {
    let o = opts(0, 0);
    let empty: Vec<u8> = Vec::new();
    assert!(detect_riff_wave(&empty, 0).is_none());
    assert!(detect_bitmap(&empty, 0).is_none());
    assert!(detect_ogg(&empty, 0).is_none());
    assert!(detect_aac(&empty, 0, &o).is_none());
    assert!(detect_mp3(&empty, 0, &o).is_none());

    let short = vec![0xffu8, 0x42];
    assert!(detect_riff_wave(&short, 0).is_none());
    assert!(detect_bitmap(&short, 0).is_none());
    assert!(detect_ogg(&short, 0).is_none());
    assert!(detect_aac(&short, 0, &o).is_none());
    assert!(detect_mp3(&short, 0, &o).is_none());
}

#[test]
fn validators_tolerate_offsets_at_and_past_the_end() {
    let o = opts(0, 0);
    let buf = build_wav(10);
    let n = buf.len();
    assert!(detect_riff_wave(&buf, n).is_none());
    assert!(detect_riff_wave(&buf, n + 1000).is_none());
    assert!(detect_bitmap(&buf, usize::MAX).is_none());
    assert!(detect_ogg(&buf, n).is_none());
    assert!(detect_aac(&buf, usize::MAX, &o).is_none());
    assert!(detect_mp3(&buf, n + 3, &o).is_none());
}
