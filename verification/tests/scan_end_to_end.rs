use stream_carver::catalog::FormatToggles;
use stream_carver::detector::DetectOptions;
use stream_carver::pipeline::scan_buffer;
use stream_carver::artifact::{artifact_file_name, parse_artifact_offset};

fn push_u16_le(v: &mut Vec<u8>, x: u16) {
    v.push((x & 0xff) as u8);
    v.push((x >> 8) as u8);
}

fn push_u32_le(v: &mut Vec<u8>, x: u32) {
    v.push((x & 0xff) as u8);
    v.push(((x >> 8) & 0xff) as u8);
    v.push(((x >> 16) & 0xff) as u8);
    v.push(((x >> 24) & 0xff) as u8);
}

fn build_wav(n: u32) -> Vec<u8> {
    let mut v = Vec::new();
    v.extend_from_slice(b"RIFF");
    push_u32_le(&mut v, 36 + n);
    v.extend_from_slice(b"WAVE");
    v.extend_from_slice(b"fmt ");
    push_u32_le(&mut v, 16);
    push_u16_le(&mut v, 1);
    push_u16_le(&mut v, 2);
    push_u32_le(&mut v, 44100);
    push_u32_le(&mut v, 44100 * 2 * 16 / 8);
    push_u16_le(&mut v, 2 * 16 / 8);
    push_u16_le(&mut v, 16);
    v.extend_from_slice(b"data");
    push_u32_le(&mut v, n);
    for i in 0..n {
        v.push((i % 251) as u8);
    }
    v
}

fn build_bmp(size: u32) -> Vec<u8> {
    let mut v = Vec::new();
    v.extend_from_slice(b"BM");
    push_u32_le(&mut v, size);
    push_u16_le(&mut v, 0);
    push_u16_le(&mut v, 0);
    push_u32_le(&mut v, 54);
    push_u32_le(&mut v, 40);
    push_u32_le(&mut v, 4);
    push_u32_le(&mut v, 4);
    push_u16_le(&mut v, 1);
    push_u16_le(&mut v, 24);
    push_u32_le(&mut v, 0);
    push_u32_le(&mut v, 0);
    push_u32_le(&mut v, 0);
    push_u32_le(&mut v, 0);
    push_u32_le(&mut v, 0);
    push_u32_le(&mut v, 0);
    while (v.len() as u32) < size {
        v.push(0);
    }
    v
}

fn lcg_bytes(n: usize, mut state: u64) -> Vec<u8> {
    let mut v = Vec::with_capacity(n);
    for _ in 0..n {
        state = state
            .wrapping_mul(6364136223846793005)
            .wrapping_add(1442695040888963407);
        v.push((state >> 33) as u8);
    }
    v
}

fn all_formats() -> FormatToggles {
    FormatToggles { wav: true, ogg: true, bmp: true, aac: true, mp3: true }
}

#[test]
fn scan_of_wav_bmp_and_noise_reports_exactly_two_streams() {
    let wav = build_wav(100);
    let bmp = build_bmp(100);
    let mut buffer = Vec::new();
    buffer.extend_from_slice(&wav);
    buffer.extend_from_slice(&bmp);
    buffer.extend_from_slice(&lcg_bytes(4096, 0x5eed));

    let out = scan_buffer(&buffer, all_formats(), &DetectOptions::default())
        .expect("scan must not fail");
    assert_eq!(out.total_streams_count, 2);
    assert_eq!(out.matches.len(), 2);
    assert_eq!(out.matches[0].offset, 0);
    assert_eq!(out.matches[0].size, wav.len());
    assert_eq!(out.matches[0].ext, "wav");
    assert_eq!(out.matches[1].offset, wav.len());
    assert_eq!(out.matches[1].size, bmp.len());
    assert_eq!(out.matches[1].ext, "bmp");
    assert_eq!(out.total_streams_size, wav.len() + bmp.len());
}

#[test]
fn extract_and_inject_round_trip_reproduces_the_scan() {
    let wav = build_wav(100);
    let bmp = build_bmp(100);
    let mut buffer = Vec::new();
    buffer.extend_from_slice(&wav);
    buffer.extend_from_slice(&bmp);
    buffer.extend_from_slice(&lcg_bytes(4096, 0x5eed));

    let out = scan_buffer(&buffer, all_formats(), &DetectOptions::default())
        .expect("scan must not fail");
    assert_eq!(out.total_streams_count, 2);

    // extraction: one named artifact per confirmed stream
    let mut artifacts: Vec<(Vec<u8>, Vec<u8>)> = Vec::new();
    for m in &out.matches {
        let name = artifact_file_name(m.offset as u64, m.ext.as_bytes());
        let body = buffer[m.offset..m.offset + m.size].to_vec();
        artifacts.push((name, body));
    }
    assert_eq!(artifacts.len(), 2);
    assert_eq!(artifacts[0].0, b"0.wav".to_vec());
    assert_eq!(artifacts[1].0, format!("{}.bmp", wav.len()).into_bytes());

    // injection into a zeroed copy of the same length, at the offsets
    // recovered from the artifact names
    let mut copy = vec![0u8; buffer.len()];
    for (name, body) in &artifacts {
        let stem: Vec<u8> = name.iter().cloned().take_while(|&c| c != b'.').collect();
        let offset = parse_artifact_offset(&stem).expect("artifact stems parse") as usize;
        copy[offset..offset + body.len()].copy_from_slice(body);
    }

    let again = scan_buffer(&copy, all_formats(), &DetectOptions::default())
        .expect("rescan must not fail");
    assert_eq!(again.total_streams_count, 2);
    assert_eq!(again.matches[0].offset, out.matches[0].offset);
    assert_eq!(again.matches[0].size, out.matches[0].size);
    assert_eq!(again.matches[1].offset, out.matches[1].offset);
    assert_eq!(again.matches[1].size, out.matches[1].size);
    assert_eq!(again.total_streams_size, out.total_streams_size);
}

#[test]
fn disabled_formats_are_not_scanned() {
    let mut buffer = build_wav(50);
    buffer.extend_from_slice(&build_bmp(80));
    let toggles = FormatToggles { wav: false, ogg: true, bmp: false, aac: false, mp3: false };
    let out = scan_buffer(&buffer, toggles, &DetectOptions::default())
        .expect("scan must not fail");
    assert_eq!(out.total_streams_count, 0);
    assert_eq!(out.total_streams_size, 0);
}

#[test]
fn candidate_inside_claimed_region_is_gated_out() {
    // a valid BMP with a second, itself valid, BMP header buried inside
    let mut outer = build_bmp(200);
    let inner = build_bmp(80);
    outer[60..60 + 54].copy_from_slice(&inner[..54]);

    let out = scan_buffer(&outer, all_formats(), &DetectOptions::default())
        .expect("scan must not fail");
    assert_eq!(out.total_streams_count, 1);
    assert_eq!(out.matches[0].offset, 0);
    assert_eq!(out.matches[0].size, 200);

    // with the outer header damaged, the buried one is found instead
    let mut damaged = outer.clone();
    damaged[0] = b'X';
    let out2 = scan_buffer(&damaged, all_formats(), &DetectOptions::default())
        .expect("scan must not fail");
    assert_eq!(out2.total_streams_count, 1);
    assert_eq!(out2.matches[0].offset, 60);
    assert_eq!(out2.matches[0].size, 80);
}
