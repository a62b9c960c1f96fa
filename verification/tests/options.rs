use stream_carver::cli::{Cli, Commands};
use stream_carver::detector::{
    BitmapDetector, DetectOptions, Detector, OggDetector, RiffWaveDetector,
};

fn sample_cli() -> Cli {
    Cli {
        detect_wav: 1,
        detect_ogg: 0,
        detect_bmp: 1,
        detect_aac: 0,
        detect_mp3: 1,
        mpeg_min_frames: 3,
        mpeg_max_frames: 50,
        erase_sectors: false,
        injected_rm: false,
        silent: true,
        command: Commands::Scan { file_path: String::from("image.bin") },
    }
}

#[test]
fn default_detect_options() {
    let d = DetectOptions::default();
    assert_eq!(d.mpeg_min_frames, 20);
    assert_eq!(d.mpeg_max_frames, 10000);
}

#[test]
fn cli_flags_resolve_to_toggles() {
    let t = sample_cli().toggles();
    assert!(t.wav);
    assert!(!t.ogg);
    assert!(t.bmp);
    assert!(!t.aac);
    assert!(t.mp3);
}

#[test]
fn cli_frame_bounds_resolve_to_detect_options() {
    let d = sample_cli().detect_options();
    assert_eq!(d.mpeg_min_frames, 3);
    assert_eq!(d.mpeg_max_frames, 50);
}

#[test]
fn detectors_dispatch_through_the_trait() {
    // a classic BMP header, 54 bytes of header and nothing else
    let mut bmp = vec![0u8; 54];
    bmp[0] = b'B';
    bmp[1] = b'M';
    bmp[2] = 54; // file size field (little endian)
    bmp[14] = 40; // info-header size

    let detectors: Vec<Box<dyn Detector>> = vec![
        Box::new(RiffWaveDetector),
        Box::new(OggDetector),
        Box::new(BitmapDetector),
    ];
    let opts = DetectOptions::default();
    let confirmed: Vec<_> = detectors
        .iter()
        .filter_map(|d| d.detect(&bmp, 0, &opts))
        .collect();
    assert_eq!(confirmed.len(), 1);
    assert_eq!(confirmed[0].size, 54);
    assert_eq!(confirmed[0].ext, "bmp");
}
