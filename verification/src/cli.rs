//! The resolved command-line surface: plain values that the host program
//! fills in (from whatever argument parser it uses) and hands to the
//! pipeline. Per-format detection flags are 0 or 1; the MPEG frame
//! bounds use 0 for "disabled".

use crate::catalog::FormatToggles;
use crate::detector::DetectOptions;
use vstd::prelude::*;

verus! {

/// All resolved options of one run.
#[derive(Debug)]
pub struct Cli {
    pub detect_wav: u8,
    pub detect_ogg: u8,
    pub detect_bmp: u8,
    pub detect_aac: u8,
    pub detect_mp3: u8,
    pub mpeg_min_frames: u8,
    pub mpeg_max_frames: u16,
    pub erase_sectors: bool,
    pub injected_rm: bool,
    pub silent: bool,
    pub command: Commands,
}

/// The three commands a run performs.
#[derive(Debug)]
pub enum Commands {
    /// Scan the input file and report a summary.
    Scan { file_path: String },
    /// Scan the input file and write each confirmed stream to the output
    /// directory.
    Extract { file_path: String, output_dir: String },
    /// Write previously extracted artifacts back into the input file at
    /// their recorded offsets.
    Inject { file_path: String, input_dir: String },
}

impl Cli {
    /// The per-format toggles encoded in the detection flags: a format is
    /// enabled exactly when its flag is nonzero.
    pub fn toggles(&self) -> (r: FormatToggles)
        ensures
            r.wav == (self.detect_wav != 0),
            r.ogg == (self.detect_ogg != 0),
            r.bmp == (self.detect_bmp != 0),
            r.aac == (self.detect_aac != 0),
            r.mp3 == (self.detect_mp3 != 0),
    {
        FormatToggles {
            wav: self.detect_wav != 0,
            ogg: self.detect_ogg != 0,
            bmp: self.detect_bmp != 0,
            aac: self.detect_aac != 0,
            mp3: self.detect_mp3 != 0,
        }
    }

    /// The frame-chain bounds shared by all validator invocations.
    pub fn detect_options(&self) -> (r: DetectOptions)
        ensures
            r.mpeg_min_frames == self.mpeg_min_frames,
            r.mpeg_max_frames == self.mpeg_max_frames,
    {
        DetectOptions {
            mpeg_min_frames: self.mpeg_min_frames,
            mpeg_max_frames: self.mpeg_max_frames,
        }
    }
}

} // verus!
