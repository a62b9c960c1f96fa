//! Carves embedded media streams (RIFF/WAVE PCM, BMP, OGG, ADTS AAC,
//! MPEG audio) out of an arbitrary byte buffer: a multi-pattern signature
//! scanner proposes candidate offsets, per-format validators confirm each
//! candidate and compute its exact byte length, and a region tracker
//! deduplicates offsets that fall inside already confirmed streams.

pub mod artifact;
pub mod catalog;
pub mod cli;
pub mod detector;
pub mod pipeline;
pub mod scanner;
pub mod tracker;
