//! Plain records of the command-line arguments the resolvers decide over.
//! Argument parsing itself lives outside the library; these carry the values
//! it hands in.

use vstd::prelude::*;

verus! {

/// Arguments of the UltraHDR bake operation that drive input resolution.
pub struct BakeArgs {
    /// Zero to two positional input paths.
    pub inputs: Vec<String>,
    /// Explicit HDR/gain-map input path.
    pub hdr: Option<String>,
    /// Explicit SDR base input path.
    pub sdr: Option<String>,
    /// Output path override.
    pub out: Option<String>,
    /// JPEG quality for the SDR base image (1-100).
    pub base_quality: i32,
    /// JPEG quality for the gain map (1-100).
    pub gainmap_quality: i32,
    /// Gain map scale factor (at least 1).
    pub gainmap_scale: i32,
    /// Whether to use multi-channel gain maps.
    pub multichannel_gainmap: bool,
}

/// Arguments of the Motion Photo operation that drive input resolution.
pub struct MotionArgs {
    /// Explicit still-photo path.
    pub photo: Option<String>,
    /// Explicit video-clip path.
    pub video: Option<String>,
    /// Zero or two positional input paths.
    pub inputs: Vec<String>,
    /// Output path override.
    pub out: Option<String>,
    /// Presentation timestamp of the still frame, in microseconds.
    pub presentation_timestamp_us: u64,
}

} // verus!
