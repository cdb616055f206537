//! Assembly of composite media containers from still-image and metadata
//! components: fusing an HDR gain-map JPEG with an SDR base JPEG into an
//! UltraHDR container, and concatenating a JPEG with an MP4 clip into a
//! Motion Photo, synthesizing and patching the XMP and Multi-Picture-Format
//! (MPF) metadata so viewers can locate the embedded resources.

pub mod binutil;
pub mod cli;
pub mod color;
pub mod detect;
pub mod error;
pub mod jpeg;
pub mod motion;
pub mod mpf;
pub mod paths;
pub mod types;
pub mod xmp;
