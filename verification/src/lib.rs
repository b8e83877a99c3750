//! Transcoding of recorded still-image topics into per-topic video streams.
//!
//! A log of timestamped records is scanned for compressed still images. Each
//! image is decoded, converted to planar samples and fed to a video encoder
//! that is kept per output topic; every non-empty encoded chunk becomes one
//! video message that keeps the timing of the record it came from.

pub mod record;
pub mod wire;
pub mod message;
pub mod error;
pub mod raster;
pub mod planar;
pub mod encoder;
pub mod declarations;
pub mod payload;
pub mod schema;
pub mod frame;
pub mod output;
pub mod pipeline;
pub mod run;
pub mod container;
pub mod descriptor;
pub mod sink;
pub mod convert;
