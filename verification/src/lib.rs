//! Conversion of H.264 elementary-stream data from the length-delimited AVCC
//! container format (as carried in FLV/MP4 sequence headers and media tags)
//! into the start-code-delimited Annex-B bitstream format.
//!
//! The crate parses the one-time `AVCDecoderConfigurationRecord` into a
//! [`NaluConfig`], splits length-prefixed access-unit payloads into [`Nalu`]
//! values, and assembles those units into a single Annex-B byte buffer,
//! injecting start codes, access-unit delimiters and parameter sets according
//! to the unit-type rules of the format.

pub mod config;
pub mod laws;
pub mod model;
pub mod nalu;

pub use config::NaluConfig;
pub use model::NaluError;
pub use nalu::Nalu;
