//! Decisions and data handling of a screen-capture and audio encoding
//! pipeline built around FFmpeg: frame buffers, encoder configuration, the
//! encoding and decoding loops as state machines, the capture loop, and audio
//! playback.

pub mod capture;
pub mod decode;
pub mod driver;
pub mod encode;
pub mod frames;
pub mod playback;
