//! Verified core of a screen recorder: the decisions and data transformations
//! behind capture, encoding, audio mixing, recording control and settings.

pub mod audio;
pub mod capture;
pub mod encoder;
pub mod history;
pub mod recorder;
pub mod session;
pub mod settings;
pub mod text;
