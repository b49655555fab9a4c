//! Packing of sign-language VP9 video into the PCM data of a WAV track
//! (one 288 000-byte block per 2-second WebM chunk) and the validation that
//! recovers the chunks from such a WAV.

pub mod text;
pub mod endian;
pub mod wav;
pub mod pcm;
pub mod scan;
pub mod validation;
pub mod analyzer;
pub mod packager;
pub mod logging;
pub mod chunks;
pub mod commands;
pub mod roundtrip;
