//! Verified core of a hands-free dictation daemon.
//!
//! The library holds the two subsystems that carry the engineering risk:
//! the real-time audio resampling pipeline (arbitrary hardware formats and
//! rates in, fixed-rate mono chunks out) and the session state machine that
//! coordinates capture, transcription and text injection.  Device I/O, the
//! network round-trip and keystroke emulation live outside the library and
//! talk to it through plain values.

pub mod capture;
pub mod config;
pub mod hotkey;
pub mod inject;
pub mod paths;
pub mod resample;
pub mod session;
pub mod strutil;
pub mod usage;
pub mod version;
