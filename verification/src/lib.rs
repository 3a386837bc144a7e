//! A disk-streaming engine for multi-channel audio playback.
//!
//! A background reader keeps a bounded lock-free queue filled with fixed-size
//! sample blocks decoded from a timeline of audio sources, while a real-time
//! facade consumes those blocks, applies glitch-free fades across play/pause
//! transitions, and negotiates seeks through a non-blocking handshake.
//!
//! Samples are signed 32-bit fixed-point values; callers that work in another
//! sample format convert at the boundary.

pub mod block;
pub mod fade;
pub mod queue;
pub mod reader;
pub mod source;
pub mod streamer;
pub mod timeline;
