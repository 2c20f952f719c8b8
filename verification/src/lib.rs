//! Verified core of a desktop companion for a local speech server.
//!
//! The library holds what the companion decides and computes: text handling,
//! audio buffering and speech detection, the realtime and dictation state
//! machines, configuration, and the messages exchanged with other programs.
//! Reading, sending and waiting are done by the program around it.

pub mod audio;
pub mod clock;
pub mod config;
pub mod daemon;
pub mod dictation;
pub mod double;
pub mod endpoint;
pub mod environment;
pub mod event;
pub mod inject;
pub mod ipc;
pub mod json;
pub mod live;
pub mod notification;
pub mod openwakeword;
pub mod partial;
pub mod phase;
pub mod realtime;
pub mod settings;
pub mod shell;
pub mod single;
pub mod speech;
pub mod streaming;
pub mod stt;
pub mod sway;
pub mod text;
pub mod trace;
pub mod transcriber;
pub mod transcript;
pub mod trimming;
pub mod tts;
pub mod wakeword;
