//! Verified core of the swictation dictation daemon.
pub mod text;
pub mod corrections;
pub mod capitalization;
pub mod display_server;
pub mod macos_text_inject;
pub mod gpu;
pub mod paths;
pub mod version;
pub mod macos_audio_permission;
pub mod metrics;
pub mod hotkey;
pub mod config;
pub mod text_injection;
pub mod ipc;
pub mod injection_worker;
pub mod daemon;
pub mod pipeline;
