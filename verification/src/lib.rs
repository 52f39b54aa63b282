//! Core of the Stargaze streaming client: wire formats, datagram reassembly,
//! session decisions, input handling and the launcher, each with its contract.
pub mod audio;
pub mod avlog;
pub mod capture;
pub mod cli;
pub mod clock;
pub mod config;
pub mod decode;
pub mod decoder;
pub mod device_laws;
pub mod emulation;
pub mod encode;
pub mod error;
pub mod error_laws;
pub mod format_laws;
pub mod forwarding_laws;
pub mod frames;
pub mod gamepad;
pub mod gl;
pub mod hidpass;
pub mod input;
pub mod launch;
pub mod launcher;
pub mod launcher_laws;
pub mod layout;
pub mod logging;
pub mod media_laws;
pub mod messages;
pub mod mic_forward;
pub mod net;
pub mod overlay;
pub mod overlay_laws;
pub mod playback;
pub mod presentation;
pub mod queue;
pub mod reassembly_laws;
pub mod receiver;
pub mod receiver_laws;
pub mod recovery_laws;
pub mod render_input;
pub mod screen_laws;
pub mod screens;
pub mod session;
pub mod session_laws;
pub mod slots;
pub mod stats;
pub mod stream_input;
pub mod stream_laws;
pub mod text;
pub mod text_laws;
pub mod transport;
pub mod transport_laws;
pub mod ui;
pub mod ui_laws;
pub mod usb;
pub mod view_laws;
pub mod widgets;
pub mod wire;
