//! The command line of the client, applied to its configuration.
use crate::config::{ClientConfig, Codec, ConfigView, MicForwardView, Resolution};
use crate::error::ConfigError;
use crate::text::copy_text;
use vstd::prelude::*;

verus! {

/// What the command line sets; what it leaves open comes from the
/// configuration file.
#[derive(Debug, Clone)]
pub struct Overrides {
    /// Address of the server to connect to.
    pub server: Option<String>,
    /// Port to connect on.
    pub port: Option<u16>,
    /// Whether to run in fullscreen mode.
    pub fullscreen: Option<bool>,
    /// Enable microphone forwarding.
    pub mic_forward: bool,
    /// Port for microphone forwarding.
    pub mic_forward_port: Option<u16>,
    /// Forward physical gamepads at the evdev level.
    pub gamepad_passthrough: Option<bool>,
    /// Forward USB controller hardware.
    pub usb_forward: Option<bool>,
    /// Requested stream resolution.
    pub resolution: Option<Resolution>,
    /// Requested stream framerate.
    pub fps: Option<u32>,
    /// Video codec to request.
    pub codec: Option<Codec>,
}

/// How the client starts.
#[derive(Debug, Clone, Copy, PartialEq, Eq, Structural)]
pub enum StartMode {
    /// With the launcher, to which every session returns.
    Launcher,
    /// With one session, and it exits after that.
    Direct,
}

/// How the client starts: naming a server on the command line skips the
/// launcher.
pub fn start_mode(o: &Overrides) -> (mode: StartMode)
    ensures
        mode == (if o.server is Some {
            StartMode::Direct
        } else {
            StartMode::Launcher
        }),
{
    if o.server.is_some() {
        StartMode::Direct
    } else {
        StartMode::Launcher
    }
}

/// What an option gives over a value.
pub open spec fn or<T>(over: Option<T>, value: T) -> T {
    match over {
        Some(v) => v,
        None => value,
    }
}

/// A configuration with the command line applied: what the command line sets
/// wins, and it can enable the microphone but not disable it.
pub open spec fn overridden(cfg: ConfigView, o: Overrides) -> ConfigView {
    ConfigView {
        server_address: match o.server {
            Some(server) => server@,
            None => cfg.server_address,
        },
        port: or(o.port, cfg.port),
        fullscreen: or(o.fullscreen, cfg.fullscreen),
        mic_forward: MicForwardView {
            enabled: cfg.mic_forward.enabled || o.mic_forward,
            port: or(o.mic_forward_port, cfg.mic_forward.port),
            ..cfg.mic_forward
        },
        gamepad_passthrough: or(o.gamepad_passthrough, cfg.gamepad_passthrough),
        usb_forward: or(o.usb_forward, cfg.usb_forward),
        resolution: or(o.resolution, cfg.resolution),
        framerate: or(o.fps, cfg.framerate),
        codec: or(o.codec, cfg.codec),
        ..cfg
    }
}

/// What to say when no server is named.
pub fn missing_server() -> (s: String)
    ensures
        s@ == "Server address is required — pass --server <address> or set it in a config file"@,
{
    copy_text("Server address is required — pass --server <address> or set it in a config file")
}

fn pick<T: Copy>(over: Option<T>, value: T) -> (r: T)
    ensures
        r == or(over, value),
{
    match over {
        Some(v) => v,
        None => value,
    }
}

/// Applies the command line to a configuration.
pub fn apply_overrides(cfg: &mut ClientConfig, o: &Overrides)
    ensures
        final(cfg)@ == overridden(old(cfg)@, *o),
{
    if let Some(server) = &o.server {
        cfg.server_address = server.clone();
    }
    cfg.port = pick(o.port, cfg.port);
    cfg.fullscreen = pick(o.fullscreen, cfg.fullscreen);
    cfg.mic_forward.enabled = cfg.mic_forward.enabled || o.mic_forward;
    cfg.mic_forward.port = pick(o.mic_forward_port, cfg.mic_forward.port);
    cfg.gamepad_passthrough = pick(o.gamepad_passthrough, cfg.gamepad_passthrough);
    cfg.usb_forward = pick(o.usb_forward, cfg.usb_forward);
    cfg.resolution = pick(o.resolution, cfg.resolution);
    cfg.framerate = pick(o.fps, cfg.framerate);
    cfg.codec = pick(o.codec, cfg.codec);
}

/// The configuration to connect with: the one of the file, with the command
/// line applied. Without the address of a server there is none.
pub fn build_config(cfg: ClientConfig, o: &Overrides) -> (r: Result<ClientConfig, String>)
    ensures
        match r {
            Ok(c) => c@ == overridden(cfg@, *o) && c@.server_address.len() > 0,
            Err(e) => overridden(cfg@, *o).server_address.len() == 0 && e@
                == "Server address is required — pass --server <address> or set it in a config file"@,
        },
{
    let mut cfg = cfg;
    apply_overrides(&mut cfg, o);
    if cfg.server_address.as_str().is_empty() {
        return Err(missing_server());
    }
    Ok(cfg)
}

/// The file to read the configuration from: the one that the command line
/// names, else the default one if it exists.
pub fn config_path(named: Option<&str>, default_path: Option<&str>, exists: bool) -> (r: Option<
    String,
>)
    ensures
        match r {
            Some(path) => match named {
                Some(n) => path@ == n@,
                None => exists && (default_path matches Some(d) && path@ == d@),
            },
            None => named is None && !(exists && default_path is Some),
        },
{
    match named {
        Some(path) => Some(copy_text(path)),
        None => match default_path {
            Some(path) if exists => Some(copy_text(path)),
            _ => None,
        },
    }
}

/// What came of reading the configuration file.
pub enum FileRead {
    /// There is no such file.
    Missing,
    /// It could not be read, for this reason.
    Unreadable(String),
    /// It could not be parsed, for this reason.
    Malformed(String),
    /// It holds this configuration.
    Holds(ClientConfig),
}

/// The configuration to start with: what the file holds, and the default one
/// if there is no file. A file that cannot be used is an error.
pub fn loaded_config(path: &str, read: FileRead) -> (r: Result<ClientConfig, ConfigError>)
    ensures
        match read {
            FileRead::Missing => r matches Ok(cfg) && cfg@ == ConfigView::initial(),
            FileRead::Holds(held) => r matches Ok(cfg) && cfg@ == held@,
            FileRead::Unreadable(why) => r matches Err(e) && e is ReadError && e->ReadError_path@
                == path@ && e->ReadError_reason@ == why@,
            FileRead::Malformed(why) => r matches Err(e) && e is ParseError && e->ParseError_path@
                == path@ && e->ParseError_reason@ == why@,
        },
{
    match read {
        FileRead::Missing => Ok(ClientConfig::default()),
        FileRead::Holds(cfg) => Ok(cfg),
        FileRead::Unreadable(reason) => Err(
            ConfigError::ReadError { path: copy_text(path), reason },
        ),
        FileRead::Malformed(reason) => Err(
            ConfigError::ParseError { path: copy_text(path), reason },
        ),
    }
}

/// Applying the same command line again changes nothing.
pub proof fn law_overrides_idempotent(cfg: ConfigView, o: Overrides)
    ensures
        overridden(overridden(cfg, o), o) == overridden(cfg, o),
{
}

/// An empty command line changes nothing.
pub proof fn law_no_override_no_change(cfg: ConfigView, o: Overrides)
    requires
        o.server is None,
        o.port is None,
        o.fullscreen is None,
        !o.mic_forward,
        o.mic_forward_port is None,
        o.gamepad_passthrough is None,
        o.usb_forward is None,
        o.resolution is None,
        o.fps is None,
        o.codec is None,
    ensures
        overridden(cfg, o) == cfg,
{
}

} // verus!
