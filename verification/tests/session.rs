use stargaze::cli::{
    apply_overrides, build_config, config_path, loaded_config, start_mode, FileRead, Overrides,
    StartMode,
};
use stargaze::config::{ClientConfig, Codec, MicForwardConfig, Resolution};
use stargaze::decode::DecoderConfig;
use stargaze::error::ConfigError;
use stargaze::mic_forward::{receiver_args, transmitter_args};
use stargaze::net::SessionParams;
use stargaze::session::{
    plan_session, report_meta, teardown_steps, video_geometry, Running, SessionCommands,
    TeardownStep,
};

fn params(codec: Codec) -> SessionParams {
    SessionParams {
        width: 2560,
        height: 1440,
        framerate: 120,
        bitrate_mbps: 50,
        codec,
        max_datagram_size: 1200,
        server_command: "stargaze-server".to_string(),
        audio_channels: 6,
    }
}

fn no_overrides() -> Overrides {
    Overrides {
        server: None,
        port: None,
        fullscreen: None,
        mic_forward: false,
        mic_forward_port: None,
        gamepad_passthrough: None,
        usb_forward: None,
        resolution: None,
        fps: None,
        codec: None,
    }
}

#[test]
fn session_goes_by_what_the_server_confirmed() {
    let cfg = ClientConfig::default();
    let plan = plan_session(&cfg, &params(Codec::Av1));
    assert!(plan.forward_usb && plan.pass_through && plan.emulate);
    assert!(!plan.forward_builtin && !plan.watch_volume && !plan.forward_mic);
    assert!(plan.codec_differs);
    assert_eq!((plan.video.width, plan.video.height), (2560, 1440));
    assert_eq!(plan.video.codec, Codec::Av1);
    assert_eq!((plan.audio.sample_rate, plan.audio.channels), (48_000, 6));
    assert!(!plan_session(&cfg, &params(Codec::H265)).codec_differs);
}

#[test]
fn handed_over_controller_is_not_emulated() {
    let mut cfg = ClientConfig::default();
    cfg.forward_builtin_controller = true;
    let plan = plan_session(&cfg, &params(Codec::H265));
    assert!(plan.forward_builtin && plan.watch_volume);
    assert!(!plan.pass_through && !plan.emulate);
    cfg.usb_forward = false;
    let plan = plan_session(&cfg, &params(Codec::H265));
    assert!(!plan.forward_usb && !plan.forward_builtin && !plan.watch_volume);
    assert!(plan.pass_through && plan.emulate);
}

#[test]
fn report_names_the_session() {
    let commands = SessionCommands {
        server: "stargaze-server".to_string(),
        client: "stargaze-client".to_string(),
    };
    let config = DecoderConfig { width: 3440, height: 1440, codec: Codec::H265 };
    let meta = report_meta(&commands, &config);
    assert_eq!(meta.video, "3440x1440");
    assert_eq!(meta.server_command, "stargaze-server");
    assert_eq!(meta.client_command, "stargaze-client");
    assert_eq!(video_geometry(0, 7), "0x7");
}

#[test]
fn command_line_wins_over_the_file() {
    let mut cfg = ClientConfig::default();
    cfg.server_address = "old".to_string();
    let all = Overrides {
        server: Some("zeus".to_string()),
        port: Some(1),
        fullscreen: Some(false),
        mic_forward: true,
        mic_forward_port: Some(2),
        gamepad_passthrough: Some(false),
        usb_forward: Some(false),
        resolution: Some(Resolution { width: 3, height: 4 }),
        fps: Some(5),
        codec: Some(Codec::Av1),
    };
    let cfg = build_config(cfg, &all).unwrap();
    assert_eq!(cfg.server_address, "zeus");
    assert_eq!((cfg.port, cfg.fullscreen), (1, false));
    assert_eq!((cfg.mic_forward.enabled, cfg.mic_forward.port), (true, 2));
    assert!(!cfg.gamepad_passthrough && !cfg.usb_forward);
    assert_eq!(cfg.resolution, Resolution { width: 3, height: 4 });
    assert_eq!((cfg.framerate, cfg.codec), (5, Codec::Av1));

    let mut kept = build_config(cfg, &no_overrides()).unwrap();
    assert_eq!(kept.server_address, "zeus");
    assert!(kept.mic_forward.enabled);
    apply_overrides(&mut kept, &all);
    assert_eq!(kept.port, 1);
}

#[test]
fn server_address_is_required() {
    assert_eq!(
        build_config(ClientConfig::default(), &no_overrides()).unwrap_err(),
        "Server address is required — pass --server <address> or set it in a config file"
    );
}

#[test]
fn named_config_file_comes_first() {
    assert_eq!(config_path(Some("a"), Some("b"), true).as_deref(), Some("a"));
    assert_eq!(config_path(None, Some("b"), true).as_deref(), Some("b"));
    assert_eq!(config_path(None, Some("b"), false), None);
    assert_eq!(config_path(None, None, true), None);
}

#[test]
fn microphone_command_lines() {
    let config = MicForwardConfig::default();
    assert_eq!(
        transmitter_args(&config, "10.0.0.5"),
        vec!["transmitter", "--host", "10.0.0.5", "--port", "9001"]
    );
    assert_eq!(
        receiver_args(&config),
        vec![
            "receiver",
            "--host",
            "0.0.0.0",
            "--port",
            "9001",
            "--fifo-path",
            "/tmp/stargaze_mic_pipe",
            "--microphone-name",
            "stargaze_virtual_microphone",
        ]
    );
}

#[test]
fn naming_a_server_skips_the_launcher() {
    assert_eq!(start_mode(&no_overrides()), StartMode::Launcher);
    let direct = Overrides {
        server: Some("zeus".to_string()),
        ..no_overrides()
    };
    assert_eq!(start_mode(&direct), StartMode::Direct);
}

#[test]
fn teardown_stops_what_runs() {
    let nothing = Running {
        pass_through: false,
        volume_watch: false,
        microphone: false,
        usb_forwarder: false,
    };
    assert_eq!(
        teardown_steps(nothing),
        vec![TeardownStep::CloseConnection, TeardownStep::AbortTransport]
    );
    let all = Running {
        pass_through: true,
        volume_watch: true,
        microphone: true,
        usb_forwarder: true,
    };
    assert_eq!(
        teardown_steps(all),
        vec![
            TeardownStep::StopPassThrough,
            TeardownStep::StopVolumeWatch,
            TeardownStep::StopMicrophone,
            TeardownStep::CloseConnection,
            TeardownStep::AwaitUsbForwarder,
            TeardownStep::AbortTransport,
        ]
    );
}

#[test]
fn missing_file_gives_the_default() {
    let path = "/nonexistent/client.toml";
    assert_eq!(loaded_config(path, FileRead::Missing), Ok(ClientConfig::default()));
    let held = ClientConfig { port: 7, ..ClientConfig::default() };
    assert_eq!(loaded_config(path, FileRead::Holds(held.clone())), Ok(held));
    assert_eq!(
        loaded_config(path, FileRead::Unreadable("denied".to_string())),
        Err(ConfigError::ReadError { path: path.to_string(), reason: "denied".to_string() })
    );
    assert_eq!(
        loaded_config(path, FileRead::Malformed("line 1".to_string())),
        Err(ConfigError::ParseError { path: path.to_string(), reason: "line 1".to_string() })
    );
}
