use stargaze::config::{
    effective_hosts, sanitize_command_line, ClientConfig, Codec, CursorConfig, HostEntry,
    MicForwardConfig, Resolution, ServerConfig, DEFAULT_MIC_FORWARD_PORT, DEFAULT_PORT,
};
use stargaze::error::ConfigError;

#[test]
fn test_server_config_defaults() {
    let config = ServerConfig::default();
    assert_eq!(config.bind_address, "0.0.0.0");
    assert_eq!(config.port, 9000);
    assert_eq!(
        config.resolution,
        Resolution {
            width: 1920,
            height: 1080
        }
    );
    assert_eq!(config.framerate, 60);
    assert_eq!(config.bitrate, 20);
    assert_eq!(config.codec, Codec::H265);
    assert!(!config.mic_forward.enabled);
    assert_eq!(config.mic_forward.port, 9001);
    assert_eq!(config.mic_forward.rsonance_binary, "rsonance");
    assert!(config.cursor.show_cursor);
    assert_eq!(config.encoder.preset, "p1");
    assert_eq!(config.encoder.multipass, "disabled");
}

#[test]
fn test_client_config_defaults() {
    let config = ClientConfig::default();
    assert_eq!(config.server_address, "");
    assert_eq!(config.port, 9000);
    assert!(config.fullscreen);
    assert!(!config.mic_forward.enabled);
    assert_eq!(config.mic_forward.port, 9001);
}

#[test]
fn test_mic_forward_config_defaults() {
    let config = MicForwardConfig::default();
    assert!(!config.enabled);
    assert_eq!(config.port, DEFAULT_MIC_FORWARD_PORT);
    assert_eq!(config.rsonance_binary, "rsonance");
}

#[test]
fn test_resolution_display() {
    let res = Resolution {
        width: 1920,
        height: 1080,
    };
    assert_eq!(res.to_string(), "1920x1080");
}

#[test]
fn test_resolution_from_str() {
    let res: Resolution = "2560x1440".parse().unwrap();
    assert_eq!(
        res,
        Resolution {
            width: 2560,
            height: 1440
        }
    );
}

#[test]
fn test_resolution_from_str_invalid() {
    assert!("not_a_resolution".parse::<Resolution>().is_err());
    assert!("1920".parse::<Resolution>().is_err());
    assert!("1920xabc".parse::<Resolution>().is_err());
}

#[test]
fn test_codec_display() {
    assert_eq!(Codec::H265.to_string(), "h265");
    assert_eq!(Codec::Av1.to_string(), "av1");
}

#[test]
fn test_codec_from_str() {
    assert_eq!("h265".parse::<Codec>().unwrap(), Codec::H265);
    assert_eq!("av1".parse::<Codec>().unwrap(), Codec::Av1);
    assert!("vp9".parse::<Codec>().is_err());
}

#[test]
fn test_cursor_config_defaults() {
    let config = CursorConfig::default();
    assert!(config.show_cursor);
}

#[test]
fn client_config_quality_defaults() {
    let config = ClientConfig::default();
    assert_eq!(config.resolution, Resolution::default());
    assert_eq!(config.framerate, 60);
    assert_eq!(config.codec, Codec::H265);
    assert!(config.hosts.is_empty());
}

#[test]
fn effective_hosts_prefers_saved_list() {
    let config = ClientConfig {
        server_address: "legacy".to_string(),
        hosts: vec![HostEntry {
            address: "10.0.0.5".to_string(),
            ..HostEntry::default()
        }],
        ..ClientConfig::default()
    };
    let hosts = effective_hosts(&config);
    assert_eq!(hosts.len(), 1);
    assert_eq!(hosts[0].address, "10.0.0.5");
}

#[test]
fn effective_hosts_synthesizes_from_legacy_fields() {
    let config = ClientConfig {
        server_address: "192.168.1.10".to_string(),
        port: 7000,
        framerate: 120,
        ..ClientConfig::default()
    };
    let hosts = effective_hosts(&config);
    assert_eq!(hosts.len(), 1);
    assert_eq!(hosts[0].address, "192.168.1.10");
    assert_eq!(hosts[0].port, 7000);
    assert_eq!(hosts[0].framerate, 120);
    assert_eq!(hosts[0].display_name(), "192.168.1.10");
}

#[test]
fn effective_hosts_empty_config() {
    assert!(effective_hosts(&ClientConfig::default()).is_empty());
}

#[test]
fn sanitize_command_line_strips_addresses_and_ports() {
    let args = [
        "/nix/store/abc/bin/stargaze-server",
        "--bind",
        "0.0.0.0",
        "--port",
        "60003",
        "--resolution",
        "3440x1440",
        "--bitrate",
        "60",
        "--preset",
        "p1",
    ];
    let line = sanitize_command_line(&args.iter().map(ToString::to_string).collect());
    assert_eq!(
        line,
        "stargaze-server --resolution 3440x1440 --bitrate 60 --preset p1"
    );
}

#[test]
fn sanitize_command_line_strips_equals_form_and_trailing_flag() {
    let args = [
        "stargaze-client",
        "--server=192.168.1.10",
        "--fullscreen",
        "true",
        "--port",
    ];
    let line = sanitize_command_line(&args.iter().map(ToString::to_string).collect());
    assert_eq!(line, "stargaze-client --fullscreen true");
}

#[test]
fn host_entry_defaults() {
    let host = HostEntry::default();
    assert_eq!(host.name, "");
    assert_eq!(host.address, "");
    assert_eq!(host.port, DEFAULT_PORT);
    assert_eq!(host.resolution, Resolution::default());
    assert_eq!(host.framerate, 60);
    assert_eq!(host.codec, Codec::H265);
    assert_eq!(host.display_name(), "");
}

#[test]
fn named_host_shows_its_name() {
    let host = HostEntry {
        name: "zeus".to_string(),
        address: "100.64.0.3".to_string(),
        ..HostEntry::default()
    };
    assert_eq!(host.display_name(), "zeus");
}

#[test]
fn unknown_codec_is_named_in_the_error() {
    let err = "vp9".parse::<Codec>().unwrap_err();
    assert!(matches!(&err, ConfigError::InvalidCodec(s) if s == "vp9"));
    let err = "1920".parse::<Resolution>().unwrap_err();
    assert!(matches!(&err, ConfigError::InvalidResolution(s) if s == "1920"));
}

#[test]
fn resolution_round_trips_through_text() {
    for (width, height) in [(0, 0), (1, 4_294_967_295), (3840, 2160)] {
        let res = Resolution { width, height };
        assert_eq!(res.to_string().parse::<Resolution>().unwrap(), res);
    }
    assert!("4294967296x1".parse::<Resolution>().is_err());
    assert!("x".parse::<Resolution>().is_err());
    assert!("1920x1080x60".parse::<Resolution>().is_err());
}

#[test]
fn sanitized_line_keeps_other_arguments_in_order() {
    let args = ["/usr/bin/tool", "a", "--server", "10.0.0.1", "b", "--bind=x", "c"];
    let line = sanitize_command_line(&args.iter().map(ToString::to_string).collect());
    assert_eq!(line, "tool a b c");
}

#[test]
fn sanitized_lines_tell_no_network() {
    let sanitize = |args: &[&str]| {
        sanitize_command_line(&args.iter().map(ToString::to_string).collect())
    };
    let here = sanitize(&["/opt/bin/stargaze-client", "--server", "10.0.0.1", "--port=1", "--fps", "60"]);
    let there = sanitize(&["stargaze-client", "--server", "zeus.lan", "--port=60003", "--fps", "60"]);
    assert_eq!(here, there);
    assert_eq!(here, "stargaze-client --fps 60");
}
