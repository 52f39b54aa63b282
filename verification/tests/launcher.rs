use stargaze::config::{ClientConfig, Codec, HostEntry, Resolution};
use stargaze::launch::{
    connect_plan, direct_request, poll_attempt, run_batch, wants_cancel, Attempt, AttemptAction,
};
use stargaze::launcher::{
    cycle_codec, cycle_framerate, cycle_resolution, session_config, Effect, Model, Screen,
};
use stargaze::widgets::NavEvent;

fn model_with_hosts(n: usize) -> Model {
    let cfg = ClientConfig {
        hosts: (0..n)
            .map(|i| HostEntry {
                name: format!("host{i}"),
                address: format!("10.0.0.{i}"),
                ..HostEntry::default()
            })
            .collect(),
        ..ClientConfig::default()
    };
    Model::new(cfg, None)
}

#[test]
fn activate_host_row_connects() {
    let mut model = model_with_hosts(2);
    model.update(&NavEvent::Down);
    assert_eq!(model.update(&NavEvent::Activate), Effect::Connect(1));
}

#[test]
fn activate_quit_row_quits() {
    let mut model = model_with_hosts(1);
    for _ in 0..3 {
        model.update(&NavEvent::Down);
    }
    assert_eq!(model.update(&NavEvent::Activate), Effect::Quit);
}

#[test]
fn delete_removes_host_and_saves() {
    let mut model = model_with_hosts(2);
    assert_eq!(model.update(&NavEvent::Delete), Effect::Save);
    assert_eq!(model.cfg.hosts.len(), 1);
    assert_eq!(model.cfg.hosts[0].name, "host1");
}

#[test]
fn add_edit_save_flow() {
    let mut model = model_with_hosts(0);
    // Focus starts on "Add host…" when there are no hosts.
    assert_eq!(model.update(&NavEvent::Activate), Effect::Nothing);
    assert!(matches!(model.screen, Screen::HostEdit { .. }));

    // Down to Address, enter editing, type an address.
    model.update(&NavEvent::Down);
    assert_eq!(
        model.update(&NavEvent::Activate),
        Effect::EditingChanged(true)
    );
    model.update(&NavEvent::Text("zeus.lan".to_string()));
    assert_eq!(
        model.update(&NavEvent::Activate),
        Effect::EditingChanged(false)
    );

    // Down to Save (address=1 → save=6).
    for _ in 0..5 {
        model.update(&NavEvent::Down);
    }
    assert_eq!(model.update(&NavEvent::Activate), Effect::Save);
    assert_eq!(model.cfg.hosts.len(), 1);
    assert_eq!(model.cfg.hosts[0].address, "zeus.lan");
    assert!(matches!(model.screen, Screen::HostList { .. }));
}

#[test]
fn save_with_empty_address_shows_error() {
    let mut model = model_with_hosts(0);
    model.update(&NavEvent::Activate); // open Add host
    for _ in 0..6 {
        model.update(&NavEvent::Down);
    }
    assert_eq!(model.update(&NavEvent::Activate), Effect::Nothing);
    assert!(model.error.is_some());
    assert!(matches!(model.screen, Screen::HostEdit { .. }));
}

#[test]
fn edit_existing_host_updates_in_place() {
    let mut model = model_with_hosts(2);
    model.update(&NavEvent::Down);
    model.update(&NavEvent::Edit);
    assert!(matches!(
        model.screen,
        Screen::HostEdit { index: Some(1), .. }
    ));
    // Cycle codec (field 5) then save.
    for _ in 0..5 {
        model.update(&NavEvent::Down);
    }
    model.update(&NavEvent::Right);
    model.update(&NavEvent::Down);
    assert_eq!(model.update(&NavEvent::Activate), Effect::Save);
    assert_eq!(model.cfg.hosts[1].codec, Codec::Av1);
    assert_eq!(model.cfg.hosts.len(), 2);
}

#[test]
fn settings_toggle_saves() {
    let mut model = model_with_hosts(1);
    model.update(&NavEvent::Down); // Add host
    model.update(&NavEvent::Down); // Settings
    model.update(&NavEvent::Activate);
    assert!(matches!(model.screen, Screen::Settings { .. }));
    assert!(model.cfg.fullscreen);
    assert_eq!(model.update(&NavEvent::Activate), Effect::Save);
    assert!(!model.cfg.fullscreen);
    // Back returns to the host list.
    model.update(&NavEvent::Back);
    assert!(matches!(model.screen, Screen::HostList { .. }));
}

#[test]
fn back_on_host_list_quits() {
    let mut model = model_with_hosts(1);
    assert_eq!(model.update(&NavEvent::Back), Effect::Quit);
}

#[test]
fn port_field_accepts_digits_only() {
    let mut model = model_with_hosts(0);
    model.update(&NavEvent::Activate); // Add host
    model.update(&NavEvent::Down);
    model.update(&NavEvent::Down); // Port
    model.update(&NavEvent::Activate); // edit
    // Clear the default port.
    for _ in 0..5 {
        model.update(&NavEvent::Backspace);
    }
    model.update(&NavEvent::Text("9a1x".to_string()));
    let Screen::HostEdit { port_text, .. } = &model.screen else {
        panic!("expected host edit screen");
    };
    assert_eq!(port_text, "91");
}

#[test]
fn legacy_config_migrates_to_host_row() {
    let cfg = ClientConfig {
        server_address: "100.64.0.3".to_string(),
        port: 9000,
        ..ClientConfig::default()
    };
    let model = Model::new(cfg, None);
    assert_eq!(model.cfg.hosts.len(), 1);
    assert_eq!(model.cfg.hosts[0].address, "100.64.0.3");
}

#[test]
fn session_config_merges_host_into_toggles() {
    let cfg = ClientConfig {
        fullscreen: false,
        usb_forward: false,
        ..ClientConfig::default()
    };
    let host = HostEntry {
        name: "zeus".to_string(),
        address: "zeus.lan".to_string(),
        port: 9100,
        resolution: Resolution {
            width: 2560,
            height: 1440,
        },
        framerate: 90,
        codec: Codec::Av1,
        bitrate: 40,
    };
    let session = session_config(&cfg, &host);
    assert_eq!(session.server_address, "zeus.lan");
    assert_eq!(session.port, 9100);
    assert_eq!(session.framerate, 90);
    assert_eq!(session.codec, Codec::Av1);
    assert!(!session.fullscreen);
    assert!(!session.usb_forward);
}

#[test]
fn presets_cycle_both_ways() {
    let mut resolution = Resolution { width: 3840, height: 2160 };
    cycle_resolution(&mut resolution, true);
    assert_eq!(resolution, Resolution { width: 1280, height: 800 });
    cycle_resolution(&mut resolution, false);
    assert_eq!(resolution, Resolution { width: 3840, height: 2160 });
    let mut framerate = 60;
    cycle_framerate(&mut framerate, true);
    assert_eq!(framerate, 90);
    cycle_framerate(&mut framerate, false);
    assert_eq!(framerate, 60);
    let mut codec = Codec::H265;
    cycle_codec(&mut codec, true);
    assert_eq!(codec, Codec::Av1);
    cycle_codec(&mut codec, true);
    assert_eq!(codec, Codec::H265);
}

#[test]
fn back_discards_the_draft() {
    let mut model = model_with_hosts(1);
    model.update(&NavEvent::Edit);
    for _ in 0..5 {
        model.update(&NavEvent::Down);
    }
    model.update(&NavEvent::Right);
    model.update(&NavEvent::Back);
    assert!(matches!(model.screen, Screen::HostList { .. }));
    assert_eq!(model.cfg.hosts[0].codec, Codec::H265);
}

#[test]
fn click_activates_the_row_under_it() {
    let mut model = model_with_hosts(3);
    let rect = model.screen_rects()[2];
    let click = NavEvent::PointerClick(rect.x() + 1, rect.y() + 1);
    assert_eq!(model.update(&click), Effect::Connect(2));
    assert_eq!(model.host_list_rects().len(), 6);
}

#[test]
fn batch_stops_at_the_connection() {
    let mut model = model_with_hosts(2);
    let events = vec![NavEvent::Down, NavEvent::Activate, NavEvent::Delete];
    let effects = run_batch(&mut model, &events);
    assert_eq!(effects, vec![Effect::Nothing, Effect::Connect(1)]);
    assert_eq!(model.cfg.hosts.len(), 2);
}

#[test]
fn connection_takes_the_quality_of_the_host() {
    let mut model = model_with_hosts(1);
    model.cfg.hosts[0].framerate = 90;
    model.cfg.hosts[0].bitrate = 33;
    let plan = connect_plan(&model.cfg, 0);
    assert_eq!(plan.session.server_address, "10.0.0.0");
    assert_eq!(plan.request.framerate, 90);
    assert_eq!(plan.request.bitrate_mbps, 33);
    assert_eq!(plan.host_name, "host0");
    let direct = direct_request(&model.cfg);
    assert_eq!((direct.width, direct.height, direct.framerate), (1920, 1080, 60));
    assert_eq!(direct.bitrate_mbps, 0);
}

#[test]
fn attempts_end_as_the_user_expects() {
    let mut model = model_with_hosts(1);
    assert_eq!(poll_attempt(&mut model, false, &Attempt::Pending), AttemptAction::Wait);
    assert!(model.error.is_none());
    assert_eq!(poll_attempt(&mut model, false, &Attempt::Connected), AttemptAction::StartSession);
    assert_eq!(poll_attempt(&mut model, true, &Attempt::Connected), AttemptAction::CloseSession);
    assert_eq!(poll_attempt(&mut model, true, &Attempt::Pending), AttemptAction::Abort);
    assert_eq!(model.error.as_deref(), Some("Connection cancelled"));
    let failed = Attempt::Failed("timeout".to_string());
    assert_eq!(poll_attempt(&mut model, false, &failed), AttemptAction::Over);
    assert_eq!(model.error.as_deref(), Some("Connection failed: timeout"));
    assert_eq!(poll_attempt(&mut model, true, &failed), AttemptAction::Over);
    assert_eq!(model.error.as_deref(), Some("Connection cancelled"));
    assert_eq!(poll_attempt(&mut model, false, &Attempt::Died), AttemptAction::Over);
    assert_eq!(model.error.as_deref(), Some("Connection task died"));
    assert!(wants_cancel(&vec![NavEvent::Up, NavEvent::Back]));
    assert!(!wants_cancel(&vec![NavEvent::Up]));
}
