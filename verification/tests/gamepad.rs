use stargaze::gamepad::{
    build_descriptor, check_chord_at, guid_vendor_product, has_volume_keys, is_gamepad,
    read_events_at, read_volume_keys_at, ClaimOutcome, PadKey, PadReader, QuitChord, ReaderAction,
    ReaderEvent, SharedGamepads,
    BTN_SELECT, BTN_SOUTH, BTN_START, EV_ABS, EV_KEY, KEY_VOLUMEDOWN, KEY_VOLUMEUP,
    QUIT_CHORD_HOLD, VALVE_VENDOR_ID,
};
use stargaze::input::{GamepadDescriptor, InputEvent, RawGamepadEvent, MAX_GAMEPADS};

#[test]
fn quit_chord_requires_both_buttons_held() {
    let mut chord = QuitChord::default();
    assert!(!chord.fired());

    chord.set_select(true);
    chord.set_start(true);
    assert!(!chord.fired(), "hold time not elapsed yet");

    // Both pressed long before the hold requirement.
    let mut chord = QuitChord::default();
    let now = QUIT_CHORD_HOLD * 2;
    chord.set_select_at(true, 0);
    chord.set_start_at(true, 0);
    assert!(chord.fired_at(now));

    // Releasing either button cancels the chord.
    chord.set_start_at(false, now);
    assert!(!chord.fired_at(now));

    // Re-pressing restarts the hold from now.
    chord.set_start_at(true, now);
    assert!(!chord.fired_at(now));
}

#[test]
fn quit_flag_starts_clear_and_latches() {
    let mut shared = SharedGamepads::new();
    assert!(!shared.quit_requested());
    shared.request_quit();
    assert!(shared.quit_requested());
}

#[test]
fn slots_allocate_lowest_free_and_reuse() {
    let mut shared = SharedGamepads::new();
    let a = PadKey::Sdl(100);
    let b = PadKey::Evdev("/dev/input/event7".to_string());
    let c = PadKey::Sdl(300);

    assert_eq!(shared.allocate(&a), Some(0));
    assert_eq!(shared.allocate(&b), Some(1));
    assert_eq!(shared.allocate(&c), Some(2));

    // Re-allocating an existing key returns its slot.
    assert_eq!(shared.allocate(&b), Some(1));

    // Releasing frees the slot for the next controller.
    assert_eq!(shared.release(&b), Some(1));
    assert_eq!(shared.get(&b), None);
    assert_eq!(shared.allocate(&PadKey::Sdl(400)), Some(1));
}

#[test]
fn slots_full_returns_none() {
    let mut shared = SharedGamepads::new();
    for id in 0..u32::from(MAX_GAMEPADS) {
        assert!(shared.allocate(&PadKey::Sdl(id)).is_some());
    }
    assert_eq!(shared.allocate(&PadKey::Sdl(99)), None);
}

#[test]
fn release_unknown_returns_none() {
    let mut shared = SharedGamepads::new();
    assert_eq!(shared.release(&PadKey::Sdl(42)), None);
}

#[test]
fn grab_registry_tracks_generation() {
    let mut shared = SharedGamepads::new();
    assert!(!shared.is_grabbed(0x28de, 0x1102));
    let gen0 = shared.generation();

    shared.mark_grabbed("/dev/input/event9", 0x28de, 0x1102);
    assert!(shared.is_grabbed(0x28de, 0x1102));
    assert!(shared.generation() > gen0);

    shared.unmark_grabbed("/dev/input/event9", 0x28de, 0x1102);
    assert!(!shared.is_grabbed(0x28de, 0x1102));
}

#[test]
fn ignored_nodes_pruned_when_device_disappears() {
    let mut shared = SharedGamepads::new();
    let node = "/dev/input/event3";
    shared.mark_ignored(node);
    assert!(shared.is_ignored(node));

    // Node still enumerated: the ignore record is kept.
    shared.prune_ignored(&vec![node.to_string()]);
    assert!(shared.is_ignored(node));

    // Node gone: the record is dropped so a re-plug is re-evaluated.
    shared.prune_ignored(&Vec::new());
    assert!(!shared.is_ignored(node));
}

#[test]
fn lost_passthrough_tracked_until_regrabbed() {
    let mut shared = SharedGamepads::new();
    assert!(!shared.passthrough_was_lost(0x28de, 0x1142));

    shared.mark_lost(0x28de, 0x1142);
    assert!(shared.passthrough_was_lost(0x28de, 0x1142));

    // Re-establishing pass-through clears the loss record.
    shared.mark_grabbed("/dev/input/event9", 0x28de, 0x1142);
    assert!(!shared.passthrough_was_lost(0x28de, 0x1142));
}

#[test]
fn guid_extracts_vendor_product() {
    // SDL GUID layout: bus(0-1) crc(2-3) vendor(4-5) 0(6-7)
    // product(8-9) 0(10-11) version(12-13) driver-specific(14-15).
    let mut guid = [0u8; 16];
    guid[4] = 0xde;
    guid[5] = 0x28; // 0x28de little-endian (Valve)
    guid[8] = 0x02;
    guid[9] = 0x11; // 0x1102 little-endian (Steam Controller)
    assert_eq!(guid_vendor_product(&guid), (0x28de, 0x1102));
}

fn key(code: u16, value: i32) -> RawGamepadEvent {
    RawGamepadEvent { event_type: EV_KEY, code, value }
}

fn descriptor(vendor: u16, product: u16) -> GamepadDescriptor {
    build_descriptor(None, 3, vendor, product, 1, vec![BTN_SOUTH], Vec::new())
}

#[test]
fn chord_needs_the_whole_hold_of_the_later_button() {
    let mut chord = QuitChord::default();
    chord.set_select_at(true, 0);
    chord.set_start_at(true, 500_000_000);
    // Reports of a held button do not restart it.
    chord.set_select_at(true, 900_000_000);
    assert!(!chord.fired_at(500_000_000 + QUIT_CHORD_HOLD - 1));
    assert!(chord.fired_at(500_000_000 + QUIT_CHORD_HOLD));
}

#[test]
fn unnamed_device_gets_a_name() {
    assert_eq!(descriptor(1, 2).name, "Unknown Gamepad");
    let named = build_descriptor(Some("Pad"), 3, 1, 2, 4, Vec::new(), Vec::new());
    assert_eq!(named.name, "Pad");
    assert_eq!(named.version, 4);
}

#[test]
fn claim_grabs_until_slots_are_taken() {
    let mut shared = SharedGamepads::new();
    assert!(!shared.before_grab("/dev/input/event1", VALVE_VENDOR_ID));
    assert!(shared.is_ignored("/dev/input/event1"));

    assert!(shared.before_grab("/dev/input/event2", 0x054c));
    let pad = descriptor(0x054c, 0x0ce6);
    assert_eq!(shared.after_grab("/dev/input/event2", &pad, false), ClaimOutcome::Ignored);
    assert!(shared.is_ignored("/dev/input/event2"));

    for i in 0..MAX_GAMEPADS {
        let node = format!("/dev/input/event{}", 10 + i);
        assert_eq!(shared.after_grab(&node, &pad, true), ClaimOutcome::Claimed(i));
        assert!(shared.is_active_node(&node));
    }
    assert_eq!(shared.active_node_count(), usize::from(MAX_GAMEPADS));
    assert_eq!(shared.after_grab("/dev/input/event99", &pad, true), ClaimOutcome::Ungrab);
    assert!(!shared.is_active_node("/dev/input/event99"));

    shared.reader_ended("/dev/input/event11", 0x054c, 0x0ce6);
    // The other pads of this kind are still grabbed.
    assert!(shared.is_grabbed(0x054c, 0x0ce6));
    assert_eq!(shared.after_grab("/dev/input/event99", &pad, true), ClaimOutcome::Claimed(1));
}

#[test]
fn scanner_claims_only_new_gamepads() {
    let mut shared = SharedGamepads::new();
    let keys = vec![1, BTN_SOUTH];
    assert!(shared.should_claim("/dev/input/event4", Some(&keys)));
    assert!(!shared.should_claim("/dev/input/event4", Some(&vec![1, 2])));
    assert!(!shared.should_claim("/dev/input/event4", None));
    shared.mark_ignored("/dev/input/event4");
    assert!(!shared.should_claim("/dev/input/event4", Some(&keys)));
    assert!(is_gamepad(&keys));
    assert!(has_volume_keys(&vec![KEY_VOLUMEUP, KEY_VOLUMEDOWN]));
    assert!(!has_volume_keys(&vec![KEY_VOLUMEUP]));
}

#[test]
fn reader_forwards_keys_and_axes_only() {
    let mut chord = QuitChord::default();
    let sync = RawGamepadEvent { event_type: 0, code: 0, value: 0 };
    let axis = RawGamepadEvent { event_type: EV_ABS, code: 1, value: -5 };
    assert_eq!(read_events_at(&mut chord, 2, &vec![sync], 0), None);
    let events = vec![key(BTN_SELECT, 1), sync, axis, key(BTN_START, 1)];
    assert_eq!(
        read_events_at(&mut chord, 2, &events, 0),
        Some(InputEvent::GamepadPassthroughEvents {
            pad: 2,
            events: vec![key(BTN_SELECT, 1), axis, key(BTN_START, 1)],
        })
    );
    assert!(chord.fired_at(QUIT_CHORD_HOLD));
}

#[test]
fn volume_keys_end_the_session_once() {
    let mut shared = SharedGamepads::new();
    let mut chord = QuitChord::default();
    read_volume_keys_at(&mut chord, &vec![key(KEY_VOLUMEDOWN, 1), key(KEY_VOLUMEUP, 1)], 0);
    assert!(!check_chord_at(&mut shared, &chord, QUIT_CHORD_HOLD - 1));
    assert!(check_chord_at(&mut shared, &chord, QUIT_CHORD_HOLD));
    assert!(shared.quit_requested());
    assert!(!check_chord_at(&mut shared, &chord, QUIT_CHORD_HOLD));
    read_volume_keys_at(&mut chord, &vec![key(KEY_VOLUMEUP, 0)], QUIT_CHORD_HOLD);
    assert!(!chord.fired_at(QUIT_CHORD_HOLD));
}

#[test]
fn claimed_device_is_not_emulated() {
    let mut shared = SharedGamepads::new();
    shared.mark_claimed(0x28de, 0x1142);
    assert!(shared.is_grabbed(0x28de, 0x1142));
    assert!(!shared.is_grabbed(0x1142, 0x28de));
    shared.unmark_claimed(0x28de, 0x1142);
    assert!(!shared.is_grabbed(0x28de, 0x1142));
    assert_eq!(shared.generation(), 2);
}

#[test]
fn reader_gives_everything_back() {
    let pad = descriptor(0x054c, 0x0ce6);
    for (event, ungrab, lost) in [
        (ReaderEvent::Stop, true, false),
        (ReaderEvent::Closed, false, false),
        (ReaderEvent::Failed, false, true),
    ] {
        let mut shared = SharedGamepads::new();
        assert_eq!(shared.after_grab("event7", &pad, true), ClaimOutcome::Claimed(0));
        let mut reader = PadReader::new("event7", 0, 0x054c, 0x0ce6);
        let action = reader.handle_at(&mut shared, event, 0);
        match action {
            ReaderAction::End { ungrab: u, last } => {
                assert_eq!(u, ungrab);
                let expected = lost.then_some(InputEvent::GamepadDisconnected { pad: 0 });
                assert_eq!(last, expected);
            }
            _ => panic!("expected the end"),
        }
        assert!(!shared.is_grabbed(0x054c, 0x0ce6));
        assert_eq!(shared.active_node_count(), 0);
        assert_eq!(shared.get(&PadKey::Evdev("event7".to_string())), None);
        assert_eq!(shared.passthrough_was_lost(0x054c, 0x0ce6), lost);
    }
}

#[test]
fn reader_fires_the_chord_on_a_quiet_device() {
    let mut shared = SharedGamepads::new();
    let mut reader = PadReader::new("event7", 3, 1, 2);
    let pressed = ReaderEvent::Events(vec![key(BTN_SELECT, 1), key(BTN_START, 1)]);
    assert!(matches!(reader.handle_at(&mut shared, pressed, 0), ReaderAction::Forward(_)));
    let quiet = ReaderEvent::Events(Vec::new());
    assert!(matches!(reader.handle_at(&mut shared, quiet, 1), ReaderAction::Wait));
    reader.handle_at(&mut shared, ReaderEvent::Round, QUIT_CHORD_HOLD - 1);
    assert!(!shared.quit_requested());
    reader.handle_at(&mut shared, ReaderEvent::Round, QUIT_CHORD_HOLD);
    assert!(shared.quit_requested());
}

#[test]
fn ids_stay_grabbed_while_another_device_has_them() {
    let mut shared = SharedGamepads::new();
    shared.mark_grabbed("/dev/input/event1", 0x045e, 0x028e);
    shared.mark_grabbed("/dev/input/event2", 0x045e, 0x028e);
    shared.unmark_grabbed("/dev/input/event1", 0x045e, 0x028e);
    assert!(shared.is_grabbed(0x045e, 0x028e));
    assert!(!shared.is_active_node("/dev/input/event1"));
    shared.mark_claimed(0x045e, 0x028e);
    shared.unmark_grabbed("/dev/input/event2", 0x045e, 0x028e);
    assert!(shared.is_grabbed(0x045e, 0x028e));
    shared.unmark_claimed(0x045e, 0x028e);
    assert!(!shared.is_grabbed(0x045e, 0x028e));
}
