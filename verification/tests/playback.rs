use stargaze::audio::{opus_channel_layout, AudioError};
use stargaze::playback::{
    audio_bytes_per_ms, audio_step, decode_buffer_len, device_channels, max_queued_audio_bytes,
    over_backlog, pcm_len, AudioAction, AudioEvent, OPUS_FRAME_SAMPLES,
};

#[test]
fn decoder_init_rejects_invalid_channels() {
    assert!(matches!(
        opus_channel_layout(3),
        Err(AudioError::UnsupportedChannels(3))
    ));
}

#[test]
fn backlog_is_bounded_to_a_fraction_of_a_second() {
    assert_eq!(audio_bytes_per_ms(2), 384);
    assert_eq!(max_queued_audio_bytes(2), 57_600);
    assert_eq!(max_queued_audio_bytes(u16::MAX), 1_887_408_000);
    assert!(!over_backlog(57_600, 2));
    assert!(over_backlog(57_601, 2));
}

#[test]
fn device_takes_small_channel_counts() {
    assert_eq!(device_channels(8), Ok(8));
    assert_eq!(device_channels(255), Ok(255));
    assert_eq!(
        device_channels(256),
        Err("unsupported audio channel count 256".to_string())
    );
}

#[test]
fn buffers_hold_a_packet() {
    assert_eq!(decode_buffer_len(2), 960);
    assert_eq!(pcm_len(OPUS_FRAME_SAMPLES, 6), 2880);
    assert_eq!(pcm_len(120, 2), 240);
}

#[test]
fn audio_loop_skips_bad_packets() {
    assert_eq!(audio_step(AudioEvent::Packet), AudioAction::Decode);
    assert_eq!(audio_step(AudioEvent::Decoded), AudioAction::Send);
    assert_eq!(audio_step(AudioEvent::Refused), AudioAction::Wait);
    assert_eq!(audio_step(AudioEvent::Sent), AudioAction::Wait);
    for event in [AudioEvent::Shutdown, AudioEvent::Closed, AudioEvent::ReceiverGone] {
        assert_eq!(audio_step(event), AudioAction::Finish);
    }
}
