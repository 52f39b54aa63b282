use stargaze::audio::{
    opus_channel_layout, AudioApplication, AudioCaptureConfig, AudioDecoderConfig,
    AudioEncoderConfig, AudioError,
};

#[test]
fn audio_capture_config_construction() {
    let cfg = AudioCaptureConfig {
        sample_rate: 48000,
        channels: 2,
    };
    assert_eq!(cfg.sample_rate, 48000);
    assert_eq!(cfg.channels, 2);
}

#[test]
fn audio_encoder_config_construction() {
    let cfg = AudioEncoderConfig {
        sample_rate: 48000,
        channels: 2,
        bitrate: 128_000,
        application: AudioApplication::Audio,
    };
    assert_eq!(cfg.sample_rate, 48000);
    assert_eq!(cfg.channels, 2);
    assert_eq!(cfg.bitrate, 128_000);
    assert_eq!(cfg.application, AudioApplication::Audio);
}

#[test]
fn audio_error_display() {
    let err = AudioError::CaptureInit("PipeWire not available".to_string());
    assert_eq!(
        err.to_string(),
        "audio capture initialization failed: PipeWire not available"
    );

    let err = AudioError::CaptureStream("buffer overrun".to_string());
    assert_eq!(
        err.to_string(),
        "audio capture stream error: buffer overrun"
    );

    let err = AudioError::EncoderInit("invalid sample rate".to_string());
    assert_eq!(
        err.to_string(),
        "audio encoder initialization failed: invalid sample rate"
    );

    let err = AudioError::EncodeFailed("frame too short".to_string());
    assert_eq!(err.to_string(), "audio encoding failed: frame too short");

    let err = AudioError::ChannelClosed("receiver dropped".to_string());
    assert_eq!(err.to_string(), "audio channel closed: receiver dropped");
}

#[test]
fn audio_application_variants() {
    assert_ne!(AudioApplication::Audio, AudioApplication::Voip);
    assert_ne!(AudioApplication::Voip, AudioApplication::LowDelay);
    assert_ne!(AudioApplication::Audio, AudioApplication::LowDelay);
}

#[test]
fn audio_decoder_config_construction() {
    let cfg = AudioDecoderConfig {
        sample_rate: 48000,
        channels: 2,
    };
    assert_eq!(cfg.sample_rate, 48000);
    assert_eq!(cfg.channels, 2);
}

#[test]
fn opus_layout_supported_counts() {
    // Encoded-channel-slot count implied by the layout must equal the
    // channel count: coupled streams contribute 2 slots, uncoupled 1.
    for &ch in &[1u16, 2, 6, 8] {
        let layout = opus_channel_layout(ch).unwrap();
        assert_eq!(layout.mapping.len(), usize::from(ch));
        let slots = usize::from(layout.coupled_streams) * 2
            + usize::from(layout.streams - layout.coupled_streams);
        assert_eq!(slots, usize::from(ch), "slot count for {ch} channels");
        // The mapping must be a permutation of 0..slots (bijective).
        let mut seen = layout.mapping.clone();
        seen.sort_unstable();
        let expected: Vec<u8> = (0..u8::try_from(slots).unwrap()).collect();
        assert_eq!(seen, expected, "mapping for {ch} channels is a permutation");
    }
}

#[test]
fn opus_layout_specific_tables() {
    assert_eq!(opus_channel_layout(2).unwrap().mapping, vec![0, 1]);
    assert_eq!(
        opus_channel_layout(6).unwrap().mapping,
        vec![0, 1, 4, 5, 2, 3]
    );
    assert_eq!(
        opus_channel_layout(8).unwrap().mapping,
        vec![0, 1, 6, 7, 2, 3, 4, 5]
    );
    assert_eq!(opus_channel_layout(6).unwrap().streams, 4);
    assert_eq!(opus_channel_layout(6).unwrap().coupled_streams, 2);
}

#[test]
fn opus_layout_rejects_unsupported() {
    for &ch in &[0u16, 3, 4, 5, 7, 9] {
        assert!(matches!(
            opus_channel_layout(ch),
            Err(AudioError::UnsupportedChannels(_))
        ));
    }
}

#[test]
fn audio_error_decoder_variants_display() {
    let err = AudioError::DecoderInit("opus init failed".to_string());
    assert_eq!(
        err.to_string(),
        "audio decoder initialization failed: opus init failed"
    );

    let err = AudioError::DecodeFailed("corrupt packet".to_string());
    assert_eq!(err.to_string(), "audio decoding failed: corrupt packet");
}

#[test]
fn unsupported_channels_display() {
    let err = opus_channel_layout(3).unwrap_err();
    assert!(matches!(err, AudioError::UnsupportedChannels(3)));
    assert!(err.to_string().contains("only 1, 2, 6, or 8 are supported"));
}
