use stargaze::capture::{CaptureError, DmaBufInfo, Frame, PixelFormat};

#[test]
fn test_capture_error_display_portal() {
    let err = CaptureError::PortalError("dbus connection refused".to_string());
    assert_eq!(
        err.to_string(),
        "Portal session failed: dbus connection refused"
    );
}

#[test]
fn test_capture_error_display_pipewire() {
    let err = CaptureError::PipeWireError("failed to connect".to_string());
    assert_eq!(err.to_string(), "PipeWire error: failed to connect");
}

#[test]
fn test_capture_error_display_negotiation() {
    let err = CaptureError::NegotiationError("no supported format".to_string());
    assert_eq!(
        err.to_string(),
        "Buffer format negotiation failed: no supported format"
    );
}

#[test]
fn test_capture_error_display_stream_ended() {
    let err = CaptureError::StreamEnded;
    assert_eq!(err.to_string(), "Capture stream ended unexpectedly");
}

#[test]
fn test_pixel_format_display() {
    assert_eq!(PixelFormat::Bgra8.to_string(), "BGRA8");
    assert_eq!(PixelFormat::Rgba8.to_string(), "RGBA8");
    assert_eq!(PixelFormat::Nv12.to_string(), "NV12");
}

#[test]
fn test_frame_cpu_mapped_construction() {
    let data = vec![0u8; 1920 * 1080 * 4];
    let frame = Frame::CpuMapped {
        data,
        width: 1920,
        height: 1080,
        stride: 1920 * 4,
        format: PixelFormat::Bgra8,
    };

    match &frame {
        Frame::CpuMapped {
            width,
            height,
            stride,
            format,
            data,
        } => {
            assert_eq!(*width, 1920);
            assert_eq!(*height, 1080);
            assert_eq!(*stride, 1920 * 4);
            assert_eq!(*format, PixelFormat::Bgra8);
            assert_eq!(data.len(), 1920 * 1080 * 4);
        }
        Frame::DmaBuf(_) => panic!("expected CpuMapped variant"),
    }
}

#[test]
fn dmabuf_info_display_names_every_field() {
    let info = DmaBufInfo {
        fd: 7,
        width: 1920,
        height: 1080,
        format: PixelFormat::Bgra8,
        modifier: 0,
        stride: 1920 * 4,
        offset: 0,
    };
    let text = info.to_string();
    assert!(text.contains("width: 1920"), "{text}");
    assert!(text.contains("height: 1080"), "{text}");
}
