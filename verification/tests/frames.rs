use stargaze::config::Codec;
use stargaze::decode::{DecodeError, FramePixels, FrameStats};
use stargaze::decoder::{
    check_codec, decode_step, decoded_stats, drain_step, needs_new_scaler, packet_stats,
    saturating_us, select_format, supports_device, DecodeAction, DecodeEvent, DrainAction,
    DrainEvent, HardwareConfig, OfferedFormat, PixelKind,
};
use stargaze::frames::{
    can_read_nv12, can_read_yuv, copy_plane, extract_nv12_to_yuv420p, extract_yuv420p,
    plane_stride, Plane,
};
use stargaze::transport::{ReassembledFrame, STREAM_TYPE_VIDEO};

#[test]
fn plane_stride_does_not_panic_on_nv12_two_plane_frame() {
    let strides = [64usize, 64];
    assert_eq!(strides.len(), 2, "NV12 must have exactly 2 planes");
    assert!(plane_stride(&strides, 0) >= 64);
    assert!(plane_stride(&strides, 1) >= 64);
    assert_eq!(plane_stride(&strides, 2), 0);
}

#[test]
fn plane_stride_handles_empty_frame() {
    let strides: [usize; 0] = [];
    assert_eq!(plane_stride(&strides, 0), 0);
    assert_eq!(plane_stride(&strides, 1), 0);
    assert_eq!(plane_stride(&strides, 2), 0);
}

/// NV12 to YUV420P extraction must deinterleave the UV plane correctly
/// and produce planes sized for the visible area (stride stripped).
#[test]
fn extract_nv12_deinterleaves_uv_and_strips_stride() {
    let (w, h) = (64u32, 36u32);
    let stride = 96;
    let y_data = vec![0x11u8; stride * 36];
    // Interleave U=0xAA / V=0x55 in the UV plane.
    let uv_data: Vec<u8> = (0..stride * 18).map(|i| if i % 2 == 0 { 0xAA } else { 0x55 }).collect();
    let y = Plane { data: &y_data, stride };
    let uv = Plane { data: &uv_data, stride };
    assert!(can_read_nv12(&y, &uv, w, h));

    let out = extract_nv12_to_yuv420p(y, uv, w, h, Some(42));
    let (w, h) = (w as usize, h as usize);
    let FramePixels::I420 { y, u, v } = &out.pixels else {
        panic!("expected three planes");
    };
    assert_eq!(y.len(), w * h);
    assert_eq!(u.len(), (w / 2) * (h / 2));
    assert_eq!(v.len(), (w / 2) * (h / 2));
    assert!(y.iter().all(|&b| b == 0x11));
    assert!(u.iter().all(|&b| b == 0xAA));
    assert!(v.iter().all(|&b| b == 0x55));
    assert_eq!(out.pts, 42);
}

#[test]
fn extract_yuv420p_strips_stride() {
    let (w, h) = (64u32, 36u32);
    let (y_data, u_data, v_data) = (vec![1u8; 80 * 36], vec![2u8; 48 * 18], vec![3u8; 48 * 18]);
    let y = Plane { data: &y_data, stride: 80 };
    let u = Plane { data: &u_data, stride: 48 };
    let v = Plane { data: &v_data, stride: 48 };
    assert!(can_read_yuv(&y, &u, &v, w, h));

    let out = extract_yuv420p(y, u, v, w, h, None);
    let (w, h) = (w as usize, h as usize);
    let FramePixels::I420 { y, u, v } = &out.pixels else {
        panic!("expected three planes");
    };
    assert_eq!(y.len(), w * h);
    assert_eq!(u.len(), (w / 2) * (h / 2));
    assert_eq!(v.len(), (w / 2) * (h / 2));
    assert!(u.iter().all(|&b| b == 2));
    assert!(v.iter().all(|&b| b == 3));
    assert_eq!(out.pts, 0);
}

#[test]
fn decoder_init_rejects_av1() {
    match check_codec(Codec::Av1) {
        Err(DecodeError::UnsupportedCodec(_)) => {}
        Err(e) => panic!("Expected UnsupportedCodec, got: {e:?}"),
        Ok(()) => panic!("Expected error for AV1 codec"),
    }
    assert!(check_codec(Codec::H265).is_ok());
}

#[test]
fn rows_are_copied_without_padding() {
    let data = [1, 2, 3, 0, 4, 5, 6, 0, 7, 8, 9];
    assert_eq!(copy_plane(&data, 4, 3, 3), vec![1, 2, 3, 4, 5, 6, 7, 8, 9]);
    assert_eq!(copy_plane(&data, 2, 2, 2), vec![1, 2, 3, 0]);
    assert!(copy_plane(&data, 4, 0, 3).is_empty());
    assert!(copy_plane(&data, 4, 3, 0).is_empty());
}

#[test]
fn odd_sizes_round_the_colours_down() {
    let y_data: Vec<u8> = (0..15).collect();
    let uv_data = [1, 2, 3, 4, 9, 9];
    let y = Plane { data: &y_data, stride: 5 };
    let uv = Plane { data: &uv_data, stride: 6 };
    assert!(can_read_nv12(&y, &uv, 5, 3));
    let out = extract_nv12_to_yuv420p(y, uv, 5, 3, Some(-1));
    let FramePixels::I420 { y, u, v } = &out.pixels else {
        panic!("expected three planes");
    };
    assert_eq!(y, &y_data);
    assert_eq!((u.as_slice(), v.as_slice()), (&[1, 3][..], &[2, 4][..]));
    assert_eq!(out.pts, u64::MAX);
}

#[test]
fn short_planes_are_noticed() {
    let data = [0u8; 11];
    let plane = |stride| Plane { data: &data, stride };
    assert!(can_read_yuv(&plane(4), &plane(4), &plane(4), 3, 3));
    assert!(!can_read_yuv(&plane(4), &plane(4), &plane(4), 4, 3));
    assert!(!can_read_nv12(&plane(usize::MAX), &plane(4), 2, 3));
    assert!(can_read_nv12(&plane(usize::MAX), &plane(4), 2, 1));
}

#[test]
fn times_are_whole_microseconds() {
    assert_eq!(saturating_us(999), 0);
    assert_eq!(saturating_us(1_999), 1);
    assert_eq!(saturating_us(u64::MAX), u32::MAX);
}

#[test]
fn packet_is_measured() {
    let frame = ReassembledFrame {
        data: vec![0; 300],
        pts: 1,
        is_keyframe: false,
        stream_type: STREAM_TYPE_VIDEO,
        capture_us: 1,
        convert_us: 2,
        encode_us: 3,
        received_at: 10_000,
        tainted: false,
    };
    let stats = packet_stats(&frame, 15_999);
    assert_eq!(
        stats,
        FrameStats {
            capture_us: 1,
            convert_us: 2,
            encode_us: 3,
            queue_us: 5,
            decode_us: 0,
            packet_bytes: 300,
        }
    );
    assert_eq!(packet_stats(&frame, 0).queue_us, 0);
    assert_eq!(decoded_stats(stats, 7_000), FrameStats { decode_us: 7, ..stats });
}

#[test]
fn hardware_format_is_preferred() {
    let hardware = |id| OfferedFormat { id, software: false };
    let software = |id| OfferedFormat { id, software: true };
    assert_eq!(select_format(&vec![software(0), hardware(44)], 44), Some(44));
    assert_eq!(select_format(&vec![hardware(1), software(2), software(3)], 44), Some(2));
    assert_eq!(select_format(&vec![hardware(1)], 44), None);
    let config = |via_device, wanted_device| HardwareConfig { via_device, wanted_device };
    assert!(supports_device(&vec![config(false, true), config(true, true)]));
    assert!(!supports_device(&vec![config(false, true), config(true, false)]));
}

#[test]
fn decode_loop_goes_through_every_packet() {
    assert_eq!(decode_step(DecodeEvent::Packet), DecodeAction::Feed);
    assert_eq!(decode_step(DecodeEvent::Accepted), DecodeAction::Drain);
    assert_eq!(decode_step(DecodeEvent::Refused), DecodeAction::Wait);
    assert_eq!(decode_step(DecodeEvent::Drained), DecodeAction::Wait);
    assert_eq!(decode_step(DecodeEvent::Shutdown), DecodeAction::SendEnd);
    assert_eq!(decode_step(DecodeEvent::Closed), DecodeAction::SendEnd);
    assert_eq!(decode_step(DecodeEvent::EndAccepted), DecodeAction::Flush);
    assert_eq!(decode_step(DecodeEvent::EndRefused), DecodeAction::Finish);
    assert_eq!(decode_step(DecodeEvent::Flushed), DecodeAction::Finish);
}

#[test]
fn frames_are_drained_by_format() {
    assert_eq!(drain_step(true, DrainEvent::Frame(PixelKind::Vaapi)), DrainAction::Transfer);
    assert_eq!(drain_step(false, DrainEvent::Frame(PixelKind::Vaapi)), DrainAction::Scale);
    assert_eq!(drain_step(true, DrainEvent::Transferred(PixelKind::Nv12)), DrainAction::ExtractNv12);
    assert_eq!(drain_step(false, DrainEvent::Frame(PixelKind::Yuv420p)), DrainAction::ExtractYuv420p);
    assert_eq!(drain_step(false, DrainEvent::Frame(PixelKind::Other)), DrainAction::Scale);
    assert_eq!(drain_step(false, DrainEvent::Scaled), DrainAction::ExtractYuv420p);
    assert_eq!(drain_step(false, DrainEvent::ScaleFailed), DrainAction::Fail);
    assert_eq!(drain_step(true, DrainEvent::TransferFailed), DrainAction::Receive);
    assert_eq!(drain_step(true, DrainEvent::Sent), DrainAction::Receive);
    for event in [DrainEvent::Empty, DrainEvent::Failed, DrainEvent::ReceiverGone] {
        assert_eq!(drain_step(true, event), DrainAction::Finish);
    }
    assert!(needs_new_scaler(None, 1, 2));
    assert!(needs_new_scaler(Some((1, 3)), 1, 2));
    assert!(!needs_new_scaler(Some((1, 2)), 1, 2));
}
