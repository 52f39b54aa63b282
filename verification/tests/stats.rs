use stargaze::decode::{FramePixels, FrameStats};
use stargaze::net::NetStats;
use stargaze::presentation::{needs_texture, pick_frame_at, texture_layout, TextureLayout};
use stargaze::stats::{
    worst_range, Metric, OverlayNumbers, RateText, ReportMeta, ReportNumbers, StatsOverlay,
    StatsRecorder, SummaryText, SECOND, TEXT_REFRESH, WINDOW,
};

fn stats(capture_us: u32, encode_us: u32, queue_us: u32, decode_us: u32) -> FrameStats {
    FrameStats {
        capture_us,
        convert_us: 1_000,
        encode_us,
        queue_us,
        decode_us,
        packet_bytes: 50_000,
    }
}

fn net(bytes: u64, frames: u64, dropped: u64) -> NetStats {
    NetStats {
        video_bytes: bytes,
        video_frames: frames,
        video_dropped: dropped,
    }
}

/// Writes the numbers of the overlay out and makes its text.
fn overlay_text(overlay: &mut StatsOverlay, rtt_ms: f64, video: &str, net: &NetStats) -> String {
    let now = overlay.now();
    if overlay.needs_refresh_at(now) {
        let figures = overlay.figures_at(net, now);
        let avg = |sum: u64| format!("{:.1}", sum as f64 / figures.frames as f64 / 1000.0);
        let numbers = OverlayNumbers {
            recv_fps: format!(
                "{:.1}",
                figures.received.map_or(0.0, |r| r.frames as f64 / (r.span as f64 / 1e9))
            ),
            render_fps: format!(
                "{:.1}",
                figures.presented.map_or(0.0, |p| p.frames as f64 / (p.span as f64 / 1e9))
            ),
            mbps: format!(
                "{:.1}",
                figures
                    .received
                    .map_or(0.0, |r| r.bytes as f64 * 8.0 / (r.span as f64 / 1e9) / 1_000_000.0)
            ),
            capture_ms: avg(figures.capture_us),
            convert_ms: avg(figures.convert_us),
            encode_ms: avg(figures.encode_us),
            rtt_ms: format!("{rtt_ms:.1}"),
            queue_ms: avg(figures.queue_us),
            decode_ms: avg(figures.decode_us),
        };
        overlay.refresh_at(video, net, &numbers, now);
    }
    overlay.text().to_string()
}

fn numbers(text: &str) -> OverlayNumbers {
    OverlayNumbers {
        recv_fps: text.to_string(),
        render_fps: text.to_string(),
        mbps: text.to_string(),
        capture_ms: text.to_string(),
        convert_ms: text.to_string(),
        encode_ms: text.to_string(),
        rtt_ms: text.to_string(),
        queue_ms: text.to_string(),
        decode_ms: text.to_string(),
    }
}

fn summary() -> SummaryText {
    SummaryText {
        avg: "1.00".to_string(),
        min: "2.00".to_string(),
        max: "3.00".to_string(),
        std: "4.00".to_string(),
        worst5: "5.00".to_string(),
    }
}

fn report_numbers(rates: Option<RateText>) -> ReportNumbers {
    ReportNumbers {
        duration: "12.3".to_string(),
        rates,
        capture: summary(),
        convert: summary(),
        encode: summary(),
        queue: summary(),
        decode: summary(),
        size: summary(),
        fps: summary(),
    }
}

#[test]
fn overlay_text_contains_all_sections() {
    let mut overlay = StatsOverlay::new();
    for _ in 0..10 {
        overlay.on_frame_rendered(stats(2_000, 3_000, 1_000, 4_000));
    }
    overlay.on_frames_dropped(3);

    let net = net(1_000_000, 60, 7);
    let text = overlay_text(&mut overlay, 5.0, "1920x1080", &net);
    assert!(text.contains("VIDEO"), "missing video line: {text}");
    assert!(text.contains("1920x1080"));
    assert!(text.contains("HOST"));
    assert!(text.contains("capture 2.0 / convert 1.0 / encode 3.0 ms"));
    assert!(text.contains("rtt 5.0 ms"));
    assert!(text.contains("7 dropped"));
    assert!(text.contains("queue 1.0 ms"));
    assert!(text.contains("decode 4.0 ms"));
    assert!(text.contains("10 rendered / 3 superseded"));
}

#[test]
fn overlay_window_is_bounded() {
    let mut overlay = StatsOverlay::new();
    for _ in 0..(WINDOW + 50) {
        overlay.on_frame_rendered(stats(1, 1, 1, 1));
    }
    assert_eq!(overlay.window_len(), WINDOW);
    assert_eq!(overlay.rendered(), (WINDOW + 50) as u64);
}

#[test]
fn overlay_text_handles_empty_window() {
    let mut overlay = StatsOverlay::new();
    let n = net(0, 0, 0);
    let text = overlay_text(&mut overlay, 0.0, "0x0", &n);
    assert!(text.contains("VIDEO"));
    assert!(text.contains("0.0"));
}

#[test]
fn report_contains_all_metrics() {
    let mut recorder = StatsRecorder::new();
    for i in 0..50u32 {
        recorder.record(stats(2_000 + i, 3_000, 1_000, 4_000));
    }
    let n = net(10_000_000, 60, 5);
    let meta = ReportMeta {
        video: "3440x1440".to_string(),
        server_command: "stargaze-server --preset p1".to_string(),
        client_command: "stargaze-client --fullscreen true".to_string(),
    };
    let rates = RateText {
        received_fps: "60.0".to_string(),
        decoded_fps: "50.0".to_string(),
        mbps: "80.00".to_string(),
    };
    let report = recorder.report_text(&meta, 45, 5, &n, &report_numbers(Some(rates)));

    assert!(report.contains("Stargaze client session report"));
    assert!(report.contains("video:             3440x1440"));
    assert!(report.contains("server command:    stargaze-server --preset p1"));
    assert!(report.contains("client command:    stargaze-client --fullscreen true"));
    assert!(report.contains("frames received:   60"));
    assert!(report.contains("frames decoded:    50"));
    assert!(report.contains("frames rendered:   45"));
    assert!(report.contains("dropped (decoder backpressure): 5"));
    assert!(report.contains("capture ms"));
    assert!(report.contains("convert ms"));
    assert!(report.contains("encode ms"));
    assert!(report.contains("queue ms"));
    assert!(report.contains("decode ms"));
    assert!(report.contains("frame KiB"));
    assert!(report.contains("worst 5%"));
}

#[test]
fn fps_buckets_are_robust_to_bursty_arrivals() {
    let mut recorder = StatsRecorder::new();
    let t0 = 7 * SECOND + 123;
    // 3 full seconds at 30 fps, but delivered in bursts: all 30
    // frames of each second arrive within the same millisecond.
    for sec in 0..3u64 {
        for i in 0..30u64 {
            recorder.record_at(stats(1, 1, 1, 1), t0 + sec * SECOND + i * 30 * 1_000);
        }
    }
    // A trailing partial second that must be discarded.
    recorder.record_at(stats(1, 1, 1, 1), t0 + 3 * SECOND);
    recorder.record_at(stats(1, 1, 1, 1), t0 + 3 * SECOND + 100_000_000);

    let buckets = recorder.fps_buckets();
    assert_eq!(buckets.len(), 3);
    // Each full bucket holds ~30 frames; no million-fps outliers.
    for b in &buckets {
        assert!((29.0..=31.0).contains(&(*b as f64)), "bucket out of range: {b}");
    }
    let max = buckets.iter().copied().max().unwrap();
    assert!(max <= 31, "max fps must stay sane, got {max}");
}

#[test]
fn report_is_laid_out_exactly() {
    let mut recorder = StatsRecorder::new();
    let meta = ReportMeta {
        video: "1x1".to_string(),
        server_command: "s".to_string(),
        client_command: "c".to_string(),
    };
    let head = "Stargaze client session report\n\
                ==============================\n\
                video:             1x1\n\
                server command:    s\n\
                client command:    c\n\
                duration:          12.3 s\n\
                frames rendered:   1\n\
                dropped (decoder backpressure): 4\n\
                superseded (render kept newer): 2\n\
                \n\
                metric               avg       min       max       std  worst 5%\n";
    let report = recorder.report_text(&meta, 1, 2, &net(0, 0, 4), &report_numbers(None));
    assert_eq!(report, head);

    recorder.record_at(stats(1, 2, 3, 4), 0);
    recorder.record_at(stats(1, 2, 3, 4), SECOND);
    let report = recorder.report_text(&meta, 1, 2, &net(0, 0, 4), &report_numbers(None));
    let row = "          1.00      2.00      3.00      4.00      5.00\n";
    let rows: Vec<String> = [
        "capture ms",
        "convert ms",
        "encode ms ",
        "queue ms  ",
        "decode ms ",
        "frame KiB ",
    ]
    .iter()
    .map(|name| format!("{name}{row}"))
    .collect();
    let fps = "fps (per sec)       1.00      2.00      3.00      4.00      5.00\n";
    assert_eq!(report, format!("{head}{}{fps}", rows.concat()));
}

#[test]
fn overlay_text_is_refreshed_in_time() {
    let mut overlay = StatsOverlay::new();
    assert!(overlay.needs_refresh_at(0));
    overlay.refresh_at("1x1", &net(0, 0, 0), &numbers("0.0"), 1_000);
    assert!(!overlay.needs_refresh_at(1_000 + TEXT_REFRESH - 1));
    assert!(overlay.needs_refresh_at(1_000 + TEXT_REFRESH));
    assert_eq!(
        overlay.text(),
        "VIDEO   1x1 (recv 0.0 fps / render 0.0 fps)\n\
         BITRATE 0.0 Mbps\n\
         HOST    capture 0.0 / convert 0.0 / encode 0.0 ms\n\
         NETWORK rtt 0.0 ms / 0 dropped\n\
         CLIENT  queue 0.0 ms / decode 0.0 ms\n\
         FRAMES  0 rendered / 0 superseded"
    );
    assert!(!overlay.visible());
    overlay.set_visible(true);
    assert!(overlay.visible());
}

#[test]
fn figures_are_sums_and_spans() {
    let mut overlay = StatsOverlay::new();
    overlay.on_frame_rendered_at(stats(10, 20, 30, 40), 1_000);
    let figures = overlay.figures_at(&net(0, 0, 0), 2_000);
    assert_eq!(figures.frames, 1);
    assert!(figures.received.is_none());
    assert!(figures.presented.is_none());
    overlay.refresh_at("1x1", &net(100, 5, 0), &numbers("0"), 2_000);
    overlay.on_frame_rendered_at(stats(1, 2, 3, 4), 4_000);
    let figures = overlay.figures_at(&net(160, 8, 0), 2_500);
    assert_eq!(figures.frames, 2);
    assert_eq!(
        (figures.capture_us, figures.convert_us, figures.encode_us),
        (11, 2_000, 22)
    );
    assert_eq!((figures.queue_us, figures.decode_us), (33, 44));
    let received = figures.received.unwrap();
    assert_eq!((received.frames, received.bytes, received.span), (3, 60, 500));
    let presented = figures.presented.unwrap();
    assert_eq!((presented.frames, presented.span), (1, 3_000));
    // No time has passed: no rate can be told.
    assert!(overlay.figures_at(&net(160, 8, 0), 2_000).received.is_none());
}

#[test]
fn recorded_values_by_metric() {
    let mut recorder = StatsRecorder::new();
    recorder.record_at(stats(1, 2, 3, 4), 0);
    recorder.record_at(stats(5, 6, 7, 8), 1);
    assert_eq!(recorder.decoded(), 2);
    assert_eq!(recorder.values(Metric::Capture), vec![1, 5]);
    assert_eq!(recorder.values(Metric::Convert), vec![1_000, 1_000]);
    assert_eq!(recorder.values(Metric::Encode), vec![2, 6]);
    assert_eq!(recorder.values(Metric::Queue), vec![3, 7]);
    assert_eq!(recorder.values(Metric::Decode), vec![4, 8]);
    assert_eq!(recorder.values(Metric::Size), vec![50_000, 50_000]);
    assert!(recorder.fps_buckets().is_empty());
    let now = recorder.now();
    assert!(recorder.lasted_at(now) <= now);
}

#[test]
fn worst_twentieth_has_at_least_one_value() {
    assert_eq!(worst_range(1, true), (0, 1));
    assert_eq!(worst_range(20, true), (19, 20));
    assert_eq!(worst_range(21, true), (19, 21));
    assert_eq!(worst_range(21, false), (0, 2));
}

#[test]
fn newest_frame_is_shown() {
    let mut overlay = StatsOverlay::new();
    let mut recorder = StatsRecorder::new();
    assert_eq!(pick_frame_at(&mut overlay, &mut recorder, &Vec::new(), 0), None);
    let frames = vec![stats(1, 1, 1, 1), stats(2, 2, 2, 2), stats(3, 3, 3, 3)];
    assert_eq!(pick_frame_at(&mut overlay, &mut recorder, &frames, 5), Some(2));
    assert_eq!(overlay.superseded(), 2);
    assert_eq!(recorder.values(Metric::Capture), vec![1, 2, 3]);
}

#[test]
fn texture_follows_the_layout() {
    let nv12 = texture_layout(&FramePixels::Nv12 { y: Vec::new(), uv: Vec::new() });
    let i420 = texture_layout(&FramePixels::I420 { y: Vec::new(), u: Vec::new(), v: Vec::new() });
    assert_eq!((nv12, i420), (TextureLayout::Nv12, TextureLayout::I420));
    assert!(needs_texture(None, nv12));
    assert!(needs_texture(Some(i420), nv12));
    assert!(!needs_texture(Some(nv12), nv12));
}
