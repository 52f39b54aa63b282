//! What the measurements, pictures and sounds of a session are.
use crate::audio::{channel_mapping, coupled_count, supported_channels};
use crate::avlog::{finished_lines, unfinished_line};
use crate::decode::FrameStats;
use crate::decoder::{
    decode_next, drain_next, first_software, micros, stats_of, DecodeAction, DecodeEvent,
    DrainAction, DrainEvent, OfferedFormat, PixelKind,
};
use crate::frames::{gathered, nv12_picture, stream_pts, yuv_picture, Plane};
use crate::gl::{attributes_of, DrmFrame, ImportMode, PlaneInfo};
use crate::input::evdev_code;
use crate::net::NetStats;
use crate::overlay::{dot_set, is_lit, overlay_height, overlay_pixel, overlay_width, widest};
use crate::presentation::{passed_over, recorded};
use crate::stats::{
    buckets, in_second, overlay_text, report_head, report_table, total, with_line, with_row,
    with_summary, Metric, OverlayNumbers, OverlayView, RecordView, ReportMeta, ReportNumbers,
    Sample, SummaryText,
};
use crate::text::{
    byte_len, decimal, has_text, lemma_find_char, lemma_find_char_at, lines, occurs_at, trim_end,
};
use crate::transport::FrameView;
use vstd::prelude::*;

verus! {

/// A frame that is shown adds its own measurements to the sums of the overlay,
/// each to its own, while the window fills.
pub proof fn law_sums_grow_by_the_frame(v: OverlayView, stats: FrameStats, net: NetStats, now: u64)
    requires
        v.samples.len() < 120,
    ensures
        ({
            let after = v.frame_rendered(stats, now).samples;
            &&& after.len() == v.samples.len() + 1
            &&& total(after, Metric::Capture) == total(v.samples, Metric::Capture)
                + stats.capture_us
            &&& total(after, Metric::Convert) == total(v.samples, Metric::Convert)
                + stats.convert_us
            &&& total(after, Metric::Encode) == total(v.samples, Metric::Encode)
                + stats.encode_us
            &&& total(after, Metric::Queue) == total(v.samples, Metric::Queue) + stats.queue_us
            &&& total(after, Metric::Decode) == total(v.samples, Metric::Decode)
                + stats.decode_us
            &&& total(after, Metric::Size) == total(v.samples, Metric::Size)
                + stats.packet_bytes
            &&& total(Seq::<Sample>::empty(), Metric::Capture) == 0
        }),
{
    let after = v.frame_rendered(stats, now).samples;
    assert(after.drop_last() =~= v.samples);
    assert(after.last() == Sample { stats, rendered_at: now });
}

/// A full window forgets its oldest frame for a new one and stays full.
pub proof fn law_full_window_stays_full(v: OverlayView, stats: FrameStats, now: u64)
    requires
        v.samples.len() == 120,
    ensures
        v.frame_rendered(stats, now).samples.len() == 120,
        v.frame_rendered(stats, now).samples.last() == (Sample { stats, rendered_at: now }),
        v.frame_rendered(stats, now).samples[0] == v.samples[1],
{
}

/// The overlay shows the sums of its window, the number of frames in it, and
/// the time from the first of them to the last.
pub proof fn law_figures_are_of_the_window(v: OverlayView, net: NetStats, now: u64)
    requires
        2 <= v.samples.len() <= 120,
        v.samples[0].rendered_at < v.samples.last().rendered_at,
        forall|m: Metric| 0 <= #[trigger] total(v.samples, m) <= u64::MAX,
    ensures
        ({
            let f = v.figures(net, now);
            &&& f.frames == v.samples.len()
            &&& f.capture_us == total(v.samples, Metric::Capture)
            &&& f.convert_us == total(v.samples, Metric::Convert)
            &&& f.encode_us == total(v.samples, Metric::Encode)
            &&& f.queue_us == total(v.samples, Metric::Queue)
            &&& f.decode_us == total(v.samples, Metric::Decode)
            &&& f.presented matches Some(p) && p.frames == v.samples.len() - 1 && p.span
                == v.samples.last().rendered_at - v.samples[0].rendered_at
        }),
{
}

/// What was received between two refreshes is the difference of the counters,
/// over the time between them.
pub proof fn law_received_between_refreshes(
    v: OverlayView,
    video: Seq<char>,
    n: OverlayNumbers,
    first: NetStats,
    second: NetStats,
    at: u64,
    now: u64,
)
    requires
        at < now,
        first.video_frames <= second.video_frames,
        first.video_bytes <= second.video_bytes,
    ensures
        v.refreshed(video, first, n, at).figures(second, now).received matches Some(r) && r.frames
            == second.video_frames - first.video_frames && r.bytes == second.video_bytes
            - first.video_bytes && r.span == now - at,
        v.last_net is None ==> v.figures(second, now).received is None,
{
}

/// The text is made anew half a second after it was made, and not before.
pub proof fn law_text_lasts_half_a_second(
    v: OverlayView,
    video: Seq<char>,
    n: OverlayNumbers,
    net: NetStats,
    at: u64,
    now: u64,
)
    requires
        at <= now,
    ensures
        v.text.len() == 0 ==> v.stale(now),
        v.refreshed(video, net, n, at).text.len() > 0 ==> (v.refreshed(video, net, n, at).stale(now)
            <==> now - at >= 500_000_000),
        v.refreshed(video, net, n, at).samples == v.samples,
        v.refreshed(video, net, n, at).rendered == v.rendered,
        v.refreshed(video, net, n, at).superseded == v.superseded,
{
}

/// A text that occurs still occurs when more follows.
pub proof fn lemma_has_text_add(s: Seq<char>, part: Seq<char>, more: Seq<char>)
    requires
        has_text(s, part),
    ensures
        has_text(s + more, part),
{
    let at = choose|at: int| #[trigger] occurs_at(s, part, at);
    assert((s + more).subrange(at, at + part.len()) =~= part);
    assert(occurs_at(s + more, part, at));
}

/// A text occurs at its own end.
pub proof fn lemma_has_text_end(head: Seq<char>, part: Seq<char>)
    ensures
        has_text(head + part, part),
{
    assert((head + part).subrange(head.len() as int, (head + part).len() as int) =~= part);
    assert(occurs_at(head + part, part, head.len() as int));
}

/// How a text is put together does not matter.
proof fn lemma_sums(
    h: Seq<char>,
    a: Seq<char>,
    b: Seq<char>,
    c: Seq<char>,
    d: Seq<char>,
    e: Seq<char>,
)
    ensures
        h + a + b + c == h + (a + b + c),
        h + a + b + c + d == h + (a + b + c + d),
        h + a + b + c + d + e == h + (a + b + c + d + e),
{
    assert(h + a + b + c =~= h + (a + b + c));
    assert(h + a + b + c + d =~= h + (a + b + c + d));
    assert(h + a + b + c + d + e =~= h + (a + b + c + d + e));
}

/// The overlay tells each number where its name stands: what was received and
/// rendered per second, the bitrate, the stages of host, network and client,
/// and the counts of frames.
pub proof fn law_overlay_names_its_numbers(
    video: Seq<char>,
    n: OverlayNumbers,
    dropped: u64,
    rendered: u64,
    superseded: u64,
)
    ensures
        ({
            let text = overlay_text(video, n, dropped, rendered, superseded);
            &&& has_text(
                text,
                "VIDEO   "@ + video + " (recv "@ + n.recv_fps@ + " fps / render "@ + n.render_fps@,
            )
            &&& has_text(text, " fps)\nBITRATE "@ + n.mbps@ + " Mbps\nHOST    capture "@)
            &&& has_text(
                text,
                " Mbps\nHOST    capture "@ + n.capture_ms@ + " / convert "@ + n.convert_ms@
                    + " / encode "@ + n.encode_ms@,
            )
            &&& has_text(
                text,
                " ms\nNETWORK rtt "@ + n.rtt_ms@ + " ms / "@ + decimal(dropped as nat),
            )
            &&& has_text(
                text,
                " dropped\nCLIENT  queue "@ + n.queue_ms@ + " ms / decode "@ + n.decode_ms@,
            )
            &&& has_text(
                text,
                " ms\nFRAMES  "@ + decimal(rendered as nat) + " rendered / "@ + decimal(
                    superseded as nat,
                ) + " superseded"@,
            )
        }),
{
    let e = Seq::<char>::empty();
    let t1 = "VIDEO   "@ + video + " (recv "@ + n.recv_fps@ + " fps / render "@ + n.render_fps@;
    let p2 = " fps)\nBITRATE "@ + n.mbps@ + " Mbps\nHOST    capture "@;
    let h2 = t1 + " fps)\nBITRATE "@ + n.mbps@;
    let t2 = h2 + " Mbps\nHOST    capture "@;
    let p3 = " Mbps\nHOST    capture "@ + n.capture_ms@ + " / convert "@ + n.convert_ms@
        + " / encode "@ + n.encode_ms@;
    let t3 = t2 + n.capture_ms@ + " / convert "@ + n.convert_ms@ + " / encode "@ + n.encode_ms@;
    let p4 = " ms\nNETWORK rtt "@ + n.rtt_ms@ + " ms / "@ + decimal(dropped as nat);
    let t4 = t3 + " ms\nNETWORK rtt "@ + n.rtt_ms@ + " ms / "@ + decimal(dropped as nat);
    let p5 = " dropped\nCLIENT  queue "@ + n.queue_ms@ + " ms / decode "@ + n.decode_ms@;
    let t5 = t4 + " dropped\nCLIENT  queue "@ + n.queue_ms@ + " ms / decode "@ + n.decode_ms@;
    let p6 = " ms\nFRAMES  "@ + decimal(rendered as nat) + " rendered / "@ + decimal(
        superseded as nat,
    ) + " superseded"@;
    let t6 = t5 + " ms\nFRAMES  "@ + decimal(rendered as nat) + " rendered / "@ + decimal(
        superseded as nat,
    ) + " superseded"@;
    assert(t6 == overlay_text(video, n, dropped, rendered, superseded));
    let done = n.capture_ms@ + " / convert "@ + n.convert_ms@ + " / encode "@ + n.encode_ms@;
    assert(e + t1 =~= t1);
    lemma_has_text_end(e, t1);
    lemma_sums(t1, " fps)\nBITRATE "@, n.mbps@, " Mbps\nHOST    capture "@, e, e);
    lemma_sums(
        t2,
        n.capture_ms@,
        " / convert "@,
        n.convert_ms@,
        " / encode "@,
        n.encode_ms@,
    );
    lemma_sums(
        " Mbps\nHOST    capture "@,
        n.capture_ms@,
        " / convert "@,
        n.convert_ms@,
        " / encode "@,
        n.encode_ms@,
    );
    lemma_sums(t3, " ms\nNETWORK rtt "@, n.rtt_ms@, " ms / "@, decimal(dropped as nat), e);
    lemma_sums(
        t4,
        " dropped\nCLIENT  queue "@,
        n.queue_ms@,
        " ms / decode "@,
        n.decode_ms@,
        e,
    );
    lemma_sums(
        t5,
        " ms\nFRAMES  "@,
        decimal(rendered as nat),
        " rendered / "@,
        decimal(superseded as nat),
        " superseded"@,
    );
    assert(t2 == t1 + p2);
    lemma_has_text_end(t1, p2);
    assert(t3 == t2 + done);
    assert(p3 == " Mbps\nHOST    capture "@ + done);
    assert(t3 == h2 + p3) by {
        assert(h2 + " Mbps\nHOST    capture "@ + done =~= h2 + (" Mbps\nHOST    capture "@ + done));
    }
    lemma_has_text_end(h2, p3);
    assert(t4 == t3 + p4);
    lemma_has_text_end(t3, p4);
    assert(t5 == t4 + p5);
    lemma_has_text_end(t4, p5);
    assert(t6 == t5 + p6);
    lemma_has_text_end(t5, p6);
    lemma_has_text_add(t1, t1, p2);
    lemma_has_text_add(t2, t1, done);
    lemma_has_text_add(t2, p2, done);
    lemma_has_text_add(t3, t1, p4);
    lemma_has_text_add(t3, p2, p4);
    lemma_has_text_add(t3, p3, p4);
    lemma_has_text_add(t4, t1, p5);
    lemma_has_text_add(t4, p2, p5);
    lemma_has_text_add(t4, p3, p5);
    lemma_has_text_add(t4, p4, p5);
    lemma_has_text_add(t5, t1, p6);
    lemma_has_text_add(t5, p2, p6);
    lemma_has_text_add(t5, p3, p6);
    lemma_has_text_add(t5, p4, p6);
    lemma_has_text_add(t5, p5, p6);
}

proof fn lemma_line(out: Seq<char>, label: Seq<char>, value: Seq<char>)
    ensures
        has_text(with_line(out, label, value), label + value + "\n"@),
        forall|part: Seq<char>|
            has_text(out, part) ==> #[trigger] has_text(with_line(out, label, value), part),
{
    assert(with_line(out, label, value) =~= out + (label + value + "\n"@));
    lemma_has_text_end(out, label + value + "\n"@);
    assert forall|part: Seq<char>| has_text(out, part) implies #[trigger] has_text(
        with_line(out, label, value),
        part,
    ) by {
        lemma_has_text_add(out, part, label + value + "\n"@);
    }
}

/// The report tells what the session was and counts its frames, each number
/// behind its own name.
pub proof fn law_report_names_its_numbers(
    meta: ReportMeta,
    decoded: nat,
    rendered: u64,
    superseded: u64,
    net: NetStats,
    n: ReportNumbers,
)
    ensures
        ({
            let text = report_head(meta, decoded, rendered, superseded, net, n);
            &&& has_text(text, "video:             "@ + meta.video@ + "\n"@)
            &&& has_text(text, "server command:    "@ + meta.server_command@ + "\n"@)
            &&& has_text(text, "client command:    "@ + meta.client_command@ + "\n"@)
            &&& has_text(text, "duration:          "@ + (n.duration@ + " s"@) + "\n"@)
            &&& has_text(text, "frames rendered:   "@ + decimal(rendered as nat) + "\n"@)
            &&& has_text(
                text,
                "dropped (decoder backpressure): "@ + decimal(net.video_dropped as nat) + "\n"@,
            )
            &&& has_text(
                text,
                "superseded (render kept newer): "@ + decimal(superseded as nat) + "\n"@,
            )
            &&& n.rates matches Some(r) ==> {
                &&& has_text(
                    text,
                    "frames received:   "@ + (decimal(net.video_frames as nat) + " ("@
                        + r.received_fps@ + " fps on the wire)"@) + "\n"@,
                )
                &&& has_text(
                    text,
                    "frames decoded:    "@ + (decimal(decoded) + " ("@ + r.decoded_fps@ + " fps)"@)
                        + "\n"@,
                )
                &&& has_text(text, "avg bitrate:       "@ + (r.mbps@ + " Mbps"@) + "\n"@)
            }
        }),
{
    let a = with_line(seq![], "Stargaze client session report"@, seq![]);
    let b = with_line(a, "=============================="@, seq![]);
    let c = with_line(b, "video:             "@, meta.video@);
    lemma_line(b, "video:             "@, meta.video@);
    let d = with_line(c, "server command:    "@, meta.server_command@);
    lemma_line(c, "server command:    "@, meta.server_command@);
    let e = with_line(d, "client command:    "@, meta.client_command@);
    lemma_line(d, "client command:    "@, meta.client_command@);
    let f = with_line(e, "duration:          "@, n.duration@ + " s"@);
    lemma_line(e, "duration:          "@, n.duration@ + " s"@);
    let g = match n.rates {
        Some(r) => {
            let received = decimal(net.video_frames as nat) + " ("@ + r.received_fps@
                + " fps on the wire)"@;
            let g1 = with_line(f, "frames received:   "@, received);
            let made = decimal(decoded) + " ("@ + r.decoded_fps@ + " fps)"@;
            let g2 = with_line(g1, "frames decoded:    "@, made);
            lemma_line(f, "frames received:   "@, received);
            lemma_line(g1, "frames decoded:    "@, made);
            lemma_line(g2, "avg bitrate:       "@, r.mbps@ + " Mbps"@);
            with_line(g2, "avg bitrate:       "@, r.mbps@ + " Mbps"@)
        },
        None => f,
    };
    let h = with_line(g, "frames rendered:   "@, decimal(rendered as nat));
    lemma_line(g, "frames rendered:   "@, decimal(rendered as nat));
    let i = with_line(h, "dropped (decoder backpressure): "@, decimal(net.video_dropped as nat));
    lemma_line(h, "dropped (decoder backpressure): "@, decimal(net.video_dropped as nat));
    let j = with_line(i, "superseded (render kept newer): "@, decimal(superseded as nat));
    lemma_line(i, "superseded (render kept newer): "@, decimal(superseded as nat));
    lemma_line(j, seq![], seq![]);
}

/// One row of the table for itself.
pub open spec fn row_of(name: Seq<char>, s: SummaryText) -> Seq<char> {
    with_row(Seq::empty(), name, s.avg@, s.min@, s.max@, s.std@, s.worst5@)
}

proof fn lemma_row(
    out: Seq<char>,
    name: Seq<char>,
    avg: Seq<char>,
    min: Seq<char>,
    max: Seq<char>,
    std: Seq<char>,
    worst5: Seq<char>,
)
    ensures
        with_row(out, name, avg, min, max, std, worst5) == out + with_row(
            Seq::empty(),
            name,
            avg,
            min,
            max,
            std,
            worst5,
        ),
        has_text(
            with_row(out, name, avg, min, max, std, worst5),
            with_row(Seq::empty(), name, avg, min, max, std, worst5),
        ),
        forall|part: Seq<char>|
            has_text(out, part) ==> #[trigger] has_text(
                with_row(out, name, avg, min, max, std, worst5),
                part,
            ),
{
    let one = with_row(Seq::empty(), name, avg, min, max, std, worst5);
    assert(with_row(out, name, avg, min, max, std, worst5) =~= out + one);
    lemma_has_text_end(out, one);
    assert forall|part: Seq<char>| has_text(out, part) implies #[trigger] has_text(
        with_row(out, name, avg, min, max, std, worst5),
        part,
    ) by {
        lemma_has_text_add(out, part, one);
    }
}

/// The table has a row for each measurement, with the numbers of that
/// measurement under the names of the columns.
pub proof fn law_table_has_its_rows(out: Seq<char>, n: ReportNumbers)
    ensures
        ({
            let text = report_table(out, true, true, n);
            &&& has_text(text, row_of("capture ms"@, n.capture))
            &&& has_text(text, row_of("convert ms"@, n.convert))
            &&& has_text(text, row_of("encode ms"@, n.encode))
            &&& has_text(text, row_of("queue ms"@, n.queue))
            &&& has_text(text, row_of("decode ms"@, n.decode))
            &&& has_text(text, row_of("frame KiB"@, n.size))
            &&& has_text(text, row_of("fps (per sec)"@, n.fps))
            &&& has_text(
                text,
                with_row(
                    Seq::empty(),
                    "metric"@,
                    "avg"@,
                    "min"@,
                    "max"@,
                    "std"@,
                    "worst 5%"@,
                ),
            )
        }),
{
    let a = with_row(out, "metric"@, "avg"@, "min"@, "max"@, "std"@, "worst 5%"@);
    lemma_row(out, "metric"@, "avg"@, "min"@, "max"@, "std"@, "worst 5%"@);
    let b = lemma_summary(a, "capture ms"@, n.capture);
    let c = lemma_summary(b, "convert ms"@, n.convert);
    let d = lemma_summary(c, "encode ms"@, n.encode);
    let e = lemma_summary(d, "queue ms"@, n.queue);
    let f = lemma_summary(e, "decode ms"@, n.decode);
    let g = lemma_summary(f, "frame KiB"@, n.size);
    let h = lemma_summary(g, "fps (per sec)"@, n.fps);
}

proof fn lemma_summary(out: Seq<char>, name: Seq<char>, s: SummaryText) -> (after: Seq<char>)
    ensures
        after == with_summary(out, name, s),
        has_text(after, row_of(name, s)),
        forall|part: Seq<char>| has_text(out, part) ==> #[trigger] has_text(after, part),
{
    lemma_row(out, name, s.avg@, s.min@, s.max@, s.std@, s.worst5@);
    with_summary(out, name, s)
}

/// All frames that were decoded are recorded in their order, at the time they
/// were looked at; all but the one that is shown were passed over.
pub proof fn law_every_frame_is_recorded(r: RecordView, frames: Seq<FrameStats>, at: u64, i: int)
    requires
        0 <= i < frames.len(),
        r.samples.len() == r.arrivals.len(),
    ensures
        recorded(r, frames, at).samples.len() == r.samples.len() + frames.len(),
        recorded(r, frames, at).arrivals.len() == r.arrivals.len() + frames.len(),
        recorded(r, frames, at).samples[r.samples.len() + i] == frames[i],
        recorded(r, frames, at).arrivals[r.arrivals.len() + i] == at,
        passed_over(frames.len()) + 1 == frames.len(),
{
}

/// A plane is taken over pixel by pixel: the pixel in a row and column comes
/// from that row and column of the source, whatever the rows are padded to.
pub proof fn law_pixels_stay_in_place(
    data: Seq<u8>,
    stride: int,
    step: int,
    first: int,
    width: int,
    height: int,
    row: int,
    col: int,
)
    requires
        0 <= row < height,
        0 <= col < width,
    ensures
        gathered(data, stride, step, first, width, height).len() == width * height,
        0 <= row * width + col < width * height,
        gathered(data, stride, step, first, width, height)[row * width + col] == data[row * stride
            + col * step + first],
{
    assert(0 <= row * width + col < width * height) by (nonlinear_arith)
        requires
            0 <= row < height,
            0 <= col < width,
    ;
    assert(0 <= width * height) by (nonlinear_arith)
        requires
            0 < width,
            0 < height,
    ;
    vstd::arithmetic::div_mod::lemma_fundamental_div_mod_converse(
        row * width + col,
        width,
        row,
        col,
    );
}

/// The brightness of a pixel and the colours of the four pixels around it come
/// from their place in the source; in a plane of colours in turn, blue stands
/// before red.
pub proof fn law_pictures_are_taken_over(
    y: Plane,
    u: Plane,
    v: Plane,
    width: int,
    height: int,
    row: int,
    col: int,
)
    requires
        0 <= row < height,
        0 <= col < width,
        row / 2 < height / 2,
        col / 2 < width / 2,
    ensures
        ({
            let at = row * width + col;
            let near = (row / 2) * (width / 2) + col / 2;
            let plain = yuv_picture(y, u, v, width, height);
            let turns = nv12_picture(y, u, width, height);
            &&& plain.y[at] == y.data@[row * y.stride + col]
            &&& plain.u[near] == u.data@[(row / 2) * u.stride + col / 2]
            &&& plain.v[near] == v.data@[(row / 2) * v.stride + col / 2]
            &&& turns.y[at] == y.data@[row * y.stride + col]
            &&& turns.u[near] == u.data@[(row / 2) * u.stride + (col / 2) * 2]
            &&& turns.v[near] == u.data@[(row / 2) * u.stride + (col / 2) * 2 + 1]
        }),
{
    law_pixels_stay_in_place(y.data@, y.stride as int, 1, 0, width, height, row, col);
    law_pixels_stay_in_place(
        u.data@,
        u.stride as int,
        1,
        0,
        width / 2,
        height / 2,
        row / 2,
        col / 2,
    );
    law_pixels_stay_in_place(
        v.data@,
        v.stride as int,
        1,
        0,
        width / 2,
        height / 2,
        row / 2,
        col / 2,
    );
    law_pixels_stay_in_place(
        u.data@,
        u.stride as int,
        2,
        0,
        width / 2,
        height / 2,
        row / 2,
        col / 2,
    );
    law_pixels_stay_in_place(
        u.data@,
        u.stride as int,
        2,
        1,
        width / 2,
        height / 2,
        row / 2,
        col / 2,
    );
}

/// The measurements of a packet are those that the host sent with it, how long
/// it waited, and how large it is.
pub proof fn law_measurements_are_the_frames(frame: FrameView, now: u64)
    requires
        frame.received_at <= now,
        now - frame.received_at < 4_294_967_296_000,
        frame.data.len() <= u32::MAX,
    ensures
        stats_of(frame, now).capture_us == frame.capture_us,
        stats_of(frame, now).convert_us == frame.convert_us,
        stats_of(frame, now).encode_us == frame.encode_us,
        stats_of(frame, now).decode_us == 0,
        stats_of(frame, now).packet_bytes == frame.data.len(),
        stats_of(frame, now).queue_us * 1000 <= now - frame.received_at < (stats_of(
            frame,
            now,
        ).queue_us + 1) * 1000,
{
}

/// A timestamp is kept as it is; one below zero as the bits that it has.
pub proof fn law_timestamps_are_kept(p: i64)
    ensures
        p >= 0 ==> stream_pts(Some(p)) == p,
        p < 0 ==> stream_pts(Some(p)) == p + 0x1_0000_0000_0000_0000,
        stream_pts(None) == 0,
{
}

/// Times are told in whole microseconds, as many as have passed.
pub proof fn law_microseconds(ns: int)
    requires
        0 <= ns < 4_294_967_296_000,
    ensures
        micros(ns) * 1000 <= ns < (micros(ns) + 1) * 1000,
{
}

/// Without hardware the first format that needs none is taken.
pub proof fn law_first_software_format(formats: Seq<OfferedFormat>)
    ensures
        match first_software(formats) {
            Some(id) => exists|i: int|
                {
                    &&& 0 <= i < formats.len()
                    &&& (#[trigger] formats[i]).software
                    &&& formats[i].id == id
                    &&& forall|j: int| 0 <= j < i ==> !(#[trigger] formats[j]).software
                },
            None => forall|j: int| 0 <= j < formats.len() ==> !(#[trigger] formats[j]).software,
        },
    decreases formats.len(),
{
    if formats.len() > 0 {
        if formats[0].software {
            assert(formats[0].id == first_software(formats)->0);
        } else {
            let rest = formats.skip(1);
            law_first_software_format(rest);
            assert forall|j: int| 0 < j < formats.len() implies #[trigger] formats[j] == rest[j
                - 1] by {}
            if first_software(rest) is Some {
                let id = first_software(rest)->0;
                let i = choose|i: int|
                    {
                        &&& 0 <= i < rest.len()
                        &&& (#[trigger] rest[i]).software
                        &&& rest[i].id == id
                        &&& forall|j: int| 0 <= j < i ==> !(#[trigger] rest[j]).software
                    };
                assert(formats[i + 1].software && formats[i + 1].id == id);
                assert forall|j: int| 0 <= j < i + 1 implies !(#[trigger] formats[j]).software by {
                    if j > 0 {
                        assert(!rest[j - 1].software);
                    }
                }
            }
        }
    }
}

/// Every packet is fed and drained before the next is waited for; a packet
/// that is refused is skipped. The end is announced and flushed before the
/// decoder finishes.
pub proof fn law_packets_are_drained()
    ensures
        decode_next(DecodeEvent::Packet) == DecodeAction::Feed,
        decode_next(DecodeEvent::Accepted) == DecodeAction::Drain,
        decode_next(DecodeEvent::Drained) == DecodeAction::Wait,
        decode_next(DecodeEvent::Refused) == DecodeAction::Wait,
        decode_next(DecodeEvent::Shutdown) == DecodeAction::SendEnd,
        decode_next(DecodeEvent::Closed) == DecodeAction::SendEnd,
        decode_next(DecodeEvent::EndAccepted) == DecodeAction::Flush,
        decode_next(DecodeEvent::EndRefused) == DecodeAction::Finish,
        decode_next(DecodeEvent::Flushed) == DecodeAction::Finish,
{
}

/// A frame that comes out is brought to memory if it is not there, taken apart
/// as its layout asks, or converted first; then the next is asked for, until
/// there is none.
pub proof fn law_frames_are_taken_apart(hw: bool)
    ensures
        drain_next(true, DrainEvent::Frame(PixelKind::Vaapi)) == DrainAction::Transfer,
        drain_next(hw, DrainEvent::Frame(PixelKind::Nv12)) == DrainAction::ExtractNv12,
        drain_next(hw, DrainEvent::Frame(PixelKind::Yuv420p)) == DrainAction::ExtractYuv420p,
        drain_next(hw, DrainEvent::Frame(PixelKind::Other)) == DrainAction::Scale,
        drain_next(hw, DrainEvent::Transferred(PixelKind::Nv12)) == DrainAction::ExtractNv12,
        drain_next(hw, DrainEvent::Transferred(PixelKind::Yuv420p)) == DrainAction::ExtractYuv420p,
        drain_next(hw, DrainEvent::Transferred(PixelKind::Other)) == DrainAction::Scale,
        drain_next(hw, DrainEvent::Scaled) == DrainAction::ExtractYuv420p,
        drain_next(hw, DrainEvent::Sent) == DrainAction::Receive,
        drain_next(hw, DrainEvent::TransferFailed) == DrainAction::Receive,
        drain_next(hw, DrainEvent::ScaleFailed) == DrainAction::Fail,
        drain_next(hw, DrainEvent::Empty) == DrainAction::Finish,
        drain_next(hw, DrainEvent::Failed) == DrainAction::Finish,
        drain_next(hw, DrainEvent::ReceiverGone) == DrainAction::Finish,
{
}

/// An imported plane is the plane that the frame describes: the buffer and
/// modifier of its object, its own offset and pitch. Of two layers the first
/// is luma and the second colour; of one layer its two planes are.
pub proof fn law_planes_are_as_described(d: DrmFrame)
    ensures
        d.nv12() matches Ok((y, uv)) ==> {
            let luma = d.layers@[0].planes@[0];
            let colour = if d.nb_layers == 2 {
                d.layers@[1].planes@[0]
            } else {
                d.layers@[0].planes@[1]
            };
            &&& y.fd == d.objects@[luma.object_index as int].fd
            &&& y.modifier == d.objects@[luma.object_index as int].format_modifier
            &&& y.offset == luma.offset
            &&& y.pitch == luma.pitch
            &&& uv.fd == d.objects@[colour.object_index as int].fd
            &&& uv.modifier == d.objects@[colour.object_index as int].format_modifier
            &&& uv.offset == colour.offset
            &&& uv.pitch == colour.pitch
            &&& d.nb_layers == 2 ==> y.format == d.layers@[0].format && uv.format
                == d.layers@[1].format
            &&& d.nb_layers != 2 ==> y.format == 0x2020_3852 && uv.format == 0x3838_5247
        },
        d.nb_layers != 2 && !(d.nb_layers == 1 && d.layers@[0].nb_planes == 2) ==> d.nv12() is Err,
{
}

/// The driver is told of an image what it is, each value behind the number of
/// its attribute: format, width and height, buffer, offset and pitch of the
/// first plane, and last that there is no more.
pub proof fn law_image_attributes(
    width: u32,
    height: u32,
    format: u32,
    plane0: PlaneInfo,
    plane1: Option<PlaneInfo>,
    modifiers: bool,
)
    requires
        plane0.fd >= 0,
    ensures
        ({
            let a = attributes_of(width, height, format, plane0, plane1, modifiers);
            &&& a.len() >= 13
            &&& a[0] == 0x3271 && a[1] == format
            &&& a[2] == 0x3057 && a[3] == width
            &&& a[4] == 0x3056 && a[5] == height
            &&& a[6] == 0x3272 && a[7] == plane0.fd
            &&& a[8] == 0x3273 && a[9] == plane0.offset
            &&& a[10] == 0x3274 && a[11] == plane0.pitch
            &&& a.last() == 0x3038
            &&& modifiers && plane0.modifier != 0x00ff_ffff_ffff_ffff ==> a[12] == 0x3443 && a[14]
                == 0x3444 && a[13] == plane0.modifier % 0x1_0000_0000 && a[15]
                == plane0.modifier / 0x1_0000_0000
        }),
{
}

/// Of a whole picture the driver is told the second plane as well, and that
/// its colours are those of high definition in the narrow range.
pub proof fn law_whole_image_attributes(
    width: u32,
    height: u32,
    format: u32,
    plane0: PlaneInfo,
    plane1: PlaneInfo,
)
    requires
        plane1.fd >= 0,
    ensures
        ({
            let a = attributes_of(width, height, format, plane0, Some(plane1), false);
            &&& a.len() == 23
            &&& a[12] == 0x3275 && a[13] == plane1.fd
            &&& a[14] == 0x3276 && a[15] == plane1.offset
            &&& a[16] == 0x3277 && a[17] == plane1.pitch
            &&& a[18] == 0x327B && a[19] == 0x3282
            &&& a[20] == 0x327C && a[21] == 0x3287
        }),
{
}

/// The ways to import are tried from the plainest on until one works, and that
/// one is kept.
pub proof fn law_import_tries_all_ways(way: ImportMode)
    ensures
        ImportMode::Undecided.ways().len() == 3,
        ImportMode::Undecided.ways()[0] == (ImportMode::TwoPlane { external: false }),
        ImportMode::Undecided.ways()[1] == (ImportMode::TwoPlane { external: true }),
        ImportMode::Undecided.ways()[2] == ImportMode::WholeFrame,
        ImportMode::Undecided.tried(way, true) == way,
        ImportMode::Undecided.tried(way, false) == ImportMode::Undecided,
        !(way is Undecided) ==> way.ways() == seq![way],
{
}

/// Left and right of a pair travel in one stereo stream, next to each other;
/// centre and bass travel alone behind the pairs. The pairs of 5.1 are front
/// and rear, those of 7.1 front, rear and side.
pub proof fn law_pairs_travel_together(channels: u16, left: int)
    requires
        supported_channels(channels),
        channels >= 2,
        left == 0 || left == 4 || left == 6,
        left + 1 < channels,
    ensures
        ({
            let m = channel_mapping(channels);
            &&& m.len() == channels
            &&& m[left] % 2 == 0
            &&& m[left + 1] == m[left] + 1
            &&& m[left + 1] < 2 * coupled_count(channels)
            &&& m[0] == 0 && m[1] == 1
            &&& channels >= 6 ==> m[2] == 2 * coupled_count(channels) && m[3] == m[2] + 1
            &&& channels >= 6 ==> m[4] == 2
            &&& channels == 8 ==> m[6] == 4
        }),
{
}

/// A row of keys has numbers in a row.
pub open spec fn row_from(scancodes: Seq<u32>, first: u16) -> bool {
    forall|i: int|
        0 <= i < scancodes.len() ==> evdev_code(#[trigger] scancodes[i]) == Some(
            (first + i) as u16,
        )
}

/// The keys keep their place on the keyboard: letters, digits and function
/// keys are numbered along their rows, and the keys beside them one by one.
pub proof fn law_keys_keep_their_place()
    ensures
        // Q W E R T Y U I O P
        row_from(seq![20u32, 26, 8, 21, 23, 28, 24, 12, 18, 19], 16),
        // A S D F G H J K L
        row_from(seq![4u32, 22, 7, 9, 10, 11, 13, 14, 15], 30),
        // Z X C V B N M
        row_from(seq![29u32, 27, 6, 25, 5, 17, 16], 44),
        // 1 to 9, then 0
        row_from(seq![30u32, 31, 32, 33, 34, 35, 36, 37, 38, 39], 2),
        // F1 to F10
        row_from(seq![58u32, 59, 60, 61, 62, 63, 64, 65, 66, 67], 59),
        // F11, F12
        row_from(seq![68u32, 69], 87),
        // Keypad 7 8 9, 4 5 6, 1 2 3, 0 .
        row_from(seq![95u32, 96, 97], 71),
        row_from(seq![92u32, 93, 94], 75),
        row_from(seq![89u32, 90, 91], 79),
        row_from(seq![98u32, 99], 82),
{
}

/// The keys between and around the letters.
pub proof fn law_other_keys()
    ensures
        // Enter, Esc, Backspace, Tab, Space
        evdev_code(40) == Some(28u16),
        evdev_code(41) == Some(1u16),
        evdev_code(42) == Some(14u16),
        evdev_code(43) == Some(15u16),
        evdev_code(44) == Some(57u16),
        // - = [ ] \ ; ' ` , . / Caps Lock
        evdev_code(45) == Some(12u16),
        evdev_code(46) == Some(13u16),
        evdev_code(47) == Some(26u16),
        evdev_code(48) == Some(27u16),
        evdev_code(49) == Some(43u16),
        evdev_code(51) == Some(39u16),
        evdev_code(52) == Some(40u16),
        evdev_code(53) == Some(41u16),
        evdev_code(54) == Some(51u16),
        evdev_code(55) == Some(52u16),
        evdev_code(56) == Some(53u16),
        evdev_code(57) == Some(58u16),
        // Print Screen, Scroll Lock, Pause
        evdev_code(70) == Some(99u16),
        evdev_code(71) == Some(70u16),
        evdev_code(72) == Some(119u16),
        // Insert, Home, Page Up, Delete, End, Page Down
        evdev_code(73) == Some(110u16),
        evdev_code(74) == Some(102u16),
        evdev_code(75) == Some(104u16),
        evdev_code(76) == Some(111u16),
        evdev_code(77) == Some(107u16),
        evdev_code(78) == Some(109u16),
        // Right, Left, Down, Up
        evdev_code(79) == Some(106u16),
        evdev_code(80) == Some(105u16),
        evdev_code(81) == Some(108u16),
        evdev_code(82) == Some(103u16),
        // Num Lock, keypad / * - + Enter
        evdev_code(83) == Some(69u16),
        evdev_code(84) == Some(98u16),
        evdev_code(85) == Some(55u16),
        evdev_code(86) == Some(74u16),
        evdev_code(87) == Some(78u16),
        evdev_code(88) == Some(96u16),
        // Left Ctrl, Shift, Alt, Super, and the right ones
        evdev_code(224) == Some(29u16),
        evdev_code(225) == Some(42u16),
        evdev_code(226) == Some(56u16),
        evdev_code(227) == Some(125u16),
        evdev_code(228) == Some(97u16),
        evdev_code(229) == Some(54u16),
        evdev_code(230) == Some(100u16),
        evdev_code(231) == Some(126u16),
{
}

/// The dots of a row are the bits of its byte, the lowest one leftmost.
pub proof fn law_dots_are_bits(bits: u8)
    ensures
        dot_set(bits, 0) <==> bits % 2 == 1,
        dot_set(bits, 1) <==> bits / 2 % 2 == 1,
        dot_set(bits, 2) <==> bits / 4 % 2 == 1,
        dot_set(bits, 3) <==> bits / 8 % 2 == 1,
        dot_set(bits, 4) <==> bits / 16 % 2 == 1,
        dot_set(bits, 5) <==> bits / 32 % 2 == 1,
        dot_set(bits, 6) <==> bits / 64 % 2 == 1,
        dot_set(bits, 7) <==> bits / 128 % 2 == 1,
{
    assert((((bits >> 0u8) & 1u8 == 1u8) <==> bits % 2 == 1) && (((bits >> 1u8) & 1u8 == 1u8)
        <==> bits / 2 % 2 == 1) && (((bits >> 2u8) & 1u8 == 1u8) <==> bits / 4 % 2 == 1) && (((bits
        >> 3u8) & 1u8 == 1u8) <==> bits / 8 % 2 == 1) && (((bits >> 4u8) & 1u8 == 1u8) <==> bits
        / 16 % 2 == 1) && (((bits >> 5u8) & 1u8 == 1u8) <==> bits / 32 % 2 == 1) && (((bits >> 6u8)
        & 1u8 == 1u8) <==> bits / 64 % 2 == 1) && (((bits >> 7u8) & 1u8 == 1u8) <==> bits / 128 % 2
        == 1)) by (bit_vector);
}

/// A line of output that is finished becomes one message without the space at
/// its end; an empty one none, and what is not finished waits.
pub proof fn law_output_is_cut_into_lines(line: Seq<char>, rest: Seq<char>)
    requires
        !line.contains('\n'),
    ensures
        finished_lines(line).len() == 0,
        unfinished_line(line) == line,
        ({
            let message = trim_end(line + seq!['\n']);
            finished_lines(line + seq!['\n'] + rest) == if message.len() == 0 {
                finished_lines(rest)
            } else {
                seq![message] + finished_lines(rest)
            }
        }),
        unfinished_line(line + seq!['\n'] + rest) == unfinished_line(rest),
{
    lemma_find_char(line, '\n');
    let s = line + seq!['\n'] + rest;
    assert forall|i: int| 0 <= i < line.len() implies s[i] != '\n' by {
        assert(s[i] == line[i]);
        assert(line.contains(line[i]));
    }
    assert(s[line.len() as int] == '\n');
    lemma_find_char_at(s, '\n', line.len() as int);
    assert(s.take(line.len() as int + 1) =~= line + seq!['\n']);
    assert(s.skip(line.len() as int + 1) =~= rest);
    let message = trim_end(line + seq!['\n']);
    assert(Seq::<Seq<char>>::empty() + finished_lines(rest) =~= finished_lines(rest));
}

/// The columns of the table are aligned: the name stands at the left, in a
/// column of 14, and each number at the right of its column of 9.
pub proof fn law_columns_are_aligned(
    name: Seq<char>,
    avg: Seq<char>,
    min: Seq<char>,
    max: Seq<char>,
    std: Seq<char>,
    worst5: Seq<char>,
)
    requires
        name.len() <= 14,
        avg.len() <= 9,
        min.len() <= 9,
        max.len() <= 9,
        std.len() <= 9,
        worst5.len() <= 9,
    ensures
        ({
            let row = with_row(Seq::empty(), name, avg, min, max, std, worst5);
            &&& row.len() == 65
            &&& row[64] == '\n'
            &&& occurs_at(row, name, 0)
            &&& occurs_at(row, avg, 24 - avg.len())
            &&& occurs_at(row, min, 34 - min.len())
            &&& occurs_at(row, max, 44 - max.len())
            &&& occurs_at(row, std, 54 - std.len())
            &&& occurs_at(row, worst5, 64 - worst5.len())
        }),
{
    reveal_strlit(" ");
    reveal_strlit("\n");
    let row = with_row(Seq::empty(), name, avg, min, max, std, worst5);
    assert(row.subrange(0, name.len() as int) =~= name);
    assert(row.subrange(24 - avg.len(), 24) =~= avg);
    assert(row.subrange(34 - min.len(), 34) =~= min);
    assert(row.subrange(44 - max.len(), 44) =~= max);
    assert(row.subrange(54 - std.len(), 54) =~= std);
    assert(row.subrange(64 - worst5.len(), 64) =~= worst5);
}

/// A character of the overlay stands in the square of 16 by 16 pixels that
/// belongs to its line and column, two by two pixels for each dot, the top row
/// first and the lowest bit leftmost. There are 8 pixels around the text and 2
/// below each line.
pub proof fn law_letters_stand_in_place(
    lines: Seq<Seq<char>>,
    font: spec_fn(char) -> Seq<u8>,
    line: int,
    column: int,
    row: int,
    dot: int,
    right: int,
    below: int,
)
    requires
        0 <= line < lines.len(),
        0 <= column < lines[line].len(),
        0 <= row < 8,
        0 <= dot < 8,
        0 <= right < 2,
        0 <= below < 2,
    ensures
        is_lit(
            lines,
            font,
            8 + 16 * column + 2 * dot + right,
            8 + 18 * line + 2 * row + below,
        ) == dot_set(font(lines[line][column])[row], dot as u8),
{
}

/// Nothing else of the overlay is lit: not the margins, not what lies between
/// or below the lines, not what lies behind their ends.
pub proof fn law_nothing_else_is_lit(
    lines: Seq<Seq<char>>,
    font: spec_fn(char) -> Seq<u8>,
    x: int,
    y: int,
    line: int,
)
    ensures
        x < 8 || y < 8 || y >= 8 + 18 * lines.len() ==> !is_lit(lines, font, x, y),
        8 + 18 * line + 16 <= y < 8 + 18 * line + 18 ==> !is_lit(lines, font, x, y),
        0 <= line < lines.len() && 8 + 18 * line <= y < 8 + 18 * line + 18 && x >= 8 + 16
            * lines[line].len() ==> !is_lit(lines, font, x, y),
{
}

/// What is lit is light grey and opaque, the rest a dark veil.
pub proof fn law_text_is_light_on_dark(
    lines: Seq<Seq<char>>,
    font: spec_fn(char) -> Seq<u8>,
    x: int,
    y: int,
)
    ensures
        overlay_pixel(lines, font, x, y) == (if is_lit(lines, font, x, y) {
            (220u8, 220u8, 220u8, 255u8)
        } else {
            (0u8, 0u8, 0u8, 160u8)
        }),
{
}

/// The overlay has room for a text of some width if and only if each line is
/// that narrow, and it is as high as its lines.
pub proof fn law_overlay_has_room(text: Seq<char>, width: nat)
    ensures
        overlay_width(text) <= 16 * width + 16 <==> (forall|i: int|
            0 <= i < lines(text).len() ==> byte_len(#[trigger] lines(text)[i]) <= width),
        overlay_height(text) == 18 * lines(text).len() + 16,
{
    lemma_room(lines(text), width);
}

proof fn lemma_room(all: Seq<Seq<char>>, width: nat)
    ensures
        widest(all) <= width <==> (forall|i: int|
            0 <= i < all.len() ==> byte_len(#[trigger] all[i]) <= width),
    decreases all.len(),
{
    if all.len() > 0 {
        let rest = all.drop_last();
        lemma_room(rest, width);
        if widest(all) <= width {
            assert forall|i: int| 0 <= i < all.len() implies byte_len(#[trigger] all[i])
                <= width by {
                if i < rest.len() {
                    assert(rest[i] == all[i]);
                }
            }
        }
        if forall|i: int| 0 <= i < all.len() ==> byte_len(#[trigger] all[i]) <= width {
            assert forall|i: int| 0 <= i < rest.len() implies byte_len(#[trigger] rest[i])
                <= width by {
                assert(rest[i] == all[i]);
            }
            assert(byte_len(all[all.len() - 1]) <= width);
        }
    }
}

/// Two frames of video wait for the decoder at most, and sixteen of audio.
pub proof fn law_queues_are_short()
    ensures
        crate::queue::VIDEO_QUEUE_FRAMES == 2,
        crate::queue::AUDIO_QUEUE_FRAMES == 16,
{
}

/// A frame counts in the second in which it arrived, from the first on; a
/// second that has not passed is left out.
pub proof fn law_frames_count_in_their_second(arrivals: Seq<u64>, at: u64, k: nat)
    requires
        arrivals.len() > 0,
        arrivals[0] <= at,
    ensures
        ({
            let first = arrivals[0];
            let here = first + k * 1_000_000_000 <= at < first + (k + 1) * 1_000_000_000;
            let before = in_second(arrivals, first, k as int);
            in_second(arrivals.push(at), first, k as int) == (if here {
                before + 1
            } else {
                before
            })
        }),
        k < buckets(arrivals.push(at)).len() ==> arrivals[0] + (k + 1) * 1_000_000_000 <= at,
        k < usize::MAX && arrivals[0] + (k + 1) * 1_000_000_000 <= at ==> k < buckets(
            arrivals.push(at),
        ).len(),
        k < buckets(arrivals.push(at)).len() ==> buckets(arrivals.push(at))[k as int] == in_second(
            arrivals.push(at),
            arrivals[0],
            k as int,
        ) as u64,
{
    let all = arrivals.push(at);
    assert(all.drop_last() =~= arrivals);
    assert(all[0] == arrivals[0]);
    assert(all.last() == at);
}

/// The levels of the library's log in the order of how much they tell.
pub proof fn law_log_levels()
    ensures
        crate::avlog::AV_LOG_PANIC == 0,
        crate::avlog::AV_LOG_FATAL == 8,
        crate::avlog::AV_LOG_ERROR == 16,
        crate::avlog::AV_LOG_WARNING == 24,
        crate::avlog::AV_LOG_INFO == 32,
        crate::avlog::AV_LOG_VERBOSE == 40,
        crate::avlog::AV_LOG_DEBUG == 48,
        crate::avlog::AV_LOG_TRACE == 56,
{
}

} // verus!
