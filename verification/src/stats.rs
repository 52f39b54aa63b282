//! Session statistics: the rolling window behind the on-screen overlay, the
//! record of a whole session, and the texts of both. Averages and rates are
//! fractions; the texts take them written out.
use crate::clock::Clock;
use crate::decode::FrameStats;
use crate::net::NetStats;
use crate::text::{copy_text, decimal, push_decimal};
use crate::ui::elapsed_ns;
use std::collections::VecDeque;
use vstd::prelude::*;

verus! {

/// Number of recent frames the rolling averages are computed over.
pub const WINDOW: usize = 120;

/// How often the overlay text is made anew, in nanoseconds.
pub const TEXT_REFRESH: u64 = 500_000_000;

/// Nanoseconds of a second.
pub const SECOND: u64 = 1_000_000_000;

/// A measurement of a frame.
#[derive(Debug, Clone, Copy, PartialEq, Eq, Structural)]
pub enum Metric {
    Capture,
    Convert,
    Encode,
    Queue,
    Decode,
    Size,
}

/// The value of a measurement.
pub open spec fn measured(s: FrameStats, metric: Metric) -> u32 {
    match metric {
        Metric::Capture => s.capture_us,
        Metric::Convert => s.convert_us,
        Metric::Encode => s.encode_us,
        Metric::Queue => s.queue_us,
        Metric::Decode => s.decode_us,
        Metric::Size => s.packet_bytes,
    }
}

/// The value of a measurement: microseconds, or bytes for the size.
pub fn measure(s: &FrameStats, metric: Metric) -> (v: u32)
    ensures
        v == measured(*s, metric),
{
    match metric {
        Metric::Capture => s.capture_us,
        Metric::Convert => s.convert_us,
        Metric::Encode => s.encode_us,
        Metric::Queue => s.queue_us,
        Metric::Decode => s.decode_us,
        Metric::Size => s.packet_bytes,
    }
}

/// A presented frame: its measurements, and when it was shown.
#[derive(Debug, Clone, Copy, PartialEq, Eq, Structural)]
pub struct Sample {
    pub stats: FrameStats,
    pub rendered_at: u64,
}

/// The counters of the receiver at some time.
#[derive(Debug, Clone, Copy, PartialEq, Eq, Structural)]
pub struct NetSnapshot {
    pub bytes: u64,
    pub frames: u64,
    pub at: u64,
}

/// What arrived over the network in a span of time.
#[derive(Debug, Clone, Copy, PartialEq, Eq, Structural)]
pub struct Received {
    pub frames: u64,
    pub bytes: u64,
    /// Nanoseconds, never none.
    pub span: u64,
}

/// How many frames were shown in a span of time.
#[derive(Debug, Clone, Copy, PartialEq, Eq, Structural)]
pub struct Presented {
    pub frames: u64,
    /// Nanoseconds, never none.
    pub span: u64,
}

/// What the overlay shows, as sums and counts.
#[derive(Debug, Clone, Copy, PartialEq, Eq, Structural)]
pub struct OverlayFigures {
    /// How many frames the sums are over; at least one.
    pub frames: u64,
    /// Sums of the measurements in microseconds.
    pub capture_us: u64,
    pub convert_us: u64,
    pub encode_us: u64,
    pub queue_us: u64,
    pub decode_us: u64,
    /// What arrived since the text was last made, if it can be told.
    pub received: Option<Received>,
    /// What was shown over the window, if it can be told.
    pub presented: Option<Presented>,
}

/// The numbers of the overlay, written out.
#[derive(Debug, Clone)]
pub struct OverlayNumbers {
    pub recv_fps: String,
    pub render_fps: String,
    pub mbps: String,
    pub capture_ms: String,
    pub convert_ms: String,
    pub encode_ms: String,
    pub rtt_ms: String,
    pub queue_ms: String,
    pub decode_ms: String,
}

/// How far a counter that starts over at the end of its range has come.
pub open spec fn counted_since(before: u64, after: u64) -> u64 {
    if after >= before {
        (after - before) as u64
    } else {
        (after - before + 0x1_0000_0000_0000_0000) as u64
    }
}

/// The sum of a measurement over some frames.
pub open spec fn total(samples: Seq<Sample>, metric: Metric) -> int
    decreases samples.len(),
{
    if samples.len() == 0 {
        0
    } else {
        total(samples.drop_last(), metric) + measured(samples.last().stats, metric)
    }
}

/// What a [`StatsOverlay`] holds.
#[verifier::ext_equal]
pub struct OverlayView {
    /// Whether the overlay is displayed.
    pub visible: bool,
    /// The frames shown last.
    pub samples: Seq<Sample>,
    /// Frames that were decoded but superseded before presentation.
    pub superseded: u64,
    /// Frames shown.
    pub rendered: u64,
    /// The text, and when it was made.
    pub text: Seq<char>,
    pub refreshed: u64,
    /// The counters of the receiver when the text was made.
    pub last_net: Option<NetSnapshot>,
}

impl OverlayView {
    /// A frame was shown: of the window, the oldest one leaves if it is full.
    pub open spec fn frame_rendered(self, stats: FrameStats, now: u64) -> OverlayView {
        let kept = if self.samples.len() == WINDOW {
            self.samples.skip(1)
        } else {
            self.samples
        };
        OverlayView {
            rendered: (self.rendered + 1) as u64,
            samples: kept.push(Sample { stats, rendered_at: now }),
            ..self
        }
    }

    /// The text is to be made anew.
    pub open spec fn stale(self, now: u64) -> bool {
        self.text.len() == 0 || elapsed_ns(self.refreshed, now) >= TEXT_REFRESH
    }

    pub open spec fn received(self, net: NetStats, now: u64) -> Option<Received> {
        match self.last_net {
            Some(prev) if elapsed_ns(prev.at, now) > 0 => Some(
                Received {
                    frames: counted_since(prev.frames, net.video_frames),
                    bytes: counted_since(prev.bytes, net.video_bytes),
                    span: elapsed_ns(prev.at, now) as u64,
                },
            ),
            _ => None,
        }
    }

    pub open spec fn presented(self) -> Option<Presented> {
        let n = self.samples.len() as int;
        if n >= 2 && elapsed_ns(self.samples[0].rendered_at, self.samples[n - 1].rendered_at) > 0 {
            Some(
                Presented {
                    frames: (n - 1) as u64,
                    span: elapsed_ns(
                        self.samples[0].rendered_at,
                        self.samples[n - 1].rendered_at,
                    ) as u64,
                },
            )
        } else {
            None
        }
    }

    /// What the overlay shows.
    pub open spec fn figures(self, net: NetStats, now: u64) -> OverlayFigures {
        OverlayFigures {
            frames: if self.samples.len() == 0 {
                1
            } else {
                self.samples.len() as u64
            },
            capture_us: total(self.samples, Metric::Capture) as u64,
            convert_us: total(self.samples, Metric::Convert) as u64,
            encode_us: total(self.samples, Metric::Encode) as u64,
            queue_us: total(self.samples, Metric::Queue) as u64,
            decode_us: total(self.samples, Metric::Decode) as u64,
            received: self.received(net, now),
            presented: self.presented(),
        }
    }

    /// The text was made anew.
    pub open spec fn refreshed(
        self,
        video: Seq<char>,
        net: NetStats,
        n: OverlayNumbers,
        now: u64,
    ) -> OverlayView {
        OverlayView {
            text: overlay_text(video, n, net.video_dropped, self.rendered, self.superseded),
            refreshed: now,
            last_net: Some(
                NetSnapshot { bytes: net.video_bytes, frames: net.video_frames, at: now },
            ),
            ..self
        }
    }
}

/// The text of the overlay.
pub open spec fn overlay_text(
    video: Seq<char>,
    n: OverlayNumbers,
    net_dropped: u64,
    rendered: u64,
    superseded: u64,
) -> Seq<char> {
    "VIDEO   "@ + video + " (recv "@ + n.recv_fps@ + " fps / render "@ + n.render_fps@
        + " fps)\nBITRATE "@ + n.mbps@ + " Mbps\nHOST    capture "@ + n.capture_ms@
        + " / convert "@ + n.convert_ms@ + " / encode "@ + n.encode_ms@
        + " ms\nNETWORK rtt "@ + n.rtt_ms@ + " ms / "@ + decimal(net_dropped as nat)
        + " dropped\nCLIENT  queue "@ + n.queue_ms@ + " ms / decode "@ + n.decode_ms@
        + " ms\nFRAMES  "@ + decimal(rendered as nat) + " rendered / "@ + decimal(
        superseded as nat,
    ) + " superseded"@
}

/// Rolling statistics of the pipeline, and the overlay text made of them.
pub struct StatsOverlay {
    visible: bool,
    samples: VecDeque<Sample>,
    superseded: u64,
    rendered: u64,
    text: String,
    refreshed: u64,
    last_net: Option<NetSnapshot>,
    clock: Clock,
}

impl View for StatsOverlay {
    type V = OverlayView;

    closed spec fn view(&self) -> OverlayView {
        OverlayView {
            visible: self.visible,
            samples: self.samples@,
            superseded: self.superseded,
            rendered: self.rendered,
            text: self.text@,
            refreshed: self.refreshed,
            last_net: self.last_net,
        }
    }
}

fn span_of(since: u64, now: u64) -> (ns: u64)
    ensures
        ns == elapsed_ns(since, now),
{
    if now >= since {
        now - since
    } else {
        0
    }
}

impl StatsOverlay {
    /// The window is bounded.
    pub open spec fn wf(&self) -> bool {
        self@.samples.len() <= WINDOW
    }

    /// A hidden overlay that has seen no frame.
    pub fn new() -> (overlay: StatsOverlay)
        ensures
            overlay.wf(),
            overlay@ == (OverlayView {
                visible: false,
                samples: Seq::empty(),
                superseded: 0,
                rendered: 0,
                text: Seq::empty(),
                refreshed: overlay@.refreshed,
                last_net: None,
            }),
    {
        let clock = Clock::start();
        let refreshed: u64 = clock.now();
        let overlay = StatsOverlay {
            visible: false,
            samples: VecDeque::with_capacity(WINDOW),
            superseded: 0,
            rendered: 0,
            text: String::new(),
            refreshed,
            last_net: None,
            clock,
        };
        assert(overlay@.text =~= Seq::empty());
        assert(overlay@.samples =~= Seq::empty());
        overlay
    }

    /// Whether the overlay is displayed.
    pub fn visible(&self) -> (r: bool)
        ensures
            r == self@.visible,
    {
        self.visible
    }

    /// Shows or hides the overlay.
    pub fn set_visible(&mut self, visible: bool)
        requires
            old(self).wf(),
        ensures
            final(self).wf(),
            final(self)@ == (OverlayView { visible, ..old(self)@ }),
    {
        self.visible = visible;
    }

    /// Records a frame shown at `now`.
    pub fn on_frame_rendered_at(&mut self, stats: FrameStats, now: u64)
        requires
            old(self).wf(),
            old(self)@.rendered < u64::MAX,
        ensures
            final(self).wf(),
            final(self)@ == old(self)@.frame_rendered(stats, now),
    {
        self.rendered = self.rendered + 1;
        if self.samples.len() == WINDOW {
            let _ = self.samples.pop_front();
            assert(self.samples@ =~= old(self)@.samples.skip(1));
        }
        self.samples.push_back(Sample { stats, rendered_at: now });
    }

    /// Records a frame shown.
    pub fn on_frame_rendered(&mut self, stats: FrameStats)
        requires
            old(self).wf(),
            old(self)@.rendered < u64::MAX,
        ensures
            final(self).wf(),
            exists|now: u64| final(self)@ == #[trigger] old(self)@.frame_rendered(stats, now),
    {
        let now: u64 = self.clock.now();
        self.on_frame_rendered_at(stats, now);
    }

    /// Records frames that were decoded but superseded before presentation.
    pub fn on_frames_dropped(&mut self, count: u64)
        requires
            old(self).wf(),
            old(self)@.superseded + count <= u64::MAX,
        ensures
            final(self).wf(),
            final(self)@ == (OverlayView {
                superseded: (old(self)@.superseded + count) as u64,
                ..old(self)@
            }),
    {
        self.superseded = self.superseded + count;
    }

    /// Frames shown so far.
    pub fn rendered(&self) -> (n: u64)
        ensures
            n == self@.rendered,
    {
        self.rendered
    }

    /// Decoded frames superseded before presentation so far.
    pub fn superseded(&self) -> (n: u64)
        ensures
            n == self@.superseded,
    {
        self.superseded
    }

    /// How many frames the window holds.
    pub fn window_len(&self) -> (n: usize)
        ensures
            n == self@.samples.len(),
    {
        self.samples.len()
    }

    /// Whether the text is to be made anew at `now`.
    pub fn needs_refresh_at(&self, now: u64) -> (r: bool)
        ensures
            r == self@.stale(now),
    {
        if self.text.as_str().is_empty() {
            return true;
        }
        span_of(self.refreshed, now) >= TEXT_REFRESH
    }

    fn sum(&self, metric: Metric) -> (t: u64)
        requires
            self.wf(),
        ensures
            t == total(self@.samples, metric),
    {
        let mut t: u64 = 0;
        let mut n: usize = 0;
        assert(self.samples@.take(0) =~= Seq::empty());
        while n < self.samples.len()
            invariant
                n <= self.samples.len(),
                self.samples.len() <= WINDOW,
                t == total(self.samples@.take(n as int), metric),
                t <= n * 0xffff_ffff,
            decreases self.samples.len() - n,
        {
            proof {
                assert(self.samples@.take(n + 1).drop_last() =~= self.samples@.take(n as int));
                assert(self.samples@.take(n + 1).last() == self.samples@[n as int]);
            }
            t = t + measure(&self.samples[n].stats, metric) as u64;
            n = n + 1;
        }
        assert(self.samples@.take(n as int) =~= self.samples@);
        t
    }

    /// What the overlay shows at `now`.
    pub fn figures_at(&self, net: &NetStats, now: u64) -> (figures: OverlayFigures)
        requires
            self.wf(),
        ensures
            figures == self@.figures(*net, now),
    {
        let mut received: Option<Received> = None;
        if let Some(prev) = self.last_net {
            let span: u64 = span_of(prev.at, now);
            if span > 0 {
                received = Some(
                    Received {
                        frames: net.video_frames.wrapping_sub(prev.frames),
                        bytes: net.video_bytes.wrapping_sub(prev.bytes),
                        span,
                    },
                );
            }
        }
        let count: usize = self.samples.len();
        let mut presented: Option<Presented> = None;
        if count >= 2 {
            let span: u64 = span_of(
                self.samples[0].rendered_at,
                self.samples[count - 1].rendered_at,
            );
            if span > 0 {
                presented = Some(Presented { frames: (count - 1) as u64, span });
            }
        }
        OverlayFigures {
            frames: if count == 0 {
                1
            } else {
                count as u64
            },
            capture_us: self.sum(Metric::Capture),
            convert_us: self.sum(Metric::Convert),
            encode_us: self.sum(Metric::Encode),
            queue_us: self.sum(Metric::Queue),
            decode_us: self.sum(Metric::Decode),
            received,
            presented,
        }
    }

    /// Makes the text anew at `now`, with the numbers written out.
    pub fn refresh_at(&mut self, video: &str, net: &NetStats, numbers: &OverlayNumbers, now: u64)
        requires
            old(self).wf(),
        ensures
            final(self).wf(),
            final(self)@ == old(self)@.refreshed(video@, *net, *numbers, now),
    {
        let mut s = copy_text("VIDEO   ");
        s.append(video);
        s.append(" (recv ");
        s.append(numbers.recv_fps.as_str());
        s.append(" fps / render ");
        s.append(numbers.render_fps.as_str());
        s.append(" fps)\nBITRATE ");
        s.append(numbers.mbps.as_str());
        s.append(" Mbps\nHOST    capture ");
        s.append(numbers.capture_ms.as_str());
        s.append(" / convert ");
        s.append(numbers.convert_ms.as_str());
        s.append(" / encode ");
        s.append(numbers.encode_ms.as_str());
        s.append(" ms\nNETWORK rtt ");
        s.append(numbers.rtt_ms.as_str());
        s.append(" ms / ");
        push_decimal(&mut s, net.video_dropped);
        s.append(" dropped\nCLIENT  queue ");
        s.append(numbers.queue_ms.as_str());
        s.append(" ms / decode ");
        s.append(numbers.decode_ms.as_str());
        s.append(" ms\nFRAMES  ");
        push_decimal(&mut s, self.rendered);
        s.append(" rendered / ");
        push_decimal(&mut s, self.superseded);
        s.append(" superseded");
        self.text = s;
        self.refreshed = now;
        self.last_net = Some(
            NetSnapshot { bytes: net.video_bytes, frames: net.video_frames, at: now },
        );
    }

    /// The text.
    pub fn text(&self) -> (s: &str)
        ensures
            s@ == self@.text,
    {
        self.text.as_str()
    }

    /// The time that the overlay reads.
    pub fn now(&self) -> u64 {
        self.clock.now()
    }
}

/// However many frames are shown, the window holds the last ones, in order.
pub proof fn law_window_keeps_last(v: OverlayView, stats: FrameStats, now: u64)
    requires
        v.samples.len() <= WINDOW,
    ensures
        v.frame_rendered(stats, now).samples.len() == (if v.samples.len() < WINDOW {
            v.samples.len() + 1
        } else {
            WINDOW as nat
        }),
        v.frame_rendered(stats, now).samples.last() == (Sample { stats, rendered_at: now }),
        forall|i: int|
            1 <= i <= v.samples.len() && i < WINDOW ==> #[trigger] v.frame_rendered(
                stats,
                now,
            ).samples[v.frame_rendered(stats, now).samples.len() - 1 - i] == v.samples[v.samples.len()
                - i],
{
}

/// Records every decoded frame of a session.
pub struct StatsRecorder {
    samples: Vec<FrameStats>,
    arrivals: Vec<u64>,
    started: u64,
    clock: Clock,
}

/// What a [`StatsRecorder`] holds.
#[verifier::ext_equal]
pub struct RecordView {
    pub samples: Seq<FrameStats>,
    /// When each frame was decoded.
    pub arrivals: Seq<u64>,
    /// When the session started.
    pub started: u64,
}

impl View for StatsRecorder {
    type V = RecordView;

    closed spec fn view(&self) -> RecordView {
        RecordView { samples: self.samples@, arrivals: self.arrivals@, started: self.started }
    }
}

/// How many of some times lie in a second after the first one.
pub open spec fn in_second(arrivals: Seq<u64>, first: u64, second: int) -> nat
    decreases arrivals.len(),
{
    if arrivals.len() == 0 {
        0
    } else {
        in_second(arrivals.drop_last(), first, second) + (if elapsed_ns(first, arrivals.last())
            / SECOND as int == second {
            1nat
        } else {
            0
        })
    }
}

/// The whole seconds from the first to the last of some times.
pub open spec fn whole_seconds(arrivals: Seq<u64>) -> int {
    if arrivals.len() == 0 {
        0
    } else {
        elapsed_ns(arrivals[0], arrivals.last()) / SECOND as int
    }
}

/// How many frames arrived in each whole second; the seconds are as many as
/// can be counted.
pub open spec fn buckets(arrivals: Seq<u64>) -> Seq<u64> {
    let n = whole_seconds(arrivals);
    Seq::new(
        if n <= usize::MAX {
            n as nat
        } else {
            usize::MAX as nat
        },
        |k: int| in_second(arrivals, arrivals[0], k) as u64,
    )
}

proof fn lemma_in_second_bounded(arrivals: Seq<u64>, first: u64, second: int)
    ensures
        in_second(arrivals, first, second) <= arrivals.len(),
    decreases arrivals.len(),
{
    if arrivals.len() > 0 {
        lemma_in_second_bounded(arrivals.drop_last(), first, second);
    }
}

/// How many of some times lie in the first `n` seconds.
pub open spec fn before_second(arrivals: Seq<u64>, first: u64, n: nat) -> nat
    decreases arrivals.len(),
{
    if arrivals.len() == 0 {
        0
    } else {
        before_second(arrivals.drop_last(), first, n) + (if n > elapsed_ns(
            first,
            arrivals.last(),
        ) / SECOND as int {
            1nat
        } else {
            0
        })
    }
}

/// What the first `n` seconds count together.
pub open spec fn counted_together(arrivals: Seq<u64>, first: u64, n: nat) -> nat
    decreases n,
{
    if n == 0 {
        0
    } else {
        counted_together(arrivals, first, (n - 1) as nat) + in_second(arrivals, first, n - 1)
    }
}

/// Each frame of the whole seconds is counted in one of them, and in no
/// other, however the frames bunch up.
pub proof fn law_frames_counted_once(arrivals: Seq<u64>, first: u64, n: nat)
    ensures
        counted_together(arrivals, first, n) == before_second(arrivals, first, n),
        before_second(arrivals, first, n) <= arrivals.len(),
    decreases n,
{
    if n > 0 {
        law_frames_counted_once(arrivals, first, (n - 1) as nat);
    }
    lemma_next_second(arrivals, first, n);
}

proof fn lemma_next_second(arrivals: Seq<u64>, first: u64, n: nat)
    ensures
        n == 0 ==> before_second(arrivals, first, n) == 0,
        n > 0 ==> before_second(arrivals, first, n) == before_second(
            arrivals,
            first,
            (n - 1) as nat,
        ) + in_second(arrivals, first, n - 1),
        before_second(arrivals, first, n) <= arrivals.len(),
    decreases arrivals.len(),
{
    if arrivals.len() > 0 {
        lemma_next_second(arrivals.drop_last(), first, n);
    }
}

/// What identifies the session of a report.
#[derive(Debug, Clone)]
pub struct ReportMeta {
    /// The geometry of the video, such as `3440x1440`.
    pub video: String,
    /// The command line of the server, without addresses and ports.
    pub server_command: String,
    /// The command line of the client, without addresses and ports.
    pub client_command: String,
}

/// A summary of a measurement, written out.
#[derive(Debug, Clone)]
pub struct SummaryText {
    pub avg: String,
    pub min: String,
    pub max: String,
    pub std: String,
    pub worst5: String,
}

/// The rates of a session that lasted, written out.
#[derive(Debug, Clone)]
pub struct RateText {
    pub received_fps: String,
    pub decoded_fps: String,
    pub mbps: String,
}

/// The numbers of a report, written out. Summaries of measurements that were
/// never taken are not used.
#[derive(Debug, Clone)]
pub struct ReportNumbers {
    /// How long the session lasted, in seconds.
    pub duration: String,
    /// Its rates, unless it lasted no time.
    pub rates: Option<RateText>,
    pub capture: SummaryText,
    pub convert: SummaryText,
    pub encode: SummaryText,
    pub queue: SummaryText,
    pub decode: SummaryText,
    pub size: SummaryText,
    pub fps: SummaryText,
}

/// A number of spaces.
pub open spec fn spaces(n: int) -> Seq<char> {
    Seq::new(
        if n > 0 {
            n as nat
        } else {
            0
        },
        |i: int| ' ',
    )
}

/// A text filled up with spaces behind it.
pub open spec fn pad_end(s: Seq<char>, width: int) -> Seq<char> {
    s + spaces(width - s.len())
}

/// A text filled up with spaces before it.
pub open spec fn pad_start(s: Seq<char>, width: int) -> Seq<char> {
    spaces(width - s.len()) + s
}

/// One line more.
pub open spec fn with_line(out: Seq<char>, label: Seq<char>, value: Seq<char>) -> Seq<char> {
    out + label + value + "\n"@
}

/// One row of the table more.
pub open spec fn with_row(
    out: Seq<char>,
    name: Seq<char>,
    avg: Seq<char>,
    min: Seq<char>,
    max: Seq<char>,
    std: Seq<char>,
    worst5: Seq<char>,
) -> Seq<char> {
    out + pad_end(name, 14) + " "@ + pad_start(avg, 9) + " "@ + pad_start(min, 9) + " "@
        + pad_start(max, 9) + " "@ + pad_start(std, 9) + " "@ + pad_start(worst5, 9) + "\n"@
}

/// One summary more.
pub open spec fn with_summary(out: Seq<char>, name: Seq<char>, s: SummaryText) -> Seq<char> {
    with_row(out, name, s.avg@, s.min@, s.max@, s.std@, s.worst5@)
}

/// The heading of a report: what the session was, and its counts.
pub open spec fn report_head(
    meta: ReportMeta,
    decoded: nat,
    rendered: u64,
    superseded: u64,
    net: NetStats,
    n: ReportNumbers,
) -> Seq<char> {
    let a = with_line(seq![], "Stargaze client session report"@, seq![]);
    let b = with_line(a, "=============================="@, seq![]);
    let c = with_line(b, "video:             "@, meta.video@);
    let d = with_line(c, "server command:    "@, meta.server_command@);
    let e = with_line(d, "client command:    "@, meta.client_command@);
    let f = with_line(e, "duration:          "@, n.duration@ + " s"@);
    let g = match n.rates {
        Some(r) => with_line(
            with_line(
                with_line(
                    f,
                    "frames received:   "@,
                    decimal(net.video_frames as nat) + " ("@ + r.received_fps@
                        + " fps on the wire)"@,
                ),
                "frames decoded:    "@,
                decimal(decoded) + " ("@ + r.decoded_fps@ + " fps)"@,
            ),
            "avg bitrate:       "@,
            r.mbps@ + " Mbps"@,
        ),
        None => f,
    };
    let h = with_line(g, "frames rendered:   "@, decimal(rendered as nat));
    let i = with_line(
        h,
        "dropped (decoder backpressure): "@,
        decimal(net.video_dropped as nat),
    );
    let j = with_line(i, "superseded (render kept newer): "@, decimal(superseded as nat));
    with_line(j, seq![], seq![])
}

/// The table of a report: its heading, a row for each measurement if any
/// frame was decoded, and one for the frames per second if the session
/// lasted a second.
pub open spec fn report_table(
    out: Seq<char>,
    measured: bool,
    lasted: bool,
    n: ReportNumbers,
) -> Seq<char> {
    let a = with_row(out, "metric"@, "avg"@, "min"@, "max"@, "std"@, "worst 5%"@);
    let b = if measured {
        with_summary(
            with_summary(
                with_summary(
                    with_summary(
                        with_summary(
                            with_summary(a, "capture ms"@, n.capture),
                            "convert ms"@,
                            n.convert,
                        ),
                        "encode ms"@,
                        n.encode,
                    ),
                    "queue ms"@,
                    n.queue,
                ),
                "decode ms"@,
                n.decode,
            ),
            "frame KiB"@,
            n.size,
        )
    } else {
        a
    };
    if lasted {
        with_summary(b, "fps (per sec)"@, n.fps)
    } else {
        b
    }
}

fn push_spaces(s: &mut String, width: usize, used: usize)
    ensures
        final(s)@ == old(s)@ + spaces(width - used),
{
    let mut n: usize = used;
    let ghost before = s@;
    assert(before + spaces(0) =~= before);
    while n < width
        invariant
            used <= n,
            used <= width ==> n <= width,
            used > width ==> n == used,
            s@ == before + spaces(n - used),
        decreases width - n,
    {
        s.push(' ');
        assert(s@ =~= before + spaces(n + 1 - used));
        n = n + 1;
    }
    assert(spaces(width - used) =~= spaces(n - used));
}

fn char_count(s: &str) -> (n: usize)
    ensures
        n == s@.len(),
{
    crate::text::chars_of(s).len()
}

fn push_cell(s: &mut String, value: &str)
    ensures
        final(s)@ == old(s)@ + " "@ + pad_start(value@, 9),
{
    s.append(" ");
    let used: usize = char_count(value);
    push_spaces(s, 9, used);
    s.append(value);
    assert(s@ =~= old(s)@ + " "@ + pad_start(value@, 9));
}

fn push_row(
    s: &mut String,
    name: &str,
    avg: &str,
    min: &str,
    max: &str,
    std: &str,
    worst5: &str,
)
    ensures
        final(s)@ == with_row(old(s)@, name@, avg@, min@, max@, std@, worst5@),
{
    s.append(name);
    let used: usize = char_count(name);
    push_spaces(s, 14, used);
    assert(s@ =~= old(s)@ + pad_end(name@, 14));
    push_cell(s, avg);
    push_cell(s, min);
    push_cell(s, max);
    push_cell(s, std);
    push_cell(s, worst5);
    s.append("\n");
}

fn push_summary(s: &mut String, name: &str, t: &SummaryText)
    ensures
        final(s)@ == with_summary(old(s)@, name@, *t),
{
    push_row(
        s,
        name,
        t.avg.as_str(),
        t.min.as_str(),
        t.max.as_str(),
        t.std.as_str(),
        t.worst5.as_str(),
    );
}

fn push_line(s: &mut String, label: &str, value: &str)
    ensures
        final(s)@ == with_line(old(s)@, label@, value@),
{
    s.append(label);
    s.append(value);
    s.append("\n");
}

fn counted_text(n: u64, open: &str, value: &str, close: &str) -> (s: String)
    ensures
        s@ == decimal(n as nat) + open@ + value@ + close@,
{
    let mut s = String::new();
    push_decimal(&mut s, n);
    assert(s@ =~= decimal(n as nat));
    s.append(open);
    s.append(value);
    s.append(close);
    s
}

fn text_with(a: &str, b: &str) -> (s: String)
    ensures
        s@ == a@ + b@,
{
    let mut s = copy_text(a);
    s.append(b);
    s
}

impl StatsRecorder {
    /// Every frame has its time.
    pub open spec fn wf(&self) -> bool {
        self@.samples.len() == self@.arrivals.len()
    }

    /// A record that starts now.
    pub fn new() -> (recorder: StatsRecorder)
        ensures
            recorder.wf(),
            recorder@.samples.len() == 0,
            recorder@.arrivals.len() == 0,
    {
        let clock = Clock::start();
        let started: u64 = clock.now();
        StatsRecorder { samples: Vec::new(), arrivals: Vec::new(), started, clock }
    }

    /// Records a frame decoded at `at`.
    pub fn record_at(&mut self, stats: FrameStats, at: u64)
        requires
            old(self).wf(),
        ensures
            final(self).wf(),
            final(self)@ == (RecordView {
                samples: old(self)@.samples.push(stats),
                arrivals: old(self)@.arrivals.push(at),
                ..old(self)@
            }),
    {
        self.samples.push(stats);
        self.arrivals.push(at);
    }

    /// Records a decoded frame.
    pub fn record(&mut self, stats: FrameStats)
        requires
            old(self).wf(),
        ensures
            final(self).wf(),
            exists|at: u64|
                final(self)@ == (RecordView {
                    samples: old(self)@.samples.push(stats),
                    arrivals: #[trigger] old(self)@.arrivals.push(at),
                    ..old(self)@
                }),
    {
        let at: u64 = self.clock.now();
        self.record_at(stats, at);
    }

    /// How many frames were decoded.
    pub fn decoded(&self) -> (n: usize)
        ensures
            n == self@.samples.len(),
    {
        self.samples.len()
    }

    /// Nanoseconds from the start of the record to `now`.
    pub fn lasted_at(&self, now: u64) -> (ns: u64)
        ensures
            ns == elapsed_ns(self@.started, now),
    {
        span_of(self.started, now)
    }

    /// The time that the record reads.
    pub fn now(&self) -> u64 {
        self.clock.now()
    }

    /// The values of a measurement, frame by frame.
    pub fn values(&self, metric: Metric) -> (values: Vec<u32>)
        ensures
            values@ == Seq::new(
                self@.samples.len(),
                |i: int| measured(self@.samples[i], metric),
            ),
    {
        let mut values: Vec<u32> = Vec::new();
        let mut n: usize = 0;
        while n < self.samples.len()
            invariant
                n <= self.samples.len(),
                values@.len() == n,
                forall|i: int|
                    0 <= i < n ==> #[trigger] values@[i] == measured(self.samples@[i], metric),
            decreases self.samples.len() - n,
        {
            values.push(measure(&self.samples[n], metric));
            n = n + 1;
        }
        assert(values@ =~= Seq::new(
            self@.samples.len(),
            |i: int| measured(self@.samples[i], metric),
        ));
        values
    }

    /// How many frames were decoded in each whole second since the first one.
    /// The second in which the last one was decoded is not whole, and left
    /// out.
    pub fn fps_buckets(&self) -> (counts: Vec<u64>)
        ensures
            counts@ == buckets(self@.arrivals),
    {
        let len: usize = self.arrivals.len();
        if len == 0 {
            let counts: Vec<u64> = Vec::new();
            assert(counts@ =~= buckets(self@.arrivals));
            return counts;
        }
        let first: u64 = self.arrivals[0];
        let seconds: u64 = span_of(first, self.arrivals[len - 1]) / SECOND;
        let many: usize = if seconds > usize::MAX as u64 {
            usize::MAX
        } else {
            seconds as usize
        };
        let mut counts: Vec<u64> = vec![0u64; many];
        let mut n: usize = 0;
        assert(self.arrivals@.take(0) =~= Seq::empty());
        while n < len
            invariant
                n <= len,
                len == self.arrivals.len(),
                counts@.len() == many,
                forall|k: int|
                    0 <= k < many ==> #[trigger] counts@[k] == in_second(
                        self.arrivals@.take(n as int),
                        first,
                        k,
                    ),
            decreases len - n,
        {
            let at: u64 = span_of(first, self.arrivals[n]) / SECOND;
            proof {
                assert(self.arrivals@.take(n + 1).drop_last() =~= self.arrivals@.take(n as int));
                assert(self.arrivals@.take(n + 1).last() == self.arrivals@[n as int]);
            }
            if at < many as u64 {
                let k: usize = at as usize;
                proof {
                    lemma_in_second_bounded(self.arrivals@.take(n as int), first, k as int);
                }
                let count: u64 = counts[k];
                counts.set(k, count + 1);
            }
            n = n + 1;
        }
        assert(self.arrivals@.take(n as int) =~= self.arrivals@);
        assert(counts@ =~= buckets(self@.arrivals));
        counts
    }

    /// The report of the session, with the numbers written out.
    pub fn report_text(
        &self,
        meta: &ReportMeta,
        rendered: u64,
        superseded: u64,
        net: &NetStats,
        numbers: &ReportNumbers,
    ) -> (out: String)
        ensures
            out@ == report_table(
                report_head(
                    *meta,
                    self@.samples.len(),
                    rendered,
                    superseded,
                    *net,
                    *numbers,
                ),
                self@.samples.len() > 0,
                buckets(self@.arrivals).len() > 0,
                *numbers,
            ),
    {
        let mut out = report_heading(
            meta,
            self.samples.len() as u64,
            rendered,
            superseded,
            net,
            numbers,
        );
        push_row(&mut out, "metric", "avg", "min", "max", "std", "worst 5%");
        if self.samples.len() > 0 {
            push_summary(&mut out, "capture ms", &numbers.capture);
            push_summary(&mut out, "convert ms", &numbers.convert);
            push_summary(&mut out, "encode ms", &numbers.encode);
            push_summary(&mut out, "queue ms", &numbers.queue);
            push_summary(&mut out, "decode ms", &numbers.decode);
            push_summary(&mut out, "frame KiB", &numbers.size);
        }
        if self.fps_buckets().len() > 0 {
            push_summary(&mut out, "fps (per sec)", &numbers.fps);
        }
        out
    }
}

fn report_heading(
    meta: &ReportMeta,
    decoded: u64,
    rendered: u64,
    superseded: u64,
    net: &NetStats,
    numbers: &ReportNumbers,
) -> (out: String)
    ensures
        out@ == report_head(*meta, decoded as nat, rendered, superseded, *net, *numbers),
{
    let mut out = String::new();
    proof {
        reveal_strlit("");
        assert(""@ =~= seq![]);
        assert(out@ =~= seq![]);
    }
    push_line(&mut out, "Stargaze client session report", "");
    push_line(&mut out, "==============================", "");
    push_line(&mut out, "video:             ", meta.video.as_str());
    push_line(&mut out, "server command:    ", meta.server_command.as_str());
    push_line(&mut out, "client command:    ", meta.client_command.as_str());
    let duration = text_with(numbers.duration.as_str(), " s");
    push_line(&mut out, "duration:          ", duration.as_str());
    if let Some(rates) = &numbers.rates {
        let received = counted_text(
            net.video_frames,
            " (",
            rates.received_fps.as_str(),
            " fps on the wire)",
        );
        push_line(&mut out, "frames received:   ", received.as_str());
        let frames = counted_text(decoded, " (", rates.decoded_fps.as_str(), " fps)");
        push_line(&mut out, "frames decoded:    ", frames.as_str());
        let bitrate = text_with(rates.mbps.as_str(), " Mbps");
        push_line(&mut out, "avg bitrate:       ", bitrate.as_str());
    }
    let shown = crate::text::decimal_text(rendered);
    push_line(&mut out, "frames rendered:   ", shown.as_str());
    let dropped = crate::text::decimal_text(net.video_dropped);
    push_line(&mut out, "dropped (decoder backpressure): ", dropped.as_str());
    let newer = crate::text::decimal_text(superseded);
    push_line(&mut out, "superseded (render kept newer): ", newer.as_str());
    push_line(&mut out, "", "");
    out
}

/// The part of some sorted values that is the worst twentieth, at least one
/// of them: the highest ones where high is bad, else the lowest.
pub fn worst_range(len: usize, worst_is_high: bool) -> (r: (usize, usize))
    requires
        len > 0,
    ensures
        r.1 - r.0 == (len + 19) / 20,
        1 <= r.1 - r.0 <= len,
        if worst_is_high {
            r.1 == len
        } else {
            r.0 == 0
        },
{
    let tail: usize = if len % 20 == 0 {
        len / 20
    } else {
        len / 20 + 1
    };
    if worst_is_high {
        (len - tail, len)
    } else {
        (0, tail)
    }
}

} // verus!
