//! One streaming session: what runs beside the stream, and how its decoders
//! are set up.
use crate::audio::AudioDecoderConfig;
use crate::config::{ClientConfig, ConfigView};
use crate::decode::DecoderConfig;
use crate::net::SessionParams;
use crate::stats::ReportMeta;
use crate::text::{decimal, decimal_text, push_decimal};
use vstd::prelude::*;

verus! {

/// The command lines of a session, without addresses and ports.
#[derive(Debug, Clone)]
pub struct SessionCommands {
    /// The server's command line, as it told it.
    pub server: String,
    /// This client's command line.
    pub client: String,
}

/// What the report of a session says of it.
pub fn report_meta(commands: &SessionCommands, config: &DecoderConfig) -> (meta: ReportMeta)
    ensures
        meta.video@ == decimal(config.width as nat) + "x"@ + decimal(config.height as nat),
        meta.server_command@ == commands.server@,
        meta.client_command@ == commands.client@,
{
    ReportMeta {
        video: video_geometry(config.width, config.height),
        server_command: commands.server.clone(),
        client_command: commands.client.clone(),
    }
}

/// The geometry of a video, such as `3440x1440`.
pub fn video_geometry(width: u32, height: u32) -> (s: String)
    ensures
        s@ == decimal(width as nat) + "x"@ + decimal(height as nat),
{
    let mut s = decimal_text(width as u64);
    s.append("x");
    push_decimal(&mut s, height as u64);
    s
}

/// What a session does with controllers and the microphone, and how it
/// decodes.
#[derive(Debug, Clone)]
pub struct SessionPlan {
    /// Tunnel USB controllers to the server.
    pub forward_usb: bool,
    /// Tunnel the built-in controller too.
    pub forward_builtin: bool,
    /// Let the volume keys end the session.
    pub watch_volume: bool,
    /// Pass gamepads through at the evdev level.
    pub pass_through: bool,
    /// Emulate gamepads that are not passed through.
    pub emulate: bool,
    /// Forward the microphone.
    pub forward_mic: bool,
    /// The server encodes with another codec than the one asked for.
    pub codec_differs: bool,
    /// How video is decoded.
    pub video: DecoderConfig,
    /// How audio is decoded.
    pub audio: AudioDecoderConfig,
}

/// The built-in controller is handed over: it is a USB device of the server,
/// and gone from this machine.
pub open spec fn hands_over(cfg: ConfigView) -> bool {
    cfg.usb_forward && cfg.forward_builtin_controller
}

/// The plan of a session.
pub open spec fn plan_of(cfg: ConfigView, params: SessionParams) -> SessionPlan {
    SessionPlan {
        forward_usb: cfg.usb_forward,
        forward_builtin: hands_over(cfg),
        watch_volume: hands_over(cfg),
        pass_through: cfg.gamepad_passthrough && !hands_over(cfg),
        emulate: !hands_over(cfg),
        forward_mic: cfg.mic_forward.enabled,
        codec_differs: params.codec != cfg.codec,
        video: DecoderConfig { width: params.width, height: params.height, codec: params.codec },
        audio: AudioDecoderConfig { sample_rate: 48_000, channels: params.audio_channels },
    }
}

/// Plans a session from the configuration and from what the server confirmed:
/// a handed-over controller is neither passed through nor emulated, and
/// leaves the volume keys to end the session; decoding goes by what the
/// server confirmed.
pub fn plan_session(cfg: &ClientConfig, params: &SessionParams) -> (plan: SessionPlan)
    ensures
        plan.forward_usb == cfg.usb_forward,
        plan.forward_builtin == hands_over(cfg@),
        plan.watch_volume == hands_over(cfg@),
        plan.pass_through == (cfg.gamepad_passthrough && !hands_over(cfg@)),
        plan.emulate == !hands_over(cfg@),
        plan.forward_mic == cfg.mic_forward.enabled,
        plan.codec_differs == (params.codec != cfg.codec),
        plan.video == (DecoderConfig {
            width: params.width,
            height: params.height,
            codec: params.codec,
        }),
        plan.audio == (AudioDecoderConfig {
            sample_rate: 48_000,
            channels: params.audio_channels,
        }),
        plan == plan_of(cfg@, *params),
{
    let handed_over = cfg.usb_forward && cfg.forward_builtin_controller;
    SessionPlan {
        forward_usb: cfg.usb_forward,
        forward_builtin: handed_over,
        watch_volume: handed_over,
        pass_through: cfg.gamepad_passthrough && !handed_over,
        emulate: !handed_over,
        forward_mic: cfg.mic_forward.enabled,
        codec_differs: params.codec != cfg.codec,
        video: DecoderConfig { width: params.width, height: params.height, codec: params.codec },
        audio: AudioDecoderConfig { sample_rate: 48_000, channels: params.audio_channels },
    }
}

/// What runs beside a stream when it ends.
#[derive(Debug, Clone, Copy, PartialEq, Eq, Structural)]
pub struct Running {
    /// Gamepads are passed through.
    pub pass_through: bool,
    /// The volume keys are watched.
    pub volume_watch: bool,
    /// The microphone is forwarded.
    pub microphone: bool,
    /// USB controllers are tunneled.
    pub usb_forwarder: bool,
}

/// A step of ending a session.
#[derive(Debug, Clone, Copy, PartialEq, Eq, Structural)]
pub enum TeardownStep {
    /// Release the grabbed gamepads, and wait until they are.
    StopPassThrough,
    /// Stop watching the volume keys.
    StopVolumeWatch,
    /// Stop the microphone forwarder.
    StopMicrophone,
    /// Close the connection.
    CloseConnection,
    /// Wait until the tunneled controllers are given back.
    AwaitUsbForwarder,
    /// Stop receiving.
    AbortTransport,
}

/// One step if it is needed.
pub open spec fn step_if(needed: bool, step: TeardownStep) -> Seq<TeardownStep> {
    if needed {
        seq![step]
    } else {
        seq![]
    }
}

/// The steps that end a session, in order.
pub open spec fn teardown(running: Running) -> Seq<TeardownStep> {
    step_if(running.pass_through, TeardownStep::StopPassThrough) + step_if(
        running.volume_watch,
        TeardownStep::StopVolumeWatch,
    ) + step_if(running.microphone, TeardownStep::StopMicrophone) + seq![
        TeardownStep::CloseConnection,
    ] + step_if(running.usb_forwarder, TeardownStep::AwaitUsbForwarder) + seq![
        TeardownStep::AbortTransport,
    ]
}

/// The steps that end a session, in order, whatever ended it. The connection
/// is closed before the tunneled controllers are waited for: only then does
/// their forwarder give them back.
pub fn teardown_steps(running: Running) -> (steps: Vec<TeardownStep>)
    ensures
        steps@ == teardown(running),
{
    let mut steps: Vec<TeardownStep> = Vec::new();
    if running.pass_through {
        steps.push(TeardownStep::StopPassThrough);
    }
    if running.volume_watch {
        steps.push(TeardownStep::StopVolumeWatch);
    }
    if running.microphone {
        steps.push(TeardownStep::StopMicrophone);
    }
    steps.push(TeardownStep::CloseConnection);
    if running.usb_forwarder {
        steps.push(TeardownStep::AwaitUsbForwarder);
    }
    steps.push(TeardownStep::AbortTransport);
    assert(steps@ =~= teardown(running));
    steps
}

/// Every session ends with its connection closed and, where controllers are
/// tunneled, with a wait for them after that.
pub proof fn law_teardown_closes(running: Running)
    ensures
        teardown(running).contains(TeardownStep::CloseConnection),
        running.usb_forwarder == teardown(running).contains(TeardownStep::AwaitUsbForwarder),
        forall|i: int, j: int|
            0 <= i < teardown(running).len() && 0 <= j < teardown(running).len()
                && #[trigger] teardown(running)[i] == TeardownStep::CloseConnection
                && #[trigger] teardown(running)[j] == TeardownStep::AwaitUsbForwarder ==> i < j,
        teardown(running).last() == TeardownStep::AbortTransport,
{
    let t = teardown(running);
    let n = t.len() as int;
    let at = if running.usb_forwarder {
        n - 3
    } else {
        n - 2
    };
    assert(t[at] == TeardownStep::CloseConnection);
    if running.usb_forwarder {
        assert(t[n - 2] == TeardownStep::AwaitUsbForwarder);
    }
}

} // verus!
