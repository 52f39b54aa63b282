//! What a session is set up with, what it counts, and how it ends.
use crate::cli::{overridden, Overrides};
use crate::config::{
    flag_of, is_network_flag, kept_args, law_no_network_flag_kept, Codec, ConfigView, HostEntry,
};
use crate::net::{
    bare_address, params_match, route_of, NetStats, ReceiveView, Route, SessionParams,
    SessionRequest,
};
use crate::session::{hands_over, plan_of, teardown, Running, TeardownStep};
use crate::text::lemma_find_char_at;
use crate::transport::{ControlView, FrameView, ReassembledFrame};
use vstd::prelude::*;

verus! {

/// What the command line sets wins over the file, each flag for its own
/// setting, and what it leaves open stays as the file has it. The microphone
/// can be switched on but not off.
pub proof fn law_flags_win_over_the_file(cfg: ConfigView, o: Overrides)
    ensures
        ({
            let c = overridden(cfg, o);
            &&& o.server matches Some(s) ==> c.server_address == s@
            &&& o.server is None ==> c.server_address == cfg.server_address
            &&& o.port matches Some(p) ==> c.port == p
            &&& o.port is None ==> c.port == cfg.port
            &&& o.fullscreen matches Some(f) ==> c.fullscreen == f
            &&& o.fullscreen is None ==> c.fullscreen == cfg.fullscreen
            &&& o.gamepad_passthrough matches Some(g) ==> c.gamepad_passthrough == g
            &&& o.gamepad_passthrough is None ==> c.gamepad_passthrough == cfg.gamepad_passthrough
            &&& o.usb_forward matches Some(u) ==> c.usb_forward == u
            &&& o.usb_forward is None ==> c.usb_forward == cfg.usb_forward
            &&& o.resolution matches Some(r) ==> c.resolution == r
            &&& o.resolution is None ==> c.resolution == cfg.resolution
            &&& o.fps matches Some(f) ==> c.framerate == f
            &&& o.fps is None ==> c.framerate == cfg.framerate
            &&& o.codec matches Some(k) ==> c.codec == k
            &&& o.codec is None ==> c.codec == cfg.codec
            &&& o.mic_forward_port matches Some(p) ==> c.mic_forward.port == p
            &&& o.mic_forward_port is None ==> c.mic_forward.port == cfg.mic_forward.port
            &&& c.mic_forward.enabled <==> cfg.mic_forward.enabled || o.mic_forward
            &&& c.mic_forward.rsonance_binary == cfg.mic_forward.rsonance_binary
            &&& c.forward_builtin_controller == cfg.forward_builtin_controller
            &&& c.hosts == cfg.hosts
        }),
{
}

/// The built-in controller is handed over only where USB devices are forwarded
/// and it was asked for.
pub proof fn law_handing_over_needs_both(cfg: ConfigView)
    ensures
        hands_over(cfg) ==> cfg.usb_forward,
        hands_over(cfg) ==> cfg.forward_builtin_controller,
        cfg.usb_forward && cfg.forward_builtin_controller ==> hands_over(cfg),
{
}

/// A session forwards what the configuration allows: the built-in controller
/// is never both handed over and kept, and whoever has no controller left to
/// end the session with has the volume keys. Video and audio are decoded as
/// the server confirmed them, whatever was asked for.
pub proof fn law_plan_follows_config_and_server(cfg: ConfigView, params: SessionParams)
    ensures
        ({
            let p = plan_of(cfg, params);
            &&& p.forward_usb == cfg.usb_forward
            &&& p.forward_builtin ==> p.forward_usb && p.watch_volume && !p.pass_through
                && !p.emulate
            &&& !p.forward_builtin ==> p.emulate && !p.watch_volume && p.pass_through
                == cfg.gamepad_passthrough
            &&& cfg.usb_forward && cfg.forward_builtin_controller ==> p.forward_builtin
            &&& !cfg.forward_builtin_controller ==> !p.forward_builtin
            &&& p.forward_mic == cfg.mic_forward.enabled
            &&& p.codec_differs <==> p.video.codec != cfg.codec
            &&& p.video.width == params.width
            &&& p.video.height == params.height
            &&& p.video.codec == params.codec
            &&& p.audio.sample_rate == 48_000
            &&& p.audio.channels == params.audio_channels
        }),
{
}

/// One of the steps.
pub open spec fn step_at(running: Running, i: int, step: TeardownStep) -> bool {
    0 <= i < teardown(running).len() && teardown(running)[i] == step
}

/// A session ends everything that it started and nothing else, each once:
/// controllers, volume watch and microphone while the connection is still
/// there, the USB devices once it is closed, and the transport last.
pub proof fn law_session_ends_what_it_started(running: Running, i: int, j: int)
    ensures
        teardown(running).contains(TeardownStep::StopPassThrough) <==> running.pass_through,
        teardown(running).contains(TeardownStep::StopVolumeWatch) <==> running.volume_watch,
        teardown(running).contains(TeardownStep::StopMicrophone) <==> running.microphone,
        teardown(running).contains(TeardownStep::AwaitUsbForwarder) <==> running.usb_forwarder,
        teardown(running).contains(TeardownStep::CloseConnection),
        teardown(running).contains(TeardownStep::AbortTransport),
        teardown(running).no_duplicates(),
        step_at(running, i, TeardownStep::StopPassThrough) && step_at(
            running,
            j,
            TeardownStep::CloseConnection,
        ) ==> i < j,
        step_at(running, i, TeardownStep::StopVolumeWatch) && step_at(
            running,
            j,
            TeardownStep::CloseConnection,
        ) ==> i < j,
        step_at(running, i, TeardownStep::StopMicrophone) && step_at(
            running,
            j,
            TeardownStep::CloseConnection,
        ) ==> i < j,
        step_at(running, i, TeardownStep::CloseConnection) && step_at(
            running,
            j,
            TeardownStep::AwaitUsbForwarder,
        ) ==> i < j,
        step_at(running, i, TeardownStep::AbortTransport) ==> i == teardown(running).len() - 1,
{
    let t = teardown(running);
    let a: int = if running.pass_through {
        1
    } else {
        0
    };
    let b: int = if running.volume_watch {
        a + 1
    } else {
        a
    };
    let c: int = if running.microphone {
        b + 1
    } else {
        b
    };
    let d: int = if running.usb_forwarder {
        c + 2
    } else {
        c + 1
    };
    if running.pass_through {
        assert(t[0] == TeardownStep::StopPassThrough);
    }
    if running.volume_watch {
        assert(t[a] == TeardownStep::StopVolumeWatch);
    }
    if running.microphone {
        assert(t[b] == TeardownStep::StopMicrophone);
    }
    assert(t[c] == TeardownStep::CloseConnection);
    if running.usb_forwarder {
        assert(t[c + 1] == TeardownStep::AwaitUsbForwarder);
    }
    assert(t[d] == TeardownStep::AbortTransport);
    assert(t.len() == d + 1);
}

/// The session has what the server confirmed, value by value.
pub proof fn law_session_has_what_was_confirmed(
    params: SessionParams,
    width: u32,
    height: u32,
    framerate: u32,
    bitrate_mbps: u32,
    codec: Codec,
    max_datagram_size: u16,
    cursor_embedded: bool,
    server_command: Seq<char>,
    audio_channels: u16,
)
    ensures
        params_match(
            params,
            ControlView::SessionResponse {
                width,
                height,
                framerate,
                bitrate_mbps,
                codec,
                max_datagram_size,
                cursor_embedded,
                server_command,
                audio_channels,
            },
        ) <==> {
            &&& params.width == width
            &&& params.height == height
            &&& params.framerate == framerate
            &&& params.bitrate_mbps == bitrate_mbps
            &&& params.codec == codec
            &&& params.max_datagram_size == max_datagram_size
            &&& params.server_command@ == server_command
            &&& params.audio_channels == audio_channels
        },
        !params_match(params, ControlView::IdrRequest),
{
}

/// The server is asked for exactly what the request says.
pub proof fn law_request_asks_what_it_says(r: SessionRequest)
    ensures
        r.message() is SessionRequest,
        r.message()->SessionRequest_width == r.width,
        r.message()->SessionRequest_height == r.height,
        r.message()->SessionRequest_framerate == r.framerate,
        r.message()->SessionRequest_codec == r.codec,
        r.message()->SessionRequest_bitrate_mbps == r.bitrate_mbps,
{
}

/// Brackets are taken off in pairs and only around the whole address.
pub proof fn law_brackets_come_off_in_pairs(inside: Seq<char>)
    ensures
        bare_address(seq!['['] + inside + seq![']']) == inside,
        inside.len() > 0 && inside[0] != '[' ==> bare_address(inside) == inside,
        inside.len() > 0 && inside.last() != ']' ==> bare_address(inside) == inside,
{
    let s = seq!['['] + inside + seq![']'];
    assert(s[0] == '[' && s.last() == ']');
    assert(s.subrange(1, s.len() - 1) =~= inside);
}

/// A video frame counts once and with all its bytes, whether or not it can be
/// decoded; one that cannot counts as dropped as well, and so does one that
/// the decoder had no time for. Audio counts nowhere.
pub proof fn law_counters_count(v: ReceiveView, frame: FrameView, now: u64)
    requires
        v.stats.video_bytes + frame.data.len() <= u64::MAX,
        v.stats.video_frames < u64::MAX,
        v.stats.video_dropped < u64::MAX,
        v.total_frames < u64::MAX,
    ensures
        v.routed(frame).total_frames == v.total_frames + 1,
        frame.stream_type == 0 ==> {
            &&& v.routed(frame).stats.video_frames == v.stats.video_frames + 1
            &&& v.routed(frame).stats.video_bytes == v.stats.video_bytes + frame.data.len()
            &&& v.routed(frame).stats.video_dropped == v.stats.video_dropped + if frame.tainted {
                1int
            } else {
                0int
            }
        },
        frame.stream_type != 0 ==> v.routed(frame).stats == v.stats,
        v.backpressure(now).stats == (NetStats {
            video_dropped: (v.stats.video_dropped + 1) as u64,
            ..v.stats
        }),
        v.routed(frame).assembler == v.assembler,
        v.routed(frame).need_idr == v.need_idr,
{
}

/// Clean video goes to the video decoder, audio to the audio decoder, and
/// nothing else to either.
pub proof fn law_frames_go_to_their_decoder(frame: FrameView)
    ensures
        route_of(frame) == Route::Video <==> frame.stream_type == 0 && !frame.tainted,
        route_of(frame) == Route::Tainted <==> frame.stream_type == 0 && frame.tainted,
        route_of(frame) == Route::Audio <==> frame.stream_type == 1,
{
}

/// A frame and a host are shown as what they hold.
pub proof fn law_values_shown_as_they_are(f: ReassembledFrame, h: HostEntry)
    ensures
        f@.data == f.data@,
        f@.pts == f.pts,
        f@.is_keyframe == f.is_keyframe,
        f@.stream_type == f.stream_type,
        f@.capture_us == f.capture_us,
        f@.convert_us == f.convert_us,
        f@.encode_us == f.encode_us,
        f@.received_at == f.received_at,
        f@.tainted == f.tainted,
        h@.name == h.name@,
        h@.address == h.address@,
        h@.port == h.port,
        h@.resolution == h.resolution,
        h@.framerate == h.framerate,
        h@.codec == h.codec,
        h@.bitrate == h.bitrate,
{
}

/// A sanitized command line tells no address and no port: none of the flags
/// that do is left, in either form.
pub proof fn law_no_address_is_told(args: Seq<Seq<char>>, i: int)
    requires
        0 <= i < kept_args(args).len(),
    ensures
        ({
            let flag = flag_of(kept_args(args)[i]);
            &&& flag != "--bind"@
            &&& flag != "--server"@
            &&& flag != "--port"@
            &&& flag != "--mic-forward-port"@
        }),
{
    law_no_network_flag_kept(args);
    assert(!is_network_flag(flag_of(kept_args(args)[i])));
}

/// The value of a network flag goes with it, whether it stands behind it or in
/// one argument with it; any other argument stays.
pub proof fn law_network_values_go_with_their_flag(
    value: Seq<char>,
    other: Seq<char>,
    rest: Seq<Seq<char>>,
)
    requires
        flag_of(other) != "--bind"@,
        flag_of(other) != "--server"@,
        flag_of(other) != "--port"@,
        flag_of(other) != "--mic-forward-port"@,
    ensures
        kept_args(seq!["--bind"@, value] + rest) == kept_args(rest),
        kept_args(seq!["--server"@, value] + rest) == kept_args(rest),
        kept_args(seq!["--port"@, value] + rest) == kept_args(rest),
        kept_args(seq!["--mic-forward-port"@, value] + rest) == kept_args(rest),
        kept_args(seq![other] + rest) == seq![other] + kept_args(rest),
{
    reveal_strlit("--bind");
    reveal_strlit("--server");
    reveal_strlit("--port");
    reveal_strlit("--mic-forward-port");
    lemma_flag_alone("--bind"@, value, rest);
    lemma_flag_alone("--server"@, value, rest);
    lemma_flag_alone("--port"@, value, rest);
    lemma_flag_alone("--mic-forward-port"@, value, rest);
    assert((seq![other] + rest).skip(1) =~= rest);
    assert((seq![other] + rest)[0] == other);
}

proof fn lemma_flag_alone(flag: Seq<char>, value: Seq<char>, rest: Seq<Seq<char>>)
    requires
        forall|i: int| 0 <= i < flag.len() ==> flag[i] != '=',
        is_network_flag(flag),
    ensures
        kept_args(seq![flag, value] + rest) == kept_args(rest),
{
    let args = seq![flag, value] + rest;
    lemma_find_char_at(flag, '=', flag.len() as int);
    assert(flag.take(flag.len() as int) =~= flag);
    assert(!flag.contains('='));
    assert(args[0] == flag);
    assert(args.skip(2) =~= rest);
}

} // verus!
