//! Configuration of server and client.
use crate::error::ConfigError;
use crate::text::{
    chars_of, copy_text, decimal, find_char, join_text, joined_text, lemma_decimal_reads_back,
    lemma_find_char, lemma_find_char_at, parse_u32, parse_uint, position_of, push_decimal,
    same_chars, same_text, split, split_chars, string_of, string_views, text_views,
};
use vstd::prelude::*;

verus! {

/// Default port for stargaze server/client communication.
pub const DEFAULT_PORT: u16 = 9000;

/// Default port for rsonance mic forwarding.
pub const DEFAULT_MIC_FORWARD_PORT: u16 = 9001;

/// Supported video codecs.
#[derive(Debug, Clone, Copy, PartialEq, Eq, Structural)]
pub enum Codec {
    /// H.265 / HEVC codec.
    H265,
    /// AV1 codec.
    Av1,
}

impl Default for Codec {
    fn default() -> (codec: Codec)
        ensures
            codec == Codec::H265,
    {
        Codec::H265
    }
}

impl Codec {
    /// The name of the codec.
    pub open spec fn text(self) -> Seq<char> {
        match self {
            Codec::H265 => "h265"@,
            Codec::Av1 => "av1"@,
        }
    }

    /// The name of the codec.
    pub fn as_str(&self) -> (s: &'static str)
        ensures
            s@ == self.text(),
    {
        match self {
            Codec::H265 => "h265",
            Codec::Av1 => "av1",
        }
    }

    /// The name of the codec, as a string.
    pub fn to_string(&self) -> (s: String)
        ensures
            s@ == self.text(),
    {
        copy_text(self.as_str())
    }

    /// The codec of a name.
    pub fn from_str(s: &str) -> (r: Result<Codec, ConfigError>)
        ensures
            match r {
                Ok(codec) => s@ == codec.text(),
                Err(e) => s@ != Codec::H265.text() && s@ != Codec::Av1.text()
                    && e is InvalidCodec && e->InvalidCodec_0@ == s@,
            },
    {
        if same_text(s, "h265") {
            Ok(Codec::H265)
        } else if same_text(s, "av1") {
            Ok(Codec::Av1)
        } else {
            Err(ConfigError::InvalidCodec(copy_text(s)))
        }
    }
}

impl std::str::FromStr for Codec {
    type Err = ConfigError;

    fn from_str(s: &str) -> Result<Codec, ConfigError> {
        Codec::from_str(s)
    }
}

/// No two codecs have one name, so a codec's name reads back as the codec.
pub proof fn law_codec_names_distinct(a: Codec, b: Codec)
    ensures
        a.text() == b.text() ==> a == b,
{
    reveal_strlit("h265");
    reveal_strlit("av1");
    assert("h265"@.len() == 4);
    assert("av1"@.len() == 3);
}

/// Display resolution (width x height).
#[derive(Debug, Clone, Copy, PartialEq, Eq, Structural)]
pub struct Resolution {
    /// Width in pixels.
    pub width: u32,
    /// Height in pixels.
    pub height: u32,
}

impl Default for Resolution {
    fn default() -> (r: Resolution)
        ensures
            r == (Resolution { width: 1920, height: 1080 }),
    {
        Resolution { width: 1920, height: 1080 }
    }
}

/// The resolution that a text writes as `WIDTHxHEIGHT`.
pub open spec fn parse_resolution(s: Seq<char>) -> Option<Resolution> {
    let parts = split(s, 'x');
    if parts.len() != 2 {
        None
    } else {
        match (parse_uint(parts[0], 10, u32::MAX as nat), parse_uint(parts[1], 10, u32::MAX as nat)) {
            (Some(width), Some(height)) => Some(
                Resolution { width: width as u32, height: height as u32 },
            ),
            _ => None,
        }
    }
}

impl Resolution {
    /// `WIDTHxHEIGHT`.
    pub open spec fn text(self) -> Seq<char> {
        decimal(self.width as nat) + seq!['x'] + decimal(self.height as nat)
    }

    /// `WIDTHxHEIGHT`.
    pub fn to_string(&self) -> (s: String)
        ensures
            s@ == self.text(),
    {
        let mut s = String::new();
        push_decimal(&mut s, self.width as u64);
        s.push('x');
        push_decimal(&mut s, self.height as u64);
        assert(s@ =~= self.text());
        s
    }

    /// Parses `WIDTHxHEIGHT`.
    pub fn from_str(s: &str) -> (r: Result<Resolution, ConfigError>)
        ensures
            match r {
                Ok(resolution) => parse_resolution(s@) == Some(resolution),
                Err(e) => parse_resolution(s@) is None && e is InvalidResolution
                    && e->InvalidResolution_0@ == s@,
            },
    {
        let chars = chars_of(s);
        let parts = split_chars(chars.as_slice(), 'x');
        assert(text_views(parts@).len() == parts@.len());
        if parts.len() != 2 {
            return Err(ConfigError::InvalidResolution(copy_text(s)));
        }
        assert(text_views(parts@)[0] == parts@[0]@);
        assert(text_views(parts@)[1] == parts@[1]@);
        match (parse_u32(parts[0].as_slice()), parse_u32(parts[1].as_slice())) {
            (Some(width), Some(height)) => Ok(Resolution { width, height }),
            _ => Err(ConfigError::InvalidResolution(copy_text(s))),
        }
    }
}

impl std::str::FromStr for Resolution {
    type Err = ConfigError;

    fn from_str(s: &str) -> Result<Resolution, ConfigError> {
        Resolution::from_str(s)
    }
}

/// A resolution that was written parses back to itself.
pub proof fn law_resolution_round_trip(r: Resolution)
    ensures
        parse_resolution(r.text()) == Some(r),
{
    let w = decimal(r.width as nat);
    let h = decimal(r.height as nat);
    let s = r.text();
    lemma_decimal_reads_back(r.width as nat);
    lemma_decimal_reads_back(r.height as nat);
    assert(s[w.len() as int] == 'x');
    assert forall|i: int| 0 <= i < w.len() implies s[i] != 'x' by {
        assert(s[i] == w[i]);
    }
    lemma_find_char_at(s, 'x', w.len() as int);
    assert(s.take(w.len() as int) =~= w);
    assert(s.skip(w.len() as int + 1) =~= h);
    assert forall|i: int| 0 <= i < h.len() implies h[i] != 'x' by {
        assert('0' <= h[i] <= '9');
    }
    lemma_find_char_at(h, 'x', h.len() as int);
    assert(split(h, 'x') =~= seq![h]);
    assert(split(s, 'x') =~= seq![w, h]);
    assert(w[0] != '+' && h[0] != '+');
}

/// Configuration for cursor rendering in the captured stream.
#[derive(Debug, Clone, Copy, PartialEq, Eq, Structural)]
pub struct CursorConfig {
    /// Whether the cursor is composited into the captured frames.
    pub show_cursor: bool,
}

impl Default for CursorConfig {
    fn default() -> (c: CursorConfig)
        ensures
            c.show_cursor,
    {
        CursorConfig { show_cursor: true }
    }
}

/// Configuration for microphone forwarding via an rsonance subprocess.
#[derive(Debug, PartialEq, Eq)]
pub struct MicForwardConfig {
    /// Whether mic forwarding is enabled.
    pub enabled: bool,
    /// TCP port for rsonance audio streaming.
    pub port: u16,
    /// Path to the rsonance binary.
    pub rsonance_binary: String,
}

impl Default for MicForwardConfig {
    fn default() -> (c: MicForwardConfig)
        ensures
            !c.enabled,
            c.port == DEFAULT_MIC_FORWARD_PORT,
            c.rsonance_binary@ == "rsonance"@,
    {
        MicForwardConfig {
            enabled: false,
            port: DEFAULT_MIC_FORWARD_PORT,
            rsonance_binary: copy_text("rsonance"),
        }
    }
}

impl Clone for MicForwardConfig {
    fn clone(&self) -> (c: MicForwardConfig)
        ensures
            c == *self,
    {
        MicForwardConfig {
            enabled: self.enabled,
            port: self.port,
            rsonance_binary: self.rsonance_binary.clone(),
        }
    }
}

/// NVENC encoder tuning knobs. The defaults favor encode throughput.
#[derive(Debug, PartialEq, Eq)]
pub struct EncoderTuning {
    /// NVENC preset: `p1` (fastest) to `p7` (best quality).
    pub preset: String,
    /// NVENC multipass mode: `disabled`, `qres`, or `fullres`.
    pub multipass: String,
}

impl Default for EncoderTuning {
    fn default() -> (t: EncoderTuning)
        ensures
            t.preset@ == "p1"@,
            t.multipass@ == "disabled"@,
    {
        EncoderTuning { preset: copy_text("p1"), multipass: copy_text("disabled") }
    }
}

impl Clone for EncoderTuning {
    fn clone(&self) -> (t: EncoderTuning)
        ensures
            t == *self,
    {
        EncoderTuning { preset: self.preset.clone(), multipass: self.multipass.clone() }
    }
}

/// Configuration for the stargaze server.
#[derive(Debug, PartialEq, Eq)]
pub struct ServerConfig {
    /// Address to bind the server to.
    pub bind_address: String,
    /// Port to listen on.
    pub port: u16,
    /// Capture/stream resolution.
    pub resolution: Resolution,
    /// Target framerate.
    pub framerate: u32,
    /// Target bitrate in Mbps.
    pub bitrate: u32,
    /// Video codec to use.
    pub codec: Codec,
    /// Number of audio channels: 1, 2, 6, or 8.
    pub audio_channels: u16,
    /// NVENC encoder tuning.
    pub encoder: EncoderTuning,
    /// Mic forwarding configuration.
    pub mic_forward: MicForwardConfig,
    /// Cursor rendering configuration.
    pub cursor: CursorConfig,
}

impl Default for ServerConfig {
    fn default() -> (c: ServerConfig)
        ensures
            c.bind_address@ == "0.0.0.0"@,
            c.port == DEFAULT_PORT,
            c.resolution == (Resolution { width: 1920, height: 1080 }),
            c.framerate == 60,
            c.bitrate == 20,
            c.codec == Codec::H265,
            c.audio_channels == 2,
            c.encoder.preset@ == "p1"@,
            c.encoder.multipass@ == "disabled"@,
            !c.mic_forward.enabled,
            c.mic_forward.port == DEFAULT_MIC_FORWARD_PORT,
            c.mic_forward.rsonance_binary@ == "rsonance"@,
            c.cursor.show_cursor,
    {
        ServerConfig {
            bind_address: copy_text("0.0.0.0"),
            port: DEFAULT_PORT,
            resolution: Resolution::default(),
            framerate: 60,
            bitrate: 20,
            codec: Codec::default(),
            audio_channels: 2,
            encoder: EncoderTuning::default(),
            mic_forward: MicForwardConfig::default(),
            cursor: CursorConfig::default(),
        }
    }
}

/// One saved server in the client's host list, with its session quality
/// settings.
#[derive(Debug, PartialEq, Eq)]
pub struct HostEntry {
    /// Display label for the launcher (the address stands in if empty).
    pub name: String,
    /// Server IP address or DNS hostname.
    pub address: String,
    /// Server port.
    pub port: u16,
    /// Requested stream resolution.
    pub resolution: Resolution,
    /// Requested framerate.
    pub framerate: u32,
    /// Requested video codec.
    pub codec: Codec,
    /// Requested bitrate in Mbps; 0 = the server's default.
    pub bitrate: u32,
}

impl Default for HostEntry {
    fn default() -> (h: HostEntry)
        ensures
            h.name@.len() == 0,
            h.address@.len() == 0,
            h.port == DEFAULT_PORT,
            h.resolution == (Resolution { width: 1920, height: 1080 }),
            h.framerate == 60,
            h.codec == Codec::H265,
            h.bitrate == 0,
    {
        HostEntry {
            name: String::new(),
            address: String::new(),
            port: DEFAULT_PORT,
            resolution: Resolution::default(),
            framerate: 60,
            codec: Codec::default(),
            bitrate: 0,
        }
    }
}

impl Clone for HostEntry {
    fn clone(&self) -> (h: HostEntry)
        ensures
            h == *self,
    {
        HostEntry {
            name: self.name.clone(),
            address: self.address.clone(),
            port: self.port,
            resolution: self.resolution,
            framerate: self.framerate,
            codec: self.codec,
            bitrate: self.bitrate,
        }
    }
}

impl HostEntry {
    /// The label the launcher shows for this host.
    pub fn display_name(&self) -> (s: &str)
        ensures
            s@ == (if self.name@.len() == 0 {
                self.address@
            } else {
                self.name@
            }),
    {
        if self.name.as_str().is_empty() {
            self.address.as_str()
        } else {
            self.name.as_str()
        }
    }
}

/// Configuration for the stargaze client.
#[derive(Debug, PartialEq, Eq)]
pub struct ClientConfig {
    /// Address of the server to connect to.
    pub server_address: String,
    /// Port to connect on.
    pub port: u16,
    /// Whether to start in fullscreen mode.
    pub fullscreen: bool,
    /// Forward physical gamepads at the evdev level, so the server clones
    /// the real device instead of emulating an Xbox 360 pad.
    pub gamepad_passthrough: bool,
    /// Forward Valve USB controller hardware over USB/IP, tunneled through
    /// the session connection.
    pub usb_forward: bool,
    /// With `usb_forward`, hand over the built-in controller too.
    pub forward_builtin_controller: bool,
    /// Mic forwarding configuration.
    pub mic_forward: MicForwardConfig,
    /// Requested stream resolution (direct connection; saved hosts carry
    /// their own).
    pub resolution: Resolution,
    /// Requested framerate (direct connection).
    pub framerate: u32,
    /// Requested video codec (direct connection).
    pub codec: Codec,
    /// Saved hosts for the launcher.
    pub hosts: Vec<HostEntry>,
}

impl Default for ClientConfig {
    fn default() -> (c: ClientConfig)
        ensures
            c@ == ConfigView::initial(),
    {
        let c = ClientConfig {
            server_address: String::new(),
            port: DEFAULT_PORT,
            fullscreen: true,
            gamepad_passthrough: true,
            usb_forward: true,
            forward_builtin_controller: false,
            mic_forward: MicForwardConfig::default(),
            resolution: Resolution::default(),
            framerate: 60,
            codec: Codec::default(),
            hosts: Vec::new(),
        };
        assert(c@ =~= ConfigView::initial());
        c
    }
}

/// A copy of a host list.
pub fn copy_hosts(hosts: &Vec<HostEntry>) -> (r: Vec<HostEntry>)
    ensures
        r@ == hosts@,
{
    let r = hosts.clone();
    assert(r@ =~= hosts@);
    r
}

/// What a [`MicForwardConfig`] holds.
#[verifier::ext_equal]
pub struct MicForwardView {
    pub enabled: bool,
    pub port: u16,
    pub rsonance_binary: Seq<char>,
}

impl View for MicForwardConfig {
    type V = MicForwardView;

    open spec fn view(&self) -> MicForwardView {
        MicForwardView {
            enabled: self.enabled,
            port: self.port,
            rsonance_binary: self.rsonance_binary@,
        }
    }
}

/// What a [`HostEntry`] holds.
#[verifier::ext_equal]
pub struct HostView {
    pub name: Seq<char>,
    pub address: Seq<char>,
    pub port: u16,
    pub resolution: Resolution,
    pub framerate: u32,
    pub codec: Codec,
    pub bitrate: u32,
}

impl View for HostEntry {
    type V = HostView;

    open spec fn view(&self) -> HostView {
        HostView {
            name: self.name@,
            address: self.address@,
            port: self.port,
            resolution: self.resolution,
            framerate: self.framerate,
            codec: self.codec,
            bitrate: self.bitrate,
        }
    }
}

/// The views of a host list.
pub open spec fn host_views(hosts: Seq<HostEntry>) -> Seq<HostView> {
    Seq::new(hosts.len(), |i: int| hosts[i]@)
}

/// What a [`ClientConfig`] holds.
#[verifier::ext_equal]
pub struct ConfigView {
    pub server_address: Seq<char>,
    pub port: u16,
    pub fullscreen: bool,
    pub gamepad_passthrough: bool,
    pub usb_forward: bool,
    pub forward_builtin_controller: bool,
    pub mic_forward: MicForwardView,
    pub resolution: Resolution,
    pub framerate: u32,
    pub codec: Codec,
    pub hosts: Seq<HostView>,
}

impl ConfigView {
    /// The configuration of a client that was never configured.
    pub open spec fn initial() -> ConfigView {
        ConfigView {
            server_address: Seq::empty(),
            port: DEFAULT_PORT,
            fullscreen: true,
            gamepad_passthrough: true,
            usb_forward: true,
            forward_builtin_controller: false,
            mic_forward: MicForwardView {
                enabled: false,
                port: DEFAULT_MIC_FORWARD_PORT,
                rsonance_binary: "rsonance"@,
            },
            resolution: Resolution { width: 1920, height: 1080 },
            framerate: 60,
            codec: Codec::H265,
            hosts: Seq::empty(),
        }
    }
}

impl View for ClientConfig {
    type V = ConfigView;

    open spec fn view(&self) -> ConfigView {
        ConfigView {
            server_address: self.server_address@,
            port: self.port,
            fullscreen: self.fullscreen,
            gamepad_passthrough: self.gamepad_passthrough,
            usb_forward: self.usb_forward,
            forward_builtin_controller: self.forward_builtin_controller,
            mic_forward: self.mic_forward@,
            resolution: self.resolution,
            framerate: self.framerate,
            codec: self.codec,
            hosts: host_views(self.hosts@),
        }
    }
}

impl Clone for ClientConfig {
    fn clone(&self) -> (c: ClientConfig)
        ensures
            c@ == self@,
    {
        ClientConfig {
            server_address: self.server_address.clone(),
            port: self.port,
            fullscreen: self.fullscreen,
            gamepad_passthrough: self.gamepad_passthrough,
            usb_forward: self.usb_forward,
            forward_builtin_controller: self.forward_builtin_controller,
            mic_forward: self.mic_forward.clone(),
            resolution: self.resolution,
            framerate: self.framerate,
            codec: self.codec,
            hosts: copy_hosts(&self.hosts),
        }
    }
}

/// The hosts the launcher should show: the saved list, or a single entry
/// made of the direct-connection fields when the list is empty.
pub open spec fn shown_hosts(cfg: ConfigView) -> Seq<HostView> {
    if cfg.hosts.len() > 0 {
        cfg.hosts
    } else if cfg.server_address.len() == 0 {
        Seq::empty()
    } else {
        seq![
            HostView {
                name: cfg.server_address,
                address: cfg.server_address,
                port: cfg.port,
                resolution: cfg.resolution,
                framerate: cfg.framerate,
                codec: cfg.codec,
                bitrate: 0,
            },
        ]
    }
}

/// The hosts the launcher should show: the saved list, or a single entry
/// made of the direct-connection fields when the list is empty.
pub fn effective_hosts(cfg: &ClientConfig) -> (hosts: Vec<HostEntry>)
    ensures
        host_views(hosts@) == shown_hosts(cfg@),
{
    if cfg.hosts.len() > 0 {
        return copy_hosts(&cfg.hosts);
    }
    let mut hosts: Vec<HostEntry> = Vec::new();
    if cfg.server_address.as_str().is_empty() {
        assert(host_views(hosts@) =~= Seq::empty());
        return hosts;
    }
    hosts.push(
        HostEntry {
            name: cfg.server_address.clone(),
            address: cfg.server_address.clone(),
            port: cfg.port,
            resolution: cfg.resolution,
            framerate: cfg.framerate,
            codec: cfg.codec,
            bitrate: 0,
        },
    );
    assert(host_views(hosts@) =~= shown_hosts(cfg@));
    hosts
}

/// The last part of a path that names something: neither empty nor a dot.
pub open spec fn last_part(parts: Seq<Seq<char>>) -> Option<Seq<char>>
    decreases parts.len(),
{
    if parts.len() == 0 {
        None
    } else if parts.last().len() == 0 || parts.last() == seq!['.'] {
        last_part(parts.drop_last())
    } else {
        Some(parts.last())
    }
}

/// The file name in a path, or the whole path if it ends in none.
pub open spec fn program_name(path: Seq<char>) -> Seq<char> {
    match last_part(split(path, '/')) {
        Some(name) => if name == seq!['.', '.'] {
            path
        } else {
            name
        },
        None => path,
    }
}

/// The name of the flag in an argument of the form `--flag` or
/// `--flag=value`.
pub open spec fn flag_of(arg: Seq<char>) -> Seq<char> {
    arg.take(find_char(arg, '='))
}

/// The flag tells an address or a port.
pub open spec fn is_network_flag(flag: Seq<char>) -> bool {
    flag == "--bind"@ || flag == "--server"@ || flag == "--port"@ || flag
        == "--mic-forward-port"@
}

/// The arguments without those that tell an address or a port, and without
/// the values of those.
pub open spec fn kept_args(args: Seq<Seq<char>>) -> Seq<Seq<char>>
    decreases args.len(),
{
    if args.len() == 0 {
        Seq::empty()
    } else if is_network_flag(flag_of(args[0])) {
        if args[0].contains('=') || args.len() == 1 {
            kept_args(args.skip(1))
        } else {
            kept_args(args.skip(2))
        }
    } else {
        seq![args[0]] + kept_args(args.skip(1))
    }
}

/// A command line with its program reduced to the file name and without
/// addresses and ports.
pub open spec fn sanitized(args: Seq<Seq<char>>) -> Seq<Seq<char>> {
    if args.len() == 0 {
        Seq::empty()
    } else {
        seq![program_name(args[0])] + kept_args(args.skip(1))
    }
}

fn name_of_program(path: &str) -> (name: String)
    ensures
        name@ == program_name(path@),
{
    let chars = chars_of(path);
    let parts = split_chars(chars.as_slice(), '/');
    let ghost views = text_views(parts@);
    let mut n: usize = parts.len();
    assert(views.take(n as int) =~= views);
    while n > 0
        invariant
            n <= parts.len(),
            views == text_views(parts@),
            views == split(path@, '/'),
            last_part(views) == last_part(views.take(n as int)),
        decreases n,
    {
        let part = &parts[n - 1];
        proof {
            assert(views.take(n as int).last() == part@);
            assert(views.take(n as int).drop_last() =~= views.take(n - 1));
        }
        if part.len() > 0 && !(part.len() == 1 && part[0] == '.') {
            assert(part@ != seq!['.']);
            if part.len() == 2 && part[0] == '.' && part[1] == '.' {
                assert(part@ =~= seq!['.', '.']);
                return copy_text(path);
            }
            assert(part@ != seq!['.', '.']) by {
                if part@ == seq!['.', '.'] {
                    assert(part@.len() == 2 && part@[0] == '.' && part@[1] == '.');
                }
            }
            return string_of(part.as_slice());
        }
        proof {
            if part@.len() == 1 {
                assert(part@ =~= seq!['.']);
            }
        }
        n = n - 1;
    }
    copy_text(path)
}

/// The command line with network-identifying arguments (`--bind`,
/// `--server`, `--port`, `--mic-forward-port` and their values) removed and
/// the binary path reduced to its file name.
pub fn sanitize_command_line(args: &Vec<String>) -> (line: String)
    ensures
        line@ == joined_text(sanitized(string_views(args@)), " "@),
{
    let ghost views = string_views(args@);
    let mut out: Vec<String> = Vec::new();
    if args.len() == 0 {
        assert(string_views(out@) =~= Seq::empty());
        return join_text(&out, " ");
    }
    out.push(name_of_program(args[0].as_str()));
    let mut n: usize = 1;
    assert(string_views(out@) =~= seq![program_name(views[0])]);
    while n < args.len()
        invariant
            1 <= n <= args.len(),
            views == string_views(args@),
            string_views(out@) + kept_args(views.skip(n as int)) == sanitized(views),
        decreases args.len() - n,
    {
        let ghost before = string_views(out@);
        let arg = chars_of(args[n].as_str());
        let at: usize = position_of(arg.as_slice(), '=');
        let flag = vstd::slice::slice_subrange(arg.as_slice(), 0, at);
        proof {
            lemma_find_char(arg@, '=');
            assert(flag@ =~= flag_of(arg@));
            assert(views.skip(n as int)[0] == arg@);
            assert(views.skip(n as int).skip(1) =~= views.skip(n + 1));
        }
        if same_chars(flag, chars_of("--bind").as_slice()) || same_chars(
            flag,
            chars_of("--server").as_slice(),
        ) || same_chars(flag, chars_of("--port").as_slice()) || same_chars(
            flag,
            chars_of("--mic-forward-port").as_slice(),
        ) {
            if at == arg.len() && n + 1 < args.len() {
                proof {
                    assert(views.skip(n as int).skip(2) =~= views.skip(n + 2));
                }
                n = n + 2;
            } else {
                n = n + 1;
            }
        } else {
            let kept = copy_text(args[n].as_str());
            out.push(kept);
            proof {
                assert(string_views(out@) =~= before.push(arg@));
                assert(before + (seq![arg@] + kept_args(views.skip(n + 1))) =~= before.push(arg@)
                    + kept_args(views.skip(n + 1)));
            }
            n = n + 1;
        }
    }
    proof {
        assert(views.skip(n as int) =~= Seq::empty());
        assert(string_views(out@) + Seq::<Seq<char>>::empty() =~= string_views(out@));
    }
    join_text(&out, " ")
}

/// No address or port flag survives: each argument that is kept names none.
pub proof fn law_no_network_flag_kept(args: Seq<Seq<char>>)
    ensures
        forall|i: int|
            0 <= i < kept_args(args).len() ==> !is_network_flag(
                flag_of(#[trigger] kept_args(args)[i]),
            ),
    decreases args.len(),
{
    if args.len() > 0 {
        law_no_network_flag_kept(args.skip(1));
        if args.len() > 1 {
            law_no_network_flag_kept(args.skip(2));
        }
        let kept = kept_args(args);
        assert forall|i: int| 0 <= i < kept.len() implies !is_network_flag(
            flag_of(#[trigger] kept[i]),
        ) by {
            if !is_network_flag(flag_of(args[0])) {
                if i > 0 {
                    assert(kept[i] == kept_args(args.skip(1))[i - 1]);
                }
            } else if args[0].contains('=') || args.len() == 1 {
                assert(kept[i] == kept_args(args.skip(1))[i]);
            } else {
                assert(kept[i] == kept_args(args.skip(2))[i]);
            }
        }
    }
}

/// An argument line without address or port flags is kept whole.
pub proof fn law_other_args_kept(args: Seq<Seq<char>>)
    requires
        forall|i: int| 0 <= i < args.len() ==> !is_network_flag(flag_of(#[trigger] args[i])),
    ensures
        kept_args(args) == args,
    decreases args.len(),
{
    if args.len() > 0 {
        assert forall|i: int| 0 <= i < args.skip(1).len() implies !is_network_flag(
            flag_of(#[trigger] args.skip(1)[i]),
        ) by {
            assert(args.skip(1)[i] == args[i + 1]);
        }
        law_other_args_kept(args.skip(1));
        assert(!is_network_flag(flag_of(args[0])));
        assert(seq![args[0]] + args.skip(1) =~= args);
    } else {
        assert(args =~= Seq::empty());
    }
}

/// A name that a file can have.
pub open spec fn is_file_name(name: Seq<char>) -> bool {
    &&& name.len() > 0
    &&& !name.contains('/')
    &&& name != seq!['.']
    &&& name != seq!['.', '.']
}

/// The path of a file, in a directory or without one.
pub open spec fn path_of(dir: Option<Seq<char>>, name: Seq<char>) -> Seq<char> {
    match dir {
        Some(dir) => dir + seq!['/'] + name,
        None => name,
    }
}

/// Two argument lines differ at most in the addresses and ports that they
/// tell.
pub open spec fn same_but_network(a: Seq<Seq<char>>, b: Seq<Seq<char>>) -> bool
    decreases a.len(),
{
    if a.len() == 0 || b.len() == 0 {
        a.len() == b.len()
    } else if !is_network_flag(flag_of(a[0])) {
        a[0] == b[0] && same_but_network(a.skip(1), b.skip(1))
    } else if a[0].contains('=') {
        &&& flag_of(a[0]) == flag_of(b[0])
        &&& b[0].contains('=')
        &&& same_but_network(a.skip(1), b.skip(1))
    } else if a.len() == 1 {
        a == b
    } else {
        a[0] == b[0] && b.len() > 1 && same_but_network(a.skip(2), b.skip(2))
    }
}

proof fn lemma_last_of_path(dir: Seq<char>, name: Seq<char>)
    requires
        !name.contains('/'),
    ensures
        split(dir + seq!['/'] + name, '/').len() > 0,
        split(dir + seq!['/'] + name, '/').last() == name,
    decreases dir.len(),
{
    let s = dir + seq!['/'] + name;
    let n = find_char(s, '/');
    lemma_find_char(s, '/');
    assert(s[dir.len() as int] == '/');
    if n < dir.len() {
        lemma_last_of_path(dir.skip(n + 1), name);
        assert(s.skip(n + 1) =~= dir.skip(n + 1) + seq!['/'] + name);
    } else {
        assert(n == dir.len());
        assert(s.skip(n + 1) =~= name);
        lemma_find_char(name, '/');
        assert(split(name, '/') == seq![name]);
    }
}

proof fn lemma_program_name(dir: Option<Seq<char>>, name: Seq<char>)
    requires
        is_file_name(name),
    ensures
        program_name(path_of(dir, name)) == name,
{
    match dir {
        Some(dir) => lemma_last_of_path(dir, name),
        None => {
            lemma_find_char(name, '/');
            assert(split(name, '/') == seq![name]);
        },
    }
}

proof fn lemma_kept_alike(a: Seq<Seq<char>>, b: Seq<Seq<char>>)
    requires
        same_but_network(a, b),
    ensures
        kept_args(a) == kept_args(b),
    decreases a.len(),
{
    if a.len() > 0 && b.len() > 0 {
        if !is_network_flag(flag_of(a[0])) || a[0].contains('=') {
            lemma_kept_alike(a.skip(1), b.skip(1));
        } else if a.len() > 1 {
            lemma_kept_alike(a.skip(2), b.skip(2));
        }
    }
}

/// A sanitized command line tells nothing of where the program lies, nor of
/// addresses and ports: two command lines that differ in nothing else give
/// the same.
pub proof fn law_command_line_tells_no_network(
    dir_a: Option<Seq<char>>,
    dir_b: Option<Seq<char>>,
    name: Seq<char>,
    a: Seq<Seq<char>>,
    b: Seq<Seq<char>>,
)
    requires
        is_file_name(name),
        same_but_network(a, b),
    ensures
        sanitized(seq![path_of(dir_a, name)] + a) == sanitized(seq![path_of(dir_b, name)] + b),
{
    lemma_program_name(dir_a, name);
    lemma_program_name(dir_b, name);
    lemma_kept_alike(a, b);
    assert((seq![path_of(dir_a, name)] + a).skip(1) =~= a);
    assert((seq![path_of(dir_b, name)] + b).skip(1) =~= b);
}

} // verus!
