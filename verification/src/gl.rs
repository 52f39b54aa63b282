//! What the GL renderer is made of: shader sources, the planes of imported
//! buffers, the attributes that import them, and the choice of a strategy.
use crate::presentation::TextureLayout;
use crate::text::{contains_text, copy_text, has_text, push_signed, signed_decimal};
use vstd::prelude::*;

verus! {

/// The modifier that means "none".
pub const DRM_FORMAT_MOD_INVALID: u64 = 0x00ff_ffff_ffff_ffff;

/// One byte for a pixel.
pub const DRM_FORMAT_R8: u32 = 0x2020_3852;

/// Two bytes for a pixel.
pub const DRM_FORMAT_GR88: u32 = 0x3838_5247;

/// Luma, and the two colours in turn.
pub const DRM_FORMAT_NV12: u32 = 0x3231_564e;

pub const EGL_WIDTH: usize = 0x3057;
pub const EGL_HEIGHT: usize = 0x3056;
pub const EGL_NONE: usize = 0x3038;
pub const EGL_LINUX_DRM_FOURCC_EXT: usize = 0x3271;
pub const EGL_DMA_BUF_PLANE0_FD_EXT: usize = 0x3272;
pub const EGL_DMA_BUF_PLANE0_OFFSET_EXT: usize = 0x3273;
pub const EGL_DMA_BUF_PLANE0_PITCH_EXT: usize = 0x3274;
pub const EGL_DMA_BUF_PLANE1_FD_EXT: usize = 0x3275;
pub const EGL_DMA_BUF_PLANE1_OFFSET_EXT: usize = 0x3276;
pub const EGL_DMA_BUF_PLANE1_PITCH_EXT: usize = 0x3277;
pub const EGL_DMA_BUF_PLANE0_MODIFIER_LO_EXT: usize = 0x3443;
pub const EGL_DMA_BUF_PLANE0_MODIFIER_HI_EXT: usize = 0x3444;
pub const EGL_DMA_BUF_PLANE1_MODIFIER_LO_EXT: usize = 0x3445;
pub const EGL_DMA_BUF_PLANE1_MODIFIER_HI_EXT: usize = 0x3446;
pub const EGL_YUV_COLOR_SPACE_HINT_EXT: usize = 0x327B;
pub const EGL_SAMPLE_RANGE_HINT_EXT: usize = 0x327C;
pub const EGL_ITU_REC709_EXT: usize = 0x3282;
pub const EGL_YUV_NARROW_RANGE_EXT: usize = 0x3287;

/// The number of four characters, the first one lowest.
pub open spec fn code_of(code: Seq<u8>) -> int {
    code[0] + code[1] * 0x100 + code[2] * 0x1_0000 + code[3] * 0x100_0000
}

/// The number of four characters, the first one lowest.
pub fn fourcc(code: [u8; 4]) -> (n: u32)
    ensures
        n == code_of(code@),
{
    code[0] as u32 + code[1] as u32 * 0x100 + code[2] as u32 * 0x1_0000 + code[3] as u32
        * 0x100_0000
}

/// The formats are the numbers of their names.
pub proof fn law_formats_spell_names()
    ensures
        DRM_FORMAT_R8 == code_of(seq![0x52u8, 0x38, 0x20, 0x20]),
        DRM_FORMAT_GR88 == code_of(seq![0x47u8, 0x52, 0x38, 0x38]),
        DRM_FORMAT_NV12 == code_of(seq![0x4eu8, 0x56, 0x31, 0x32]),
{
}

/// Vertex shader of all programs: a unit square stretched to a rectangle,
/// with the first row of the texture at its top.
pub const VS_SRC: &'static str = "attribute vec2 a_pos;
uniform vec4 u_rect; // x0, y0 (bottom-left), x1, y1 (top-right) in NDC
varying vec2 v_tex;
void main() {
    v_tex = vec2(a_pos.x, 1.0 - a_pos.y);
    gl_Position = vec4(mix(u_rect.xy, u_rect.zw, a_pos), 0.0, 1.0);
}
";

/// BT.709 limited-range YUV to RGB, part of the YUV fragment shaders.
pub const BT709_FN: &'static str = "vec3 bt709(float luma, float cb, float cr) {
    float y = 1.16438 * (luma - 0.0625);
    float u = cb - 0.5;
    float v = cr - 0.5;
    return vec3(
        y + 1.79274 * v,
        y - 0.21325 * u - 0.53291 * v,
        y + 2.11240 * u
    );
}
";

/// A whole imported buffer, which the driver converts.
pub const FS_RGB_EXT: &'static str = "#extension GL_OES_EGL_image_external : require
precision mediump float;
varying vec2 v_tex;
uniform samplerExternalOES u_tex0;
void main() {
    gl_FragColor = vec4(texture2D(u_tex0, v_tex).rgb, 1.0);
}
";

/// The stats overlay, blended over the video.
pub const FS_OVERLAY: &'static str = "precision mediump float;
varying vec2 v_tex;
uniform sampler2D u_tex0;
void main() {
    gl_FragColor = texture2D(u_tex0, v_tex);
}
";

/// What stands before the conversion in the NV12 shader.
pub const NV12_HEAD: &'static str = "precision mediump float;
varying vec2 v_tex;
uniform sampler2D u_tex0;
uniform sampler2D u_tex1;
";

/// What stands before the conversion in the NV12 shader for imported images.
pub const NV12_EXT_HEAD: &'static str = "#extension GL_OES_EGL_image_external : require
precision mediump float;
varying vec2 v_tex;
uniform samplerExternalOES u_tex0;
uniform samplerExternalOES u_tex1;
";

/// What stands behind the conversion in the NV12 shaders.
pub const NV12_MAIN: &'static str = "
void main() {
    float luma = texture2D(u_tex0, v_tex).r;
    vec2 uv = texture2D(u_tex1, v_tex).rg;
    gl_FragColor = vec4(bt709(luma, uv.r, uv.g), 1.0);
}
";

/// What stands before the conversion in the I420 shader.
pub const I420_HEAD: &'static str = "precision mediump float;
varying vec2 v_tex;
uniform sampler2D u_tex0;
uniform sampler2D u_tex1;
uniform sampler2D u_tex2;
";

/// What stands behind the conversion in the I420 shader.
pub const I420_MAIN: &'static str = "
void main() {
    float luma = texture2D(u_tex0, v_tex).r;
    float cb = texture2D(u_tex1, v_tex).r;
    float cr = texture2D(u_tex2, v_tex).r;
    gl_FragColor = vec4(bt709(luma, cb, cr), 1.0);
}
";

fn with_conversion(head: &str, body: &str) -> (s: String)
    ensures
        s@ == head@ + BT709_FN@ + body@,
{
    let mut s = copy_text(head);
    s.append(BT709_FN);
    s.append(body);
    s
}

/// Fragment shader for NV12 in two textures.
pub fn fs_nv12() -> (s: String)
    ensures
        s@ == NV12_HEAD@ + BT709_FN@ + NV12_MAIN@,
{
    with_conversion(NV12_HEAD, NV12_MAIN)
}

/// Fragment shader for NV12 in two imported images.
pub fn fs_nv12_ext() -> (s: String)
    ensures
        s@ == NV12_EXT_HEAD@ + BT709_FN@ + NV12_MAIN@,
{
    with_conversion(NV12_EXT_HEAD, NV12_MAIN)
}

/// Fragment shader for three planes in three textures.
pub fn fs_i420() -> (s: String)
    ensures
        s@ == I420_HEAD@ + BT709_FN@ + I420_MAIN@,
{
    with_conversion(I420_HEAD, I420_MAIN)
}

/// A buffer object of a frame.
#[derive(Debug, Clone, Copy, PartialEq, Eq, Structural)]
pub struct DrmObject {
    pub fd: i32,
    pub format_modifier: u64,
}

/// A plane in an object.
#[derive(Debug, Clone, Copy, PartialEq, Eq, Structural)]
pub struct DrmPlane {
    pub object_index: i32,
    pub offset: isize,
    pub pitch: isize,
}

/// A layer of planes.
#[derive(Debug, Clone, Copy)]
pub struct DrmLayer {
    pub format: u32,
    pub nb_planes: i32,
    pub planes: [DrmPlane; 4],
}

/// A frame in buffers of the graphics driver.
#[derive(Debug, Clone, Copy)]
pub struct DrmFrame {
    pub nb_objects: i32,
    pub objects: [DrmObject; 4],
    pub nb_layers: i32,
    pub layers: [DrmLayer; 4],
}

/// A plane to import.
#[derive(Debug, Clone, Copy, PartialEq, Eq, Structural)]
pub struct PlaneInfo {
    pub fd: i32,
    pub offset: usize,
    pub pitch: usize,
    pub modifier: u64,
    /// The format of the plane when it is imported alone.
    pub format: u32,
}

impl DrmFrame {
    /// How many objects the frame counts.
    pub open spec fn object_count(self) -> int {
        if self.nb_objects < 0 {
            -self.nb_objects
        } else {
            self.nb_objects as int
        }
    }

    /// A plane of a layer, or what is wrong with it. Its object is one that
    /// the frame counts and has room for.
    pub open spec fn plane(self, layer: int, plane: int, format: u32) -> Result<
        PlaneInfo,
        Seq<char>,
    > {
        let p = self.layers@[layer].planes@[plane];
        if !(0 <= p.object_index < self.object_count() && p.object_index < 4) {
            Err("bad object index "@ + signed_decimal(p.object_index as int))
        } else if p.offset < 0 {
            Err("negative plane offset"@)
        } else if p.pitch < 0 {
            Err("negative plane pitch"@)
        } else {
            let object = self.objects@[p.object_index as int];
            Ok(
                PlaneInfo {
                    fd: object.fd,
                    offset: p.offset as usize,
                    pitch: p.pitch as usize,
                    modifier: object.format_modifier,
                    format,
                },
            )
        }
    }

    /// Luma and colour plane of an NV12 frame: two layers of one plane each,
    /// or one of two.
    pub open spec fn nv12(self) -> Result<(PlaneInfo, PlaneInfo), Seq<char>> {
        let planes = if self.nb_layers == 2 {
            Some(
                (
                    self.plane(0, 0, self.layers@[0].format),
                    self.plane(1, 0, self.layers@[1].format),
                ),
            )
        } else if self.nb_layers == 1 && self.layers@[0].nb_planes == 2 {
            Some((self.plane(0, 0, DRM_FORMAT_R8), self.plane(0, 1, DRM_FORMAT_GR88)))
        } else {
            None
        };
        match planes {
            Some((Ok(y), Ok(uv))) => Ok((y, uv)),
            Some((Err(e), _)) => Err(e),
            Some((_, Err(e))) => Err(e),
            None => Err(
                "unsupported DRM frame layout ("@ + signed_decimal(self.nb_layers as int)
                    + " layers, "@ + signed_decimal(self.layers@[0].nb_planes as int)
                    + " planes)"@,
            ),
        }
    }

    fn plane_info(&self, layer: usize, plane: usize, format: u32) -> (r: Result<
        PlaneInfo,
        String,
    >)
        requires
            layer < 4,
            plane < 4,
        ensures
            match r {
                Ok(info) => self.plane(layer as int, plane as int, format) == Ok::<
                    PlaneInfo,
                    Seq<char>,
                >(info),
                Err(e) => self.plane(layer as int, plane as int, format) == Err::<
                    PlaneInfo,
                    Seq<char>,
                >(e@),
            },
    {
        let p: DrmPlane = self.layers[layer].planes[plane];
        let count: i64 = if self.nb_objects < 0 {
            -(self.nb_objects as i64)
        } else {
            self.nb_objects as i64
        };
        if p.object_index < 0 || p.object_index as i64 >= count || p.object_index >= 4 {
            let mut s = copy_text("bad object index ");
            push_signed(&mut s, p.object_index as i64);
            return Err(s);
        }
        if p.offset < 0 {
            return Err(copy_text("negative plane offset"));
        }
        if p.pitch < 0 {
            return Err(copy_text("negative plane pitch"));
        }
        let object: DrmObject = self.objects[p.object_index as usize];
        Ok(
            PlaneInfo {
                fd: object.fd,
                offset: p.offset as usize,
                pitch: p.pitch as usize,
                modifier: object.format_modifier,
                format,
            },
        )
    }
}

/// Luma and colour plane of an NV12 frame, or what is wrong with it.
pub fn nv12_planes(desc: &DrmFrame) -> (r: Result<(PlaneInfo, PlaneInfo), String>)
    ensures
        match r {
            Ok(planes) => desc.nv12() == Ok::<(PlaneInfo, PlaneInfo), Seq<char>>(planes),
            Err(e) => desc.nv12() == Err::<(PlaneInfo, PlaneInfo), Seq<char>>(e@),
        },
{
    if desc.nb_layers == 2 {
        match desc.plane_info(0, 0, desc.layers[0].format) {
            Ok(y) => match desc.plane_info(1, 0, desc.layers[1].format) {
                Ok(uv) => Ok((y, uv)),
                Err(e) => Err(e),
            },
            Err(e) => Err(e),
        }
    } else if desc.nb_layers == 1 && desc.layers[0].nb_planes == 2 {
        match desc.plane_info(0, 0, DRM_FORMAT_R8) {
            Ok(y) => match desc.plane_info(0, 1, DRM_FORMAT_GR88) {
                Ok(uv) => Ok((y, uv)),
                Err(e) => Err(e),
            },
            Err(e) => Err(e),
        }
    } else {
        let mut s = copy_text("unsupported DRM frame layout (");
        push_signed(&mut s, desc.nb_layers as i64);
        s.append(" layers, ");
        push_signed(&mut s, desc.layers[0].nb_planes as i64);
        s.append(" planes)");
        Err(s)
    }
}

/// A file descriptor as an attribute.
pub open spec fn fd_attribute(fd: i32) -> usize {
    if fd >= 0 {
        fd as usize
    } else {
        (fd + 0x1_0000_0000) as usize
    }
}

fn fd_number(fd: i32) -> (n: usize)
    ensures
        n == fd_attribute(fd),
{
    if fd >= 0 {
        fd as usize
    } else {
        (0xffff_ffffu32 - (-(fd + 1)) as u32) as usize
    }
}

/// The attributes of a modifier: its low half and its high one.
pub open spec fn modifier_attributes(low: usize, high: usize, modifier: u64) -> Seq<usize> {
    seq![
        low,
        (modifier % 0x1_0000_0000) as usize,
        high,
        (modifier / 0x1_0000_0000) as usize,
    ]
}

/// The modifier of a plane is given: the driver takes modifiers, and it has
/// one.
pub open spec fn gives_modifier(supported: bool, plane: PlaneInfo) -> bool {
    supported && plane.modifier != DRM_FORMAT_MOD_INVALID
}

/// The attributes that import one plane, or two as a whole picture.
pub open spec fn attributes_of(
    width: u32,
    height: u32,
    format: u32,
    plane0: PlaneInfo,
    plane1: Option<PlaneInfo>,
    modifiers: bool,
) -> Seq<usize> {
    let head = seq![
        EGL_LINUX_DRM_FOURCC_EXT,
        format as usize,
        EGL_WIDTH,
        width as usize,
        EGL_HEIGHT,
        height as usize,
        EGL_DMA_BUF_PLANE0_FD_EXT,
        fd_attribute(plane0.fd),
        EGL_DMA_BUF_PLANE0_OFFSET_EXT,
        plane0.offset,
        EGL_DMA_BUF_PLANE0_PITCH_EXT,
        plane0.pitch,
    ];
    let first = if gives_modifier(modifiers, plane0) {
        head + modifier_attributes(
            EGL_DMA_BUF_PLANE0_MODIFIER_LO_EXT,
            EGL_DMA_BUF_PLANE0_MODIFIER_HI_EXT,
            plane0.modifier,
        )
    } else {
        head
    };
    let second = match plane1 {
        Some(p) => {
            let body = first + seq![
                EGL_DMA_BUF_PLANE1_FD_EXT,
                fd_attribute(p.fd),
                EGL_DMA_BUF_PLANE1_OFFSET_EXT,
                p.offset,
                EGL_DMA_BUF_PLANE1_PITCH_EXT,
                p.pitch,
            ];
            let modified = if gives_modifier(modifiers, plane0) && gives_modifier(modifiers, p) {
                body + modifier_attributes(
                    EGL_DMA_BUF_PLANE1_MODIFIER_LO_EXT,
                    EGL_DMA_BUF_PLANE1_MODIFIER_HI_EXT,
                    p.modifier,
                )
            } else {
                body
            };
            modified + seq![
                EGL_YUV_COLOR_SPACE_HINT_EXT,
                EGL_ITU_REC709_EXT,
                EGL_SAMPLE_RANGE_HINT_EXT,
                EGL_YUV_NARROW_RANGE_EXT,
            ]
        },
        None => first,
    };
    second.push(EGL_NONE)
}

fn push_modifier(out: &mut Vec<usize>, low: usize, high: usize, modifier: u64)
    ensures
        final(out)@ == old(out)@ + modifier_attributes(low, high, modifier),
{
    out.push(low);
    out.push((modifier % 0x1_0000_0000) as usize);
    out.push(high);
    out.push((modifier / 0x1_0000_0000) as usize);
    assert(out@ =~= old(out)@ + modifier_attributes(low, high, modifier));
}

/// The attributes that import one plane, or two as a whole picture with the
/// colours that the stream has.
pub fn image_attributes(
    width: u32,
    height: u32,
    format: u32,
    plane0: &PlaneInfo,
    plane1: Option<&PlaneInfo>,
    modifiers: bool,
) -> (out: Vec<usize>)
    ensures
        out@ == attributes_of(
            width,
            height,
            format,
            *plane0,
            match plane1 {
                Some(p) => Some(*p),
                None => None,
            },
            modifiers,
        ),
{
    let mut out: Vec<usize> = vec![
        EGL_LINUX_DRM_FOURCC_EXT,
        format as usize,
        EGL_WIDTH,
        width as usize,
        EGL_HEIGHT,
        height as usize,
        EGL_DMA_BUF_PLANE0_FD_EXT,
        fd_number(plane0.fd),
        EGL_DMA_BUF_PLANE0_OFFSET_EXT,
        plane0.offset,
        EGL_DMA_BUF_PLANE0_PITCH_EXT,
        plane0.pitch,
    ];
    let ghost head = out@;
    let with_modifiers = modifiers && plane0.modifier != DRM_FORMAT_MOD_INVALID;
    if with_modifiers {
        push_modifier(
            &mut out,
            EGL_DMA_BUF_PLANE0_MODIFIER_LO_EXT,
            EGL_DMA_BUF_PLANE0_MODIFIER_HI_EXT,
            plane0.modifier,
        );
    }
    if let Some(p) = plane1 {
        let ghost first = out@;
        out.push(EGL_DMA_BUF_PLANE1_FD_EXT);
        out.push(fd_number(p.fd));
        out.push(EGL_DMA_BUF_PLANE1_OFFSET_EXT);
        out.push(p.offset);
        out.push(EGL_DMA_BUF_PLANE1_PITCH_EXT);
        out.push(p.pitch);
        assert(out@ =~= first + seq![
            EGL_DMA_BUF_PLANE1_FD_EXT,
            fd_attribute(p.fd),
            EGL_DMA_BUF_PLANE1_OFFSET_EXT,
            p.offset,
            EGL_DMA_BUF_PLANE1_PITCH_EXT,
            p.pitch,
        ]);
        if with_modifiers && p.modifier != DRM_FORMAT_MOD_INVALID {
            push_modifier(
                &mut out,
                EGL_DMA_BUF_PLANE1_MODIFIER_LO_EXT,
                EGL_DMA_BUF_PLANE1_MODIFIER_HI_EXT,
                p.modifier,
            );
        }
        let ghost modified = out@;
        out.push(EGL_YUV_COLOR_SPACE_HINT_EXT);
        out.push(EGL_ITU_REC709_EXT);
        out.push(EGL_SAMPLE_RANGE_HINT_EXT);
        out.push(EGL_YUV_NARROW_RANGE_EXT);
        assert(out@ =~= modified + seq![
            EGL_YUV_COLOR_SPACE_HINT_EXT,
            EGL_ITU_REC709_EXT,
            EGL_SAMPLE_RANGE_HINT_EXT,
            EGL_YUV_NARROW_RANGE_EXT,
        ]);
    }
    out.push(EGL_NONE);
    out
}

/// What the driver can import, from its list of extensions: nothing, buffers
/// without modifiers (`Some(false)`), or with them.
pub fn import_support(extensions: &str) -> (r: Option<bool>)
    ensures
        r == (if has_text(extensions@, "EGL_EXT_image_dma_buf_import"@) {
            Some(has_text(extensions@, "EGL_EXT_image_dma_buf_import_modifiers"@))
        } else {
            None
        }),
{
    if contains_text(extensions, "EGL_EXT_image_dma_buf_import") {
        Some(contains_text(extensions, "EGL_EXT_image_dma_buf_import_modifiers"))
    } else {
        None
    }
}

/// A texture that holds a plane.
#[derive(Debug, Clone, Copy, PartialEq, Eq, Structural)]
pub struct PlaneTexture {
    pub width: u32,
    pub height: u32,
    /// Two bytes for a pixel instead of one.
    pub pair: bool,
}

/// The textures of a frame in memory: the colours have half the width and
/// half the height, together or apart.
pub fn plane_textures(layout: TextureLayout, width: u32, height: u32) -> (plan: Vec<PlaneTexture>)
    ensures
        plan@ == (match layout {
            TextureLayout::Nv12 => seq![
                PlaneTexture { width, height, pair: false },
                PlaneTexture { width: width / 2, height: height / 2, pair: true },
            ],
            TextureLayout::I420 => seq![
                PlaneTexture { width, height, pair: false },
                PlaneTexture { width: width / 2, height: height / 2, pair: false },
                PlaneTexture { width: width / 2, height: height / 2, pair: false },
            ],
        }),
{
    match layout {
        TextureLayout::Nv12 => vec![
            PlaneTexture { width, height, pair: false },
            PlaneTexture { width: width / 2, height: height / 2, pair: true },
        ],
        TextureLayout::I420 => vec![
            PlaneTexture { width, height, pair: false },
            PlaneTexture { width: width / 2, height: height / 2, pair: false },
            PlaneTexture { width: width / 2, height: height / 2, pair: false },
        ],
    }
}

/// Whether the textures at hand, for frames of a layout and size, cannot take
/// a frame.
pub fn needs_textures(
    current: Option<(TextureLayout, u32, u32)>,
    layout: TextureLayout,
    width: u32,
    height: u32,
) -> (r: bool)
    ensures
        r == (current != Some((layout, width, height))),
{
    match current {
        Some((l, w, h)) => l != layout || w != width || h != height,
        None => true,
    }
}

/// How frames in buffers of the driver are imported.
#[derive(Debug, Clone, Copy, PartialEq, Eq, Structural)]
pub enum ImportMode {
    /// Not tried yet.
    Undecided,
    /// Luma and colours as two textures, of the external kind or not.
    TwoPlane {
        external: bool,
    },
    /// The whole picture as one external texture.
    WholeFrame,
}

impl ImportMode {
    /// The ways to try for a frame, in order.
    pub open spec fn ways(self) -> Seq<ImportMode> {
        match self {
            ImportMode::Undecided => seq![
                ImportMode::TwoPlane { external: false },
                ImportMode::TwoPlane { external: true },
                ImportMode::WholeFrame,
            ],
            _ => seq![self],
        }
    }

    /// The mode once a way was tried.
    pub open spec fn tried(self, way: ImportMode, worked: bool) -> ImportMode {
        if self is Undecided && worked {
            way
        } else {
            self
        }
    }

    /// The ways to try for a frame, in order: all of them until one has
    /// worked, and that one from then on.
    pub fn attempts(&self) -> (ways: Vec<ImportMode>)
        ensures
            ways@ == self.ways(),
    {
        match *self {
            ImportMode::Undecided => vec![
                ImportMode::TwoPlane { external: false },
                ImportMode::TwoPlane { external: true },
                ImportMode::WholeFrame,
            ],
            mode => vec![mode],
        }
    }

    /// The mode once a way was tried: the first one that works is kept.
    pub fn after(&self, way: ImportMode, worked: bool) -> (mode: ImportMode)
        ensures
            mode == self.tried(way, worked),
    {
        match *self {
            ImportMode::Undecided if worked => way,
            mode => mode,
        }
    }

    /// What the mode is called.
    pub fn name(&self) -> (s: &'static str)
        ensures
            s@ == (match *self {
                ImportMode::Undecided => "undecided"@,
                ImportMode::TwoPlane { external: false } => "two-plane GL_TEXTURE_2D"@,
                ImportMode::TwoPlane { external: true } => "two-plane GL_TEXTURE_EXTERNAL_OES"@,
                ImportMode::WholeFrame => "whole-frame external"@,
            }),
    {
        match *self {
            ImportMode::Undecided => "undecided",
            ImportMode::TwoPlane { external } => {
                if external {
                    "two-plane GL_TEXTURE_EXTERNAL_OES"
                } else {
                    "two-plane GL_TEXTURE_2D"
                }
            },
            ImportMode::WholeFrame => "whole-frame external",
        }
    }
}

/// Once a way of importing has worked it is the only one tried, whatever
/// comes of it.
pub proof fn law_import_mode_sticks(mode: ImportMode, way: ImportMode, worked: bool)
    requires
        !(mode is Undecided),
    ensures
        mode.tried(way, worked) == mode,
        mode.ways() == seq![mode],
        ImportMode::Undecided.tried(way, false) == ImportMode::Undecided,
{
}

} // verus!
