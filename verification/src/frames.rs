//! Decoded frames: copying picture planes out of padded buffers.
use crate::decode::{DecodedFrame, FramePixels, FrameStats};
use vstd::arithmetic::div_mod::lemma_fundamental_div_mod_converse;
use vstd::prelude::*;

verus! {

/// A plane of a picture in memory, whose rows start `stride` bytes apart.
#[derive(Debug, Clone, Copy)]
pub struct Plane<'a> {
    pub data: &'a [u8],
    pub stride: usize,
}

/// The bytes of a plane without the padding of its rows: of each row, every
/// `step`-th byte from `first` on.
pub open spec fn gathered(
    data: Seq<u8>,
    stride: int,
    step: int,
    first: int,
    width: int,
    height: int,
) -> Seq<u8> {
    Seq::new(
        (width * height) as nat,
        |i: int| data[(i / width) * stride + (i % width) * step + first],
    )
}

/// The plane holds all rows, where each has `width` elements of `step` bytes.
pub open spec fn covers(len: nat, stride: int, step: int, width: int, height: int) -> bool {
    &&& width * height <= usize::MAX
    &&& width > 0 && height > 0 ==> (height - 1) * stride + width * step <= len
}

fn gather(
    data: &[u8],
    stride: usize,
    step: usize,
    first: usize,
    width: usize,
    height: usize,
) -> (out: Vec<u8>)
    requires
        1 <= step <= 2,
        first < step,
        covers(data@.len(), stride as int, step as int, width as int, height as int),
    ensures
        out@ == gathered(
            data@,
            stride as int,
            step as int,
            first as int,
            width as int,
            height as int,
        ),
{
    let len: usize = data.len();
    let mut out: Vec<u8> = Vec::new();
    if width == 0 || height == 0 {
        assert(width * height == 0) by (nonlinear_arith)
            requires
                width == 0 || height == 0,
        ;
        assert(out@ =~= gathered(
            data@,
            stride as int,
            step as int,
            first as int,
            width as int,
            height as int,
        ));
        return out;
    }
    let ghost whole = gathered(
        data@,
        stride as int,
        step as int,
        first as int,
        width as int,
        height as int,
    );
    let mut row: usize = 0;
    assert(0 == 0 * width) by (nonlinear_arith);
    assert(out@ =~= whole.take(0));
    while row < height
        invariant
            row <= height,
            width > 0,
            1 <= step <= 2,
            first < step,
            len == data@.len(),
            (height - 1) * stride + width * step <= len,
            width * height <= usize::MAX,
            whole == gathered(
                data@,
                stride as int,
                step as int,
                first as int,
                width as int,
                height as int,
            ),
            whole.len() == width * height,
            row * width <= width * height,
            out@ == whole.take(row * width),
        decreases height - row,
    {
        assert(row * stride <= (height - 1) * stride) by (nonlinear_arith)
            requires
                row <= height - 1,
        ;
        assert(width * step >= 0) by (nonlinear_arith)
            requires
                width > 0,
                step >= 1,
        ;
        assert(row * stride >= 0) by (nonlinear_arith)
            requires
                row >= 0,
                stride >= 0,
        ;
        assert((row + 1) * width == row * width + width) by (nonlinear_arith);
        assert((row + 1) * width <= width * height) by (nonlinear_arith)
            requires
                row + 1 <= height,
        ;
        let start: usize = row * stride;
        let mut col: usize = 0;
        while col < width
            invariant
                col <= width,
                width > 0,
                row < height,
                1 <= step <= 2,
                first < step,
                start == row * stride,
                len == data@.len(),
                start + width * step <= len,
                row * width + width <= width * height,
                whole == gathered(
                    data@,
                    stride as int,
                    step as int,
                    first as int,
                    width as int,
                    height as int,
                ),
                whole.len() == width * height,
                out@ == whole.take(row * width + col),
            decreases width - col,
        {
            assert(col * step + first < width * step) by (nonlinear_arith)
                requires
                    col + 1 <= width,
                    first < step,
            ;
            assert(col * step >= 0) by (nonlinear_arith)
                requires
                    col >= 0,
                    step >= 1,
            ;
            let ghost i = row * width + col;
            proof {
                lemma_fundamental_div_mod_converse(i, width as int, row as int, col as int);
                assert(whole[i] == data@[row * stride + col * step + first]);
            }
            out.push(data[start + col * step + first]);
            assert(out@ =~= whole.take(row * width + col + 1));
            col = col + 1;
        }
        row = row + 1;
    }
    assert(height * width == width * height) by (nonlinear_arith);
    assert(whole.take(row * width) =~= whole);
    out
}

/// Copies a plane without the padding of its rows.
pub fn copy_plane(data: &[u8], stride: usize, width: usize, height: usize) -> (out: Vec<u8>)
    requires
        covers(data@.len(), stride as int, 1, width as int, height as int),
    ensures
        out@ == gathered(data@, stride as int, 1, 0, width as int, height as int),
{
    gather(data, stride, 1, 0, width, height)
}

/// The stride of a plane, or 0 for one that the frame does not have.
pub fn plane_stride(strides: &[usize], index: usize) -> (stride: usize)
    ensures
        stride == (if index < strides@.len() {
            strides@[index as int]
        } else {
            0
        }),
{
    if index < strides.len() {
        strides[index]
    } else {
        0
    }
}

/// A timestamp as the stream counts it; a frame without one has 0.
pub open spec fn stream_pts(pts: Option<i64>) -> u64 {
    match pts {
        Some(p) if p >= 0 => p as u64,
        Some(p) => (p + 0x1_0000_0000_0000_0000) as u64,
        None => 0,
    }
}

fn unsigned_pts(pts: Option<i64>) -> (r: u64)
    ensures
        r == stream_pts(pts),
{
    match pts {
        Some(p) => {
            if p >= 0 {
                p as u64
            } else {
                u64::MAX - (-(p + 1)) as u64
            }
        },
        None => 0,
    }
}

/// A picture of three planes in memory can be read.
pub open spec fn covers_yuv(y: Plane, u: Plane, v: Plane, width: u32, height: u32) -> bool {
    &&& covers(y.data@.len(), y.stride as int, 1, width as int, height as int)
    &&& covers(u.data@.len(), u.stride as int, 1, width as int / 2, height as int / 2)
    &&& covers(v.data@.len(), v.stride as int, 1, width as int / 2, height as int / 2)
}

/// A picture of a luma plane and one of colour pairs can be read.
pub open spec fn covers_nv12(y: Plane, uv: Plane, width: u32, height: u32) -> bool {
    &&& covers(y.data@.len(), y.stride as int, 1, width as int, height as int)
    &&& covers(uv.data@.len(), uv.stride as int, 2, width as int / 2, height as int / 2)
}

fn is_covered(len: usize, stride: usize, step: usize, width: usize, height: usize) -> (r: bool)
    requires
        1 <= step <= 2,
    ensures
        r == covers(len as nat, stride as int, step as int, width as int, height as int),
{
    if width == 0 || height == 0 {
        assert(width * height == 0) by (nonlinear_arith)
            requires
                width == 0 || height == 0,
        ;
        return true;
    }
    match width.checked_mul(height) {
        Some(_) => {},
        None => return false,
    }
    let rows: usize = match (height - 1).checked_mul(stride) {
        Some(n) => n,
        None => {
            assert(width * step >= 0) by (nonlinear_arith)
                requires
                    width > 0,
                    step >= 1,
            ;
            return false;
        },
    };
    assert((height - 1) * stride >= 0) by (nonlinear_arith)
        requires
            height > 0,
            stride >= 0,
    ;
    let row: usize = match width.checked_mul(step) {
        Some(n) => n,
        None => return false,
    };
    match rows.checked_add(row) {
        Some(n) => n <= len,
        None => false,
    }
}

/// Whether a picture of three planes in memory can be read.
pub fn can_read_yuv(y: &Plane, u: &Plane, v: &Plane, width: u32, height: u32) -> (r: bool)
    ensures
        r == covers_yuv(*y, *u, *v, width, height),
{
    let (w, h) = (width as usize, height as usize);
    is_covered(y.data.len(), y.stride, 1, w, h) && is_covered(
        u.data.len(),
        u.stride,
        1,
        w / 2,
        h / 2,
    ) && is_covered(v.data.len(), v.stride, 1, w / 2, h / 2)
}

/// Whether a picture of a luma plane and one of colour pairs can be read.
pub fn can_read_nv12(y: &Plane, uv: &Plane, width: u32, height: u32) -> (r: bool)
    ensures
        r == covers_nv12(*y, *uv, width, height),
{
    let (w, h) = (width as usize, height as usize);
    is_covered(y.data.len(), y.stride, 1, w, h) && is_covered(
        uv.data.len(),
        uv.stride,
        2,
        w / 2,
        h / 2,
    )
}

/// The planes of a picture: brightness, and the two colours at half the size.
#[verifier::ext_equal]
pub struct PictureView {
    pub y: Seq<u8>,
    pub u: Seq<u8>,
    pub v: Seq<u8>,
}

/// The planes that a frame has.
pub open spec fn picture_of(pixels: FramePixels) -> Option<PictureView> {
    match pixels {
        FramePixels::I420 { y, u, v } => Some(PictureView { y: y@, u: u@, v: v@ }),
        _ => None,
    }
}

/// The picture in three planes.
pub open spec fn yuv_picture(y: Plane, u: Plane, v: Plane, width: int, height: int) -> PictureView {
    PictureView {
        y: gathered(y.data@, y.stride as int, 1, 0, width, height),
        u: gathered(u.data@, u.stride as int, 1, 0, width / 2, height / 2),
        v: gathered(v.data@, v.stride as int, 1, 0, width / 2, height / 2),
    }
}

/// The picture in a plane of brightness and one of colours in turn.
pub open spec fn nv12_picture(y: Plane, uv: Plane, width: int, height: int) -> PictureView {
    PictureView {
        y: gathered(y.data@, y.stride as int, 1, 0, width, height),
        u: gathered(uv.data@, uv.stride as int, 2, 0, width / 2, height / 2),
        v: gathered(uv.data@, uv.stride as int, 2, 1, width / 2, height / 2),
    }
}

/// Takes a frame out of three planes: the colour planes have half the width
/// and half the height.
pub fn extract_yuv420p(y: Plane, u: Plane, v: Plane, width: u32, height: u32, pts: Option<i64>) -> (
    frame: DecodedFrame)
    requires
        covers_yuv(y, u, v, width, height),
    ensures
        frame.width == width,
        frame.height == height,
        frame.pts == stream_pts(pts),
        frame.stats == (FrameStats {
            capture_us: 0,
            convert_us: 0,
            encode_us: 0,
            queue_us: 0,
            decode_us: 0,
            packet_bytes: 0,
        }),
        frame.pixels matches FramePixels::I420 { y: fy, u: fu, v: fv } && fy@ == gathered(
            y.data@,
            y.stride as int,
            1,
            0,
            width as int,
            height as int,
        ) && fu@ == gathered(
            u.data@,
            u.stride as int,
            1,
            0,
            width as int / 2,
            height as int / 2,
        ) && fv@ == gathered(
            v.data@,
            v.stride as int,
            1,
            0,
            width as int / 2,
            height as int / 2,
        ),
        picture_of(frame.pixels) == Some(yuv_picture(y, u, v, width as int, height as int)),
{
    let (w, h) = (width as usize, height as usize);
    DecodedFrame {
        pixels: FramePixels::I420 {
            y: copy_plane(y.data, y.stride, w, h),
            u: copy_plane(u.data, u.stride, w / 2, h / 2),
            v: copy_plane(v.data, v.stride, w / 2, h / 2),
        },
        width,
        height,
        pts: unsigned_pts(pts),
        stats: FrameStats::default(),
    }
}

/// Takes a frame out of a luma plane and one in which the two colours
/// alternate, which are parted.
pub fn extract_nv12_to_yuv420p(y: Plane, uv: Plane, width: u32, height: u32, pts: Option<i64>) -> (
    frame: DecodedFrame)
    requires
        covers_nv12(y, uv, width, height),
    ensures
        frame.width == width,
        frame.height == height,
        frame.pts == stream_pts(pts),
        frame.stats == (FrameStats {
            capture_us: 0,
            convert_us: 0,
            encode_us: 0,
            queue_us: 0,
            decode_us: 0,
            packet_bytes: 0,
        }),
        frame.pixels matches FramePixels::I420 { y: fy, u: fu, v: fv } && fy@ == gathered(
            y.data@,
            y.stride as int,
            1,
            0,
            width as int,
            height as int,
        ) && fu@ == gathered(
            uv.data@,
            uv.stride as int,
            2,
            0,
            width as int / 2,
            height as int / 2,
        ) && fv@ == gathered(
            uv.data@,
            uv.stride as int,
            2,
            1,
            width as int / 2,
            height as int / 2,
        ),
        picture_of(frame.pixels) == Some(nv12_picture(y, uv, width as int, height as int)),
{
    let (w, h) = (width as usize, height as usize);
    DecodedFrame {
        pixels: FramePixels::I420 {
            y: copy_plane(y.data, y.stride, w, h),
            u: gather(uv.data, uv.stride, 2, 0, w / 2, h / 2),
            v: gather(uv.data, uv.stride, 2, 1, w / 2, h / 2),
        },
        width,
        height,
        pts: unsigned_pts(pts),
        stats: FrameStats::default(),
    }
}

/// A plane without padding is copied as it is.
pub proof fn law_unpadded_plane_copied(data: Seq<u8>, width: int, height: int)
    requires
        width > 0,
        height > 0,
        width * height <= data.len(),
    ensures
        gathered(data, width, 1, 0, width, height) == data.take(width * height),
{
    let out = gathered(data, width, 1, 0, width, height);
    assert(width * height >= 0) by (nonlinear_arith)
        requires
            width > 0,
            height > 0,
    ;
    assert forall|i: int| 0 <= i < out.len() implies out[i] == data.take(width * height)[i] by {
        vstd::arithmetic::div_mod::lemma_fundamental_div_mod(i, width);
        assert((i / width) * width == width * (i / width)) by (nonlinear_arith);
    }
    assert(out =~= data.take(width * height));
}

/// Parting the colours and reading them back pair by pair gives what was
/// interleaved.
pub proof fn law_colours_alternate(uv: Seq<u8>, stride: int, width: int, height: int, row: int, col: int)
    requires
        0 <= row < height,
        0 <= col < width,
    ensures
        gathered(uv, stride, 2, 0, width, height)[row * width + col] == uv[row * stride + 2 * col],
        gathered(uv, stride, 2, 1, width, height)[row * width + col] == uv[row * stride + 2 * col
            + 1],
{
    let i = row * width + col;
    lemma_fundamental_div_mod_converse(i, width, row, col);
    assert(0 <= i < width * height) by (nonlinear_arith)
        requires
            i == row * width + col,
            0 <= row < height,
            0 <= col < width,
    ;
}

} // verus!
