//! Pixel-buffer transforms on XRGB8888 rasters: packing a strided readback into a
//! tight raster, rotating captures upright, cropping, and RGB extraction.
use vstd::prelude::*;
use vstd::arithmetic::div_mod::{lemma_fundamental_div_mod, lemma_fundamental_div_mod_converse, lemma_mod_pos_bound, lemma_div_pos_is_pos};
use crate::rotation::{
    CapturePixelRotation, OutputRotation, capture_pixel_rotation, present_preserves_readback_row_order,
    spec_capture_pixel_rotation, spec_present_preserves_readback_row_order,
};
use vstd::slice::slice_to_vec;

verus! {

/// Byte `k` of row `y` of a tightly packed copy of a strided raster. Row `y` is read
/// from source row `height - 1 - y` when the source rows are flipped; bytes that the
/// source does not hold (and every byte, for a zero stride) are zero.
pub open spec fn packed_source_byte(
    src: Seq<u8>,
    stride: int,
    height: int,
    flipped: bool,
    y: int,
    k: int,
) -> u8 {
    let src_y = if flipped { height - 1 - y } else { y };
    let s = src_y * stride + k;
    if stride > 0 && 0 <= s < src.len() { src[s] } else { 0 }
}

/// `packed_source_byte` addressed by the flat index of the packed raster.
pub open spec fn packed_byte_at(
    src: Seq<u8>,
    stride: int,
    row_len: int,
    height: int,
    flipped: bool,
    i: int,
) -> u8 {
    packed_source_byte(src, stride, height, flipped, i / row_len, i % row_len)
}

/// The tightly packed copy of a strided raster (see `packed_source_byte`).
pub open spec fn packed_raster(
    src: Seq<u8>,
    stride: int,
    width: int,
    height: int,
    flipped: bool,
) -> Seq<u8> {
    Seq::new(
        (height * (width * 4)) as nat,
        |i: int| packed_byte_at(src, stride, width * 4, height, flipped, i),
    )
}

proof fn lemma_row_index(y: int, row_len: int, k: int)
    requires
        0 <= y,
        0 <= k < row_len,
    ensures
        (y * row_len + k) / row_len == y,
        (y * row_len + k) % row_len == k,
{
    lemma_fundamental_div_mod_converse(y * row_len + k, row_len, y, k);
}

proof fn lemma_row_bound(y: int, height: int, row_len: int, k: int)
    requires
        0 <= y < height,
        0 <= k < row_len,
    ensures
        0 <= y * row_len + k < height * row_len,
{
    assert(0 <= y * row_len) by (nonlinear_arith)
        requires
            0 <= y,
            0 <= row_len,
    ;
    assert(y * row_len + row_len <= height * row_len) by (nonlinear_arith)
        requires
            y + 1 <= height,
            0 <= row_len,
    ;
}

/// Copies `src_height` rows of `src_width` XRGB8888 pixels out of a buffer with row
/// pitch `src_stride` into a tightly packed raster, undoing a vertical flip of the
/// source when `src_flipped` is set.
pub fn pack_xrgb8888(
    src_pixels: &[u8],
    src_stride: usize,
    src_width: usize,
    src_height: usize,
    src_flipped: bool,
) -> (packed: Vec<u8>)
    requires
        src_height * (src_width * 4) <= usize::MAX,
    ensures
        packed@ == packed_raster(
            src_pixels@,
            src_stride as int,
            src_width as int,
            src_height as int,
            src_flipped,
        ),
        packed@.len() == src_height * (src_width * 4),
        forall|y: int, k: int|
            0 <= y < src_height && 0 <= k < src_width * 4 ==> #[trigger] packed@[y * (src_width
                * 4) + k] == packed_source_byte(
                src_pixels@,
                src_stride as int,
                src_height as int,
                src_flipped,
                y,
                k,
            ),
{
    if src_height == 0 {
        let empty: Vec<u8> = Vec::new();
        assert(empty@ =~= packed_raster(
            src_pixels@,
            src_stride as int,
            src_width as int,
            src_height as int,
            src_flipped,
        ));
        return empty;
    }
    assert(src_width * 4 <= src_height * (src_width * 4)) by (nonlinear_arith)
        requires
            src_height >= 1,
    ;
    let row_len = src_width * 4;
    let ghost src = src_pixels@;
    let src_len = src_pixels.len();
    let mut packed: Vec<u8> = Vec::new();
    let mut y: usize = 0;
    while y < src_height
        invariant
            y <= src_height,
            row_len == src_width * 4,
            src_height * row_len <= usize::MAX,
            src == src_pixels@,
            src.len() == src_len,
            packed@.len() == y * row_len,
            forall|i: int|
                0 <= i < packed@.len() ==> #[trigger] packed@[i] == packed_byte_at(
                    src,
                    src_stride as int,
                    row_len as int,
                    src_height as int,
                    src_flipped,
                    i,
                ),
        decreases src_height - y,
    {
        let src_y = if src_flipped {
            src_height - 1 - y
        } else {
            y
        };
        let mut k: usize = 0;
        while k < row_len
            invariant
                y < src_height,
                k <= row_len,
                row_len == src_width * 4,
                src_height * row_len <= usize::MAX,
                src == src_pixels@,
                src.len() == src_len,
                src_y == (if src_flipped { src_height - 1 - y } else { y as int }),
                packed@.len() == y * row_len + k,
                forall|i: int|
                    0 <= i < packed@.len() ==> #[trigger] packed@[i] == packed_byte_at(
                        src,
                        src_stride as int,
                        row_len as int,
                        src_height as int,
                        src_flipped,
                        i,
                    ),
            decreases row_len - k,
        {
            let byte: u8 = if src_stride == 0 {
                0
            } else {
                match src_y.checked_mul(src_stride) {
                    Some(start) => match start.checked_add(k) {
                        Some(s) => if s < src_len {
                            src_pixels[s]
                        } else {
                            0
                        },
                        None => 0,
                    },
                    None => 0,
                }
            };
            proof {
                lemma_row_index(y as int, row_len as int, k as int);
                lemma_row_bound(y as int, src_height as int, row_len as int, k as int);
                assert(byte == packed_source_byte(src, src_stride as int, src_height as int, src_flipped, y as int, k as int));
            }
            packed.push(byte);
            proof {
                let i = y * row_len + k;
                assert(packed@[i] == packed_byte_at(src, src_stride as int, row_len as int, src_height as int, src_flipped, i));
            }
            k = k + 1;
        }
        proof {
            assert((y + 1) * row_len == y * row_len + row_len) by (nonlinear_arith);
        }
        y = y + 1;
    }
    proof {
        assert forall|y: int, k: int|
            0 <= y < src_height && 0 <= k < src_width * 4 implies #[trigger] packed@[y * (
            src_width * 4) + k] == packed_source_byte(
            src_pixels@,
            src_stride as int,
            src_height as int,
            src_flipped,
            y,
            k,
        ) by {
            lemma_row_index(y, row_len as int, k);
            lemma_row_bound(y, src_height as int, row_len as int, k);
        }
        assert(packed@ =~= packed_raster(
            src,
            src_stride as int,
            src_width as int,
            src_height as int,
            src_flipped,
        ));
    }
    packed
}


/// The size of the raster that a `width` x `height` raster becomes under `transform`.
pub open spec fn rotated_dims(transform: CapturePixelRotation, width: int, height: int) -> (int, int) {
    match transform {
        CapturePixelRotation::Identity => (width, height),
        CapturePixelRotation::Rotate180 => (width, height),
        CapturePixelRotation::Rotate90Clockwise => (height, width),
        CapturePixelRotation::Rotate90Counterclockwise => (height, width),
    }
}

/// The source pixel `(x, y)` that lands on destination pixel `(dx, dy)` under `transform`.
pub open spec fn rotation_source(
    transform: CapturePixelRotation,
    width: int,
    height: int,
    dx: int,
    dy: int,
) -> (int, int) {
    match transform {
        CapturePixelRotation::Identity => (dx, dy),
        CapturePixelRotation::Rotate90Clockwise => (dy, height - 1 - dx),
        CapturePixelRotation::Rotate180 => (width - 1 - dx, height - 1 - dy),
        CapturePixelRotation::Rotate90Counterclockwise => (width - 1 - dy, dx),
    }
}

/// Channel `c` of pixel `(x, y)` of a packed raster `width` pixels wide, or zero where
/// the buffer does not hold the whole pixel.
pub open spec fn raster_byte(src: Seq<u8>, width: int, x: int, y: int, c: int) -> u8 {
    let base = (y * width + x) * 4;
    if 0 <= base && base + 4 <= src.len() { src[base + c] } else { 0 }
}

/// Byte `i` of the rotated raster (whose width is `dst_width`).
pub open spec fn rotated_byte(
    src: Seq<u8>,
    width: int,
    height: int,
    transform: CapturePixelRotation,
    dst_width: int,
    i: int,
) -> u8 {
    let p = i / 4;
    let c = i % 4;
    let (x, y) = rotation_source(transform, width, height, p % dst_width, p / dst_width);
    raster_byte(src, width, x, y, c)
}

/// The packed raster that `src` (`width` x `height` pixels) becomes under `transform`.
pub open spec fn rotated_raster(
    src: Seq<u8>,
    width: int,
    height: int,
    transform: CapturePixelRotation,
) -> Seq<u8> {
    let (dw, dh) = rotated_dims(transform, width, height);
    Seq::new((dw * dh * 4) as nat, |i: int| rotated_byte(src, width, height, transform, dw, i))
}

proof fn lemma_pixel_index(dx: int, dy: int, dw: int, c: int)
    requires
        0 <= dx < dw,
        0 <= dy,
        0 <= c < 4,
    ensures
        ((dy * dw + dx) * 4 + c) / 4 == dy * dw + dx,
        ((dy * dw + dx) * 4 + c) % 4 == c,
        (dy * dw + dx) / dw == dy,
        (dy * dw + dx) % dw == dx,
        0 <= dy * dw + dx,
{
    lemma_row_index(dy, dw, dx);
    assert(0 <= dy * dw) by (nonlinear_arith)
        requires
            0 <= dy,
            0 <= dw,
    ;
    lemma_row_index(dy * dw + dx, 4, c);
}

/// Rotates a packed XRGB8888 raster of `src_width` x `src_height` pixels.
/// Returns the rotated raster with its width and height.
pub fn rotate_xrgb8888(
    src_pixels: &[u8],
    src_width: usize,
    src_height: usize,
    transform: CapturePixelRotation,
) -> (r: (usize, usize, Vec<u8>))
    requires
        src_width * src_height * 4 <= usize::MAX,
    ensures
        (r.0 as int, r.1 as int) == rotated_dims(transform, src_width as int, src_height as int),
        r.2@ == rotated_raster(src_pixels@, src_width as int, src_height as int, transform),
        forall|dx: int, dy: int, c: int|
            0 <= dx < r.0 && 0 <= dy < r.1 && 0 <= c < 4 ==> #[trigger] r.2@[(dy * r.0 + dx) * 4
                + c] == {
                let (x, y) = rotation_source(
                    transform,
                    src_width as int,
                    src_height as int,
                    dx,
                    dy,
                );
                raster_byte(src_pixels@, src_width as int, x, y, c)
            },
{
    let (dst_width, dst_height) = match transform {
        CapturePixelRotation::Identity => (src_width, src_height),
        CapturePixelRotation::Rotate180 => (src_width, src_height),
        CapturePixelRotation::Rotate90Clockwise | CapturePixelRotation::Rotate90Counterclockwise => (
            src_height,
            src_width,
        ),
    };
    let ghost src = src_pixels@;
    let src_len = src_pixels.len();
    assert(dst_width * dst_height == src_width * src_height) by (nonlinear_arith)
        requires
            (dst_width == src_width && dst_height == src_height) || (dst_width == src_height
                && dst_height == src_width),
    ;
    let mut dst: Vec<u8> = Vec::new();
    let mut dy: usize = 0;
    while dy < dst_height
        invariant
            dy <= dst_height,
            (dst_width as int, dst_height as int) == rotated_dims(
                transform,
                src_width as int,
                src_height as int,
            ),
            dst_width * dst_height == src_width * src_height,
            src_width * src_height * 4 <= usize::MAX,
            src == src_pixels@,
            src.len() == src_len,
            dst@.len() == dy * dst_width * 4,
            forall|i: int|
                0 <= i < dst@.len() ==> #[trigger] dst@[i] == rotated_byte(
                    src,
                    src_width as int,
                    src_height as int,
                    transform,
                    dst_width as int,
                    i,
                ),
        decreases dst_height - dy,
    {
        let mut dx: usize = 0;
        while dx < dst_width
            invariant
                dy < dst_height,
                dx <= dst_width,
                (dst_width as int, dst_height as int) == rotated_dims(
                    transform,
                    src_width as int,
                    src_height as int,
                ),
                dst_width * dst_height == src_width * src_height,
                src_width * src_height * 4 <= usize::MAX,
                src == src_pixels@,
                src.len() == src_len,
                dst@.len() == (dy * dst_width + dx) * 4,
                forall|i: int|
                    0 <= i < dst@.len() ==> #[trigger] dst@[i] == rotated_byte(
                        src,
                        src_width as int,
                        src_height as int,
                        transform,
                        dst_width as int,
                        i,
                    ),
            decreases dst_width - dx,
        {
            let (x, y) = match transform {
                CapturePixelRotation::Identity => (dx, dy),
                CapturePixelRotation::Rotate90Clockwise => (dy, src_height - 1 - dx),
                CapturePixelRotation::Rotate180 => (src_width - 1 - dx, src_height - 1 - dy),
                CapturePixelRotation::Rotate90Counterclockwise => (src_width - 1 - dy, dx),
            };
            proof {
                lemma_row_bound(y as int, src_height as int, src_width as int, x as int);
                assert((y * src_width + x) * 4 + 4 <= src_width * src_height * 4) by (nonlinear_arith)
                    requires
                        y * src_width + x < src_height * src_width,
                ;
            }
            let base = (y * src_width + x) * 4;
            let present = base <= src_len && 4 <= src_len - base;
            let mut c: usize = 0;
            while c < 4
                invariant
                    dy < dst_height,
                    dx < dst_width,
                    c <= 4,
                    (dst_width as int, dst_height as int) == rotated_dims(
                        transform,
                        src_width as int,
                        src_height as int,
                    ),
                    (x as int, y as int) == rotation_source(
                        transform,
                        src_width as int,
                        src_height as int,
                        dx as int,
                        dy as int,
                    ),
                    base == (y * src_width + x) * 4,
                    present == (base + 4 <= src_len),
                    src == src_pixels@,
                    src.len() == src_len,
                    dst@.len() == (dy * dst_width + dx) * 4 + c,
                    forall|i: int|
                        0 <= i < dst@.len() ==> #[trigger] dst@[i] == rotated_byte(
                            src,
                            src_width as int,
                            src_height as int,
                            transform,
                            dst_width as int,
                            i,
                        ),
                decreases 4 - c,
            {
                let byte: u8 = if present {
                    src_pixels[base + c]
                } else {
                    0
                };
                proof {
                    lemma_pixel_index(dx as int, dy as int, dst_width as int, c as int);
                }
                dst.push(byte);
                c = c + 1;
            }
            dx = dx + 1;
        }
        proof {
            assert((dy * dst_width + dst_width) * 4 == (dy + 1) * dst_width * 4) by (nonlinear_arith);
        }
        dy = dy + 1;
    }
    proof {
        assert(dst@.len() == dst_width * dst_height * 4) by (nonlinear_arith)
            requires
                dst@.len() == dy * dst_width * 4,
                dy == dst_height,
        ;
        assert(dst@ =~= rotated_raster(src, src_width as int, src_height as int, transform));
        assert forall|dx: int, dy: int, c: int|
            0 <= dx < dst_width && 0 <= dy < dst_height && 0 <= c < 4 implies #[trigger] dst@[(dy
                * dst_width + dx) * 4 + c] == {
                let (x, y) = rotation_source(
                    transform,
                    src_width as int,
                    src_height as int,
                    dx,
                    dy,
                );
                raster_byte(src_pixels@, src_width as int, x, y, c)
            } by {
            lemma_pixel_index(dx, dy, dst_width as int, c);
            lemma_row_bound(dy, dst_height as int, dst_width as int, dx);
            assert((dy * dst_width + dx) * 4 + c < dst_width * dst_height * 4) by (nonlinear_arith)
                requires
                    dy * dst_width + dx < dst_height * dst_width,
                    0 <= c < 4,
            ;
        }
    }
    (dst_width, dst_height, dst)
}


/// The upright view of a scanout raster captured under `rotation`: the raster itself
/// when no rotation is needed, else the raster rotated by the capture rotation.
pub open spec fn scanout_view(
    src: Seq<u8>,
    width: int,
    height: int,
    rotation: OutputRotation,
) -> Seq<u8> {
    let transform = spec_capture_pixel_rotation(rotation);
    if transform == CapturePixelRotation::Identity {
        src
    } else {
        rotated_raster(src, width, height, transform)
    }
}

/// Turns a captured scanout raster into the upright view that the rotation implies.
/// Returns the view with its width and height.
pub fn rotate_scanout_to_view(
    src_pixels: &[u8],
    src_width: usize,
    src_height: usize,
    output_rotation: OutputRotation,
) -> (r: (usize, usize, Vec<u8>))
    requires
        src_width * src_height * 4 <= usize::MAX,
    ensures
        (r.0 as int, r.1 as int) == rotated_dims(
            spec_capture_pixel_rotation(output_rotation),
            src_width as int,
            src_height as int,
        ),
        r.2@ == scanout_view(src_pixels@, src_width as int, src_height as int, output_rotation),
{
    let transform = capture_pixel_rotation(output_rotation);
    match transform {
        CapturePixelRotation::Identity => (src_width, src_height, slice_to_vec(src_pixels)),
        _ => rotate_xrgb8888(src_pixels, src_width, src_height, transform),
    }
}

/// The RGB triples of a buffer of XRGB8888 pixels (stored B, G, R, X in memory);
/// a trailing partial pixel is dropped.
pub open spec fn rgb_from_xrgb(src: Seq<u8>) -> Seq<u8> {
    Seq::new(((src.len() / 4) * 3) as nat, |i: int| src[(i / 3) * 4 + (2 - i % 3)])
}

/// Extracts the red, green and blue channels of each whole XRGB8888 pixel, in that order.
pub fn xrgb8888_to_rgb(src_pixels: &[u8]) -> (rgb: Vec<u8>)
    ensures
        rgb@ == rgb_from_xrgb(src_pixels@),
{
    let len = src_pixels.len();
    let n = len / 4;
    let ghost src = src_pixels@;
    let mut rgb: Vec<u8> = Vec::new();
    let mut p: usize = 0;
    while p < n
        invariant
            p <= n,
            n == len / 4,
            len == src.len(),
            src == src_pixels@,
            rgb@.len() == p * 3,
            forall|i: int| 0 <= i < rgb@.len() ==> #[trigger] rgb@[i] == src[(i / 3) * 4 + (2 - i % 3)],
        decreases n - p,
    {
        proof {
            lemma_row_index(p as int, 3, 0);
            lemma_row_index(p as int, 3, 1);
            lemma_row_index(p as int, 3, 2);
            assert(4 * p + 4 <= len);
        }
        rgb.push(src_pixels[4 * p + 2]);
        rgb.push(src_pixels[4 * p + 1]);
        rgb.push(src_pixels[4 * p]);
        p = p + 1;
    }
    assert(rgb@ =~= rgb_from_xrgb(src));
    rgb
}


proof fn lemma_pixel_decompose(i: int, w: int, h: int)
    requires
        w > 0,
        h > 0,
        0 <= i < w * h * 4,
    ensures
        0 <= (i / 4) % w < w,
        0 <= (i / 4) / w < h,
        0 <= i % 4 < 4,
        i == (((i / 4) / w) * w + (i / 4) % w) * 4 + i % 4,
{
    lemma_fundamental_div_mod(i, 4);
    lemma_mod_pos_bound(i, 4);
    lemma_div_pos_is_pos(i, 4);
    let p = i / 4;
    let c = i % 4;
    assert(p < w * h) by (nonlinear_arith)
        requires
            i == 4 * p + c,
            0 <= c < 4,
            i < w * h * 4,
    ;
    lemma_fundamental_div_mod(p, w);
    lemma_mod_pos_bound(p, w);
    lemma_div_pos_is_pos(p, w);
    let q = p / w;
    let r = p % w;
    assert(q < h) by (nonlinear_arith)
        requires
            p == w * q + r,
            0 <= r,
            p < w * h,
            w > 0,
    ;
    assert(i == (q * w + r) * 4 + c) by (nonlinear_arith)
        requires
            i == 4 * p + c,
            p == w * q + r,
    ;
}

/// Byte `i` of a quarter turn applied to a quarter-turned full raster.
proof fn lemma_quarter_turn_back(src: Seq<u8>, w: int, h: int, i: int, first: CapturePixelRotation, second: CapturePixelRotation)
    requires
        w > 0,
        h > 0,
        src.len() == w * h * 4,
        0 <= i < w * h * 4,
        (first == CapturePixelRotation::Rotate90Clockwise && second == CapturePixelRotation::Rotate90Counterclockwise)
            || (first == CapturePixelRotation::Rotate90Counterclockwise && second == CapturePixelRotation::Rotate90Clockwise),
    ensures
        rotated_byte(rotated_raster(src, w, h, first), h, w, second, w, i) == src[i],
{
    let b = rotated_raster(src, w, h, first);
    lemma_pixel_decompose(i, w, h);
    let p = i / 4;
    let c = i % 4;
    let dx = p % w;
    let dy = p / w;
    let (x1, y1) = rotation_source(second, h, w, dx, dy);
    assert(0 <= x1 < h && 0 <= y1 < w);
    lemma_row_bound(y1, w, h, x1);
    lemma_pixel_index(x1, y1, h, c);
    assert((y1 * h + x1) * 4 + 4 <= h * w * 4) by (nonlinear_arith)
        requires
            y1 * h + x1 < w * h,
    ;
    assert(b.len() == h * w * 4) by (nonlinear_arith)
        requires
            b.len() == (h * w * 4) as nat,
            h > 0,
            w > 0,
    ;
    lemma_row_bound(dy, h, w, dx);
    assert((dy * w + dx) * 4 + 4 <= w * h * 4) by (nonlinear_arith)
        requires
            dy * w + dx < h * w,
    ;
}

proof fn lemma_empty_dims(src: Seq<u8>, w: nat, h: nat)
    requires
        src.len() == w * h * 4,
        w == 0 || h == 0,
    ensures
        src.len() == 0,
        w * h * 4 == 0,
        h * w * 4 == 0,
{
    assert(w * h * 4 == 0) by (nonlinear_arith) requires w == 0 || h == 0;
    assert(h * w * 4 == 0) by (nonlinear_arith) requires w == 0 || h == 0;
}

/// Turning a full raster a quarter turn clockwise and then counter-clockwise gives it back.
pub proof fn lemma_quarter_turns_cancel(src: Seq<u8>, w: nat, h: nat)
    requires
        src.len() == w * h * 4,
    ensures
        rotated_raster(
            rotated_raster(src, w as int, h as int, CapturePixelRotation::Rotate90Clockwise),
            h as int,
            w as int,
            CapturePixelRotation::Rotate90Counterclockwise,
        ) == src,
        rotated_raster(
            rotated_raster(src, w as int, h as int, CapturePixelRotation::Rotate90Counterclockwise),
            h as int,
            w as int,
            CapturePixelRotation::Rotate90Clockwise,
        ) == src,
{
    let cw = CapturePixelRotation::Rotate90Clockwise;
    let ccw = CapturePixelRotation::Rotate90Counterclockwise;
    let wi = w as int;
    let hi = h as int;
    if w == 0 || h == 0 {
        lemma_empty_dims(src, w, h);
        assert(rotated_raster(rotated_raster(src, wi, hi, cw), hi, wi, ccw) =~= src);
        assert(rotated_raster(rotated_raster(src, wi, hi, ccw), hi, wi, cw) =~= src);
    } else {
        assert(hi * wi * 4 == wi * hi * 4) by (nonlinear_arith);
        assert forall|i: int| 0 <= i < wi * hi * 4 implies #[trigger] rotated_byte(
            rotated_raster(src, wi, hi, cw), hi, wi, ccw, wi, i) == src[i] by {
            lemma_quarter_turn_back(src, wi, hi, i, cw, ccw);
        }
        assert(rotated_raster(rotated_raster(src, wi, hi, cw), hi, wi, ccw) =~= src);
        assert forall|i: int| 0 <= i < wi * hi * 4 implies #[trigger] rotated_byte(
            rotated_raster(src, wi, hi, ccw), hi, wi, cw, wi, i) == src[i] by {
            lemma_quarter_turn_back(src, wi, hi, i, ccw, cw);
        }
        assert(rotated_raster(rotated_raster(src, wi, hi, ccw), hi, wi, cw) =~= src);
    }
}

proof fn lemma_half_turn_back(src: Seq<u8>, w: int, h: int, i: int)
    requires
        w > 0,
        h > 0,
        src.len() == w * h * 4,
        0 <= i < w * h * 4,
    ensures
        rotated_byte(rotated_raster(src, w, h, CapturePixelRotation::Rotate180), w, h, CapturePixelRotation::Rotate180, w, i) == src[i],
{
    lemma_pixel_decompose(i, w, h);
    let p = i / 4;
    let c = i % 4;
    let dx = p % w;
    let dy = p / w;
    let x1 = w - 1 - dx;
    let y1 = h - 1 - dy;
    lemma_row_bound(y1, h, w, x1);
    lemma_pixel_index(x1, y1, w, c);
    assert((y1 * w + x1) * 4 + 4 <= w * h * 4) by (nonlinear_arith)
        requires
            y1 * w + x1 < h * w,
    ;
    lemma_row_bound(dy, h, w, dx);
    assert((dy * w + dx) * 4 + 4 <= w * h * 4) by (nonlinear_arith)
        requires
            dy * w + dx < h * w,
    ;
}

/// Turning a full raster a half turn twice gives it back.
pub proof fn lemma_half_turns_cancel(src: Seq<u8>, w: nat, h: nat)
    requires
        src.len() == w * h * 4,
    ensures
        rotated_raster(
            rotated_raster(src, w as int, h as int, CapturePixelRotation::Rotate180),
            w as int,
            h as int,
            CapturePixelRotation::Rotate180,
        ) == src,
{
    let half = CapturePixelRotation::Rotate180;
    let wi = w as int;
    let hi = h as int;
    if w == 0 || h == 0 {
        lemma_empty_dims(src, w, h);
        assert(rotated_raster(rotated_raster(src, wi, hi, half), wi, hi, half) =~= src);
    } else {
        assert forall|i: int| 0 <= i < wi * hi * 4 implies #[trigger] rotated_byte(
            rotated_raster(src, wi, hi, half), wi, hi, half, wi, i) == src[i] by {
            lemma_half_turn_back(src, wi, hi, i);
        }
        assert(rotated_raster(rotated_raster(src, wi, hi, half), wi, hi, half) =~= src);
    }
}

proof fn lemma_row_decompose(i: int, row: int, height: int)
    requires
        row > 0,
        height > 0,
        0 <= i < height * row,
    ensures
        0 <= i / row < height,
        0 <= i % row < row,
        i == (i / row) * row + i % row,
{
    lemma_fundamental_div_mod(i, row);
    lemma_mod_pos_bound(i, row);
    lemma_div_pos_is_pos(i, row);
    let q = i / row;
    let r = i % row;
    assert(q < height) by (nonlinear_arith)
        requires
            i == row * q + r,
            0 <= r,
            i < height * row,
            row > 0,
    ;
    assert(i == q * row + r) by (nonlinear_arith)
        requires
            i == row * q + r,
    ;
}

/// Packing a raster that is already tight (pitch = row length) and upright copies it.
pub proof fn lemma_tight_pack_is_identity(src: Seq<u8>, width: nat, height: nat)
    requires
        src.len() == height * (width * 4),
    ensures
        packed_raster(src, (width * 4) as int, width as int, height as int, false) == src,
{
    let row = (width * 4) as int;
    let p = packed_raster(src, row, width as int, height as int, false);
    if width > 0 && height > 0 {
        assert forall|i: int| 0 <= i < src.len() implies #[trigger] p[i] == src[i] by {
            lemma_row_decompose(i, row, height as int);
            assert(p[i] == packed_byte_at(src, row, row, height as int, false, i));
        }
        assert(p.len() == src.len());
    } else {
        assert(src.len() == 0) by (nonlinear_arith)
            requires
                src.len() == height * (width * 4),
                width == 0 || height == 0,
        ;
    }
    assert(p =~= src);
}

/// Undoing a row flip twice gives back a tight raster.
pub proof fn lemma_double_flip_is_identity(src: Seq<u8>, width: nat, height: nat)
    requires
        src.len() == height * (width * 4),
    ensures
        packed_raster(
            packed_raster(src, (width * 4) as int, width as int, height as int, true),
            (width * 4) as int,
            width as int,
            height as int,
            true,
        ) == src,
{
    let row = (width * 4) as int;
    let h = height as int;
    let once = packed_raster(src, row, width as int, h, true);
    let twice = packed_raster(once, row, width as int, h, true);
    if width > 0 && height > 0 {
        assert forall|i: int| 0 <= i < src.len() implies #[trigger] twice[i] == src[i] by {
            lemma_row_decompose(i, row, h);
            let y = i / row;
            let k = i % row;
            let s = (h - 1 - y) * row + k;
            lemma_row_index(h - 1 - y, row, k);
            lemma_row_bound(h - 1 - y, h, row, k);
            assert(y * row + k == i);
        }
        assert(twice.len() == src.len());
    } else {
        assert(src.len() == 0) by (nonlinear_arith)
            requires
                src.len() == height * (width * 4),
                width == 0 || height == 0,
        ;
    }
    assert(twice =~= src);
}

/// `a`, saturated at `usize::MAX`.
pub open spec fn sat(a: int) -> int {
    if a > usize::MAX { usize::MAX as int } else { a }
}

/// `a * b` on `usize`, saturating.
fn mul_sat(a: usize, b: usize) -> (r: usize)
    ensures
        r == sat(a * b),
{
    match a.checked_mul(b) {
        Some(v) => v,
        None => usize::MAX,
    }
}

/// `a + b` on `usize`, saturating.
fn add_sat(a: usize, b: usize) -> (r: usize)
    ensures
        r == sat(a + b),
{
    match a.checked_add(b) {
        Some(v) => v,
        None => usize::MAX,
    }
}

/// The span of one row of a readback copy into a dumb buffer:
/// `(src_start, dst_start, copy_len)`; nothing is copied when `copy_len` is zero.
pub open spec fn dumb_row_span(
    src_len: int,
    dst_len: int,
    unflip: bool,
    dst_stride: int,
    width: int,
    height: int,
    y: int,
) -> (int, int, int) {
    let src_stride = sat(width * 4);
    let src_y = if unflip { height - 1 - y } else { y };
    let src_start = sat(src_y * src_stride);
    let src_end = if sat(src_start + src_stride) < src_len { sat(src_start + src_stride) } else { src_len };
    let dst_start = sat(y * dst_stride);
    let dst_end = if sat(dst_start + src_stride) < dst_len { sat(dst_start + src_stride) } else { dst_len };
    if src_start >= src_end || dst_start >= dst_end {
        (src_start, dst_start, 0)
    } else {
        let a = src_end - src_start;
        let b = dst_end - dst_start;
        (src_start, dst_start, if a < b { a } else { b })
    }
}

/// The dumb buffer after row `y` of the readback is copied in: pixel bytes come from
/// the source row, and the alpha byte of each pixel is cleared.
pub open spec fn dumb_row_applied(
    d: Seq<u8>,
    src: Seq<u8>,
    unflip: bool,
    dst_stride: int,
    width: int,
    height: int,
    y: int,
) -> Seq<u8> {
    let (src_start, dst_start, copy_len) = dumb_row_span(src.len() as int, d.len() as int, unflip, dst_stride, width, height, y);
    Seq::new(d.len(), |p: int|
        if dst_start <= p < dst_start + copy_len {
            if (p - dst_start) % 4 == 3 { 0u8 } else { src[src_start + (p - dst_start)] }
        } else {
            d[p]
        })
}

/// The dumb buffer after rows `0..n` of the readback are copied in, in order.
pub open spec fn dumb_rows_applied(
    d: Seq<u8>,
    src: Seq<u8>,
    unflip: bool,
    dst_stride: int,
    width: int,
    height: int,
    n: nat,
) -> Seq<u8>
    decreases n,
{
    if n == 0 {
        d
    } else {
        dumb_row_applied(
            dumb_rows_applied(d, src, unflip, dst_stride, width, height, (n - 1) as nat),
            src,
            unflip,
            dst_stride,
            width,
            height,
            n - 1,
        )
    }
}

/// No row copy is one or two bytes long (such a copy cannot hold the alpha byte that is cleared).
pub open spec fn dumb_rows_copyable(
    src_len: int,
    dst_len: int,
    unflip: bool,
    dst_stride: int,
    width: int,
    height: int,
) -> bool {
    forall|y: int| 0 <= y < height ==> {
        let copy_len = #[trigger] dumb_row_span(src_len, dst_len, unflip, dst_stride, width, height, y).2;
        copy_len == 0 || copy_len >= 3
    }
}

/// Copies a renderer readback (`width` x `height` XRGB8888, tightly packed) into a dumb
/// scanout buffer with row pitch `dst_stride`, restoring top-down row order when the
/// readback is flipped (unless the rotation keeps readback order), and clearing the alpha
/// byte of every copied pixel.
pub fn copy_renderer_pixels_to_dumb(
    src_pixels: &[u8],
    src_flipped: bool,
    rotation: OutputRotation,
    dst_pixels: &mut [u8],
    dst_stride: usize,
    width: usize,
    height: usize,
)
    requires
        dumb_rows_copyable(
            src_pixels@.len() as int,
            old(dst_pixels)@.len() as int,
            src_flipped && !spec_present_preserves_readback_row_order(rotation),
            dst_stride as int,
            width as int,
            height as int,
        ),
    ensures
        sat(width * 4) == 0 || dst_stride == 0 ==> final(dst_pixels)@ == old(dst_pixels)@,
        sat(width * 4) != 0 && dst_stride != 0 ==> final(dst_pixels)@ == dumb_rows_applied(
            old(dst_pixels)@,
            src_pixels@,
            src_flipped && !spec_present_preserves_readback_row_order(rotation),
            dst_stride as int,
            width as int,
            height as int,
            height as nat,
        ),
        whole_rows_fit(src_pixels@.len() as int, old(dst_pixels)@.len() as int, dst_stride as int, width as int, height as int)
            ==> forall|y: int, k: int| 0 <= y < height as int && 0 <= k < (width as int) * 4 ==>
            #[trigger] byte_in_row(final(dst_pixels)@, dst_stride as int, y, k) == (if k % 4 == 3 {
                0u8
            } else if src_flipped && !spec_present_preserves_readback_row_order(rotation) {
                src_pixels@[((height as int) - 1 - y) * ((width as int) * 4) + k]
            } else {
                src_pixels@[y * ((width as int) * 4) + k]
            }),
{
    let src_stride = mul_sat(width, 4);
    if src_stride == 0 || dst_stride == 0 {
        return;
    }
    let unflip = src_flipped && !present_preserves_readback_row_order(rotation);
    let src_len = src_pixels.len();
    let dst_len = dst_pixels.len();
    let ghost src = src_pixels@;
    let ghost original = dst_pixels@;
    let mut y: usize = 0;
    while y < height
        invariant
            y <= height,
            src_stride == sat(width * 4),
            src == src_pixels@,
            src_len == src.len(),
            dst_len == dst_pixels@.len(),
            original.len() == dst_len,
            dumb_rows_copyable(src_len as int, dst_len as int, unflip, dst_stride as int, width as int, height as int),
            dst_pixels@ == dumb_rows_applied(original, src, unflip, dst_stride as int, width as int, height as int, y as nat),
        decreases height - y,
    {
        let src_y = if unflip {
            height - 1 - y
        } else {
            y
        };
        let src_start = mul_sat(src_y, src_stride);
        let src_end_full = add_sat(src_start, src_stride);
        let src_end = if src_end_full < src_len {
            src_end_full
        } else {
            src_len
        };
        let dst_start = mul_sat(y, dst_stride);
        let dst_end_full = add_sat(dst_start, src_stride);
        let dst_end = if dst_end_full < dst_len {
            dst_end_full
        } else {
            dst_len
        };
        let ghost before = dst_pixels@;
        assert(dumb_row_span(src_len as int, dst_len as int, unflip, dst_stride as int, width as int, height as int, y as int).2 == 0 || dumb_row_span(src_len as int, dst_len as int, unflip, dst_stride as int, width as int, height as int, y as int).2 >= 3);
        if src_start < src_end && dst_start < dst_end {
            let copy_len = if src_end - src_start < dst_end - dst_start {
                src_end - src_start
            } else {
                dst_end - dst_start
            };
            let mut k: usize = 0;
            while k < copy_len
                invariant
                    k <= copy_len,
                    dst_start + copy_len <= dst_len,
                    src_start + copy_len <= src_len,
                    src_len == src.len(),
                    src == src_pixels@,
                    dst_len == dst_pixels@.len(),
                    before.len() == dst_len,
                    dst_pixels@ == Seq::new(dst_len as nat, |p: int|
                        if dst_start <= p < dst_start + k {
                            if (p - dst_start) % 4 == 3 { 0u8 } else { src[src_start + (p - dst_start)] }
                        } else {
                            before[p]
                        }),
                decreases copy_len - k,
            {
                let value: u8 = if k % 4 == 3 {
                    0
                } else {
                    src_pixels[src_start + k]
                };
                assert(dst_start + k < dst_pixels@.len());
                dst_pixels[dst_start + k] = value;
                k = k + 1;
                assert(dst_pixels@ =~= Seq::new(dst_len as nat, |p: int|
                    if dst_start <= p < dst_start + k {
                        if (p - dst_start) % 4 == 3 { 0u8 } else { src[src_start + (p - dst_start)] }
                    } else {
                        before[p]
                    }));
            }
            assert(dst_pixels@ =~= dumb_row_applied(before, src, unflip, dst_stride as int, width as int, height as int, y as int));
        } else {
            assert(dst_pixels@ =~= dumb_row_applied(before, src, unflip, dst_stride as int, width as int, height as int, y as int));
        }
        y = y + 1;
    }
    proof {
        if whole_rows_fit(src.len() as int, original.len() as int, dst_stride as int, width as int, height as int) {
            lemma_dumb_copy_puts_rows_in_place(original, src, unflip, dst_stride as int, width as int, height as int);
            let hh: int = height as int;
            let ww: int = width as int;
            let ss: int = dst_stride as int;
            assert(forall|y: int, k: int| 0 <= y < hh && 0 <= k < ww * 4 ==>
                #[trigger] byte_in_row(dumb_rows_applied(original, src, unflip, ss, ww, hh, hh as nat), ss, y, k)
                    == (if k % 4 == 3 {
                        0u8
                    } else if unflip {
                        src[(hh - 1 - y) * (ww * 4) + k]
                    } else {
                        src[y * (ww * 4) + k]
                    }));
            assert(dst_pixels@ == dumb_rows_applied(original, src, unflip, ss, ww, hh, hh as nat));
            assert forall|y: int, k: int| 0 <= y < hh && 0 <= k < ww * 4 implies
                #[trigger] byte_in_row(dst_pixels@, ss, y, k) == (if k % 4 == 3 {
                    0u8
                } else if unflip {
                    src[(hh - 1 - y) * (ww * 4) + k]
                } else {
                    src[y * (ww * 4) + k]
                }) by {
                assert(byte_in_row(dumb_rows_applied(original, src, unflip, ss, ww, hh, hh as nat), ss, y, k)
                    == byte_in_row(dst_pixels@, ss, y, k));
            }
        }
    }
}

/// The background color of the host scene, as stored bytes of one XRGB8888 pixel.
pub open spec fn background_byte(i: int) -> u8 {
    if i == 0 { 0x14u8 } else if i == 1 { 0x14u8 } else if i == 2 { 0x18u8 } else { 0x00u8 }
}

/// The bytes of row `y` that clearing covers: whole pixels from `row_start` up to the
/// row's width or the end of the buffer. Returns `(row_start, covered_len)`.
pub open spec fn background_row_span(len: int, stride: int, width: int, y: int) -> (int, int) {
    let row_start = sat(y * stride);
    let row_end_full = sat(row_start + sat(width * 4));
    let row_end = if row_end_full < len { row_end_full } else { len };
    if row_start >= row_end { (row_start, 0) } else { (row_start, ((row_end - row_start) / 4) * 4) }
}

/// The target after row `y` is cleared to the background color.
pub open spec fn background_row_applied(d: Seq<u8>, stride: int, width: int, y: int) -> Seq<u8> {
    let (row_start, covered) = background_row_span(d.len() as int, stride, width, y);
    Seq::new(d.len(), |p: int|
        if row_start <= p < row_start + covered { background_byte((p - row_start) % 4) } else { d[p] })
}

/// The target after rows `0..n` are cleared, in order.
pub open spec fn background_rows_applied(d: Seq<u8>, stride: int, width: int, n: nat) -> Seq<u8>
    decreases n,
{
    if n == 0 {
        d
    } else {
        background_row_applied(background_rows_applied(d, stride, width, (n - 1) as nat), stride, width, n - 1)
    }
}

/// Fills the first `output_w` pixels of each of the first `output_h` rows of the target
/// (row pitch `target_stride`) with the background color, stopping at the end of the buffer.
pub fn clear_host_scene_background(target: &mut [u8], target_stride: usize, output_w: i32, output_h: i32)
    ensures
        final(target)@ == background_rows_applied(
            old(target)@,
            target_stride as int,
            if output_w > 0 { output_w as int } else { 0 },
            if output_h > 0 { output_h as nat } else { 0 },
        ),
{
    let width: usize = if output_w > 0 { output_w as usize } else { 0 };
    let height: usize = if output_h > 0 { output_h as usize } else { 0 };
    let row_bytes = mul_sat(width, 4);
    let len = target.len();
    let ghost original = target@;
    let mut y: usize = 0;
    while y < height
        invariant
            y <= height,
            row_bytes == sat(width * 4),
            len == target@.len(),
            original.len() == len,
            target@ == background_rows_applied(original, target_stride as int, width as int, y as nat),
        decreases height - y,
    {
        let row_start = mul_sat(y, target_stride);
        let row_end_full = add_sat(row_start, row_bytes);
        let row_end = if row_end_full < len {
            row_end_full
        } else {
            len
        };
        let ghost before = target@;
        if row_start < row_end {
            let covered = ((row_end - row_start) / 4) * 4;
            let mut k: usize = 0;
            while k < covered
                invariant
                    k <= covered,
                    row_start + covered <= len,
                    len == target@.len(),
                    before.len() == len,
                    target@ == Seq::new(len as nat, |p: int|
                        if row_start <= p < row_start + k { background_byte((p - row_start) % 4) } else { before[p] }),
                decreases covered - k,
            {
                let value: u8 = if k % 4 == 0 {
                    0x14
                } else if k % 4 == 1 {
                    0x14
                } else if k % 4 == 2 {
                    0x18
                } else {
                    0x00
                };
                target[row_start + k] = value;
                k = k + 1;
                assert(target@ =~= Seq::new(len as nat, |p: int|
                    if row_start <= p < row_start + k { background_byte((p - row_start) % 4) } else { before[p] }));
            }
            assert(target@ =~= background_row_applied(before, target_stride as int, width as int, y as int));
        } else {
            assert(target@ =~= background_row_applied(before, target_stride as int, width as int, y as int));
        }
        y = y + 1;
    }
}

/// Byte `k` of row `y` of a buffer with row pitch `stride`.
pub open spec fn byte_in_row(buf: Seq<u8>, stride: int, y: int, k: int) -> u8 {
    buf[y * stride + k]
}

/// Every row of a `width` x `height` readback fits whole in the source, and whole in a
/// dumb buffer of row pitch `stride` (each buffer no longer than memory allows).
pub open spec fn whole_rows_fit(src_len: int, dst_len: int, stride: int, width: int, height: int) -> bool {
    &&& 0 < width * 4 <= usize::MAX
    &&& stride >= width * 4
    &&& height >= 0
    &&& height * (width * 4) <= src_len <= usize::MAX
    &&& height * stride <= dst_len <= usize::MAX
}

proof fn lemma_whole_row_span(src_len: int, dst_len: int, unflip: bool, stride: int, width: int, height: int, y: int)
    requires
        whole_rows_fit(src_len, dst_len, stride, width, height),
        0 <= y < height,
    ensures
        dumb_row_span(src_len, dst_len, unflip, stride, width, height, y)
            == ((if unflip { height - 1 - y } else { y }) * (width * 4), y * stride, width * 4),
{
    let w4 = width * 4;
    let sy = if unflip { height - 1 - y } else { y };
    assert(0 <= sy < height);
    assert(0 <= sy * w4 && sy * w4 + w4 <= height * w4) by (nonlinear_arith)
        requires
            0 <= sy < height,
            w4 > 0,
    ;
    assert(0 <= y * stride && y * stride + w4 <= height * stride) by (nonlinear_arith)
        requires
            0 <= y < height,
            stride >= w4,
            w4 > 0,
    ;
}

proof fn lemma_whole_rows_applied(d: Seq<u8>, src: Seq<u8>, unflip: bool, stride: int, width: int, height: int, n: nat)
    requires
        whole_rows_fit(src.len() as int, d.len() as int, stride, width, height),
        n <= height,
    ensures
        dumb_rows_applied(d, src, unflip, stride, width, height, n).len() == d.len(),
        forall|y: int, k: int| 0 <= y < n && 0 <= k < width * 4 ==>
            #[trigger] byte_in_row(dumb_rows_applied(d, src, unflip, stride, width, height, n), stride, y, k)
                == (if k % 4 == 3 { 0u8 } else { src[(if unflip { height - 1 - y } else { y }) * (width * 4) + k] }),
        forall|p: int| n * stride <= p < d.len() ==>
            #[trigger] dumb_rows_applied(d, src, unflip, stride, width, height, n)[p] == d[p],
    decreases n,
{
    let w4 = width * 4;
    if n == 0 {
        assert forall|p: int| n * stride <= p < d.len() implies
            #[trigger] dumb_rows_applied(d, src, unflip, stride, width, height, n)[p] == d[p] by {}
    } else {
        let m = (n - 1) as nat;
        lemma_whole_rows_applied(d, src, unflip, stride, width, height, m);
        let r = dumb_rows_applied(d, src, unflip, stride, width, height, m);
        let r2 = dumb_rows_applied(d, src, unflip, stride, width, height, n);
        lemma_whole_row_span(src.len() as int, d.len() as int, unflip, stride, width, height, m as int);
        let sy = if unflip { height - 1 - m } else { m as int };
        assert(r2 == dumb_row_applied(r, src, unflip, stride, width, height, m as int));
        assert(m * stride + w4 <= n * stride) by (nonlinear_arith)
            requires
                n == m + 1,
                stride >= w4,
        ;
        assert forall|y: int, k: int| 0 <= y < n && 0 <= k < width * 4 implies
            #[trigger] byte_in_row(r2, stride, y, k)
                == (if k % 4 == 3 { 0u8 } else { src[(if unflip { height - 1 - y } else { y }) * (width * 4) + k] }) by {
            if y < m {
                assert(y * stride + k < m * stride) by (nonlinear_arith)
                    requires
                        0 <= y < m,
                        0 <= k < w4,
                        stride >= w4,
                ;
                assert(0 <= y * stride) by (nonlinear_arith)
                    requires
                        0 <= y,
                        stride >= 0,
                ;
                assert(byte_in_row(r, stride, y, k) == r[y * stride + k]);
            } else {
                assert(y == m);
            }
        }
        assert forall|p: int| n * stride <= p < d.len() implies #[trigger] r2[p] == d[p] by {
            assert(m * stride <= p);
        }
    }
}

/// A flipped readback lands in the dumb buffer upright, and an upright one as it is:
/// when every row fits whole, byte `k` of dumb row `y` is byte `k` of readback row
/// `height - 1 - y` (flipped) or `y` (upright), with the alpha byte of each pixel
/// cleared.
pub proof fn lemma_dumb_copy_puts_rows_in_place(d: Seq<u8>, src: Seq<u8>, unflip: bool, stride: int, width: int, height: int)
    requires
        whole_rows_fit(src.len() as int, d.len() as int, stride, width, height),
    ensures
        forall|y: int, k: int| 0 <= y < height && 0 <= k < width * 4 ==>
            #[trigger] byte_in_row(dumb_rows_applied(d, src, unflip, stride, width, height, height as nat), stride, y, k)
                == (if k % 4 == 3 {
                    0u8
                } else if unflip {
                    src[(height - 1 - y) * (width * 4) + k]
                } else {
                    src[y * (width * 4) + k]
                }),
{
    lemma_whole_rows_applied(d, src, unflip, stride, width, height, height as nat);
}

} // verus!
