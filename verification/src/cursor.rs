//! The software cursor: a 48x48 one-bit arrow mask (rows stored most significant bit
//! first), its one-pixel outline, and the rectangles that draw it.
use vstd::prelude::*;
use crate::planes::LogicalRect;

verus! {

pub const SOFTWARE_CURSOR_MASK_WIDTH: i32 = 48;

pub const SOFTWARE_CURSOR_MASK_HEIGHT: i32 = 48;

pub const SOFTWARE_CURSOR_MASK_STRIDE: usize = 6;

/// The arrow tip within the mask.
pub const SOFTWARE_CURSOR_HOTSPOT_X: i32 = 6;

pub const SOFTWARE_CURSOR_HOTSPOT_Y: i32 = 4;

/// The arrow shape, one bit per pixel, 6 bytes per row, most significant bit leftmost.
pub const SOFTWARE_CURSOR_MASK: [u8; 288] = [
    0x00, 0x00, 0x00, 0x00, 0x00, 0x00, // row 0
    0x00, 0x00, 0x00, 0x00, 0x00, 0x00, // row 1
    0x00, 0x00, 0x00, 0x00, 0x00, 0x00, // row 2
    0x00, 0x00, 0x00, 0x00, 0x00, 0x00, // row 3
    0x02, 0x00, 0x00, 0x00, 0x00, 0x00, // row 4
    0x03, 0x00, 0x00, 0x00, 0x00, 0x00, // row 5
    0x03, 0x80, 0x00, 0x00, 0x00, 0x00, // row 6
    0x03, 0xC0, 0x00, 0x00, 0x00, 0x00, // row 7
    0x03, 0xE0, 0x00, 0x00, 0x00, 0x00, // row 8
    0x03, 0xF0, 0x00, 0x00, 0x00, 0x00, // row 9
    0x03, 0xF8, 0x00, 0x00, 0x00, 0x00, // row 10
    0x03, 0xFC, 0x00, 0x00, 0x00, 0x00, // row 11
    0x03, 0xFE, 0x00, 0x00, 0x00, 0x00, // row 12
    0x03, 0xFF, 0x00, 0x00, 0x00, 0x00, // row 13
    0x03, 0xFF, 0x80, 0x00, 0x00, 0x00, // row 14
    0x03, 0xFF, 0xC0, 0x00, 0x00, 0x00, // row 15
    0x03, 0xFF, 0xE0, 0x00, 0x00, 0x00, // row 16
    0x03, 0xFF, 0xF0, 0x00, 0x00, 0x00, // row 17
    0x03, 0xFF, 0xF8, 0x00, 0x00, 0x00, // row 18
    0x03, 0xFF, 0xFC, 0x00, 0x00, 0x00, // row 19
    0x03, 0xFF, 0xFE, 0x00, 0x00, 0x00, // row 20
    0x03, 0xFF, 0xFF, 0x00, 0x00, 0x00, // row 21
    0x03, 0xFF, 0xFF, 0x80, 0x00, 0x00, // row 22
    0x03, 0xFF, 0xFF, 0xC0, 0x00, 0x00, // row 23
    0x03, 0xFF, 0xFF, 0xE0, 0x00, 0x00, // row 24
    0x03, 0xFF, 0xC0, 0x00, 0x00, 0x00, // row 25
    0x03, 0xFF, 0xE0, 0x00, 0x00, 0x00, // row 26
    0x03, 0xF7, 0xE0, 0x00, 0x00, 0x00, // row 27
    0x03, 0xE7, 0xF0, 0x00, 0x00, 0x00, // row 28
    0x03, 0xC3, 0xF0, 0x00, 0x00, 0x00, // row 29
    0x03, 0x83, 0xF8, 0x00, 0x00, 0x00, // row 30
    0x03, 0x03, 0xF8, 0x00, 0x00, 0x00, // row 31
    0x02, 0x01, 0xFC, 0x00, 0x00, 0x00, // row 32
    0x00, 0x01, 0xFC, 0x00, 0x00, 0x00, // row 33
    0x00, 0x01, 0xFE, 0x00, 0x00, 0x00, // row 34
    0x00, 0x00, 0xFE, 0x00, 0x00, 0x00, // row 35
    0x00, 0x00, 0xFF, 0x00, 0x00, 0x00, // row 36
    0x00, 0x00, 0xFF, 0x00, 0x00, 0x00, // row 37
    0x00, 0x00, 0x7F, 0x80, 0x00, 0x00, // row 38
    0x00, 0x00, 0x7F, 0x80, 0x00, 0x00, // row 39
    0x00, 0x00, 0x7F, 0x80, 0x00, 0x00, // row 40
    0x00, 0x00, 0x3E, 0x00, 0x00, 0x00, // row 41
    0x00, 0x00, 0x38, 0x00, 0x00, 0x00, // row 42
    0x00, 0x00, 0x00, 0x00, 0x00, 0x00, // row 43
    0x00, 0x00, 0x00, 0x00, 0x00, 0x00, // row 44
    0x00, 0x00, 0x00, 0x00, 0x00, 0x00, // row 45
    0x00, 0x00, 0x00, 0x00, 0x00, 0x00, // row 46
    0x00, 0x00, 0x00, 0x00, 0x00, 0x00, // row 47
];

/// Whether mask pixel `(x, y)` is set; pixels outside the mask are clear.
pub open spec fn spec_mask_pixel(x: int, y: int) -> bool {
    0 <= x < 48 && 0 <= y < 48 && (SOFTWARE_CURSOR_MASK[y * 6 + x / 8] & (0x80u8 >> ((x % 8) as u8))) != 0
}

/// Whether mask pixel `(x, y)` is part of the arrow.
pub fn software_cursor_mask_pixel(mask_x: i32, mask_y: i32) -> (r: bool)
    ensures
        r == spec_mask_pixel(mask_x as int, mask_y as int),
{
    if !(0 <= mask_x && mask_x < SOFTWARE_CURSOR_MASK_WIDTH) || !(0 <= mask_y && mask_y < SOFTWARE_CURSOR_MASK_HEIGHT) {
        return false;
    }
    let byte_index = mask_y as usize * SOFTWARE_CURSOR_MASK_STRIDE + mask_x as usize / 8;
    let bit: u8 = 0x80u8 >> ((mask_x as usize % 8) as u8);
    SOFTWARE_CURSOR_MASK[byte_index] & bit != 0
}

/// Whether `(x, y)` belongs to the outline drawn around the arrow: a clear pixel next to
/// (or diagonally next to) an arrow pixel, or two pixels down-right of one.
pub open spec fn spec_outline_pixel(x: int, y: int) -> bool {
    !spec_mask_pixel(x, y) && (
        spec_mask_pixel(x + 1, y + 1) || spec_mask_pixel(x, y + 1) || spec_mask_pixel(x - 1, y + 1)
        || spec_mask_pixel(x + 1, y) || spec_mask_pixel(x - 1, y)
        || spec_mask_pixel(x + 1, y - 1) || spec_mask_pixel(x, y - 1) || spec_mask_pixel(x - 1, y - 1)
        || spec_mask_pixel(x - 2, y - 2))
}

/// Whether mask-space pixel `(x, y)` belongs to the arrow's outline.
pub fn software_cursor_outline_pixel(mask_x: i32, mask_y: i32) -> (r: bool)
    requires
        i32::MIN + 2 <= mask_x < i32::MAX,
        i32::MIN + 2 <= mask_y < i32::MAX,
    ensures
        r == spec_outline_pixel(mask_x as int, mask_y as int),
{
    if software_cursor_mask_pixel(mask_x, mask_y) {
        return false;
    }
    software_cursor_mask_pixel(mask_x + 1, mask_y + 1)
        || software_cursor_mask_pixel(mask_x, mask_y + 1)
        || software_cursor_mask_pixel(mask_x - 1, mask_y + 1)
        || software_cursor_mask_pixel(mask_x + 1, mask_y)
        || software_cursor_mask_pixel(mask_x - 1, mask_y)
        || software_cursor_mask_pixel(mask_x + 1, mask_y - 1)
        || software_cursor_mask_pixel(mask_x, mask_y - 1)
        || software_cursor_mask_pixel(mask_x - 1, mask_y - 1)
        || software_cursor_mask_pixel(mask_x - 2, mask_y - 2)
}


/// The color a cursor rectangle is filled with.
#[derive(Clone, Copy, Debug, PartialEq, Eq, Structural)]
pub enum SoftwareCursorColor {
    White,
    Black,
}

/// `a + b` on `i32`, saturating.
pub open spec fn sat_i32(a: int) -> int {
    if a > i32::MAX { i32::MAX as int } else if a < i32::MIN { i32::MIN as int } else { a }
}

fn add_sat_i32(a: i32, b: i32) -> (r: i32)
    ensures
        r == sat_i32(a + b),
{
    let wide = a as i64 + b as i64;
    if wide > i32::MAX as i64 {
        i32::MAX
    } else if wide < i32::MIN as i64 {
        i32::MIN
    } else {
        wide as i32
    }
}

/// Whether two rectangles share a pixel (edges saturate at `i32::MAX`).
pub open spec fn spec_overlaps(a: LogicalRect, b: LogicalRect) -> bool {
    &&& a.x < sat_i32(b.x + b.w)
    &&& b.x < sat_i32(a.x + a.w)
    &&& a.y < sat_i32(b.y + b.h)
    &&& b.y < sat_i32(a.y + a.h)
}

/// The common part of two rectangles, none when they do not overlap.
pub open spec fn spec_intersection(a: LogicalRect, b: LogicalRect) -> Option<LogicalRect> {
    if !spec_overlaps(a, b) {
        None
    } else {
        let x = if a.x > b.x { a.x } else { b.x };
        let y = if a.y > b.y { a.y } else { b.y };
        let right = if sat_i32(a.x + a.w) < sat_i32(b.x + b.w) { sat_i32(a.x + a.w) } else { sat_i32(b.x + b.w) };
        let bottom = if sat_i32(a.y + a.h) < sat_i32(b.y + b.h) { sat_i32(a.y + a.h) } else { sat_i32(b.y + b.h) };
        Some(LogicalRect { x, y, w: (right - x) as i32, h: (bottom - y) as i32 })
    }
}

/// The intersection of two rectangles.
pub fn rect_intersection(a: LogicalRect, b: LogicalRect) -> (r: Option<LogicalRect>)
    ensures
        r == spec_intersection(a, b),
{
    let a_right = add_sat_i32(a.x, a.w);
    let a_bottom = add_sat_i32(a.y, a.h);
    let b_right = add_sat_i32(b.x, b.w);
    let b_bottom = add_sat_i32(b.y, b.h);
    if !(a.x < b_right && b.x < a_right && a.y < b_bottom && b.y < a_bottom) {
        return None;
    }
    let x = if a.x > b.x { a.x } else { b.x };
    let y = if a.y > b.y { a.y } else { b.y };
    let right = if a_right < b_right { a_right } else { b_right };
    let bottom = if a_bottom < b_bottom { a_bottom } else { b_bottom };
    Some(LogicalRect { x, y, w: right - x, h: bottom - y })
}

/// The cursor pixel test: the arrow itself or its outline.
pub open spec fn cursor_pixel_on(outline: bool, x: int, y: int) -> bool {
    if outline { spec_outline_pixel(x, y) } else { spec_mask_pixel(x, y) }
}

/// The end of the run of lit pixels of row `y` that starts at or after `x`.
pub open spec fn run_end(outline: bool, x: int, y: int) -> int
    decreases 48 - x,
{
    if x < 48 && cursor_pixel_on(outline, x, y) { run_end(outline, x + 1, y) } else { x }
}

/// The maximal runs `[start, end)` of lit pixels of mask row `y` from column `x` on.
pub open spec fn row_runs(outline: bool, x: int, y: int) -> Seq<(int, int)>
    decreases 48 - x,
{
    if x >= 48 {
        Seq::empty()
    } else if !cursor_pixel_on(outline, x, y) {
        row_runs(outline, x + 1, y)
    } else {
        let end = run_end(outline, x, y);
        if x < end <= 48 {
            seq![(x, end)] + row_runs(outline, end, y)
        } else {
            Seq::empty()
        }
    }
}

/// The rectangle a run draws, clipped to `bounds`, if anything of it is left.
pub open spec fn clipped_run(
    bounds: LogicalRect,
    origin_x: int,
    origin_y: int,
    y: int,
    run: (int, int),
    color: SoftwareCursorColor,
) -> Seq<(LogicalRect, SoftwareCursorColor)> {
    let rect = LogicalRect { x: (origin_x + run.0) as i32, y: (origin_y + y) as i32, w: (run.1 - run.0) as i32, h: 1 };
    match spec_intersection(rect, bounds) {
        Some(c) => if c.w > 0 && c.h > 0 { seq![(c, color)] } else { Seq::empty() },
        None => Seq::empty(),
    }
}

/// The clipped rectangles of a list of runs of row `y`, in order.
pub open spec fn clipped_runs(
    bounds: LogicalRect,
    origin_x: int,
    origin_y: int,
    y: int,
    runs: Seq<(int, int)>,
    color: SoftwareCursorColor,
) -> Seq<(LogicalRect, SoftwareCursorColor)>
    decreases runs.len(),
{
    if runs.len() == 0 {
        Seq::empty()
    } else {
        clipped_run(bounds, origin_x, origin_y, y, runs[0], color)
            + clipped_runs(bounds, origin_x, origin_y, y, runs.drop_first(), color)
    }
}

/// The clipped rectangles of the runs of rows `0..n` of the mask (or its outline).
pub open spec fn mask_rects(
    bounds: LogicalRect,
    origin_x: int,
    origin_y: int,
    outline: bool,
    color: SoftwareCursorColor,
    n: nat,
) -> Seq<(LogicalRect, SoftwareCursorColor)>
    decreases n,
{
    if n == 0 {
        Seq::empty()
    } else {
        mask_rects(bounds, origin_x, origin_y, outline, color, (n - 1) as nat)
            + clipped_runs(bounds, origin_x, origin_y, n - 1, row_runs(outline, 0, n - 1), color)
    }
}

proof fn lemma_run_end_bounds(outline: bool, x: int, y: int)
    requires
        0 <= x <= 48,
    ensures
        x <= run_end(outline, x, y) <= 48,
        forall|z: int| x <= z < run_end(outline, x, y) ==> cursor_pixel_on(outline, z, y),
        run_end(outline, x, y) < 48 ==> !cursor_pixel_on(outline, run_end(outline, x, y), y),
    decreases 48 - x,
{
    if x < 48 && cursor_pixel_on(outline, x, y) {
        lemma_run_end_bounds(outline, x + 1, y);
    }
}

proof fn lemma_clipped_runs_append(
    bounds: LogicalRect,
    ox: int,
    oy: int,
    y: int,
    a: Seq<(int, int)>,
    b: Seq<(int, int)>,
    color: SoftwareCursorColor,
)
    ensures
        clipped_runs(bounds, ox, oy, y, a + b, color) == clipped_runs(bounds, ox, oy, y, a, color)
            + clipped_runs(bounds, ox, oy, y, b, color),
    decreases a.len(),
{
    if a.len() == 0 {
        assert(a + b =~= b);
        assert(clipped_runs(bounds, ox, oy, y, a, color) =~= Seq::empty());
        assert(Seq::<(LogicalRect, SoftwareCursorColor)>::empty() + clipped_runs(bounds, ox, oy, y, b, color)
            =~= clipped_runs(bounds, ox, oy, y, b, color));
    } else {
        assert((a + b).drop_first() =~= a.drop_first() + b);
        assert((a + b)[0] == a[0]);
        lemma_clipped_runs_append(bounds, ox, oy, y, a.drop_first(), b, color);
        assert(clipped_runs(bounds, ox, oy, y, a + b, color) =~= clipped_runs(bounds, ox, oy, y, a, color)
            + clipped_runs(bounds, ox, oy, y, b, color));
    }
}

fn cursor_pixel(outline: bool, x: i32, y: i32) -> (r: bool)
    requires
        0 <= x <= 48,
        0 <= y <= 48,
    ensures
        r == cursor_pixel_on(outline, x as int, y as int),
{
    if outline {
        software_cursor_outline_pixel(x, y)
    } else {
        software_cursor_mask_pixel(x, y)
    }
}

/// Appends `rect` clipped to `bounds`, unless nothing of it is left.
fn push_cursor_rect(
    rects: &mut Vec<(LogicalRect, SoftwareCursorColor)>,
    bounds: LogicalRect,
    rect: LogicalRect,
    color: SoftwareCursorColor,
)
    ensures
        final(rects)@ == old(rects)@ + match spec_intersection(rect, bounds) {
            Some(c) => if c.w > 0 && c.h > 0 { seq![(c, color)] } else { Seq::empty() },
            None => Seq::empty(),
        },
{
    let ghost before = rects@;
    if let Some(clipped) = rect_intersection(rect, bounds) {
        if clipped.w > 0 && clipped.h > 0 {
            rects.push((clipped, color));
            assert(rects@ =~= before + seq![(clipped, color)]);
            return;
        }
    }
    assert(rects@ =~= before + Seq::<(LogicalRect, SoftwareCursorColor)>::empty());
}

/// Appends, row by row, one rectangle per maximal run of lit mask (or outline) pixels,
/// placed at `origin` and clipped to `bounds`.
fn append_cursor_mask_spans(
    rects: &mut Vec<(LogicalRect, SoftwareCursorColor)>,
    bounds: LogicalRect,
    origin_x: i32,
    origin_y: i32,
    color: SoftwareCursorColor,
    outline: bool,
)
    requires
        origin_x <= i32::MAX - 47,
        origin_y <= i32::MAX - 47,
    ensures
        final(rects)@ == old(rects)@ + mask_rects(bounds, origin_x as int, origin_y as int, outline, color, 48),
{
    let ghost start_rects = rects@;
    let mut mask_y: i32 = 0;
    while mask_y < SOFTWARE_CURSOR_MASK_HEIGHT
        invariant
            0 <= mask_y <= 48,
            origin_x <= i32::MAX - 47,
            origin_y <= i32::MAX - 47,
            rects@ == start_rects + mask_rects(bounds, origin_x as int, origin_y as int, outline, color, mask_y as nat),
        decreases 48 - mask_y,
    {
        let ghost row_start = rects@;
        let mut mask_x: i32 = 0;
        while mask_x < SOFTWARE_CURSOR_MASK_WIDTH
            invariant
                0 <= mask_x <= 48,
                0 <= mask_y < 48,
                origin_x <= i32::MAX - 47,
                origin_y <= i32::MAX - 47,
                rects@ + clipped_runs(bounds, origin_x as int, origin_y as int, mask_y as int, row_runs(outline, mask_x as int, mask_y as int), color)
                    == row_start + clipped_runs(bounds, origin_x as int, origin_y as int, mask_y as int, row_runs(outline, 0, mask_y as int), color),
            decreases 48 - mask_x,
        {
            if !cursor_pixel(outline, mask_x, mask_y) {
                mask_x = mask_x + 1;
            } else {
                let start = mask_x;
                proof {
                    lemma_run_end_bounds(outline, start as int, mask_y as int);
                }
                let ghost before = rects@;
                mask_x = mask_x + 1;
                while mask_x < SOFTWARE_CURSOR_MASK_WIDTH && cursor_pixel(outline, mask_x, mask_y)
                    invariant
                        0 <= start < mask_x <= 48,
                        0 <= mask_y < 48,
                        run_end(outline, start as int, mask_y as int) == run_end(outline, mask_x as int, mask_y as int),
                    decreases 48 - mask_x,
                {
                    mask_x = mask_x + 1;
                }
                proof {
                    lemma_run_end_bounds(outline, mask_x as int, mask_y as int);
                    assert(run_end(outline, mask_x as int, mask_y as int) == mask_x);
                }
                push_cursor_rect(
                    rects,
                    bounds,
                    LogicalRect { x: origin_x + start, y: origin_y + mask_y, w: mask_x - start, h: 1 },
                    color,
                );
                proof {
                    let runs = row_runs(outline, start as int, mask_y as int);
                    let rest = row_runs(outline, mask_x as int, mask_y as int);
                    assert(runs == seq![(start as int, mask_x as int)] + rest);
                    lemma_clipped_runs_append(bounds, origin_x as int, origin_y as int, mask_y as int, seq![(start as int, mask_x as int)], rest, color);
                    assert(seq![(start as int, mask_x as int)].drop_first() =~= Seq::<(int, int)>::empty());
                    assert(clipped_runs(bounds, origin_x as int, origin_y as int, mask_y as int, Seq::<(int, int)>::empty(), color) =~= Seq::empty());
                    assert(clipped_runs(bounds, origin_x as int, origin_y as int, mask_y as int, seq![(start as int, mask_x as int)], color)
                        =~= clipped_run(bounds, origin_x as int, origin_y as int, mask_y as int, (start as int, mask_x as int), color));
                    assert(rects@ + clipped_runs(bounds, origin_x as int, origin_y as int, mask_y as int, rest, color)
                        =~= before + clipped_runs(bounds, origin_x as int, origin_y as int, mask_y as int, runs, color));
                }
            }
        }
        proof {
            assert(clipped_runs(bounds, origin_x as int, origin_y as int, mask_y as int, row_runs(outline, 48, mask_y as int), color) =~= Seq::empty());
            assert(rects@ =~= rects@ + Seq::<(LogicalRect, SoftwareCursorColor)>::empty());
        }
        mask_y = mask_y + 1;
        proof {
            assert(rects@ =~= start_rects + mask_rects(bounds, origin_x as int, origin_y as int, outline, color, mask_y as nat));
        }
    }
}

/// The cursor drawn with the mask's top-left corner at `origin`: the arrow in white,
/// then its outline in black, clipped to a `output_w` x `output_h` output; nothing on an
/// empty output.
pub open spec fn spec_software_cursor_rects_at(origin_x: int, origin_y: int, output_w: i32, output_h: i32) -> Seq<(LogicalRect, SoftwareCursorColor)> {
    let bounds = LogicalRect { x: 0, y: 0, w: if output_w > 0 { output_w } else { 0 }, h: if output_h > 0 { output_h } else { 0 } };
    if bounds.w == 0 || bounds.h == 0 {
        Seq::empty()
    } else {
        mask_rects(bounds, origin_x, origin_y, false, SoftwareCursorColor::White, 48)
            + mask_rects(bounds, origin_x, origin_y, true, SoftwareCursorColor::Black, 48)
    }
}

/// Whether a rectangle is non-empty and lies on a `output_w` x `output_h` output.
pub open spec fn rect_on_output(r: LogicalRect, output_w: int, output_h: int) -> bool {
    &&& 0 <= r.x && r.x + r.w <= output_w
    &&& 0 <= r.y && r.y + r.h <= output_h
    &&& r.w > 0 && r.h > 0
}

/// Whether every rectangle of a drawing lies on the output.
pub open spec fn all_on_output(rects: Seq<(LogicalRect, SoftwareCursorColor)>, output_w: int, output_h: int) -> bool {
    forall|i: int| 0 <= i < rects.len() ==> rect_on_output(#[trigger] rects[i].0, output_w, output_h)
}

proof fn lemma_all_on_output_concat(a: Seq<(LogicalRect, SoftwareCursorColor)>, b: Seq<(LogicalRect, SoftwareCursorColor)>, w: int, h: int)
    requires
        all_on_output(a, w, h),
        all_on_output(b, w, h),
    ensures
        all_on_output(a + b, w, h),
{
    assert forall|i: int| 0 <= i < (a + b).len() implies rect_on_output(#[trigger] (a + b)[i].0, w, h) by {
        if i < a.len() {
            assert((a + b)[i] == a[i]);
        } else {
            assert((a + b)[i] == b[i - a.len()]);
        }
    }
}

proof fn lemma_clipped_runs_on_output(
    bounds: LogicalRect,
    origin_x: int,
    origin_y: int,
    y: int,
    runs: Seq<(int, int)>,
    color: SoftwareCursorColor,
)
    requires
        bounds.x == 0,
        bounds.y == 0,
        bounds.w >= 0,
        bounds.h >= 0,
    ensures
        all_on_output(clipped_runs(bounds, origin_x, origin_y, y, runs, color), bounds.w as int, bounds.h as int),
    decreases runs.len(),
{
    if runs.len() > 0 {
        lemma_clipped_runs_on_output(bounds, origin_x, origin_y, y, runs.drop_first(), color);
        lemma_all_on_output_concat(
            clipped_run(bounds, origin_x, origin_y, y, runs[0], color),
            clipped_runs(bounds, origin_x, origin_y, y, runs.drop_first(), color),
            bounds.w as int,
            bounds.h as int,
        );
    }
}

proof fn lemma_mask_rects_on_output(
    bounds: LogicalRect,
    origin_x: int,
    origin_y: int,
    outline: bool,
    color: SoftwareCursorColor,
    n: nat,
)
    requires
        bounds.x == 0,
        bounds.y == 0,
        bounds.w >= 0,
        bounds.h >= 0,
    ensures
        all_on_output(mask_rects(bounds, origin_x, origin_y, outline, color, n), bounds.w as int, bounds.h as int),
    decreases n,
{
    if n > 0 {
        lemma_mask_rects_on_output(bounds, origin_x, origin_y, outline, color, (n - 1) as nat);
        lemma_clipped_runs_on_output(bounds, origin_x, origin_y, n - 1, row_runs(outline, 0, n - 1), color);
        lemma_all_on_output_concat(
            mask_rects(bounds, origin_x, origin_y, outline, color, (n - 1) as nat),
            clipped_runs(bounds, origin_x, origin_y, n - 1, row_runs(outline, 0, n - 1), color),
            bounds.w as int,
            bounds.h as int,
        );
    }
}

/// The cursor is drawn only on the output: wherever the pointer is, every rectangle of
/// the cursor is non-empty and lies inside the `output_w` x `output_h` output.
pub proof fn lemma_cursor_rects_stay_on_output(origin_x: int, origin_y: int, output_w: i32, output_h: i32)
    ensures
        all_on_output(spec_software_cursor_rects_at(origin_x, origin_y, output_w, output_h), output_w as int, output_h as int),
{
    let bounds = LogicalRect { x: 0, y: 0, w: if output_w > 0 { output_w } else { 0 }, h: if output_h > 0 { output_h } else { 0 } };
    if bounds.w != 0 && bounds.h != 0 {
        lemma_mask_rects_on_output(bounds, origin_x, origin_y, false, SoftwareCursorColor::White, 48);
        lemma_mask_rects_on_output(bounds, origin_x, origin_y, true, SoftwareCursorColor::Black, 48);
        lemma_all_on_output_concat(
            mask_rects(bounds, origin_x, origin_y, false, SoftwareCursorColor::White, 48),
            mask_rects(bounds, origin_x, origin_y, true, SoftwareCursorColor::Black, 48),
            output_w as int,
            output_h as int,
        );
    }
}

/// The rectangles that draw the cursor with the mask's top-left corner at `origin`.
pub fn software_cursor_rects_at(origin_x: i32, origin_y: i32, output_w: i32, output_h: i32) -> (r: Vec<(LogicalRect, SoftwareCursorColor)>)
    requires
        origin_x <= i32::MAX - 47,
        origin_y <= i32::MAX - 47,
    ensures
        r@ == spec_software_cursor_rects_at(origin_x as int, origin_y as int, output_w, output_h),
{
    let bounds = LogicalRect {
        x: 0,
        y: 0,
        w: if output_w > 0 { output_w } else { 0 },
        h: if output_h > 0 { output_h } else { 0 },
    };
    let mut rects = Vec::new();
    if bounds.w == 0 || bounds.h == 0 {
        return rects;
    }
    append_cursor_mask_spans(&mut rects, bounds, origin_x, origin_y, SoftwareCursorColor::White, false);
    append_cursor_mask_spans(&mut rects, bounds, origin_x, origin_y, SoftwareCursorColor::Black, true);
    assert(rects@ =~= spec_software_cursor_rects_at(origin_x as int, origin_y as int, output_w, output_h));
    rects
}

} // verus!
