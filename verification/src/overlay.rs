//! The overlay surface's placement on the logical output, and the overlay region debug
//! borders: the two-pixel frame drawn around each overlay region, clipped to the output.
use vstd::prelude::*;
use crate::cursor::{rect_intersection, spec_intersection};
use crate::planes::LogicalRect;

verus! {

/// Where the overlay surface sits on a logical output of `output_w` x `output_h`: half
/// the output (at least 480 x 320), 16 pixels from the top right corner, shrunk to fit
/// and never empty. The top offset is 16, or one less than the height (saturating at
/// `i32::MIN`) when that is smaller.
pub open spec fn spec_overlay_rect(output_w: i32, output_h: i32) -> LogicalRect {
    let desired_w: int = if output_w / 2 > 480 { output_w / 2 } else { 480 };
    let desired_h: int = if output_h / 2 > 320 { output_h / 2 } else { 320 };
    let x: int = if output_w - desired_w - 16 > 0 { output_w - desired_w - 16 } else { 0 };
    let below: int = if output_h > i32::MIN { output_h - 1 } else { output_h as int };
    let y: int = if 16 < below { 16 } else { below };
    let available_w: int = if output_w - x > 1 { output_w - x } else { 1 };
    let available_h: int = if output_h - y > 1 { output_h - y } else { 1 };
    LogicalRect {
        x: x as i32,
        y: y as i32,
        w: (if desired_w < available_w { desired_w } else { available_w }) as i32,
        h: (if desired_h < available_h { desired_h } else { available_h }) as i32,
    }
}

/// The overlay surface's rectangle on a logical output of `output_w` x `output_h`; on
/// an output of at least one pixel each way it lies inside the output.
pub fn overlay_rect_for_output(output_w: i32, output_h: i32) -> (r: LogicalRect)
    requires
        output_w >= i32::MIN + 496,
    ensures
        r == spec_overlay_rect(output_w, output_h),
        r.w >= 1 && r.h >= 1,
        output_w >= 1 ==> 0 <= r.x && r.x + r.w <= output_w,
        output_h >= 1 ==> 0 <= r.y < output_h && r.y + r.h <= output_h,
{
    let half_w = output_w / 2;
    let half_h = output_h / 2;
    let desired_w: i32 = if half_w > 480 { half_w } else { 480 };
    let desired_h: i32 = if half_h > 320 { half_h } else { 320 };
    let x: i32 = if output_w - desired_w - 16 > 0 { output_w - desired_w - 16 } else { 0 };
    let below: i32 = if output_h > i32::MIN { output_h - 1 } else { output_h };
    let y: i32 = if 16 < below { 16 } else { below };
    let available_w: i32 = if output_w - x > 1 { output_w - x } else { 1 };
    let available_h: i32 = if output_h - y > 1 { output_h - y } else { 1 };
    LogicalRect {
        x,
        y,
        w: if desired_w < available_w { desired_w } else { available_w },
        h: if desired_h < available_h { desired_h } else { available_h },
    }
}

/// The border thickness of a region: two pixels, thinner for a thinner region, but at
/// least one.
pub open spec fn border_thickness(r: LogicalRect) -> int {
    let t = if r.w < 2 { r.w as int } else { 2 };
    let t = if r.h < t { r.h as int } else { t };
    if t < 1 { 1 } else { t }
}

/// The arithmetic of a region's far edges stays within `i32`.
pub open spec fn border_arith_fits(r: LogicalRect) -> bool {
    &&& i32::MIN <= r.x + r.w <= i32::MAX
    &&& i32::MIN <= r.x + r.w - border_thickness(r)
    &&& i32::MIN <= r.y + r.h <= i32::MAX
    &&& i32::MIN <= r.y + r.h - border_thickness(r)
}

/// The top, bottom, left and right edges of a region's frame.
pub open spec fn border_candidates(r: LogicalRect) -> Seq<LogicalRect> {
    let b = border_thickness(r) as i32;
    seq![
        LogicalRect { x: r.x, y: r.y, w: r.w, h: b },
        LogicalRect { x: r.x, y: (r.y + r.h - b) as i32, w: r.w, h: b },
        LogicalRect { x: r.x, y: r.y, w: b, h: r.h },
        LogicalRect { x: (r.x + r.w - b) as i32, y: r.y, w: b, h: r.h },
    ]
}

/// What is left of a frame edge inside `bounds`: its non-empty intersection, if any.
pub open spec fn clipped(edge: LogicalRect, bounds: LogicalRect) -> Seq<LogicalRect> {
    match spec_intersection(edge, bounds) {
        Some(c) => if c.w > 0 && c.h > 0 { seq![c] } else { Seq::empty() },
        None => Seq::empty(),
    }
}

/// The clipped frame edges of one region, in edge order.
pub open spec fn region_border_rects(r: LogicalRect, bounds: LogicalRect) -> Seq<LogicalRect> {
    let c = border_candidates(r);
    clipped(c[0], bounds) + clipped(c[1], bounds) + clipped(c[2], bounds) + clipped(c[3], bounds)
}

/// The clipped frame edges of all regions, region by region.
pub open spec fn border_rects(regions: Seq<LogicalRect>, bounds: LogicalRect) -> Seq<LogicalRect>
    decreases regions.len(),
{
    if regions.len() == 0 {
        Seq::empty()
    } else {
        border_rects(regions.drop_last(), bounds) + region_border_rects(regions.last(), bounds)
    }
}

/// The logical output as a rectangle at the origin (negative sizes count as zero).
pub open spec fn output_bounds(output_w: i32, output_h: i32) -> LogicalRect {
    LogicalRect {
        x: 0,
        y: 0,
        w: if output_w < 0 { 0 } else { output_w },
        h: if output_h < 0 { 0 } else { output_h },
    }
}

/// The debug frames of the overlay regions (given as logical rectangles) on an output of
/// `output_w` x `output_h`: none on an empty output.
pub open spec fn spec_debug_border_rects(regions: Seq<LogicalRect>, output_w: i32, output_h: i32) -> Seq<LogicalRect> {
    let bounds = output_bounds(output_w, output_h);
    if bounds.w == 0 || bounds.h == 0 {
        Seq::empty()
    } else {
        border_rects(regions, bounds)
    }
}

fn push_clipped(out: &mut Vec<LogicalRect>, edge: LogicalRect, bounds: LogicalRect)
    ensures
        final(out)@ == old(out)@ + clipped(edge, bounds),
{
    match rect_intersection(edge, bounds) {
        Some(c) => {
            if c.w > 0 && c.h > 0 {
                out.push(c);
            }
        },
        None => {},
    }
    assert(out@ =~= old(out)@ + clipped(edge, bounds));
}

fn push_region_border_rects(out: &mut Vec<LogicalRect>, r: LogicalRect, bounds: LogicalRect)
    requires
        border_arith_fits(r),
    ensures
        final(out)@ == old(out)@ + region_border_rects(r, bounds),
{
    let t0: i32 = if r.w < 2 { r.w } else { 2 };
    let t1: i32 = if r.h < t0 { r.h } else { t0 };
    let b: i32 = if t1 < 1 { 1 } else { t1 };
    push_clipped(out, LogicalRect { x: r.x, y: r.y, w: r.w, h: b }, bounds);
    push_clipped(out, LogicalRect { x: r.x, y: r.y + r.h - b, w: r.w, h: b }, bounds);
    push_clipped(out, LogicalRect { x: r.x, y: r.y, w: b, h: r.h }, bounds);
    push_clipped(out, LogicalRect { x: r.x + r.w - b, y: r.y, w: b, h: r.h }, bounds);
    assert(out@ =~= old(out)@ + region_border_rects(r, bounds));
}

/// The two-pixel debug frames of overlay regions, clipped to the logical output of
/// `output_w` x `output_h`. Each region gives its top, bottom, left and right edge, in
/// that order, leaving out what falls outside the output.
pub fn overlay_region_debug_border_rects(regions: &[LogicalRect], output_w: i32, output_h: i32) -> (r: Vec<LogicalRect>)
    requires
        forall|i: int| 0 <= i < regions@.len() ==> border_arith_fits(#[trigger] regions@[i]),
    ensures
        r@ == spec_debug_border_rects(regions@, output_w, output_h),
{
    let bounds = LogicalRect {
        x: 0,
        y: 0,
        w: if output_w < 0 { 0 } else { output_w },
        h: if output_h < 0 { 0 } else { output_h },
    };
    let mut rects: Vec<LogicalRect> = Vec::new();
    if bounds.w == 0 || bounds.h == 0 {
        return rects;
    }
    let mut i: usize = 0;
    while i < regions.len()
        invariant
            i <= regions@.len(),
            bounds == output_bounds(output_w, output_h),
            forall|k: int| 0 <= k < regions@.len() ==> border_arith_fits(#[trigger] regions@[k]),
            rects@ == border_rects(regions@.subrange(0, i as int), bounds),
        decreases regions@.len() - i,
    {
        let r = regions[i];
        assert(border_arith_fits(regions@[i as int]));
        push_region_border_rects(&mut rects, r, bounds);
        assert(regions@.subrange(0, i + 1).drop_last() =~= regions@.subrange(0, i as int));
        i = i + 1;
    }
    assert(regions@.subrange(0, regions@.len() as int) =~= regions@);
    rects
}

} // verus!
