//! Collection of render elements per source, with counts per source and the selection of
//! the elements that belong on the primary plane; and the remapping of damage from a
//! native pane's buffer onto the buffer it is materialized into.
use vstd::prelude::*;
use crate::cursor::{rect_intersection, spec_intersection};
use crate::planes::LogicalRect;

verus! {

/// Where a render element came from.
#[derive(Clone, Copy, Debug, PartialEq, Eq, Structural)]
pub enum RenderElementSource {
    MainOverlayRegion,
    Main,
    MainPopup,
    NativePane,
    NativePanePopup,
    OverlayRegionDebug,
    Overlay,
    OverlayPopup,
}

/// How many elements came from each source.
#[derive(Clone, Copy, Debug, PartialEq, Eq, Structural)]
pub struct RenderElementCounts {
    pub main_overlay_regions: usize,
    pub main: usize,
    pub main_popups: usize,
    pub native_panes: usize,
    pub native_pane_popups: usize,
    pub overlay_region_debug: usize,
    pub overlay: usize,
    pub overlay_popups: usize,
}

/// The count kept for `source`.
pub open spec fn count_of(counts: RenderElementCounts, source: RenderElementSource) -> usize {
    match source {
        RenderElementSource::MainOverlayRegion => counts.main_overlay_regions,
        RenderElementSource::Main => counts.main,
        RenderElementSource::MainPopup => counts.main_popups,
        RenderElementSource::NativePane => counts.native_panes,
        RenderElementSource::NativePanePopup => counts.native_pane_popups,
        RenderElementSource::OverlayRegionDebug => counts.overlay_region_debug,
        RenderElementSource::Overlay => counts.overlay,
        RenderElementSource::OverlayPopup => counts.overlay_popups,
    }
}

/// The sum of all counts.
pub open spec fn total_count(c: RenderElementCounts) -> int {
    c.main_overlay_regions + c.main + c.main_popups + c.native_panes + c.native_pane_popups
        + c.overlay_region_debug + c.overlay + c.overlay_popups
}

/// Elements from the overlay and its popups go to the overlay plane; all others to the
/// primary plane.
pub open spec fn on_primary_plane(source: RenderElementSource) -> bool {
    !(source == RenderElementSource::Overlay || source == RenderElementSource::OverlayPopup)
}

/// The first `n` elements whose source belongs on the primary plane, in order.
pub open spec fn primary_prefix<E>(elements: Seq<E>, sources: Seq<RenderElementSource>, n: nat) -> Seq<E>
    decreases n,
{
    if n == 0 {
        Seq::empty()
    } else {
        let rest = primary_prefix(elements, sources, (n - 1) as nat);
        if on_primary_plane(sources[n - 1]) { rest.push(elements[n - 1]) } else { rest }
    }
}

/// How many of `sources` are `source`.
pub open spec fn occurrences(sources: Seq<RenderElementSource>, source: RenderElementSource) -> nat
    decreases sources.len(),
{
    if sources.len() == 0 {
        0
    } else {
        occurrences(sources.drop_last(), source) + (if sources.last() == source { 1nat } else { 0nat })
    }
}

proof fn lemma_occurrences_push(sources: Seq<RenderElementSource>, x: RenderElementSource, t: RenderElementSource)
    ensures
        occurrences(sources.push(x), t) == occurrences(sources, t) + (if x == t { 1nat } else { 0nat }),
{
    assert(sources.push(x).drop_last() =~= sources);
}

/// The primary-plane elements among the first `n` are those `n` less the overlay and
/// overlay popup elements among them.
proof fn lemma_primary_prefix_len<E>(elements: Seq<E>, sources: Seq<RenderElementSource>, n: nat)
    requires
        n <= sources.len(),
    ensures
        primary_prefix(elements, sources, n).len() == n
            - occurrences(sources.take(n as int), RenderElementSource::Overlay)
            - occurrences(sources.take(n as int), RenderElementSource::OverlayPopup),
        occurrences(sources.take(n as int), RenderElementSource::Overlay)
            + occurrences(sources.take(n as int), RenderElementSource::OverlayPopup) <= n,
    decreases n,
{
    if n > 0 {
        lemma_primary_prefix_len(elements, sources, (n - 1) as nat);
        assert(sources.take(n as int).drop_last() =~= sources.take(n - 1));
        assert(sources.take(n as int).last() == sources[n - 1]);
    }
}

/// Render elements collected for one frame, each with its source.
pub struct RenderElementCapture<E> {
    elements: Vec<E>,
    counts: RenderElementCounts,
    sources: Vec<RenderElementSource>,
    failure: Option<String>,
}

impl<E> RenderElementCapture<E> {
    #[verifier::type_invariant]
    spec fn consistent(self) -> bool {
        &&& self.elements@.len() == self.sources@.len()
        &&& total_count(self.counts) == self.elements@.len()
        &&& forall|s: RenderElementSource| #[trigger] count_of(self.counts, s) == occurrences(self.sources@, s)
    }

    /// The collected elements, in order.
    pub closed spec fn elements(&self) -> Seq<E> {
        self.elements@
    }

    /// The source of each collected element.
    pub closed spec fn sources(&self) -> Seq<RenderElementSource> {
        self.sources@
    }

    /// The number of elements collected from each source.
    pub closed spec fn counts(&self) -> RenderElementCounts {
        self.counts
    }

    /// Why collecting failed, if it did.
    pub closed spec fn failure(&self) -> Option<String> {
        self.failure
    }

    /// Records why collecting failed.
    pub fn record_failure(&mut self, reason: String)
        ensures
            final(self).failure() == Some(reason),
            final(self).elements() == old(self).elements(),
            final(self).sources() == old(self).sources(),
            final(self).counts() == old(self).counts(),
    {
        proof {
            use_type_invariant(&*self);
        }
        self.failure = Some(reason);
    }

    /// Why collecting failed, if it did.
    pub fn failure_reason(&self) -> (r: Option<&String>)
        ensures
            r == (match self.failure() {
                Some(reason) => Some(&reason),
                None => None,
            }),
    {
        match &self.failure {
            Some(reason) => Some(reason),
            None => None,
        }
    }

    /// An empty capture.
    pub fn new() -> (c: Self)
        ensures
            c.elements() == Seq::<E>::empty(),
            c.sources() == Seq::<RenderElementSource>::empty(),
            forall|s: RenderElementSource| count_of(c.counts(), s) == 0,
            c.failure() is None,
    {
        RenderElementCapture {
            elements: Vec::new(),
            counts: RenderElementCounts {
                main_overlay_regions: 0,
                main: 0,
                main_popups: 0,
                native_panes: 0,
                native_pane_popups: 0,
                overlay_region_debug: 0,
                overlay: 0,
                overlay_popups: 0,
            },
            sources: Vec::new(),
            failure: None,
        }
    }

    /// Appends `new_elements`, all from `source`, and counts them.
    pub fn push_elements(&mut self, source: RenderElementSource, new_elements: Vec<E>)
        ensures
            final(self).elements() == old(self).elements() + new_elements@,
            final(self).sources() == old(self).sources() + Seq::new(new_elements@.len(), |i: int| source),
            count_of(final(self).counts(), source) == count_of(old(self).counts(), source) + new_elements@.len(),
            forall|s: RenderElementSource| s != source ==> count_of(final(self).counts(), s) == count_of(old(self).counts(), s),
            final(self).failure() == old(self).failure(),
    {
        proof {
            use_type_invariant(&*self);
        }
        let added = new_elements.len();
        if added == 0 {
            assert(self.elements@ =~= self.elements@ + new_elements@);
            assert(self.sources@ =~= self.sources@ + Seq::new(new_elements@.len(), |i: int| source));
            return;
        }
        let mut taken = Self::new();
        std::mem::swap(&mut taken, self);
        proof {
            use_type_invariant(&taken);
        }
        let RenderElementCapture { elements, counts, sources, failure } = taken;
        let ghost old_sources = sources@;
        let ghost old_counts = counts;
        assert(forall|t: RenderElementSource| #[trigger] count_of(old_counts, t) == occurrences(old_sources, t));
        let mut elements = elements;
        let mut sources = sources;
        let mut counts = counts;
        let mut new_elements = new_elements;
        elements.append(&mut new_elements);
        let total = elements.len();
        let mut i: usize = 0;
        while i < added
            invariant
                i <= added,
                sources@ == old_sources + Seq::new(i as nat, |j: int| source),
                forall|t: RenderElementSource| #[trigger] occurrences(sources@, t)
                    == occurrences(old_sources, t) + (if t == source { i as nat } else { 0nat }),
            decreases added - i,
        {
            proof {
                assert forall|t: RenderElementSource| #[trigger] occurrences(sources@.push(source), t)
                    == occurrences(old_sources, t) + (if t == source { (i + 1) as nat } else { 0nat }) by {
                    lemma_occurrences_push(sources@, source, t);
                }
            }
            sources.push(source);
            i = i + 1;
            assert(sources@ =~= old_sources + Seq::new(i as nat, |j: int| source));
        }
        match source {
            RenderElementSource::MainOverlayRegion => counts.main_overlay_regions = counts.main_overlay_regions + added,
            RenderElementSource::Main => counts.main = counts.main + added,
            RenderElementSource::MainPopup => counts.main_popups = counts.main_popups + added,
            RenderElementSource::NativePane => counts.native_panes = counts.native_panes + added,
            RenderElementSource::NativePanePopup => counts.native_pane_popups = counts.native_pane_popups + added,
            RenderElementSource::OverlayRegionDebug => counts.overlay_region_debug = counts.overlay_region_debug + added,
            RenderElementSource::Overlay => counts.overlay = counts.overlay + added,
            RenderElementSource::OverlayPopup => counts.overlay_popups = counts.overlay_popups + added,
        }
        assert forall|t: RenderElementSource| #[trigger] count_of(counts, t) == occurrences(sources@, t) by {
            assert(occurrences(sources@, t) == occurrences(old_sources, t) + (if t == source { added as nat } else { 0nat }));
            assert(count_of(old_counts, t) == occurrences(old_sources, t));
        }
        *self = RenderElementCapture { elements, counts, sources, failure };
    }

    /// The number of elements collected from each source.
    pub fn element_counts(&self) -> (c: RenderElementCounts)
        ensures
            c == self.counts(),
    {
        self.counts
    }

    /// The source of each collected element, in collection order.
    pub fn element_sources(&self) -> (s: &[RenderElementSource])
        ensures
            s@ == self.sources(),
    {
        self.sources.as_slice()
    }

    /// The collected elements that belong on the primary plane, in order: all of them but
    /// the overlay's and its popups'.
    pub fn primary_plane_elements(&self) -> (r: Vec<&E>)
        ensures
            r@.map_values(|e: &E| *e) == primary_prefix(self.elements(), self.sources(), self.elements().len()),
            r@.len() == total_count(self.counts()) - self.counts().overlay - self.counts().overlay_popups,
    {
        proof {
            use_type_invariant(self);
            lemma_primary_prefix_len(self.elements@, self.sources@, self.sources@.len());
            assert(self.sources@.take(self.sources@.len() as int) =~= self.sources@);
            assert(count_of(self.counts, RenderElementSource::Overlay) == occurrences(self.sources@, RenderElementSource::Overlay));
            assert(count_of(self.counts, RenderElementSource::OverlayPopup) == occurrences(self.sources@, RenderElementSource::OverlayPopup));
        }
        let n = self.elements.len();
        let mut r: Vec<&E> = Vec::new();
        let mut i: usize = 0;
        while i < n
            invariant
                n == self.elements@.len(),
                n == self.sources@.len(),
                i <= n,
                r@.map_values(|e: &E| *e) == primary_prefix(self.elements@, self.sources@, i as nat),
            decreases n - i,
        {
            let source = self.sources[i];
            if !(source == RenderElementSource::Overlay || source == RenderElementSource::OverlayPopup) {
                r.push(&self.elements[i]);
            }
            i = i + 1;
            assert(r@.map_values(|e: &E| *e) =~= primary_prefix(self.elements@, self.sources@, i as nat));
        }
        assert(r@.len() == r@.map_values(|e: &E| *e).len());
        r
    }
}

/// The render elements of one frame, by source, before they are put in drawing order.
pub struct FrameElementGroups<E> {
    pub overlay_popups: Vec<E>,
    pub overlay: Vec<E>,
    /// The overlay region debug borders, when they are shown.
    pub overlay_region_debug: Option<Vec<E>>,
    pub main_overlay_regions: Vec<E>,
    pub native_pane_popups: Vec<E>,
    pub cropped_native_pane_popups: Vec<E>,
    pub cropped_native_panes: Vec<E>,
    pub native_panes: Vec<E>,
    pub main_popups: Vec<E>,
    pub main: Vec<E>,
}

/// The drawing order of a frame, top to bottom: overlay popups, the overlay, the debug
/// borders, the main app's overlay regions, native pane popups (plain, then cropped),
/// native panes (cropped, then plain), main app popups, and the main app, so that an
/// opaque main surface cannot hide the overlay.
pub open spec fn frame_drawing_order<E>(g: FrameElementGroups<E>) -> Seq<E> {
    g.overlay_popups@ + g.overlay@ + (match g.overlay_region_debug {
        Some(d) => d@,
        None => Seq::<E>::empty(),
    }) + g.main_overlay_regions@ + g.native_pane_popups@ + g.cropped_native_pane_popups@
        + g.cropped_native_panes@ + g.native_panes@ + g.main_popups@ + g.main@
}

/// The source of each element in drawing order.
pub open spec fn frame_source_order<E>(g: FrameElementGroups<E>) -> Seq<RenderElementSource> {
    let rep = |n: nat, s: RenderElementSource| Seq::new(n, |i: int| s);
    rep(g.overlay_popups@.len(), RenderElementSource::OverlayPopup)
        + rep(g.overlay@.len(), RenderElementSource::Overlay)
        + rep(match g.overlay_region_debug {
            Some(d) => d@.len(),
            None => 0,
        }, RenderElementSource::OverlayRegionDebug)
        + rep(g.main_overlay_regions@.len(), RenderElementSource::MainOverlayRegion)
        + rep(g.native_pane_popups@.len() + g.cropped_native_pane_popups@.len(), RenderElementSource::NativePanePopup)
        + rep(g.cropped_native_panes@.len() + g.native_panes@.len(), RenderElementSource::NativePane)
        + rep(g.main_popups@.len(), RenderElementSource::MainPopup)
        + rep(g.main@.len(), RenderElementSource::Main)
}

/// Puts a frame's elements in drawing order, each recorded with its source.
pub fn collect_frame_elements<E>(groups: FrameElementGroups<E>) -> (c: RenderElementCapture<E>)
    ensures
        c.elements() == frame_drawing_order(groups),
        c.sources() == frame_source_order(groups),
        c.failure() is None,
{
    let ghost g = groups;
    let FrameElementGroups {
        overlay_popups,
        overlay,
        overlay_region_debug,
        main_overlay_regions,
        native_pane_popups,
        cropped_native_pane_popups,
        cropped_native_panes,
        native_panes,
        main_popups,
        main,
    } = groups;
    let ghost debug: Seq<E> = match g.overlay_region_debug {
        Some(d) => d@,
        None => Seq::<E>::empty(),
    };
    let mut c = RenderElementCapture::new();
    c.push_elements(RenderElementSource::OverlayPopup, overlay_popups);
    c.push_elements(RenderElementSource::Overlay, overlay);
    match overlay_region_debug {
        Some(d) => c.push_elements(RenderElementSource::OverlayRegionDebug, d),
        None => {},
    }
    c.push_elements(RenderElementSource::MainOverlayRegion, main_overlay_regions);
    c.push_elements(RenderElementSource::NativePanePopup, native_pane_popups);
    c.push_elements(RenderElementSource::NativePanePopup, cropped_native_pane_popups);
    c.push_elements(RenderElementSource::NativePane, cropped_native_panes);
    c.push_elements(RenderElementSource::NativePane, native_panes);
    c.push_elements(RenderElementSource::MainPopup, main_popups);
    c.push_elements(RenderElementSource::Main, main);
    proof {
        assert(c.elements() =~= frame_drawing_order(g));
        assert(c.sources() =~= frame_source_order(g));
    }
    c
}

impl<E> Default for RenderElementCapture<E> {
    fn default() -> (c: Self)
        ensures
            c.elements() == Seq::<E>::empty(),
            c.sources() == Seq::<RenderElementSource>::empty(),
            forall|s: RenderElementSource| count_of(c.counts(), s) == 0,
            c.failure() is None,
    {
        Self::new()
    }
}


/// `n / d` rounded up, for a positive `d`.
pub open spec fn div_ceil(n: int, d: int) -> int {
    if n % d == 0 { n / d } else { n / d + 1 }
}

/// A damage rectangle of a `source_w` x `source_h` buffer scaled onto a
/// `destination_w` x `destination_h` buffer: its start rounded down and its end rounded
/// up, kept inside the destination; none when it leaves `i32` or the destination.
pub open spec fn spec_remap_rect(rect: LogicalRect, source_w: i32, source_h: i32, destination_w: i32, destination_h: i32) -> Option<LogicalRect> {
    let x0 = (rect.x * destination_w) / (source_w as int);
    let y0 = (rect.y * destination_h) / (source_h as int);
    let x1 = div_ceil((rect.x + rect.w) * destination_w, source_w as int);
    let y1 = div_ceil((rect.y + rect.h) * destination_h, source_h as int);
    if i32::MIN <= x0 <= i32::MAX && i32::MIN <= y0 <= i32::MAX && i32::MIN <= x1 - x0 <= i32::MAX
        && i32::MIN <= y1 - y0 <= i32::MAX {
        spec_intersection(
            LogicalRect { x: x0 as i32, y: y0 as i32, w: (x1 - x0) as i32, h: (y1 - y0) as i32 },
            LogicalRect { x: 0, y: 0, w: destination_w, h: destination_h },
        )
    } else {
        None
    }
}

fn fits_i32(v: i64) -> (r: Option<i32>)
    ensures
        r == (if i32::MIN <= v <= i32::MAX { Some(v as i32) } else { None::<i32> }),
{
    if i32::MIN as i64 <= v && v <= i32::MAX as i64 { Some(v as i32) } else { None }
}

/// Scales one damage rectangle from a `source_w` x `source_h` buffer onto a
/// `destination_w` x `destination_h` one (see `spec_remap_rect`).
pub fn remap_rect_to_materialized_destination(
    rect: LogicalRect,
    source_w: i32,
    source_h: i32,
    destination_w: i32,
    destination_h: i32,
) -> (r: Option<LogicalRect>)
    requires
        source_w > 0,
        source_h > 0,
        i32::MIN <= rect.x + rect.w <= i32::MAX,
        i32::MIN <= rect.y + rect.h <= i32::MAX,
    ensures
        r == spec_remap_rect(rect, source_w, source_h, destination_w, destination_h),
{
    assert(-0x3fff_ffff_8000_0000 <= rect.x * destination_w <= 0x4000_0000_0000_0000) by (nonlinear_arith)
        requires
            i32::MIN <= rect.x <= i32::MAX,
            i32::MIN <= destination_w <= i32::MAX,
    ;
    assert(-0x3fff_ffff_8000_0000 <= rect.y * destination_h <= 0x4000_0000_0000_0000) by (nonlinear_arith)
        requires
            i32::MIN <= rect.y <= i32::MAX,
            i32::MIN <= destination_h <= i32::MAX,
    ;
    assert(-0x3fff_ffff_8000_0000 <= (rect.x + rect.w) * destination_w <= 0x4000_0000_0000_0000) by (nonlinear_arith)
        requires
            i32::MIN <= rect.x + rect.w <= i32::MAX,
            i32::MIN <= destination_w <= i32::MAX,
    ;
    assert(-0x3fff_ffff_8000_0000 <= (rect.y + rect.h) * destination_h <= 0x4000_0000_0000_0000) by (nonlinear_arith)
        requires
            i32::MIN <= rect.y + rect.h <= i32::MAX,
            i32::MIN <= destination_h <= i32::MAX,
    ;
    let sw = source_w as i64;
    let sh = source_h as i64;
    let x0n = rect.x as i64 * destination_w as i64;
    let y0n = rect.y as i64 * destination_h as i64;
    let x1n = (rect.x + rect.w) as i64 * destination_w as i64;
    let y1n = (rect.y + rect.h) as i64 * destination_h as i64;
    let x0 = floor_div(x0n, sw);
    let y0 = floor_div(y0n, sh);
    let x1 = floor_div(x1n, sw) + if floor_mod(x1n, sw) != 0 { 1i64 } else { 0i64 };
    let y1 = floor_div(y1n, sh) + if floor_mod(y1n, sh) != 0 { 1i64 } else { 0i64 };
    let x = fits_i32(x0);
    let y = fits_i32(y0);
    let w = fits_i32(x1 - x0);
    let h = fits_i32(y1 - y0);
    match (x, y, w, h) {
        (Some(x), Some(y), Some(w), Some(h)) => rect_intersection(
            LogicalRect { x, y, w, h },
            LogicalRect { x: 0, y: 0, w: destination_w, h: destination_h },
        ),
        _ => None,
    }
}

/// Euclidean (floor, for a positive divisor) division.
fn floor_div(n: i64, d: i64) -> (q: i64)
    requires
        d > 0,
    ensures
        q == n / d,
        (if n < 0 { n as int } else { 0 }) <= q <= (if n < 0 { 0 } else { n as int }),
{
    proof {
        lemma_div_in_range(n as int, d as int);
    }
    n.checked_div_euclid(d).unwrap()
}

/// The remainder of Euclidean division, for a positive divisor.
fn floor_mod(n: i64, d: i64) -> (m: i64)
    requires
        d > 0,
    ensures
        m == n % d,
{
    n.checked_rem_euclid(d).unwrap()
}

proof fn lemma_div_in_range(n: int, d: int)
    requires
        d >= 1,
    ensures
        (if n < 0 { n } else { 0 }) <= n / d <= (if n < 0 { 0 } else { n }),
{
    vstd::arithmetic::div_mod::lemma_fundamental_div_mod(n, d);
    let q = n / d;
    let r = n % d;
    assert(0 <= r < d);
    if n >= 0 {
        assert(0 <= q <= n) by (nonlinear_arith)
            requires
                n == d * q + r,
                0 <= r < d,
                d >= 1,
                n >= 0,
        ;
    } else {
        assert(n <= q < 0) by (nonlinear_arith)
            requires
                n == d * q + r,
                0 <= r < d,
                d >= 1,
                n < 0,
        ;
    }
}

/// The damage of a native buffer remapped onto the buffer it is materialized into:
/// each rectangle scaled by `spec_remap_rect`, those that fall outside dropped; no damage
/// when either size is empty.
pub open spec fn spec_remap_damage(damage: Seq<LogicalRect>, source_w: i32, source_h: i32, destination_w: i32, destination_h: i32) -> Seq<LogicalRect>
    decreases damage.len(),
{
    if source_w <= 0 || source_h <= 0 || destination_w <= 0 || destination_h <= 0 || damage.len() == 0 {
        Seq::empty()
    } else {
        let rest = spec_remap_damage(damage.drop_last(), source_w, source_h, destination_w, destination_h);
        match spec_remap_rect(damage.last(), source_w, source_h, destination_w, destination_h) {
            Some(r) => rest.push(r),
            None => rest,
        }
    }
}

/// Remaps the damage of a native buffer onto its materialized destination.
pub fn remap_damage_to_materialized_destination(
    damage: &[LogicalRect],
    source_w: i32,
    source_h: i32,
    destination_w: i32,
    destination_h: i32,
) -> (r: Vec<LogicalRect>)
    requires
        forall|i: int| 0 <= i < damage@.len() ==> i32::MIN <= #[trigger] damage@[i].x + damage@[i].w <= i32::MAX
            && i32::MIN <= damage@[i].y + damage@[i].h <= i32::MAX,
    ensures
        r@ == spec_remap_damage(damage@, source_w, source_h, destination_w, destination_h),
{
    let mut out: Vec<LogicalRect> = Vec::new();
    if source_w <= 0 || source_h <= 0 || destination_w <= 0 || destination_h <= 0 {
        return out;
    }
    let mut i: usize = 0;
    while i < damage.len()
        invariant
            source_w > 0 && source_h > 0 && destination_w > 0 && destination_h > 0,
            i <= damage@.len(),
            forall|k: int| 0 <= k < damage@.len() ==> i32::MIN <= #[trigger] damage@[k].x + damage@[k].w <= i32::MAX
                && i32::MIN <= damage@[k].y + damage@[k].h <= i32::MAX,
            out@ == spec_remap_damage(damage@.subrange(0, i as int), source_w, source_h, destination_w, destination_h),
        decreases damage@.len() - i,
    {
        let rect = damage[i];
        assert(i32::MIN <= damage@[i as int].x + damage@[i as int].w <= i32::MAX);
        if let Some(r) = remap_rect_to_materialized_destination(rect, source_w, source_h, destination_w, destination_h) {
            out.push(r);
        }
        assert(damage@.subrange(0, i + 1).drop_last() =~= damage@.subrange(0, i as int));
        i = i + 1;
    }
    assert(damage@.subrange(0, damage@.len() as int) =~= damage@);
    out
}

} // verus!
