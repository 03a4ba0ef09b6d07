//! Atomic KMS plane decisions: plane layouts, the choice of primary and overlay planes,
//! their composition controls (z-order, alpha, pixel blend mode), scanout format
//! preference, connector modes, and DRM enum name normalization.
use vstd::prelude::*;

verus! {

/// Whether buffers exported from allocated GBM buffer objects are forced to the implicit
/// modifier. They are not: the explicit modifier the allocator chose is kept.
pub const GBM_BUFFER_FROM_BO_PRESERVE_EXPLICIT_MODIFIER: bool = false;

/// Source and CRTC rectangles of an atomic plane.
#[derive(Clone, Copy, Debug, PartialEq, Eq, Structural)]
pub struct AtomicPlaneLayout {
    pub crtc_x: i32,
    pub crtc_y: i32,
    pub crtc_w: u32,
    pub crtc_h: u32,
    pub src_x: u32,
    pub src_y: u32,
    pub src_w: u32,
    pub src_h: u32,
}

/// A rectangle in logical output coordinates.
#[derive(Clone, Copy, Debug, PartialEq, Eq, Structural)]
pub struct LogicalRect {
    pub x: i32,
    pub y: i32,
    pub w: i32,
    pub h: i32,
}

impl AtomicPlaneLayout {
    /// A plane that scans out the whole mode.
    pub fn fullscreen(mode_size: (u16, u16)) -> (l: Self)
        ensures
            l == (AtomicPlaneLayout {
                crtc_x: 0,
                crtc_y: 0,
                crtc_w: mode_size.0 as u32,
                crtc_h: mode_size.1 as u32,
                src_x: 0,
                src_y: 0,
                src_w: mode_size.0 as u32,
                src_h: mode_size.1 as u32,
            }),
    {
        AtomicPlaneLayout {
            crtc_x: 0,
            crtc_y: 0,
            crtc_w: mode_size.0 as u32,
            crtc_h: mode_size.1 as u32,
            src_x: 0,
            src_y: 0,
            src_w: mode_size.0 as u32,
            src_h: mode_size.1 as u32,
        }
    }

    /// The overlay plane layout for an overlay rectangle: the rectangle's size (the
    /// whole plane source) at its position clamped to the output's top-left quadrant;
    /// none for an empty rectangle.
    pub fn from_overlay_rect(rect: LogicalRect) -> (l: Option<Self>)
        ensures
            rect.w <= 0 || rect.h <= 0 ==> l is None,
            rect.w > 0 && rect.h > 0 ==> l == Some(AtomicPlaneLayout {
                crtc_x: if rect.x > 0 { rect.x } else { 0 },
                crtc_y: if rect.y > 0 { rect.y } else { 0 },
                crtc_w: rect.w as u32,
                crtc_h: rect.h as u32,
                src_x: 0,
                src_y: 0,
                src_w: rect.w as u32,
                src_h: rect.h as u32,
            }),
    {
        if rect.w <= 0 || rect.h <= 0 {
            return None;
        }
        let width = rect.w as u32;
        let height = rect.h as u32;
        Some(AtomicPlaneLayout {
            crtc_x: if rect.x > 0 { rect.x } else { 0 },
            crtc_y: if rect.y > 0 { rect.y } else { 0 },
            crtc_w: width,
            crtc_h: height,
            src_x: 0,
            src_y: 0,
            src_w: width,
            src_h: height,
        })
    }
}

/// The zpos values for a primary and an overlay plane: the primary's minimum, and the
/// least overlay value strictly above it; none when the ranges do not allow that order
/// (an overlay is always strictly above the primary).
pub open spec fn spec_select_atomic_plane_zpos_values(
    primary_min: u64,
    primary_max: u64,
    overlay_min: u64,
    overlay_max: u64,
) -> Option<(u64, u64)> {
    let above: int = primary_min + 1;
    let overlay: int = if overlay_min >= above { overlay_min as int } else { above };
    if primary_min > primary_max || overlay > overlay_max {
        None
    } else {
        Some((primary_min, overlay as u64))
    }
}

/// Chooses zpos values that put the overlay plane strictly above the primary plane.
pub fn select_atomic_plane_zpos_values(
    primary_min: u64,
    primary_max: u64,
    overlay_min: u64,
    overlay_max: u64,
) -> (r: Option<(u64, u64)>)
    ensures
        r == spec_select_atomic_plane_zpos_values(primary_min, primary_max, overlay_min, overlay_max),
        r is Some <==> (primary_min <= primary_max && overlay_min <= overlay_max && primary_min < overlay_max),
        r matches Some((p, o)) ==> p == primary_min && p < o && overlay_min <= o <= overlay_max
            && (o == overlay_min || o == primary_min + 1),
{
    let primary_value = primary_min;
    if primary_value > primary_max {
        return None;
    }
    if primary_value == u64::MAX {
        return None;
    }
    let above = primary_value + 1;
    let overlay_value = if overlay_min >= above { overlay_min } else { above };
    if overlay_value > overlay_max {
        return None;
    }
    Some((primary_value, overlay_value))
}

/// The plane alpha value: fully opaque (`0xffff`) clamped into `[min, max]`, or `min`
/// when the range is empty.
pub fn select_plane_alpha_value(min: u64, max: u64) -> (r: u64)
    ensures
        max < min ==> r == min,
        min <= max ==> r == (if 0xffffu64 < min { min } else if 0xffffu64 > max { max } else { 0xffffu64 }),
{
    if max < min {
        return min;
    }
    let full: u64 = 0xffff;
    if full < min {
        min
    } else if full > max {
        max
    } else {
        full
    }
}

/// The pixel formats used for scanout buffers.
#[derive(Clone, Copy, Debug, PartialEq, Eq, Structural)]
pub enum ScanoutFormat {
    Xrgb8888,
    Argb8888,
}

/// The DRM fourcc code of a scanout format.
pub open spec fn spec_fourcc(format: ScanoutFormat) -> u32 {
    match format {
        ScanoutFormat::Xrgb8888 => 0x3432_5258,
        ScanoutFormat::Argb8888 => 0x3432_5241,
    }
}

impl ScanoutFormat {
    /// The DRM fourcc code ('XR24' or 'AR24', little-endian).
    pub fn fourcc(self) -> (code: u32)
        ensures
            code == spec_fourcc(self),
    {
        match self {
            ScanoutFormat::Xrgb8888 => 0x3432_5258,
            ScanoutFormat::Argb8888 => 0x3432_5241,
        }
    }
}

/// Which plane a scanout format is chosen for.
#[derive(Clone, Copy, Debug, PartialEq, Eq, Structural)]
pub enum PlaneSelection {
    Primary,
    Overlay,
}

/// The formats a plane accepts, most preferred first: the primary plane prefers an
/// opaque format, the overlay plane one with alpha.
pub open spec fn format_preference(selection: PlaneSelection) -> (ScanoutFormat, ScanoutFormat) {
    match selection {
        PlaneSelection::Primary => (ScanoutFormat::Xrgb8888, ScanoutFormat::Argb8888),
        PlaneSelection::Overlay => (ScanoutFormat::Argb8888, ScanoutFormat::Xrgb8888),
    }
}

fn supports_format(formats: &[u32], code: u32) -> (r: bool)
    ensures
        r == formats@.contains(code),
{
    let mut i: usize = 0;
    while i < formats.len()
        invariant
            i <= formats@.len(),
            forall|j: int| 0 <= j < i ==> formats@[j] != code,
        decreases formats@.len() - i,
    {
        if formats[i] == code {
            return true;
        }
        i = i + 1;
    }
    false
}

/// The most preferred format for the plane that the plane supports.
pub fn select_preferred_scanout_format(formats: &[u32], selection: PlaneSelection) -> (r: Option<ScanoutFormat>)
    ensures
        ({
            let (first, second) = format_preference(selection);
            r == if formats@.contains(spec_fourcc(first)) {
                Some(first)
            } else if formats@.contains(spec_fourcc(second)) {
                Some(second)
            } else {
                None
            }
        }),
{
    let (first, second) = match selection {
        PlaneSelection::Primary => (ScanoutFormat::Xrgb8888, ScanoutFormat::Argb8888),
        PlaneSelection::Overlay => (ScanoutFormat::Argb8888, ScanoutFormat::Xrgb8888),
    };
    if supports_format(formats, first.fourcc()) {
        Some(first)
    } else if supports_format(formats, second.fourcc()) {
        Some(second)
    } else {
        None
    }
}

/// Only ARGB8888 overlay buffers carry alpha.
pub fn overlay_scanout_format_supports_alpha(format: ScanoutFormat) -> (r: bool)
    ensures
        r == (format == ScanoutFormat::Argb8888),
{
    match format {
        ScanoutFormat::Argb8888 => true,
        ScanoutFormat::Xrgb8888 => false,
    }
}

/// ASCII letters and digits.
pub open spec fn is_ascii_alphanumeric(c: char) -> bool {
    ('0' <= c <= '9') || ('a' <= c <= 'z') || ('A' <= c <= 'Z')
}

/// `c` with ASCII upper-case letters turned lower-case.
pub open spec fn ascii_lowercase(c: char) -> char {
    if 'A' <= c <= 'Z' { ((c as u32) + 32) as char } else { c }
}

/// The ASCII letters and digits of `name`, lower-cased, in order.
pub open spec fn normalized_enum_name(name: Seq<char>) -> Seq<char>
    decreases name.len(),
{
    if name.len() == 0 {
        Seq::empty()
    } else {
        let rest = normalized_enum_name(name.drop_last());
        let c = name.last();
        if is_ascii_alphanumeric(c) { rest.push(ascii_lowercase(c)) } else { rest }
    }
}

/// `String::push`: appends one character.
#[verifier::external_body]
pub(crate) fn push_char(s: &mut String, c: char)
    ensures
        final(s)@ == old(s)@.push(c),
{
    s.push(c)
}

/// Normalizes a DRM property enum name for comparison: keeps ASCII letters and digits,
/// lower-cased ("Pre-multiplied" becomes "premultiplied").
pub fn normalize_drm_enum_name(name: &str) -> (r: String)
    ensures
        r@ == normalized_enum_name(name@),
{
    let n = name.unicode_len();
    let mut out = String::new();
    let mut i: usize = 0;
    while i < n
        invariant
            n == name@.len(),
            i <= n,
            out@ == normalized_enum_name(name@.subrange(0, i as int)),
        decreases n - i,
    {
        let c = name.get_char(i);
        proof {
            assert(name@.subrange(0, i as int + 1).drop_last() =~= name@.subrange(0, i as int));
        }
        if ('0' <= c && c <= '9') || ('a' <= c && c <= 'z') {
            push_char(&mut out, c);
        } else if 'A' <= c && c <= 'Z' {
            let lower = ((c as u8) + 32) as char;
            push_char(&mut out, lower);
        }
        i = i + 1;
    }
    assert(name@.subrange(0, n as int) =~= name@);
    out
}


/// The kind a DRM plane reports in its "type" property.
#[derive(Clone, Copy, Debug, PartialEq, Eq, Structural)]
pub enum DrmPlaneType {
    Primary,
    Overlay,
    Cursor,
    /// No readable "type" enum value.
    Unknown,
}

/// What plane selection reads of a DRM plane.
pub struct AtomicPlaneInfo {
    pub handle: u32,
    /// Whether the plane can be attached to the CRTC being claimed.
    pub usable_on_crtc: bool,
    /// The fourcc codes of the formats the plane scans out.
    pub formats: Vec<u32>,
    pub plane_type: DrmPlaneType,
}

/// A plane chosen for a role, with the format it will scan out.
#[derive(Clone, Copy, Debug, PartialEq, Eq, Structural)]
pub struct AtomicPlaneCandidate {
    pub handle: u32,
    pub scanout_format: ScanoutFormat,
}

pub open spec fn spec_preferred_format(formats: Seq<u32>, selection: PlaneSelection) -> Option<ScanoutFormat> {
    let (first, second) = format_preference(selection);
    if formats.contains(spec_fourcc(first)) {
        Some(first)
    } else if formats.contains(spec_fourcc(second)) {
        Some(second)
    } else {
        None
    }
}

/// A plane fits a role when it can drive the CRTC, scans out one of the role's formats
/// and has the role's type.
pub open spec fn plane_fits(p: AtomicPlaneInfo, selection: PlaneSelection) -> bool {
    &&& p.usable_on_crtc
    &&& spec_preferred_format(p.formats@, selection) is Some
    &&& p.plane_type == (match selection {
        PlaneSelection::Primary => DrmPlaneType::Primary,
        PlaneSelection::Overlay => DrmPlaneType::Overlay,
    })
}

/// The plane chosen for a role: among the planes that fit, the one with the smallest
/// handle (the earliest of equal handles), with its preferred format; none when no
/// plane fits.
pub open spec fn select_atomic_plane_ok(planes: Seq<AtomicPlaneInfo>, selection: PlaneSelection, r: Option<AtomicPlaneCandidate>) -> bool {
    match r {
        None => forall|k: int| 0 <= k < planes.len() ==> !plane_fits(#[trigger] planes[k], selection),
        Some(c) => exists|i: int| {
            &&& 0 <= i < planes.len()
            &&& plane_fits(planes[i], selection)
            &&& planes[i].handle == c.handle
            &&& spec_preferred_format(planes[i].formats@, selection) == Some(c.scanout_format)
            &&& forall|k: int| 0 <= k < planes.len() && plane_fits(#[trigger] planes[k], selection) ==> c.handle <= planes[k].handle
            &&& forall|k: int| 0 <= k < i && plane_fits(#[trigger] planes[k], selection) ==> c.handle < planes[k].handle
        },
    }
}

/// Chooses the plane for `selection` among the planes of the device.
pub fn select_atomic_plane(planes: &[AtomicPlaneInfo], selection: PlaneSelection) -> (r: Option<AtomicPlaneCandidate>)
    ensures
        select_atomic_plane_ok(planes@, selection, r),
{
    let wanted = match selection {
        PlaneSelection::Primary => DrmPlaneType::Primary,
        PlaneSelection::Overlay => DrmPlaneType::Overlay,
    };
    let mut best: Option<AtomicPlaneCandidate> = None;
    let ghost mut best_index: int = 0;
    let mut i: usize = 0;
    while i < planes.len()
        invariant
            i <= planes@.len(),
            wanted == (match selection {
                PlaneSelection::Primary => DrmPlaneType::Primary,
                PlaneSelection::Overlay => DrmPlaneType::Overlay,
            }),
            best is None ==> forall|k: int| 0 <= k < i ==> !plane_fits(#[trigger] planes@[k], selection),
            best matches Some(c) ==> {
                &&& 0 <= best_index < i
                &&& plane_fits(planes@[best_index], selection)
                &&& planes@[best_index].handle == c.handle
                &&& spec_preferred_format(planes@[best_index].formats@, selection) == Some(c.scanout_format)
                &&& forall|k: int| 0 <= k < i && plane_fits(#[trigger] planes@[k], selection) ==> c.handle <= planes@[k].handle
                &&& forall|k: int| 0 <= k < best_index && plane_fits(#[trigger] planes@[k], selection) ==> c.handle < planes@[k].handle
            },
        decreases planes@.len() - i,
    {
        let plane = &planes[i];
        if plane.usable_on_crtc && plane.plane_type == wanted {
            let format = select_preferred_scanout_format(plane.formats.as_slice(), selection);
            if let Some(f) = format {
                let better = match best {
                    Some(c) => plane.handle < c.handle,
                    None => true,
                };
                if better {
                    best = Some(AtomicPlaneCandidate { handle: plane.handle, scanout_format: f });
                    proof {
                        best_index = i as int;
                    }
                }
            }
        }
        i = i + 1;
    }
    proof {
        if best is Some {
            assert(select_atomic_plane_ok(planes@, selection, best)) by {
                let w = best_index;
                assert(0 <= w < planes@.len() && plane_fits(planes@[w], selection));
            }
        }
    }
    best
}

/// An unsigned range property of a plane (such as zpos or alpha) that can be set in an
/// atomic commit.
#[derive(Clone, Copy, Debug, PartialEq, Eq, Structural)]
pub struct RangeProperty {
    pub min: u64,
    pub max: u64,
}

/// The values of the pixel blend modes a plane offers, by kind.
#[derive(Clone, Copy, Debug, PartialEq, Eq, Structural)]
pub struct PixelBlendModes {
    pub premultiplied: Option<u64>,
    pub coverage: Option<u64>,
    pub none: Option<u64>,
}

/// The value of the last enum entry whose normalized name is `name`, among the first
/// `n` entries.
pub open spec fn last_named(entries: Seq<(String, u64)>, name: Seq<char>, n: int) -> Option<u64>
    decreases n,
{
    if n <= 0 || n > entries.len() {
        None
    } else if normalized_enum_name(entries[n - 1].0@) == name {
        Some(entries[n - 1].1)
    } else {
        last_named(entries, name, n - 1)
    }
}

/// The blend modes named by the entries of a "pixel blend mode" enum property (names
/// compared after `normalize_drm_enum_name`; a later entry of a kind wins).
pub open spec fn spec_pixel_blend_modes(entries: Seq<(String, u64)>) -> PixelBlendModes {
    PixelBlendModes {
        premultiplied: last_named(entries, "premultiplied"@, entries.len() as int),
        coverage: last_named(entries, "coverage"@, entries.len() as int),
        none: last_named(entries, "none"@, entries.len() as int),
    }
}

fn string_is(s: &String, expected: &str) -> (r: bool)
    ensures
        r == (s@ == expected@),
{
    let e = String::from_str(expected);
    *s == e
}

/// Reads the blend modes out of the `(name, value)` entries of a plane's pixel blend
/// mode property.
pub fn pixel_blend_modes_from_enum(entries: &[(String, u64)]) -> (r: PixelBlendModes)
    ensures
        r == spec_pixel_blend_modes(entries@),
{
    let mut modes = PixelBlendModes { premultiplied: None, coverage: None, none: None };
    let mut i: usize = 0;
    while i < entries.len()
        invariant
            i <= entries@.len(),
            modes.premultiplied == last_named(entries@, "premultiplied"@, i as int),
            modes.coverage == last_named(entries@, "coverage"@, i as int),
            modes.none == last_named(entries@, "none"@, i as int),
        decreases entries@.len() - i,
    {
        let normalized = normalize_drm_enum_name(entries[i].0.as_str());
        let value = entries[i].1;
        proof {
            reveal_strlit("premultiplied");
            reveal_strlit("coverage");
            reveal_strlit("none");
            assert("premultiplied"@.len() != "coverage"@.len());
            assert("premultiplied"@.len() != "none"@.len());
            assert("coverage"@.len() != "none"@.len());
        }
        if string_is(&normalized, "premultiplied") {
            modes.premultiplied = Some(value);
        } else if string_is(&normalized, "coverage") {
            modes.coverage = Some(value);
        } else if string_is(&normalized, "none") {
            modes.none = Some(value);
        }
        i = i + 1;
    }
    modes
}

/// The handle of the last property named `name` among the first `n` `(name, handle)`
/// pairs of a DRM object (a later property of the same name replaces an earlier one).
pub open spec fn last_handle(props: Seq<(String, u32)>, name: Seq<char>, n: int) -> Option<u32>
    decreases n,
{
    if n <= 0 || n > props.len() {
        None
    } else if props[n - 1].0@ == name {
        Some(props[n - 1].1)
    } else {
        last_handle(props, name, n - 1)
    }
}

pub open spec fn handle_named(props: Seq<(String, u32)>, name: Seq<char>) -> Option<u32> {
    last_handle(props, name, props.len() as int)
}

/// The handle of the property named `name` (the last one of that name).
pub fn property_handle(props: &[(String, u32)], name: &str) -> (r: Option<u32>)
    ensures
        r == handle_named(props@, name@),
{
    let mut found: Option<u32> = None;
    let mut i: usize = 0;
    while i < props.len()
        invariant
            i <= props@.len(),
            found == last_handle(props@, name@, i as int),
        decreases props@.len() - i,
    {
        if string_is(&props[i].0, name) {
            found = Some(props[i].1);
        }
        i = i + 1;
    }
    found
}

/// The property handles an atomic plane commit uses.
#[derive(Clone, Copy, Debug, PartialEq, Eq, Structural)]
pub struct PlanePropertyHandles {
    pub crtc_id: u32,
    pub fb_id: u32,
    pub src_x: u32,
    pub src_y: u32,
    pub src_w: u32,
    pub src_h: u32,
    pub crtc_x: u32,
    pub crtc_y: u32,
    pub crtc_w: u32,
    pub crtc_h: u32,
    /// The zpos, alpha and pixel blend mode properties, when the plane has them (their
    /// lower-case names first, then the upper-case ones).
    pub zpos: Option<u32>,
    pub alpha: Option<u32>,
    pub pixel_blend_mode: Option<u32>,
}

pub open spec fn either_handle(props: Seq<(String, u32)>, lower: Seq<char>, upper: Seq<char>) -> Option<u32> {
    if handle_named(props, lower) is Some { handle_named(props, lower) } else { handle_named(props, upper) }
}

/// The handles of a plane's properties: none unless it has every property a plane
/// commit sets (`CRTC_ID`, `FB_ID`, `SRC_X`, `SRC_Y`, `SRC_W`, `SRC_H`, `CRTC_X`,
/// `CRTC_Y`, `CRTC_W`, `CRTC_H`).
pub open spec fn spec_plane_property_handles(props: Seq<(String, u32)>) -> Option<PlanePropertyHandles> {
    let h = |name: Seq<char>| handle_named(props, name);
    if h("CRTC_ID"@) is Some && h("FB_ID"@) is Some && h("SRC_X"@) is Some && h("SRC_Y"@) is Some
        && h("SRC_W"@) is Some && h("SRC_H"@) is Some && h("CRTC_X"@) is Some && h("CRTC_Y"@) is Some
        && h("CRTC_W"@) is Some && h("CRTC_H"@) is Some {
        Some(PlanePropertyHandles {
            crtc_id: h("CRTC_ID"@)->0,
            fb_id: h("FB_ID"@)->0,
            src_x: h("SRC_X"@)->0,
            src_y: h("SRC_Y"@)->0,
            src_w: h("SRC_W"@)->0,
            src_h: h("SRC_H"@)->0,
            crtc_x: h("CRTC_X"@)->0,
            crtc_y: h("CRTC_Y"@)->0,
            crtc_w: h("CRTC_W"@)->0,
            crtc_h: h("CRTC_H"@)->0,
            zpos: either_handle(props, "zpos"@, "ZPOS"@),
            alpha: either_handle(props, "alpha"@, "ALPHA"@),
            pixel_blend_mode: either_handle(props, "pixel blend mode"@, "PIXEL_BLEND_MODE"@),
        })
    } else {
        None
    }
}

fn either_handle_exec(props: &[(String, u32)], lower: &str, upper: &str) -> (r: Option<u32>)
    ensures
        r == either_handle(props@, lower@, upper@),
{
    match property_handle(props, lower) {
        Some(h) => Some(h),
        None => property_handle(props, upper),
    }
}

/// Picks a plane's property handles out of its `(name, handle)` properties.
pub fn plane_property_handles(props: &[(String, u32)]) -> (r: Option<PlanePropertyHandles>)
    ensures
        r == spec_plane_property_handles(props@),
{
    let crtc_id = match property_handle(props, "CRTC_ID") { Some(h) => h, None => { return None; } };
    let fb_id = match property_handle(props, "FB_ID") { Some(h) => h, None => { return None; } };
    let src_x = match property_handle(props, "SRC_X") { Some(h) => h, None => { return None; } };
    let src_y = match property_handle(props, "SRC_Y") { Some(h) => h, None => { return None; } };
    let src_w = match property_handle(props, "SRC_W") { Some(h) => h, None => { return None; } };
    let src_h = match property_handle(props, "SRC_H") { Some(h) => h, None => { return None; } };
    let crtc_x = match property_handle(props, "CRTC_X") { Some(h) => h, None => { return None; } };
    let crtc_y = match property_handle(props, "CRTC_Y") { Some(h) => h, None => { return None; } };
    let crtc_w = match property_handle(props, "CRTC_W") { Some(h) => h, None => { return None; } };
    let crtc_h = match property_handle(props, "CRTC_H") { Some(h) => h, None => { return None; } };
    Some(PlanePropertyHandles {
        crtc_id,
        fb_id,
        src_x,
        src_y,
        src_w,
        src_h,
        crtc_x,
        crtc_y,
        crtc_w,
        crtc_h,
        zpos: either_handle_exec(props, "zpos", "ZPOS"),
        alpha: either_handle_exec(props, "alpha", "ALPHA"),
        pixel_blend_mode: either_handle_exec(props, "pixel blend mode", "PIXEL_BLEND_MODE"),
    })
}

/// What plane property reading looks at in a DRM property's value type.
pub enum PropertyValueKind {
    UnsignedRange { min: u64, max: u64 },
    /// An enum, with its `(name, value)` entries.
    Enum(Vec<(String, u64)>),
    Other,
}

/// What plane property reading looks at in a DRM property.
pub struct PropertyInfo {
    pub mutable: bool,
    pub atomic: bool,
    pub kind: PropertyValueKind,
}

/// The range of a zpos or alpha property: used when it can be set in an atomic commit
/// and is an unsigned range.
pub open spec fn spec_range_property(info: PropertyInfo) -> Option<RangeProperty> {
    if info.mutable && info.atomic && info.kind is UnsignedRange {
        Some(RangeProperty { min: info.kind->min, max: info.kind->max })
    } else {
        None
    }
}

/// The blend modes of a pixel blend mode property: used when it can be set in an
/// atomic commit and is an enum.
pub open spec fn spec_pixel_blend_property(info: PropertyInfo) -> Option<PixelBlendModes> {
    if info.mutable && info.atomic && info.kind is Enum {
        Some(spec_pixel_blend_modes(info.kind->Enum_0@))
    } else {
        None
    }
}

/// A zpos or alpha property is used when it can be set in an atomic commit and is an
/// unsigned range.
pub fn range_property_of(info: &PropertyInfo) -> (r: Option<RangeProperty>)
    ensures
        r == spec_range_property(*info),
{
    if !info.mutable || !info.atomic {
        return None;
    }
    match &info.kind {
        PropertyValueKind::UnsignedRange { min, max } => Some(RangeProperty { min: *min, max: *max }),
        _ => None,
    }
}

/// A pixel blend mode property is used when it can be set in an atomic commit and is an
/// enum; its modes are read from the enum's entries.
pub fn pixel_blend_property_of(info: &PropertyInfo) -> (r: Option<PixelBlendModes>)
    ensures
        r == spec_pixel_blend_property(*info),
{
    if !info.mutable || !info.atomic {
        return None;
    }
    match &info.kind {
        PropertyValueKind::Enum(entries) => Some(pixel_blend_modes_from_enum(entries.as_slice())),
        _ => None,
    }
}

/// A zpos or alpha property of a plane: its handle and its range.
#[derive(Clone, Copy, Debug, PartialEq, Eq, Structural)]
pub struct PlaneRangeHandle {
    pub handle: u32,
    pub min: u64,
    pub max: u64,
}

/// A plane's pixel blend mode property: its handle and the modes it offers.
#[derive(Clone, Copy, Debug, PartialEq, Eq, Structural)]
pub struct PlaneBlendHandle {
    pub handle: u32,
    pub modes: PixelBlendModes,
}

/// What an atomic plane commit uses of a plane's properties: the handles of those it
/// always sets, and the zpos, alpha and pixel blend mode properties it can set.
#[derive(Clone, Copy, Debug, PartialEq, Eq, Structural)]
pub struct AtomicPlaneProperties {
    pub handles: PlanePropertyHandles,
    pub zpos: Option<PlaneRangeHandle>,
    pub alpha: Option<PlaneRangeHandle>,
    pub pixel_blend_mode: Option<PlaneBlendHandle>,
}

/// The zpos or alpha property at `handle` (when the plane has one), read as `info`.
pub open spec fn spec_range_handle(handle: Option<u32>, info: Option<PropertyInfo>) -> Option<PlaneRangeHandle> {
    match (handle, info) {
        (Some(h), Some(i)) => match spec_range_property(i) {
            Some(range) => Some(PlaneRangeHandle { handle: h, min: range.min, max: range.max }),
            None => None,
        },
        _ => None,
    }
}

/// The pixel blend mode property at `handle` (when the plane has one), read as `info`.
pub open spec fn spec_blend_handle(handle: Option<u32>, info: Option<PropertyInfo>) -> Option<PlaneBlendHandle> {
    match (handle, info) {
        (Some(h), Some(i)) => match spec_pixel_blend_property(i) {
            Some(modes) => Some(PlaneBlendHandle { handle: h, modes }),
            None => None,
        },
        _ => None,
    }
}

/// The views of an optional borrowed property.
pub open spec fn info_of(info: Option<&PropertyInfo>) -> Option<PropertyInfo> {
    match info {
        Some(i) => Some(*i),
        None => None,
    }
}

fn range_handle_of(handle: Option<u32>, info: Option<&PropertyInfo>) -> (r: Option<PlaneRangeHandle>)
    ensures
        r == spec_range_handle(handle, info_of(info)),
{
    match (handle, info) {
        (Some(h), Some(i)) => match range_property_of(i) {
            Some(range) => Some(PlaneRangeHandle { handle: h, min: range.min, max: range.max }),
            None => None,
        },
        _ => None,
    }
}

/// A plane's properties as an atomic commit uses them. `handles` are the plane's
/// property handles (see `plane_property_handles`), and `zpos`, `alpha` and
/// `pixel_blend_mode` what the DRM device reports of the properties at
/// `handles.zpos`, `handles.alpha` and `handles.pixel_blend_mode`, given exactly where
/// the plane has such a property. A zpos or alpha property is kept, with its range,
/// exactly when it is mutable, atomic and an unsigned range; a pixel blend mode one,
/// with its modes, exactly when it is mutable, atomic and an enum.
pub fn atomic_plane_properties(
    handles: PlanePropertyHandles,
    zpos: Option<&PropertyInfo>,
    alpha: Option<&PropertyInfo>,
    pixel_blend_mode: Option<&PropertyInfo>,
) -> (r: AtomicPlaneProperties)
    requires
        handles.zpos is Some <==> zpos is Some,
        handles.alpha is Some <==> alpha is Some,
        handles.pixel_blend_mode is Some <==> pixel_blend_mode is Some,
    ensures
        r.handles == handles,
        r.zpos == spec_range_handle(handles.zpos, info_of(zpos)),
        r.alpha == spec_range_handle(handles.alpha, info_of(alpha)),
        r.pixel_blend_mode == spec_blend_handle(handles.pixel_blend_mode, info_of(pixel_blend_mode)),
{
    let blend = match (handles.pixel_blend_mode, pixel_blend_mode) {
        (Some(h), Some(i)) => match pixel_blend_property_of(i) {
            Some(modes) => Some(PlaneBlendHandle { handle: h, modes }),
            None => None,
        },
        _ => None,
    };
    AtomicPlaneProperties {
        handles,
        zpos: range_handle_of(handles.zpos, zpos),
        alpha: range_handle_of(handles.alpha, alpha),
        pixel_blend_mode: blend,
    }
}

impl AtomicPlaneProperties {
    /// The composition properties the atomic plan reads: each property's range or
    /// modes, without its handle.
    pub fn composition_props(&self) -> (r: PlaneCompositionProps)
        ensures
            r.zpos == (match self.zpos {
                Some(z) => Some(RangeProperty { min: z.min, max: z.max }),
                None => None,
            }),
            r.alpha == (match self.alpha {
                Some(a) => Some(RangeProperty { min: a.min, max: a.max }),
                None => None,
            }),
            r.pixel_blend_mode == (match self.pixel_blend_mode {
                Some(b) => Some(b.modes),
                None => None,
            }),
    {
        PlaneCompositionProps {
            zpos: match self.zpos {
                Some(z) => Some(RangeProperty { min: z.min, max: z.max }),
                None => None,
            },
            alpha: match self.alpha {
                Some(a) => Some(RangeProperty { min: a.min, max: a.max }),
                None => None,
            },
            pixel_blend_mode: match self.pixel_blend_mode {
                Some(b) => Some(b.modes),
                None => None,
            },
        }
    }
}

/// The composition properties of a plane that the atomic plan uses.
#[derive(Clone, Copy, Debug, PartialEq, Eq, Structural)]
pub struct PlaneCompositionProps {
    pub zpos: Option<RangeProperty>,
    pub alpha: Option<RangeProperty>,
    pub pixel_blend_mode: Option<PixelBlendModes>,
}

/// The composition values chosen for a plane.
#[derive(Clone, Copy, Debug, PartialEq, Eq, Structural)]
pub struct PlaneComposition {
    pub zpos: Option<u64>,
    pub alpha: Option<u64>,
    pub pixel_blend_mode: Option<u64>,
    pub supports_alpha_blending: bool,
}

pub open spec fn spec_plane_alpha_value(min: u64, max: u64) -> u64 {
    if max < min { min } else if 0xffffu64 < min { min } else if 0xffffu64 > max { max } else { 0xffffu64 }
}

/// The composition controls of a plane: its alpha fully opaque within range; an
/// overlay plane blends with a premultiplied (else coverage) blend mode, and without
/// one it cannot blend (keeping the `none` mode); a primary plane needs no blending.
pub open spec fn spec_configure_plane_composition(role: PlaneSelection, props: PlaneCompositionProps) -> PlaneComposition {
    let alpha = match props.alpha {
        Some(a) => Some(spec_plane_alpha_value(a.min, a.max)),
        None => None,
    };
    match role {
        PlaneSelection::Primary => PlaneComposition { zpos: None, alpha, pixel_blend_mode: None, supports_alpha_blending: true },
        PlaneSelection::Overlay => match props.pixel_blend_mode {
            None => PlaneComposition { zpos: None, alpha, pixel_blend_mode: None, supports_alpha_blending: false },
            Some(modes) => match (if modes.premultiplied is Some { modes.premultiplied } else { modes.coverage }) {
                Some(v) => PlaneComposition { zpos: None, alpha, pixel_blend_mode: Some(v), supports_alpha_blending: true },
                None => PlaneComposition { zpos: None, alpha, pixel_blend_mode: modes.none, supports_alpha_blending: false },
            },
        },
    }
}

/// Chooses the composition controls of one plane.
pub fn configure_plane_composition(role: PlaneSelection, props: PlaneCompositionProps) -> (r: PlaneComposition)
    ensures
        r == spec_configure_plane_composition(role, props),
{
    let alpha = match props.alpha {
        Some(a) => Some(select_plane_alpha_value(a.min, a.max)),
        None => None,
    };
    match role {
        PlaneSelection::Primary => PlaneComposition { zpos: None, alpha, pixel_blend_mode: None, supports_alpha_blending: true },
        PlaneSelection::Overlay => match props.pixel_blend_mode {
            None => PlaneComposition { zpos: None, alpha, pixel_blend_mode: None, supports_alpha_blending: false },
            Some(modes) => {
                let blend = if modes.premultiplied.is_some() { modes.premultiplied } else { modes.coverage };
                match blend {
                    Some(v) => PlaneComposition { zpos: None, alpha, pixel_blend_mode: Some(v), supports_alpha_blending: true },
                    None => PlaneComposition { zpos: None, alpha, pixel_blend_mode: modes.none, supports_alpha_blending: false },
                }
            },
        },
    }
}

/// The composition plan of a primary plane and an optional overlay plane: each plane
/// configured; the overlay dropped when it cannot blend; and, when both planes have a
/// zpos range and an ordering exists, zpos values that put the overlay above.
pub open spec fn spec_plan_plane_composition(
    primary: PlaneCompositionProps,
    overlay: Option<PlaneCompositionProps>,
) -> (PlaneComposition, Option<PlaneComposition>) {
    let p = spec_configure_plane_composition(PlaneSelection::Primary, primary);
    let o = match overlay {
        Some(props) => {
            let c = spec_configure_plane_composition(PlaneSelection::Overlay, props);
            if c.supports_alpha_blending { Some(c) } else { None }
        },
        None => None,
    };
    match (o, primary.zpos, overlay) {
        (Some(oc), Some(pz), Some(op)) => match op.zpos {
            Some(oz) => match spec_select_atomic_plane_zpos_values(pz.min, pz.max, oz.min, oz.max) {
                Some((pv, ov)) => (PlaneComposition { zpos: Some(pv), ..p }, Some(PlaneComposition { zpos: Some(ov), ..oc })),
                None => (p, o),
            },
            None => (p, o),
        },
        _ => (p, o),
    }
}

/// Plans the composition controls of the primary plane and, when there is one, the
/// overlay plane of an atomic output claim.
pub fn plan_plane_composition(
    primary: PlaneCompositionProps,
    overlay: Option<PlaneCompositionProps>,
) -> (r: (PlaneComposition, Option<PlaneComposition>))
    ensures
        r == spec_plan_plane_composition(primary, overlay),
{
    let mut p = configure_plane_composition(PlaneSelection::Primary, primary);
    let mut o = match overlay {
        Some(props) => {
            let c = configure_plane_composition(PlaneSelection::Overlay, props);
            if c.supports_alpha_blending { Some(c) } else { None }
        },
        None => None,
    };
    if let (Some(oc), Some(pz), Some(op)) = (o, primary.zpos, overlay) {
        if let Some(oz) = op.zpos {
            if let Some((pv, ov)) = select_atomic_plane_zpos_values(pz.min, pz.max, oz.min, oz.max) {
                p = PlaneComposition { zpos: Some(pv), ..p };
                o = Some(PlaneComposition { zpos: Some(ov), ..oc });
            }
        }
    }
    (p, o)
}


/// What connector-mode selection reads of a DRM display mode.
#[derive(Clone, Copy, Debug, PartialEq, Eq, Structural)]
pub struct ConnectorMode {
    pub preferred: bool,
    pub width: u16,
    pub height: u16,
    pub vrefresh: u32,
}

/// The selection key of a mode: preferred first, then area, refresh rate, width, height.
pub open spec fn mode_key(m: ConnectorMode) -> (int, int, int, int, int) {
    (if m.preferred { 1 } else { 0 }, m.width * m.height, m.vrefresh as int, m.width as int, m.height as int)
}

/// Lexicographic order on mode keys.
pub open spec fn key_less(a: (int, int, int, int, int), b: (int, int, int, int, int)) -> bool {
    a.0 < b.0 || (a.0 == b.0 && (a.1 < b.1 || (a.1 == b.1 && (a.2 < b.2 || (a.2 == b.2 && (a.3 < b.3
        || (a.3 == b.3 && a.4 < b.4)))))))
}

fn mode_key_less(a: ConnectorMode, b: ConnectorMode) -> (r: bool)
    ensures
        r == key_less(mode_key(a), mode_key(b)),
{
    let ap: u8 = if a.preferred { 1 } else { 0 };
    let bp: u8 = if b.preferred { 1 } else { 0 };
    assert(a.width as u64 * a.height as u64 <= 0xffff_ffffu64) by (nonlinear_arith)
        requires
            a.width <= 0xffff,
            a.height <= 0xffff,
    ;
    assert(b.width as u64 * b.height as u64 <= 0xffff_ffffu64) by (nonlinear_arith)
        requires
            b.width <= 0xffff,
            b.height <= 0xffff,
    ;
    let a_area = a.width as u64 * a.height as u64;
    let b_area = b.width as u64 * b.height as u64;
    ap < bp || (ap == bp && (a_area < b_area || (a_area == b_area && (a.vrefresh < b.vrefresh || (a.vrefresh == b.vrefresh
        && (a.width < b.width || (a.width == b.width && a.height < b.height)))))))
}

/// The mode a connector is driven with: the one with the greatest key, the last of
/// equals; none when the connector offers no mode.
pub fn select_connector_mode(modes: &[ConnectorMode]) -> (r: Option<ConnectorMode>)
    ensures
        modes@.len() == 0 <==> r is None,
        r matches Some(m) ==> exists|i: int| 0 <= i < modes@.len() && modes@[i] == m
            && (forall|j: int| 0 <= j < modes@.len() ==> !key_less(mode_key(m), #[trigger] mode_key(modes@[j])))
            && (forall|j: int| i < j < modes@.len() ==> key_less(#[trigger] mode_key(modes@[j]), mode_key(m))),
{
    let n = modes.len();
    if n == 0 {
        return None;
    }
    let mut best: usize = 0;
    let mut k: usize = 1;
    while k < n
        invariant
            n == modes@.len(),
            1 <= k <= n,
            best < k,
            forall|j: int| 0 <= j < k ==> !key_less(mode_key(modes@[best as int]), #[trigger] mode_key(modes@[j])),
            forall|j: int| best < j < k ==> key_less(#[trigger] mode_key(modes@[j]), mode_key(modes@[best as int])),
        decreases n - k,
    {
        if !mode_key_less(modes[k], modes[best]) {
            best = k;
        }
        k = k + 1;
    }
    let m = modes[best];
    assert(modes@[best as int] == m);
    Some(m)
}

} // verus!
