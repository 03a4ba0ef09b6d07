//! Output rotation and the pixel-level rotation it implies for screen capture.
use vstd::prelude::*;

verus! {

/// The rotation applied to the output, counter-clockwise from the physical scanout.
#[derive(Clone, Copy, Debug, PartialEq, Eq, Structural)]
pub enum OutputRotation {
    Deg0,
    Deg90,
    Deg180,
    Deg270,
}

/// How captured scanout pixels are turned into the upright (logical) view.
#[derive(Clone, Copy, Debug, PartialEq, Eq, Structural)]
pub enum CapturePixelRotation {
    Identity,
    Rotate90Clockwise,
    Rotate180,
    Rotate90Counterclockwise,
}

/// The pixel rotation that brings a scanout captured under `rotation` upright.
pub open spec fn spec_capture_pixel_rotation(rotation: OutputRotation) -> CapturePixelRotation {
    match rotation {
        OutputRotation::Deg0 => CapturePixelRotation::Identity,
        OutputRotation::Deg90 => CapturePixelRotation::Rotate90Clockwise,
        OutputRotation::Deg180 => CapturePixelRotation::Rotate180,
        OutputRotation::Deg270 => CapturePixelRotation::Rotate90Counterclockwise,
    }
}

pub fn capture_pixel_rotation(rotation: OutputRotation) -> (r: CapturePixelRotation)
    ensures
        r == spec_capture_pixel_rotation(rotation),
{
    match rotation {
        OutputRotation::Deg0 => CapturePixelRotation::Identity,
        OutputRotation::Deg90 => CapturePixelRotation::Rotate90Clockwise,
        OutputRotation::Deg180 => CapturePixelRotation::Rotate180,
        OutputRotation::Deg270 => CapturePixelRotation::Rotate90Counterclockwise,
    }
}

/// Quarter turns swap the width and height of the logical view.
pub open spec fn spec_swaps_axes(rotation: OutputRotation) -> bool {
    rotation == OutputRotation::Deg90 || rotation == OutputRotation::Deg270
}

pub fn swaps_axes(rotation: OutputRotation) -> (r: bool)
    ensures
        r == spec_swaps_axes(rotation),
{
    match rotation {
        OutputRotation::Deg90 | OutputRotation::Deg270 => true,
        OutputRotation::Deg0 | OutputRotation::Deg180 => false,
    }
}

/// The output transform the compositor advertises for a rotation: a quarter turn of
/// the output is the opposite quarter turn of the buffer transform.
#[derive(Clone, Copy, Debug, PartialEq, Eq, Structural)]
pub enum OutputTransform {
    Normal,
    Rotate90,
    Rotate180,
    Rotate270,
}

pub open spec fn spec_transform_from_rotation(rotation: OutputRotation) -> OutputTransform {
    match rotation {
        OutputRotation::Deg0 => OutputTransform::Normal,
        OutputRotation::Deg90 => OutputTransform::Rotate270,
        OutputRotation::Deg180 => OutputTransform::Rotate180,
        OutputRotation::Deg270 => OutputTransform::Rotate90,
    }
}

/// The output transform for `rotation`.
pub fn transform_from_rotation(rotation: OutputRotation) -> (r: OutputTransform)
    ensures
        r == spec_transform_from_rotation(rotation),
{
    match rotation {
        OutputRotation::Deg0 => OutputTransform::Normal,
        OutputRotation::Deg90 => OutputTransform::Rotate270,
        OutputRotation::Deg180 => OutputTransform::Rotate180,
        OutputRotation::Deg270 => OutputTransform::Rotate90,
    }
}

/// Whether presenting a readback keeps its row order as read back. Readback rows are
/// always restored to top-down scanout order before presentation.
pub open spec fn spec_present_preserves_readback_row_order(rotation: OutputRotation) -> bool {
    false
}

pub fn present_preserves_readback_row_order(rotation: OutputRotation) -> (r: bool)
    ensures
        r == spec_present_preserves_readback_row_order(rotation),
{
    false
}

/// Whether the scanout capture must undo a vertical flip of the renderer readback. The
/// capture path reads rows in scanout order whatever the readback mapping reports.
pub fn screen_capture_src_flipped(mapping_flipped: bool, rotation: OutputRotation) -> (r: bool)
    ensures
        !r,
{
    false
}

/// Whether frames can be presented directly (without a software readback) under
/// `rotation`: quarter turns are rendered by the compositor into a scanout-sized buffer,
/// so every rotation is.
pub open spec fn spec_direct_present_supported(rotation: OutputRotation) -> bool {
    true
}

/// Whether frames can be presented directly under `rotation`.
pub fn direct_present_supported_for_rotation(rotation: OutputRotation) -> (r: bool)
    ensures
        r == spec_direct_present_supported(rotation),
{
    match rotation {
        OutputRotation::Deg0 | OutputRotation::Deg180 => true,
        OutputRotation::Deg90 | OutputRotation::Deg270 => true,
    }
}

} // verus!
