//! The decisions of one presentation tick of the claimed output: whether to present at
//! all, whether the frame must come from direct (GBM) scanout, whether the overlay plane
//! is split off, what a direct render's outcome leads to, and what a readback render's
//! outcome leads to. The caller renders, maps buffers and queues flips; this module
//! decides between them.
use vstd::prelude::*;
use crate::planes::ScanoutFormat;
use crate::rotation::{
    OutputRotation, direct_present_supported_for_rotation, spec_direct_present_supported, spec_swaps_axes,
    swaps_axes,
};
use crate::runtime::StartupPresentOwnership;

verus! {

/// Whether a tick presents.
#[derive(Clone, Copy, Debug, PartialEq, Eq, Structural)]
pub enum TickStart {
    /// Nothing to present now.
    Skip,
    /// A staged root geometry waits, but no output is claimed to present it: the
    /// geometry transaction fails.
    FailStagedGeometryWithoutClaim,
    /// Render and queue a frame.
    Present,
}

/// How a tick starts: with no claimed output it presents nothing (and a staged geometry
/// fails); with no open device or pipeline for the claim, or a flip still pending, it
/// waits.
pub fn presentation_tick_start(claimed: bool, staged_geometry: bool, pipeline_ready: bool, flip_pending: bool) -> (r: TickStart)
    ensures
        !claimed ==> r == (if staged_geometry { TickStart::FailStagedGeometryWithoutClaim } else { TickStart::Skip }),
        claimed ==> r == (if pipeline_ready && !flip_pending { TickStart::Present } else { TickStart::Skip }),
{
    if !claimed {
        return if staged_geometry { TickStart::FailStagedGeometryWithoutClaim } else { TickStart::Skip };
    }
    if !pipeline_ready || flip_pending {
        return TickStart::Skip;
    }
    TickStart::Present
}

/// Whether the frame must come from direct scanout: the output was first presented to
/// directly and direct presentation is supported under the rotation.
pub open spec fn spec_requires_direct_present(startup: StartupPresentOwnership, rotation: OutputRotation) -> bool {
    startup == StartupPresentOwnership::DirectGbm && spec_direct_present_supported(rotation)
}

pub fn requires_direct_present(startup: StartupPresentOwnership, rotation: OutputRotation) -> (r: bool)
    ensures
        r == spec_requires_direct_present(startup, rotation),
{
    let direct = match startup {
        StartupPresentOwnership::DirectGbm => true,
        StartupPresentOwnership::Dumb => false,
    };
    direct && direct_present_supported_for_rotation(rotation)
}

/// Whether the overlay is split onto its own plane: only upright, at a display scale of
/// one, with an ARGB overlay format and alpha-safe blending.
pub fn prefer_overlay_plane_split(
    rotation: OutputRotation,
    unit_display_scale: bool,
    overlay_format: Option<ScanoutFormat>,
    overlay_alpha_blending: bool,
) -> (r: bool)
    ensures
        r == (rotation == OutputRotation::Deg0 && unit_display_scale
            && overlay_format == Some(ScanoutFormat::Argb8888) && overlay_alpha_blending),
{
    let upright = match rotation {
        OutputRotation::Deg0 => true,
        _ => false,
    };
    let alpha_format = match overlay_format {
        Some(ScanoutFormat::Argb8888) => true,
        _ => false,
    };
    upright && unit_display_scale && alpha_format && overlay_alpha_blending
}

/// Whether a direct render is tried: not when readback is forced, only when direct
/// presentation is supported under the rotation and a GLES renderer exists.
pub fn direct_render_allowed(force_readback: bool, rotation: OutputRotation, has_gles_renderer: bool) -> (r: bool)
    ensures
        r == (!force_readback && spec_direct_present_supported(rotation) && has_gles_renderer),
{
    !force_readback && direct_present_supported_for_rotation(rotation) && has_gles_renderer
}

/// What the direct render of a tick gave.
#[derive(Clone, Copy, Debug, PartialEq, Eq, Structural)]
pub enum DirectAttempt {
    /// No direct render was tried.
    NotTried,
    /// The render produced a main framebuffer.
    RenderedMain,
    /// The render succeeded without a main framebuffer.
    RenderedWithoutMain,
    /// The render failed.
    Failed,
}

/// Why a tick that must present directly fails.
#[derive(Clone, Copy, Debug, PartialEq, Eq, Structural)]
pub enum DirectPresentFailure {
    /// The direct render produced no framebuffer.
    DirectFramebufferUnavailable,
    /// The direct render failed.
    DirectRenderFailed,
    /// No direct render was tried.
    NoDirectFrameQueued,
}

/// Where a tick goes after its direct render.
#[derive(Clone, Copy, Debug, PartialEq, Eq, Structural)]
pub enum DirectDecision {
    /// Queue the direct framebuffer.
    QueueDirect,
    /// Present through the dumb-buffer path; after a failed direct render the direct
    /// scanout state is dropped first.
    FallBack { drop_direct_scanout: bool },
    /// The tick fails (a reclaimable failure).
    Fail(DirectPresentFailure),
}

pub open spec fn spec_decide_after_direct(requires_direct: bool, attempt: DirectAttempt) -> DirectDecision {
    match attempt {
        DirectAttempt::RenderedMain => DirectDecision::QueueDirect,
        DirectAttempt::RenderedWithoutMain => if requires_direct {
            DirectDecision::Fail(DirectPresentFailure::DirectFramebufferUnavailable)
        } else {
            DirectDecision::FallBack { drop_direct_scanout: false }
        },
        DirectAttempt::Failed => if requires_direct {
            DirectDecision::Fail(DirectPresentFailure::DirectRenderFailed)
        } else {
            DirectDecision::FallBack { drop_direct_scanout: true }
        },
        DirectAttempt::NotTried => if requires_direct {
            DirectDecision::Fail(DirectPresentFailure::NoDirectFrameQueued)
        } else {
            DirectDecision::FallBack { drop_direct_scanout: false }
        },
    }
}

/// Decides where the tick goes after its direct render. A tick that must present
/// directly never falls back to the dumb-buffer path.
pub fn decide_after_direct(requires_direct: bool, attempt: DirectAttempt) -> (r: DirectDecision)
    ensures
        r == spec_decide_after_direct(requires_direct, attempt),
        requires_direct ==> !(r is FallBack),
        r is QueueDirect <==> attempt == DirectAttempt::RenderedMain,
{
    match attempt {
        DirectAttempt::RenderedMain => DirectDecision::QueueDirect,
        DirectAttempt::RenderedWithoutMain => if requires_direct {
            DirectDecision::Fail(DirectPresentFailure::DirectFramebufferUnavailable)
        } else {
            DirectDecision::FallBack { drop_direct_scanout: false }
        },
        DirectAttempt::Failed => if requires_direct {
            DirectDecision::Fail(DirectPresentFailure::DirectRenderFailed)
        } else {
            DirectDecision::FallBack { drop_direct_scanout: true }
        },
        DirectAttempt::NotTried => if requires_direct {
            DirectDecision::Fail(DirectPresentFailure::NoDirectFrameQueued)
        } else {
            DirectDecision::FallBack { drop_direct_scanout: false }
        },
    }
}

/// What the readback render into the dumb buffer gave.
#[derive(Clone, Copy, Debug, PartialEq, Eq, Structural)]
pub enum ReadbackAttempt {
    /// There is no GLES renderer.
    NoRenderer,
    Rendered,
    Failed,
}

/// Where a dumb-buffer tick goes after its readback render.
#[derive(Clone, Copy, Debug, PartialEq, Eq, Structural)]
pub enum ReadbackDecision {
    /// The readback frame is presented.
    Present,
    /// The scene is composed in software from wl_shm buffers; after a failed readback
    /// the GLES renderer is dropped first.
    SoftwareComposition { drop_gles_renderer: bool },
    /// The scene holds dmabuf surfaces, which software composition cannot draw: the
    /// geometry transaction fails.
    FailDmabufScene,
}

/// Decides where a dumb-buffer tick goes after its readback render.
pub fn decide_after_readback(attempt: ReadbackAttempt, has_dmabuf_material: bool) -> (r: ReadbackDecision)
    ensures
        attempt == ReadbackAttempt::Rendered ==> r == ReadbackDecision::Present,
        attempt != ReadbackAttempt::Rendered ==> r == (if has_dmabuf_material {
            ReadbackDecision::FailDmabufScene
        } else {
            ReadbackDecision::SoftwareComposition { drop_gles_renderer: attempt == ReadbackAttempt::Failed }
        }),
{
    match attempt {
        ReadbackAttempt::Rendered => ReadbackDecision::Present,
        ReadbackAttempt::Failed => if has_dmabuf_material {
            ReadbackDecision::FailDmabufScene
        } else {
            ReadbackDecision::SoftwareComposition { drop_gles_renderer: true }
        },
        ReadbackAttempt::NoRenderer => if has_dmabuf_material {
            ReadbackDecision::FailDmabufScene
        } else {
            ReadbackDecision::SoftwareComposition { drop_gles_renderer: false }
        },
    }
}

/// Whether the capture store must be given the dumb-buffer frame: not when a GLES
/// readback under a quarter turn already recorded the capture.
pub fn record_dumb_frame_capture(rendered_with_readback: bool, rotation: OutputRotation) -> (r: bool)
    ensures
        r == !(rendered_with_readback && spec_swaps_axes(rotation)),
{
    !(rendered_with_readback && swaps_axes(rotation))
}

} // verus!
