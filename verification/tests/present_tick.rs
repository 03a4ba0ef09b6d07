use surf_ace_compositor::planes::{
    AtomicPlaneProperties, PlaneBlendHandle, PlaneRangeHandle, atomic_plane_properties,
    PixelBlendModes, PlanePropertyHandles, PropertyInfo, PropertyValueKind, RangeProperty, ScanoutFormat,
    pixel_blend_property_of, plane_property_handles, property_handle, range_property_of,
};
use surf_ace_compositor::present_tick::{
    DirectAttempt, DirectDecision, DirectPresentFailure, ReadbackAttempt, ReadbackDecision, TickStart,
    decide_after_direct, decide_after_readback, direct_render_allowed, prefer_overlay_plane_split,
    presentation_tick_start, record_dumb_frame_capture, requires_direct_present,
};
use surf_ace_compositor::rotation::OutputRotation;
use surf_ace_compositor::runtime::{
    InitialOutputState, RuntimeError, StartupPresentOwnership, host_preflight_error, initial_output_state,
};

#[test]
fn tick_start_waits_for_a_claim_a_pipeline_and_the_pending_flip() {
    assert_eq!(presentation_tick_start(false, false, false, false), TickStart::Skip);
    assert_eq!(presentation_tick_start(false, true, true, false), TickStart::FailStagedGeometryWithoutClaim);
    assert_eq!(presentation_tick_start(true, true, false, false), TickStart::Skip);
    assert_eq!(presentation_tick_start(true, false, true, true), TickStart::Skip);
    assert_eq!(presentation_tick_start(true, true, true, false), TickStart::Present);
}

#[test]
fn direct_ownership_never_falls_back_to_dumb_buffers() {
    assert!(requires_direct_present(StartupPresentOwnership::DirectGbm, OutputRotation::Deg90));
    assert!(!requires_direct_present(StartupPresentOwnership::Dumb, OutputRotation::Deg0));
    assert_eq!(decide_after_direct(true, DirectAttempt::RenderedMain), DirectDecision::QueueDirect);
    assert_eq!(
        decide_after_direct(true, DirectAttempt::RenderedWithoutMain),
        DirectDecision::Fail(DirectPresentFailure::DirectFramebufferUnavailable)
    );
    assert_eq!(decide_after_direct(true, DirectAttempt::Failed), DirectDecision::Fail(DirectPresentFailure::DirectRenderFailed));
    assert_eq!(decide_after_direct(true, DirectAttempt::NotTried), DirectDecision::Fail(DirectPresentFailure::NoDirectFrameQueued));
    assert_eq!(decide_after_direct(false, DirectAttempt::Failed), DirectDecision::FallBack { drop_direct_scanout: true });
    assert_eq!(decide_after_direct(false, DirectAttempt::RenderedWithoutMain), DirectDecision::FallBack { drop_direct_scanout: false });
    assert_eq!(decide_after_direct(false, DirectAttempt::NotTried), DirectDecision::FallBack { drop_direct_scanout: false });
}

#[test]
fn direct_render_and_overlay_split_conditions() {
    assert!(direct_render_allowed(false, OutputRotation::Deg270, true));
    assert!(!direct_render_allowed(true, OutputRotation::Deg0, true));
    assert!(!direct_render_allowed(false, OutputRotation::Deg0, false));
    assert!(prefer_overlay_plane_split(OutputRotation::Deg0, true, Some(ScanoutFormat::Argb8888), true));
    assert!(!prefer_overlay_plane_split(OutputRotation::Deg90, true, Some(ScanoutFormat::Argb8888), true));
    assert!(!prefer_overlay_plane_split(OutputRotation::Deg0, false, Some(ScanoutFormat::Argb8888), true));
    assert!(!prefer_overlay_plane_split(OutputRotation::Deg0, true, Some(ScanoutFormat::Xrgb8888), true));
    assert!(!prefer_overlay_plane_split(OutputRotation::Deg0, true, None, true));
    assert!(!prefer_overlay_plane_split(OutputRotation::Deg0, true, Some(ScanoutFormat::Argb8888), false));
}

#[test]
fn readback_failures_fall_to_software_unless_the_scene_holds_dmabufs() {
    assert_eq!(decide_after_readback(ReadbackAttempt::Rendered, true), ReadbackDecision::Present);
    assert_eq!(decide_after_readback(ReadbackAttempt::Failed, false), ReadbackDecision::SoftwareComposition { drop_gles_renderer: true });
    assert_eq!(decide_after_readback(ReadbackAttempt::NoRenderer, false), ReadbackDecision::SoftwareComposition { drop_gles_renderer: false });
    assert_eq!(decide_after_readback(ReadbackAttempt::Failed, true), ReadbackDecision::FailDmabufScene);
    assert_eq!(decide_after_readback(ReadbackAttempt::NoRenderer, true), ReadbackDecision::FailDmabufScene);
    assert!(!record_dumb_frame_capture(true, OutputRotation::Deg90));
    assert!(record_dumb_frame_capture(true, OutputRotation::Deg180));
    assert!(record_dumb_frame_capture(false, OutputRotation::Deg270));
}

#[test]
fn preflight_reports_missing_or_unopened_devices() {
    assert!(matches!(host_preflight_error(0, 0, "seat0".to_string()), Some(RuntimeError::HostNoDrmDevices(s)) if s == "seat0"));
    assert!(matches!(host_preflight_error(2, 0, "seat0".to_string()), Some(RuntimeError::HostNoDrmDeviceOpened(s)) if s == "seat0"));
    assert!(host_preflight_error(2, 1, "seat0".to_string()).is_none());
}

fn props(names: &[&str]) -> Vec<(String, u32)> {
    names.iter().enumerate().map(|(i, n)| (n.to_string(), i as u32 + 1)).collect()
}

#[test]
fn plane_property_handles_need_every_commit_property() {
    let required = ["CRTC_ID", "FB_ID", "SRC_X", "SRC_Y", "SRC_W", "SRC_H", "CRTC_X", "CRTC_Y", "CRTC_W", "CRTC_H"];
    let mut names: Vec<&str> = required.to_vec();
    names.extend(["ZPOS", "alpha", "ALPHA", "type"]);
    let handles = plane_property_handles(&props(&names)).unwrap();
    assert_eq!(
        handles,
        PlanePropertyHandles {
            crtc_id: 1, fb_id: 2, src_x: 3, src_y: 4, src_w: 5, src_h: 6, crtc_x: 7, crtc_y: 8, crtc_w: 9, crtc_h: 10,
            zpos: Some(11), alpha: Some(12), pixel_blend_mode: None,
        }
    );
    assert!(plane_property_handles(&props(&required[1..])).is_none());
    assert_eq!(property_handle(&props(&["a", "b", "a"]), "a"), Some(3));
    assert_eq!(property_handle(&props(&["a"]), "A"), None);
}

#[test]
fn plane_range_and_blend_properties_must_be_atomic_and_mutable() {
    let range = |mutable: bool, atomic: bool| PropertyInfo { mutable, atomic, kind: PropertyValueKind::UnsignedRange { min: 0, max: 7 } };
    assert_eq!(range_property_of(&range(true, true)), Some(RangeProperty { min: 0, max: 7 }));
    assert_eq!(range_property_of(&range(false, true)), None);
    assert_eq!(range_property_of(&range(true, false)), None);
    let blend = PropertyInfo {
        mutable: true,
        atomic: true,
        kind: PropertyValueKind::Enum(vec![("Pre-multiplied".to_string(), 1), ("None".to_string(), 0)]),
    };
    assert_eq!(pixel_blend_property_of(&blend), Some(PixelBlendModes { premultiplied: Some(1), coverage: None, none: Some(0) }));
    assert_eq!(range_property_of(&blend), None);
    assert_eq!(pixel_blend_property_of(&range(true, true)), None);
}

#[test]
fn plane_properties_keep_only_settable_ranges_and_enums() {
    let names = ["CRTC_ID", "FB_ID", "SRC_X", "SRC_Y", "SRC_W", "SRC_H", "CRTC_X", "CRTC_Y", "CRTC_W", "CRTC_H", "zpos", "alpha", "pixel blend mode"];
    let handles = plane_property_handles(&props(&names)).unwrap();
    let zpos = PropertyInfo { mutable: true, atomic: true, kind: PropertyValueKind::UnsignedRange { min: 1, max: 6 } };
    let alpha = PropertyInfo { mutable: false, atomic: true, kind: PropertyValueKind::UnsignedRange { min: 0, max: 0xffff } };
    let blend = PropertyInfo {
        mutable: true,
        atomic: true,
        kind: PropertyValueKind::Enum(vec![("Coverage".to_string(), 2), ("None".to_string(), 0)]),
    };
    let read = atomic_plane_properties(handles, Some(&zpos), Some(&alpha), Some(&blend));
    assert_eq!(
        read,
        AtomicPlaneProperties {
            handles,
            zpos: Some(PlaneRangeHandle { handle: 11, min: 1, max: 6 }),
            alpha: None,
            pixel_blend_mode: Some(PlaneBlendHandle {
                handle: 13,
                modes: PixelBlendModes { premultiplied: None, coverage: Some(2), none: Some(0) },
            }),
        }
    );
    let c = read.composition_props();
    assert_eq!(c.zpos, Some(RangeProperty { min: 1, max: 6 }));
    assert_eq!(c.alpha, None);
    let not_atomic = PropertyInfo { mutable: true, atomic: false, kind: PropertyValueKind::UnsignedRange { min: 0, max: 3 } };
    let enum_zpos = PropertyInfo { mutable: true, atomic: true, kind: PropertyValueKind::Enum(vec![]) };
    let read = atomic_plane_properties(handles, Some(&enum_zpos), Some(&not_atomic), Some(&zpos));
    assert_eq!((read.zpos, read.alpha, read.pixel_blend_mode), (None, None, None));
}

#[test]
fn initial_output_state_defaults_and_refuses_host_mode_without_root_geometry() {
    assert_eq!(initial_output_state(None, None, true, None), None);
    assert_eq!(
        initial_output_state(None, None, false, None),
        Some(InitialOutputState { width: 1280, height: 800, root_geometry_generation: 0 })
    );
    assert_eq!(
        initial_output_state(Some(0), Some(-5), true, Some(3)),
        Some(InitialOutputState { width: 1, height: 1, root_geometry_generation: 3 })
    );
    assert_eq!(
        initial_output_state(Some(1920), Some(1080), false, None),
        Some(InitialOutputState { width: 1920, height: 1080, root_geometry_generation: 0 })
    );
}
