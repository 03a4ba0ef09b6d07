use surf_ace_compositor::output_selection::{
    ClaimCandidate, ClaimChoiceError, ConnectorSortKey, OutputIdentity, choose_claim_candidate,
    connector_order, device_allowed, encoder_candidates, select_crtc,
};
use surf_ace_compositor::planes::{
    AtomicPlaneCandidate, AtomicPlaneInfo, DrmPlaneType, PixelBlendModes, PlaneComposition,
    PlaneCompositionProps, PlaneSelection, RangeProperty, ScanoutFormat, configure_plane_composition,
    pixel_blend_modes_from_enum, plan_plane_composition, select_atomic_plane,
    select_atomic_plane_zpos_values,
};
use surf_ace_compositor::rotation::OutputRotation;
use surf_ace_compositor::runtime::{
    AtomicPresentState, HostPresentOwnership, StartupPresentOwnership, present_capabilities_for,
    runtime_host_present_capabilities_for_status,
};

const XR24: u32 = 0x3432_5258;
const AR24: u32 = 0x3432_5241;

fn plane(handle: u32, usable: bool, formats: &[u32], plane_type: DrmPlaneType) -> AtomicPlaneInfo {
    AtomicPlaneInfo { handle, usable_on_crtc: usable, formats: formats.to_vec(), plane_type }
}

#[test]
fn atomic_plane_selection_takes_the_lowest_fitting_handle() {
    let planes = vec![
        plane(40, true, &[XR24, AR24], DrmPlaneType::Primary),
        plane(31, false, &[XR24], DrmPlaneType::Primary),
        plane(33, true, &[AR24], DrmPlaneType::Primary),
        plane(35, true, &[AR24, XR24], DrmPlaneType::Overlay),
        plane(36, true, &[0x3231_564e], DrmPlaneType::Overlay),
        plane(50, true, &[AR24], DrmPlaneType::Cursor),
    ];
    assert_eq!(
        select_atomic_plane(&planes, PlaneSelection::Primary),
        Some(AtomicPlaneCandidate { handle: 33, scanout_format: ScanoutFormat::Argb8888 })
    );
    assert_eq!(
        select_atomic_plane(&planes, PlaneSelection::Overlay),
        Some(AtomicPlaneCandidate { handle: 35, scanout_format: ScanoutFormat::Argb8888 })
    );
    assert_eq!(select_atomic_plane(&planes[4..], PlaneSelection::Overlay), None);
    assert_eq!(select_atomic_plane(&[], PlaneSelection::Primary), None);
}

#[test]
fn pixel_blend_mode_enum_entries_are_matched_by_normalized_name() {
    let entries = vec![
        ("None".to_string(), 0u64),
        ("Pre-multiplied".to_string(), 1u64),
        ("Coverage".to_string(), 2u64),
        ("other".to_string(), 9u64),
    ];
    assert_eq!(
        pixel_blend_modes_from_enum(&entries),
        PixelBlendModes { premultiplied: Some(1), coverage: Some(2), none: Some(0) }
    );
    assert_eq!(
        pixel_blend_modes_from_enum(&[("coverage".to_string(), 4), ("COVERAGE".to_string(), 5)]),
        PixelBlendModes { premultiplied: None, coverage: Some(5), none: None }
    );
}

#[test]
fn overlay_composition_prefers_premultiplied_and_fails_closed_without_blending() {
    let modes = |p: Option<u64>, c: Option<u64>, n: Option<u64>| PixelBlendModes { premultiplied: p, coverage: c, none: n };
    let props = |blend: Option<PixelBlendModes>| PlaneCompositionProps {
        zpos: None,
        alpha: Some(RangeProperty { min: 0, max: 0xffff }),
        pixel_blend_mode: blend,
    };
    let c = configure_plane_composition(PlaneSelection::Overlay, props(Some(modes(Some(1), Some(2), Some(0)))));
    assert_eq!(c, PlaneComposition { zpos: None, alpha: Some(0xffff), pixel_blend_mode: Some(1), supports_alpha_blending: true });
    let c = configure_plane_composition(PlaneSelection::Overlay, props(Some(modes(None, Some(2), Some(0)))));
    assert_eq!(c.pixel_blend_mode, Some(2));
    let c = configure_plane_composition(PlaneSelection::Overlay, props(Some(modes(None, None, Some(0)))));
    assert_eq!(c, PlaneComposition { zpos: None, alpha: Some(0xffff), pixel_blend_mode: Some(0), supports_alpha_blending: false });
    let c = configure_plane_composition(PlaneSelection::Overlay, props(None));
    assert!(!c.supports_alpha_blending);
    let c = configure_plane_composition(PlaneSelection::Primary, props(None));
    assert!(c.supports_alpha_blending);
    assert_eq!(c.pixel_blend_mode, None);
}

#[test]
fn composition_plan_orders_zpos_and_drops_non_blending_overlays() {
    let blend = PixelBlendModes { premultiplied: Some(1), coverage: None, none: Some(0) };
    let primary = PlaneCompositionProps { zpos: Some(RangeProperty { min: 0, max: 2 }), alpha: None, pixel_blend_mode: None };
    let overlay = PlaneCompositionProps { zpos: Some(RangeProperty { min: 0, max: 4 }), alpha: None, pixel_blend_mode: Some(blend) };
    let (p, o) = plan_plane_composition(primary, Some(overlay));
    assert_eq!(p.zpos, Some(0));
    assert_eq!(o.map(|o| o.zpos), Some(Some(1)));
    assert_eq!(select_atomic_plane_zpos_values(0, 2, 0, 4), Some((0, 1)));

    let no_blend = PlaneCompositionProps { pixel_blend_mode: None, ..overlay };
    let (p, o) = plan_plane_composition(primary, Some(no_blend));
    assert_eq!(o, None);
    assert_eq!(p.zpos, None);

    let unorderable = PlaneCompositionProps { zpos: Some(RangeProperty { min: 0, max: 0 }), ..overlay };
    let (p, o) = plan_plane_composition(PlaneCompositionProps { zpos: Some(RangeProperty { min: 3, max: 3 }), ..primary }, Some(unorderable));
    assert_eq!(p.zpos, None);
    assert_eq!(o.map(|o| o.zpos), Some(None));
}

#[test]
fn encoders_are_tried_current_first_then_by_handle() {
    assert_eq!(encoder_candidates(Some(42), &[50, 42, 41, 50, 7]), vec![42, 7, 41, 50]);
    assert_eq!(encoder_candidates(None, &[9, 3, 9, 1]), vec![1, 3, 9]);
    assert_eq!(encoder_candidates(Some(5), &[]), vec![5]);
    assert_eq!(encoder_candidates(None, &[]), Vec::<u32>::new());
    assert_eq!(encoder_candidates(Some(u32::MAX), &[u32::MAX, 0]), vec![u32::MAX, 0]);
}

#[test]
fn crtc_selection_keeps_a_usable_current_crtc_else_the_lowest() {
    assert_eq!(select_crtc(Some(70), &[90, 70, 80]), Some(70));
    assert_eq!(select_crtc(Some(60), &[90, 70, 80]), Some(70));
    assert_eq!(select_crtc(None, &[90, 80]), Some(80));
    assert_eq!(select_crtc(Some(60), &[]), None);
}

#[test]
fn present_capabilities_report_overlay_alpha_only_for_argb_with_blending() {
    let atomic = |format: Option<ScanoutFormat>, blending: bool| AtomicPresentState {
        overlay_scanout_format: format,
        overlay_alpha_blending_supported: blending,
    };
    assert_eq!(
        present_capabilities_for(StartupPresentOwnership::DirectGbm, Some(atomic(Some(ScanoutFormat::Argb8888), true))),
        (HostPresentOwnership::DirectGbm, true, true)
    );
    assert_eq!(
        present_capabilities_for(StartupPresentOwnership::Dumb, Some(atomic(Some(ScanoutFormat::Xrgb8888), true))),
        (HostPresentOwnership::Dumb, true, false)
    );
    assert_eq!(
        present_capabilities_for(StartupPresentOwnership::Dumb, Some(atomic(Some(ScanoutFormat::Argb8888), false))),
        (HostPresentOwnership::Dumb, true, false)
    );
    assert_eq!(present_capabilities_for(StartupPresentOwnership::Dumb, None), (HostPresentOwnership::Dumb, false, false));
    assert_eq!(
        runtime_host_present_capabilities_for_status(None, OutputRotation::Deg90),
        (HostPresentOwnership::Unowned, false, false)
    );
    assert_eq!(
        runtime_host_present_capabilities_for_status(Some((HostPresentOwnership::DirectGbm, true, true)), OutputRotation::Deg270),
        (HostPresentOwnership::DirectGbm, true, true)
    );
}

fn key(interface: &str, interface_id: u32, handle: u32) -> ConnectorSortKey {
    ConnectorSortKey { interface: interface.to_string(), interface_id, handle }
}

#[test]
fn connectors_are_ordered_by_interface_name_id_and_handle() {
    let keys = vec![
        key("HDMI-A", 1, 80),
        key("DP", 2, 70),
        key("DP", 1, 90),
        key("eDP", 1, 60),
        key("DP", 1, 85),
        key("DP", 1, 85),
    ];
    // Upper-case letters sort before lower-case ones, as in `str`'s order.
    assert_eq!(connector_order(&keys), vec![4, 5, 2, 1, 0, 3]);
    assert_eq!(connector_order(&[]), Vec::<usize>::new());
    let prefix = vec![key("DP-extra", 0, 0), key("DP", 9, 9)];
    assert_eq!(connector_order(&prefix), vec![1, 0]);
}

fn candidate(path: &str, connector: &str) -> ClaimCandidate {
    ClaimCandidate { device_path: path.to_string(), connector_name: connector.to_string() }
}

#[test]
fn forced_device_filter_compares_paths() {
    assert!(device_allowed("/dev/dri/card1", None));
    assert!(device_allowed("/dev/dri/card1", Some("/dev/dri/card1")));
    assert!(device_allowed("/dev/dri/card1", Some("/dev/dri//card1/")));
    assert!(!device_allowed("/dev/dri/card1", Some("/dev/dri/card0")));
}

#[test]
fn claim_candidate_choice_follows_overrides_and_recovery() {
    let cs = vec![candidate("/dev/dri/card0", "eDP-1"), candidate("/dev/dri/card0", "HDMI-A-1"), candidate("/dev/dri/card1", "DP-1")];
    assert_eq!(choose_claim_candidate(&cs, false, None, None), Ok(0));
    assert_eq!(choose_claim_candidate(&[], true, None, None), Err(ClaimChoiceError::ForcedDeviceRejected));
    assert_eq!(choose_claim_candidate(&[], false, None, None), Err(ClaimChoiceError::NoCandidate));
    assert_eq!(choose_claim_candidate(&cs, false, Some("DP-1"), None), Ok(2));
    assert_eq!(choose_claim_candidate(&cs, true, Some("VGA-1"), None), Err(ClaimChoiceError::ForcedOutputRejected));

    let previous = OutputIdentity {
        device_path: "/dev/dri/card0".to_string(),
        connector_name: "HDMI-A-1".to_string(),
        connector_id: 5,
    };
    assert_eq!(choose_claim_candidate(&cs, false, None, Some(&previous)), Ok(1));
    let gone = OutputIdentity { connector_name: "DP-9".to_string(), ..previous };
    assert_eq!(choose_claim_candidate(&cs, false, None, Some(&gone)), Err(ClaimChoiceError::RecoveryAmbiguous));
    assert_eq!(choose_claim_candidate(&cs, false, Some("DP-1"), Some(&gone)), Ok(2));
    assert_eq!(choose_claim_candidate(&[], false, None, Some(&gone)), Err(ClaimChoiceError::RecoveryAmbiguous));
}
