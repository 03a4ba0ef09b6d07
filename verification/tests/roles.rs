use surf_ace_compositor::planes::LogicalRect;
use surf_ace_compositor::roles::{
    MainAppExpectation, NativePaneExpectation, SurfaceClassification, classify_toplevel,
    expected_native_pane_for_client, main_surface_matches_current_contract,
    source_rect_from_bbox_and_geometry, popup_owner_role, popup_target_rect,
};
use surf_ace_compositor::runtime::{ProcessEnvValue, RuntimeSurfaceRole};
use surf_ace_compositor::screen_capture::PaneId;

fn pane(id: &str, pid: u32, token: Option<&str>) -> NativePaneExpectation {
    NativePaneExpectation { pane_id: PaneId(id.to_string()), pid, launch_token: token.map(str::to_string) }
}

#[test]
fn main_surface_contract_needs_lineage_or_token() {
    let expectation = MainAppExpectation { pid: 10, launch_token: Some("tok".to_string()) };
    let present = ProcessEnvValue::Present("tok".to_string());
    let other = ProcessEnvValue::Present("nope".to_string());
    assert!(main_surface_matches_current_contract(Some(&expectation), true, true, &ProcessEnvValue::Absent));
    assert!(main_surface_matches_current_contract(Some(&expectation), true, false, &present));
    assert!(!main_surface_matches_current_contract(Some(&expectation), true, false, &other));
    assert!(!main_surface_matches_current_contract(Some(&expectation), false, true, &present));
    assert!(!main_surface_matches_current_contract(None, true, true, &present));
    let tokenless = MainAppExpectation { pid: 10, launch_token: None };
    assert!(!main_surface_matches_current_contract(Some(&tokenless), true, false, &present));
}

#[test]
fn native_pane_expectation_prefers_lineage_over_tokens() {
    let expectations = vec![pane("a", 100, Some("ta")), pane("b", 200, Some("tb")), pane("c", 300, None)];
    let env = ProcessEnvValue::Present("ta".to_string());
    let found = expected_native_pane_for_client(&expectations, &[false, true, true], &env).unwrap();
    assert_eq!((found.0 .0.as_str(), found.1), ("b", 200));
    let found = expected_native_pane_for_client(&expectations, &[false, false, false], &env).unwrap();
    assert_eq!((found.0 .0.as_str(), found.1), ("a", 100));
    let env_b = ProcessEnvValue::Present("tb".to_string());
    let found = expected_native_pane_for_client(&expectations, &[false, false, false], &env_b).unwrap();
    assert_eq!(found.1, 200);
    assert!(expected_native_pane_for_client(&expectations, &[false, false, false], &ProcessEnvValue::Unreadable).is_none());
    assert!(expected_native_pane_for_client(&[], &[], &env).is_none());
}

#[test]
fn toplevel_classification_order() {
    assert!(matches!(
        classify_toplevel(true, Some((PaneId("p".to_string()), 5)), true, true),
        SurfaceClassification::MainApp
    ));
    match classify_toplevel(false, Some((PaneId("p".to_string()), 5)), false, false) {
        SurfaceClassification::NativePane { pane_id, launch_pid } => {
            assert_eq!(pane_id.0, "p");
            assert_eq!(launch_pid, 5);
        }
        _ => panic!("expected a native pane"),
    }
    assert!(matches!(classify_toplevel(false, None, false, false), SurfaceClassification::PendingIdentity));
    assert!(matches!(classify_toplevel(false, None, true, false), SurfaceClassification::OverlayCandidate));
    assert!(matches!(classify_toplevel(false, None, false, true), SurfaceClassification::OverlayCandidate));
}

fn r(x: i32, y: i32, w: i32, h: i32) -> LogicalRect {
    LogicalRect { x, y, w, h }
}

#[test]
fn source_rect_prefers_window_geometry_when_it_is_inside_bbox() {
    let bbox = r(-32, -16, 864, 632);
    let geometry = r(0, 0, 800, 600);
    assert_eq!(source_rect_from_bbox_and_geometry(bbox, Some(geometry)), geometry);
}

#[test]
fn source_rect_prefers_committed_geometry_even_when_renderer_bbox_grows_beyond_it() {
    let bbox = r(-32, -16, 864, 1264);
    let geometry = r(0, 0, 800, 600);
    assert_eq!(source_rect_from_bbox_and_geometry(bbox, Some(geometry)), geometry);
}

#[test]
fn source_rect_falls_back_to_bbox_when_geometry_is_missing() {
    let bbox = r(-12, -8, 824, 616);
    assert_eq!(source_rect_from_bbox_and_geometry(bbox, None), bbox);
}

#[test]
fn source_rect_falls_back_to_bbox_when_geometry_is_non_positive() {
    let bbox = r(-12, -8, 824, 616);
    let geometry = r(0, 0, 0, 600);
    assert_eq!(source_rect_from_bbox_and_geometry(bbox, Some(geometry)), bbox);
}

#[test]
fn popups_need_a_known_owner() {
    assert!(matches!(popup_owner_role(true, true, None), Some(RuntimeSurfaceRole::MainApp)));
    assert!(matches!(popup_owner_role(false, true, Some(PaneId("p".to_string()))), Some(RuntimeSurfaceRole::OverlayNative)));
    assert!(matches!(
        popup_owner_role(false, false, Some(PaneId("p".to_string()))),
        Some(RuntimeSurfaceRole::NativePane(PaneId(id))) if id == "p"
    ));
    assert!(popup_owner_role(false, false, None).is_none());
}

#[test]
fn popups_are_constrained_into_their_owner() {
    let rect = |x: i32, y: i32, w: i32, h: i32| LogicalRect { x, y, w, h };
    assert_eq!(popup_target_rect(&RuntimeSurfaceRole::MainApp, 1280, 800, None, None, None), rect(0, 0, 1280, 800));
    assert_eq!(popup_target_rect(&RuntimeSurfaceRole::OverlayNative, 1280, 800, Some((300, 200)), None, None), rect(0, 0, 300, 200));
    assert_eq!(popup_target_rect(&RuntimeSurfaceRole::OverlayNative, 1280, 800, None, None, None), rect(0, 0, 640, 400));
    let pane = RuntimeSurfaceRole::NativePane(PaneId("p".to_string()));
    assert_eq!(popup_target_rect(&pane, 1280, 800, None, Some((10, 20)), Some((30, 40))), rect(0, 0, 10, 20));
    assert_eq!(popup_target_rect(&pane, 1280, 800, None, None, Some((30, 40))), rect(0, 0, 30, 40));
    assert_eq!(popup_target_rect(&pane, 1280, 800, None, None, None), rect(0, 0, 1, 1));
}
