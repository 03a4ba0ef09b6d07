use surf_ace_compositor::cursor::{
    SOFTWARE_CURSOR_HOTSPOT_X, SOFTWARE_CURSOR_HOTSPOT_Y, SOFTWARE_CURSOR_MASK,
    SOFTWARE_CURSOR_MASK_HEIGHT, SOFTWARE_CURSOR_MASK_STRIDE, SOFTWARE_CURSOR_MASK_WIDTH,
    software_cursor_mask_pixel, software_cursor_outline_pixel,
};
use surf_ace_compositor::output_selection::{
    OutputIdentity, describe_output_selection_attempt, describe_output_selection_result,
    host_device_sort_key, select_primary_path,
};
use surf_ace_compositor::planes::{
    AtomicPlaneLayout, ConnectorMode, GBM_BUFFER_FROM_BO_PRESERVE_EXPLICIT_MODIFIER, LogicalRect, PlaneSelection,
    ScanoutFormat, normalize_drm_enum_name, overlay_scanout_format_supports_alpha,
    select_atomic_plane_zpos_values, select_connector_mode, select_plane_alpha_value,
    select_preferred_scanout_format,
};
use surf_ace_compositor::presentation::{
    AcceptedMaterialIdentity, AcceptedPopupMaterial, AcceptedSurfaceMaterial, MaterialIdentityGate,
    PresentationToken, RootGeometryFlipBoundary, RuntimeGeometryMutationQueue,
    same_material_identity,
};
use surf_ace_compositor::rotation::{
    CapturePixelRotation, OutputRotation, OutputTransform, capture_pixel_rotation,
    present_preserves_readback_row_order, swaps_axes, transform_from_rotation,
};
use surf_ace_compositor::shortcut::{
    KEYSYM_CASE_INSENSITIVE, KEYSYM_GRAVE, KEYSYM_NO_SYMBOL, ShellOverlayToggleShortcut, ShortcutModifiers,
    parse_shell_overlay_toggle_shortcut, parse_shortcut_setting, pick_keysym,
    resolve_shell_overlay_toggle_shortcut,
};
use surf_ace_compositor::render_capture::{RenderElementCapture, RenderElementSource};
use surf_ace_compositor::runtime::{
    HostPresentFailure, LaunchTokenEvidence, ProcessEnvValue, RuntimeError, RuntimeFocusTarget,
    RuntimeSelectionMode, RuntimeSelectionReport, RuntimeSurfaceRole, launch_token_evidence_for_pid,
    process_launch_token_matches, runtime_focus_target_for_role,
};
use surf_ace_compositor::screen_capture::PaneId;

#[test]
fn production_geometry_activation_waits_for_a_queued_flip_completion() {
    let mut boundary = RootGeometryFlipBoundary::default();
    let geometry_frame = PresentationToken(7);
    assert!(!boundary.take_completed(&[geometry_frame]));
    boundary.mark_queued(geometry_frame);
    assert!(!boundary.take_completed(&[]));
    assert!(!boundary.take_completed(&[PresentationToken(6)]));
    assert!(boundary.take_completed(&[geometry_frame]));
    assert!(!boundary.take_completed(&[geometry_frame]));
    boundary.mark_queued(PresentationToken(8));
    boundary.discard();
    assert!(!boundary.take_completed(&[PresentationToken(8)]));
}

#[derive(Debug, PartialEq)]
enum TestMutation {
    Scale,
    Mode { width: i32, height: i32 },
    Rotation,
}

#[test]
fn production_geometry_queue_preserves_interleaved_fifo_and_repeated_modes() {
    let mut queue = RuntimeGeometryMutationQueue::default();
    queue.push(TestMutation::Scale);
    queue.push(TestMutation::Mode { width: 3840, height: 2160 });
    queue.push(TestMutation::Rotation);
    queue.push(TestMutation::Mode { width: 3840, height: 2160 });

    for expected in 1..=4 {
        assert_eq!(queue.pop().unwrap().sequence, expected);
    }
    assert!(queue.pop().is_none());
}

#[test]
fn geometry_queue_returns_mutations_in_push_order() {
    let mut queue = RuntimeGeometryMutationQueue::new();
    assert_eq!(queue.push(TestMutation::Rotation), 1);
    assert_eq!(queue.push(TestMutation::Mode { width: 1, height: 2 }), 2);
    assert_eq!(queue.pop().unwrap().mutation, TestMutation::Rotation);
    assert_eq!(queue.push(TestMutation::Scale), 3);
    assert_eq!(queue.pop().unwrap().mutation, TestMutation::Mode { width: 1, height: 2 });
    let last = queue.pop().unwrap();
    assert_eq!((last.sequence, last.mutation), (3, TestMutation::Scale));
}

#[test]
fn allocated_gbm_bo_export_policy_preserves_explicit_modifiers() {
    assert!(
        !GBM_BUFFER_FROM_BO_PRESERVE_EXPLICIT_MODIFIER,
        "modifier-aware GBM export must not force implicit modifier mode"
    );
}

#[test]
fn software_cursor_mask_is_48_by_48_msb_first_rows() {
    assert_eq!(SOFTWARE_CURSOR_MASK_WIDTH, 48);
    assert_eq!(SOFTWARE_CURSOR_MASK_HEIGHT, 48);
    assert_eq!(SOFTWARE_CURSOR_MASK_STRIDE, 6);
    assert_eq!(SOFTWARE_CURSOR_HOTSPOT_X, 6);
    assert_eq!(SOFTWARE_CURSOR_HOTSPOT_Y, 4);
    assert_eq!(
        SOFTWARE_CURSOR_MASK.len(),
        (SOFTWARE_CURSOR_MASK_HEIGHT as usize) * SOFTWARE_CURSOR_MASK_STRIDE
    );

    assert!(software_cursor_mask_pixel(6, 4));
    assert!(!software_cursor_mask_pixel(5, 4));
    assert!(!software_cursor_mask_pixel(7, 4));
    assert!(software_cursor_mask_pixel(6, 24));
    assert!(software_cursor_mask_pixel(26, 24));
    assert!(!software_cursor_mask_pixel(27, 24));
    assert!(software_cursor_mask_pixel(11, 27));
    assert!(!software_cursor_mask_pixel(12, 27));
    assert!(software_cursor_mask_pixel(13, 27));
    assert!(software_cursor_mask_pixel(20, 42));
    assert!(!software_cursor_mask_pixel(21, 42));
    assert!(!software_cursor_mask_pixel(18, 43));
}

#[test]
fn software_cursor_outline_surrounds_the_arrow() {
    assert!(!software_cursor_mask_pixel(-1, 4));
    assert!(!software_cursor_mask_pixel(48, 0));
    assert!(software_cursor_outline_pixel(5, 4));
    assert!(software_cursor_outline_pixel(6, 3));
    assert!(!software_cursor_outline_pixel(6, 4));
    assert!(!software_cursor_outline_pixel(0, 0));
    assert!(software_cursor_outline_pixel(9, 6));
    assert!(!software_cursor_outline_pixel(8, 6));
    assert!(!software_cursor_outline_pixel(40, 40));
}

#[test]
fn atomic_plane_zpos_selection_prefers_deterministic_primary_below_overlay_values() {
    let selected = select_atomic_plane_zpos_values(0, 5, 0, 5)
        .expect("compatible zpos ranges should select deterministic ordering");
    assert_eq!(selected, (0, 1));
}

#[test]
fn atomic_plane_zpos_selection_rejects_non_orderable_ranges() {
    let selected = select_atomic_plane_zpos_values(5, 8, 0, 5);
    assert!(
        selected.is_none(),
        "overlay zpos must be strictly greater than primary zpos"
    );
}

#[test]
fn atomic_plane_zpos_selection_edge_cases() {
    assert_eq!(select_atomic_plane_zpos_values(3, 2, 0, 9), None);
    assert_eq!(select_atomic_plane_zpos_values(2, 4, 7, 9), Some((2, 7)));
    assert_eq!(select_atomic_plane_zpos_values(u64::MAX, u64::MAX, u64::MAX, u64::MAX), None);
    assert_eq!(select_atomic_plane_zpos_values(u64::MAX - 1, u64::MAX, 0, u64::MAX), Some((u64::MAX - 1, u64::MAX)));
}

#[test]
fn plane_alpha_prefers_opaque_within_range() {
    assert_eq!(select_plane_alpha_value(0, 0xffff), 0xffff);
    assert_eq!(select_plane_alpha_value(0, 255), 255);
    assert_eq!(select_plane_alpha_value(0x1_0000, 0x2_0000), 0x1_0000);
    assert_eq!(select_plane_alpha_value(9, 3), 9);
}

#[test]
fn overlay_plane_layout_maps_overlay_rect_to_atomic_coordinates() {
    let rect = LogicalRect { x: -20, y: 24, w: 640, h: 360 };
    let layout = AtomicPlaneLayout::from_overlay_rect(rect).expect("positive-size overlay maps");

    assert_eq!(layout.crtc_x, 0);
    assert_eq!(layout.crtc_y, 24);
    assert_eq!(layout.crtc_w, 640);
    assert_eq!(layout.crtc_h, 360);
    assert_eq!(layout.src_x, 0);
    assert_eq!(layout.src_y, 0);
    assert_eq!(layout.src_w, 640);
    assert_eq!(layout.src_h, 360);
}

#[test]
fn overlay_plane_layout_rejects_zero_sized_overlay_rect() {
    let rect = LogicalRect { x: 16, y: 16, w: 0, h: 320 };
    assert!(AtomicPlaneLayout::from_overlay_rect(rect).is_none());
}

#[test]
fn fullscreen_layout_covers_the_mode() {
    let layout = AtomicPlaneLayout::fullscreen((3840, 2160));
    assert_eq!((layout.crtc_x, layout.crtc_y, layout.crtc_w, layout.crtc_h), (0, 0, 3840, 2160));
    assert_eq!((layout.src_x, layout.src_y, layout.src_w, layout.src_h), (0, 0, 3840, 2160));
}

const XRGB8888: u32 = 0x3432_5258;
const ARGB8888: u32 = 0x3432_5241;

#[test]
fn primary_scanout_format_prefers_xrgb_then_argb() {
    let formats = [ARGB8888, XRGB8888];
    let selected = select_preferred_scanout_format(&formats, PlaneSelection::Primary);
    assert_eq!(selected, Some(ScanoutFormat::Xrgb8888));
}

#[test]
fn primary_scanout_format_falls_back_to_argb_when_xrgb_missing() {
    let formats = [ARGB8888];
    let selected = select_preferred_scanout_format(&formats, PlaneSelection::Primary);
    assert_eq!(selected, Some(ScanoutFormat::Argb8888));
}

#[test]
fn overlay_scanout_format_prefers_argb_for_alpha_truth() {
    let formats = [ARGB8888, XRGB8888];
    let selected = select_preferred_scanout_format(&formats, PlaneSelection::Overlay);
    assert_eq!(selected, Some(ScanoutFormat::Argb8888));
}

#[test]
fn overlay_scanout_format_falls_back_to_xrgb_when_argb_missing() {
    let formats = [XRGB8888];
    let selected = select_preferred_scanout_format(&formats, PlaneSelection::Overlay);
    assert_eq!(selected, Some(ScanoutFormat::Xrgb8888));
}

#[test]
fn scanout_format_selection_finds_nothing_in_foreign_formats() {
    assert_eq!(select_preferred_scanout_format(&[0x3231_564e], PlaneSelection::Primary), None);
    assert_eq!(ScanoutFormat::Xrgb8888.fourcc(), XRGB8888);
    assert_eq!(ScanoutFormat::Argb8888.fourcc(), ARGB8888);
}

#[test]
fn overlay_scanout_alpha_support_requires_argb_format() {
    assert!(overlay_scanout_format_supports_alpha(ScanoutFormat::Argb8888));
    assert!(!overlay_scanout_format_supports_alpha(ScanoutFormat::Xrgb8888));
}

#[test]
fn drm_enum_names_normalize_to_lowercase_alphanumerics() {
    assert_eq!(normalize_drm_enum_name("Pre-multiplied"), "premultiplied");
    assert_eq!(normalize_drm_enum_name("Coverage"), "coverage");
    assert_eq!(normalize_drm_enum_name("zpos 2_X"), "zpos2x");
    assert_eq!(normalize_drm_enum_name(""), "");
}

#[test]
fn select_primary_path_prefers_configured_path_when_present() {
    let paths = ["/dev/dri/card1".to_string(), "/dev/dri/card0".to_string()];
    let selected = select_primary_path(&paths, Some("/dev/dri/card1"));
    assert_eq!(selected.as_deref(), Some("/dev/dri/card1"));
}

#[test]
fn select_primary_path_falls_back_to_lexicographic_order() {
    let paths = ["/dev/dri/card9".to_string(), "/dev/dri/card2".to_string()];
    let selected = select_primary_path(&paths, Some("/dev/dri/card0"));
    assert_eq!(selected.as_deref(), Some("/dev/dri/card2"));
}

#[test]
fn select_primary_path_compares_paths_by_component() {
    assert_eq!(select_primary_path(&[], None), None);
    let paths = ["/dev/dri/card1".to_string(), "/dev/dri-x/card0".to_string()];
    assert_eq!(select_primary_path(&paths, None).as_deref(), Some("/dev/dri/card1"));
    let spelled = ["/dev//dri/card3".to_string()];
    assert_eq!(select_primary_path(&spelled, Some("/dev/dri/card3")).as_deref(), Some("/dev//dri/card3"));
}

#[test]
fn device_sort_key_ranks_the_preferred_path_first() {
    assert_eq!(host_device_sort_key("/dev/dri/card1", Some("/dev/dri/card1")), (0, "/dev/dri/card1".to_string()));
    assert_eq!(host_device_sort_key("/dev/dri/card0", Some("/dev/dri/card1")), (1, "/dev/dri/card0".to_string()));
    assert_eq!(host_device_sort_key("/dev/dri/card0", None), (1, "/dev/dri/card0".to_string()));
}

fn identity(path: &str, connector: &str, id: u32) -> OutputIdentity {
    OutputIdentity { device_path: path.to_string(), connector_name: connector.to_string(), connector_id: id }
}

#[test]
fn output_selection_attempt_descriptions() {
    assert_eq!(
        describe_output_selection_attempt(None, None, None, false),
        "startup output selection device=automatic output=automatic"
    );
    let previous = identity("/dev/dri/card0", "DP-1", 3);
    assert_eq!(
        describe_output_selection_attempt(Some("/dev/dri/card1"), Some("HDMI-A-1"), Some(&previous), true),
        "recovery output selection device=forced:/dev/dri/card1 output=forced:HDMI-A-1 previous=/dev/dri/card0:DP-1"
    );
}

#[test]
fn output_selection_result_descriptions() {
    let selected = identity("/dev/dri/card0", "DP-2", 4);
    let previous = identity("/dev/dri/card0", "DP-1", 3);
    assert_eq!(
        describe_output_selection_result(true, Some(&previous), &selected, None, None),
        "active connector DP-1 disappeared, rebound to DP-2 using matching single-output policy"
    );
    assert_eq!(
        describe_output_selection_result(false, Some(&previous), &selected, None, None),
        "auto-selected device=/dev/dri/card0 output=DP-2"
    );
    let same = identity("/dev/dri/card0", "DP-2", 4);
    assert_eq!(
        describe_output_selection_result(true, Some(&same), &selected, None, Some("DP-2")),
        "forced device=/dev/dri/card0 output=DP-2"
    );
}

#[test]
fn native_pane_focus_target_preserves_pane_identity() {
    match runtime_focus_target_for_role(RuntimeSurfaceRole::NativePane(PaneId("pane-a".to_string()))) {
        RuntimeFocusTarget::NativePane { pane_id } => assert_eq!(pane_id.0, "pane-a"),
        _ => panic!("native pane role must focus its pane"),
    }
    assert!(matches!(runtime_focus_target_for_role(RuntimeSurfaceRole::MainApp), RuntimeFocusTarget::MainApp));
    assert!(matches!(
        runtime_focus_target_for_role(RuntimeSurfaceRole::OverlayNative),
        RuntimeFocusTarget::OverlayNative
    ));
}

#[test]
fn launch_token_evidence_classifies_the_environment() {
    let present = ProcessEnvValue::Present("tok-1".to_string());
    assert_eq!(launch_token_evidence_for_pid(None, &present), None);
    assert_eq!(launch_token_evidence_for_pid(Some("tok-1"), &present), Some(LaunchTokenEvidence::Matched));
    assert_eq!(launch_token_evidence_for_pid(Some("tok-2"), &present), Some(LaunchTokenEvidence::Mismatched));
    assert_eq!(launch_token_evidence_for_pid(Some("tok-1"), &ProcessEnvValue::Absent), Some(LaunchTokenEvidence::Missing));
    assert_eq!(
        launch_token_evidence_for_pid(Some("tok-1"), &ProcessEnvValue::Unreadable),
        Some(LaunchTokenEvidence::Unavailable)
    );
    assert!(process_launch_token_matches("tok-1", &present));
    assert!(!process_launch_token_matches("tok", &present));
    assert!(!process_launch_token_matches("tok-1", &ProcessEnvValue::Absent));
}

#[test]
fn runtime_selection_reports() {
    let automatic = RuntimeSelectionReport::automatic();
    assert_eq!(automatic.mode, RuntimeSelectionMode::Automatic);
    assert!(!automatic.operator_action_needed && automatic.operator_action_reason.is_none());
    let forced = RuntimeSelectionReport::forced();
    assert_eq!(forced.mode, RuntimeSelectionMode::Forced);
    assert!(!forced.operator_action_needed && forced.operator_action_reason.is_none());
    let fallback = RuntimeSelectionReport::fallback("seat busy".to_string());
    assert_eq!(fallback.mode, RuntimeSelectionMode::FallbackAfterFailure);
    assert!(fallback.operator_action_needed);
    assert_eq!(fallback.operator_action_reason.as_deref(), Some("seat busy"));
}

#[test]
fn present_failures_keep_their_class_and_error() {
    let failure = HostPresentFailure::reclaimable(RuntimeError::Loop("flip".to_string()));
    assert!(failure.is_reclaimable() && !failure.is_transaction());
    let failure = HostPresentFailure::transaction(RuntimeError::HostNoConnectedOutputRoute);
    assert!(failure.is_transaction() && !failure.is_reclaimable());
    assert!(matches!(failure.error_ref(), RuntimeError::HostNoConnectedOutputRoute));
    let failure = HostPresentFailure::fatal(RuntimeError::WaylandSocket("gone".to_string()));
    assert!(!failure.is_transaction() && !failure.is_reclaimable());
    match failure.into_error() {
        RuntimeError::WaylandSocket(reason) => assert_eq!(reason, "gone"),
        other => panic!("unexpected error {other:?}"),
    }
}

#[test]
fn primary_plane_elements_keep_debug_borders_when_overlay_plane_is_split() {
    let mut capture = RenderElementCapture::default();
    capture.push_elements(RenderElementSource::Overlay, vec!["overlay-top", "overlay-bottom", "overlay-left", "overlay-right"]);
    capture.push_elements(RenderElementSource::OverlayRegionDebug, vec!["chrome-top", "chrome-bottom", "chrome-left", "chrome-right"]);
    let debug_count = capture.element_counts().overlay_region_debug;

    let primary = capture.primary_plane_elements();

    assert_eq!(primary.len(), debug_count);
    assert!(debug_count > 0);
}

#[test]
fn primary_plane_elements_keep_lifted_main_overlay_regions() {
    let mut capture = RenderElementCapture::default();
    capture.push_elements(RenderElementSource::Overlay, vec!["dedicated-overlay"; 4]);
    capture.push_elements(RenderElementSource::MainOverlayRegion, vec!["main-overlay"; 4]);
    let lifted_count = capture.element_counts().main_overlay_regions;

    let primary = capture.primary_plane_elements();

    assert_eq!(primary.len(), lifted_count);
    assert!(lifted_count > 0);
}

#[test]
fn primary_plane_elements_filter_dedicated_overlay_by_source_not_position() {
    let mut capture = RenderElementCapture::default();
    capture.push_elements(RenderElementSource::NativePane, vec!["native"; 4]);
    let native_count = capture.element_counts().native_panes;
    capture.push_elements(RenderElementSource::Overlay, vec!["overlay"; 4]);

    let primary = capture.primary_plane_elements();

    assert_eq!(primary.len(), native_count);
    assert!(native_count > 0);
    assert!(primary.iter().all(|element| **element == "native"));
}

#[test]
fn overlay_region_chrome_orders_before_native_pane_content_for_smithay_z_order() {
    let mut capture = RenderElementCapture::default();
    capture.push_elements(RenderElementSource::OverlayRegionDebug, vec!["debug"; 4]);
    capture.push_elements(RenderElementSource::MainOverlayRegion, vec!["chrome"; 4]);
    capture.push_elements(RenderElementSource::NativePane, vec!["native"; 4]);

    let sources = capture.element_sources();
    let first_native = sources
        .iter()
        .position(|source| *source == RenderElementSource::NativePane)
        .expect("native pane source should be recorded");
    let first_debug = sources
        .iter()
        .position(|source| *source == RenderElementSource::OverlayRegionDebug)
        .expect("debug source should be recorded");
    let first_lifted = sources
        .iter()
        .position(|source| *source == RenderElementSource::MainOverlayRegion)
        .expect("lifted source should be recorded");

    assert!(first_debug < first_native);
    assert!(first_lifted < first_native);
}

#[test]
fn empty_pushes_change_nothing() {
    let mut capture: RenderElementCapture<u8> = RenderElementCapture::new();
    capture.push_elements(RenderElementSource::Main, Vec::new());
    assert!(capture.element_sources().is_empty());
    assert_eq!(capture.element_counts().main, 0);
    capture.record_failure("import failed".to_string());
    assert_eq!(capture.failure_reason().map(|s| s.as_str()), Some("import failed"));
}

fn resolve_with_xkb_values(value: &str, exact: u32, case_insensitive: u32, name: &str)
    -> Result<ShellOverlayToggleShortcut, String>
{
    let request = parse_shortcut_setting(value)?;
    resolve_shell_overlay_toggle_shortcut(&request, pick_keysym(exact, case_insensitive), name)
}

// The keysym lookups of xkbcommon (`keysym_from_name`, `keysym_get_name`) for the key
// names these tests use; the test binaries do not link libxkbcommon.
fn keysym_from_name(name: &str, flags: u32) -> u32 {
    match (name, flags) {
        ("grave", _) => KEYSYM_GRAVE,
        ("F12", _) => 0xffc9,
        ("f12", KEYSYM_CASE_INSENSITIVE) => 0xffc9,
        _ => KEYSYM_NO_SYMBOL,
    }
}

fn keysym_get_name(keysym: u32) -> String {
    match keysym {
        KEYSYM_GRAVE => "grave".to_string(),
        0xffc9 => "F12".to_string(),
        _ => String::new(),
    }
}

fn parse_setting(value: &str) -> Result<ShellOverlayToggleShortcut, String> {
    parse_shell_overlay_toggle_shortcut(value, keysym_from_name, keysym_get_name)
}

#[test]
fn shell_overlay_shortcut_parser_normalizes_default_super_grave() {
    let shortcut = parse_setting("super+grave")
        .expect("default shortcut alias should parse");
    assert_eq!(shortcut.display_string(), "Super+`");
}

#[test]
fn shell_overlay_shortcut_parser_rejects_non_super_modifier() {
    let err = parse_setting("ctrl+grave")
        .expect_err("non-super shortcut should be rejected");
    assert!(err.contains("modifier must be Super"));
}

#[test]
fn shell_overlay_shortcut_match_requires_super_and_raw_bound_key() {
    let shortcut = ShellOverlayToggleShortcut {
        normalized: "Super+`".to_string(),
        keysym: KEYSYM_GRAVE,
    };
    let modifiers = ShortcutModifiers {
        logo: true,
        ..ShortcutModifiers::default()
    };
    let key_f12: u32 = 0xffc9;
    assert!(shortcut.matches(&modifiers, &[KEYSYM_GRAVE]));
    assert!(!shortcut.matches(&ShortcutModifiers::default(), &[KEYSYM_GRAVE]));
    assert!(!shortcut.matches(&modifiers, &[key_f12]));
}

#[test]
fn shortcut_parser_accepts_backtick_and_modifier_aliases() {
    let request = parse_shortcut_setting("  WIN + `  ").expect("backtick should parse");
    assert_eq!(request.key_name, "grave");
    assert_eq!(request.raw_key, "`");
    for value in ["Logo+F12", "meta+F12", "Super+F12"] {
        let request = parse_shortcut_setting(value).expect("alias should parse");
        assert_eq!(request.key_name, "F12");
    }
}

#[test]
fn shortcut_parser_rejects_empty_and_malformed_settings() {
    assert_eq!(
        parse_shortcut_setting("   ").unwrap_err(),
        "shortcut must not be empty"
    );
    assert_eq!(
        parse_shortcut_setting(" Super ").unwrap_err(),
        "shortcut must use the form Super+<keysym>; got 'Super'"
    );
    assert_eq!(
        parse_shortcut_setting("Super+Shift+a").unwrap_err(),
        "shortcut must use the form Super+<keysym>; got 'Super+Shift+a'"
    );
    assert_eq!(
        parse_shortcut_setting(" Alt + a").unwrap_err(),
        "shortcut modifier must be Super; got 'Alt'"
    );
}

#[test]
fn shortcut_resolution_prefers_exact_keysym_and_names_unknown_keys() {
    assert_eq!(pick_keysym(0xffc9, 0x61), 0xffc9);
    assert_eq!(pick_keysym(KEYSYM_NO_SYMBOL, 0x61), 0x61);
    let shortcut = resolve_with_xkb_values("Super+f12", KEYSYM_NO_SYMBOL, 0xffc9, "F12").unwrap();
    assert_eq!(shortcut.display_string(), "Super+F12");
    assert_eq!(shortcut.keysym, 0xffc9);
    let err = resolve_with_xkb_values("Super+nope", KEYSYM_NO_SYMBOL, KEYSYM_NO_SYMBOL, "").unwrap_err();
    assert_eq!(err, "unknown shell overlay shortcut key 'nope'");
}

#[test]
fn shortcut_lookup_resolves_aliases_alike_and_rejects_unknown_keys() {
    let grave = parse_setting("super+grave").unwrap();
    assert_eq!(grave, parse_setting("Super+`").unwrap());
    assert_eq!(grave, parse_setting(" WIN + grave ").unwrap());
    assert_eq!(grave, parse_setting("LoGo+\t`").unwrap());
    assert_eq!(grave.keysym, KEYSYM_GRAVE);
    let f12 = parse_setting("Super+f12").unwrap();
    assert_eq!(f12.display_string(), "Super+F12");
    assert_eq!(f12.keysym, 0xffc9);
    assert_eq!(
        parse_setting("Super+nosuchkey").unwrap_err(),
        "unknown shell overlay shortcut key 'nosuchkey'"
    );
    assert_eq!(parse_setting("ctrl+grave").unwrap_err(), "shortcut modifier must be Super; got 'ctrl'");
}

#[test]
fn shortcut_match_rejects_ctrl_or_alt_and_scans_every_raw_sym() {
    let shortcut = ShellOverlayToggleShortcut { normalized: "Super+`".to_string(), keysym: KEYSYM_GRAVE };
    let logo = ShortcutModifiers { logo: true, ctrl: false, alt: false };
    assert!(shortcut.matches(&logo, &[0xffc9, KEYSYM_GRAVE]));
    assert!(!shortcut.matches(&logo, &[]));
    assert!(!shortcut.matches(&ShortcutModifiers { logo: true, ctrl: true, alt: false }, &[KEYSYM_GRAVE]));
    assert!(!shortcut.matches(&ShortcutModifiers { logo: true, ctrl: false, alt: true }, &[KEYSYM_GRAVE]));
}

#[test]
fn quarter_turn_rotation_maps_to_counterclockwise_transform() {
    assert_eq!(transform_from_rotation(OutputRotation::Deg90), OutputTransform::Rotate270);
    assert_eq!(transform_from_rotation(OutputRotation::Deg270), OutputTransform::Rotate90);
    assert_eq!(transform_from_rotation(OutputRotation::Deg0), OutputTransform::Normal);
    assert_eq!(transform_from_rotation(OutputRotation::Deg180), OutputTransform::Rotate180);
}

#[test]
fn production_staged_operation_rejects_surface_tree_material_interleaving() {
    let mut staged = MaterialIdentityGate::default();
    let surface_id: u64 = 0;
    let accepted = AcceptedMaterialIdentity {
        surfaces: vec![AcceptedSurfaceMaterial {
            id: surface_id,
            commit_serial: 7,
            tree_offset_x: 12,
            tree_offset_y: 8,
        }],
        popups: vec![AcceptedPopupMaterial {
            id: surface_id,
            owner_role: RuntimeSurfaceRole::NativePane(PaneId("native".to_string())),
            geometry: LogicalRect { x: 3, y: 4, w: 20, h: 10 },
            surfaces: vec![AcceptedSurfaceMaterial {
                id: 0,
                commit_serial: 11,
                tree_offset_x: 1,
                tree_offset_y: 2,
            }],
        }],
    };

    assert!(staged.accept_or_validate_material_identity(accepted.clone()));
    assert!(staged.accept_or_validate_material_identity(accepted.clone()));

    let mut buffer_commit = accepted.clone();
    buffer_commit.surfaces[0].commit_serial += 1;
    assert!(!staged.accept_or_validate_material_identity(buffer_commit));

    let mut subsurface_move = accepted.clone();
    subsurface_move.surfaces[0].tree_offset_x = 13;
    assert!(!staged.accept_or_validate_material_identity(subsurface_move));

    let mut popup_buffer_commit = accepted.clone();
    popup_buffer_commit.popups[0].surfaces[0].commit_serial += 1;
    assert!(!staged.accept_or_validate_material_identity(popup_buffer_commit));

    let mut popup_subsurface_move = accepted.clone();
    popup_subsurface_move.popups[0].surfaces[0].tree_offset_x = 2;
    assert!(!staged.accept_or_validate_material_identity(popup_subsurface_move));

    let mut popup_move = accepted;
    popup_move.popups[0].geometry.x = 4;
    popup_move.popups[0].geometry.y = 4;
    assert!(!staged.accept_or_validate_material_identity(popup_move));
}

#[test]
fn material_identity_rejects_other_owner_and_membership_changes() {
    let surface = AcceptedSurfaceMaterial { id: 5, commit_serial: 1, tree_offset_x: 0, tree_offset_y: 0 };
    let popup = |owner: RuntimeSurfaceRole| AcceptedPopupMaterial {
        id: 9,
        owner_role: owner,
        geometry: LogicalRect { x: 0, y: 0, w: 4, h: 4 },
        surfaces: vec![],
    };
    let first = AcceptedMaterialIdentity {
        surfaces: vec![surface],
        popups: vec![popup(RuntimeSurfaceRole::NativePane(PaneId("a".to_string())))],
    };
    let mut gate = MaterialIdentityGate::new();
    assert!(gate.accept_or_validate_material_identity(first.clone()));

    let mut other_pane = first.clone();
    other_pane.popups[0] = popup(RuntimeSurfaceRole::NativePane(PaneId("b".to_string())));
    assert!(!gate.accept_or_validate_material_identity(other_pane));

    let mut main_owner = first.clone();
    main_owner.popups[0] = popup(RuntimeSurfaceRole::MainApp);
    assert!(!gate.accept_or_validate_material_identity(main_owner));

    let mut extra_surface = first.clone();
    extra_surface.surfaces.push(surface);
    assert!(!gate.accept_or_validate_material_identity(extra_surface));

    let mut no_popups = first.clone();
    no_popups.popups.clear();
    assert!(!gate.accept_or_validate_material_identity(no_popups));

    assert!(same_material_identity(&first, &first.clone()));
    assert!(gate.accept_or_validate_material_identity(first));
}

#[test]
fn connector_mode_selection_prefers_preferred_then_largest_then_fastest() {
    let mode = |preferred: bool, width: u16, height: u16, vrefresh: u32| ConnectorMode {
        preferred,
        width,
        height,
        vrefresh,
    };
    assert_eq!(select_connector_mode(&[]), None);
    let modes = [
        mode(false, 3840, 2160, 60),
        mode(true, 1920, 1080, 60),
        mode(true, 1920, 1080, 144),
        mode(true, 1280, 720, 240),
    ];
    assert_eq!(select_connector_mode(&modes), Some(mode(true, 1920, 1080, 144)));
    let unpreferred = [mode(false, 1280, 720, 60), mode(false, 2560, 1440, 60), mode(false, 1920, 1080, 120)];
    assert_eq!(select_connector_mode(&unpreferred), Some(mode(false, 2560, 1440, 60)));
    // Equal area and refresh: the wider mode wins.
    let same_area = [mode(false, 1200, 1600, 60), mode(false, 1600, 1200, 60)];
    assert_eq!(select_connector_mode(&same_area), Some(mode(false, 1600, 1200, 60)));
}

#[test]
fn capture_rotation_turns_quarter_turns_back_upright() {
    assert_eq!(capture_pixel_rotation(OutputRotation::Deg0), CapturePixelRotation::Identity);
    assert_eq!(capture_pixel_rotation(OutputRotation::Deg90), CapturePixelRotation::Rotate90Clockwise);
    assert_eq!(capture_pixel_rotation(OutputRotation::Deg180), CapturePixelRotation::Rotate180);
    assert_eq!(
        capture_pixel_rotation(OutputRotation::Deg270),
        CapturePixelRotation::Rotate90Counterclockwise
    );
    assert!(!swaps_axes(OutputRotation::Deg0));
    assert!(swaps_axes(OutputRotation::Deg90));
    assert!(!swaps_axes(OutputRotation::Deg180));
    assert!(swaps_axes(OutputRotation::Deg270));
    for rotation in [OutputRotation::Deg0, OutputRotation::Deg90, OutputRotation::Deg180, OutputRotation::Deg270] {
        assert!(!present_preserves_readback_row_order(rotation));
    }
}

#[test]
fn an_unclassified_runtime_error_is_a_fatal_present_failure() {
    let failure: HostPresentFailure = RuntimeError::Loop("boom".to_string()).into();
    assert!(!failure.is_reclaimable());
    assert!(!failure.is_transaction());
    assert!(matches!(failure.into_error(), RuntimeError::Loop(message) if message == "boom"));
}
