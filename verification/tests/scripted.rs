use surf_ace_compositor::scripted::{
    HostRuntimeTestScriptedFailurePhase as Phase, parse_scripted_phase, scripted_hold_millis,
    scripted_phase, scripted_phase_for_attempt, HostStartStep, host_start_step, scripted_running_status,
};
use surf_ace_compositor::runtime::{HostPresentOwnership, RuntimeError};

#[test]
fn scripted_phase_names_are_trimmed_and_exact() {
    assert_eq!(parse_scripted_phase(" starting\n"), Some(Phase::Starting));
    assert_eq!(parse_scripted_phase("preflight_ready"), Some(Phase::PreflightReady));
    assert_eq!(parse_scripted_phase("running"), Some(Phase::Running));
    assert_eq!(parse_scripted_phase("Running"), None);
    assert_eq!(parse_scripted_phase(""), None);
}

#[test]
fn scripted_phase_list_is_indexed_by_attempt_skipping_empty_items() {
    let phases = "starting, ,preflight_ready,, running ,bogus";
    assert_eq!(scripted_phase_for_attempt(phases, 1), Some(Phase::Starting));
    assert_eq!(scripted_phase_for_attempt(phases, 0), Some(Phase::Starting));
    assert_eq!(scripted_phase_for_attempt(phases, 2), Some(Phase::PreflightReady));
    assert_eq!(scripted_phase_for_attempt(phases, 3), Some(Phase::Running));
    assert_eq!(scripted_phase_for_attempt(phases, 4), None);
    assert_eq!(scripted_phase_for_attempt(phases, 5), None);
    assert_eq!(scripted_phase_for_attempt("", 1), None);
}

#[test]
fn scripted_phase_prefers_the_per_attempt_list() {
    assert_eq!(scripted_phase(Some("running"), 1, Some("starting")), Some(Phase::Running));
    assert_eq!(scripted_phase(Some("running"), 2, Some("starting")), None);
    assert_eq!(scripted_phase(None, 2, Some(" starting ")), Some(Phase::Starting));
    assert_eq!(scripted_phase(None, 1, None), None);
}

#[test]
fn scripted_hold_parses_milliseconds_or_defaults_to_zero() {
    assert_eq!(scripted_hold_millis(Some(" 250 ")), 250);
    assert_eq!(scripted_hold_millis(Some("+7")), 7);
    assert_eq!(scripted_hold_millis(Some("18446744073709551615")), u64::MAX);
    assert_eq!(scripted_hold_millis(Some("18446744073709551616")), 0);
    assert_eq!(scripted_hold_millis(Some("-1")), 0);
    assert_eq!(scripted_hold_millis(Some("1.5")), 0);
    assert_eq!(scripted_hold_millis(Some("")), 0);
    assert_eq!(scripted_hold_millis(None), 0);
}

#[test]
fn host_start_step_follows_the_scripted_phase_then_the_forced_failure() {
    assert!(matches!(
        host_start_step(Some(Phase::Starting), true),
        HostStartStep::FailAfterStarting(RuntimeError::HostSession(m)) if m == "scripted host runtime failure after starting"
    ));
    assert!(matches!(
        host_start_step(Some(Phase::PreflightReady), false),
        HostStartStep::FailAfterPreflightReady {
            preflight_socket,
            error: RuntimeError::HostOutputClaim { path, error },
        } if preflight_socket == "wayland-test-preflight"
            && path == "<test-scripted-host-runtime>"
            && error == "scripted host runtime failure after preflight_ready"
    ));
    assert!(matches!(host_start_step(Some(Phase::Running), true), HostStartStep::ScriptedRunning));
    assert!(matches!(
        host_start_step(None, true),
        HostStartStep::ForcedFailure(RuntimeError::HostSession(m)) if m == "forced host runtime failure"
    ));
    assert!(matches!(host_start_step(None, false), HostStartStep::Proceed));
}

#[test]
fn scripted_running_status_reports_the_test_connector() {
    let status = scripted_running_status();
    assert_eq!(status.wayland_socket, "wayland-test-running");
    assert_eq!((status.seat_name.as_str(), status.drm_path.as_str()), ("seat-test", "/dev/dri/card-test"));
    assert_eq!((status.connector_name.as_str(), status.connector_id), ("TEST-1", 7));
    assert_eq!((status.width, status.height, status.detected_count, status.opened_count), (1280, 800, 1, 1));
    assert_eq!(status.ownership, HostPresentOwnership::Dumb);
    assert!(!status.atomic_enabled && !status.overlay_capable);
}
