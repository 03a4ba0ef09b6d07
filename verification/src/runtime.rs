//! Runtime decisions that do not touch a device: runtime errors and presentation failure
//! classes, the runtime selection report, focus targets for surface roles, launch-token
//! evidence, and the present capabilities reported for the claimed output.
use vstd::prelude::*;
use crate::planes::{ScanoutFormat, overlay_scanout_format_supports_alpha};
use crate::rotation::{OutputRotation, direct_present_supported_for_rotation, spec_direct_present_supported};
use crate::screen_capture::PaneId;

verus! {

/// Why the compositor runtime stopped or could not start.
#[derive(Debug)]
pub enum RuntimeError {
    EventLoop(String),
    WinitInit(String),
    HostSession(String),
    HostUdev(String),
    HostNoDrmDevices(String),
    HostNoDrmDeviceOpened(String),
    HostDeviceOpen { path: String, error: String },
    HostDeviceClose { path: String, error: String },
    HostOutputInspect { path: String, error: String },
    HostOutputClaim { path: String, error: String },
    HostNoConnectedOutputRoute,
    WaylandDisplay(String),
    WaylandSocket(String),
    RegisterSource(String),
    Loop(String),
}

/// How a failed presentation is to be handled.
#[derive(Clone, Copy, Debug, PartialEq, Eq, Structural)]
pub enum HostPresentFailureClass {
    /// The output can be reclaimed and presentation retried.
    Reclaimable,
    /// Only the current root geometry transaction failed.
    Transaction,
    /// The runtime cannot go on.
    Fatal,
}

/// A failed presentation: its class and the error behind it.
pub struct HostPresentFailure {
    class: HostPresentFailureClass,
    error: RuntimeError,
}

impl HostPresentFailure {
    /// The class of the failure.
    pub closed spec fn class(&self) -> HostPresentFailureClass {
        self.class
    }

    /// The error behind the failure.
    pub closed spec fn error(&self) -> RuntimeError {
        self.error
    }

    pub fn reclaimable(error: RuntimeError) -> (f: Self)
        ensures
            f.class() == HostPresentFailureClass::Reclaimable,
            f.error() == error,
    {
        HostPresentFailure { class: HostPresentFailureClass::Reclaimable, error }
    }

    pub fn fatal(error: RuntimeError) -> (f: Self)
        ensures
            f.class() == HostPresentFailureClass::Fatal,
            f.error() == error,
    {
        HostPresentFailure { class: HostPresentFailureClass::Fatal, error }
    }

    pub fn transaction(error: RuntimeError) -> (f: Self)
        ensures
            f.class() == HostPresentFailureClass::Transaction,
            f.error() == error,
    {
        HostPresentFailure { class: HostPresentFailureClass::Transaction, error }
    }

    pub fn is_reclaimable(&self) -> (r: bool)
        ensures
            r == (self.class() == HostPresentFailureClass::Reclaimable),
    {
        match self.class {
            HostPresentFailureClass::Reclaimable => true,
            _ => false,
        }
    }

    pub fn is_transaction(&self) -> (r: bool)
        ensures
            r == (self.class() == HostPresentFailureClass::Transaction),
    {
        match self.class {
            HostPresentFailureClass::Transaction => true,
            _ => false,
        }
    }

    pub fn error_ref(&self) -> (r: &RuntimeError)
        ensures
            *r == self.error(),
    {
        &self.error
    }

    pub fn into_error(self) -> (r: RuntimeError)
        ensures
            r == self.error(),
    {
        self.error
    }
}

impl From<RuntimeError> for HostPresentFailure {
    /// An error that is not classified otherwise is fatal.
    fn from(error: RuntimeError) -> (f: Self)
        ensures
            f.class() == HostPresentFailureClass::Fatal,
            f.error() == error,
    {
        Self::fatal(error)
    }
}

impl vstd::std_specs::convert::FromSpecImpl<RuntimeError> for HostPresentFailure {
    open spec fn obeys_from_spec() -> bool {
        true
    }

    closed spec fn from_spec(v: RuntimeError) -> Self {
        HostPresentFailure { class: HostPresentFailureClass::Fatal, error: v }
    }
}

/// How the runtime backend was chosen.
#[derive(Clone, Copy, Debug, PartialEq, Eq, Structural)]
pub enum RuntimeSelectionMode {
    Automatic,
    Forced,
    FallbackAfterFailure,
}

/// How the runtime backend was chosen, and whether the operator has to act.
#[derive(Debug)]
pub struct RuntimeSelectionReport {
    pub mode: RuntimeSelectionMode,
    pub operator_action_needed: bool,
    pub operator_action_reason: Option<String>,
}

impl RuntimeSelectionReport {
    /// The backend was selected automatically; nothing for the operator to do.
    pub fn automatic() -> (r: Self)
        ensures
            r.mode == RuntimeSelectionMode::Automatic,
            !r.operator_action_needed,
            r.operator_action_reason is None,
    {
        RuntimeSelectionReport {
            mode: RuntimeSelectionMode::Automatic,
            operator_action_needed: false,
            operator_action_reason: None,
        }
    }

    /// The backend was forced by configuration; nothing for the operator to do.
    pub fn forced() -> (r: Self)
        ensures
            r.mode == RuntimeSelectionMode::Forced,
            !r.operator_action_needed,
            r.operator_action_reason is None,
    {
        RuntimeSelectionReport {
            mode: RuntimeSelectionMode::Forced,
            operator_action_needed: false,
            operator_action_reason: None,
        }
    }

    /// The runtime fell back after a failure; the operator must act, for `reason`.
    pub fn fallback(reason: String) -> (r: Self)
        ensures
            r.mode == RuntimeSelectionMode::FallbackAfterFailure,
            r.operator_action_needed,
            r.operator_action_reason == Some(reason),
    {
        RuntimeSelectionReport {
            mode: RuntimeSelectionMode::FallbackAfterFailure,
            operator_action_needed: true,
            operator_action_reason: Some(reason),
        }
    }
}

/// Options of the host (DRM) runtime: a DRM device path and an output name to force.
#[derive(Debug)]
pub struct HostRuntimeOptions {
    pub forced_drm_path: Option<String>,
    pub forced_output_name: Option<String>,
}

impl HostRuntimeOptions {
    /// No device or output forced.
    pub fn new() -> (o: Self)
        ensures
            o.forced_drm_path is None,
            o.forced_output_name is None,
    {
        HostRuntimeOptions { forced_drm_path: None, forced_output_name: None }
    }
}

/// The role a toplevel surface plays in the compositor.
#[derive(Debug)]
pub enum RuntimeSurfaceRole {
    MainApp,
    OverlayNative,
    NativePane(PaneId),
}

impl Clone for RuntimeSurfaceRole {
    fn clone(&self) -> (r: Self)
        ensures
            r == *self,
    {
        match self {
            RuntimeSurfaceRole::MainApp => RuntimeSurfaceRole::MainApp,
            RuntimeSurfaceRole::OverlayNative => RuntimeSurfaceRole::OverlayNative,
            RuntimeSurfaceRole::NativePane(pane) => RuntimeSurfaceRole::NativePane(pane.clone()),
        }
    }
}

/// Where keyboard focus is routed.
pub enum RuntimeFocusTarget {
    MainApp,
    OverlayNative,
    NativePane { pane_id: PaneId },
}

/// The focus target that a surface of `role` receives.
pub fn runtime_focus_target_for_role(role: RuntimeSurfaceRole) -> (t: RuntimeFocusTarget)
    ensures
        role is MainApp ==> t is MainApp,
        role is OverlayNative ==> t is OverlayNative,
        role matches RuntimeSurfaceRole::NativePane(id) ==> t == (RuntimeFocusTarget::NativePane { pane_id: id }),
{
    match role {
        RuntimeSurfaceRole::MainApp => RuntimeFocusTarget::MainApp,
        RuntimeSurfaceRole::OverlayNative => RuntimeFocusTarget::OverlayNative,
        RuntimeSurfaceRole::NativePane(pane_id) => RuntimeFocusTarget::NativePane { pane_id },
    }
}

/// What the launch-token variable of a process's environment held.
pub enum ProcessEnvValue {
    /// The variable is set to this value.
    Present(String),
    /// The environment was read and the variable is not set.
    Absent,
    /// The environment could not be read.
    Unreadable,
}

/// How a client's launch token relates to the token it was expected to carry.
#[derive(Clone, Copy, Debug, PartialEq, Eq, Structural)]
pub enum LaunchTokenEvidence {
    Matched,
    Mismatched,
    Missing,
    Unavailable,
}

/// The evidence that a process's launch token gives, when a token is expected.
pub open spec fn spec_launch_token_evidence(expected: Option<Seq<char>>, env: ProcessEnvValue) -> Option<LaunchTokenEvidence> {
    match expected {
        None => None,
        Some(token) => Some(match env {
            ProcessEnvValue::Present(actual) => if actual@ == token {
                LaunchTokenEvidence::Matched
            } else {
                LaunchTokenEvidence::Mismatched
            },
            ProcessEnvValue::Absent => LaunchTokenEvidence::Missing,
            ProcessEnvValue::Unreadable => LaunchTokenEvidence::Unavailable,
        }),
    }
}

/// Whether the process's launch token is exactly `expected_token`.
pub fn process_launch_token_matches(expected_token: &str, env_value: &ProcessEnvValue) -> (r: bool)
    ensures
        r == (env_value matches ProcessEnvValue::Present(actual) && actual@ == expected_token@),
{
    match env_value {
        ProcessEnvValue::Present(actual) => {
            let expected = String::from_str(expected_token);
            *actual == expected
        },
        _ => false,
    }
}

/// The launch-token evidence of a process, or none when no token is expected.
pub fn launch_token_evidence_for_pid(expected_token: Option<&str>, env_value: &ProcessEnvValue) -> (r: Option<LaunchTokenEvidence>)
    ensures
        r == spec_launch_token_evidence(
            match expected_token {
                Some(t) => Some(t@),
                None => None,
            },
            *env_value,
        ),
{
    match expected_token {
        None => None,
        Some(token) => Some(match env_value {
            ProcessEnvValue::Present(actual) => {
                let expected = String::from_str(token);
                if *actual == expected {
                    LaunchTokenEvidence::Matched
                } else {
                    LaunchTokenEvidence::Mismatched
                }
            },
            ProcessEnvValue::Absent => LaunchTokenEvidence::Missing,
            ProcessEnvValue::Unreadable => LaunchTokenEvidence::Unavailable,
        }),
    }
}


/// How the claimed output was first presented to.
#[derive(Clone, Copy, Debug, PartialEq, Eq, Structural)]
pub enum StartupPresentOwnership {
    DirectGbm,
    Dumb,
}

/// How the runtime presents to the host output, as reported in its status.
#[derive(Clone, Copy, Debug, PartialEq, Eq, Structural)]
pub enum HostPresentOwnership {
    /// No output is claimed.
    Unowned,
    DirectGbm,
    Dumb,
}

/// What the present capabilities read of an atomic commit pipeline.
#[derive(Clone, Copy, Debug, PartialEq, Eq, Structural)]
pub struct AtomicPresentState {
    pub overlay_scanout_format: Option<ScanoutFormat>,
    pub overlay_alpha_blending_supported: bool,
}

/// The present capabilities of a claimed output: its ownership, whether atomic commits
/// are enabled, and whether an overlay plane can carry alpha (an ARGB overlay format
/// with alpha-safe blending).
pub open spec fn spec_present_capabilities(
    startup: StartupPresentOwnership,
    atomic: Option<AtomicPresentState>,
) -> (HostPresentOwnership, bool, bool) {
    let ownership = match startup {
        StartupPresentOwnership::DirectGbm => HostPresentOwnership::DirectGbm,
        StartupPresentOwnership::Dumb => HostPresentOwnership::Dumb,
    };
    let overlay_capable = match atomic {
        Some(a) => a.overlay_scanout_format == Some(ScanoutFormat::Argb8888) && a.overlay_alpha_blending_supported,
        None => false,
    };
    (ownership, atomic is Some, overlay_capable)
}

/// The present capabilities of the claimed output's pipeline.
pub fn present_capabilities_for(startup: StartupPresentOwnership, atomic: Option<AtomicPresentState>) -> (r: (HostPresentOwnership, bool, bool))
    ensures
        r == spec_present_capabilities(startup, atomic),
{
    let ownership = match startup {
        StartupPresentOwnership::DirectGbm => HostPresentOwnership::DirectGbm,
        StartupPresentOwnership::Dumb => HostPresentOwnership::Dumb,
    };
    let overlay_capable = match atomic {
        Some(a) => {
            let alpha_format = match a.overlay_scanout_format {
                Some(f) => overlay_scanout_format_supports_alpha(f),
                None => false,
            };
            alpha_format && a.overlay_alpha_blending_supported
        },
        None => false,
    };
    (ownership, atomic.is_some(), overlay_capable)
}

/// The present capabilities reported in the runtime status: those of the claimed output
/// (none, without atomic commits or an overlay, when no output is claimed), with direct
/// presentation falling back to dumb buffers under a rotation it does not support.
pub fn runtime_host_present_capabilities_for_status(
    claimed: Option<(HostPresentOwnership, bool, bool)>,
    rotation: OutputRotation,
) -> (r: (HostPresentOwnership, bool, bool))
    ensures
        ({
            let (o, a, v) = match claimed {
                Some(c) => c,
                None => (HostPresentOwnership::Unowned, false, false),
            };
            r == (if o == HostPresentOwnership::DirectGbm && !spec_direct_present_supported(rotation) {
                (HostPresentOwnership::Dumb, a, v)
            } else {
                (o, a, v)
            })
        }),
{
    let (ownership, atomic_enabled, overlay_capable) = match claimed {
        Some(c) => c,
        None => (HostPresentOwnership::Unowned, false, false),
    };
    if ownership == HostPresentOwnership::DirectGbm && !direct_present_supported_for_rotation(rotation) {
        (HostPresentOwnership::Dumb, atomic_enabled, overlay_capable)
    } else {
        (ownership, atomic_enabled, overlay_capable)
    }
}


/// Why the host runtime cannot start on its seat: no DRM device was detected, or none
/// of those detected could be opened.
pub fn host_preflight_error(detected_count: usize, opened_count: usize, seat_name: String) -> (r: Option<RuntimeError>)
    ensures
        detected_count == 0 ==> r == Some(RuntimeError::HostNoDrmDevices(seat_name)),
        detected_count != 0 && opened_count == 0 ==> r == Some(RuntimeError::HostNoDrmDeviceOpened(seat_name)),
        detected_count != 0 && opened_count != 0 ==> r is None,
{
    if detected_count == 0 {
        Some(RuntimeError::HostNoDrmDevices(seat_name))
    } else if opened_count == 0 {
        Some(RuntimeError::HostNoDrmDeviceOpened(seat_name))
    } else {
        None
    }
}

/// The output size and root geometry generation the Wayland state starts with.
#[derive(Clone, Copy, Debug, PartialEq, Eq, Structural)]
pub struct InitialOutputState {
    pub width: i32,
    pub height: i32,
    pub root_geometry_generation: u64,
}

/// The initial output state from the window size in the status (1280 x 800 when
/// unset, at least one pixel each way) and the generation of the initial root
/// geometry (zero without one); none when host mode is active without a root
/// geometry, a start that is refused.
pub fn initial_output_state(
    window_width: Option<i32>,
    window_height: Option<i32>,
    host_mode_active: bool,
    root_geometry_generation: Option<u64>,
) -> (r: Option<InitialOutputState>)
    ensures
        r is None <==> host_mode_active && root_geometry_generation is None,
        r matches Some(s) ==> {
            &&& s.width == (match window_width {
                Some(w) => if w > 1 { w } else { 1 },
                None => 1280,
            })
            &&& s.height == (match window_height {
                Some(h) => if h > 1 { h } else { 1 },
                None => 800,
            })
            &&& s.root_geometry_generation == (match root_geometry_generation {
                Some(g) => g,
                None => 0,
            })
        },
{
    if host_mode_active && root_geometry_generation.is_none() {
        return None;
    }
    let width = match window_width {
        Some(w) => if w > 1 { w } else { 1 },
        None => 1280,
    };
    let height = match window_height {
        Some(h) => if h > 1 { h } else { 1 },
        None => 800,
    };
    let generation = match root_geometry_generation {
        Some(g) => g,
        None => 0,
    };
    Some(InitialOutputState { width, height, root_geometry_generation: generation })
}

} // verus!
