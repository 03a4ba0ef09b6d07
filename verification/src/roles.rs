//! Which role a new toplevel surface gets (the main app, a native pane, or an overlay
//! candidate), and which part of it is its content. The caller gathers what the client
//! process shows (whether it descends from an expected launch pid, and its launch-token
//! environment variable); this module decides.
use vstd::prelude::*;
use crate::planes::LogicalRect;
use crate::overlay::{overlay_rect_for_output, spec_overlay_rect};
use crate::runtime::{ProcessEnvValue, RuntimeSurfaceRole, process_launch_token_matches};
use crate::screen_capture::PaneId;

verus! {

/// The process the main app is expected to run as.
pub struct MainAppExpectation {
    pub pid: u32,
    pub launch_token: Option<String>,
}

/// A native pane whose client is expected to connect.
pub struct NativePaneExpectation {
    pub pane_id: PaneId,
    pub pid: u32,
    pub launch_token: Option<String>,
}

/// Whether a client carries the expected launch token.
pub open spec fn token_matches(token: Option<String>, env: ProcessEnvValue) -> bool {
    match token {
        Some(t) => env matches ProcessEnvValue::Present(actual) && actual@ == t@,
        None => false,
    }
}

fn token_matches_exec(token: &Option<String>, env: &ProcessEnvValue) -> (r: bool)
    ensures
        r == token_matches(*token, *env),
{
    match token {
        Some(t) => process_launch_token_matches(t.as_str(), env),
        None => false,
    }
}

/// A client belongs to an expected launch when it descends from the expected pid or
/// carries the expected launch token.
pub open spec fn spec_client_matches(descends: bool, token: Option<String>, env: ProcessEnvValue) -> bool {
    descends || token_matches(token, env)
}

/// Whether the main app surface still belongs to the main app the runtime expects:
/// there must be an expectation and a known client, and the client must descend from
/// the expected pid (`descends`) or carry the expected launch token (`env`).
pub fn main_surface_matches_current_contract(
    expectation: Option<&MainAppExpectation>,
    client_known: bool,
    descends: bool,
    env: &ProcessEnvValue,
) -> (r: bool)
    ensures
        r == (match expectation {
            Some(e) => client_known && spec_client_matches(descends, e.launch_token, *env),
            None => false,
        }),
{
    match expectation {
        None => false,
        Some(e) => client_known && (descends || token_matches_exec(&e.launch_token, env)),
    }
}

/// The native pane a client belongs to, among `expectations` (with `descends[i]`
/// whether the client descends from the pid of `expectations[i]`): the first pane whose
/// pid the client descends from, else the first whose launch token the client carries.
pub open spec fn spec_expected_native_pane(
    expectations: Seq<NativePaneExpectation>,
    descends: Seq<bool>,
    env: ProcessEnvValue,
) -> Option<int> {
    if exists|i: int| 0 <= i < expectations.len() && descends[i] {
        Some(choose|i: int| 0 <= i < expectations.len() && descends[i]
            && forall|k: int| 0 <= k < i ==> !descends[k])
    } else if exists|i: int| 0 <= i < expectations.len() && token_matches(expectations[i].launch_token, env) {
        Some(choose|i: int| 0 <= i < expectations.len() && token_matches(expectations[i].launch_token, env)
            && forall|k: int| 0 <= k < i ==> !token_matches(expectations[k].launch_token, env))
    } else {
        None
    }
}

fn first_descendant(descends: &[bool]) -> (r: Option<usize>)
    ensures
        r matches Some(i) ==> i < descends@.len() && descends@[i as int]
            && forall|k: int| 0 <= k < i ==> !descends@[k],
        r is None ==> forall|k: int| 0 <= k < descends@.len() ==> !descends@[k],
{
    let mut i: usize = 0;
    while i < descends.len()
        invariant
            i <= descends@.len(),
            forall|k: int| 0 <= k < i ==> !descends@[k],
        decreases descends@.len() - i,
    {
        if descends[i] {
            return Some(i);
        }
        i = i + 1;
    }
    None
}

fn first_token_match(expectations: &[NativePaneExpectation], env: &ProcessEnvValue) -> (r: Option<usize>)
    ensures
        r matches Some(i) ==> i < expectations@.len() && token_matches(expectations@[i as int].launch_token, *env)
            && forall|k: int| 0 <= k < i ==> !token_matches(expectations@[k].launch_token, *env),
        r is None ==> forall|k: int| 0 <= k < expectations@.len() ==> !token_matches(#[trigger] expectations@[k].launch_token, *env),
{
    let mut i: usize = 0;
    while i < expectations.len()
        invariant
            i <= expectations@.len(),
            forall|k: int| 0 <= k < i ==> !token_matches(#[trigger] expectations@[k].launch_token, *env),
        decreases expectations@.len() - i,
    {
        if token_matches_exec(&expectations[i].launch_token, env) {
            return Some(i);
        }
        i = i + 1;
    }
    None
}

/// Finds the native pane expectation a client belongs to (see
/// `spec_expected_native_pane`) and returns its pane and launch pid.
pub fn expected_native_pane_for_client(
    expectations: &[NativePaneExpectation],
    descends: &[bool],
    env: &ProcessEnvValue,
) -> (r: Option<(PaneId, u32)>)
    requires
        descends@.len() == expectations@.len(),
    ensures
        match spec_expected_native_pane(expectations@, descends@, *env) {
            Some(i) => r == Some((expectations@[i].pane_id, expectations@[i].pid)),
            None => r is None,
        },
{
    match first_descendant(descends) {
        Some(i) => {
            proof {
                let j = choose|j: int| 0 <= j < expectations@.len() && descends@[j]
                    && forall|k: int| 0 <= k < j ==> !descends@[k];
                if j < i {
                    assert(!descends@[j]);
                } else if i < j {
                    assert(!descends@[i as int]);
                }
            }
            return Some((expectations[i].pane_id.clone(), expectations[i].pid));
        },
        None => {},
    }
    proof {
        assert(!(exists|i: int| 0 <= i < expectations@.len() && descends@[i]));
    }
    match first_token_match(expectations, env) {
        Some(i) => {
            proof {
                let j = choose|j: int| 0 <= j < expectations@.len() && token_matches(expectations@[j].launch_token, *env)
                    && forall|k: int| 0 <= k < j ==> !token_matches(expectations@[k].launch_token, *env);
                if j < i {
                    assert(!token_matches(expectations@[j].launch_token, *env));
                } else if i < j {
                    assert(!token_matches(expectations@[i as int].launch_token, *env));
                }
            }
            Some((expectations[i].pane_id.clone(), expectations[i].pid))
        },
        None => None,
    }
}

/// The role a new toplevel is classified into.
pub enum SurfaceClassification {
    MainApp,
    NativePane { pane_id: PaneId, launch_pid: u32 },
    OverlayCandidate,
    /// Neither an app id nor a title is known yet.
    PendingIdentity,
}

/// Classifies a toplevel: the main app when its client matches the main app
/// expectation, else the native pane its client belongs to, else an overlay candidate
/// once it has an app id or a title.
pub fn classify_toplevel(
    main_app_matches: bool,
    native_pane: Option<(PaneId, u32)>,
    has_app_id: bool,
    has_title: bool,
) -> (r: SurfaceClassification)
    ensures
        main_app_matches ==> r is MainApp,
        !main_app_matches ==> (native_pane matches Some((p, l)) ==> r == (SurfaceClassification::NativePane { pane_id: p, launch_pid: l })),
        !main_app_matches && native_pane is None ==> (if has_app_id || has_title { r is OverlayCandidate } else { r is PendingIdentity }),
{
    if main_app_matches {
        return SurfaceClassification::MainApp;
    }
    if let Some((pane_id, launch_pid)) = native_pane {
        return SurfaceClassification::NativePane { pane_id, launch_pid };
    }
    if !has_app_id && !has_title {
        return SurfaceClassification::PendingIdentity;
    }
    SurfaceClassification::OverlayCandidate
}


/// The part of a toplevel's surface tree that is its content: the committed window
/// geometry when it has a positive size, else the bounding box of the tree.
pub fn source_rect_from_bbox_and_geometry(bbox: LogicalRect, geometry: Option<LogicalRect>) -> (r: LogicalRect)
    ensures
        r == (match geometry {
            Some(g) => if g.w > 0 && g.h > 0 { g } else { bbox },
            None => bbox,
        }),
{
    match geometry {
        Some(g) => if g.w > 0 && g.h > 0 { g } else { bbox },
        None => bbox,
    }
}

/// The role that owns a new popup, by the surface its parent is: the main app's, the
/// overlay's, or a native pane's (checked in that order). A popup whose parent is none
/// of these has no owner and is dismissed.
pub fn popup_owner_role(parent_is_main: bool, parent_is_overlay: bool, parent_pane: Option<PaneId>) -> (r: Option<RuntimeSurfaceRole>)
    ensures
        parent_is_main ==> r == Some(RuntimeSurfaceRole::MainApp),
        !parent_is_main && parent_is_overlay ==> r == Some(RuntimeSurfaceRole::OverlayNative),
        !parent_is_main && !parent_is_overlay ==> r == (match parent_pane {
            Some(id) => Some(RuntimeSurfaceRole::NativePane(id)),
            None => None,
        }),
{
    if parent_is_main {
        return Some(RuntimeSurfaceRole::MainApp);
    }
    if parent_is_overlay {
        return Some(RuntimeSurfaceRole::OverlayNative);
    }
    match parent_pane {
        Some(id) => Some(RuntimeSurfaceRole::NativePane(id)),
        None => None,
    }
}

/// The rectangle, in its owner's coordinates, that a popup of `role` is constrained
/// into: the whole output for the main app; the overlay's current size (else the size
/// the overlay is placed with) for the overlay; a native pane's current size (else the
/// size of its pane, else one pixel) for a pane.
pub open spec fn spec_popup_target_rect(
    role: RuntimeSurfaceRole,
    output_w: i32,
    output_h: i32,
    overlay_size: Option<(i32, i32)>,
    pane_size: Option<(i32, i32)>,
    pane_rect_size: Option<(i32, i32)>,
) -> LogicalRect {
    let (w, h) = match role {
        RuntimeSurfaceRole::MainApp => (output_w, output_h),
        RuntimeSurfaceRole::OverlayNative => match overlay_size {
            Some(size) => size,
            None => (spec_overlay_rect(output_w, output_h).w, spec_overlay_rect(output_w, output_h).h),
        },
        RuntimeSurfaceRole::NativePane(_) => match pane_size {
            Some(size) => size,
            None => match pane_rect_size {
                Some(size) => size,
                None => (1i32, 1i32),
            },
        },
    };
    LogicalRect { x: 0, y: 0, w, h }
}

/// The rectangle a popup of `role` is constrained into.
pub fn popup_target_rect(
    role: &RuntimeSurfaceRole,
    output_w: i32,
    output_h: i32,
    overlay_size: Option<(i32, i32)>,
    pane_size: Option<(i32, i32)>,
    pane_rect_size: Option<(i32, i32)>,
) -> (r: LogicalRect)
    requires
        output_w >= i32::MIN + 496,
    ensures
        r == spec_popup_target_rect(*role, output_w, output_h, overlay_size, pane_size, pane_rect_size),
{
    let (w, h) = match role {
        RuntimeSurfaceRole::MainApp => (output_w, output_h),
        RuntimeSurfaceRole::OverlayNative => match overlay_size {
            Some(size) => size,
            None => {
                let placed = overlay_rect_for_output(output_w, output_h);
                (placed.w, placed.h)
            },
        },
        RuntimeSurfaceRole::NativePane(_) => match pane_size {
            Some(size) => size,
            None => match pane_rect_size {
                Some(size) => size,
                None => (1i32, 1i32),
            },
        },
    };
    LogicalRect { x: 0, y: 0, w, h }
}

} // verus!
