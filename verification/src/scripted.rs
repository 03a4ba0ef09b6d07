//! Scripted host runtime phases for integration tests: the environment names the phase
//! at which a test run of the host runtime stops (by attempt, or one for all attempts)
//! and how long it holds there. The caller reads the variables; this module parses them.
use vstd::prelude::*;
use crate::procfs::{all_ascii_digits, decimal_value, lemma_decimal_value_grows, lemma_decimal_value_step};
use crate::shortcut::{chars_of, seq_eq_str, trim, trim_bounds};
use crate::runtime::{HostPresentOwnership, RuntimeError};

verus! {

/// The phase at which a scripted host runtime run stops.
#[derive(Clone, Copy, Debug, PartialEq, Eq, Structural)]
pub enum HostRuntimeTestScriptedFailurePhase {
    Starting,
    PreflightReady,
    Running,
}

/// The phase a (trimmed) name stands for.
pub open spec fn spec_phase_named(name: Seq<char>) -> Option<HostRuntimeTestScriptedFailurePhase> {
    if name == "starting"@ {
        Some(HostRuntimeTestScriptedFailurePhase::Starting)
    } else if name == "preflight_ready"@ {
        Some(HostRuntimeTestScriptedFailurePhase::PreflightReady)
    } else if name == "running"@ {
        Some(HostRuntimeTestScriptedFailurePhase::Running)
    } else {
        None
    }
}

fn phase_named(c: &[char], lo: usize, hi: usize) -> (r: Option<HostRuntimeTestScriptedFailurePhase>)
    requires
        lo <= hi <= c@.len(),
    ensures
        r == spec_phase_named(c@.subrange(lo as int, hi as int)),
{
    if seq_eq_str(c, lo, hi, "starting") {
        Some(HostRuntimeTestScriptedFailurePhase::Starting)
    } else if seq_eq_str(c, lo, hi, "preflight_ready") {
        Some(HostRuntimeTestScriptedFailurePhase::PreflightReady)
    } else if seq_eq_str(c, lo, hi, "running") {
        Some(HostRuntimeTestScriptedFailurePhase::Running)
    } else {
        None
    }
}

/// The phase that a single-phase variable names (surrounding whitespace ignored).
pub fn parse_scripted_phase(value: &str) -> (r: Option<HostRuntimeTestScriptedFailurePhase>)
    ensures
        r == spec_phase_named(trim(value@)),
{
    let c = chars_of(value);
    let n = c.len();
    let (lo, hi) = trim_bounds(c.as_slice(), 0, n);
    proof {
        assert(c@.subrange(0, n as int) =~= value@);
    }
    phase_named(c.as_slice(), lo, hi)
}

/// The `k`-th non-empty item (after trimming) of the comma-separated list `s`, scanning
/// at `i` within the item that starts at `start`.
pub open spec fn nth_list_item(s: Seq<char>, start: int, i: int, k: nat) -> Option<Seq<char>>
    decreases s.len() - i,
{
    if i < start || start < 0 {
        None
    } else if i >= s.len() {
        let t = trim(s.subrange(start, s.len() as int));
        if t.len() > 0 && k == 0 { Some(t) } else { None }
    } else if s[i] == ',' {
        let t = trim(s.subrange(start, i));
        if t.len() > 0 {
            if k == 0 { Some(t) } else { nth_list_item(s, i + 1, i + 1, (k - 1) as nat) }
        } else {
            nth_list_item(s, i + 1, i + 1, k)
        }
    } else {
        nth_list_item(s, start, i + 1, k)
    }
}

/// The phase a scripted run stops at on its `attempt`-th start (counting from one; a
/// zero count reads as the first), from the comma-separated per-attempt list `phases`:
/// none when the list has no such item or the item names no phase.
pub open spec fn spec_phase_for_attempt(phases: Seq<char>, attempt: u64) -> Option<HostRuntimeTestScriptedFailurePhase> {
    let index: nat = if attempt == 0 { 0 } else { (attempt - 1) as nat };
    match nth_list_item(phases, 0, 0, index) {
        Some(item) => spec_phase_named(item),
        None => None,
    }
}

/// The phase for the `attempt`-th start from a per-attempt phase list.
pub fn scripted_phase_for_attempt(phases: &str, attempt: u64) -> (r: Option<HostRuntimeTestScriptedFailurePhase>)
    ensures
        r == spec_phase_for_attempt(phases@, attempt),
{
    let c = chars_of(phases);
    let n = c.len();
    let mut k: u64 = if attempt == 0 { 0 } else { attempt - 1 };
    let mut start: usize = 0;
    let mut i: usize = 0;
    while i < n
        invariant
            n == c@.len(),
            c@ == phases@,
            start <= i <= n,
            nth_list_item(c@, start as int, i as int, k as nat)
                == nth_list_item(c@, 0, 0, (if attempt == 0 { 0 } else { (attempt - 1) as nat })),
        decreases n - i,
    {
        if c[i] == ',' {
            let (lo, hi) = trim_bounds(c.as_slice(), start, i);
            if lo < hi {
                if k == 0 {
                    let phase = phase_named(c.as_slice(), lo, hi);
                    return phase;
                }
                k = k - 1;
            }
            start = i + 1;
        }
        i = i + 1;
    }
    let (lo, hi) = trim_bounds(c.as_slice(), start, n);
    if lo < hi && k == 0 {
        phase_named(c.as_slice(), lo, hi)
    } else {
        None
    }
}

/// The phase a scripted run stops at: from the per-attempt list when it is set, else
/// from the single-phase variable (`failure_phase`), when set.
pub fn scripted_phase(phases: Option<&str>, attempt: u64, failure_phase: Option<&str>) -> (r: Option<HostRuntimeTestScriptedFailurePhase>)
    ensures
        r == (match phases {
            Some(p) => spec_phase_for_attempt(p@, attempt),
            None => match failure_phase {
                Some(v) => spec_phase_named(trim(v@)),
                None => None,
            },
        }),
{
    match phases {
        Some(p) => scripted_phase_for_attempt(p, attempt),
        None => match failure_phase {
            Some(v) => parse_scripted_phase(v),
            None => None,
        },
    }
}

/// What `u64::from_str` accepts: an optional `+`, then one or more ASCII digits whose
/// value fits in `u64`.
pub open spec fn spec_parse_u64(t: Seq<char>) -> Option<u64> {
    let d = if t.len() > 0 && t[0] == '+' { t.subrange(1, t.len() as int) } else { t };
    if d.len() > 0 && all_ascii_digits(d) && decimal_value(d) <= u64::MAX {
        Some(decimal_value(d) as u64)
    } else {
        None
    }
}

/// How long a scripted run holds at its phase, in milliseconds: the variable's value
/// (surrounding whitespace ignored) when it parses as a `u64`, else zero.
pub fn scripted_hold_millis(value: Option<&str>) -> (r: u64)
    ensures
        r == (match value {
            Some(v) => match spec_parse_u64(trim(v@)) {
                Some(ms) => ms,
                None => 0,
            },
            None => 0,
        }),
{
    let v = match value {
        Some(v) => v,
        None => {
            return 0;
        },
    };
    let c = chars_of(v);
    let n = c.len();
    let (lo, hi) = trim_bounds(c.as_slice(), 0, n);
    proof {
        assert(c@.subrange(0, n as int) =~= v@);
    }
    let ghost t = c@.subrange(lo as int, hi as int);
    assert(t == trim(v@));
    let start = if lo < hi && c[lo] == '+' { lo + 1 } else { lo };
    let ghost d = c@.subrange(start as int, hi as int);
    assert(d =~= (if t.len() > 0 && t[0] == '+' { t.subrange(1, t.len() as int) } else { t }));
    if start == hi {
        return 0;
    }
    let mut acc: u64 = 0;
    let mut i = start;
    while i < hi
        invariant
            value == Some(v),
            t == trim(v@),
            lo <= start < hi <= c@.len(),
            start <= i <= hi,
            t == c@.subrange(lo as int, hi as int),
            d == c@.subrange(start as int, hi as int),
            d == (if t.len() > 0 && t[0] == '+' { t.subrange(1, t.len() as int) } else { t }),
            all_ascii_digits(d.subrange(0, (i - start) as int)),
            acc == decimal_value(d.subrange(0, (i - start) as int)),
        decreases hi - i,
    {
        let ch = c[i];
        if !('0' <= ch && ch <= '9') {
            assert(d[(i - start) as int] == ch);
            return 0;
        }
        let digit = (ch as u32 - '0' as u32) as u64;
        proof {
            lemma_decimal_value_step(d, (i - start) as int);
        }
        assert(d.subrange(0, (i - start) as int + 1).drop_last() =~= d.subrange(0, (i - start) as int));
        assert(all_ascii_digits(d.subrange(0, (i - start) as int + 1)));
        let next = match acc.checked_mul(10) {
            Some(m) => m.checked_add(digit),
            None => None,
        };
        match next {
            None => {
                proof {
                    if all_ascii_digits(d) {
                        lemma_decimal_value_grows(d, (i - start) as int + 1, d.len() as int);
                        assert(d.subrange(0, d.len() as int) =~= d);
                    }
                }
                return 0;
            },
            Some(x) => {
                acc = x;
            },
        }
        i = i + 1;
    }
    assert(d.subrange(0, d.len() as int) =~= d);
    acc
}

/// What the host runtime does right after it is marked starting.
#[derive(Debug)]
pub enum HostStartStep {
    /// A scripted run stops here with this error.
    FailAfterStarting(RuntimeError),
    /// A scripted run marks preflight ready on `preflight_socket`, then stops with `error`.
    FailAfterPreflightReady { preflight_socket: String, error: RuntimeError },
    /// A scripted run publishes `scripted_running_status` and ends successfully.
    ScriptedRunning,
    /// The forced-failure variable is set: the run stops with this error before touching
    /// any device.
    ForcedFailure(RuntimeError),
    /// The host runtime starts for real.
    Proceed,
}

/// The first step of a host runtime run: the scripted phase (if any) decides first,
/// then the forced-failure variable (`force_fail`: whether it is set).
pub fn host_start_step(phase: Option<HostRuntimeTestScriptedFailurePhase>, force_fail: bool) -> (r: HostStartStep)
    ensures
        phase == Some(HostRuntimeTestScriptedFailurePhase::Starting) ==> (r matches HostStartStep::FailAfterStarting(
            RuntimeError::HostSession(m),
        ) && m@ == "scripted host runtime failure after starting"@),
        phase == Some(HostRuntimeTestScriptedFailurePhase::PreflightReady) ==> (r matches HostStartStep::FailAfterPreflightReady {
            preflight_socket,
            error: RuntimeError::HostOutputClaim { path, error },
        } && preflight_socket@ == "wayland-test-preflight"@ && path@ == "<test-scripted-host-runtime>"@
            && error@ == "scripted host runtime failure after preflight_ready"@),
        phase == Some(HostRuntimeTestScriptedFailurePhase::Running) ==> r is ScriptedRunning,
        phase is None && force_fail ==> (r matches HostStartStep::ForcedFailure(RuntimeError::HostSession(m))
            && m@ == "forced host runtime failure"@),
        phase is None && !force_fail ==> r is Proceed,
{
    match phase {
        Some(HostRuntimeTestScriptedFailurePhase::Starting) => HostStartStep::FailAfterStarting(
            RuntimeError::HostSession(String::from_str("scripted host runtime failure after starting")),
        ),
        Some(HostRuntimeTestScriptedFailurePhase::PreflightReady) => HostStartStep::FailAfterPreflightReady {
            preflight_socket: String::from_str("wayland-test-preflight"),
            error: RuntimeError::HostOutputClaim {
                path: String::from_str("<test-scripted-host-runtime>"),
                error: String::from_str("scripted host runtime failure after preflight_ready"),
            },
        },
        Some(HostRuntimeTestScriptedFailurePhase::Running) => HostStartStep::ScriptedRunning,
        None => if force_fail {
            HostStartStep::ForcedFailure(RuntimeError::HostSession(String::from_str("forced host runtime failure")))
        } else {
            HostStartStep::Proceed
        },
    }
}

/// The status a scripted running host runtime publishes: one seat with one opened test
/// device, and a test connector presented through dumb buffers.
pub struct ScriptedRunningStatus {
    pub wayland_socket: String,
    pub seat_name: String,
    pub drm_path: String,
    pub connector_name: String,
    pub connector_id: u32,
    pub width: i32,
    pub height: i32,
    pub detected_count: usize,
    pub opened_count: usize,
    pub selection_attempt: String,
    pub selection_result: String,
    pub ownership: HostPresentOwnership,
    pub atomic_enabled: bool,
    pub overlay_capable: bool,
}

/// The scripted running status.
pub fn scripted_running_status() -> (r: ScriptedRunningStatus)
    ensures
        r.wayland_socket@ == "wayland-test-running"@,
        r.seat_name@ == "seat-test"@,
        r.drm_path@ == "/dev/dri/card-test"@,
        r.connector_name@ == "TEST-1"@,
        r.connector_id == 7,
        r.width == 1280 && r.height == 800,
        r.detected_count == 1 && r.opened_count == 1,
        r.selection_attempt@ == "scripted host runtime selected test connector"@,
        r.selection_result@ == "scripted host runtime claimed output ownership"@,
        r.ownership == HostPresentOwnership::Dumb,
        !r.atomic_enabled && !r.overlay_capable,
{
    ScriptedRunningStatus {
        wayland_socket: String::from_str("wayland-test-running"),
        seat_name: String::from_str("seat-test"),
        drm_path: String::from_str("/dev/dri/card-test"),
        connector_name: String::from_str("TEST-1"),
        connector_id: 7,
        width: 1280,
        height: 800,
        detected_count: 1,
        opened_count: 1,
        selection_attempt: String::from_str("scripted host runtime selected test connector"),
        selection_result: String::from_str("scripted host runtime claimed output ownership"),
        ownership: HostPresentOwnership::Dumb,
        atomic_enabled: false,
        overlay_capable: false,
    }
}

} // verus!
