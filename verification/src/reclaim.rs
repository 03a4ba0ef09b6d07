//! The ownership ledger of host output claims across a reclaim: which output is
//! claimed, which replacement is prepared, which old claim is retired while the
//! replacement waits for its first presentation, and which presentation pipeline each
//! opened device holds. Pipelines are named by id; the caller owns the pipelines
//! themselves and destroys the ones the ledger hands back.
use vstd::prelude::*;
use std::collections::HashMap;

verus! {

broadcast use vstd::std_specs::hash::group_hash_axioms;

/// A presentation pipeline, by id, and whether its first commit must be a modeset.
#[derive(Clone, Copy, Debug, PartialEq, Eq, Structural)]
pub struct PipelineRef {
    pub id: u64,
    pub pending_atomic_modeset: bool,
}

/// The pipelines an opened device holds: the one presenting for the claimed output and
/// the one prepared for a reclaim.
#[derive(Clone, Copy, Debug, PartialEq, Eq, Structural)]
pub struct DevicePipelines {
    pub claimed: Option<PipelineRef>,
    pub prepared: Option<PipelineRef>,
}

/// An output claim: the device it is on and the output's description.
pub struct OutputClaim<O> {
    pub device_id: u64,
    pub output: O,
}

/// A claim set aside while its replacement waits to be activated.
pub struct RetiredClaim<O> {
    pub claim: OutputClaim<O>,
    pub pipeline: PipelineRef,
}

/// Why a prepared reclaim could not be armed.
#[derive(Clone, Copy, Debug, PartialEq, Eq, Structural)]
pub enum ReclaimError {
    /// No reclaim was prepared.
    NoPreparedReclaim,
    /// The prepared output's device is no longer open.
    PreparedDeviceGone,
    /// The prepared output's device no longer holds the prepared pipeline.
    PreparedPipelineGone,
}

/// The ledger as a value.
pub struct LedgerView<O> {
    pub devices: Map<u64, DevicePipelines>,
    pub claimed: Option<(u64, O)>,
    pub retired: Option<((u64, O), PipelineRef)>,
    pub prepared: Option<(u64, O)>,
}

pub open spec fn claim_view<O>(c: Option<OutputClaim<O>>) -> Option<(u64, O)> {
    match c {
        Some(c) => Some((c.device_id, c.output)),
        None => None,
    }
}

/// The claim bookkeeping of the host backend.
pub struct ReclaimLedger<O> {
    devices: HashMap<u64, DevicePipelines>,
    claimed_output: Option<OutputClaim<O>>,
    retired_claim: Option<RetiredClaim<O>>,
    prepared_reclaim_output: Option<OutputClaim<O>>,
}

/// The device map with the pipelines of `d` replaced (when `d` is open).
pub open spec fn with_pipelines(devices: Map<u64, DevicePipelines>, d: u64, p: DevicePipelines) -> Map<u64, DevicePipelines> {
    if devices.contains_key(d) { devices.insert(d, p) } else { devices }
}

/// The claimed pipeline of an open device.
pub open spec fn claimed_on(devices: Map<u64, DevicePipelines>, d: u64) -> Option<PipelineRef> {
    if devices.contains_key(d) { devices[d].claimed } else { None }
}

/// The prepared pipeline of an open device.
pub open spec fn prepared_on(devices: Map<u64, DevicePipelines>, d: u64) -> Option<PipelineRef> {
    if devices.contains_key(d) { devices[d].prepared } else { None }
}

/// Opening device `d`: an empty pipeline slot, unless it is open already.
pub open spec fn spec_open_device<O>(v: LedgerView<O>, d: u64) -> LedgerView<O> {
    if v.devices.contains_key(d) {
        v
    } else {
        LedgerView { devices: v.devices.insert(d, DevicePipelines { claimed: None, prepared: None }), ..v }
    }
}

/// Installing a pipeline on open device `d` (as its prepared pipeline when `deferred`),
/// with the pipeline it replaces.
pub open spec fn spec_install_pipeline<O>(v: LedgerView<O>, d: u64, pipeline: PipelineRef, deferred: bool)
    -> (Option<PipelineRef>, LedgerView<O>)
{
    if !v.devices.contains_key(d) {
        (None, v)
    } else {
        let s = v.devices[d];
        if deferred {
            (s.prepared, LedgerView { devices: v.devices.insert(d, DevicePipelines { prepared: Some(pipeline), ..s }), ..v })
        } else {
            (s.claimed, LedgerView { devices: v.devices.insert(d, DevicePipelines { claimed: Some(pipeline), ..s }), ..v })
        }
    }
}

/// Taking the prepared pipeline off device `d`.
pub open spec fn spec_take_prepared_pipeline<O>(v: LedgerView<O>, d: u64) -> (Option<PipelineRef>, LedgerView<O>) {
    (prepared_on(v.devices, d), LedgerView {
        devices: with_pipelines(v.devices, d, DevicePipelines { prepared: None, ..v.devices[d] }),
        ..v
    })
}

/// Recording a claim as claimed, or as prepared when `deferred`.
pub open spec fn spec_record_claim<O>(v: LedgerView<O>, claim: Option<(u64, O)>, deferred: bool) -> LedgerView<O> {
    if deferred { LedgerView { prepared: claim, ..v } } else { LedgerView { claimed: claim, ..v } }
}

/// Clearing the pending modeset of device `d`'s claimed pipeline.
pub open spec fn spec_mark_modeset_committed<O>(v: LedgerView<O>, d: u64) -> LedgerView<O> {
    match claimed_on(v.devices, d) {
        Some(p) => LedgerView {
            devices: v.devices.insert(d, DevicePipelines {
                claimed: Some(PipelineRef { pending_atomic_modeset: false, ..p }),
                ..v.devices[d]
            }),
            ..v
        },
        None => v,
    }
}

/// Losing the claim: the claimed output and its device's claimed pipeline become the
/// retired claim (no retired claim when the device holds no pipeline).
pub open spec fn spec_mark_claim_lost<O>(v: LedgerView<O>) -> LedgerView<O> {
    match v.claimed {
        None => v,
        Some((d, o)) => {
            let pipeline = claimed_on(v.devices, d);
            LedgerView {
                devices: with_pipelines(v.devices, d, DevicePipelines { claimed: None, ..v.devices[d] }),
                claimed: None,
                retired: match pipeline {
                    Some(p) => Some(((d, o), p)),
                    None => None,
                },
                prepared: v.prepared,
            }
        },
    }
}

/// Arming the prepared reclaim: the prepared output becomes the claimed output and its
/// device's prepared pipeline becomes the device's claimed pipeline.
pub open spec fn spec_arm_prepared_reclaim<O>(v: LedgerView<O>) -> (Result<(), ReclaimError>, LedgerView<O>) {
    match v.prepared {
        None => (Err(ReclaimError::NoPreparedReclaim), v),
        Some((d, o)) => {
            let taken = LedgerView { prepared: None, ..v };
            if !v.devices.contains_key(d) {
                (Err(ReclaimError::PreparedDeviceGone), taken)
            } else {
                match v.devices[d].prepared {
                    None => (Err(ReclaimError::PreparedPipelineGone), taken),
                    Some(p) => (Ok(()), LedgerView {
                        devices: v.devices.insert(d, DevicePipelines { claimed: Some(p), prepared: None }),
                        claimed: Some((d, o)),
                        ..taken
                    }),
                }
            }
        },
    }
}

/// Puts the retired claim back as the claimed one.
pub open spec fn restore_retired<O>(v: LedgerView<O>) -> LedgerView<O> {
    match v.retired {
        None => v,
        Some(((rd, ro), rp)) => LedgerView {
            devices: with_pipelines(v.devices, rd, DevicePipelines { claimed: Some(rp), ..v.devices[rd] }),
            claimed: Some((rd, ro)),
            retired: None,
            prepared: v.prepared,
        },
    }
}

/// Abandoning a reclaim that was not activated: a still-prepared reclaim is dropped
/// (its pipeline destroyed); else a claimed output whose pipeline still waits for its
/// modeset is rolled back (its pipeline destroyed) to the retired claim; a claimed
/// output already committed stays. The destroyed pipelines come with their devices.
pub open spec fn spec_discard_unactivated_reclaim<O>(v: LedgerView<O>) -> (Seq<(u64, PipelineRef)>, LedgerView<O>) {
    match v.prepared {
        Some((d, _)) => {
            let taken = LedgerView { prepared: None, ..v };
            match prepared_on(v.devices, d) {
                Some(p) => (seq![(d, p)], LedgerView {
                    devices: v.devices.insert(d, DevicePipelines { prepared: None, ..v.devices[d] }),
                    ..taken
                }),
                None => (Seq::empty(), taken),
            }
        },
        None => match v.claimed {
            None => (Seq::empty(), v),
            Some((fd, fo)) => {
                let taken = LedgerView { claimed: None, ..v };
                if !v.devices.contains_key(fd) {
                    (Seq::empty(), restore_retired(taken))
                } else {
                    match v.devices[fd].claimed {
                        Some(p) => if p.pending_atomic_modeset {
                            (seq![(fd, p)], restore_retired(LedgerView {
                                devices: v.devices.insert(fd, DevicePipelines { claimed: None, ..v.devices[fd] }),
                                ..taken
                            }))
                        } else {
                            (Seq::empty(), v)
                        },
                        None => (Seq::empty(), v),
                    }
                }
            },
        },
    }
}

/// Completing a reclaim: the retired claim is dropped and its pipeline destroyed (when
/// its device is still open).
pub open spec fn spec_finish_reclaim_activation<O>(v: LedgerView<O>) -> (Seq<(u64, PipelineRef)>, LedgerView<O>) {
    match v.retired {
        None => (Seq::empty(), v),
        Some(((rd, _), rp)) => (
            if v.devices.contains_key(rd) { seq![(rd, rp)] } else { Seq::empty() },
            LedgerView { retired: None, ..v },
        ),
    }
}

/// Closing a device: claims on it are dropped and its pipelines (claimed, prepared,
/// then a retired one on it) destroyed.
pub open spec fn spec_close_device<O>(v: LedgerView<O>, d: u64) -> (Seq<PipelineRef>, LedgerView<O>) {
    let claimed = match v.claimed {
        Some((cd, co)) => if cd == d { None } else { v.claimed },
        None => None,
    };
    let prepared = match v.prepared {
        Some((pd, po)) => if pd == d { None } else { v.prepared },
        None => None,
    };
    let (retired, retired_pipeline) = match v.retired {
        Some(((rd, ro), rp)) => if rd == d { (None, Some(rp)) } else { (v.retired, None) },
        None => (None, None),
    };
    let after = LedgerView { devices: v.devices.remove(d), claimed, retired, prepared };
    if !v.devices.contains_key(d) {
        (Seq::empty(), after)
    } else {
        (opt_seq(v.devices[d].claimed) + opt_seq(v.devices[d].prepared) + opt_seq(retired_pipeline), after)
    }
}

pub open spec fn opt_seq(p: Option<PipelineRef>) -> Seq<PipelineRef> {
    match p {
        Some(p) => seq![p],
        None => Seq::empty(),
    }
}

fn opt_vec(out: &mut Vec<PipelineRef>, p: Option<PipelineRef>)
    ensures
        final(out)@ == old(out)@ + opt_seq(p),
{
    if let Some(p) = p {
        out.push(p);
    }
    assert(out@ =~= old(out)@ + opt_seq(p));
}

impl<O> ReclaimLedger<O> {
    /// The ledger as a value.
    pub closed spec fn view(&self) -> LedgerView<O> {
        LedgerView {
            devices: self.devices@,
            claimed: claim_view(self.claimed_output),
            retired: match self.retired_claim {
                Some(r) => Some(((r.claim.device_id, r.claim.output), r.pipeline)),
                None => None,
            },
            prepared: claim_view(self.prepared_reclaim_output),
        }
    }

    /// A ledger with no open device and no claim.
    pub fn new() -> (l: Self)
        ensures
            l.view().devices == Map::<u64, DevicePipelines>::empty(),
            l.view().claimed is None,
            l.view().retired is None,
            l.view().prepared is None,
    {
        ReclaimLedger {
            devices: HashMap::new(),
            claimed_output: None,
            retired_claim: None,
            prepared_reclaim_output: None,
        }
    }

    /// Records that device `d` was opened, holding no pipeline (a device already open
    /// keeps its pipelines).
    pub fn open_device(&mut self, d: u64)
        ensures
            final(self).view() == spec_open_device(old(self).view(), d),
    {
        if !self.devices.contains_key(&d) {
            self.devices.insert(d, DevicePipelines { claimed: None, prepared: None });
        }
    }

    /// The pipelines of device `d`, when it is open.
    pub fn device_pipelines(&self, d: u64) -> (r: Option<DevicePipelines>)
        ensures
            r == (if self.view().devices.contains_key(d) { Some(self.view().devices[d]) } else { None }),
    {
        match self.devices.get(&d) {
            Some(p) => Some(*p),
            None => None,
        }
    }

    /// The claimed output, if any.
    pub fn claimed_output(&self) -> (r: Option<&OutputClaim<O>>)
        ensures
            claim_view(match r { Some(c) => Some(*c), None => None }) == self.view().claimed,
    {
        self.claimed_output.as_ref()
    }

    /// The prepared reclaim output, if any.
    pub fn prepared_reclaim_output(&self) -> (r: Option<&OutputClaim<O>>)
        ensures
            claim_view(match r { Some(c) => Some(*c), None => None }) == self.view().prepared,
    {
        self.prepared_reclaim_output.as_ref()
    }

    /// Whether a retired claim waits for the reclaim to complete.
    pub fn has_retired_claim(&self) -> (r: bool)
        ensures
            r == self.view().retired is Some,
    {
        self.retired_claim.is_some()
    }

    /// Installs a freshly claimed pipeline on open device `d`: as its claimed pipeline,
    /// or as its prepared one when activation is deferred to a reclaim. Returns the
    /// pipeline it replaces. Nothing changes when `d` is not open.
    pub fn install_pipeline(&mut self, d: u64, pipeline: PipelineRef, deferred: bool) -> (replaced: Option<PipelineRef>)
        ensures
            (replaced, final(self).view()) == spec_install_pipeline(old(self).view(), d, pipeline, deferred),
    {
        match self.devices.get(&d) {
            None => None,
            Some(s) => {
                let s = *s;
                if deferred {
                    self.devices.insert(d, DevicePipelines { prepared: Some(pipeline), ..s });
                    s.prepared
                } else {
                    self.devices.insert(d, DevicePipelines { claimed: Some(pipeline), ..s });
                    s.claimed
                }
            },
        }
    }

    /// Takes the prepared pipeline off device `d` (to destroy it when a deferred claim
    /// fails before it is recorded).
    pub fn take_prepared_pipeline(&mut self, d: u64) -> (r: Option<PipelineRef>)
        ensures
            (r, final(self).view()) == spec_take_prepared_pipeline(old(self).view(), d),
    {
        match self.devices.get(&d) {
            None => None,
            Some(s) => {
                let s = *s;
                self.devices.insert(d, DevicePipelines { prepared: None, ..s });
                s.prepared
            },
        }
    }

    /// Records the output of a successful claim: claimed now, or prepared when its
    /// activation is deferred to a reclaim.
    pub fn record_claim(&mut self, claim: OutputClaim<O>, deferred: bool)
        ensures
            final(self).view() == spec_record_claim(old(self).view(), claim_view(Some(claim)), deferred),
    {
        if deferred {
            self.prepared_reclaim_output = Some(claim);
        } else {
            self.claimed_output = Some(claim);
        }
    }

    /// Records that the claimed pipeline of device `d` committed its modeset.
    pub fn mark_modeset_committed(&mut self, d: u64)
        ensures
            final(self).view() == spec_mark_modeset_committed(old(self).view(), d),
    {
        match self.devices.get(&d) {
            None => {},
            Some(s) => {
                let s = *s;
                match s.claimed {
                    Some(p) => {
                        self.devices.insert(d, DevicePipelines {
                            claimed: Some(PipelineRef { pending_atomic_modeset: false, ..p }),
                            ..s
                        });
                    },
                    None => {},
                }
            },
        }
    }

    /// The claim was lost: the claimed output and its pipeline are retired.
    pub fn mark_claim_lost(&mut self)
        ensures
            final(self).view() == spec_mark_claim_lost(old(self).view()),
    {
        let output = match self.claimed_output.take() {
            Some(o) => o,
            None => {
                return;
            },
        };
        let pipeline = match self.devices.get(&output.device_id) {
            Some(s) => {
                let s = *s;
                self.devices.insert(output.device_id, DevicePipelines { claimed: None, ..s });
                s.claimed
            },
            None => None,
        };
        self.retired_claim = match pipeline {
            Some(p) => Some(RetiredClaim { claim: output, pipeline: p }),
            None => None,
        };
    }

    /// Makes the prepared reclaim the claimed output, ready for its first presentation.
    pub fn arm_prepared_reclaim_for_presentation(&mut self) -> (r: Result<(), ReclaimError>)
        ensures
            (r, final(self).view()) == spec_arm_prepared_reclaim(old(self).view()),
    {
        let prepared = match self.prepared_reclaim_output.take() {
            Some(p) => p,
            None => {
                return Err(ReclaimError::NoPreparedReclaim);
            },
        };
        let s = match self.devices.get(&prepared.device_id) {
            Some(s) => *s,
            None => {
                return Err(ReclaimError::PreparedDeviceGone);
            },
        };
        let pipeline = match s.prepared {
            Some(p) => p,
            None => {
                return Err(ReclaimError::PreparedPipelineGone);
            },
        };
        self.devices.insert(prepared.device_id, DevicePipelines { claimed: Some(pipeline), prepared: None });
        self.claimed_output = Some(prepared);
        Ok(())
    }

    fn restore_retired_claim(&mut self)
        ensures
            final(self).view() == restore_retired(old(self).view()),
    {
        match self.retired_claim.take() {
            None => {},
            Some(retired) => {
                let d = retired.claim.device_id;
                match self.devices.get(&d) {
                    Some(s) => {
                        let s = *s;
                        self.devices.insert(d, DevicePipelines { claimed: Some(retired.pipeline), ..s });
                    },
                    None => {},
                }
                self.claimed_output = Some(retired.claim);
            },
        }
    }

    /// Abandons a reclaim that was not activated (see `spec_discard_unactivated_reclaim`)
    /// and returns the pipelines to destroy, with their devices.
    pub fn discard_unactivated_reclaim(&mut self) -> (destroy: Vec<(u64, PipelineRef)>)
        ensures
            (destroy@, final(self).view()) == spec_discard_unactivated_reclaim(old(self).view()),
    {
        let mut destroy: Vec<(u64, PipelineRef)> = Vec::new();
        if let Some(prepared) = self.prepared_reclaim_output.take() {
            let d = prepared.device_id;
            match self.devices.get(&d) {
                Some(s) => {
                    let s = *s;
                    if let Some(p) = s.prepared {
                        self.devices.insert(d, DevicePipelines { prepared: None, ..s });
                        destroy.push((d, p));
                    }
                },
                None => {},
            }
            return destroy;
        }
        let failed = match self.claimed_output.take() {
            Some(f) => f,
            None => {
                return destroy;
            },
        };
        let fd = failed.device_id;
        let s = match self.devices.get(&fd) {
            Some(s) => *s,
            None => {
                self.restore_retired_claim();
                return destroy;
            },
        };
        match s.claimed {
            Some(p) => {
                if p.pending_atomic_modeset {
                    self.devices.insert(fd, DevicePipelines { claimed: None, ..s });
                    destroy.push((fd, p));
                    self.restore_retired_claim();
                } else {
                    self.claimed_output = Some(failed);
                }
            },
            None => {
                self.claimed_output = Some(failed);
            },
        }
        destroy
    }

    /// Completes a reclaim: drops the retired claim and returns its pipeline to destroy
    /// (none when its device is gone).
    pub fn finish_reclaim_activation(&mut self) -> (destroy: Vec<(u64, PipelineRef)>)
        ensures
            (destroy@, final(self).view()) == spec_finish_reclaim_activation(old(self).view()),
    {
        let mut destroy: Vec<(u64, PipelineRef)> = Vec::new();
        match self.retired_claim.take() {
            None => {},
            Some(retired) => {
                if self.devices.contains_key(&retired.claim.device_id) {
                    destroy.push((retired.claim.device_id, retired.pipeline));
                }
            },
        }
        destroy
    }

    /// Forgets device `d`: drops the claims on it and returns its pipelines to destroy.
    pub fn close_device(&mut self, d: u64) -> (destroy: Vec<PipelineRef>)
        ensures
            (destroy@, final(self).view()) == spec_close_device(old(self).view(), d),
            !final(self).view().devices.contains_key(d),
            final(self).view().claimed matches Some((cd, _)) ==> cd != d,
            final(self).view().prepared matches Some((pd, _)) ==> pd != d,
            final(self).view().retired matches Some(((rd, _), _)) ==> rd != d,
            old(self).view().retired matches Some(((rd, _), rp)) ==> (old(self).view().devices.contains_key(d) && rd == d
                ==> destroy@.contains(rp)),
    {
        proof {
            lemma_close_device_forgets_device(old(self).view(), d);
        }
        let claimed_here = match &self.claimed_output {
            Some(c) => c.device_id == d,
            None => false,
        };
        if claimed_here {
            self.claimed_output = None;
        }
        let prepared_here = match &self.prepared_reclaim_output {
            Some(c) => c.device_id == d,
            None => false,
        };
        if prepared_here {
            self.prepared_reclaim_output = None;
        }
        let retired_here = match &self.retired_claim {
            Some(r) => r.claim.device_id == d,
            None => false,
        };
        let retired_pipeline = if retired_here {
            match self.retired_claim.take() {
                Some(r) => Some(r.pipeline),
                None => None,
            }
        } else {
            None
        };
        let mut destroy: Vec<PipelineRef> = Vec::new();
        match self.devices.remove(&d) {
            None => {},
            Some(s) => {
                opt_vec(&mut destroy, s.claimed);
                opt_vec(&mut destroy, s.prepared);
                opt_vec(&mut destroy, retired_pipeline);
            },
        }
        destroy
    }
}

/// The pipeline of the retired claim, when that claim is on device `d`.
pub open spec fn retired_pipeline_on<O>(v: LedgerView<O>, d: u64) -> Option<PipelineRef> {
    match v.retired {
        Some(((rd, _), p)) => if rd == d { Some(p) } else { None },
        None => None,
    }
}

/// Closing device `d` forgets it entirely: the device is gone, no claim (claimed,
/// prepared or retired) refers to it any more while claims on other devices stay, and
/// every pipeline the ledger held on it, a retired claim's included, is handed back to
/// be destroyed, and nothing else is (nothing at all when `d` was not open).
pub proof fn lemma_close_device_forgets_device<O>(v: LedgerView<O>, d: u64)
    ensures
        ({
            let (destroy, after) = spec_close_device(v, d);
            &&& !after.devices.contains_key(d)
            &&& forall|e: u64| e != d ==> (after.devices.contains_key(e) == v.devices.contains_key(e))
                && (v.devices.contains_key(e) ==> after.devices[e] == v.devices[e])
            &&& (after.claimed matches Some((cd, _)) ==> cd != d)
            &&& (after.prepared matches Some((pd, _)) ==> pd != d)
            &&& (after.retired matches Some(((rd, _), _)) ==> rd != d)
            &&& (v.claimed matches Some((cd, _)) ==> (cd != d ==> after.claimed == v.claimed))
            &&& (v.prepared matches Some((pd, _)) ==> (pd != d ==> after.prepared == v.prepared))
            &&& (v.retired matches Some(((rd, _), _)) ==> (rd != d ==> after.retired == v.retired))
            &&& (v.devices.contains_key(d) && v.devices[d].claimed is Some ==> destroy.contains(v.devices[d].claimed->0))
            &&& (v.devices.contains_key(d) && v.devices[d].prepared is Some ==> destroy.contains(v.devices[d].prepared->0))
            &&& (v.retired matches Some(((rd, _), rp)) ==> (v.devices.contains_key(d) && rd == d
                ==> destroy.contains(rp)))
            &&& (!v.devices.contains_key(d) ==> destroy.len() == 0)
            &&& forall|i: int| 0 <= i < destroy.len() ==> {
                ||| v.devices[d].claimed == Some(#[trigger] destroy[i])
                ||| v.devices[d].prepared == Some(destroy[i])
                ||| retired_pipeline_on(v, d) == Some(destroy[i])
            }
        }),
{
    let (destroy, after) = spec_close_device(v, d);
    if v.devices.contains_key(d) {
        let a = opt_seq(v.devices[d].claimed);
        let b = opt_seq(v.devices[d].prepared);
        let rp = retired_pipeline_on(v, d);
        let c = opt_seq(rp);
        assert(destroy == a + b + c);
        if v.devices[d].claimed is Some {
            assert((a + b + c)[0] == v.devices[d].claimed->0);
        }
        if v.devices[d].prepared is Some {
            assert((a + b + c)[a.len() as int] == v.devices[d].prepared->0);
        }
        if rp is Some {
            assert((a + b + c)[(a.len() + b.len()) as int] == rp->0);
        }
        assert forall|i: int| 0 <= i < destroy.len() implies {
            ||| v.devices[d].claimed == Some(#[trigger] destroy[i])
            ||| v.devices[d].prepared == Some(destroy[i])
            ||| retired_pipeline_on(v, d) == Some(destroy[i])
        } by {
            if i < a.len() {
                assert(destroy[i] == a[i]);
            } else if i < a.len() + b.len() {
                assert(destroy[i] == b[i - a.len()]);
            } else {
                assert(destroy[i] == c[i - a.len() - b.len()]);
            }
        }
    }
}

/// A reclaim that fails before its first presentation restores the claim it replaced:
/// starting from a claimed output whose device holds its pipeline, losing the claim,
/// preparing a replacement on device `r` (same or another device), arming it and then
/// discarding it leaves the old output claimed with its old pipeline, nothing retired,
/// and destroys exactly the replacement's pipeline.
pub proof fn lemma_failed_reclaim_restores_retired_claim<O>(
    v: LedgerView<O>,
    old_device: u64,
    old_output: O,
    old_pipeline: PipelineRef,
    r: u64,
    new_output: O,
    new_pipeline: PipelineRef,
)
    requires
        v.claimed == Some((old_device, old_output)),
        v.devices.contains_key(old_device),
        v.devices[old_device].claimed == Some(old_pipeline),
        v.prepared is None,
        v.devices.contains_key(r),
        new_pipeline.pending_atomic_modeset,
    ensures
        ({
            let lost = spec_mark_claim_lost(v);
            let prepared = LedgerView {
                devices: lost.devices.insert(r, DevicePipelines { prepared: Some(new_pipeline), ..lost.devices[r] }),
                prepared: Some((r, new_output)),
                ..lost
            };
            let (armed_ok, armed) = spec_arm_prepared_reclaim(prepared);
            let (destroyed, after) = spec_discard_unactivated_reclaim(armed);
            &&& armed_ok is Ok
            &&& armed.claimed == Some((r, new_output))
            &&& after.claimed == Some((old_device, old_output))
            &&& after.devices[old_device].claimed == Some(old_pipeline)
            &&& after.retired is None
            &&& after.prepared is None
            &&& destroyed == seq![(r, new_pipeline)]
            &&& r != old_device ==> after.devices[r].claimed is None
        }),
{
}

/// A reclaim that completes retires the old resources: losing the claim, preparing a
/// replacement on device `r`, arming it and finishing the activation leaves the
/// replacement claimed with its pipeline, nothing retired, and destroys exactly the
/// old pipeline, which no device holds any more.
pub proof fn lemma_completed_reclaim_retires_old_claim<O>(
    v: LedgerView<O>,
    old_device: u64,
    old_output: O,
    old_pipeline: PipelineRef,
    r: u64,
    new_output: O,
    new_pipeline: PipelineRef,
)
    requires
        v.claimed == Some((old_device, old_output)),
        v.devices.contains_key(old_device),
        v.devices[old_device].claimed == Some(old_pipeline),
        v.prepared is None,
        v.devices.contains_key(r),
    ensures
        ({
            let lost = spec_mark_claim_lost(v);
            let prepared = LedgerView {
                devices: lost.devices.insert(r, DevicePipelines { prepared: Some(new_pipeline), ..lost.devices[r] }),
                prepared: Some((r, new_output)),
                ..lost
            };
            let (armed_ok, armed) = spec_arm_prepared_reclaim(prepared);
            let (destroyed, after) = spec_finish_reclaim_activation(armed);
            &&& armed_ok is Ok
            &&& after.claimed == Some((r, new_output))
            &&& after.devices[r].claimed == Some(new_pipeline)
            &&& after.retired is None
            &&& destroyed == seq![(old_device, old_pipeline)]
            &&& r != old_device ==> after.devices[old_device].claimed is None
        }),
{
}

} // verus!
