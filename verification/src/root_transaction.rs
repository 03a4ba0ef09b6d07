//! The root geometry transaction of the host loop: one geometry mutation at a time is
//! staged, rides on a page flip, and is activated only when exactly that flip completes;
//! or it is discarded, which restores the committed capture and answers the mutation's
//! requester with the error. The loop performs the actions these steps return (sending
//! responses, finishing or dropping a reclaim, printing the mutation status).
use vstd::prelude::*;
use crate::presentation::{
    PresentationToken, QueuedRuntimeGeometryMutation, RootGeometryFlipBoundary, RuntimeGeometryMutationQueue,
    spec_take_completed,
};
use crate::screen_capture::{ScreenCaptureStore, spec_begin_stage, spec_commit_stage, spec_discard_stage};

verus! {

/// The kind of a root geometry mutation.
#[derive(Clone, Copy, Debug, PartialEq, Eq, Structural)]
pub enum GeometryMutationKind {
    Scale,
    Rotation,
    Mode,
}

/// A staged mutation: its sequence number in the mutation queue and its kind.
#[derive(Clone, Copy, Debug, PartialEq, Eq, Structural)]
pub struct PendingGeometryMutation {
    pub sequence: u64,
    pub kind: GeometryMutationKind,
}

/// What the loop does when a mutation could not be staged: answer a rotation request
/// with the error, drop the reclaim a mode change armed, and report the failure.
#[derive(Clone, Copy, Debug, PartialEq, Eq, Structural)]
pub struct StageFailure {
    pub respond_error: bool,
    pub discard_reclaim: bool,
    pub report: PendingGeometryMutation,
}

/// What the loop does once a staged geometry is activated: the generation that became
/// active (its capture stage is committed), whether the mode change's reclaim is
/// finished, whether a rotation request is answered with success, and which mutation
/// is reported as applied.
#[derive(Clone, Copy, Debug, PartialEq, Eq, Structural)]
pub struct Activation {
    pub generation: u64,
    pub finish_reclaim: bool,
    pub respond_ok: bool,
    pub report: Option<PendingGeometryMutation>,
}

/// What the loop does when a staged geometry is discarded: the generation whose
/// capture stage was dropped, whether a rotation request is answered with the error,
/// whether the mode change's reclaim is dropped, and which mutation is reported failed.
#[derive(Clone, Copy, Debug, PartialEq, Eq, Structural)]
pub struct Discarded {
    pub generation: Option<u64>,
    pub respond_error: bool,
    pub discard_reclaim: bool,
    pub report: Option<PendingGeometryMutation>,
}

/// Whether a staged mutation is of `kind`.
pub open spec fn pending_is(pending: Option<PendingGeometryMutation>, kind: GeometryMutationKind) -> bool {
    pending matches Some(p) && p.kind == kind
}

/// The failure handling of a mutation that could not be staged.
pub fn stage_failure(mutation: PendingGeometryMutation) -> (r: StageFailure)
    ensures
        r.respond_error == (mutation.kind == GeometryMutationKind::Rotation),
        r.discard_reclaim == (mutation.kind == GeometryMutationKind::Mode),
        r.report == mutation,
{
    StageFailure {
        respond_error: match mutation.kind {
            GeometryMutationKind::Rotation => true,
            _ => false,
        },
        discard_reclaim: match mutation.kind {
            GeometryMutationKind::Mode => true,
            _ => false,
        },
        report: mutation,
    }
}

/// The abstract state of a transaction: the staged generation, the flip it rides on,
/// and the mutation that staged it.
pub struct TransactionView {
    pub staged: Option<u64>,
    pub queued: Option<PresentationToken>,
    pub pending: Option<PendingGeometryMutation>,
}

/// The root geometry transaction state of the host loop.
pub struct RootGeometryTransaction {
    staged: Option<u64>,
    boundary: RootGeometryFlipBoundary,
    pending: Option<PendingGeometryMutation>,
}

impl RootGeometryTransaction {
    pub closed spec fn view(&self) -> TransactionView {
        TransactionView { staged: self.staged, queued: self.boundary.queued(), pending: self.pending }
    }

    /// Nothing rides on a flip and no mutation waits without a staged geometry.
    pub open spec fn wf(&self) -> bool {
        self.view().staged is None ==> self.view().queued is None && self.view().pending is None
    }

    /// No geometry staged.
    pub fn new() -> (t: Self)
        ensures
            t.wf(),
            t.view().staged is None,
    {
        RootGeometryTransaction { staged: None, boundary: RootGeometryFlipBoundary::new(), pending: None }
    }

    /// The generation staged, if any.
    pub fn staged_generation(&self) -> (r: Option<u64>)
        ensures
            r == self.view().staged,
    {
        self.staged
    }

    /// The next mutation to stage: none while a geometry is staged (the queue is left as
    /// it is), else the oldest queued mutation.
    pub fn next_mutation<M>(&self, queue: &mut RuntimeGeometryMutationQueue<M>) -> (r: Option<QueuedRuntimeGeometryMutation<M>>)
        ensures
            self.view().staged is Some ==> r is None && final(queue).pending() == old(queue).pending(),
            self.view().staged is None && old(queue).pending().len() == 0 ==> r is None
                && final(queue).pending() == old(queue).pending(),
            self.view().staged is None && old(queue).pending().len() > 0 ==> r == Some(old(queue).pending()[0])
                && final(queue).pending() == old(queue).pending().drop_first(),
            final(queue).last_sequence() == old(queue).last_sequence(),
    {
        if self.staged.is_some() {
            return None;
        }
        queue.pop()
    }

    /// Installs staged geometry `generation` (staged by `mutation`, when a queued
    /// mutation staged it): its capture stage begins.
    pub fn install_stage<S>(
        &mut self,
        store: &mut ScreenCaptureStore<S>,
        generation: u64,
        mutation: Option<PendingGeometryMutation>,
    )
        requires
            old(self).wf(),
            old(self).view().staged is None,
        ensures
            final(self).wf(),
            final(self).view() == (TransactionView { staged: Some(generation), queued: None, pending: mutation }),
            final(store).view() == spec_begin_stage(old(store).view(), generation),
    {
        store.begin_root4_stage(generation);
        self.staged = Some(generation);
        self.pending = mutation;
    }

    /// Records that the presentation `token` was queued: a staged geometry rides on it.
    pub fn presentation_queued(&mut self, token: PresentationToken)
        requires
            old(self).wf(),
        ensures
            final(self).wf(),
            final(self).view() == (if old(self).view().staged is Some {
                TransactionView { queued: Some(token), ..old(self).view() }
            } else {
                old(self).view()
            }),
    {
        if self.staged.is_some() {
            self.boundary.mark_queued(token);
        }
    }

    /// Takes the `completed` page flips. Exactly when the flip the staged geometry rides
    /// on is among them, the geometry is activated: its capture stage is committed, the
    /// transaction is cleared, and the activation says what to do. Else nothing changes.
    pub fn complete_presentations<S>(
        &mut self,
        store: &mut ScreenCaptureStore<S>,
        completed: &[PresentationToken],
    ) -> (r: Option<Activation>)
        requires
            old(self).wf(),
        ensures
            final(self).wf(),
            r is Some <==> spec_take_completed(old(self).view().queued, completed@).0,
            r is None ==> final(self).view() == old(self).view() && final(store).view() == old(store).view(),
            r matches Some(a) ==> {
                &&& old(self).view().staged == Some(a.generation)
                &&& a.finish_reclaim == pending_is(old(self).view().pending, GeometryMutationKind::Mode)
                &&& a.respond_ok == pending_is(old(self).view().pending, GeometryMutationKind::Rotation)
                &&& a.report == old(self).view().pending
                &&& final(self).view() == (TransactionView { staged: None, queued: None, pending: None })
                &&& final(store).view() == spec_commit_stage(old(store).view(), a.generation)
            },
    {
        if !self.boundary.take_completed(completed) {
            return None;
        }
        self.boundary.discard();
        let generation = match self.staged {
            Some(g) => g,
            None => {
                return None;
            },
        };
        store.commit_root4_stage(generation);
        let pending = self.pending;
        self.staged = None;
        self.pending = None;
        let (finish_reclaim, respond_ok) = match pending {
            Some(p) => match p.kind {
                GeometryMutationKind::Mode => (true, false),
                GeometryMutationKind::Rotation => (false, true),
                GeometryMutationKind::Scale => (false, false),
            },
            None => (false, false),
        };
        Some(Activation { generation, finish_reclaim, respond_ok, report: pending })
    }

    /// Discards the staged geometry: its capture stage is dropped (the committed capture
    /// stays), the transaction is cleared, and the result says what to do.
    pub fn discard<S>(&mut self, store: &mut ScreenCaptureStore<S>) -> (r: Discarded)
        requires
            old(self).wf(),
        ensures
            final(self).wf(),
            final(self).view() == (TransactionView { staged: None, queued: None, pending: None }),
            r.generation == old(self).view().staged,
            r.respond_error == pending_is(old(self).view().pending, GeometryMutationKind::Rotation),
            r.discard_reclaim == pending_is(old(self).view().pending, GeometryMutationKind::Mode),
            r.report == old(self).view().pending,
            final(store).view() == (match old(self).view().staged {
                Some(g) => spec_discard_stage(old(store).view(), g),
                None => old(store).view(),
            }),
    {
        self.boundary.discard();
        let generation = self.staged;
        if let Some(g) = generation {
            store.discard_root4_stage(g);
        }
        let pending = self.pending;
        self.staged = None;
        self.pending = None;
        let (discard_reclaim, respond_error) = match pending {
            Some(p) => match p.kind {
                GeometryMutationKind::Mode => (true, false),
                GeometryMutationKind::Rotation => (false, true),
                GeometryMutationKind::Scale => (false, false),
            },
            None => (false, false),
        };
        Discarded { generation, respond_error, discard_reclaim, report: pending }
    }
}

} // verus!
