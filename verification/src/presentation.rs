//! Host presentation bookkeeping: the flip boundary that gates root geometry activation
//! on an exact page-flip completion, the FIFO of geometry mutations, and the surface
//! material identity that one staged presentation accepts.
use vstd::prelude::*;
use std::collections::VecDeque;
use crate::planes::LogicalRect;
use crate::runtime::RuntimeSurfaceRole;

verus! {

/// Identifies one queued page flip.
#[derive(Clone, Copy, Debug, PartialEq, Eq, Structural)]
pub struct PresentationToken(pub u64);

/// Whether `completed` releases the flip boundary `queued`, and what stays queued.
pub open spec fn spec_take_completed(
    queued: Option<PresentationToken>,
    completed: Seq<PresentationToken>,
) -> (bool, Option<PresentationToken>) {
    match queued {
        Some(q) => if completed.contains(q) { (true, None) } else { (false, queued) },
        None => (false, None),
    }
}

/// The page flip that carries a staged root geometry, if one is queued.
pub struct RootGeometryFlipBoundary {
    queued: Option<PresentationToken>,
}

impl RootGeometryFlipBoundary {
    /// The flip queued for the staged geometry, if any.
    pub closed spec fn queued(&self) -> Option<PresentationToken> {
        self.queued
    }

    /// A boundary with no queued flip.
    pub fn new() -> (b: Self)
        ensures
            b.queued() is None,
    {
        RootGeometryFlipBoundary { queued: None }
    }

    /// Records that the staged geometry rides on the flip `token`.
    pub fn mark_queued(&mut self, token: PresentationToken)
        ensures
            final(self).queued() == Some(token),
    {
        self.queued = Some(token);
    }

    /// Whether the queued flip is among the `completed` flips; if so the boundary is
    /// released (and reports its completion only once).
    pub fn take_completed(&mut self, completed: &[PresentationToken]) -> (r: bool)
        ensures
            (r, final(self).queued()) == spec_take_completed(old(self).queued(), completed@),
    {
        match self.queued {
            None => false,
            Some(queued) => {
                let mut i: usize = 0;
                let mut found = false;
                while i < completed.len()
                    invariant
                        i <= completed@.len(),
                        found == (exists|j: int| 0 <= j < i && completed@[j] == queued),
                    decreases completed@.len() - i,
                {
                    if completed[i] == queued {
                        found = true;
                    }
                    i = i + 1;
                }
                proof {
                    if found {
                        let j = choose|j: int| 0 <= j < completed@.len() && completed@[j] == queued;
                        assert(completed@[j] == queued);
                    }
                }
                if found {
                    self.queued = None;
                }
                found
            },
        }
    }

    /// Forgets the queued flip.
    pub fn discard(&mut self)
        ensures
            final(self).queued() is None,
    {
        self.queued = None;
    }
}

impl Default for RootGeometryFlipBoundary {
    fn default() -> (b: Self)
        ensures
            b.queued() is None,
    {
        Self::new()
    }
}

/// A geometry mutation waiting in the queue, with its sequence number.
pub struct QueuedRuntimeGeometryMutation<M> {
    pub sequence: u64,
    pub mutation: M,
}

/// A FIFO of root geometry mutations. Each push is numbered one past the previous
/// push (saturating at `u64::MAX`).
pub struct RuntimeGeometryMutationQueue<M> {
    next_sequence: u64,
    pending: VecDeque<QueuedRuntimeGeometryMutation<M>>,
}

impl<M> RuntimeGeometryMutationQueue<M> {
    /// The sequence number of the latest push (zero before any push).
    pub closed spec fn last_sequence(&self) -> u64 {
        self.next_sequence
    }

    /// The queued mutations, oldest first.
    pub closed spec fn pending(&self) -> Seq<QueuedRuntimeGeometryMutation<M>> {
        self.pending@
    }

    /// An empty queue.
    pub fn new() -> (q: Self)
        ensures
            q.last_sequence() == 0,
            q.pending() == Seq::<QueuedRuntimeGeometryMutation<M>>::empty(),
    {
        RuntimeGeometryMutationQueue { next_sequence: 0, pending: VecDeque::new() }
    }

    /// Appends `mutation` and returns its sequence number.
    pub fn push(&mut self, mutation: M) -> (sequence: u64)
        ensures
            sequence == (if old(self).last_sequence() < u64::MAX { old(self).last_sequence() + 1 } else { u64::MAX as int }),
            final(self).last_sequence() == sequence,
            final(self).pending() == old(self).pending().push(
                QueuedRuntimeGeometryMutation { sequence, mutation },
            ),
    {
        self.next_sequence = self.next_sequence.saturating_add(1);
        let sequence = self.next_sequence;
        self.pending.push_back(QueuedRuntimeGeometryMutation { sequence, mutation });
        sequence
    }

    /// Removes and returns the oldest queued mutation.
    pub fn pop(&mut self) -> (r: Option<QueuedRuntimeGeometryMutation<M>>)
        ensures
            old(self).pending().len() == 0 ==> r is None && final(self).pending() == old(self).pending(),
            old(self).pending().len() > 0 ==> r == Some(old(self).pending()[0])
                && final(self).pending() == old(self).pending().drop_first(),
            final(self).last_sequence() == old(self).last_sequence(),
    {
        self.pending.pop_front()
    }
}

impl<M> Default for RuntimeGeometryMutationQueue<M> {
    fn default() -> (q: Self)
        ensures
            q.last_sequence() == 0,
            q.pending() == Seq::<QueuedRuntimeGeometryMutation<M>>::empty(),
    {
        Self::new()
    }
}


/// One surface of an accepted surface tree: its protocol object id, the serial of its
/// latest buffer commit and its offset in the tree.
#[derive(Clone, Copy, Debug, PartialEq, Eq, Structural)]
pub struct AcceptedSurfaceMaterial {
    pub id: u64,
    pub commit_serial: u64,
    pub tree_offset_x: i32,
    pub tree_offset_y: i32,
}

/// One popup of an accepted surface tree: its id, the role of its owner, its geometry
/// and the surfaces of its own tree.
#[derive(Clone, Debug)]
pub struct AcceptedPopupMaterial {
    pub id: u64,
    pub owner_role: RuntimeSurfaceRole,
    pub geometry: LogicalRect,
    pub surfaces: Vec<AcceptedSurfaceMaterial>,
}

/// The exact surface material accepted for one staged presentation: every surface and
/// popup with its commit serial, placement and membership.
#[derive(Clone, Debug)]
pub struct AcceptedMaterialIdentity {
    pub surfaces: Vec<AcceptedSurfaceMaterial>,
    pub popups: Vec<AcceptedPopupMaterial>,
}

/// A surface role as a value: its variant number and, for a native pane, the pane id.
pub open spec fn role_view(role: RuntimeSurfaceRole) -> (int, Seq<char>) {
    match role {
        RuntimeSurfaceRole::MainApp => (0, Seq::empty()),
        RuntimeSurfaceRole::OverlayNative => (1, Seq::empty()),
        RuntimeSurfaceRole::NativePane(pane) => (2, pane.0@),
    }
}

/// A popup as a value.
pub type PopupMaterialView = (u64, (int, Seq<char>), LogicalRect, Seq<AcceptedSurfaceMaterial>);

impl View for AcceptedPopupMaterial {
    type V = PopupMaterialView;

    open spec fn view(&self) -> PopupMaterialView {
        (self.id, role_view(self.owner_role), self.geometry, self.surfaces@)
    }
}

impl View for AcceptedMaterialIdentity {
    type V = (Seq<AcceptedSurfaceMaterial>, Seq<PopupMaterialView>);

    open spec fn view(&self) -> (Seq<AcceptedSurfaceMaterial>, Seq<PopupMaterialView>) {
        (self.surfaces@, self.popups@.map_values(|p: AcceptedPopupMaterial| p@))
    }
}

fn same_role(a: &RuntimeSurfaceRole, b: &RuntimeSurfaceRole) -> (r: bool)
    ensures
        r == (role_view(*a) == role_view(*b)),
{
    match (a, b) {
        (RuntimeSurfaceRole::MainApp, RuntimeSurfaceRole::MainApp) => true,
        (RuntimeSurfaceRole::OverlayNative, RuntimeSurfaceRole::OverlayNative) => true,
        (RuntimeSurfaceRole::NativePane(x), RuntimeSurfaceRole::NativePane(y)) => x.0 == y.0,
        _ => false,
    }
}

fn same_surfaces(a: &Vec<AcceptedSurfaceMaterial>, b: &Vec<AcceptedSurfaceMaterial>) -> (r: bool)
    ensures
        r == (a@ == b@),
{
    if a.len() != b.len() {
        return false;
    }
    let mut i: usize = 0;
    while i < a.len()
        invariant
            a@.len() == b@.len(),
            i <= a@.len(),
            forall|j: int| 0 <= j < i ==> a@[j] == b@[j],
        decreases a@.len() - i,
    {
        if a[i] != b[i] {
            assert(a@[i as int] != b@[i as int]);
            return false;
        }
        i = i + 1;
    }
    assert(a@ =~= b@);
    true
}

fn same_popup(a: &AcceptedPopupMaterial, b: &AcceptedPopupMaterial) -> (r: bool)
    ensures
        r == (a@ == b@),
{
    a.id == b.id && same_role(&a.owner_role, &b.owner_role) && a.geometry == b.geometry
        && same_surfaces(&a.surfaces, &b.surfaces)
}

/// Whether two material identities are the same: the same surfaces and popups, in the
/// same order, with the same serials, placements and owners.
pub fn same_material_identity(a: &AcceptedMaterialIdentity, b: &AcceptedMaterialIdentity) -> (r: bool)
    ensures
        r == (a@ == b@),
{
    if !same_surfaces(&a.surfaces, &b.surfaces) {
        return false;
    }
    if a.popups.len() != b.popups.len() {
        assert(a@.1.len() != b@.1.len());
        return false;
    }
    let mut i: usize = 0;
    while i < a.popups.len()
        invariant
            a.popups@.len() == b.popups@.len(),
            i <= a.popups@.len(),
            forall|j: int| 0 <= j < i ==> a.popups@[j]@ == b.popups@[j]@,
        decreases a.popups@.len() - i,
    {
        if !same_popup(&a.popups[i], &b.popups[i]) {
            assert(a@.1[i as int] != b@.1[i as int]);
            return false;
        }
        i = i + 1;
    }
    assert(a@.1 =~= b@.1);
    true
}

/// What accepting or validating `current` against the accepted identity gives: the
/// verdict and the identity accepted afterwards. The first presentation attempt accepts
/// its identity; each later attempt passes only with exactly that identity.
pub open spec fn spec_accept_material(
    accepted: Option<(Seq<AcceptedSurfaceMaterial>, Seq<PopupMaterialView>)>,
    current: (Seq<AcceptedSurfaceMaterial>, Seq<PopupMaterialView>),
) -> (bool, Option<(Seq<AcceptedSurfaceMaterial>, Seq<PopupMaterialView>)>) {
    match accepted {
        Some(a) => (a == current, accepted),
        None => (true, Some(current)),
    }
}

/// The material identity that a staged presentation has accepted, if any.
pub struct MaterialIdentityGate {
    accepted: Option<AcceptedMaterialIdentity>,
}

impl MaterialIdentityGate {
    /// The accepted identity, as a value.
    pub closed spec fn accepted(&self) -> Option<(Seq<AcceptedSurfaceMaterial>, Seq<PopupMaterialView>)> {
        match self.accepted {
            Some(a) => Some(a@),
            None => None,
        }
    }

    /// A gate that has accepted nothing yet.
    pub fn new() -> (g: Self)
        ensures
            g.accepted() is None,
    {
        MaterialIdentityGate { accepted: None }
    }

    /// Accepts `current` if no identity is accepted yet; otherwise reports whether
    /// `current` is exactly the accepted one (a later buffer commit, subsurface move,
    /// popup change or membership change is rejected).
    pub fn accept_or_validate_material_identity(&mut self, current: AcceptedMaterialIdentity) -> (r: bool)
        ensures
            (r, final(self).accepted()) == spec_accept_material(old(self).accepted(), current@),
    {
        match &self.accepted {
            Some(accepted) => same_material_identity(accepted, &current),
            None => {
                self.accepted = Some(current);
                true
            },
        }
    }
}

impl Default for MaterialIdentityGate {
    fn default() -> (g: Self)
        ensures
            g.accepted() is None,
    {
        Self::new()
    }
}

/// A staged geometry is activated only by the completion of exactly the flip it was
/// queued on: a completion batch releases it if and only if the batch holds that flip.
pub proof fn lemma_activation_waits_for_its_flip(token: PresentationToken, completed: Seq<PresentationToken>)
    ensures
        spec_take_completed(Some(token), completed).0 == completed.contains(token),
{
}

/// A flip completion activates the staged geometry once: after it is taken, no later
/// completion batch releases the boundary again.
pub proof fn lemma_completion_taken_once(
    token: PresentationToken,
    first: Seq<PresentationToken>,
    later: Seq<PresentationToken>,
)
    requires
        spec_take_completed(Some(token), first).0,
    ensures
        !spec_take_completed(spec_take_completed(Some(token), first).1, later).0,
{
}

/// After the boundary is discarded no completion releases it.
pub proof fn lemma_discarded_boundary_never_fires(completed: Seq<PresentationToken>)
    ensures
        !spec_take_completed(None, completed).0,
{
}

/// Queued mutations carry sequence numbers no later than the latest push, increasing
/// from oldest to newest (until the counter saturates).
pub open spec fn sequences_ordered<M>(last: u64, pending: Seq<QueuedRuntimeGeometryMutation<M>>) -> bool {
    &&& forall|i: int| 0 <= i < pending.len() ==> #[trigger] pending[i].sequence <= last
    &&& forall|i: int, j: int|
        0 <= i < j < pending.len() ==> #[trigger] pending[i].sequence < #[trigger] pending[j].sequence
            || pending[j].sequence == u64::MAX
}

/// Every queue operation keeps the sequence numbers ordered: a new queue is ordered, a
/// push appends a number past every queued one, and a pop keeps the rest ordered.
pub proof fn lemma_queue_stays_ordered<M>(last: u64, pending: Seq<QueuedRuntimeGeometryMutation<M>>, mutation: M)
    requires
        sequences_ordered(last, pending),
    ensures
        sequences_ordered(0, Seq::<QueuedRuntimeGeometryMutation<M>>::empty()),
        ({
            let next: u64 = if last < u64::MAX { (last + 1) as u64 } else { u64::MAX };
            sequences_ordered(next, pending.push(QueuedRuntimeGeometryMutation { sequence: next, mutation }))
        }),
        pending.len() > 0 ==> sequences_ordered(last, pending.drop_first()),
{
    let next: u64 = if last < u64::MAX { (last + 1) as u64 } else { u64::MAX };
    let pushed = pending.push(QueuedRuntimeGeometryMutation { sequence: next, mutation });
    assert forall|i: int, j: int| 0 <= i < j < pushed.len() implies #[trigger] pushed[i].sequence < #[trigger] pushed[j].sequence
        || pushed[j].sequence == u64::MAX by {
        if j == pending.len() {
            assert(pending[i].sequence <= last);
        } else {
            assert(pending[i].sequence < pending[j].sequence || pending[j].sequence == u64::MAX);
        }
    }
    assert forall|i: int| 0 <= i < pushed.len() implies #[trigger] pushed[i].sequence <= next by {
        if i < pending.len() {
            assert(pending[i].sequence <= last);
        }
    }
    if pending.len() > 0 {
        let rest = pending.drop_first();
        assert forall|i: int, j: int| 0 <= i < j < rest.len() implies #[trigger] rest[i].sequence < #[trigger] rest[j].sequence
            || rest[j].sequence == u64::MAX by {
            assert(pending[i + 1].sequence < pending[j + 1].sequence || pending[j + 1].sequence == u64::MAX);
        }
        assert forall|i: int| 0 <= i < rest.len() implies #[trigger] rest[i].sequence <= last by {
            assert(pending[i + 1].sequence <= last);
        }
    }
}

/// Mutations leave the queue in the order they were pushed: after two pushes onto any
/// queue, pops yield everything queued before, then the first pushed, then the second.
pub proof fn lemma_queue_is_fifo<M>(pending: Seq<QueuedRuntimeGeometryMutation<M>>, first: QueuedRuntimeGeometryMutation<M>, second: QueuedRuntimeGeometryMutation<M>)
    ensures
        pending.push(first).push(second).take(pending.len() as int) == pending,
        pending.push(first).push(second).skip(pending.len() as int) == seq![first, second],
{
    assert(pending.push(first).push(second).take(pending.len() as int) =~= pending);
    assert(pending.push(first).push(second).skip(pending.len() as int) =~= seq![first, second]);
}

/// The first identity a staged presentation sees binds it: a later attempt passes if
/// and only if its material is exactly that identity, and the bound identity never
/// changes.
pub proof fn lemma_first_material_identity_binds(
    first: (Seq<AcceptedSurfaceMaterial>, Seq<PopupMaterialView>),
    later: (Seq<AcceptedSurfaceMaterial>, Seq<PopupMaterialView>),
)
    ensures
        spec_accept_material(None, first) == (true, Some(first)),
        spec_accept_material(spec_accept_material(None, first).1, later).0 == (first == later),
        spec_accept_material(spec_accept_material(None, first).1, later).1 == Some(first),
{
}

} // verus!
