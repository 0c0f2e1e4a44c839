//! The concurrency gate: a bounded count of memory-heavy decodes in flight.
//!
//! A gate never blocks by itself. A caller that is refused a permit waits on
//! whatever signalling the host offers and asks again after a release.

use vstd::prelude::*;

verus! {

/// The number of heavy operations that may run at once by default.
pub const MAX_HEAVY_OPS: usize = 8;

/// The abstract state of a gate: permits handed out and the bound on them.
pub struct GateState {
    pub active: nat,
    pub max: nat,
}

/// A gate is sound when no more permits are out than its bound allows.
pub open spec fn gate_ok(s: GateState) -> bool {
    s.active <= s.max
}

/// Whether an acquire request on `s` is granted.
pub open spec fn grants(s: GateState) -> bool {
    s.active < s.max
}

/// The state after one acquire request: one more permit out if granted.
pub open spec fn after_acquire(s: GateState) -> GateState {
    if grants(s) {
        GateState { active: s.active + 1, max: s.max }
    } else {
        s
    }
}

/// The state after a permit comes back.
pub open spec fn after_release(s: GateState) -> GateState {
    GateState { active: (s.active - 1) as nat, max: s.max }
}

/// The state after `k` acquire requests with no release among them.
pub open spec fn after_requests(s: GateState, k: nat) -> GateState
    decreases k,
{
    if k == 0 {
        s
    } else {
        after_acquire(after_requests(s, (k - 1) as nat))
    }
}

/// A process-wide bound on concurrent heavy decodes.
pub struct HeavyOpGate {
    active: usize,
    max: usize,
    id: Ghost<int>,
    outstanding: Ghost<Set<int>>,
    next_ticket: Ghost<int>,
}

impl View for HeavyOpGate {
    type V = GateState;

    closed spec fn view(&self) -> GateState {
        GateState { active: self.active as nat, max: self.max as nat }
    }
}

/// One slot of a gate, held for the length of a heavy operation. It is
/// neither copied nor cloned, so each ticket is held once.
pub struct HeavyOpPermit {
    gate: Ghost<int>,
    ticket: Ghost<int>,
}

impl HeavyOpPermit {
    /// The identity of the issuing gate.
    pub closed spec fn gate_id(&self) -> int {
        self.gate@
    }

    /// This permit's ticket, unique among its gate's outstanding permits.
    pub closed spec fn ticket(&self) -> int {
        self.ticket@
    }
}

impl HeavyOpGate {
    /// The identity of this gate; each permit names its issuer.
    pub closed spec fn id(&self) -> int {
        self.id@
    }

    /// The tickets of the permits issued and not yet released.
    pub closed spec fn outstanding(&self) -> Set<int> {
        self.outstanding@
    }

    /// Every outstanding ticket is below the next one to be issued.
    pub closed spec fn tickets_fresh(&self) -> bool {
        forall|t: int| self.outstanding@.contains(t) ==> t < self.next_ticket@
    }

    /// The count is the number of outstanding permits, within the bound.
    pub open spec fn wf(&self) -> bool {
        &&& self.outstanding().finite()
        &&& self.outstanding().len() == self@.active
        &&& gate_ok(self@)
        &&& self.tickets_fresh()
    }

    /// A gate that lets at most `max` operations run at once.
    pub fn with_max(max: usize) -> (r: HeavyOpGate)
        ensures
            r@ == (GateState { active: 0, max: max as nat }),
            r.wf(),
            r.outstanding() == Set::<int>::empty(),
    {
        HeavyOpGate {
            active: 0,
            max,
            id: Ghost(vstd::pervasive::arbitrary()),
            outstanding: Ghost(Set::empty()),
            next_ticket: Ghost(0),
        }
    }

    /// The number of permits now held.
    pub fn active(&self) -> (r: usize)
        ensures
            r == self@.active,
    {
        self.active
    }

    /// The bound this gate was made with.
    pub fn max(&self) -> (r: usize)
        ensures
            r == self@.max,
    {
        self.max
    }
}

/// A gate for heavy decodes, idle and bounded by `MAX_HEAVY_OPS`.
pub fn heavy_op_guard() -> (r: HeavyOpGate)
    ensures
        r@ == (GateState { active: 0, max: MAX_HEAVY_OPS as nat }),
        r.wf(),
        r.outstanding() == Set::<int>::empty(),
{
    HeavyOpGate::with_max(MAX_HEAVY_OPS)
}

impl HeavyOpPermit {
    /// Takes a slot when one is free. `None` means the caller must wait for a
    /// release and ask again; nothing changes then.
    pub fn acquire(gate: &mut HeavyOpGate) -> (r: Option<HeavyOpPermit>)
        requires
            old(gate).wf(),
        ensures
            final(gate).wf(),
            final(gate)@ == after_acquire(old(gate)@),
            final(gate).id() == old(gate).id(),
            r is Some <==> grants(old(gate)@),
            r matches Some(p) ==> p.gate_id() == old(gate).id() && !old(gate).outstanding().contains(
                p.ticket(),
            ) && final(gate).outstanding() == old(gate).outstanding().insert(p.ticket()),
            r is None ==> final(gate).outstanding() == old(gate).outstanding(),
    {
        if gate.active < gate.max {
            let ghost t = gate.next_ticket@;
            proof {
                assert(!gate.outstanding@.contains(t));
            }
            gate.active = gate.active + 1;
            gate.outstanding = Ghost(gate.outstanding@.insert(t));
            gate.next_ticket = Ghost(t + 1);
            Some(HeavyOpPermit { gate: Ghost(gate.id@), ticket: Ghost(t) })
        } else {
            None
        }
    }

    /// Gives the slot back to its issuer, so that one waiting
    /// caller can be admitted.
    pub fn release(self, gate: &mut HeavyOpGate)
        requires
            old(gate).wf(),
            self.gate_id() == old(gate).id(),
            old(gate).outstanding().contains(self.ticket()),
        ensures
            final(gate).wf(),
            final(gate)@ == after_release(old(gate)@),
            final(gate).id() == old(gate).id(),
            final(gate).outstanding() == old(gate).outstanding().remove(self.ticket()),
            grants(final(gate)@),
    {
        proof {
            assert(gate.outstanding@.len() > 0);
        }
        gate.active = gate.active - 1;
        gate.outstanding = Ghost(gate.outstanding@.remove(self.ticket@));
    }
}

/// However permits are taken and given back, a sound gate never has more
/// permits outstanding than its bound: its count is their number.
pub proof fn lemma_outstanding_within_bound(gate: &HeavyOpGate)
    requires
        gate.wf(),
    ensures
        gate.outstanding().len() == gate@.active,
        gate.outstanding().len() <= gate@.max,
{
}

/// A sound gate stays sound under any number of requests, and never holds
/// more permits than its bound.
pub proof fn lemma_requests_keep_bound(s: GateState, k: nat)
    requires
        gate_ok(s),
    ensures
        gate_ok(after_requests(s, k)),
        after_requests(s, k).active <= s.max,
        after_requests(s, k).max == s.max,
    decreases k,
{
    if k > 0 {
        lemma_requests_keep_bound(s, (k - 1) as nat);
    }
}

/// Of `k` requests on a sound gate with no release between them, exactly as
/// many are granted as there are free slots (or `k`, if fewer).
pub proof fn lemma_requests_granted(s: GateState, k: nat)
    requires
        gate_ok(s),
    ensures
        after_requests(s, k).active == s.active + if k <= s.max - s.active {
            k as int
        } else {
            s.max - s.active
        },
    decreases k,
{
    if k > 0 {
        lemma_requests_granted(s, (k - 1) as nat);
        lemma_requests_keep_bound(s, (k - 1) as nat);
    }
}

/// More simultaneous requests than the bound on an idle gate: exactly `max`
/// are granted, every further request is refused while nothing is released,
/// and after one release the next request is granted.
pub proof fn lemma_excess_requests_wait(max: nat, k: nat)
    requires
        k > max,
    ensures
        after_requests(GateState { active: 0, max }, k).active == max,
        !grants(after_requests(GateState { active: 0, max }, k)),
        max > 0 ==> grants(after_release(after_requests(GateState { active: 0, max }, k))),
        max > 0 ==> after_acquire(after_release(after_requests(GateState { active: 0, max }, k)))
            == after_requests(GateState { active: 0, max }, k),
{
    let s = GateState { active: 0, max };
    lemma_requests_granted(s, k);
    lemma_requests_keep_bound(s, k);
}

} // verus!
