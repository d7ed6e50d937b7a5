//! Call set-up: pre-emption of lower-priority calls for a pre-emptive call (ETSI EN 300 392-2
//! clause 14.8), and the handling of U-SETUP.
use vstd::prelude::*;
use crate::tdma::{Direction, SsiType, TetraAddress};
use crate::cmce::components::circuit_mgr::{CircuitMgr, CmceCircuit, made_circuit};
use crate::cmce::cc_bs::call::{
    ActiveCall, BasicService, CallOrigin, CallTimeout, CallTimeoutSetupPhase, IndividualCall, IndividualCallState,
    is_preemptive_priority,
};
use crate::cmce::cc_bs::subentity::{
    CcAction, CcBsSubentity, ControlDest, DisconnectCause, causes_from, group_addr, spec_config_call_timeout,
};
use crate::collections::map_keys;
use crate::cmce::type3::Type3FieldWide;
use crate::net_brew::brew_routable::{is_active, is_brew_gssi_routable};
use crate::cmce::components::circuit_mgr::CommunicationType;
use crate::cmce::cc_bs::echo::ECHO_ISSI;

verus! {

broadcast use vstd::std_specs::hash::group_hash_axioms;

/// Party type identifier of a called party (ETSI EN 300 392-2 clause 14.8.36).
#[derive(Debug, Clone, Copy, PartialEq, Eq, Structural)]
pub enum PartyTypeIdentifier {
    /// Short number address.
    Sna,
    Ssi,
    /// Full TETRA subscriber identity (SSI with its extension).
    Tsi,
    Reserved,
}

/// The fields of a U-SETUP that call control reads.
#[derive(Debug, Clone, Copy, PartialEq, Eq, Structural)]
pub struct USetup {
    pub area_selection: u8,
    pub hook_method: bool,
    /// true = duplex, false = simplex.
    pub simplex_duplex: bool,
    pub service: BasicService,
    pub call_priority: u8,
    pub called_party_type: PartyTypeIdentifier,
    pub called_party_short_number: Option<u8>,
    pub called_party_ssi: Option<u32>,
    pub called_party_extension: Option<u32>,
    pub external_subscriber_number: Option<Type3FieldWide>,
    /// Request to transmit/send data.
    pub request_to_transmit: bool,
}

/// A call that may be released to free traffic channels for a call of higher priority.
#[derive(Debug, Clone, Copy, PartialEq, Eq, Structural)]
pub enum PreemptVictim {
    Group(u16),
    Individual(u16),
}

/// The call identifier of a pre-emption victim.
pub open spec fn victim_id(v: PreemptVictim) -> u16 {
    match v {
        PreemptVictim::Group(id) => id,
        PreemptVictim::Individual(id) => id,
    }
}

/// Pre-emption order: lower priority first, then a call that is not transmitting (`t` 0) before
/// one that is (`t` 1), then the lower call identifier; `(p1, t1, id1)` comes no later than
/// `(p2, t2, id2)`.
pub open spec fn preempt_le(p1: u8, t1: nat, id1: u16, p2: u8, t2: nat, id2: u16) -> bool {
    p1 < p2 || (p1 == p2 && (t1 < t2 || (t1 == t2 && id1 <= id2)))
}

/// 1 for a transmitting call, 0 otherwise.
pub open spec fn tx_rank(transmitting: bool) -> nat {
    if transmitting { 1 } else { 0 }
}

impl CcBsSubentity {
    /// `v` is a call of priority below `p` whose identifier is not in `excl`.
    pub open spec fn victim_candidate(&self, v: PreemptVictim, p: u8, excl: Seq<u16>) -> bool {
        match v {
            PreemptVictim::Group(id) => self.calls().contains_key(id) && self.calls()[id].priority < p
                && !excl.contains(id),
            PreemptVictim::Individual(id) => self.individual().contains_key(id) && self.individual()[id].priority < p
                && !excl.contains(id),
        }
    }

    /// (priority, transmitting, call identifier) of a call: a group call transmits while a
    /// speaker holds the floor; an individual call once it is active (a call still in set-up
    /// does not).
    pub open spec fn victim_key(&self, v: PreemptVictim) -> (u8, nat, u16) {
        match v {
            PreemptVictim::Group(id) => (self.calls()[id].priority, tx_rank(self.calls()[id].tx_active), id),
            PreemptVictim::Individual(id) => (
                self.individual()[id].priority,
                tx_rank(self.individual()[id].state == IndividualCallState::Active),
                id,
            ),
        }
    }

    /// `a` is released no later than `b`; on equal keys a group call goes first.
    pub open spec fn victim_before(&self, a: PreemptVictim, b: PreemptVictim) -> bool {
        let ka = self.victim_key(a);
        let kb = self.victim_key(b);
        &&& preempt_le(ka.0, ka.1, ka.2, kb.0, kb.1, kb.2)
        &&& a is Individual && b is Group ==> ka != kb
    }

    /// Law: in pre-emption order a call of lower priority always goes before one of higher
    /// priority; and between two calls of equal priority `p`, one without an active speaker (a
    /// group call in hang time, an individual call not yet connected) always goes before one
    /// with an active speaker, so a call mid-transmission is never released while an idle one
    /// of the same priority is a candidate.
    pub proof fn lemma_preemption_order(self, a: PreemptVictim, b: PreemptVictim, p: u8)
        requires
            match a {
                PreemptVictim::Group(id) => self.calls().contains_key(id),
                PreemptVictim::Individual(id) => self.individual().contains_key(id),
            },
            match b {
                PreemptVictim::Group(id) => self.calls().contains_key(id),
                PreemptVictim::Individual(id) => self.individual().contains_key(id),
            },
        ensures
            ({
                let pa = match a {
                    PreemptVictim::Group(id) => self.calls()[id].priority,
                    PreemptVictim::Individual(id) => self.individual()[id].priority,
                };
                let pb = match b {
                    PreemptVictim::Group(id) => self.calls()[id].priority,
                    PreemptVictim::Individual(id) => self.individual()[id].priority,
                };
                let talking_a = match a {
                    PreemptVictim::Group(id) => self.calls()[id].tx_active,
                    PreemptVictim::Individual(id) => self.individual()[id].state == IndividualCallState::Active,
                };
                let talking_b = match b {
                    PreemptVictim::Group(id) => self.calls()[id].tx_active,
                    PreemptVictim::Individual(id) => self.individual()[id].state == IndividualCallState::Active,
                };
                &&& pa < pb ==> self.victim_before(a, b) && !self.victim_before(b, a)
                &&& pa == p && pb == p && !talking_a && talking_b ==> self.victim_before(a, b) && !self.victim_before(
                    b,
                    a,
                )
            }),
    {
    }

    /// The call to release first for a call of priority `incoming_priority`, among those of
    /// strictly lower priority whose identifier is not in `exclude`.
    fn select_preemption_victim(&self, incoming_priority: u8, exclude: &Vec<u16>) -> (r: Option<PreemptVictim>)
        ensures
            r is None <==> forall|v: PreemptVictim| !#[trigger] self.victim_candidate(v, incoming_priority, exclude@),
            r matches Some(v) ==> self.victim_candidate(v, incoming_priority, exclude@) && forall|w: PreemptVictim|
                #[trigger] self.victim_candidate(w, incoming_priority, exclude@) ==> self.victim_before(v, w),
    {
        let ghost excl = exclude@;
        let mut best: Option<PreemptVictim> = None;
        let mut best_p: u8 = 0;
        let mut best_s: u8 = 0;
        let mut best_id: u16 = 0;
        let ids = map_keys(&self.active_calls);
        let mut i: usize = 0;
        while i < ids.len()
            invariant
                ids@.to_set() == self.calls().dom(),
                ids@.no_duplicates(),
                i <= ids@.len(),
                excl == exclude@,
                match best {
                    Some(v) => {
                        &&& self.victim_candidate(v, incoming_priority, excl)
                        &&& v is Group
                        &&& self.victim_key(v) == (best_p, best_s as nat, best_id)
                    },
                    None => true,
                },
                forall|j: int| #![trigger ids@[j]] 0 <= j < i && self.victim_candidate(
                    PreemptVictim::Group(ids@[j]),
                    incoming_priority,
                    excl,
                ) ==> best is Some && self.victim_before(best.unwrap(), PreemptVictim::Group(ids@[j])),
            decreases ids@.len() - i,
        {
            let id = ids[i];
            assert(ids@.to_set().contains(id));
            let g = self.active_calls.get(&id).unwrap();
            let p = g.priority;
            let s: u8 = if g.is_tx_active() { 1 } else { 0 };
            if p < incoming_priority && !contains_id(exclude, id) {
                let better = match best {
                    None => true,
                    Some(_) => p < best_p || (p == best_p && (s < best_s || (s == best_s && id < best_id))),
                };
                if better {
                    best = Some(PreemptVictim::Group(id));
                    best_p = p;
                    best_s = s;
                    best_id = id;
                }
            }
            i = i + 1;
        }
        let ghost groups_done = best;
        proof {
            assert forall|v: PreemptVictim| #[trigger] self.victim_candidate(v, incoming_priority, excl) && v is Group
                implies best is Some && self.victim_before(best.unwrap(), v) by {
                let id = v->Group_0;
                assert(ids@.to_set().contains(id));
                let j = choose|j: int| 0 <= j < ids@.len() && ids@[j] == id;
                assert(ids@[j] == id);
            }
        }
        let ids = map_keys(&self.individual_calls);
        let mut i: usize = 0;
        while i < ids.len()
            invariant
                ids@.to_set() == self.individual().dom(),
                i <= ids@.len(),
                excl == exclude@,
                match best {
                    Some(v) => {
                        &&& self.victim_candidate(v, incoming_priority, excl)
                        &&& self.victim_key(v) == (best_p, best_s as nat, best_id)
                    },
                    None => true,
                },
                forall|v: PreemptVictim| #[trigger] self.victim_candidate(v, incoming_priority, excl) && v is Group
                    ==> best is Some && self.victim_before(best.unwrap(), v),
                forall|j: int| #![trigger ids@[j]] 0 <= j < i && self.victim_candidate(
                    PreemptVictim::Individual(ids@[j]),
                    incoming_priority,
                    excl,
                ) ==> best is Some && self.victim_before(best.unwrap(), PreemptVictim::Individual(ids@[j])),
            decreases ids@.len() - i,
        {
            let id = ids[i];
            assert(ids@.to_set().contains(id));
            let c = self.individual_calls.get(&id).unwrap();
            let p = c.priority;
            let s: u8 = match c.state {
                IndividualCallState::Active => 1,
                _ => 0,
            };
            if p < incoming_priority && !contains_id(exclude, id) {
                let better = match best {
                    None => true,
                    Some(_) => p < best_p || (p == best_p && (s < best_s || (s == best_s && id < best_id))),
                };
                if better {
                    best = Some(PreemptVictim::Individual(id));
                    best_p = p;
                    best_s = s;
                    best_id = id;
                }
            }
            i = i + 1;
        }
        proof {
            assert forall|v: PreemptVictim| #[trigger] self.victim_candidate(v, incoming_priority, excl)
                implies best is Some && self.victim_before(best.unwrap(), v) by {
                if v is Individual {
                    let id = v->Individual_0;
                    assert(ids@.to_set().contains(id));
                    let j = choose|j: int| 0 <= j < ids@.len() && ids@[j] == id;
                    assert(ids@[j] == id);
                }
            }
        }
        best
    }
}

impl CcBsSubentity {
    /// `new` is `self` after releasing, in pre-emption order, calls of priority below `p`
    /// (never one of `p` or above), with `q1` extending `q0` by the release actions, each
    /// cause they carry being "pre-emptive use of resource".
    pub open spec fn preempted_from(self, new: Self, q0: Seq<CcAction>, q1: Seq<CcAction>, p: u8) -> bool {
        &&& new.subscribers() == self.subscribers()
        &&& new.listeners() == self.listeners()
        &&& new.routing() == self.routing()
        &&& new.spec_dltime() == self.spec_dltime()
        &&& new.spec_call_timeout_secs() == self.spec_call_timeout_secs()
        &&& new.spec_telemetry() == self.spec_telemetry()
        &&& new.calls().submap_of(self.calls())
        &&& new.individual().submap_of(self.individual())
        &&& new.setups().submap_of(self.setups())
        &&& forall|id: u16| #[trigger] self.calls().contains_key(id) && !new.calls().contains_key(id)
            ==> self.calls()[id].priority < p
        &&& forall|id: u16| #[trigger] self.individual().contains_key(id) && !new.individual().contains_key(id)
            ==> self.individual()[id].priority < p
        &&& q0.is_prefix_of(q1)
        &&& causes_from(q1, q0.len() as int, DisconnectCause::PreEmptiveUseOfResource)
    }

    /// `new` and `q1` are `self` and `q0` after releasing call `v` with cause "pre-emptive use
    /// of resource" (see `group_released` and `individual_released`).
    pub open spec fn released_as(self, new: Self, q0: Seq<CcAction>, q1: Seq<CcAction>, v: PreemptVictim) -> bool {
        match v {
            PreemptVictim::Group(id) => new.individual() == self.individual() && self.group_released(
                new,
                q0,
                q1,
                id,
                DisconnectCause::PreEmptiveUseOfResource,
            ),
            PreemptVictim::Individual(id) => new.calls() == self.calls() && self.individual_released(
                new,
                q0,
                q1,
                id,
                DisconnectCause::PreEmptiveUseOfResource,
            ),
        }
    }

    /// `new` and `q1` follow from `self` and `q0` by pre-emption for `required` free timeslots
    /// at priority `p`, the calls whose identifiers are in `excl` being spared, in at most `n`
    /// releases: nothing happens once `required` timeslots are free or no call of lower
    /// priority is left; otherwise the first such call in pre-emption order (`victim_before`)
    /// is released, and pre-emption goes on from there, sparing that call's identifier too.
    pub open spec fn preempt_steps(
        self,
        new: Self,
        q0: Seq<CcAction>,
        q1: Seq<CcAction>,
        required: nat,
        p: u8,
        excl: Seq<u16>,
        n: nat,
    ) -> bool
        decreases n,
    {
        if self.circuit_mgr().spec_free_slot_count() >= required || (forall|v: PreemptVictim|
            !#[trigger] self.victim_candidate(v, p, excl)) {
            new == self && q1 == q0
        } else if n == 0 {
            false
        } else {
            exists|v: PreemptVictim, mid: Self, qm: Seq<CcAction>|
                #[trigger] self.released_as(mid, q0, qm, v) && self.victim_candidate(v, p, excl) && (forall|w: PreemptVictim|
                    #[trigger] self.victim_candidate(w, p, excl) ==> self.victim_before(v, w)) && mid.preempt_steps(
                    new,
                    qm,
                    q1,
                    required,
                    p,
                    excl.push(victim_id(v)),
                    (n - 1) as nat,
                )
        }
    }

    /// `new` and `q1` follow from `self` and `q0` when `required` traffic timeslots are sought
    /// for a call of priority `p`: a pre-emptive priority pre-empts as `preempt_steps` says
    /// (starting with no call spared), any other changes nothing; either way see
    /// `preempted_from`.
    pub open spec fn preempted_for(self, new: Self, q0: Seq<CcAction>, q1: Seq<CcAction>, required: nat, p: u8) -> bool {
        &&& self.preempted_from(new, q0, q1, p)
        &&& if p >= 12 {
            exists|n: nat| #[trigger] self.preempt_steps(new, q0, q1, required, p, Seq::<u16>::empty(), n)
        } else {
            new == self && q1 == q0
        }
    }

    /// Free `required` traffic timeslots for a call of priority `priority` (ETSI EN 300 392-2
    /// clause 14.8): when too few are free and the priority is pre-emptive, release the calls of
    /// lower priority one at a time, each the first in pre-emption order (see
    /// `select_preemption_victim`) with cause "pre-emptive use of resource", until enough are
    /// free or no such call is left. Returns whether enough timeslots are free.
    pub(crate) fn ensure_timeslots_for_priority(&mut self, queue: &mut Vec<CcAction>, required: usize, priority: u8) -> (ok: bool)
        requires
            old(self).wf(),
        ensures
            final(self).wf(),
            ok == (final(self).circuit_mgr().spec_free_slot_count() >= required),
            old(self).circuit_mgr().spec_free_slot_count() >= required || priority < 12 ==> *final(self) == *old(self)
                && final(queue)@ == old(queue)@,
            old(self).preempted_for(*final(self), old(queue)@, final(queue)@, required as nat, priority),
            !ok && priority >= 12 ==> forall|id: u16| #[trigger] final(self).individual().contains_key(id)
                && final(self).individual()[id].priority < priority ==> old(self).calls().contains_key(id),
            !ok && priority >= 12 ==> forall|id: u16| #[trigger] final(self).calls().contains_key(id) && final(self).calls()[id].priority
                < priority ==> !final(self).setups().contains_key(id) || old(self).individual().contains_key(id),
    {
        if self.circuits.free_slot_count() >= required {
            assert(old(self).preempt_steps(*self, queue@, queue@, required as nat, priority, Seq::<u16>::empty(), 0));
            return true;
        }
        if !is_preemptive_priority(priority) {
            return false;
        }
        let ghost s0 = *self;
        let ghost q0 = queue@;
        let ghost all = s0.calls().dom().union(s0.individual().dom());
        let mut attempted: Vec<u16> = Vec::new();
        proof {
            assert(q0.is_prefix_of(queue@));
        }
        while self.circuits.free_slot_count() < required
            invariant
                self.wf(),
                priority >= 12,
                s0 == *old(self),
                q0 == old(queue)@,
                s0.circuit_mgr().spec_free_slot_count() < required,
                all == s0.calls().dom().union(s0.individual().dom()),
                all.finite(),
                s0.preempted_from(*self, q0, queue@, priority),
                forall|new: Self, q1: Seq<CcAction>|
                    #[trigger] self.preempt_steps(
                        new,
                        queue@,
                        q1,
                        required as nat,
                        priority,
                        attempted@,
                        (all.len() - attempted@.len()) as nat,
                    ) ==> s0.preempt_steps(new, q0, q1, required as nat, priority, Seq::<u16>::empty(), all.len()),
                attempted@.no_duplicates(),
                forall|i: int| 0 <= i < attempted@.len() ==> all.contains(#[trigger] attempted@[i]),
                forall|id: u16| #[trigger] attempted@.contains(id) ==> (self.calls().contains_key(id)
                    ==> !self.setups().contains_key(id) || s0.individual().contains_key(id)) && (self.individual().contains_key(id)
                    ==> s0.calls().contains_key(id)),
            decreases all.len() - attempted@.len(),
        {
            proof {
                attempted@.unique_seq_to_set();
                assert(attempted@.to_set().subset_of(all)) by {
                    assert forall|id: u16| #[trigger] attempted@.to_set().contains(id) implies all.contains(id) by {
                        let i = attempted@.index_of(id);
                    }
                }
                vstd::set_lib::lemma_len_subset(attempted@.to_set(), all);
            }
            let victim = match self.select_preemption_victim(priority, &attempted) {
                Some(v) => v,
                None => {
                    proof {
                        assert forall|id: u16| #[trigger] self.individual().contains_key(id) && self.individual()[id].priority
                            < priority implies s0.calls().contains_key(id) by {
                            assert(!self.victim_candidate(PreemptVictim::Individual(id), priority, attempted@));
                        }
                        assert forall|id: u16| #[trigger] self.calls().contains_key(id) && self.calls()[id].priority
                            < priority implies !self.setups().contains_key(id) || s0.individual().contains_key(id) by {
                            assert(!self.victim_candidate(PreemptVictim::Group(id), priority, attempted@));
                        }
                        assert(self.preempt_steps(
                            *self,
                            queue@,
                            queue@,
                            required as nat,
                            priority,
                            attempted@,
                            (all.len() - attempted@.len()) as nat,
                        ));
                    }
                    return false;
                },
            };
            let ghost before = *self;
            let ghost qb = queue@;
            let ghost att0 = attempted@;
            match victim {
                PreemptVictim::Group(id) => {
                    attempted.push(id);
                    self.release_group_call(queue, id, DisconnectCause::PreEmptiveUseOfResource);
                },
                PreemptVictim::Individual(id) => {
                    attempted.push(id);
                    self.release_individual_call(queue, id, DisconnectCause::PreEmptiveUseOfResource);
                },
            }
            proof {
                let id = match victim {
                    PreemptVictim::Group(i) => i,
                    PreemptVictim::Individual(i) => i,
                };
                assert(attempted@ == att0.push(id));
                assert(!att0.contains(id));
                assert(all.contains(id));
                assert(attempted@.no_duplicates());
                attempted@.unique_seq_to_set();
                assert(attempted@.to_set().subset_of(all)) by {
                    assert forall|x: u16| #[trigger] attempted@.to_set().contains(x) implies all.contains(x) by {
                        let i = attempted@.index_of(x);
                    }
                }
                vstd::set_lib::lemma_len_subset(attempted@.to_set(), all);
                assert(self.calls().submap_of(s0.calls()));
                assert(self.individual().submap_of(s0.individual()));
                assert(self.setups().submap_of(s0.setups()));
                assert forall|x: u16| #[trigger] s0.calls().contains_key(x) && !self.calls().contains_key(x) implies s0.calls()[x].priority
                    < priority by {
                    if before.calls().contains_key(x) {
                        assert(victim == PreemptVictim::Group(x));
                    }
                }
                assert forall|x: u16| #[trigger] s0.individual().contains_key(x) && !self.individual().contains_key(x) implies s0.individual()[x].priority
                    < priority by {
                    if before.individual().contains_key(x) {
                        assert(victim == PreemptVictim::Individual(x));
                    }
                }
                match victim {
                    PreemptVictim::Group(i) => before.lemma_group_released_causes(
                        *self,
                        qb,
                        queue@,
                        i,
                        DisconnectCause::PreEmptiveUseOfResource,
                    ),
                    PreemptVictim::Individual(i) => before.lemma_individual_released_causes(
                        *self,
                        qb,
                        queue@,
                        i,
                        DisconnectCause::PreEmptiveUseOfResource,
                    ),
                }
                assert(qb.is_prefix_of(queue@));
                assert forall|i: int| q0.len() <= i < queue@.len() implies #[trigger] crate::cmce::cc_bs::subentity::action_cause(
                    queue@[i],
                ) is None || crate::cmce::cc_bs::subentity::action_cause(queue@[i]) == Some(DisconnectCause::PreEmptiveUseOfResource) by {
                    if i < qb.len() {
                        assert(queue@[i] == queue@.subrange(0, qb.len() as int)[i]);
                        assert(crate::cmce::cc_bs::subentity::action_cause(qb[i]) is None
                            || crate::cmce::cc_bs::subentity::action_cause(qb[i]) == Some(DisconnectCause::PreEmptiveUseOfResource));
                    }
                }
                assert(q0.is_prefix_of(queue@)) by {
                    assert(queue@.subrange(0, qb.len() as int).subrange(0, q0.len() as int) =~= queue@.subrange(0, q0.len() as int));
                }
                assert forall|x: u16| #[trigger] attempted@.contains(x) implies (self.calls().contains_key(x)
                    ==> !self.setups().contains_key(x) || s0.individual().contains_key(x)) && (self.individual().contains_key(x)
                    ==> s0.calls().contains_key(x)) by {
                    if x != id {
                        assert(att0.contains(x));
                    }
                }
                let n0 = (all.len() - att0.len()) as nat;
                assert(att0.len() < all.len());
                assert(before.released_as(*self, qb, queue@, victim));
                assert(victim_id(victim) == id);
                assert forall|new: Self, q1: Seq<CcAction>|
                    #[trigger] self.preempt_steps(
                        new,
                        queue@,
                        q1,
                        required as nat,
                        priority,
                        attempted@,
                        (all.len() - attempted@.len()) as nat,
                    ) implies s0.preempt_steps(new, q0, q1, required as nat, priority, Seq::<u16>::empty(), all.len()) by {
                    assert((all.len() - attempted@.len()) as nat == (n0 - 1) as nat);
                    assert(before.preempt_steps(new, qb, q1, required as nat, priority, att0, n0));
                }
            }
        }
        proof {
            assert(self.preempt_steps(
                *self,
                queue@,
                queue@,
                required as nat,
                priority,
                attempted@,
                (all.len() - attempted@.len()) as nat,
            ));
            assert(s0.preempt_steps(*self, q0, queue@, required as nat, priority, Seq::<u16>::empty(), all.len()));
        }
        true
    }
}

/// What setting up group call `call_id` on `circuit` sends, in order: the circuit opened, then
/// to the caller (over `handle`/`link_id`/`endpoint_id`) D-CALL-PROCEEDING and D-CONNECT, then
/// D-SETUP to the group, the dashboard notices (call started, caller speaking) when telemetry
/// is on, and the floor grant to Brew when the group is routed there.
pub open spec fn group_setup_actions(
    circuit: CmceCircuit,
    calling: TetraAddress,
    handle: u32,
    link_id: u32,
    endpoint_id: u32,
    pdu: USetup,
    gssi: u32,
    timeout: CallTimeout,
    telemetry: bool,
    routable: bool,
) -> Seq<CcAction> {
    let call_id = circuit.call_id;
    seq![
        CcAction::CircuitOpen { circuit },
        CcAction::DCallProceeding {
            call_id,
            to: calling,
            handle,
            link_id,
            endpoint_id,
            setup_timeout: CallTimeoutSetupPhase::T10s,
            hook_method: pdu.hook_method,
            simplex_duplex: pdu.simplex_duplex,
        },
        CcAction::DConnectCaller {
            call_id,
            to: calling,
            handle,
            link_id,
            endpoint_id,
            call_timeout: timeout,
            hook_method: pdu.hook_method,
            simplex_duplex: pdu.simplex_duplex,
            usage: circuit.usage,
            carrier_num: circuit.carrier_num,
            ts: circuit.ts,
        },
        CcAction::DSetupGroup {
            call_id,
            to: group_addr(gssi),
            calling_issi: calling.ssi,
            call_timeout: timeout,
            hook_method: pdu.hook_method,
            simplex_duplex: pdu.simplex_duplex,
            service: pdu.service,
            priority: pdu.call_priority,
            usage: circuit.usage,
            carrier_num: circuit.carrier_num,
            ts: circuit.ts,
        },
    ] + (if telemetry {
        seq![
            CcAction::GroupCallStarted {
                call_id,
                gssi,
                caller_issi: calling.ssi,
                carrier_num: circuit.carrier_num,
                ts: circuit.ts,
                priority: pdu.call_priority,
            },
            CcAction::CallSpeakerChanged {
                call_id,
                is_group: true,
                dest_addr: gssi,
                speaker_issi: calling.ssi,
                carrier_num: circuit.carrier_num,
                ts: circuit.ts,
            },
        ]
    } else {
        Seq::empty()
    }) + (if routable {
        seq![CcAction::FloorGranted { dest: ControlDest::Brew, call_id, source_issi: calling.ssi, dest_gssi: gssi, ts: circuit.ts }]
    } else {
        Seq::empty()
    })
}

/// Call time-out of a group call: none for a duplex call, else the configured one.
pub open spec fn group_call_timeout(simplex_duplex: bool, secs: u32) -> CallTimeout {
    if simplex_duplex { CallTimeout::Infinite } else { spec_config_call_timeout(secs) }
}

impl CcBsSubentity {
    /// `new` and `q1` are `self` and `q0` after the set-up of a group call to `gssi` requested by
    /// `calling` with `pdu`: on a free slot a circuit, a call record and a cached D-SETUP are made
    /// and the set-up messages sent; with none the set-up is refused with D-RELEASE (congestion)
    /// under the next call identifier.
    pub open spec fn group_setup_from(
        self,
        new: Self,
        q0: Seq<CcAction>,
        q1: Seq<CcAction>,
        handle: u32,
        link_id: u32,
        endpoint_id: u32,
        calling: TetraAddress,
        pdu: USetup,
        gssi: u32,
    ) -> bool {
        let m = self.circuit_mgr();
        &&& new.subscribers() == self.subscribers()
        &&& new.listeners() == self.listeners()
        &&& new.individual() == self.individual()
        &&& new.routing() == self.routing()
        &&& new.spec_dltime() == self.spec_dltime()
        &&& new.spec_call_timeout_secs() == self.spec_call_timeout_secs()
        &&& new.spec_telemetry() == self.spec_telemetry()
        &&& new.circuit_mgr().ul_only@ == m.ul_only@
        &&& new.circuit_mgr().tx_view() == m.tx_view()
        &&& new.circuit_mgr().dltime == m.dltime
        &&& new.circuit_mgr().spec_next_call_id() == CircuitMgr::call_id_after(m.spec_next_call_id())
        &&& match m.free_slot(Direction::Both) {
            None => {
                &&& new.calls() == self.calls()
                &&& new.setups() == self.setups()
                &&& new.circuit_mgr().dl@ == m.dl@
                &&& new.circuit_mgr().spec_next_usage() == m.spec_next_usage()
                &&& q1 == q0.push(
                    CcAction::DReleaseLink {
                        call_id: m.spec_next_call_id(),
                        to: calling,
                        cause: DisconnectCause::CongestionInInfrastructure,
                        handle,
                        link_id,
                        endpoint_id,
                    },
                )
            },
            Some(slot) => {
                let call_id = m.spec_next_call_id();
                let usage = m.spec_next_usage();
                let circuit = made_circuit(m.dltime, Direction::Both, slot, call_id, usage, pdu.service.comm_type, pdu.simplex_duplex);
                let timeout = group_call_timeout(pdu.simplex_duplex, self.spec_call_timeout_secs());
                &&& new.setups() == self.setups().insert(call_id, group_addr(gssi))
                &&& new.calls() == self.calls().insert(
                    call_id,
                    ActiveCall {
                        origin: CallOrigin::Local { caller_addr: calling },
                        dest_gssi: gssi,
                        source_issi: calling.ssi,
                        priority: pdu.call_priority,
                        created_at: self.spec_dltime(),
                        call_timeout: timeout,
                        ts: slot.ts,
                        usage,
                        tx_active: true,
                        hangtime_start: None,
                        queued_tx_demand: None,
                        brew_uuid: None,
                    },
                )
                &&& new.circuit_mgr().dl@ == m.dl@.push(circuit)
                &&& new.circuit_mgr().spec_next_usage() == CircuitMgr::usage_after(usage)
                &&& q1 == q0 + group_setup_actions(
                    circuit,
                    calling,
                    handle,
                    link_id,
                    endpoint_id,
                    pdu,
                    gssi,
                    timeout,
                    self.spec_telemetry(),
                    self.routable(gssi),
                )
            },
        }
    }

    /// Refuse a U-SETUP from `target` with D-RELEASE over its link context, under the next call
    /// identifier.
    pub(crate) fn reject_setup_request(
        &mut self,
        queue: &mut Vec<CcAction>,
        handle: u32,
        link_id: u32,
        endpoint_id: u32,
        target: TetraAddress,
        cause: DisconnectCause,
    )
        requires
            old(self).wf(),
        ensures
            final(self).wf(),
            final(self).subscribers() == old(self).subscribers(),
            final(self).listeners() == old(self).listeners(),
            final(self).individual() == old(self).individual(),
            final(self).calls() == old(self).calls(),
            final(self).setups() == old(self).setups(),
            final(self).routing() == old(self).routing(),
            final(self).spec_dltime() == old(self).spec_dltime(),
            final(self).spec_call_timeout_secs() == old(self).spec_call_timeout_secs(),
            final(self).spec_telemetry() == old(self).spec_telemetry(),
            final(self).circuit_mgr().dl@ == old(self).circuit_mgr().dl@,
            final(self).circuit_mgr().ul_only@ == old(self).circuit_mgr().ul_only@,
            final(self).circuit_mgr().tx_view() == old(self).circuit_mgr().tx_view(),
            final(self).circuit_mgr().dltime == old(self).circuit_mgr().dltime,
            final(self).circuit_mgr().spec_next_usage() == old(self).circuit_mgr().spec_next_usage(),
            final(self).circuit_mgr().spec_next_call_id() == CircuitMgr::call_id_after(
                old(self).circuit_mgr().spec_next_call_id(),
            ),
            final(queue)@ == old(queue)@.push(
                CcAction::DReleaseLink {
                    call_id: old(self).circuit_mgr().spec_next_call_id(),
                    to: target,
                    cause,
                    handle,
                    link_id,
                    endpoint_id,
                },
            ),
    {
        let call_id = self.circuits.get_next_call_id();
        queue.push(CcAction::DReleaseLink { call_id, to: target, cause, handle, link_id, endpoint_id });
    }

    /// U-SETUP of a group call from `calling_party` over link context
    /// `handle`/`link_id`/`endpoint_id`. A set-up without a called GSSI, or to a group nobody
    /// listens to, is ignored. Otherwise, after pre-emption for a pre-emptive priority, a
    /// circuit is allocated and the call set up (see `group_setup_from`), or the set-up refused
    /// for congestion.
    pub fn fsm_on_u_setup_group(
        &mut self,
        queue: &mut Vec<CcAction>,
        handle: u32,
        link_id: u32,
        endpoint_id: u32,
        calling_party: TetraAddress,
        pdu: USetup,
    )
        requires
            old(self).wf(),
        ensures
            final(self).wf(),
            pdu.called_party_ssi is None || !old(self).spec_has_listener(pdu.called_party_ssi.unwrap()) ==> *final(self)
                == *old(self) && final(queue)@ == old(queue)@,
            pdu.called_party_ssi is Some && old(self).spec_has_listener(pdu.called_party_ssi.unwrap()) ==> exists|
                mid: Self,
                qm: Seq<CcAction>,
            |
                {
                    &&& old(self).preempted_for(mid, old(queue)@, qm, 1, pdu.call_priority)
                    &&& (old(self).circuit_mgr().spec_free_slot_count() >= 1 || pdu.call_priority < 12 ==> mid == *old(self)
                        && qm == old(queue)@)
                    &&& mid.group_setup_from(
                        *final(self),
                        qm,
                        final(queue)@,
                        handle,
                        link_id,
                        endpoint_id,
                        calling_party,
                        pdu,
                        pdu.called_party_ssi.unwrap(),
                    )
                },
    {
        let dest_gssi = match pdu.called_party_ssi {
            Some(g) => g,
            None => return,
        };
        if !self.has_listener(dest_gssi) {
            return;
        }
        let ok = self.ensure_timeslots_for_priority(queue, 1, pdu.call_priority);
        let ghost mid = *self;
        let ghost qm = queue@;
        let circuit = match self.circuits.allocate_circuit(Direction::Both, pdu.service.comm_type, pdu.simplex_duplex) {
            Ok(c) => c,
            Err(_) => {
                self.reject_setup_request(
                    queue,
                    handle,
                    link_id,
                    endpoint_id,
                    calling_party,
                    DisconnectCause::CongestionInInfrastructure,
                );
                return;
            },
        };
        let call_id = circuit.call_id;
        let timeout = if pdu.simplex_duplex { CallTimeout::Infinite } else { self.config_call_timeout() };
        queue.push(CcAction::CircuitOpen { circuit });
        queue.push(
            CcAction::DCallProceeding {
                call_id,
                to: calling_party,
                handle,
                link_id,
                endpoint_id,
                setup_timeout: CallTimeoutSetupPhase::T10s,
                hook_method: pdu.hook_method,
                simplex_duplex: pdu.simplex_duplex,
            },
        );
        queue.push(
            CcAction::DConnectCaller {
                call_id,
                to: calling_party,
                handle,
                link_id,
                endpoint_id,
                call_timeout: timeout,
                hook_method: pdu.hook_method,
                simplex_duplex: pdu.simplex_duplex,
                usage: circuit.usage,
                carrier_num: circuit.carrier_num,
                ts: circuit.ts,
            },
        );
        let dest_addr = TetraAddress { ssi: dest_gssi, ssi_type: SsiType::Gssi };
        queue.push(
            CcAction::DSetupGroup {
                call_id,
                to: dest_addr,
                calling_issi: calling_party.ssi,
                call_timeout: timeout,
                hook_method: pdu.hook_method,
                simplex_duplex: pdu.simplex_duplex,
                service: pdu.service,
                priority: pdu.call_priority,
                usage: circuit.usage,
                carrier_num: circuit.carrier_num,
                ts: circuit.ts,
            },
        );
        self.cached_setups.insert(call_id, dest_addr);
        let call = ActiveCall::new_local(
            calling_party,
            dest_gssi,
            calling_party.ssi,
            circuit.ts,
            circuit.usage,
            self.dltime,
            timeout,
            pdu.call_priority,
        );
        self.active_calls.insert(call_id, call);
        if self.telemetry {
            queue.push(
                CcAction::GroupCallStarted {
                    call_id,
                    gssi: dest_gssi,
                    caller_issi: calling_party.ssi,
                    carrier_num: circuit.carrier_num,
                    ts: circuit.ts,
                    priority: pdu.call_priority,
                },
            );
            queue.push(
                CcAction::CallSpeakerChanged {
                    call_id,
                    is_group: true,
                    dest_addr: dest_gssi,
                    speaker_issi: calling_party.ssi,
                    carrier_num: circuit.carrier_num,
                    ts: circuit.ts,
                },
            );
        }
        if is_brew_gssi_routable(&self.config.routing, dest_gssi) {
            queue.push(
                CcAction::FloorGranted {
                    dest: ControlDest::Brew,
                    call_id,
                    source_issi: calling_party.ssi,
                    dest_gssi,
                    ts: circuit.ts,
                },
            );
        }
        proof {
            assert(queue@ =~= qm + group_setup_actions(
                circuit,
                calling_party,
                handle,
                link_id,
                endpoint_id,
                pdu,
                dest_gssi,
                timeout,
                mid.spec_telemetry(),
                mid.routable(dest_gssi),
            ));
            assert(self.cached_setups@ =~= mid.setups().insert(call_id, group_addr(dest_gssi)));
        }
    }
}

/// The U-SETUP asks only for what this SwMI supports: area selection 0 or 1, and duplex only
/// for an individual call.
pub open spec fn u_setup_supported(pdu: USetup) -> bool {
    (pdu.area_selection == 0 || pdu.area_selection == 1) && !(pdu.service.comm_type != CommunicationType::P2p
        && pdu.simplex_duplex)
}

/// The called party of an individual U-SETUP is named by SSI or TSI.
pub open spec fn called_by_issi(pdu: USetup) -> bool {
    pdu.called_party_type == PartyTypeIdentifier::Ssi || pdu.called_party_type == PartyTypeIdentifier::Tsi
}

/// The called ISSI of an individual U-SETUP (0 when none is given).
pub open spec fn called_issi(pdu: USetup) -> u32 {
    match pdu.called_party_ssi {
        Some(s) => s,
        None => 0,
    }
}

impl CcBsSubentity {
    /// `new` and `q1` follow from `self` and `q0` on an individual-call U-SETUP from `calling`:
    /// a called party not named by SSI/TSI needs Brew (else requested service not available); a
    /// short number, or an extension without TSI, is refused (unknown TETRA identity), as is a
    /// set-up naming no called ISSI nor external number; the echo ISSI reaches the local echo
    /// service, a called party without ISSI or not registered here goes over Brew (under some
    /// session identifier), and a registered MS is called locally.
    pub open spec fn p2p_request_handled(
        self,
        new: Self,
        q0: Seq<CcAction>,
        q1: Seq<CcAction>,
        handle: u32,
        link_id: u32,
        endpoint_id: u32,
        calling: TetraAddress,
        pdu: USetup,
    ) -> bool {
        let called_ssi = called_issi(pdu);
        let called = TetraAddress { ssi: called_ssi, ssi_type: SsiType::Issi };
        let has_ext = pdu.external_subscriber_number is Some || pdu.called_party_short_number is Some;
        let refused = |cause: DisconnectCause|
            self.refused_on(self.circuit_mgr(), new, q0, q1, handle, link_id, endpoint_id, calling, cause);
        if !called_by_issi(pdu) && self.routing().brew is None {
            refused(DisconnectCause::RequestedServiceNotAvailable)
        } else if called_by_issi(pdu) && (pdu.called_party_short_number is Some || (pdu.called_party_extension is Some
            && pdu.called_party_type != PartyTypeIdentifier::Tsi)) {
            refused(DisconnectCause::UnknownTetraIdentity)
        } else if called_ssi == 0 && !has_ext {
            refused(DisconnectCause::UnknownTetraIdentity)
        } else if called_ssi == ECHO_ISSI {
            self.echo_request_handled(new, q0, q1, handle, link_id, endpoint_id, calling, called, pdu)
        } else if called_ssi == 0 || !self.subscribers().contains_key(called_ssi) {
            exists|brew_uuid: u128|
                self.brew_setup_from(new, q0, q1, handle, link_id, endpoint_id, calling, called, pdu, brew_uuid)
        } else {
            self.local_request_handled(new, q0, q1, handle, link_id, endpoint_id, calling, called, pdu)
        }
    }

    /// U-SETUP of an individual call from `calling` over link context
    /// `handle`/`link_id`/`endpoint_id` (see `p2p_request_handled`).
    pub fn fsm_on_u_setup_p2p(
        &mut self,
        queue: &mut Vec<CcAction>,
        handle: u32,
        link_id: u32,
        endpoint_id: u32,
        calling: TetraAddress,
        pdu: USetup,
    )
        requires
            old(self).wf(),
        ensures
            final(self).wf(),
            old(self).p2p_request_handled(*final(self), old(queue)@, final(queue)@, handle, link_id, endpoint_id, calling, pdu),
    {
        let is_issi = match pdu.called_party_type {
            PartyTypeIdentifier::Ssi | PartyTypeIdentifier::Tsi => true,
            _ => false,
        };
        if !is_issi && !is_active(&self.config.routing) {
            self.reject_setup_request(queue, handle, link_id, endpoint_id, calling, DisconnectCause::RequestedServiceNotAvailable);
            return;
        }
        let tsi = match pdu.called_party_type {
            PartyTypeIdentifier::Tsi => true,
            _ => false,
        };
        if is_issi && (pdu.called_party_short_number.is_some() || (pdu.called_party_extension.is_some() && !tsi)) {
            self.reject_setup_request(queue, handle, link_id, endpoint_id, calling, DisconnectCause::UnknownTetraIdentity);
            return;
        }
        let called_ssi: u32 = match pdu.called_party_ssi {
            Some(s) => s,
            None => 0,
        };
        let has_ext = pdu.external_subscriber_number.is_some() || pdu.called_party_short_number.is_some();
        if called_ssi == 0 && !has_ext {
            self.reject_setup_request(queue, handle, link_id, endpoint_id, calling, DisconnectCause::UnknownTetraIdentity);
            return;
        }
        let called = TetraAddress { ssi: called_ssi, ssi_type: SsiType::Issi };
        if called_ssi == ECHO_ISSI {
            self.fsm_on_u_setup_p2p_local_echo(queue, handle, link_id, endpoint_id, calling, called, pdu);
            return;
        }
        if called_ssi == 0 || !self.subscriber_groups.contains_key(&called_ssi) {
            self.fsm_on_u_setup_p2p_over_brew(queue, handle, link_id, endpoint_id, calling, called, pdu);
            return;
        }
        self.fsm_on_u_setup_p2p_local(queue, handle, link_id, endpoint_id, calling, called, pdu);
    }

    /// U-SETUP from `calling` over link context `handle`/`link_id`/`endpoint_id`: one asking for
    /// what is not supported (see `u_setup_supported`) is refused with D-RELEASE (incompatible
    /// traffic case) under the next call identifier; an individual call goes to
    /// `fsm_on_u_setup_p2p`, any other to `fsm_on_u_setup_group`.
    pub fn fsm_on_u_setup(
        &mut self,
        queue: &mut Vec<CcAction>,
        handle: u32,
        link_id: u32,
        endpoint_id: u32,
        calling: TetraAddress,
        pdu: USetup,
    )
        requires
            old(self).wf(),
        ensures
            final(self).wf(),
            !u_setup_supported(pdu) ==> old(self).refused_on(
                old(self).circuit_mgr(),
                *final(self),
                old(queue)@,
                final(queue)@,
                handle,
                link_id,
                endpoint_id,
                calling,
                DisconnectCause::IncompatibleTrafficCase,
            ),
            u_setup_supported(pdu) && pdu.service.comm_type == CommunicationType::P2p ==> old(self).p2p_request_handled(
                *final(self),
                old(queue)@,
                final(queue)@,
                handle,
                link_id,
                endpoint_id,
                calling,
                pdu,
            ),
            u_setup_supported(pdu) && pdu.service.comm_type != CommunicationType::P2p ==> {
                &&& pdu.called_party_ssi is None || !old(self).spec_has_listener(pdu.called_party_ssi.unwrap()) ==> *final(self)
                    == *old(self) && final(queue)@ == old(queue)@
                &&& pdu.called_party_ssi is Some && old(self).spec_has_listener(pdu.called_party_ssi.unwrap()) ==> exists|
                    mid: Self,
                    qm: Seq<CcAction>,
                |
                    {
                        &&& old(self).preempted_for(mid, old(queue)@, qm, 1, pdu.call_priority)
                        &&& (old(self).circuit_mgr().spec_free_slot_count() >= 1 || pdu.call_priority < 12 ==> mid
                            == *old(self) && qm == old(queue)@)
                        &&& mid.group_setup_from(
                            *final(self),
                            qm,
                            final(queue)@,
                            handle,
                            link_id,
                            endpoint_id,
                            calling,
                            pdu,
                            pdu.called_party_ssi.unwrap(),
                        )
                    }
            },
    {
        let p2p = match pdu.service.comm_type {
            CommunicationType::P2p => true,
            _ => false,
        };
        let area_ok = pdu.area_selection == 0 || pdu.area_selection == 1;
        if !area_ok || (!p2p && pdu.simplex_duplex) {
            self.reject_setup_request(queue, handle, link_id, endpoint_id, calling, DisconnectCause::IncompatibleTrafficCase);
            return;
        }
        if p2p {
            self.fsm_on_u_setup_p2p(queue, handle, link_id, endpoint_id, calling, pdu);
        } else {
            self.fsm_on_u_setup_group(queue, handle, link_id, endpoint_id, calling, pdu);
        }
    }
}

/// `id` occurs in `ids`.
fn contains_id(ids: &Vec<u16>, id: u16) -> (r: bool)
    ensures
        r == ids@.contains(id),
{
    let mut i: usize = 0;
    while i < ids.len()
        invariant
            i <= ids@.len(),
            forall|j: int| 0 <= j < i ==> ids@[j] != id,
        decreases ids@.len() - i,
    {
        if ids[i] == id {
            return true;
        }
        i = i + 1;
    }
    false
}

} // verus!
