//! Shared replicas and their write-exclusive reservation protocol.
//!
//! A replica that is shared between nodes carries a reservation record:
//! a list of registrants (host identity plus registered key), the
//! reservation type, and the current holder.  A nexus registers its
//! deployment-wide key, then acquires the write-exclusive reservation;
//! if another registrant holds it, the claimant preempts it
//! unconditionally ("latest claimant wins"), which removes the previous
//! holder's registration and makes its subsequent I/O fail with a
//! reservation conflict.

use vstd::prelude::*;

verus! {

/// Reservation type held on a replica.
#[derive(Clone, Copy, Debug, PartialEq, Eq, Structural)]
pub enum ResvType {
    Unreserved,
    WriteExclusive,
}

/// One registrant of a replica: host identity plus the key it
/// registered.  The host identity is ephemeral and assigned per
/// connection; the key is process-wide configuration.
#[derive(Clone, Copy, Debug, PartialEq, Eq, Structural)]
pub struct Registrant {
    pub host_id: u64,
    pub key: u64,
}

/// Abstract reservation state of one replica, used by the contracts and
/// the reservation laws.
pub struct ResvView {
    pub regs: Seq<Registrant>,
    pub resv: ResvType,
    pub holder: Option<u64>,
}

impl ResvView {
    /// Registrant host identities are unique and the holder, when
    /// present, is a registrant; a reservation is held exactly when a
    /// holder exists.
    pub open spec fn wf(self) -> bool {
        &&& (self.resv is WriteExclusive <==> self.holder is Some)
        &&& (self.holder matches Some(h) ==> self.is_registered(h))
        &&& forall|i: int, j: int|
            0 <= i < j < self.regs.len() ==> self.regs[i].host_id != self.regs[j].host_id
    }

    pub open spec fn is_registered(self, host: u64) -> bool {
        exists|i: int| 0 <= i < self.regs.len() && (#[trigger] self.regs[i]).host_id == host
    }

    /// A host may write exactly when no reservation is held or it is
    /// the holder.
    pub open spec fn can_write(self, host: u64) -> bool {
        self.resv is Unreserved || self.holder == Some(host)
    }

    /// A host may read exactly when no reservation is held or it is
    /// still a registrant; a preempted host has lost its registration
    /// and fails on reads as well.
    pub open spec fn can_read(self, host: u64) -> bool {
        self.resv is Unreserved || self.is_registered(host)
    }
}

/// Registrants that survive a preemption that evicts `victim`.
pub open spec fn evict(regs: Seq<Registrant>, victim: u64) -> Seq<Registrant>
    decreases regs.len(),
{
    if regs.len() == 0 {
        Seq::empty()
    } else {
        let rest = evict(regs.drop_last(), victim);
        if regs.last().host_id == victim {
            rest
        } else {
            rest.push(regs.last())
        }
    }
}

/// Registration: a no-op for an already-registered host, otherwise the
/// registrant is appended.
pub open spec fn spec_register(v: ResvView, host: u64, key: u64) -> ResvView {
    if v.is_registered(host) {
        v
    } else {
        ResvView { regs: v.regs.push(Registrant { host_id: host, key }), ..v }
    }
}

/// Acquisition of the write-exclusive reservation: a free reservation
/// is taken, re-acquisition by the holder is a no-op, and a reservation
/// held by another registrant is preempted unconditionally, evicting
/// the previous holder's registration.
pub open spec fn spec_acquire(v: ResvView, host: u64) -> ResvView {
    match v.holder {
        Option::None => ResvView { resv: ResvType::WriteExclusive, holder: Some(host), ..v },
        Option::Some(prev) => if prev == host {
            v
        } else {
            ResvView {
                regs: evict(v.regs, prev),
                resv: ResvType::WriteExclusive,
                holder: Some(host),
            }
        },
    }
}

/// Index of the registrant of `host`, if the host is registered.
fn find_host(regs: &Vec<Registrant>, host: u64) -> (r: Option<usize>)
    ensures
        match r {
            Some(i) => i < regs@.len() && regs@[i as int].host_id == host,
            None => forall|j: int| 0 <= j < regs@.len() ==> regs@[j].host_id != host,
        },
{
    let n = regs.len();
    let mut i: usize = 0;
    while i < n
        invariant
            n == regs@.len(),
            i <= n,
            forall|j: int| 0 <= j < i ==> regs@[j].host_id != host,
        decreases n - i,
    {
        if regs[i].host_id == host {
            return Some(i);
        }
        i += 1;
    }
    None
}

/// One backing replica device, possibly shared between nodes.
#[derive(Debug)]
pub struct Replica {
    /// Identity by which child URIs name this replica.
    pub uuid: String,
    /// Size in bytes, fixed at provisioning time.
    pub size: u64,
    /// Registrants of the reservation protocol.
    pub registrants: Vec<Registrant>,
    /// Reservation type currently in force.
    pub resv: ResvType,
    /// Host identity of the write-exclusive holder, if any.
    pub holder: Option<u64>,
    /// Host identity that last wrote successfully, if any.
    pub last_writer: Option<u64>,
}

impl Replica {
    /// Abstract reservation state of this replica.
    pub open spec fn resv_view(self) -> ResvView {
        ResvView { regs: self.registrants@, resv: self.resv, holder: self.holder }
    }

    pub open spec fn wf(self) -> bool {
        self.resv_view().wf()
    }

    /// A fresh replica of the given size: no registrants, no
    /// reservation, never written.
    pub fn new(uuid: String, size: u64) -> (r: Replica)
        ensures
            r.uuid == uuid,
            r.size == size,
            r.resv_view() == (ResvView {
                regs: Seq::<Registrant>::empty(),
                resv: ResvType::Unreserved,
                holder: Option::<u64>::None,
            }),
            r.last_writer is None,
            r.wf(),
    {
        Replica {
            uuid,
            size,
            registrants: Vec::new(),
            resv: ResvType::Unreserved,
            holder: None,
            last_writer: None,
        }
    }

    /// Register `host` under `key`; skipped if already registered.
    pub fn register(&mut self, host: u64, key: u64)
        requires
            old(self).wf(),
        ensures
            final(self).wf(),
            final(self).resv_view() == spec_register(old(self).resv_view(), host, key),
            final(self).uuid == old(self).uuid,
            final(self).size == old(self).size,
            final(self).last_writer == old(self).last_writer,
    {
        match find_host(&self.registrants, host) {
            Some(i) => {
                proof {
                    assert(old(self).resv_view().regs[i as int].host_id == host);
                }
            },
            None => {
                self.registrants.push(Registrant { host_id: host, key });
            },
        }
        proof {
            lemma_register_wf(old(self).resv_view(), host, key);
        }
    }

    /// Acquire the write-exclusive reservation for `host`, preempting a
    /// different holder unconditionally.
    pub fn acquire(&mut self, host: u64)
        requires
            old(self).wf(),
            old(self).resv_view().is_registered(host),
        ensures
            final(self).wf(),
            final(self).resv_view() == spec_acquire(old(self).resv_view(), host),
            final(self).holder == Some(host),
            final(self).uuid == old(self).uuid,
            final(self).size == old(self).size,
            final(self).last_writer == old(self).last_writer,
    {
        match self.holder {
            None => {
                self.resv = ResvType::WriteExclusive;
                self.holder = Some(host);
            },
            Some(prev) => {
                if prev != host {
                    let ghost self0 = *self;
                    let ghost old_regs = self.registrants@;
                    let n = self.registrants.len();
                    let mut kept: Vec<Registrant> = Vec::new();
                    let mut i: usize = 0;
                    while i < n
                        invariant
                            *self == self0,
                            n == old_regs.len(),
                            self.registrants@ == old_regs,
                            i <= n,
                            kept@ == evict(old_regs.take(i as int), prev),
                        decreases n - i,
                    {
                        let r = self.registrants[i];
                        proof {
                            assert(old_regs.take(i + 1).drop_last() == old_regs.take(i as int));
                            assert(old_regs.take(i + 1).last() == old_regs[i as int]);
                        }
                        if r.host_id != prev {
                            kept.push(r);
                        }
                        i += 1;
                    }
                    proof {
                        assert(old_regs.take(n as int) == old_regs);
                    }
                    self.registrants = kept;
                    self.resv = ResvType::WriteExclusive;
                    self.holder = Some(host);
                }
            },
        }
        proof {
            lemma_acquire_wf(old(self).resv_view(), host);
        }
    }

    /// Issue one write on behalf of `host`.  Succeeds exactly when the
    /// host may write; a success is observable through `last_writer`,
    /// and a failure is a reservation conflict that changes nothing.
    pub fn write(&mut self, host: u64) -> (r: Result<(), ReplicaIoError>)
        requires
            old(self).wf(),
        ensures
            final(self).wf(),
            r is Ok <==> old(self).resv_view().can_write(host),
            r is Ok ==> *final(self) == (Replica { last_writer: Some(host), ..*old(self) }),
            r is Err ==> *final(self) == *old(self) && r == Err::<(), ReplicaIoError>(
                ReplicaIoError::ReservationConflict,
            ),
    {
        let allowed = match self.holder {
            None => true,
            Some(h) => h == host,
        };
        if allowed {
            self.last_writer = Some(host);
            Ok(())
        } else {
            Err(ReplicaIoError::ReservationConflict)
        }
    }

    /// Drop `host`'s registration on teardown, and the reservation
    /// with it if `host` held it.
    pub fn release(&mut self, host: u64)
        requires
            old(self).wf(),
        ensures
            final(self).wf(),
            final(self).resv_view() == spec_release(old(self).resv_view(), host),
            final(self).uuid == old(self).uuid,
            final(self).size == old(self).size,
            final(self).last_writer == old(self).last_writer,
    {
        let ghost self0 = *self;
        let ghost old_regs = self.registrants@;
        let n = self.registrants.len();
        let mut kept: Vec<Registrant> = Vec::new();
        let mut i: usize = 0;
        while i < n
            invariant
                *self == self0,
                n == old_regs.len(),
                self.registrants@ == old_regs,
                i <= n,
                kept@ == evict(old_regs.take(i as int), host),
            decreases n - i,
        {
            let r = self.registrants[i];
            proof {
                assert(old_regs.take(i + 1).drop_last() == old_regs.take(i as int));
                assert(old_regs.take(i + 1).last() == old_regs[i as int]);
            }
            if r.host_id != host {
                kept.push(r);
            }
            i += 1;
        }
        proof {
            assert(old_regs.take(n as int) == old_regs);
        }
        self.registrants = kept;
        let holds = match self.holder {
            None => false,
            Some(h) => h == host,
        };
        if holds {
            self.holder = None;
            self.resv = ResvType::Unreserved;
        }
        proof {
            lemma_release_wf(old(self).resv_view(), host);
        }
    }

    /// Issue one read on behalf of `host`.  Succeeds exactly when the
    /// host may read; a preempted (deregistered) host fails.
    pub fn read(&self, host: u64) -> (r: Result<(), ReplicaIoError>)
        requires
            self.wf(),
        ensures
            r is Ok <==> self.resv_view().can_read(host),
            r is Err ==> r == Err::<(), ReplicaIoError>(ReplicaIoError::ReservationConflict),
    {
        match self.resv {
            ResvType::Unreserved => Ok(()),
            ResvType::WriteExclusive => {
                match find_host(&self.registrants, host) {
                    Some(i) => {
                        proof {
                            assert(self.resv_view().regs[i as int].host_id == host);
                        }
                        Ok(())
                    },
                    None => Err(ReplicaIoError::ReservationConflict),
                }
            },
        }
    }
}

/// I/O outcome at the replica layer.
#[derive(Clone, Copy, Debug, PartialEq, Eq, Structural)]
pub enum ReplicaIoError {
    /// The issuing host does not hold (or never acquired) the write
    /// reservation, or has been preempted.
    ReservationConflict,
}

proof fn lemma_evict_removes(regs: Seq<Registrant>, victim: u64)
    ensures
        forall|i: int| 0 <= i < evict(regs, victim).len() ==> evict(regs, victim)[i].host_id
            != victim,
    decreases regs.len(),
{
    if regs.len() > 0 {
        lemma_evict_removes(regs.drop_last(), victim);
        let rest = evict(regs.drop_last(), victim);
        assert forall|i: int| 0 <= i < evict(regs, victim).len() implies #[trigger] evict(
            regs,
            victim,
        )[i].host_id != victim by {
            if regs.last().host_id == victim {
                assert(evict(regs, victim) == rest);
            } else {
                assert(evict(regs, victim) == rest.push(regs.last()));
                if i < rest.len() {
                    assert(evict(regs, victim)[i] == rest[i]);
                } else {
                    assert(evict(regs, victim)[i] == regs.last());
                }
            }
        }
    } else {
        assert(evict(regs, victim) == Seq::<Registrant>::empty());
    }
}

proof fn lemma_evict_keeps(regs: Seq<Registrant>, victim: u64, host: u64)
    requires
        host != victim,
    ensures
        (exists|i: int| 0 <= i < regs.len() && regs[i].host_id == host) ==> exists|i: int|
            0 <= i < evict(regs, victim).len() && evict(regs, victim)[i].host_id == host,
    decreases regs.len(),
{
    if regs.len() > 0 {
        lemma_evict_keeps(regs.drop_last(), victim, host);
        if exists|i: int| 0 <= i < regs.len() && regs[i].host_id == host {
            let i = choose|i: int| 0 <= i < regs.len() && regs[i].host_id == host;
            if i == regs.len() - 1 {
                assert(evict(regs, victim).last().host_id == host);
            } else {
                assert(regs.drop_last()[i].host_id == host);
                let j = choose|j: int|
                    0 <= j < evict(regs.drop_last(), victim).len() && evict(
                        regs.drop_last(),
                        victim,
                    )[j].host_id == host;
                if regs.last().host_id == victim {
                    assert(evict(regs, victim)[j].host_id == host);
                } else {
                    assert(evict(regs, victim)[j].host_id == host);
                }
            }
        }
    }
}

proof fn lemma_evict_distinct(regs: Seq<Registrant>, victim: u64)
    requires
        forall|i: int, j: int| 0 <= i < j < regs.len() ==> regs[i].host_id != regs[j].host_id,
    ensures
        forall|i: int, j: int|
            0 <= i < j < evict(regs, victim).len() ==> evict(regs, victim)[i].host_id != evict(
                regs,
                victim,
            )[j].host_id,
        forall|i: int| 0 <= i < evict(regs, victim).len() ==> exists|k: int|
            0 <= k < regs.len() && regs[k] == #[trigger] evict(regs, victim)[i],
    decreases regs.len(),
{
    if regs.len() > 0 {
        lemma_evict_distinct(regs.drop_last(), victim);
        assert forall|i: int| 0 <= i < evict(regs.drop_last(), victim).len() implies exists|k: int|
            0 <= k < regs.len() && regs[k] == #[trigger] evict(regs.drop_last(), victim)[i] by {
            let k = choose|k: int|
                0 <= k < regs.drop_last().len() && regs.drop_last()[k] == evict(
                    regs.drop_last(),
                    victim,
                )[i];
            assert(regs[k] == evict(regs.drop_last(), victim)[i]);
        }
        if regs.last().host_id != victim {
            assert forall|i: int| 0 <= i < evict(regs, victim).len() - 1 implies evict(
                regs,
                victim,
            )[i].host_id != regs.last().host_id by {
                let k = choose|k: int|
                    0 <= k < regs.drop_last().len() && regs.drop_last()[k] == evict(
                        regs.drop_last(),
                        victim,
                    )[i];
                assert(regs[k] == evict(regs, victim)[i]);
            }
        }
    }
}

/// Law: the preserved registrants of an acquisition are well-formed
/// state again; acquiring always makes the claimant the holder.
pub proof fn lemma_acquire_wf(v: ResvView, host: u64)
    requires
        v.wf(),
        v.is_registered(host),
    ensures
        spec_acquire(v, host).wf(),
        spec_acquire(v, host).holder == Some(host),
{
    match v.holder {
        Option::None => {
            let k = choose|k: int| 0 <= k < v.regs.len() && v.regs[k].host_id == host;
            assert(spec_acquire(v, host).regs[k].host_id == host);
        },
        Option::Some(prev) => {
            if prev != host {
                lemma_evict_removes(v.regs, prev);
                lemma_evict_keeps(v.regs, prev, host);
                lemma_evict_distinct(v.regs, prev);
                let w = spec_acquire(v, host);
                assert(w.regs == evict(v.regs, prev));
                let k = choose|k: int| 0 <= k < v.regs.len() && v.regs[k].host_id == host;
                assert(v.regs[k].host_id == host);
                assert(exists|i: int|
                    0 <= i < evict(v.regs, prev).len() && evict(v.regs, prev)[i].host_id
                        == host);
            }
        },
    }
}

/// Release on teardown: the host's registration is dropped, and the
/// reservation with it if the host held it.
pub open spec fn spec_release(v: ResvView, host: u64) -> ResvView {
    ResvView {
        regs: evict(v.regs, host),
        resv: if v.holder == Some(host) {
            ResvType::Unreserved
        } else {
            v.resv
        },
        holder: if v.holder == Some(host) {
            Option::<u64>::None
        } else {
            v.holder
        },
    }
}

/// Law: releasing keeps the state well-formed and leaves the host
/// neither registered nor holding.
pub proof fn lemma_release_wf(v: ResvView, host: u64)
    requires
        v.wf(),
    ensures
        spec_release(v, host).wf(),
        !spec_release(v, host).is_registered(host),
        spec_release(v, host).holder != Some(host),
{
    lemma_evict_removes(v.regs, host);
    lemma_evict_distinct(v.regs, host);
    let w = spec_release(v, host);
    assert(!w.is_registered(host));
    if w.holder is Some {
        let h = w.holder->0;
        lemma_evict_keeps(v.regs, host, h);
        assert(w.is_registered(h));
    }
    assert(w.resv is WriteExclusive <==> w.holder is Some);
    assert(forall|i: int, j: int|
        0 <= i < j < w.regs.len() ==> w.regs[i].host_id != w.regs[j].host_id);
    assert(w.wf());
}

/// Law: registration keeps the state well-formed and leaves the host
/// registered.
pub proof fn lemma_register_wf(v: ResvView, host: u64, key: u64)
    requires
        v.wf(),
    ensures
        spec_register(v, host, key).wf(),
        spec_register(v, host, key).is_registered(host),
        spec_register(v, host, key).holder == v.holder,
        spec_register(v, host, key).resv == v.resv,
{
    if !v.is_registered(host) {
        let w = spec_register(v, host, key);
        assert(w.regs == v.regs.push(Registrant { host_id: host, key }));
        assert(w.regs[w.regs.len() - 1].host_id == host);
        if v.holder is Some {
            let h = v.holder->0;
            let k = choose|k: int| 0 <= k < v.regs.len() && v.regs[k].host_id == h;
            assert(w.regs[k].host_id == h);
        }
        assert forall|i: int, j: int| 0 <= i < j < w.regs.len() implies w.regs[i].host_id
            != w.regs[j].host_id by {
            if j == w.regs.len() - 1 {
                assert(w.regs[i] == v.regs[i]);
                if w.regs[i].host_id == host {
                    assert(v.regs[i].host_id == host);
                }
            } else {
                assert(w.regs[i] == v.regs[i]);
                assert(w.regs[j] == v.regs[j]);
            }
        }
    }
}

/// Reservation exclusivity: after nexus A (host `a`) has acquired the
/// write-exclusive reservation, nexus B (host `b`) registers and
/// acquires; from then on writes and reads of A fail with a
/// reservation conflict while writes of B succeed.
pub proof fn lemma_reservation_exclusivity(v: ResvView, a: u64, b: u64, key: u64)
    requires
        v.wf(),
        a != b,
        v.is_registered(a),
    ensures
        ({
            let va = spec_acquire(v, a);
            let vb = spec_acquire(spec_register(va, b, key), b);
            &&& !vb.can_write(a)
            &&& !vb.can_read(a)
            &&& vb.can_write(b)
        }),
{
    let va = spec_acquire(v, a);
    lemma_acquire_wf(v, a);
    let vr = spec_register(va, b, key);
    lemma_register_wf(va, b, key);
    let vb = spec_acquire(vr, b);
    assert(vb.regs == evict(vr.regs, a));
    lemma_evict_removes(vr.regs, a);
}

/// Reservation idempotence: re-issuing acquire for the nexus that
/// already holds the reservation leaves the registrants (and with them
/// the registration count) and the holder unchanged.
pub proof fn lemma_reservation_idempotence(v: ResvView, host: u64)
    requires
        v.wf(),
        v.holder == Some(host),
    ensures
        spec_acquire(v, host) == v,
{
}

} // verus!
