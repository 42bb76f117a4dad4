//! The nexus: a virtual block device over an ordered set of children.
//!
//! A nexus aggregates one or more backing replicas, fans out writes to
//! every open child (all-or-nothing), serves reads from the first open
//! child, and exposes an advisory ANA path state once published.
//! Creation validates identity, size and every child URI before it
//! touches any replica: a failed creation leaves the replicas exactly
//! as they were.

use vstd::prelude::*;
use crate::replica::{
    lemma_acquire_wf,
    lemma_register_wf,
    spec_acquire,
    spec_register,
    Replica,
    ReplicaIoError,
};
use crate::status::{Status, StatusCode, ToStatus};
use crate::uri::{parse_child_uri, spec_parse_child_uri, ChildTarget, UriParse};

verus! {

/// Connection state of one child.
#[derive(Clone, Copy, Debug, PartialEq, Eq, Structural)]
pub enum ChildState {
    Init,
    Connecting,
    Open,
    Faulted,
    Closed,
}

/// Lifecycle state of a nexus.
#[derive(Clone, Copy, Debug, PartialEq, Eq, Structural)]
pub enum NexusState {
    Init,
    Open,
    Degraded,
    Faulted,
    Destroyed,
}

/// Advisory path state exposed to initiators for a published nexus.
#[derive(Clone, Copy, Debug, PartialEq, Eq, Structural)]
pub enum AnaState {
    Optimized,
    NonOptimized,
    Inaccessible,
}

/// Protocol a nexus is shared over.
#[derive(Clone, Copy, Debug, PartialEq, Eq, Structural)]
pub enum ShareProtocol {
    Nvmf,
}

/// Orchestration error of the nexus layer.
#[derive(Clone, Copy, Debug, PartialEq, Eq, Structural)]
pub enum NexusError {
    /// Creation was asked for an empty child list.
    NoChildren,
    /// Creation was asked for a zero size.
    InvalidSize,
    /// A nexus of that name or identity already exists.
    IdentityInUse,
    /// A child URI has no `scheme://` part.
    ChildUnparsable { child: usize },
    /// A child URI names an unsupported scheme.
    ChildSchemeUnsupported { child: usize },
    /// A child URI carries no replica identity.
    ChildUriInvalid { child: usize },
    /// A child URI names a replica that does not exist.
    ChildMissing { child: usize },
    /// A child's replica reports a size other than the nexus size.
    ChildSizeMismatch { child: usize },
    /// The nexus is not published.
    NotPublished,
    /// No child is open.
    NexusFaulted,
    /// A write was rejected because the reservation is held elsewhere.
    WriteConflict,
    /// A read was rejected because the registration was preempted.
    ReadConflict,
}

impl ToStatus for NexusError {
    open spec fn spec_status_code(&self) -> StatusCode {
        match self {
            NexusError::NoChildren => StatusCode::InvalidArgument,
            NexusError::InvalidSize => StatusCode::InvalidArgument,
            NexusError::IdentityInUse => StatusCode::InvalidArgument,
            NexusError::ChildUnparsable { .. } => StatusCode::InvalidArgument,
            NexusError::ChildSchemeUnsupported { .. } => StatusCode::InvalidArgument,
            NexusError::ChildUriInvalid { .. } => StatusCode::InvalidArgument,
            NexusError::ChildMissing { .. } => StatusCode::Internal,
            NexusError::ChildSizeMismatch { .. } => StatusCode::InvalidArgument,
            NexusError::NotPublished => StatusCode::Internal,
            NexusError::NexusFaulted => StatusCode::Internal,
            NexusError::WriteConflict => StatusCode::ReservationConflict,
            NexusError::ReadConflict => StatusCode::ReservationConflict,
        }
    }

    open spec fn spec_message(&self) -> Seq<char> {
        match self {
            NexusError::NoChildren => "nexus needs at least one child"@,
            NexusError::InvalidSize => "nexus size must be positive"@,
            NexusError::IdentityInUse => "nexus name or uuid already in use"@,
            NexusError::ChildUnparsable { .. } => "child URI cannot be parsed"@,
            NexusError::ChildSchemeUnsupported { .. } => "child URI scheme is unsupported"@,
            NexusError::ChildUriInvalid { .. } => "child URI names no replica"@,
            NexusError::ChildMissing { .. } => "child replica does not exist"@,
            NexusError::ChildSizeMismatch { .. } => "child size differs from nexus size"@,
            NexusError::NotPublished => "nexus is not published"@,
            NexusError::NexusFaulted => "no child of the nexus is open"@,
            NexusError::WriteConflict => "write reservation is held by another nexus"@,
            NexusError::ReadConflict => "registration was preempted"@,
        }
    }

    fn into_status(self) -> (s: Status)
        ensures
            s.code == self.spec_status_code(),
            s.message@ == self.spec_message(),
    {
        match self {
            NexusError::NoChildren => Status::invalid_argument(
                String::from_str("nexus needs at least one child"),
            ),
            NexusError::InvalidSize => Status::invalid_argument(
                String::from_str("nexus size must be positive"),
            ),
            NexusError::IdentityInUse => Status::invalid_argument(
                String::from_str("nexus name or uuid already in use"),
            ),
            NexusError::ChildUnparsable { .. } => Status::invalid_argument(
                String::from_str("child URI cannot be parsed"),
            ),
            NexusError::ChildSchemeUnsupported { .. } => Status::invalid_argument(
                String::from_str("child URI scheme is unsupported"),
            ),
            NexusError::ChildUriInvalid { .. } => Status::invalid_argument(
                String::from_str("child URI names no replica"),
            ),
            NexusError::ChildMissing { .. } => Status::internal(
                String::from_str("child replica does not exist"),
            ),
            NexusError::ChildSizeMismatch { .. } => Status::invalid_argument(
                String::from_str("child size differs from nexus size"),
            ),
            NexusError::NotPublished => Status::internal(
                String::from_str("nexus is not published"),
            ),
            NexusError::NexusFaulted => Status::internal(
                String::from_str("no child of the nexus is open"),
            ),
            NexusError::WriteConflict => Status::reservation_conflict(
                String::from_str("write reservation is held by another nexus"),
            ),
            NexusError::ReadConflict => Status::reservation_conflict(
                String::from_str("registration was preempted"),
            ),
        }
    }
}

/// Index of the replica named `uuid` at or after `i`, or `-1`.
pub open spec fn spec_find_replica(rs: Seq<Replica>, uuid: Seq<char>, i: int) -> int
    decreases rs.len() - i,
{
    if i < 0 || i >= rs.len() {
        -1
    } else if rs[i].uuid@ == uuid {
        i
    } else {
        spec_find_replica(rs, uuid, i + 1)
    }
}

pub proof fn lemma_find_replica(rs: Seq<Replica>, uuid: Seq<char>, i: int)
    requires
        0 <= i,
    ensures
        spec_find_replica(rs, uuid, i) == -1 ==> forall|j: int|
            i <= j < rs.len() ==> (#[trigger] rs[j]).uuid@ != uuid,
        spec_find_replica(rs, uuid, i) >= 0 ==> i <= spec_find_replica(rs, uuid, i) < rs.len()
            && rs[spec_find_replica(rs, uuid, i)].uuid@ == uuid,
    decreases rs.len() - i,
{
    if 0 <= i < rs.len() && rs[i].uuid@ != uuid {
        lemma_find_replica(rs, uuid, i + 1);
    }
}

/// The replica index is unchanged by any change that keeps every
/// replica's identity.
pub proof fn lemma_find_stable(rs1: Seq<Replica>, rs2: Seq<Replica>, uuid: Seq<char>, i: int)
    requires
        rs1.len() == rs2.len(),
        forall|j: int| 0 <= j < rs1.len() ==> (#[trigger] rs1[j]).uuid@ == rs2[j].uuid@,
    ensures
        spec_find_replica(rs1, uuid, i) == spec_find_replica(rs2, uuid, i),
    decreases rs1.len() - i,
{
    if 0 <= i < rs1.len() {
        lemma_find_stable(rs1, rs2, uuid, i + 1);
    }
}

/// All replicas of the node, looked up by identity.
#[derive(Debug)]
pub struct ReplicaStore {
    pub replicas: Vec<Replica>,
}

impl ReplicaStore {
    /// Replicas are well-formed and identities are unique.
    pub open spec fn wf(self) -> bool {
        &&& forall|i: int| 0 <= i < self.replicas@.len() ==> (#[trigger] self.replicas@[i]).wf()
        &&& forall|i: int, j: int|
            0 <= i < j < self.replicas@.len() ==> self.replicas@[i].uuid@
                != self.replicas@[j].uuid@
    }

    pub fn new() -> (r: ReplicaStore)
        ensures
            r.replicas@.len() == 0,
            r.wf(),
    {
        ReplicaStore { replicas: Vec::new() }
    }

    /// Index of the replica named `uuid`, if it exists.
    pub fn find(&self, uuid: &String) -> (r: Option<usize>)
        ensures
            match r {
                Some(i) => i < self.replicas@.len() && i as int == spec_find_replica(
                    self.replicas@,
                    uuid@,
                    0,
                ),
                None => spec_find_replica(self.replicas@, uuid@, 0) == -1,
            },
    {
        let n = self.replicas.len();
        let mut i: usize = 0;
        while i < n
            invariant
                n == self.replicas@.len(),
                i <= n,
                spec_find_replica(self.replicas@, uuid@, 0) == spec_find_replica(
                    self.replicas@,
                    uuid@,
                    i as int,
                ),
            decreases n - i,
        {
            if self.replicas[i].uuid == *uuid {
                return Some(i);
            }
            proof {
                assert(spec_find_replica(self.replicas@, uuid@, i as int) == spec_find_replica(
                    self.replicas@,
                    uuid@,
                    i + 1,
                ));
            }
            i += 1;
        }
        proof {
            assert(spec_find_replica(self.replicas@, uuid@, i as int) == -1);
        }
        None
    }

    /// Provision a fresh replica; the identity must be new.
    pub fn add_replica(&mut self, uuid: String, size: u64) -> (r: Result<(), NexusError>)
        requires
            old(self).wf(),
        ensures
            final(self).wf(),
            spec_find_replica(old(self).replicas@, uuid@, 0) >= 0 ==> r == Err::<(), NexusError>(
                NexusError::IdentityInUse,
            ) && *final(self) == *old(self),
            spec_find_replica(old(self).replicas@, uuid@, 0) == -1 ==> r is Ok && final(self).replicas@.len() == old(self).replicas@.len() + 1 && (forall|j: int|
                0 <= j < old(self).replicas@.len() ==> final(self).replicas@[j] == old(self).replicas@[j]) && final(self).replicas@.last().uuid@ == uuid@ && final(self).replicas@.last().size == size,
    {
        match self.find(&uuid) {
            Some(_) => Err(NexusError::IdentityInUse),
            None => {
                proof {
                    lemma_find_replica(self.replicas@, uuid@, 0);
                }
                let rep = Replica::new(uuid, size);
                self.replicas.push(rep);
                Ok(())
            },
        }
    }

    /// Register `host` on the replica at `i`.
    pub fn register_at(&mut self, i: usize, host: u64, key: u64)
        requires
            old(self).wf(),
            i < old(self).replicas@.len(),
        ensures
            final(self).wf(),
            final(self).replicas@.len() == old(self).replicas@.len(),
            forall|j: int|
                0 <= j < old(self).replicas@.len() && j != i ==> final(self).replicas@[j] == old(self).replicas@[j],
            final(self).replicas@[i as int].resv_view() == spec_register(
                old(self).replicas@[i as int].resv_view(),
                host,
                key,
            ),
            final(self).replicas@[i as int].uuid == old(self).replicas@[i as int].uuid,
            final(self).replicas@[i as int].size == old(self).replicas@[i as int].size,
            final(self).replicas@[i as int].last_writer == old(self).replicas@[i as int].last_writer,
    {
        let mut rep = self.replicas.remove(i);
        rep.register(host, key);
        self.replicas.insert(i, rep);
        proof {
            assert(final(self).replicas@ =~= old(self).replicas@.update(
                i as int,
                final(self).replicas@[i as int],
            ));
        }
    }

    /// Acquire the write-exclusive reservation for `host` on the
    /// replica at `i`, preempting a different holder.
    pub fn acquire_at(&mut self, i: usize, host: u64)
        requires
            old(self).wf(),
            i < old(self).replicas@.len(),
            old(self).replicas@[i as int].resv_view().is_registered(host),
        ensures
            final(self).wf(),
            final(self).replicas@.len() == old(self).replicas@.len(),
            forall|j: int|
                0 <= j < old(self).replicas@.len() && j != i ==> final(self).replicas@[j] == old(self).replicas@[j],
            final(self).replicas@[i as int].resv_view() == spec_acquire(
                old(self).replicas@[i as int].resv_view(),
                host,
            ),
            final(self).replicas@[i as int].holder == Some(host),
            final(self).replicas@[i as int].uuid == old(self).replicas@[i as int].uuid,
            final(self).replicas@[i as int].size == old(self).replicas@[i as int].size,
            final(self).replicas@[i as int].last_writer == old(self).replicas@[i as int].last_writer,
    {
        let mut rep = self.replicas.remove(i);
        rep.acquire(host);
        self.replicas.insert(i, rep);
        proof {
            assert(final(self).replicas@ =~= old(self).replicas@.update(
                i as int,
                final(self).replicas@[i as int],
            ));
        }
    }

    /// Issue one write on behalf of `host` to the replica at `i`.
    pub fn write_at(&mut self, i: usize, host: u64) -> (r: Result<(), ReplicaIoError>)
        requires
            old(self).wf(),
            i < old(self).replicas@.len(),
        ensures
            final(self).wf(),
            final(self).replicas@.len() == old(self).replicas@.len(),
            forall|j: int|
                0 <= j < old(self).replicas@.len() && j != i ==> final(self).replicas@[j] == old(self).replicas@[j],
            r is Ok <==> old(self).replicas@[i as int].resv_view().can_write(host),
            r is Ok ==> final(self).replicas@[i as int] == (Replica {
                last_writer: Some(host),
                ..old(self).replicas@[i as int]
            }),
            r is Err ==> final(self).replicas@[i as int] == old(self).replicas@[i as int] && r
                == Err::<(), ReplicaIoError>(ReplicaIoError::ReservationConflict),
    {
        let mut rep = self.replicas.remove(i);
        let r = rep.write(host);
        self.replicas.insert(i, rep);
        proof {
            assert(final(self).replicas@ =~= old(self).replicas@.update(
                i as int,
                final(self).replicas@[i as int],
            ));
        }
        r
    }

    /// Issue one read on behalf of `host` from the replica at `i`.
    pub fn read_at(&self, i: usize, host: u64) -> (r: Result<(), ReplicaIoError>)
        requires
            self.wf(),
            i < self.replicas@.len(),
        ensures
            r is Ok <==> self.replicas@[i as int].resv_view().can_read(host),
            r is Err ==> r == Err::<(), ReplicaIoError>(ReplicaIoError::ReservationConflict),
    {
        self.replicas[i].read(host)
    }

    /// Drop `host`'s registration (and reservation, if held) on the
    /// replica at `i`.
    pub fn release_at(&mut self, i: usize, host: u64)
        requires
            old(self).wf(),
            i < old(self).replicas@.len(),
        ensures
            final(self).wf(),
            final(self).replicas@.len() == old(self).replicas@.len(),
            forall|j: int|
                0 <= j < old(self).replicas@.len() && j != i ==> final(self).replicas@[j] == old(self).replicas@[j],
            final(self).replicas@[i as int].resv_view() == crate::replica::spec_release(
                old(self).replicas@[i as int].resv_view(),
                host,
            ),
            final(self).replicas@[i as int].uuid == old(self).replicas@[i as int].uuid,
            final(self).replicas@[i as int].size == old(self).replicas@[i as int].size,
            final(self).replicas@[i as int].last_writer == old(self).replicas@[i as int].last_writer,
    {
        let mut rep = self.replicas.remove(i);
        rep.release(host);
        self.replicas.insert(i, rep);
        proof {
            assert(final(self).replicas@ =~= old(self).replicas@.update(
                i as int,
                final(self).replicas@[i as int],
            ));
        }
    }
}

/// One child of a nexus: the URI it was created from, the replica it
/// names, and its connection state.
#[derive(Debug)]
pub struct NexusChild {
    pub uri: String,
    pub replica_uuid: String,
    pub shared: bool,
    pub state: ChildState,
}

/// The virtual block device.
#[derive(Debug)]
pub struct Nexus {
    pub name: String,
    pub uuid: String,
    /// Size in bytes, immutable after creation.
    pub size: u64,
    /// Children in creation order.
    pub children: Vec<NexusChild>,
    pub state: NexusState,
    /// Whether the nexus is exposed as a networked target.
    pub published: bool,
    /// Advisory path state; meaningful once published.
    pub ana: AnaState,
    /// Host identity this nexus registers and writes under.
    pub host_id: u64,
    /// Deployment-wide reservation key, configured at startup.
    pub resv_key: u64,
    /// Whether shared children take part in the reservation protocol.
    pub resv_enabled: bool,
}

impl Nexus {
    pub open spec fn all_children_open(self) -> bool {
        forall|i: int|
            0 <= i < self.children@.len() ==> (#[trigger] self.children@[i]).state is Open
    }

    pub open spec fn some_child_open(self) -> bool {
        exists|i: int|
            0 <= i < self.children@.len() && (#[trigger] self.children@[i]).state is Open
    }

    /// Lifecycle state the children imply.
    pub open spec fn computed_state(self) -> NexusState {
        if self.all_children_open() {
            NexusState::Open
        } else if self.some_child_open() {
            NexusState::Degraded
        } else {
            NexusState::Faulted
        }
    }

    pub open spec fn wf(self) -> bool {
        &&& self.children@.len() > 0
        &&& (self.state is Destroyed || self.state == self.computed_state())
    }

    /// Every child names a replica that exists in the store.
    pub open spec fn linked(self, store: ReplicaStore) -> bool {
        forall|i: int|
            0 <= i < self.children@.len() ==> spec_find_replica(
                store.replicas@,
                (#[trigger] self.children@[i]).replica_uuid@,
                0,
            ) >= 0
    }

    /// Index in the store of the replica behind child `i`.
    pub open spec fn child_replica(self, store: ReplicaStore, i: int) -> int {
        spec_find_replica(store.replicas@, self.children@[i].replica_uuid@, 0)
    }
}

/// Validation of one child URI against the store: parse faults first,
/// then a missing replica, then a size mismatch.
pub open spec fn child_error(store: ReplicaStore, size: u64, u: Seq<char>, child: usize) -> Option<
    NexusError,
> {
    match spec_parse_child_uri(u) {
        UriParse::Unparsable => Some(NexusError::ChildUnparsable { child }),
        UriParse::BadScheme => Some(NexusError::ChildSchemeUnsupported { child }),
        UriParse::Malformed => Some(NexusError::ChildUriInvalid { child }),
        UriParse::Local { uuid } => replica_fault(store, size, uuid, child),
        UriParse::Shared { uuid } => replica_fault(store, size, uuid, child),
    }
}

pub open spec fn replica_fault(store: ReplicaStore, size: u64, uuid: Seq<char>, child: usize) -> Option<
    NexusError,
> {
    let j = spec_find_replica(store.replicas@, uuid, 0);
    if j < 0 {
        Some(NexusError::ChildMissing { child })
    } else if store.replicas@[j].size != size {
        Some(NexusError::ChildSizeMismatch { child })
    } else {
        None
    }
}

/// First child fault at or after `i`, in child order.
pub open spec fn first_child_error(
    store: ReplicaStore,
    size: u64,
    uris: Seq<String>,
    i: int,
) -> Option<NexusError>
    decreases uris.len() - i,
{
    if i < 0 || i >= uris.len() {
        None
    } else {
        match child_error(store, size, uris[i]@, i as usize) {
            Some(e) => Some(e),
            None => first_child_error(store, size, uris, i + 1),
        }
    }
}

/// Why a creation request is rejected, or nothing if it is accepted:
/// an empty child list, a zero size, an identity already in use, and
/// then the first child fault in child order.
pub open spec fn spec_create_error(
    store: ReplicaStore,
    existing: Seq<Nexus>,
    name: Seq<char>,
    uuid: Seq<char>,
    size: u64,
    uris: Seq<String>,
) -> Option<NexusError> {
    if uris.len() == 0 {
        Some(NexusError::NoChildren)
    } else if size == 0 {
        Some(NexusError::InvalidSize)
    } else if exists|k: int|
        0 <= k < existing.len() && ((#[trigger] existing[k]).name@ == name || existing[k].uuid@
            == uuid) {
        Some(NexusError::IdentityInUse)
    } else {
        first_child_error(store, size, uris, 0)
    }
}

/// Whether target `t` is what child URI `u` names.
pub open spec fn target_matches(t: ChildTarget, u: Seq<char>) -> bool {
    match spec_parse_child_uri(u) {
        UriParse::Local { uuid } => !t.shared && t.uuid@ == uuid,
        UriParse::Shared { uuid } => t.shared && t.uuid@ == uuid,
        _ => false,
    }
}

/// Create a nexus over the given child URIs.
///
/// Identity, size and every child are validated first; only when all
/// checks pass are shared children registered and the write-exclusive
/// reservation acquired, and every child opened.  A rejected creation
/// reports exactly the first fault and leaves the store untouched.
pub fn nexus_create(
    store: &mut ReplicaStore,
    existing: &Vec<Nexus>,
    name: String,
    uuid: String,
    size: u64,
    uris: &Vec<String>,
    host_id: u64,
    resv_key: u64,
    resv_enabled: bool,
) -> (r: Result<Nexus, NexusError>)
    requires
        old(store).wf(),
    ensures
        final(store).wf(),
        match r {
            Ok(n) => {
                &&& spec_create_error(*old(store), existing@, name@, uuid@, size, uris@) is None
                &&& n.name == name
                &&& n.uuid == uuid
                &&& n.size == size
                &&& n.state is Open
                &&& !n.published
                &&& n.ana is Optimized
                &&& n.host_id == host_id
                &&& n.resv_key == resv_key
                &&& n.resv_enabled == resv_enabled
                &&& n.children@.len() == uris@.len()
                &&& forall|i: int|
                    0 <= i < uris@.len() ==> (#[trigger] n.children@[i]).uri@ == uris@[i]@
                        && n.children@[i].state is Open && target_matches(
                        ChildTarget { shared: n.children@[i].shared, uuid: n.children@[i].replica_uuid },
                        uris@[i]@,
                    )
                &&& n.wf()
                &&& n.linked(*final(store))
                &&& forall|i: int|
                    0 <= i < n.children@.len() ==> final(store).replicas@[#[trigger] n.child_replica(
                        *final(store),
                        i,
                    )].size == size
                &&& final(store).replicas@.len() == old(store).replicas@.len()
                &&& forall|j: int|
                    0 <= j < old(store).replicas@.len() ==> (#[trigger] final(store).replicas@[j]).uuid@ == old(store).replicas@[j].uuid@ && final(store).replicas@[j].size == old(store).replicas@[j].size && final(store).replicas@[j].last_writer == old(store).replicas@[j].last_writer
                &&& resv_enabled ==> forall|i: int|
                    0 <= i < n.children@.len() ==> final(store).replicas@[#[trigger] n.child_replica(*final(store), i)].holder == Some(host_id)
            },
            Err(e) => {
                &&& *final(store) == *old(store)
                &&& Some(e) == spec_create_error(
                    *old(store),
                    existing@,
                    name@,
                    uuid@,
                    size,
                    uris@,
                )
            },
        },
{
    let n_uris = uris.len();
    if n_uris == 0 {
        return Err(NexusError::NoChildren);
    }
    if size == 0 {
        return Err(NexusError::InvalidSize);
    }
    let ghost store0 = *store;

    // Unique identity among the existing nexuses.
    let n_ex = existing.len();
    let mut k: usize = 0;
    while k < n_ex
        invariant
            *store == store0,
            store0 == *old(store),
            store0.wf(),
            n_uris == uris@.len(),
            n_uris > 0,
            size != 0,
            n_ex == existing@.len(),
            k <= n_ex,
            forall|j: int|
                0 <= j < k ==> (#[trigger] existing@[j]).name@ != name@ && existing@[j].uuid@
                    != uuid@,
        decreases n_ex - k,
    {
        if existing[k].name == name || existing[k].uuid == uuid {
            return Err(NexusError::IdentityInUse);
        }
        k += 1;
    }

    // Validate every child before touching any replica.
    let mut targets: Vec<ChildTarget> = Vec::new();
    let mut i: usize = 0;
    while i < n_uris
        invariant
            *store == store0,
            store0 == *old(store),
            store0.wf(),
            n_uris == uris@.len(),
            n_uris > 0,
            size != 0,
            forall|j: int|
                0 <= j < existing@.len() ==> (#[trigger] existing@[j]).name@ != name@
                    && existing@[j].uuid@ != uuid@,
            i <= n_uris,
            targets@.len() == i,
            first_child_error(store0, size, uris@, 0) == first_child_error(
                store0,
                size,
                uris@,
                i as int,
            ),
            forall|j: int|
                0 <= j < i ==> child_error(store0, size, uris@[j]@, j as usize) is None,
            forall|j: int| 0 <= j < i ==> target_matches(#[trigger] targets@[j], uris@[j]@),
        decreases n_uris - i,
    {
        match parse_child_uri(&uris[i]) {
            Err(e) => {
                let fault = match e {
                    crate::status::NexusBdevError::UrlParseError { .. } => {
                        NexusError::ChildUnparsable { child: i }
                    },
                    crate::status::NexusBdevError::UriSchemeUnsupported { .. } => {
                        NexusError::ChildSchemeUnsupported { child: i }
                    },
                    crate::status::NexusBdevError::UriInvalid { .. } => {
                        NexusError::ChildUriInvalid { child: i }
                    },
                    crate::status::NexusBdevError::BdevNotFound { .. } => {
                        proof {
                            assert(false);
                        }
                        NexusError::ChildUnparsable { child: i }
                    },
                };
                proof {
                    assert(first_child_error(store0, size, uris@, i as int) == Some(fault));
                }
                return Err(fault);
            },
            Ok(t) => {
                match store.find(&t.uuid) {
                    None => {
                        proof {
                            assert(first_child_error(store0, size, uris@, i as int) == Some(
                                NexusError::ChildMissing { child: i },
                            ));
                        }
                        return Err(NexusError::ChildMissing { child: i });
                    },
                    Some(ri) => {
                        if store.replicas[ri].size != size {
                            proof {
                                assert(first_child_error(store0, size, uris@, i as int) == Some(
                                    NexusError::ChildSizeMismatch { child: i },
                                ));
                            }
                            return Err(NexusError::ChildSizeMismatch { child: i });
                        }
                    },
                }
                targets.push(t);
            },
        }
        proof {
            assert(first_child_error(store0, size, uris@, i as int) == first_child_error(
                store0,
                size,
                uris@,
                i + 1,
            ));
        }
        i += 1;
    }

    // All checks passed: connect every child, acquiring the
    // write-exclusive reservation on shared replicas.
    let mut children: Vec<NexusChild> = Vec::new();
    let mut i: usize = 0;
    while i < n_uris
        invariant
            store.wf(),
            store0 == *old(store),
            store0.wf(),
            n_uris == uris@.len(),
            n_uris > 0,
            size != 0,
            forall|j: int|
                0 <= j < existing@.len() ==> (#[trigger] existing@[j]).name@ != name@
                    && existing@[j].uuid@ != uuid@,
            first_child_error(store0, size, uris@, 0) is None,
            targets@.len() == n_uris,
            i <= n_uris,
            children@.len() == i,
            forall|j: int| 0 <= j < n_uris ==> target_matches(#[trigger] targets@[j], uris@[j]@),
            forall|j: int|
                0 <= j < n_uris ==> child_error(store0, size, uris@[j]@, j as usize) is None,
            store.replicas@.len() == store0.replicas@.len(),
            forall|j: int|
                0 <= j < store0.replicas@.len() ==> (#[trigger] store.replicas@[j]).uuid@
                    == store0.replicas@[j].uuid@ && store.replicas@[j].size
                    == store0.replicas@[j].size && store.replicas@[j].last_writer
                    == store0.replicas@[j].last_writer,
            forall|j: int|
                0 <= j < i ==> (#[trigger] children@[j]).uri@ == uris@[j]@ && children@[j].state
                    is Open && children@[j].shared == targets@[j].shared
                    && children@[j].replica_uuid@ == targets@[j].uuid@,
            resv_enabled ==> forall|j: int|
                0 <= j < i ==> store.replicas@[spec_find_replica(
                    store0.replicas@,
                    (#[trigger] targets@[j]).uuid@,
                    0,
                )].holder == Some(host_id),
        decreases n_uris - i,
    {
        let ghost store_pre = *store;
        let shared = targets[i].shared;
        let uuid_i = targets[i].uuid.clone();
        proof {
            lemma_find_stable(store.replicas@, store0.replicas@, uuid_i@, 0);
            lemma_find_replica(store0.replicas@, uuid_i@, 0);
        }
        let ri = match store.find(&uuid_i) {
            Some(j) => j,
            None => {
                proof {
                    assert(false);
                }
                return Err(NexusError::ChildMissing { child: i });
            },
        };
        if resv_enabled {
            let ghost pre = store.replicas@[ri as int].resv_view();
            store.register_at(ri, host_id, resv_key);
            proof {
                lemma_register_wf(pre, host_id, resv_key);
            }
            store.acquire_at(ri, host_id);
        }
        proof {
            if resv_enabled {
                assert forall|j: int| 0 <= j < i + 1 implies
                    store.replicas@[spec_find_replica(store0.replicas@, (#[trigger] targets@[j]).uuid@, 0)].holder
                        == Some(host_id) by {
                    let u = targets@[j].uuid@;
                    assert(target_matches(targets@[j], uris@[j]@));
                    assert(child_error(store0, size, uris@[j]@, j as usize) is None);
                    lemma_find_replica(store0.replicas@, u, 0);
                    let idx = spec_find_replica(store0.replicas@, u, 0);
                    assert(0 <= idx < store0.replicas@.len());
                    if j < i {
                        assert(store_pre.replicas@[idx].holder == Some(host_id));
                        if idx != ri as int {
                            assert(store.replicas@[idx] == store_pre.replicas@[idx]);
                        }
                    } else {
                        assert(targets@[j].uuid@ == uuid_i@);
                        assert(idx == ri as int);
                    }
                }
            }
        }
        children.push(
            NexusChild {
                uri: uris[i].clone(),
                replica_uuid: uuid_i,
                shared,
                state: ChildState::Open,
            },
        );
        i += 1;
    }

    let nexus = Nexus {
        name,
        uuid,
        size,
        children,
        state: NexusState::Open,
        published: false,
        ana: AnaState::Optimized,
        host_id,
        resv_key,
        resv_enabled,
    };
    proof {
        assert(nexus.all_children_open());
        assert forall|i2: int| 0 <= i2 < nexus.children@.len() implies spec_find_replica(
            store.replicas@,
            (#[trigger] nexus.children@[i2]).replica_uuid@,
            0,
        ) >= 0 && store.replicas@[nexus.child_replica(*store, i2)].size == size by {
            lemma_find_stable(store.replicas@, store0.replicas@, nexus.children@[i2].replica_uuid@, 0);
            lemma_find_replica(store0.replicas@, nexus.children@[i2].replica_uuid@, 0);
        }
        if resv_enabled {
            assert forall|i2: int|
                0 <= i2 < nexus.children@.len() implies
                store.replicas@[#[trigger] nexus.child_replica(*store, i2)].holder == Some(host_id) by {
                lemma_find_stable(store.replicas@, store0.replicas@, nexus.children@[i2].replica_uuid@, 0);
            }
        }
    }
    Ok(nexus)
}

/// Whether the replica behind child `k` admits a write from the nexus.
pub open spec fn spec_write_ok(n0: Nexus, s0: ReplicaStore, k: int) -> bool {
    s0.replicas@[n0.child_replica(s0, k)].resv_view().can_write(n0.host_id)
}

/// State of child `k` after one write fan-out: an open child whose
/// replica rejected the write is faulted, every other child is as it
/// was.
pub open spec fn spec_child_after_write(n0: Nexus, s0: ReplicaStore, k: int) -> NexusChild {
    let c = n0.children@[k];
    if c.state is Open && !spec_write_ok(n0, s0, k) {
        NexusChild { state: ChildState::Faulted, ..c }
    } else {
        c
    }
}

/// Whether one of the first `m` children is open, maps to replica `j`,
/// and its write was admitted.
pub open spec fn spec_wrote_to_upto(n0: Nexus, s0: ReplicaStore, j: int, m: int) -> bool {
    exists|k: int|
        0 <= k < m && (#[trigger] n0.children@[k]).state is Open && n0.child_replica(s0, k) == j
            && spec_write_ok(n0, s0, k)
}

/// Whether the write fan-out reaches replica `j` successfully.
pub open spec fn spec_wrote_to(n0: Nexus, s0: ReplicaStore, j: int) -> bool {
    spec_wrote_to_upto(n0, s0, j, n0.children@.len() as int)
}

/// Replica state is preserved but for the write marks: identities,
/// sizes and the whole reservation state are untouched.
pub open spec fn same_replicas_resv(s1: ReplicaStore, s2: ReplicaStore) -> bool {
    &&& s1.replicas@.len() == s2.replicas@.len()
    &&& forall|j: int|
        0 <= j < s1.replicas@.len() ==> (#[trigger] s1.replicas@[j]).uuid@ == s2.replicas@[j].uuid@
            && s1.replicas@[j].size == s2.replicas@[j].size && s1.replicas@[j].registrants@
            == s2.replicas@[j].registrants@ && s1.replicas@[j].resv == s2.replicas@[j].resv
            && s1.replicas@[j].holder == s2.replicas@[j].holder
}

/// First open child at or after `i`, or `-1`.
pub open spec fn spec_first_open(children: Seq<NexusChild>, i: int) -> int
    decreases children.len() - i,
{
    if i < 0 || i >= children.len() {
        -1
    } else if children[i].state is Open {
        i
    } else {
        spec_first_open(children, i + 1)
    }
}

/// Whether some child is open.
fn any_open(children: &Vec<NexusChild>) -> (r: bool)
    ensures
        r == exists|i: int|
            0 <= i < children@.len() && (#[trigger] children@[i]).state is Open,
{
    let n = children.len();
    let mut i: usize = 0;
    while i < n
        invariant
            n == children@.len(),
            i <= n,
            forall|j: int| 0 <= j < i ==> !((#[trigger] children@[j]).state is Open),
        decreases n - i,
    {
        if children[i].state == ChildState::Open {
            return true;
        }
        i += 1;
    }
    false
}

impl Nexus {
    /// Fan one write out to every open child.
    ///
    /// The write succeeds exactly when every open child's replica
    /// admits it; an open child whose replica rejects the write is
    /// faulted, and only those children change.  On any failure the
    /// nexus degrades (or faults, if no child stays open) and the
    /// caller sees a reservation conflict.
    pub fn write(&mut self, store: &mut ReplicaStore) -> (r: Result<(), NexusError>)
        requires
            old(self).wf(),
            old(store).wf(),
            old(self).linked(*old(store)),
            old(self).state is Open || old(self).state is Degraded,
        ensures
            final(self).wf(),
            final(store).wf(),
            final(self).linked(*final(store)),
            final(self).name == old(self).name,
            final(self).uuid == old(self).uuid,
            final(self).size == old(self).size,
            final(self).published == old(self).published,
            final(self).ana == old(self).ana,
            final(self).host_id == old(self).host_id,
            final(self).resv_key == old(self).resv_key,
            final(self).resv_enabled == old(self).resv_enabled,
            final(self).children@.len() == old(self).children@.len(),
            forall|k: int|
                0 <= k < old(self).children@.len() ==> final(self).children@[k]
                    == spec_child_after_write(*old(self), *old(store), k),
            same_replicas_resv(*final(store), *old(store)),
            forall|j: int|
                0 <= j < old(store).replicas@.len() ==> (#[trigger] final(store).replicas@[j]).last_writer
                    == (if spec_wrote_to(*old(self), *old(store), j) {
                    Some(old(self).host_id)
                } else {
                    old(store).replicas@[j].last_writer
                }),
            r is Ok <==> (forall|k: int|
                0 <= k < old(self).children@.len() && (#[trigger] old(self).children@[k]).state
                    is Open ==> spec_write_ok(*old(self), *old(store), k)),
            r is Ok ==> final(self).state == old(self).state,
            r is Err ==> r == Err::<(), NexusError>(NexusError::WriteConflict),
            final(self).state == final(self).computed_state(),
    {
        let ghost self0 = *old(self);
        let ghost s0 = *old(store);
        let n = self.children.len();
        let mut failed = false;
        let mut i: usize = 0;
        while i < n
            invariant
                self0 == *old(self),
                s0 == *old(store),
                self0.wf(),
                s0.wf(),
                self0.linked(s0),
                self0.state is Open || self0.state is Degraded,
                store.wf(),
                n == self0.children@.len(),
                i <= n,
                self.name == self0.name,
                self.uuid == self0.uuid,
                self.size == self0.size,
                self.published == self0.published,
                self.ana == self0.ana,
                self.host_id == self0.host_id,
                self.resv_key == self0.resv_key,
                self.resv_enabled == self0.resv_enabled,
                self.state == self0.state,
                self.children@.len() == n,
                forall|k: int| i <= k < n ==> self.children@[k] == self0.children@[k],
                forall|k: int|
                    0 <= k < i ==> self.children@[k] == spec_child_after_write(self0, s0, k),
                same_replicas_resv(*store, s0),
                forall|j: int|
                    0 <= j < s0.replicas@.len() ==> (#[trigger] store.replicas@[j]).last_writer
                        == (if spec_wrote_to_upto(self0, s0, j, i as int) {
                        Some(self0.host_id)
                    } else {
                        s0.replicas@[j].last_writer
                    }),
                failed == !(forall|k: int|
                    0 <= k < i && (#[trigger] self0.children@[k]).state is Open ==> spec_write_ok(
                        self0,
                        s0,
                        k,
                    )),
            decreases n - i,
        {
            let ghost store_pre = *store;
            let ghost children_pre = self.children@;
            let st = self.children[i].state;
            if st == ChildState::Open {
                proof {
                    assert(self0.children@[i as int].replica_uuid@
                        == self.children@[i as int].replica_uuid@);
                    lemma_find_stable(
                        store.replicas@,
                        s0.replicas@,
                        self.children@[i as int].replica_uuid@,
                        0,
                    );
                    lemma_find_replica(s0.replicas@, self.children@[i as int].replica_uuid@, 0);
                }
                let ri = match store.find(&self.children[i].replica_uuid) {
                    Some(j) => j,
                    None => {
                        proof {
                            assert(false);
                        }
                        return Err(NexusError::NexusFaulted);
                    },
                };
                proof {
                    assert(store.replicas@[ri as int].resv_view()
                        == s0.replicas@[ri as int].resv_view());
                    assert(self0.child_replica(s0, i as int) == ri as int);
                }
                match store.write_at(ri, self.host_id) {
                    Ok(_) => {
                        proof {
                            assert(spec_write_ok(self0, s0, i as int));
                        }
                    },
                    Err(_) => {
                        proof {
                            assert(!spec_write_ok(self0, s0, i as int));
                        }
                        let mut ch = self.children.remove(i);
                        ch.state = ChildState::Faulted;
                        self.children.insert(i, ch);
                        proof {
                            assert(self.children@ =~= children_pre.update(
                                i as int,
                                spec_child_after_write(self0, s0, i as int),
                            ));
                        }
                        failed = true;
                    },
                }
                proof {
                    assert forall|j: int| 0 <= j < s0.replicas@.len() implies (#[trigger] store
                        .replicas@[j]).last_writer == (if spec_wrote_to_upto(
                        self0,
                        s0,
                        j,
                        i + 1,
                    ) {
                        Some(self0.host_id)
                    } else {
                        s0.replicas@[j].last_writer
                    }) by {
                        if spec_wrote_to_upto(self0, s0, j, i + 1) {
                            let k = choose|k: int|
                                0 <= k < i + 1 && (#[trigger] self0.children@[k]).state is Open
                                    && self0.child_replica(s0, k) == j && spec_write_ok(
                                    self0,
                                    s0,
                                    k,
                                );
                            if k < i {
                                assert(spec_wrote_to_upto(self0, s0, j, i as int));
                                assert(store_pre.replicas@[j].last_writer == Some(
                                    self0.host_id,
                                ));
                                if j != ri as int {
                                    assert(store.replicas@[j] == store_pre.replicas@[j]);
                                }
                            } else {
                                assert(j == ri as int);
                            }
                        } else {
                            assert(!spec_wrote_to_upto(self0, s0, j, i as int));
                            if j == ri as int && spec_write_ok(self0, s0, i as int) {
                                assert(spec_wrote_to_upto(self0, s0, j, i + 1));
                            }
                            if j != ri as int {
                                assert(store.replicas@[j] == store_pre.replicas@[j]);
                            }
                        }
                    }
                }
            } else {
                proof {
                    assert forall|j: int| 0 <= j < s0.replicas@.len() implies (#[trigger] store
                        .replicas@[j]).last_writer == (if spec_wrote_to_upto(
                        self0,
                        s0,
                        j,
                        i + 1,
                    ) {
                        Some(self0.host_id)
                    } else {
                        s0.replicas@[j].last_writer
                    }) by {
                        assert(spec_wrote_to_upto(self0, s0, j, i + 1) == spec_wrote_to_upto(
                            self0,
                            s0,
                            j,
                            i as int,
                        )) by {
                            if spec_wrote_to_upto(self0, s0, j, i + 1) {
                                let k = choose|k: int|
                                    0 <= k < i + 1 && (#[trigger] self0.children@[k]).state
                                        is Open && self0.child_replica(s0, k) == j
                                        && spec_write_ok(self0, s0, k);
                                assert(k < i);
                            }
                        }
                    }
                }
            }
            i += 1;
        }
        proof {
            assert forall|k: int| 0 <= k < self.children@.len() implies spec_find_replica(
                store.replicas@,
                (#[trigger] self.children@[k]).replica_uuid@,
                0,
            ) >= 0 by {
                assert(self.children@[k] == spec_child_after_write(self0, s0, k));
                assert(self.children@[k].replica_uuid@ == self0.children@[k].replica_uuid@);
                lemma_find_stable(store.replicas@, s0.replicas@, self0.children@[k].replica_uuid@, 0);
                lemma_find_replica(s0.replicas@, self0.children@[k].replica_uuid@, 0);
            }
        }
        if failed {
            let open_left = any_open(&self.children);
            if open_left {
                self.state = NexusState::Degraded;
            } else {
                self.state = NexusState::Faulted;
            }
            proof {
                assert(!self.all_children_open()) by {
                    let k = choose|k: int|
                        0 <= k < n && (#[trigger] self0.children@[k]).state is Open
                            && !spec_write_ok(self0, s0, k);
                    assert(self.children@[k] == spec_child_after_write(self0, s0, k));
                    assert(self.children@[k].state is Faulted);
                }
            }
            Err(NexusError::WriteConflict)
        } else {
            proof {
                assert forall|k: int| 0 <= k < n implies self.children@[k]
                    == self0.children@[k] by {
                    assert(self.children@[k] == spec_child_after_write(self0, s0, k));
                }
                assert(self.children@ =~= self0.children@);
            }
            Ok(())
        }
    }
}

impl Nexus {
    /// Serve one read from the first open child.
    ///
    /// Fails when no child is open, or with a reservation conflict
    /// when the backing replica no longer admits reads from this
    /// nexus (its registration was preempted).
    pub fn read(&self, store: &ReplicaStore) -> (r: Result<(), NexusError>)
        requires
            self.wf(),
            store.wf(),
            self.linked(*store),
        ensures
            spec_first_open(self.children@, 0) == -1 ==> r == Err::<(), NexusError>(
                NexusError::NexusFaulted,
            ),
            spec_first_open(self.children@, 0) >= 0 ==> {
                let j = self.child_replica(*store, spec_first_open(self.children@, 0));
                if store.replicas@[j].resv_view().can_read(self.host_id) {
                    r is Ok
                } else {
                    r == Err::<(), NexusError>(NexusError::ReadConflict)
                }
            },
    {
        let n = self.children.len();
        let mut i: usize = 0;
        while i < n
            invariant
                self.wf(),
                store.wf(),
                self.linked(*store),
                n == self.children@.len(),
                i <= n,
                spec_first_open(self.children@, 0) == spec_first_open(self.children@, i as int),
            decreases n - i,
        {
            if self.children[i].state == ChildState::Open {
                proof {
                    assert(spec_first_open(self.children@, i as int) == i);
                    lemma_find_replica(store.replicas@, self.children@[i as int].replica_uuid@, 0);
                }
                let ri = match store.find(&self.children[i].replica_uuid) {
                    Some(j) => j,
                    None => {
                        proof {
                            assert(false);
                        }
                        return Err(NexusError::NexusFaulted);
                    },
                };
                match store.read_at(ri, self.host_id) {
                    Ok(_) => {
                        return Ok(());
                    },
                    Err(_) => {
                        return Err(NexusError::ReadConflict);
                    },
                }
            }
            proof {
                assert(spec_first_open(self.children@, i as int) == spec_first_open(
                    self.children@,
                    i + 1,
                ));
            }
            i += 1;
        }
        proof {
            assert(spec_first_open(self.children@, i as int) == -1);
        }
        Err(NexusError::NexusFaulted)
    }

    /// Expose the nexus as a networked target.  Publishing sets the
    /// advisory path state to optimized.
    pub fn publish(&mut self, protocol: ShareProtocol)
        ensures
            *final(self) == (Nexus { published: true, ana: AnaState::Optimized, ..*old(self) }),
    {
        match protocol {
            ShareProtocol::Nvmf => {},
        }
        self.published = true;
        self.ana = AnaState::Optimized;
    }

    /// Set the advisory path state of a published nexus.  The change
    /// is synchronous and idempotent: the new state is what any
    /// following query reports, with no intermediate state.
    pub fn set_ana_state(&mut self, state: AnaState) -> (r: Result<(), NexusError>)
        ensures
            old(self).published ==> r is Ok && *final(self) == (Nexus {
                ana: state,
                ..*old(self)
            }),
            !old(self).published ==> r == Err::<(), NexusError>(NexusError::NotPublished)
                && *final(self) == *old(self),
    {
        if !self.published {
            return Err(NexusError::NotPublished);
        }
        self.ana = state;
        Ok(())
    }

    /// Query the advisory path state of a published nexus.
    pub fn get_ana_state(&self) -> (r: Result<AnaState, NexusError>)
        ensures
            self.published ==> r == Ok::<AnaState, NexusError>(self.ana),
            !self.published ==> r == Err::<AnaState, NexusError>(NexusError::NotPublished),
    {
        if self.published {
            Ok(self.ana)
        } else {
            Err(NexusError::NotPublished)
        }
    }

    /// Tear the nexus down: close every child, withdraw the exported
    /// target, and give up registrations and reservations this nexus
    /// holds on shared replicas.
    pub fn destroy(&mut self, store: &mut ReplicaStore)
        requires
            old(self).wf(),
            old(store).wf(),
            old(self).linked(*old(store)),
        ensures
            final(store).wf(),
            final(self).state is Destroyed,
            !final(self).published,
            final(self).wf(),
            final(self).name == old(self).name,
            final(self).uuid == old(self).uuid,
            final(self).size == old(self).size,
            final(self).children@.len() == old(self).children@.len(),
            forall|k: int|
                0 <= k < old(self).children@.len() ==> (#[trigger] final(self).children@[k]).state
                    is Closed && final(self).children@[k].replica_uuid@ == old(
                    self,
                ).children@[k].replica_uuid@ && final(self).children@[k].uri@ == old(
                    self,
                ).children@[k].uri@,
            final(store).replicas@.len() == old(store).replicas@.len(),
            forall|j: int|
                0 <= j < old(store).replicas@.len() ==> (#[trigger] final(store).replicas@[j]).uuid@
                    == old(store).replicas@[j].uuid@ && final(store).replicas@[j].size == old(
                    store,
                ).replicas@[j].size,
            old(self).resv_enabled ==> forall|k: int|
                0 <= k < old(self).children@.len()
                    ==> !final(store).replicas@[#[trigger] old(self).child_replica(*final(store), k)].resv_view().is_registered(
                    old(self).host_id,
                ) && final(store).replicas@[old(self).child_replica(*final(store), k)].holder
                    != Some(old(self).host_id),
    {
        let ghost self0 = *old(self);
        let ghost s0 = *old(store);
        let n = self.children.len();
        let mut i: usize = 0;
        while i < n
            invariant
                self0 == *old(self),
                s0 == *old(store),
                self0.wf(),
                s0.wf(),
                self0.linked(s0),
                store.wf(),
                n == self0.children@.len(),
                i <= n,
                self.name == self0.name,
                self.uuid == self0.uuid,
                self.size == self0.size,
                self.published == self0.published,
                self.host_id == self0.host_id,
                self.resv_enabled == self0.resv_enabled,
                self.children@.len() == n,
                forall|k: int| i <= k < n ==> self.children@[k] == self0.children@[k],
                forall|k: int|
                    0 <= k < i ==> (#[trigger] self.children@[k]).state is Closed
                        && self.children@[k].replica_uuid@ == self0.children@[k].replica_uuid@
                        && self.children@[k].uri@ == self0.children@[k].uri@,
                store.replicas@.len() == s0.replicas@.len(),
                forall|j: int|
                    0 <= j < s0.replicas@.len() ==> (#[trigger] store.replicas@[j]).uuid@
                        == s0.replicas@[j].uuid@ && store.replicas@[j].size
                        == s0.replicas@[j].size,
                self0.resv_enabled ==> forall|k: int|
                    0 <= k < i ==> !store.replicas@[spec_find_replica(
                        s0.replicas@,
                        (#[trigger] self0.children@[k]).replica_uuid@,
                        0,
                    )].resv_view().is_registered(self0.host_id) && store.replicas@[spec_find_replica(
                        s0.replicas@,
                        self0.children@[k].replica_uuid@,
                        0,
                    )].holder != Some(self0.host_id),
            decreases n - i,
        {
            let ghost store_pre = *store;
            if self.resv_enabled {
                proof {
                    lemma_find_stable(
                        store.replicas@,
                        s0.replicas@,
                        self.children@[i as int].replica_uuid@,
                        0,
                    );
                    lemma_find_replica(s0.replicas@, self.children@[i as int].replica_uuid@, 0);
                }
                let ri = match store.find(&self.children[i].replica_uuid) {
                    Some(j) => j,
                    None => {
                        proof {
                            assert(false);
                        }
                        return ;
                    },
                };
                let ghost pre = store.replicas@[ri as int].resv_view();
                store.release_at(ri, self.host_id);
                proof {
                    crate::replica::lemma_release_wf(pre, self.host_id);
                    if self0.resv_enabled {
                        assert forall|k: int|
                            0 <= k < i + 1 implies
                            !store.replicas@[spec_find_replica(
                                s0.replicas@,
                                (#[trigger] self0.children@[k]).replica_uuid@,
                                0,
                            )].resv_view().is_registered(self0.host_id)
                                && store.replicas@[spec_find_replica(
                                s0.replicas@,
                                self0.children@[k].replica_uuid@,
                                0,
                            )].holder != Some(self0.host_id) by {
                            lemma_find_replica(
                                s0.replicas@,
                                self0.children@[k].replica_uuid@,
                                0,
                            );
                            let idx = spec_find_replica(
                                s0.replicas@,
                                self0.children@[k].replica_uuid@,
                                0,
                            );
                            if k < i && idx != ri as int {
                                assert(store.replicas@[idx] == store_pre.replicas@[idx]);
                            } else {
                                assert(idx == ri as int);
                            }
                        }
                    }
                }
            }
            let mut ch = self.children.remove(i);
            ch.state = ChildState::Closed;
            self.children.insert(i, ch);
            i += 1;
        }
        self.state = NexusState::Destroyed;
        self.published = false;
        proof {
            assert forall|k: int|
                self0.resv_enabled && 0 <= k < n implies
                !store.replicas@[#[trigger] self0.child_replica(*store, k)].resv_view().is_registered(
                    self0.host_id,
                ) && store.replicas@[self0.child_replica(*store, k)].holder != Some(
                    self0.host_id,
                ) by {
                lemma_find_stable(store.replicas@, s0.replicas@, self0.children@[k].replica_uuid@, 0);
            }
        }
    }
}

/// ANA propagation: the path state set on a published nexus is
/// exactly the one the nexus then exposes; a path-state query issued
/// right after the change observes it, with no intermediate state.
pub proof fn lemma_ana_propagation(n: Nexus, s: AnaState)
    requires
        n.published,
    ensures
        ({
            let after = Nexus { ana: s, ..n };
            &&& after.published
            &&& after.ana == s
        }),
{
}

} // verus!
