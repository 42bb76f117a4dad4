//! Two nexuses on different nodes attach to one shared replica: the
//! multipath and reservation-acquisition scenarios.

use mayastor::nexus::{
    nexus_create, AnaState, ChildState, NexusState, ReplicaStore, ShareProtocol,
};
use mayastor::replica::ResvType;
use mayastor::status::{StatusCode, ToStatus};

const RESV_KEY: u64 = 0x12345678;
const MB32: u64 = 32 * 1024 * 1024;
const HOST_MS1: u64 = 1;
const HOST_MS2: u64 = 2;

#[test]
fn nexus_multipath() {
    // One shared replica, exported by the first node's pool.
    let mut store = ReplicaStore::new();
    store.add_replica(String::from("repl-uuid"), MB32).unwrap();

    // First node: nexus over the local (loopback) path, published.
    let uris1 = vec![String::from("loopback:///repl-uuid")];
    let mut nexus1 = nexus_create(
        &mut store,
        &vec![],
        String::from("nexus-ms1"),
        String::from("nexus-uuid"),
        MB32,
        &uris1,
        HOST_MS1,
        RESV_KEY,
        true,
    )
    .unwrap();
    assert_eq!(nexus1.state, NexusState::Open);
    nexus1.publish(ShareProtocol::Nvmf);
    assert!(matches!(nexus1.get_ana_state(), Ok(AnaState::Optimized)));

    // Second node: a second path to the same replica over the
    // networked URI.
    let uris2 = vec![String::from("nvmf://10.1.0.2:8420/nqn-2019-05:repl-uuid")];
    let nexus2 = nexus_create(
        &mut store,
        &vec![],
        String::from("nexus-ms2"),
        String::from("nexus-uuid-2"),
        MB32,
        &uris2,
        HOST_MS2,
        RESV_KEY,
        true,
    )
    .unwrap();
    assert_eq!(nexus2.state, NexusState::Open);

    // The preemption left exactly one registered controller, with a
    // dynamically assigned (different) holder identity.
    assert_eq!(store.replicas[0].registrants.len(), 1, "should have 1 registered controller");
    assert_eq!(store.replicas[0].registrants[0].key, RESV_KEY);
    assert_ne!(store.replicas[0].holder, Some(HOST_MS1), "holder identity must have moved");

    // The ANA change on the published nexus is observable by the very
    // next path-state query.
    nexus1.set_ana_state(AnaState::NonOptimized).unwrap();
    match nexus1.get_ana_state() {
        Ok(state) => assert_eq!(state, AnaState::NonOptimized, "incorrect ANA state"),
        Err(_) => panic!("published nexus must answer path-state queries"),
    }
}

#[test]
fn nexus_resv_acquire() {
    let mut store = ReplicaStore::new();
    store.add_replica(String::from("repl-uuid"), MB32).unwrap();

    // First nexus acquires the write-exclusive reservation under the
    // deployment key.
    let uris1 = vec![String::from("loopback:///repl-uuid")];
    let mut nexus1 = nexus_create(
        &mut store,
        &vec![],
        String::from("nexus-ms1"),
        String::from("nexus-uuid"),
        MB32,
        &uris1,
        HOST_MS1,
        RESV_KEY,
        true,
    )
    .unwrap();
    assert_eq!(
        store.replicas[0].resv,
        ResvType::WriteExclusive,
        "should have write exclusive reservation"
    );
    assert_eq!(store.replicas[0].registrants.len(), 1, "should have 1 registered controller");
    assert_eq!(
        store.replicas[0].registrants[0].key,
        RESV_KEY,
        "should have default registered key"
    );
    assert_eq!(store.replicas[0].holder, Some(HOST_MS1));
    nexus1.publish(ShareProtocol::Nvmf);
    assert!(nexus1.write(&mut store).is_ok());

    // Second nexus on another node connects to the shared replica and
    // preempts the reservation unconditionally.
    let uris2 = vec![String::from("nvmf://10.1.0.2:8420/nqn-2019-05:repl-uuid")];
    let mut nexus2 = nexus_create(
        &mut store,
        &vec![],
        String::from("nexus-ms2"),
        String::from("nexus-uuid-2"),
        MB32,
        &uris2,
        HOST_MS2,
        RESV_KEY,
        true,
    )
    .unwrap();
    assert_eq!(
        store.replicas[0].resv,
        ResvType::WriteExclusive,
        "should have write exclusive reservation"
    );
    assert_eq!(store.replicas[0].registrants.len(), 1, "should have 1 registered controller");
    assert_ne!(
        store.replicas[0].holder,
        Some(HOST_MS1),
        "should have different hostid holding reservation"
    );
    assert_eq!(store.replicas[0].holder, Some(HOST_MS2));

    // The preempted nexus fails its writes with a reservation
    // conflict, and its reads fail after the write failure.
    let err = nexus1.write(&mut store).unwrap_err();
    assert_eq!(err.into_status().code, StatusCode::ReservationConflict, "writes should fail");
    assert_eq!(nexus1.children[0].state, ChildState::Faulted);
    assert!(nexus1.read(&store).is_err(), "reads should also fail after write failure");

    // The new holder's writes succeed.
    assert!(nexus2.write(&mut store).is_ok());
    assert_eq!(store.replicas[0].last_writer, Some(HOST_MS2));
}
