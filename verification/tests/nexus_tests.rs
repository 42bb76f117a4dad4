use mayastor::nexus::{
    nexus_create, AnaState, ChildState, NexusError, NexusState, ReplicaStore, ShareProtocol,
};
use mayastor::status::{StatusCode, ToStatus};

const RESV_KEY: u64 = 0x12345678;
const MB32: u64 = 32 * 1024 * 1024;

fn store_with(replicas: &[(&str, u64)]) -> ReplicaStore {
    let mut s = ReplicaStore::new();
    for (uuid, size) in replicas {
        s.add_replica(String::from(*uuid), *size).unwrap();
    }
    s
}

#[test]
fn create_checks_child_sizes() {
    let mut store = store_with(&[("u1", MB32), ("u2", 64 * 1024 * 1024)]);
    let uris = vec![String::from("loopback:///u1"), String::from("loopback:///u2")];
    let r = nexus_create(
        &mut store,
        &vec![],
        String::from("nexus-a"),
        String::from("uuid-a"),
        MB32,
        &uris,
        1,
        RESV_KEY,
        true,
    );
    match r {
        Err(e) => {
            assert!(matches!(e, NexusError::ChildSizeMismatch { child: 1 }));
            assert_eq!(e.into_status().code, StatusCode::InvalidArgument);
        },
        Ok(_) => panic!("size mismatch must fail creation"),
    }
    // Never partially: the matching first child was not registered either.
    assert_eq!(store.replicas[0].registrants.len(), 0);
    assert_eq!(store.replicas[1].registrants.len(), 0);
}

#[test]
fn create_rejects_bad_requests() {
    let mut store = store_with(&[("u1", MB32)]);
    let none: Vec<String> = vec![];
    let r = nexus_create(
        &mut store,
        &vec![],
        String::from("n"),
        String::from("u"),
        MB32,
        &none,
        1,
        RESV_KEY,
        true,
    );
    assert!(matches!(r, Err(NexusError::NoChildren)));

    let uris = vec![String::from("loopback:///u1")];
    let r = nexus_create(
        &mut store,
        &vec![],
        String::from("n"),
        String::from("u"),
        0,
        &uris,
        1,
        RESV_KEY,
        true,
    );
    assert!(matches!(r, Err(NexusError::InvalidSize)));

    let bad_scheme = vec![String::from("aio:///disk0")];
    let r = nexus_create(
        &mut store,
        &vec![],
        String::from("n"),
        String::from("u"),
        MB32,
        &bad_scheme,
        1,
        RESV_KEY,
        true,
    );
    match r {
        Err(e) => {
            assert!(matches!(e, NexusError::ChildSchemeUnsupported { child: 0 }));
            assert_eq!(e.into_status().code, StatusCode::InvalidArgument);
        },
        Ok(_) => panic!("unsupported scheme must fail"),
    }

    let unparsable = vec![String::from("no-scheme-here")];
    let r = nexus_create(
        &mut store,
        &vec![],
        String::from("n"),
        String::from("u"),
        MB32,
        &unparsable,
        1,
        RESV_KEY,
        true,
    );
    assert!(matches!(r, Err(NexusError::ChildUnparsable { child: 0 })));

    let missing = vec![String::from("loopback:///does-not-exist")];
    let r = nexus_create(
        &mut store,
        &vec![],
        String::from("n"),
        String::from("u"),
        MB32,
        &missing,
        1,
        RESV_KEY,
        true,
    );
    match r {
        Err(e) => {
            assert!(matches!(e, NexusError::ChildMissing { child: 0 }));
            assert_eq!(e.into_status().code, StatusCode::Internal);
        },
        Ok(_) => panic!("missing replica must fail"),
    }

    let empty_path = vec![String::from("loopback:///")];
    let r = nexus_create(
        &mut store,
        &vec![],
        String::from("n"),
        String::from("u"),
        MB32,
        &empty_path,
        1,
        RESV_KEY,
        true,
    );
    assert!(matches!(r, Err(NexusError::ChildUriInvalid { child: 0 })));
}

#[test]
fn create_requires_unique_identity() {
    let mut store = store_with(&[("u1", MB32)]);
    let uris = vec![String::from("loopback:///u1")];
    let first = nexus_create(
        &mut store,
        &vec![],
        String::from("nexus-a"),
        String::from("uuid-a"),
        MB32,
        &uris,
        1,
        RESV_KEY,
        false,
    )
    .unwrap();
    let existing = vec![first];
    let r = nexus_create(
        &mut store,
        &existing,
        String::from("nexus-a"),
        String::from("uuid-b"),
        MB32,
        &uris,
        1,
        RESV_KEY,
        false,
    );
    assert!(matches!(r, Err(NexusError::IdentityInUse)));
}

#[test]
fn write_fan_out_all_or_nothing() {
    let mut store = store_with(&[("u1", 1024), ("u2", 1024)]);
    let uris = vec![
        String::from("nvmf://10.1.0.2:8420/nqn-2019-05:u1"),
        String::from("loopback:///u2"),
    ];
    let mut n = nexus_create(
        &mut store,
        &vec![],
        String::from("nexus-a"),
        String::from("uuid-a"),
        1024,
        &uris,
        1,
        RESV_KEY,
        true,
    )
    .unwrap();
    assert_eq!(n.state, NexusState::Open);
    assert_eq!(n.children.len(), 2);

    // All children open, all replicas writable: the write succeeds on
    // every child.
    assert!(n.write(&mut store).is_ok());
    assert_eq!(store.replicas[0].last_writer, Some(1));
    assert_eq!(store.replicas[1].last_writer, Some(1));

    // Another claimant preempts the shared replica: the next fan-out
    // fails, exactly the failing child faults, the nexus degrades.
    store.replicas[0].register(2, RESV_KEY);
    store.replicas[0].acquire(2);
    let err = n.write(&mut store).unwrap_err();
    assert_eq!(err.into_status().code, StatusCode::ReservationConflict);
    assert_eq!(n.children[0].state, ChildState::Faulted);
    assert_eq!(n.children[1].state, ChildState::Open);
    assert_eq!(n.state, NexusState::Degraded);

    // The still-open child keeps serving writes; the nexus stays
    // degraded and reports failure only if a remaining child fails.
    store.replicas[1].last_writer = None;
    assert!(n.write(&mut store).is_ok());
    assert_eq!(store.replicas[1].last_writer, Some(1));
}

#[test]
fn write_faults_whole_nexus_when_no_child_survives() {
    let mut store = store_with(&[("u1", 1024)]);
    let uris = vec![String::from("loopback:///u1")];
    let mut n = nexus_create(
        &mut store,
        &vec![],
        String::from("nexus-a"),
        String::from("uuid-a"),
        1024,
        &uris,
        1,
        RESV_KEY,
        true,
    )
    .unwrap();

    // The only replica is taken over: the only child faults and the
    // nexus with it; reads then fail as well.
    store.replicas[0].register(2, RESV_KEY);
    store.replicas[0].acquire(2);
    let err = n.write(&mut store).unwrap_err();
    assert_eq!(err.into_status().code, StatusCode::ReservationConflict);
    assert_eq!(n.children[0].state, ChildState::Faulted);
    assert_eq!(n.state, NexusState::Faulted);
    assert!(matches!(n.read(&store), Err(NexusError::NexusFaulted)));
}

#[test]
fn ana_state_propagates_immediately() {
    let mut store = store_with(&[("u1", MB32)]);
    let uris = vec![String::from("loopback:///u1")];
    let mut n = nexus_create(
        &mut store,
        &vec![],
        String::from("nexus-a"),
        String::from("uuid-a"),
        MB32,
        &uris,
        1,
        RESV_KEY,
        false,
    )
    .unwrap();

    // Not published yet: the path state is not served.
    assert!(matches!(n.get_ana_state(), Err(NexusError::NotPublished)));
    assert!(matches!(n.set_ana_state(AnaState::NonOptimized), Err(NexusError::NotPublished)));

    n.publish(ShareProtocol::Nvmf);
    assert!(matches!(n.get_ana_state(), Ok(AnaState::Optimized)));

    n.set_ana_state(AnaState::NonOptimized).unwrap();
    assert!(matches!(n.get_ana_state(), Ok(AnaState::NonOptimized)));

    // Idempotent re-set.
    n.set_ana_state(AnaState::NonOptimized).unwrap();
    assert!(matches!(n.get_ana_state(), Ok(AnaState::NonOptimized)));
}

#[test]
fn destroy_releases_reservation_resources() {
    let mut store = store_with(&[("u1", MB32)]);
    let uris = vec![String::from("nvmf://10.1.0.2:8420/nqn-2019-05:u1")];
    let mut n = nexus_create(
        &mut store,
        &vec![],
        String::from("nexus-a"),
        String::from("uuid-a"),
        MB32,
        &uris,
        1,
        RESV_KEY,
        true,
    )
    .unwrap();
    assert_eq!(store.replicas[0].holder, Some(1));
    assert_eq!(store.replicas[0].registrants.len(), 1);

    n.destroy(&mut store);
    assert_eq!(n.state, NexusState::Destroyed);
    assert!(!n.published);
    assert_eq!(n.children[0].state, ChildState::Closed);
    assert_eq!(store.replicas[0].holder, None);
    assert_eq!(store.replicas[0].registrants.len(), 0);
}
