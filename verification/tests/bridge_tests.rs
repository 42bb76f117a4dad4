use mayastor::bridge::{
    completion_try_recv, rpc_call, rpc_submit, sync_config, GrpcResult, Response,
};
use mayastor::reactor::{Reactor, TaskFuture};
use mayastor::status::{CoreError, NexusBdevError, Status, StatusCode, ToStatus};

#[test]
fn rpc_call_ready_future() {
    let mut r = Reactor::new(0, 4);
    let fut: TaskFuture<u32, NexusBdevError> = TaskFuture { polls: 0, outcome: Ok(7) };
    let resp = rpc_call(&mut r, fut).unwrap();
    assert_eq!(resp.value, 7);
}

#[test]
fn rpc_call_error_maps_to_invalid_argument() {
    let mut r = Reactor::new(0, 4);
    let fut: TaskFuture<u32, NexusBdevError> = TaskFuture {
        polls: 1,
        outcome: Err(NexusBdevError::UriSchemeUnsupported { scheme: String::from("file") }),
    };
    let err = rpc_call(&mut r, fut).unwrap_err();
    assert_eq!(err.code, StatusCode::InvalidArgument);
    assert_eq!(err.message, "unsupported URI scheme: file");
}

#[test]
fn rpc_call_error_maps_to_internal() {
    let mut r = Reactor::new(0, 4);
    let fut: TaskFuture<u32, NexusBdevError> = TaskFuture {
        polls: 2,
        outcome: Err(NexusBdevError::BdevNotFound { name: String::from("disk0") }),
    };
    let err = rpc_call(&mut r, fut).unwrap_err();
    assert_eq!(err.code, StatusCode::Internal);
    assert_eq!(err.message, "bdev not found: disk0");
}

#[test]
fn error_to_status_mapping() {
    let s = NexusBdevError::UrlParseError { url: String::from("???") }.into_status();
    assert_eq!(s.code, StatusCode::InvalidArgument);
    assert_eq!(s.message, "failed to parse URL: ???");
    let s = NexusBdevError::UriInvalid { uri: String::from("nvmf://x") }.into_status();
    assert_eq!(s.code, StatusCode::InvalidArgument);
    let s = CoreError::ReactorShutdown.into_status();
    assert_eq!(s.code, StatusCode::Internal);
}

#[test]
fn block_on_shutdown_reactor_fails() {
    let mut r = Reactor::new(0, 4);
    r.shutdown();
    let out = r.block_on(TaskFuture::<u32, NexusBdevError> { polls: 0, outcome: Ok(3) });
    assert!(matches!(out, Err(CoreError::ReactorShutdown)));
}

#[test]
fn rpc_submit_delivers_result() {
    let mut r = Reactor::new(0, 2);
    let mut rx = rpc_submit(&mut r, TaskFuture { polls: 1, outcome: Ok(42) }).unwrap();
    assert!(completion_try_recv(&mut rx).is_none());
    r.poll_once();
    assert!(completion_try_recv(&mut rx).is_none());
    r.poll_once();
    match completion_try_recv(&mut rx) {
        Some(Ok(v)) => assert_eq!(v, 42),
        _ => panic!("expected the submitted task's value"),
    }
}

#[test]
fn rpc_submit_delivers_error_status() {
    let mut r = Reactor::new(0, 2);
    let mut rx = rpc_submit(
        &mut r,
        TaskFuture {
            polls: 0,
            outcome: Err(NexusBdevError::BdevNotFound { name: String::from("gone") }),
        },
    )
    .unwrap();
    r.poll_once();
    match completion_try_recv(&mut rx) {
        Some(Err(s)) => assert_eq!(s.code, StatusCode::Internal),
        _ => panic!("expected a status"),
    }
}

#[test]
fn rpc_submit_queue_full_is_resource_exhausted() {
    let mut r = Reactor::new(0, 1);
    let _rx = rpc_submit(&mut r, TaskFuture { polls: 0, outcome: Ok(1) }).unwrap();
    let err = rpc_submit(&mut r, TaskFuture { polls: 0, outcome: Ok(2) }).unwrap_err();
    assert_eq!(err.code, StatusCode::ResourceExhausted);
    assert_eq!(err.message, "ENOMEM");
}

#[test]
fn rpc_submit_fifo_order() {
    let mut r = Reactor::new(0, 4);
    let mut rx1 = rpc_submit(&mut r, TaskFuture { polls: 0, outcome: Ok(1) }).unwrap();
    let mut rx2 = rpc_submit(&mut r, TaskFuture { polls: 0, outcome: Ok(2) }).unwrap();
    r.poll_once();
    match completion_try_recv(&mut rx1) {
        Some(Ok(v)) => assert_eq!(v, 1),
        _ => panic!("first submission should complete first"),
    }
    assert!(completion_try_recv(&mut rx2).is_none());
    r.poll_once();
    match completion_try_recv(&mut rx2) {
        Some(Ok(v)) => assert_eq!(v, 2),
        _ => panic!("second submission should complete second"),
    }
}

#[test]
fn sync_config_export_failure_is_data_loss() {
    let ok: GrpcResult<u32> = Ok(Response::new(5));
    let err = sync_config(ok, Err(String::from("disk full"))).unwrap_err();
    assert_eq!(err.code, StatusCode::DataLoss);
    assert_eq!(err.message, "Failed to export config");
}

#[test]
fn sync_config_passes_through() {
    let ok: GrpcResult<u32> = Ok(Response::new(5));
    let r = sync_config(ok, Ok(())).unwrap();
    assert_eq!(r.value, 5);
    let e: GrpcResult<u32> = Err(Status::internal(String::from("boom")));
    let r2 = sync_config(e, Err(String::from("export skipped"))).unwrap_err();
    assert_eq!(r2.code, StatusCode::Internal);
    assert_eq!(r2.message, "boom");
}
