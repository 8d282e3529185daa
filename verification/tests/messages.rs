//! The wire messages, the host-function table, and the on-chain event
//! schema.

use epochs::db::{Delta, DeltaKey, Stype};
use epochs::eng_resolver::{ImportResolver, ValType, GAS_FUNC, RET_FUNC, WRITE_STATE_FUNC};
use epochs::epoch_types::{WorkersParameterizedEvent, EventParamKind, WORKER_PARAMETERIZED_EVENT};
use epochs::messages::{
    unwrap_or_error, IpcDelta, IpcError, IpcMessageRequest, IpcMessageResponse, IpcRequest,
    IpcResponse, IpcResults, FAILED,
};

#[test]
fn from_response_keeps_the_id() {
    let resp = IpcResponse::GetAllTips { result: IpcResults::Status(0) };
    let msg = IpcMessageResponse::from_response(resp, String::from("id-1"));
    assert_eq!(msg.id, "id-1");
    assert!(matches!(msg.response, IpcResponse::GetAllTips { .. }));
}

#[test]
fn from_request_keeps_the_id() {
    let req = IpcRequest::GetAllAddrs;
    let msg = IpcMessageRequest::from_request(req, String::from("id-2"));
    assert_eq!(msg.id, "id-2");
    assert!(matches!(msg.request, IpcRequest::GetAllAddrs));
}

#[test]
fn from_delta_key_builds_the_hex_payload() {
    let k = DeltaKey { contract_address: [0xab; 32], key_type: Stype::Delta(7) };
    let d = IpcDelta::from_delta_key(k, &[0x01, 0x02]).unwrap();
    assert_eq!(d.key, 7);
    assert_eq!(d.address.as_deref(), Some("ab".repeat(32).as_str()));
    assert_eq!(d.delta.as_deref(), Some("0102"));
}

#[test]
fn from_delta_key_rejects_non_deltas() {
    let k = DeltaKey { contract_address: [0xab; 32], key_type: Stype::State };
    let err = IpcDelta::from_delta_key(k, &[0x01]).unwrap_err();
    assert_eq!(err, IpcError::NotDelta);
}

#[test]
fn from_delta_builds_the_hex_payload() {
    let delta = Delta {
        key: DeltaKey { contract_address: [0x01; 32], key_type: Stype::Delta(3) },
        value: vec![0xde, 0xad],
    };
    let d = IpcDelta::from_delta(delta);
    assert_eq!(d.key, 3);
    assert_eq!(d.address.as_deref(), Some("01".repeat(32).as_str()));
    assert_eq!(d.delta.as_deref(), Some("dead"));
}

#[test]
fn default_delta_is_empty() {
    let d = IpcDelta::default();
    assert!(d.address.is_none());
    assert_eq!(d.key, 0);
    assert!(d.delta.is_none());
}

#[test]
fn unwrap_or_error_passes_values_and_wraps_errors() {
    let ok: Result<IpcResponse, String> = Ok(IpcResponse::GetAllAddrs {
        result: IpcResults::Addresses(vec![String::from("01")]),
    });
    assert!(matches!(unwrap_or_error(ok), IpcResponse::GetAllAddrs { .. }));
    let err: Result<IpcResponse, String> = Err(String::from("boom"));
    match unwrap_or_error(err) {
        IpcResponse::Error { msg } => assert!(msg.contains("boom")),
        _ => panic!("expected an error response"),
    }
    assert_eq!(FAILED, -1);
}

#[test]
fn resolver_knows_the_host_functions() {
    let r = ImportResolver::with_limit(16);
    let (sig, id) = r.resolve_func("ret").unwrap();
    assert_eq!(id, RET_FUNC);
    assert_eq!(sig.0, vec![ValType::I32, ValType::I32]);
    assert!(sig.1.is_none());
    let (sig, id) = r.resolve_func("write_state").unwrap();
    assert_eq!(id, WRITE_STATE_FUNC);
    assert_eq!(sig.0.len(), 4);
    let (sig, id) = r.resolve_func("gas").unwrap();
    assert_eq!(id, GAS_FUNC);
    assert_eq!(sig.0, vec![ValType::I32]);
    let (sig, _) = r.resolve_func("read_state").unwrap();
    assert_eq!(sig.1, Some(ValType::I32));
    assert!(r.resolve_func("no_such_import").is_none());
}

#[test]
fn resolver_bounds_the_memory_request() {
    let r = ImportResolver::with_limit(16);
    assert!(r.memory_request_allowed(1, Some(16)));
    assert!(r.memory_request_allowed(16, Some(16)));
    assert!(!r.memory_request_allowed(17, Some(17)));
    assert!(!r.memory_request_allowed(1, Some(17)));
    // A module that declares no maximum is refused.
    assert!(!r.memory_request_allowed(1, None));
}

#[test]
fn event_schema_is_exact() {
    let e = WorkersParameterizedEvent::new();
    assert_eq!(e.name, WORKER_PARAMETERIZED_EVENT);
    assert_eq!(e.name, "WorkersParameterized");
    assert!(!e.anonymous);
    assert_eq!(e.inputs.len(), 6);
    let names: Vec<&str> = e.inputs.iter().map(|p| p.name).collect();
    assert_eq!(
        names,
        vec!["seed", "firstBlockNumber", "inclusionBlockNumber", "workers", "stakes", "nonce"]
    );
    assert_eq!(e.inputs[0].kind, EventParamKind::Uint256);
    assert_eq!(e.inputs[3].kind, EventParamKind::AddressArray);
    assert_eq!(e.inputs[4].kind, EventParamKind::Uint256Array);
    assert!(e.inputs.iter().all(|p| !p.indexed));
}
