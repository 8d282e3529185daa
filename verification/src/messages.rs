//! The wire messages the worker node exchanges with its peer over the
//! request/response socket: requests, responses, and the payloads they
//! carry.  Binary payloads travel as lower-case hexadecimal strings.

use vstd::prelude::*;

verus! {

use crate::db::{Delta, DeltaKey, Stype};
use crate::hexutil::{hex_str, to_hex};

/// A response status: zero and up is success, `FAILED` is failure.
pub type Status = i8;

/// The failure status.
pub const FAILED: Status = -1;

/// Why a message could not be built.
#[derive(Debug, Clone, Copy, PartialEq, Eq, Structural)]
pub enum IpcError {
    /// The storage record offered as a delta is not a delta.
    NotDelta,
}

/// One request envelope: the caller's correlation id and the request.
#[derive(Debug, Clone)]
pub struct IpcMessageRequest {
    pub id: String,
    pub request: IpcRequest,
}

/// One response envelope: the correlation id it answers and the response.
#[derive(Debug, Clone)]
pub struct IpcMessageResponse {
    pub id: String,
    pub response: IpcResponse,
}

/// Every response the worker node can send.
#[derive(Debug, Clone)]
pub enum IpcResponse {
    GetRegistrationParams { result: IpcResults },
    GetTip { result: IpcDelta },
    GetTips { result: IpcResults },
    GetAllTips { result: IpcResults },
    GetAllAddrs { result: IpcResults },
    GetDelta { result: IpcResults },
    GetDeltas { result: IpcResults },
    GetContract { result: IpcResults },
    UpdateNewContract { address: String, result: IpcResults },
    UpdateDeltas { result: IpcResults },
    NewTaskEncryptionKey { result: IpcResults },
    DeploySecretContract { result: IpcResults },
    ComputeTask { result: IpcResults },
    GetPTTRequest { result: IpcResults },
    PTTResponse { result: IpcResults },
    Error { msg: String },
}

/// The result payloads responses carry.
#[derive(Debug, Clone)]
pub enum IpcResults {
    Errors(Vec<IpcStatusResult>),
    Request { request: String, sig: String },
    Addresses(Vec<String>),
    Delta(String),
    Deltas(Vec<IpcDelta>),
    Bytecode(String),
    Status(Status),
    Tips(Vec<IpcDelta>),
    UpdateDeltasResult { status: Status, errors: Vec<IpcStatusResult> },
    DHKey { dh_key: String, sig: String },
    RegistrationParams { signing_key: String, report: String, signature: String },
    ComputeResult { used_gas: u64, output: String, delta: IpcDelta, signature: String },
    DeployResult {
        pre_code_hash: String,
        used_gas: u64,
        output: String,
        delta: IpcDelta,
        signature: String,
    },
}

/// Every request the worker node can receive.
#[derive(Debug, Clone)]
pub enum IpcRequest {
    GetRegistrationParams,
    GetTip { input: String },
    GetTips { input: Vec<String> },
    GetAllTips,
    GetAllAddrs,
    GetDelta { input: IpcDelta },
    GetDeltas { input: Vec<IpcGetDeltas> },
    GetContract { input: String },
    UpdateNewContract { address: String, bytecode: String },
    UpdateDeltas { deltas: Vec<IpcDelta> },
    NewTaskEncryptionKey { user_pubkey: String },
    DeploySecretContract { input: IpcTask },
    ComputeTask { input: IpcTask },
    GetPTTRequest { input: Addresses },
    PTTResponse { input: PrincipalResponse },
}

/// A task to deploy or compute: code, encrypted call material, and limits.
#[derive(Debug, Clone)]
pub struct IpcTask {
    pub pre_code: Option<String>,
    pub encrypted_args: String,
    pub encrypted_fn: String,
    pub user_dhkey: String,
    pub gas_limit: u64,
    pub address: String,
}

/// The outcome for one address inside a bulk update.
#[derive(Debug, Clone)]
pub struct IpcStatusResult {
    pub address: String,
    pub key: Option<u32>,
    pub status: Status,
}

/// One state delta on the wire: its contract, its index, and its bytes in
/// hexadecimal.
#[derive(Debug, Clone)]
pub struct IpcDelta {
    pub address: Option<String>,
    pub key: u32,
    pub delta: Option<String>,
}

impl Default for IpcDelta {
    fn default() -> (r: Self)
        ensures
            r.address is None,
            r.key == 0,
            r.delta is None,
    {
        IpcDelta { address: None, key: 0, delta: None }
    }
}

/// A request for the deltas of one contract in an index range.
#[derive(Debug, Clone)]
pub struct IpcGetDeltas {
    pub address: String,
    pub from: u32,
    pub to: u32,
}

/// The principal node's response, forwarded verbatim.
#[derive(Debug, Clone)]
pub struct PrincipalResponse(pub String);

/// A list of contract addresses in hexadecimal.
#[derive(Debug, Clone)]
pub struct Addresses(pub Vec<String>);

impl Addresses {
    /// The addresses held.
    pub fn list(&self) -> (r: &Vec<String>)
        ensures
            r == &self.0,
    {
        &self.0
    }
}

impl IpcMessageResponse {
    /// Wraps a response with the correlation id it answers.
    pub fn from_response(response: IpcResponse, id: String) -> (r: Self)
        ensures
            r.id == id,
            r.response == response,
    {
        Self { id, response }
    }
}

impl IpcMessageRequest {
    /// Wraps a request with its correlation id.
    pub fn from_request(request: IpcRequest, id: String) -> (r: Self)
        ensures
            r.id == id,
            r.request == request,
    {
        Self { id, request }
    }
}

impl IpcDelta {
    /// A wire delta from a storage key and the delta's bytes; fails when
    /// the key is not a delta key.
    pub fn from_delta_key(k: DeltaKey, v: &[u8]) -> (r: Result<Self, IpcError>)
        ensures
            k.key_type matches Stype::Delta(indx) ==> r matches Ok(d) && d.key == indx
                && (d.address matches Some(a) && a@ == hex_str(k.contract_address@)) && (
            d.delta matches Some(ds) && ds@ == hex_str(v@)),
            !(k.key_type is Delta) ==> r == Err::<IpcDelta, IpcError>(IpcError::NotDelta),
    {
        if let Stype::Delta(indx) = k.key_type {
            Ok(
                IpcDelta {
                    address: Some(to_hex(k.contract_address.as_slice())),
                    key: indx,
                    delta: Some(to_hex(v)),
                },
            )
        } else {
            Err(IpcError::NotDelta)
        }
    }

    /// A wire delta from a stored one, which must be a delta record.
    pub fn from_delta(delta: Delta) -> (r: Self)
        requires
            delta.key.key_type matches Stype::Delta(_),
        ensures
            delta.key.key_type matches Stype::Delta(indx) ==> r.key == indx,
            r.address matches Some(a) && a@ == hex_str(delta.key.contract_address@),
            r.delta matches Some(ds) && ds@ == hex_str(delta.value@),
    {
        let address = to_hex(delta.key.contract_address.as_slice());
        let value = to_hex(delta.value.as_slice());
        let key = delta.key.key_type.unwrap_delta();
        IpcDelta { address: Some(address), key, delta: Some(value) }
    }
}

/// The response for a result that may have failed: the value itself, or
/// an error response carrying the failure's description.
pub fn unwrap_or_error<E: core::fmt::Debug>(r: Result<IpcResponse, E>) -> (out: IpcResponse)
    ensures
        r matches Ok(m) ==> out == m,
        r is Err ==> out is Error,
{
    match r {
        Ok(m) => m,
        Err(e) => IpcResponse::Error { msg: debug_string(&e) },
    }
}

/// Relies on the `format!` macro with core::fmt::Debug: spells a value
/// out for an error message; nothing is assumed of the text.
#[verifier::external_body]
fn debug_string<E: core::fmt::Debug>(e: &E) -> String {
    format!("{:?}", e)
}

} // verus!
