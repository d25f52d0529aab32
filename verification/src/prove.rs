//! The decisions of the proving service: every request is proved on its own
//! messages, the proof is stored, the contract is called with the request's
//! address, and an HTTP status answers the request.
//!
//! The service itself (HTTP, files, prover, chain) performs each action and
//! reports what happened as the next event.
use vstd::prelude::*;
use vstd::string::*;

verus! {

/// The score threshold handed to the contract.
pub const SCORE_THRESHOLD: u64 = 50;

/// HTTP 200.
pub const STATUS_OK: u16 = 200;

/// HTTP 400.
pub const STATUS_BAD_REQUEST: u16 = 400;

/// HTTP 500.
pub const STATUS_INTERNAL_SERVER_ERROR: u16 = 500;

/// Where a request stands.
pub enum ProveStage {
    /// Waiting for the request (its address is already parsed).
    Start,
    /// The prover runs on the request's messages; the address waits for the
    /// contract call.
    Proving { address: Vec<u8> },
    /// Waiting for the contract call to be prepared.
    Calling,
    /// Waiting for the transaction to be sent.
    Sending,
    /// The request has been answered.
    Done,
}

/// What the service reports back.
pub enum ProveEvent {
    /// A request arrived for this address (its 20 bytes).
    Request { address: Vec<u8> },
    /// The prover finished on the request's messages.
    ProofReady { proof: Vec<u8>, public_values: Vec<u8> },
    /// The prover returned an error.
    ProverFailed,
    /// The prover task did not finish (it panicked or was cancelled).
    ProverCrashed,
    /// The contract call is prepared.
    CallPrepared,
    /// The contract refused to prepare the call.
    CallRejected,
    /// The transaction was sent, with this hash.
    Sent { tx_hash: String },
    /// Sending the transaction failed.
    SendFailed,
}

/// An argument of the contract call.
pub enum CallArg {
    /// A byte string.
    Bytes(Vec<u8>),
    /// An address (its 20 bytes).
    Address(Vec<u8>),
    /// An unsigned integer.
    Uint(u64),
}

/// A call of a contract function.
pub struct ContractCall {
    pub function: String,
    pub args: Vec<CallArg>,
}

/// What the service does next.
pub enum ProveAction {
    /// Run the prover on the request's messages.
    RunProver,
    /// Write `proof_file` to the file "proof" and `public_inputs_file` to the
    /// file "public_inputs", then prepare `call`.
    StoreProofAndPrepareCall { proof_file: Vec<u8>, public_inputs_file: Vec<u8>, call: ContractCall },
    /// Send the prepared transaction.
    SendCall,
    /// Answer the request with this status and transaction hash.
    Respond { status: u16, tx: String },
    /// The event does not belong to this stage: nothing to do.
    Ignore,
}

/// The call made for a proof: `newGirlfriend(public values, proof, address,
/// threshold)`.
pub open spec fn call_is(call: ContractCall, proof: Seq<u8>, public_values: Seq<u8>, address: Seq<
    u8,
>) -> bool {
    &&& call.function@ == "newGirlfriend"@
    &&& call.args@.len() == 4
    &&& call.args@[0] matches CallArg::Bytes(b) && b@ == public_values
    &&& call.args@[1] matches CallArg::Bytes(b) && b@ == proof
    &&& call.args@[2] matches CallArg::Address(a) && a@ == address
    &&& call.args@[3] matches CallArg::Uint(n) && n == SCORE_THRESHOLD
}

/// The answer to a failed request: the status, and an empty hash.
pub open spec fn fails_with(action: ProveAction, code: u16) -> bool {
    action matches ProveAction::Respond { status, tx } && status == code && tx@.len() == 0
}

/// The next stage after an event, and whether the action fits: a request
/// runs the prover; a proof is stored and the call prepared with the
/// request's address; the call is sent; the request is answered 200 with the
/// hash once sent, 400 when the prover failed, and 500 when the prover
/// crashed or the call could not be prepared or sent. A stage keeps still,
/// doing nothing, on an event that does not belong to it.
pub open spec fn step_holds(
    stage: ProveStage,
    event: ProveEvent,
    next: ProveStage,
    action: ProveAction,
) -> bool {
    match (stage, event) {
        (ProveStage::Start, ProveEvent::Request { address }) => {
            &&& next matches ProveStage::Proving { address: a } && a@ == address@
            &&& action is RunProver
        },
        (ProveStage::Proving { address }, ProveEvent::ProofReady { proof, public_values }) => {
            &&& next is Calling
            &&& action matches ProveAction::StoreProofAndPrepareCall {
                proof_file,
                public_inputs_file,
                call,
            } && proof_file@ == proof@ && public_inputs_file@ == public_values@ && call_is(
                call,
                proof@,
                public_values@,
                address@,
            )
        },
        (ProveStage::Proving { .. }, ProveEvent::ProverFailed) => {
            &&& next is Done
            &&& fails_with(action, STATUS_BAD_REQUEST)
        },
        (ProveStage::Proving { .. }, ProveEvent::ProverCrashed) => {
            &&& next is Done
            &&& fails_with(action, STATUS_INTERNAL_SERVER_ERROR)
        },
        (ProveStage::Calling, ProveEvent::CallPrepared) => {
            &&& next is Sending
            &&& action is SendCall
        },
        (ProveStage::Calling, ProveEvent::CallRejected) => {
            &&& next is Done
            &&& fails_with(action, STATUS_INTERNAL_SERVER_ERROR)
        },
        (ProveStage::Sending, ProveEvent::Sent { tx_hash }) => {
            &&& next is Done
            &&& action matches ProveAction::Respond { status, tx } && status == STATUS_OK && tx@
                == tx_hash@
        },
        (ProveStage::Sending, ProveEvent::SendFailed) => {
            &&& next is Done
            &&& fails_with(action, STATUS_INTERNAL_SERVER_ERROR)
        },
        _ => next == stage && action is Ignore,
    }
}

/// A contract call is only ever prepared from the proving stage, on the
/// prover's own result; and the proving stage is only ever entered by running
/// the prover. So no call is made on a proof that was not made for the
/// request.
pub proof fn lemma_call_only_after_proving(
    stage: ProveStage,
    event: ProveEvent,
    next: ProveStage,
    action: ProveAction,
)
    requires
        step_holds(stage, event, next, action),
    ensures
        action is StoreProofAndPrepareCall ==> stage is Proving && event is ProofReady,
        next is Proving ==> (stage is Proving && action is Ignore) || action is RunProver,
{
}

/// The request is answered 200 exactly when a sent transaction is reported
/// while sending.
pub proof fn lemma_ok_only_after_sending(
    stage: ProveStage,
    event: ProveEvent,
    next: ProveStage,
    action: ProveAction,
)
    requires
        step_holds(stage, event, next, action),
    ensures
        (action matches ProveAction::Respond { status, .. } && status == STATUS_OK) <==> (stage
            is Sending && event is Sent),
{
}

/// Every answer ends the request, and an answered request stays answered.
pub proof fn lemma_respond_ends(
    stage: ProveStage,
    event: ProveEvent,
    next: ProveStage,
    action: ProveAction,
)
    requires
        step_holds(stage, event, next, action),
    ensures
        action is Respond ==> next is Done,
        stage is Done ==> next is Done && action is Ignore,
{
}

/// A copy of a byte string.
fn copy_bytes(v: &Vec<u8>) -> (r: Vec<u8>)
    ensures
        r@ == v@,
{
    let mut r: Vec<u8> = Vec::new();
    let mut i: usize = 0;
    while i < v.len()
        invariant
            i <= v@.len(),
            r@ == v@.subrange(0, i as int),
        decreases v@.len() - i,
    {
        r.push(v[i]);
        i += 1;
        assert(r@ =~= v@.subrange(0, i as int));
    }
    assert(r@ =~= v@);
    r
}

/// The files to store and the call to prepare for a proof of the request.
pub fn prepare_call(proof: Vec<u8>, public_values: Vec<u8>, address: Vec<u8>) -> (r: ProveAction)
    ensures
        r matches ProveAction::StoreProofAndPrepareCall { proof_file, public_inputs_file, call }
            && proof_file@ == proof@ && public_inputs_file@ == public_values@ && call_is(
            call,
            proof@,
            public_values@,
            address@,
        ),
{
    let proof_file = copy_bytes(&proof);
    let public_inputs_file = copy_bytes(&public_values);
    let args: Vec<CallArg> = vec![
        CallArg::Bytes(public_values),
        CallArg::Bytes(proof),
        CallArg::Address(address),
        CallArg::Uint(SCORE_THRESHOLD),
    ];
    let function = String::from_str("newGirlfriend");
    ProveAction::StoreProofAndPrepareCall {
        proof_file,
        public_inputs_file,
        call: ContractCall { function, args },
    }
}

/// One step of a proving request: the next stage, and the action to take.
pub fn prove_step(stage: ProveStage, event: ProveEvent) -> (r: (ProveStage, ProveAction))
    ensures
        step_holds(stage, event, r.0, r.1),
{
    match (stage, event) {
        (ProveStage::Start, ProveEvent::Request { address }) => {
            (ProveStage::Proving { address }, ProveAction::RunProver)
        },
        (ProveStage::Proving { address }, ProveEvent::ProofReady { proof, public_values }) => {
            (ProveStage::Calling, prepare_call(proof, public_values, address))
        },
        (ProveStage::Proving { .. }, ProveEvent::ProverFailed) => {
            (ProveStage::Done, ProveAction::Respond { status: STATUS_BAD_REQUEST, tx: String::new() })
        },
        (ProveStage::Proving { .. }, ProveEvent::ProverCrashed) => {
            (
                ProveStage::Done,
                ProveAction::Respond { status: STATUS_INTERNAL_SERVER_ERROR, tx: String::new() },
            )
        },
        (ProveStage::Calling, ProveEvent::CallPrepared) => (ProveStage::Sending, ProveAction::SendCall),
        (ProveStage::Calling, ProveEvent::CallRejected) => {
            (
                ProveStage::Done,
                ProveAction::Respond { status: STATUS_INTERNAL_SERVER_ERROR, tx: String::new() },
            )
        },
        (ProveStage::Sending, ProveEvent::Sent { tx_hash }) => {
            (ProveStage::Done, ProveAction::Respond { status: STATUS_OK, tx: tx_hash })
        },
        (ProveStage::Sending, ProveEvent::SendFailed) => {
            (
                ProveStage::Done,
                ProveAction::Respond { status: STATUS_INTERNAL_SERVER_ERROR, tx: String::new() },
            )
        },
        (s, _) => (s, ProveAction::Ignore),
    }
}

} // verus!
