use girlfriend_lib::prove::{prepare_call, prove_step, CallArg, ProveAction, ProveEvent, ProveStage};

fn address() -> Vec<u8> {
    let mut a = vec![0u8; 20];
    a[19] = 0xaa;
    a
}

fn status_of(a: ProveAction) -> (u16, String) {
    match a {
        ProveAction::Respond { status, tx } => (status, tx),
        _ => panic!("expected Respond"),
    }
}

#[test]
fn request_is_proved_stored_called_and_sent() {
    let (s, a) = prove_step(ProveStage::Start, ProveEvent::Request { address: address() });
    assert!(matches!(&s, ProveStage::Proving { address: x } if *x == address()));
    assert!(matches!(a, ProveAction::RunProver));
    let (s, a) = prove_step(s, ProveEvent::ProofReady { proof: vec![0x01], public_values: vec![0x02] });
    assert!(matches!(s, ProveStage::Calling));
    match a {
        ProveAction::StoreProofAndPrepareCall { proof_file, public_inputs_file, call } => {
            assert_eq!(proof_file, vec![0x01]);
            assert_eq!(public_inputs_file, vec![0x02]);
            assert_eq!(call.function, "newGirlfriend");
            assert_eq!(call.args.len(), 4);
            assert!(matches!(&call.args[0], CallArg::Bytes(b) if *b == vec![0x02]));
            assert!(matches!(&call.args[1], CallArg::Bytes(b) if *b == vec![0x01]));
            assert!(matches!(&call.args[2], CallArg::Address(x) if *x == address()));
            assert!(matches!(&call.args[3], CallArg::Uint(50)));
        }
        _ => panic!("expected StoreProofAndPrepareCall"),
    }
    let (s, a) = prove_step(s, ProveEvent::CallPrepared);
    assert!(matches!(s, ProveStage::Sending));
    assert!(matches!(a, ProveAction::SendCall));
    let (s, a) = prove_step(s, ProveEvent::Sent { tx_hash: "0xabc".to_string() });
    assert!(matches!(s, ProveStage::Done));
    assert_eq!(status_of(a), (200, "0xabc".to_string()));
}

#[test]
fn prepared_call_orders_its_arguments() {
    match prepare_call(vec![9, 9], vec![7], vec![1, 2, 3]) {
        ProveAction::StoreProofAndPrepareCall { proof_file, public_inputs_file, call } => {
            assert_eq!(proof_file, vec![9, 9]);
            assert_eq!(public_inputs_file, vec![7]);
            assert!(matches!(&call.args[0], CallArg::Bytes(b) if *b == vec![7]));
            assert!(matches!(&call.args[1], CallArg::Bytes(b) if *b == vec![9, 9]));
            assert!(matches!(&call.args[2], CallArg::Address(x) if *x == vec![1, 2, 3]));
        }
        _ => panic!("expected StoreProofAndPrepareCall"),
    }
}

#[test]
fn failures_answer_with_errors() {
    let proving = || ProveStage::Proving { address: address() };
    let (s, a) = prove_step(proving(), ProveEvent::ProverFailed);
    assert!(matches!(s, ProveStage::Done));
    assert_eq!(status_of(a), (400, String::new()));
    let (_, a) = prove_step(proving(), ProveEvent::ProverCrashed);
    assert_eq!(status_of(a), (500, String::new()));
    let (_, a) = prove_step(ProveStage::Calling, ProveEvent::CallRejected);
    assert_eq!(status_of(a), (500, String::new()));
    let (_, a) = prove_step(ProveStage::Sending, ProveEvent::SendFailed);
    assert_eq!(status_of(a), (500, String::new()));
}

#[test]
fn no_call_without_proving() {
    let (s, a) = prove_step(
        ProveStage::Start,
        ProveEvent::ProofReady { proof: vec![1], public_values: vec![2] },
    );
    assert!(matches!(s, ProveStage::Start));
    assert!(matches!(a, ProveAction::Ignore));
    let (s, a) = prove_step(ProveStage::Done, ProveEvent::CallPrepared);
    assert!(matches!(s, ProveStage::Done));
    assert!(matches!(a, ProveAction::Ignore));
    let (s, a) = prove_step(ProveStage::Calling, ProveEvent::Sent { tx_hash: "x".to_string() });
    assert!(matches!(s, ProveStage::Calling));
    assert!(matches!(a, ProveAction::Ignore));
}
