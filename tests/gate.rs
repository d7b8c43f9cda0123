use launchpad_gate::error::GateError;
use launchpad_gate::multisig::{Multisig, SignOutcome};

fn key(b: u8) -> [u8; 32] {
    [b; 32]
}

fn gate(n: u8, threshold: u8) -> Multisig {
    let signers: Vec<[u8; 32]> = (1..=n).map(key).collect();
    Multisig::new(signers, threshold).expect("valid configuration")
}

#[test]
fn new_accepts_valid_configuration() {
    let m = gate(3, 2);
    assert_eq!(m.threshold(), 2);
    assert_eq!(m.signer_count(), 3);
    assert!(m.is_idle());
    assert_eq!(m.approval_count(), 0);
}

#[test]
fn new_rejects_zero_threshold() {
    assert!(Multisig::new(vec![key(1)], 0).is_none());
}

#[test]
fn new_rejects_threshold_above_signer_count() {
    assert!(Multisig::new(vec![key(1), key(2)], 3).is_none());
}

#[test]
fn new_rejects_duplicate_signers() {
    assert!(Multisig::new(vec![key(1), key(2), key(1)], 2).is_none());
}

#[test]
fn new_accepts_threshold_equal_to_signer_count() {
    assert!(Multisig::new(vec![key(1), key(2)], 2).is_some());
}

#[test]
fn distinct_signers_count_down_to_execution() {
    let mut m = gate(5, 4);
    let fp = [9u8; 32];
    assert_eq!(m.sign(&key(1), &fp), Ok(SignOutcome::Pending(3)));
    assert_eq!(m.sign(&key(2), &fp), Ok(SignOutcome::Pending(2)));
    assert_eq!(m.sign(&key(3), &fp), Ok(SignOutcome::Pending(1)));
    assert_eq!(m.approval_count(), 3);
    assert_eq!(m.sign(&key(4), &fp), Ok(SignOutcome::Executed));
    assert!(m.is_idle());
}

#[test]
fn threshold_one_executes_at_once() {
    let mut m = gate(1, 1);
    assert_eq!(m.sign(&key(1), &[7u8; 32]), Ok(SignOutcome::Executed));
    assert!(m.is_idle());
}

#[test]
fn repeated_approval_counts_once() {
    let mut m = gate(3, 3);
    let fp = [5u8; 32];
    assert_eq!(m.sign(&key(1), &fp), Ok(SignOutcome::Pending(2)));
    assert_eq!(m.sign(&key(1), &fp), Ok(SignOutcome::Pending(2)));
    assert_eq!(m.approval_count(), 1);
    assert_eq!(m.sign(&key(2), &fp), Ok(SignOutcome::Pending(1)));
    assert_eq!(m.sign(&key(2), &fp), Ok(SignOutcome::Pending(1)));
    assert_eq!(m.approval_count(), 2);
}

#[test]
fn new_fingerprint_discards_earlier_approvals() {
    let mut m = gate(3, 3);
    assert_eq!(m.sign(&key(1), &[1u8; 32]), Ok(SignOutcome::Pending(2)));
    assert_eq!(m.sign(&key(2), &[1u8; 32]), Ok(SignOutcome::Pending(1)));
    assert_eq!(m.sign(&key(3), &[2u8; 32]), Ok(SignOutcome::Pending(2)));
    assert_eq!(m.approval_count(), 1);
    assert_eq!(m.sign(&key(1), &[2u8; 32]), Ok(SignOutcome::Pending(1)));
}

#[test]
fn outsider_is_refused_when_idle() {
    let mut m = gate(3, 2);
    assert_eq!(m.sign(&key(4), &[1u8; 32]), Err(GateError::Unauthorized));
    assert!(m.is_idle());
}

#[test]
fn outsider_is_refused_while_collecting() {
    let mut m = gate(3, 3);
    let fp = [1u8; 32];
    assert_eq!(m.sign(&key(1), &fp), Ok(SignOutcome::Pending(2)));
    assert_eq!(m.sign(&key(4), &fp), Err(GateError::Unauthorized));
    assert_eq!(m.sign(&key(4), &[2u8; 32]), Err(GateError::Unauthorized));
    assert_eq!(m.approval_count(), 1);
    assert_eq!(m.sign(&key(2), &fp), Ok(SignOutcome::Pending(1)));
}

#[test]
fn execution_returns_gate_to_idle() {
    let mut m = gate(3, 2);
    let fp = [3u8; 32];
    assert_eq!(m.sign(&key(1), &fp), Ok(SignOutcome::Pending(1)));
    assert_eq!(m.sign(&key(2), &fp), Ok(SignOutcome::Executed));
    assert!(m.is_idle());
    assert_eq!(m.sign(&key(1), &fp), Ok(SignOutcome::Pending(1)));
    assert_eq!(m.approval_count(), 1);
}
