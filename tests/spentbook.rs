use sn_dbc::{hash_eq, DbcTransaction, Error, Input, Output, SignedSpend, SpentbookNode, TxHash};
use tiny_keccak::Hasher;

fn node() -> SpentbookNode {
    SpentbookNode::new(blsttc::SecretKey::random().public_key(), (1, 1000))
}

fn tx(inputs: &[(u64, u64)], outputs: &[(u64, u64)]) -> DbcTransaction {
    DbcTransaction {
        inputs: inputs.iter().map(|&(dbc_id, amount)| Input { dbc_id, amount }).collect(),
        outputs: outputs.iter().map(|&(dbc_id, amount)| Output { dbc_id, amount }).collect(),
    }
}

fn spend_of(dbc_id: u64, t: &DbcTransaction) -> SignedSpend {
    SignedSpend { dbc_id, spent_tx_hash: t.hash() }
}

fn snapshot(n: &SpentbookNode, ids: &[u64]) -> Vec<(u64, bool, Option<Output>)> {
    ids.iter().map(|id| (*id, n.is_spent(id), n.output(id))).collect()
}

#[test]
fn genesis_spend_scenario() {
    let mut n = node();
    assert_eq!(n.genesis(), (1, 1000));
    let t1 = tx(&[(1, 1000)], &[(2, 600), (3, 400)]);
    assert!(!n.is_spent(&1));
    assert!(n.log_spent(&t1, &spend_of(1, &t1)).is_ok());
    assert!(n.is_spent(&1));
    assert_eq!(n.output(&2), Some(Output { dbc_id: 2, amount: 600 }));
    assert_eq!(n.output(&3), Some(Output { dbc_id: 3, amount: 400 }));
    assert!(n.log_spent(&t1, &spend_of(1, &t1)).is_ok());
    let t2 = tx(&[(1, 1000)], &[(4, 1000)]);
    assert!(matches!(n.log_spent(&t2, &spend_of(1, &t2)), Err(Error::DbcAlreadySpent)));
    assert_eq!(n.output(&4), None);
}

#[test]
fn relog_is_idempotent() {
    let mut n = node();
    let t1 = tx(&[(1, 1000)], &[(2, 600), (3, 400)]);
    n.log_spent(&t1, &spend_of(1, &t1)).unwrap();
    let ids = [1, 2, 3, 4];
    let before = snapshot(&n, &ids);
    let iter_before: Vec<(u64, TxHash)> = n.iter().iter().map(|(k, t)| (*k, t.hash())).collect();
    n.log_spent(&t1, &spend_of(1, &t1)).unwrap();
    assert_eq!(snapshot(&n, &ids), before);
    let iter_after: Vec<(u64, TxHash)> = n.iter().iter().map(|(k, t)| (*k, t.hash())).collect();
    assert_eq!(iter_after.len(), iter_before.len());
    for (a, b) in iter_after.iter().zip(iter_before.iter()) {
        assert_eq!(a.0, b.0);
        assert!(hash_eq(&a.1, &b.1));
    }
}

#[test]
fn conflicting_spend_leaves_state() {
    let mut n = node();
    let t1 = tx(&[(1, 1000)], &[(2, 600), (3, 400)]);
    n.log_spent(&t1, &spend_of(1, &t1)).unwrap();
    let ids = [1, 2, 3, 5];
    let before = snapshot(&n, &ids);
    let t2 = tx(&[(1, 1000)], &[(5, 1000)]);
    assert!(matches!(n.log_spent(&t2, &spend_of(1, &t2)), Err(Error::DbcAlreadySpent)));
    assert_eq!(snapshot(&n, &ids), before);
    assert!(n.transaction(&t2.hash()).is_none());
    assert_eq!(n.iter().len(), 1);
}

#[test]
fn second_input_of_same_tx_shares_storage() {
    let mut n = node();
    let t = tx(&[(1, 500), (7, 500)], &[(8, 1000)]);
    n.log_spent(&t, &spend_of(1, &t)).unwrap();
    n.log_spent(&t, &spend_of(7, &t)).unwrap();
    let entries = n.iter();
    assert_eq!(entries.len(), 2);
    assert_eq!(entries[0].0, 1);
    assert_eq!(entries[1].0, 7);
    assert!(hash_eq(&entries[0].1.hash(), &t.hash()));
    assert!(hash_eq(&entries[1].1.hash(), &t.hash()));
}

#[test]
fn wrong_claimed_hash_rejected() {
    let mut n = node();
    let t1 = tx(&[(1, 1000)], &[(2, 1000)]);
    let spend = SignedSpend { dbc_id: 1, spent_tx_hash: TxHash([0u8; 32]) };
    assert!(matches!(n.log_spent(&t1, &spend), Err(Error::InvalidTransactionHash)));
    assert!(!n.is_spent(&1));
    assert_eq!(n.output(&2), None);
}

#[test]
fn structural_errors() {
    let mut n = node();
    let no_inputs = tx(&[], &[(2, 0)]);
    assert!(matches!(
        n.log_spent(&no_inputs, &spend_of(1, &no_inputs)),
        Err(Error::TransactionMustHaveAnInput)
    ));
    let dup_in = tx(&[(1, 500), (1, 500)], &[(2, 1000)]);
    assert!(matches!(
        n.log_spent(&dup_in, &spend_of(1, &dup_in)),
        Err(Error::KeyImageNotUniqueAcrossInputs)
    ));
    let dup_out = tx(&[(1, 1000)], &[(2, 500), (2, 500)]);
    assert!(matches!(
        n.log_spent(&dup_out, &spend_of(1, &dup_out)),
        Err(Error::PublicKeyNotUniqueAcrossOutputs)
    ));
    let unbalanced = tx(&[(1, 1000)], &[(2, 999)]);
    assert!(matches!(
        n.log_spent(&unbalanced, &spend_of(1, &unbalanced)),
        Err(Error::DbcReissueRequestDoesNotBalance)
    ));
    assert!(!n.is_spent(&1));
    assert_eq!(n.iter().len(), 0);
}

#[test]
fn skip_verification_accepts_unbalanced() {
    let mut n = node();
    let unbalanced = tx(&[(1, 1000)], &[(2, 5000)]);
    assert!(n.log_spent_and_skip_tx_verification(&unbalanced, &spend_of(1, &unbalanced)).is_ok());
    assert!(n.is_spent(&1));
    assert_eq!(n.output(&2), Some(Output { dbc_id: 2, amount: 5000 }));
}

#[test]
fn large_amounts_balance() {
    let t = tx(&[(1, u64::MAX), (2, u64::MAX)], &[(3, u64::MAX), (4, u64::MAX)]);
    assert!(t.verify().is_ok());
    let t = tx(&[(1, u64::MAX), (2, 1)], &[(3, 0)]);
    assert!(matches!(t.verify(), Err(Error::DbcReissueRequestDoesNotBalance)));
}

#[test]
fn output_index_keeps_first_creator() {
    let mut n = node();
    let t1 = tx(&[(1, 1000)], &[(2, 1000)]);
    let t2 = tx(&[(9, 1000)], &[(2, 1000), (3, 0)]);
    n.log_spent_and_skip_tx_verification(&t1, &spend_of(1, &t1)).unwrap();
    n.log_spent_and_skip_tx_verification(&t2, &spend_of(9, &t2)).unwrap();
    assert_eq!(n.output(&2), Some(Output { dbc_id: 2, amount: 1000 }));
    assert_eq!(n.output(&3), Some(Output { dbc_id: 3, amount: 0 }));
}

#[test]
fn iter_in_identifier_order() {
    let mut n = node();
    let a = tx(&[(30, 1)], &[(31, 1)]);
    let b = tx(&[(10, 1)], &[(11, 1)]);
    n.log_spent(&a, &spend_of(30, &a)).unwrap();
    n.log_spent(&b, &spend_of(10, &b)).unwrap();
    let entries = n.iter();
    assert_eq!(entries.len(), 2);
    assert_eq!(entries[0].0, 10);
    assert!(hash_eq(&entries[0].1.hash(), &b.hash()));
    assert_eq!(entries[1].0, 30);
    assert!(hash_eq(&entries[1].1.hash(), &a.hash()));
}

#[test]
fn tx_bytes_layout() {
    let t = tx(&[(1, 2)], &[(3, 4)]);
    let mut expected = Vec::new();
    for x in [1u64, 1, 2, 3, 4] {
        expected.extend_from_slice(&x.to_le_bytes());
    }
    assert_eq!(t.to_bytes(), expected);
}

#[test]
fn tx_hash_is_sha3_of_bytes() {
    let t = tx(&[(1, 2)], &[(3, 4)]);
    let mut h = tiny_keccak::Sha3::v256();
    h.update(&t.to_bytes());
    let mut out = [0u8; 32];
    h.finalize(&mut out);
    assert_eq!(t.hash().0, out);
    assert_ne!(t.hash().0, [0u8; 32]);
    let u = tx(&[(1, 2)], &[(3, 5)]);
    assert!(!hash_eq(&t.hash(), &u.hash()));
}

#[test]
fn duplicate_copies_contents() {
    let t = tx(&[(1, 2), (5, 6)], &[(3, 4)]);
    let d = t.duplicate();
    assert_eq!(d.inputs, t.inputs);
    assert_eq!(d.outputs, t.outputs);
}

#[test]
fn transaction_lookup() {
    let mut n = node();
    let t = tx(&[(1, 1000)], &[(2, 1000)]);
    assert!(n.transaction(&t.hash()).is_none());
    n.log_spent(&t, &spend_of(1, &t)).unwrap();
    let stored = n.transaction(&t.hash()).unwrap();
    assert_eq!(stored.outputs, t.outputs);
}

#[test]
fn signed_spend_accessors() {
    let t = tx(&[(1, 1000)], &[(2, 1000)]);
    let s = spend_of(1, &t);
    assert_eq!(s.dbc_id(), 1);
    assert!(hash_eq(&s.spent_tx_hash(), &t.hash()));
    assert_eq!(Output { dbc_id: 2, amount: 1 }.dbc_id(), 2);
}

#[test]
fn relog_after_other_calls() {
    let mut n = node();
    let t1 = tx(&[(1, 1000)], &[(2, 600), (3, 400)]);
    n.log_spent(&t1, &spend_of(1, &t1)).unwrap();
    let t2 = tx(&[(2, 600)], &[(5, 600)]);
    n.log_spent(&t2, &spend_of(2, &t2)).unwrap();
    let t3 = tx(&[(1, 1000)], &[(6, 1000)]);
    assert!(n.log_spent(&t3, &spend_of(1, &t3)).is_err());
    let ids = [1, 2, 3, 5, 6];
    let before = snapshot(&n, &ids);
    assert!(n.log_spent(&t1, &spend_of(1, &t1)).is_ok());
    assert_eq!(snapshot(&n, &ids), before);
}

#[test]
fn node_key_kept() {
    let pk = blsttc::SecretKey::random().public_key();
    let mut n = SpentbookNode::new(pk, (1, 1000));
    let t1 = tx(&[(1, 1000)], &[(2, 1000)]);
    n.log_spent(&t1, &spend_of(1, &t1)).unwrap();
    assert_eq!(*n.id(), pk);
    assert_eq!(n.genesis(), (1, 1000));
}
