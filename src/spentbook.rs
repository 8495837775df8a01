use crate::error::Error;
use crate::transaction::{
    hash_eq, tx_hash, tx_verification, DbcId, DbcTransaction, Output, SignedSpend, Token, TxHash,
    TxView,
};
use blsttc::PublicKey;
use std::collections::BTreeMap;
use vstd::prelude::*;
use vstd::std_specs::btree::{increasing_seq, spec_btree_map_iter};
use vstd::std_specs::cmp::OrdSpec;
use vstd::std_specs::iter::IteratorSpec;

verus! {

/// The abstract state of a ledger.
pub struct LedgerModel {
    /// The stored transactions with their hashes, in the order of insertion.
    pub transactions: Seq<(Seq<u8>, TxView)>,
    /// Spent identifier to the hash of the transaction that spent it.
    pub spent: Map<DbcId, Seq<u8>>,
    /// Identifier to the output that created it.
    pub outputs: Map<DbcId, Output>,
}

/// Some stored transaction has hash `h`.
pub open spec fn has_hash(txs: Seq<(Seq<u8>, TxView)>, h: Seq<u8>) -> bool {
    exists|i: int| 0 <= i < txs.len() && txs[i].0 == h
}

/// The position of a stored transaction with hash `h`.
pub open spec fn tx_index(txs: Seq<(Seq<u8>, TxView)>, h: Seq<u8>) -> int {
    choose|i: int| 0 <= i < txs.len() && txs[i].0 == h
}

/// The output index after indexing `os` in order, where a present identifier keeps
/// its first output.
pub open spec fn index_outputs(m: Map<DbcId, Output>, os: Seq<Output>) -> Map<DbcId, Output>
    decreases os.len(),
{
    if os.len() == 0 {
        m
    } else {
        let m1 = index_outputs(m, os.drop_last());
        if m1.contains_key(os.last().dbc_id) {
            m1
        } else {
            m1.insert(os.last().dbc_id, os.last())
        }
    }
}

impl LedgerModel {
    /// The empty ledger.
    pub open spec fn empty() -> LedgerModel {
        LedgerModel { transactions: Seq::empty(), spent: Map::empty(), outputs: Map::empty() }
    }

    /// The ledger's invariant: hashes are unique and correct, every spent identifier
    /// resolves to a stored transaction, and every stored output is indexed.
    pub open spec fn wf(self) -> bool {
        &&& forall|i: int, j: int|
            0 <= i < j < self.transactions.len() ==> self.transactions[i].0
                != self.transactions[j].0
        &&& forall|i: int|
            0 <= i < self.transactions.len() ==> self.transactions[i].0 == tx_hash(
                self.transactions[i].1,
            )
        &&& forall|k: DbcId| #[trigger]
            self.spent.contains_key(k) ==> has_hash(self.transactions, self.spent[k])
        &&& forall|i: int, j: int|
            0 <= i < self.transactions.len() && 0 <= j < self.transactions[i].1.outputs.len()
                ==> self.outputs.contains_key(#[trigger] self.transactions[i].1.outputs[j].dbc_id)
    }

    /// The transaction stored under `h`.
    pub open spec fn stored(self, h: Seq<u8>) -> TxView {
        self.transactions[tx_index(self.transactions, h)].1
    }
}

/// The outcome of logging `spend` with transaction `tx` on ledger `m`: the result
/// and the ledger after it. Any error leaves the ledger as it was.
pub open spec fn log_spend_step(m: LedgerModel, tx: TxView, spend: SignedSpend, verify_tx: bool) -> (
    Result<(), Error>,
    LedgerModel,
) {
    let h = tx_hash(tx);
    if h != spend.spent_tx_hash.0@ {
        (Err(Error::InvalidTransactionHash), m)
    } else if verify_tx && tx_verification(tx) is Err {
        (tx_verification(tx), m)
    } else if m.spent.contains_key(spend.dbc_id) && m.spent[spend.dbc_id] != h {
        (Err(Error::DbcAlreadySpent), m)
    } else {
        let txs = if has_hash(m.transactions, h) {
            m.transactions
        } else {
            m.transactions.push((h, tx))
        };
        let stored = if has_hash(m.transactions, h) {
            m.stored(h)
        } else {
            tx
        };
        (
            Ok(()),
            LedgerModel {
                transactions: txs,
                spent: m.spent.insert(spend.dbc_id, h),
                outputs: index_outputs(m.outputs, stored.outputs),
            },
        )
    }
}

/// Indexing keeps every present entry and indexes every identifier of `os`.
pub proof fn lemma_index_outputs_covers(m: Map<DbcId, Output>, os: Seq<Output>)
    ensures
        forall|k: DbcId| m.contains_key(k) ==> #[trigger] index_outputs(m, os).contains_key(k)
            && index_outputs(m, os)[k] == m[k],
        forall|j: int|
            0 <= j < os.len() ==> index_outputs(m, os).contains_key(#[trigger] os[j].dbc_id),
    decreases os.len(),
{
    if os.len() > 0 {
        lemma_index_outputs_covers(m, os.drop_last());
        assert forall|k: DbcId| m.contains_key(k) implies #[trigger] index_outputs(
            m,
            os,
        ).contains_key(k) && index_outputs(m, os)[k] == m[k] by {
            assert(index_outputs(m, os.drop_last()).contains_key(k));
        }
        assert forall|j: int| 0 <= j < os.len() implies index_outputs(m, os).contains_key(
            #[trigger] os[j].dbc_id,
        ) by {
            if j < os.len() - 1 {
                assert(os.drop_last()[j] == os[j]);
            }
        }
    }
}

/// Indexing outputs whose identifiers are all present changes nothing.
pub proof fn lemma_index_outputs_fixed(m: Map<DbcId, Output>, os: Seq<Output>)
    requires
        forall|j: int| 0 <= j < os.len() ==> m.contains_key(#[trigger] os[j].dbc_id),
    ensures
        index_outputs(m, os) == m,
    decreases os.len(),
{
    if os.len() > 0 {
        assert forall|j: int| 0 <= j < os.drop_last().len() implies m.contains_key(
            #[trigger] os.drop_last()[j].dbc_id,
        ) by {
            assert(os.drop_last()[j] == os[j]);
        }
        lemma_index_outputs_fixed(m, os.drop_last());
        assert(m.contains_key(os[os.len() - 1].dbc_id));
    }
}

/// Every step from a well-formed ledger leaves a well-formed ledger, so every
/// spent identifier keeps resolving to a stored transaction.
pub proof fn lemma_log_preserves_wf(m: LedgerModel, tx: TxView, spend: SignedSpend, verify_tx: bool)
    requires
        m.wf(),
    ensures
        log_spend_step(m, tx, spend, verify_tx).1.wf(),
{
    let (r, m2) = log_spend_step(m, tx, spend, verify_tx);
    let h = tx_hash(tx);
    if r is Ok {
        let found = has_hash(m.transactions, h);
        let stored = if found {
            m.stored(h)
        } else {
            tx
        };
        lemma_index_outputs_covers(m.outputs, stored.outputs);
        if found {
            let w = tx_index(m.transactions, h);
            assert(m.transactions[w].0 == h);
        } else {
            let n = m.transactions.len() as int;
            assert(m2.transactions[n].0 == h);
            assert forall|k: DbcId| #[trigger] m2.spent.contains_key(k) implies has_hash(
                m2.transactions,
                m2.spent[k],
            ) by {
                if k != spend.dbc_id {
                    let w = choose|i: int|
                        0 <= i < m.transactions.len() && m.transactions[i].0 == m.spent[k];
                    assert(m2.transactions[w].0 == m2.spent[k]);
                }
            }
            assert forall|i: int, j: int|
                0 <= i < m2.transactions.len() && 0 <= j < m2.transactions[i].1.outputs.len()
                    implies m2.outputs.contains_key(
                #[trigger] m2.transactions[i].1.outputs[j].dbc_id,
            ) by {
                if i < n {
                    assert(m2.transactions[i] == m.transactions[i]);
                    assert(m.outputs.contains_key(m.transactions[i].1.outputs[j].dbc_id));
                }
            }
        }
    }
}

/// Logging the same transaction and spend a second time succeeds and changes nothing.
pub proof fn lemma_relog_is_idempotent(
    m: LedgerModel,
    tx: TxView,
    spend: SignedSpend,
    verify_tx: bool,
)
    requires
        m.wf(),
        log_spend_step(m, tx, spend, verify_tx).0 is Ok,
    ensures
        log_spend_step(log_spend_step(m, tx, spend, verify_tx).1, tx, spend, verify_tx) == (
            Ok::<(), Error>(()),
            log_spend_step(m, tx, spend, verify_tx).1,
        ),
{
    let m2 = log_spend_step(m, tx, spend, verify_tx).1;
    let h = tx_hash(tx);
    let found = has_hash(m.transactions, h);
    let stored = if found {
        m.stored(h)
    } else {
        tx
    };
    lemma_log_preserves_wf(m, tx, spend, verify_tx);
    lemma_index_outputs_covers(m.outputs, stored.outputs);
    let n = m.transactions.len() as int;
    if !found {
        assert(m2.transactions[n].0 == h);
    }
    assert(has_hash(m2.transactions, h));
    let w2 = tx_index(m2.transactions, h);
    if found {
        let w = tx_index(m.transactions, h);
        assert(w == w2);
    } else {
        assert(w2 == n);
    }
    assert(m2.stored(h) == stored);
    lemma_index_outputs_fixed(m2.outputs, stored.outputs);
    assert(m2.spent.insert(spend.dbc_id, h) =~= m2.spent);
}

/// Once an identifier is logged as spent by one transaction, logging a spend of it
/// by a transaction of another hash fails with `DbcAlreadySpent` and changes nothing.
pub proof fn lemma_conflicting_spend_rejected(
    m: LedgerModel,
    tx1: TxView,
    spend1: SignedSpend,
    tx2: TxView,
    spend2: SignedSpend,
    verify_tx: bool,
)
    requires
        m.wf(),
        log_spend_step(m, tx1, spend1, verify_tx).0 is Ok,
        spend2.dbc_id == spend1.dbc_id,
        tx_hash(tx2) != tx_hash(tx1),
        spend2.spent_tx_hash.0@ == tx_hash(tx2),
        verify_tx ==> tx_verification(tx2) is Ok,
    ensures
        log_spend_step(log_spend_step(m, tx1, spend1, verify_tx).1, tx2, spend2, verify_tx) == (
            Err::<(), Error>(Error::DbcAlreadySpent),
            log_spend_step(m, tx1, spend1, verify_tx).1,
        ),
{
}

/// The ledger after a sequence of logging calls, each a transaction, a spend and
/// whether the transaction is checked.
pub open spec fn log_all(m: LedgerModel, calls: Seq<(TxView, SignedSpend, bool)>) -> LedgerModel
    decreases calls.len(),
{
    if calls.len() == 0 {
        m
    } else {
        let c = calls.last();
        log_spend_step(log_all(m, calls.drop_last()), c.0, c.1, c.2).1
    }
}

/// A step never removes or changes a spent entry.
pub proof fn lemma_spent_only_grows(m: LedgerModel, tx: TxView, spend: SignedSpend, verify_tx: bool)
    ensures
        forall|k: DbcId|
            #[trigger] m.spent.contains_key(k) ==> log_spend_step(m, tx, spend, verify_tx).1.spent.contains_key(k)
                && log_spend_step(m, tx, spend, verify_tx).1.spent[k] == m.spent[k],
{
}

/// Any sequence of calls keeps the invariant and every spent entry.
pub proof fn lemma_log_all_keeps(m: LedgerModel, calls: Seq<(TxView, SignedSpend, bool)>)
    requires
        m.wf(),
    ensures
        log_all(m, calls).wf(),
        forall|k: DbcId|
            #[trigger] m.spent.contains_key(k) ==> log_all(m, calls).spent.contains_key(k)
                && log_all(m, calls).spent[k] == m.spent[k],
    decreases calls.len(),
{
    if calls.len() > 0 {
        let c = calls.last();
        let before = log_all(m, calls.drop_last());
        lemma_log_all_keeps(m, calls.drop_last());
        lemma_log_preserves_wf(before, c.0, c.1, c.2);
        lemma_spent_only_grows(before, c.0, c.1, c.2);
    }
}

/// Once logging a transaction and spend has succeeded, logging them again succeeds
/// and changes nothing, whatever calls came in between.
pub proof fn lemma_relog_after_any_history(
    m: LedgerModel,
    tx: TxView,
    spend: SignedSpend,
    verify_tx: bool,
    calls: Seq<(TxView, SignedSpend, bool)>,
)
    requires
        m.wf(),
        log_spend_step(m, tx, spend, verify_tx).0 is Ok,
    ensures
        log_spend_step(log_all(log_spend_step(m, tx, spend, verify_tx).1, calls), tx, spend, verify_tx)
            == (Ok::<(), Error>(()), log_all(log_spend_step(m, tx, spend, verify_tx).1, calls)),
{
    let m1 = log_spend_step(m, tx, spend, verify_tx).1;
    let mn = log_all(m1, calls);
    let h = tx_hash(tx);
    lemma_log_preserves_wf(m, tx, spend, verify_tx);
    lemma_log_all_keeps(m1, calls);
    assert(m1.spent.contains_key(spend.dbc_id));
    assert(mn.spent[spend.dbc_id] == h);
    assert(has_hash(mn.transactions, h));
    let w = tx_index(mn.transactions, h);
    assert(mn.transactions[w].0 == h);
    assert forall|j: int| 0 <= j < mn.stored(h).outputs.len() implies mn.outputs.contains_key(
        #[trigger] mn.stored(h).outputs[j].dbc_id,
    ) by {
        assert(mn.transactions[w].1.outputs[j] == mn.stored(h).outputs[j]);
    }
    lemma_index_outputs_fixed(mn.outputs, mn.stored(h).outputs);
    assert(mn.spent.insert(spend.dbc_id, h) =~= mn.spent);
}

/// A ledger of spends: each identifier is spent at most once, by the first
/// transaction logged for it.
///
/// Each transaction is stored once under its hash; spent identifiers map to that
/// hash, and each output is indexed by the identifier it creates.
pub struct SpentbookNode {
    id: PublicKey,
    transactions: Vec<(TxHash, DbcTransaction)>,
    dbc_ids: BTreeMap<DbcId, TxHash>,
    outputs_by_input_id: BTreeMap<DbcId, Output>,
    genesis: (DbcId, Token),
}

impl SpentbookNode {
    /// The abstract state of this ledger.
    pub closed spec fn model(&self) -> LedgerModel {
        LedgerModel {
            transactions: self.transactions@.map_values(
                |p: (TxHash, DbcTransaction)| (p.0.0@, p.1@),
            ),
            spent: self.dbc_ids@.map_values(|h: TxHash| h.0@),
            outputs: self.outputs_by_input_id@,
        }
    }

    /// The public key of this node.
    pub closed spec fn spec_id(&self) -> PublicKey {
        self.id
    }

    /// The genesis pair this ledger was made with.
    pub closed spec fn spec_genesis(&self) -> (DbcId, Token) {
        self.genesis
    }

    /// This ledger's invariant.
    pub open spec fn wf(&self) -> bool {
        self.model().wf()
    }

    /// An empty ledger for the node `id`, seeded with a genesis pair.
    pub fn new(id: PublicKey, genesis: (DbcId, Token)) -> (r: Self)
        ensures
            r.model() == LedgerModel::empty(),
            r.spec_genesis() == genesis,
            r.spec_id() == id,
            r.wf(),
    {
        let r = SpentbookNode {
            id,
            transactions: Vec::new(),
            dbc_ids: BTreeMap::new(),
            outputs_by_input_id: BTreeMap::new(),
            genesis,
        };
        assert(r.model().transactions =~= Seq::empty());
        assert(r.model().spent =~= Map::empty());
        r
    }

    /// The public key of this node.
    pub fn id(&self) -> (r: &PublicKey)
        ensures
            *r == self.spec_id(),
    {
        &self.id
    }

    /// The genesis identifier and its amount.
    pub fn genesis(&self) -> (r: (DbcId, Token))
        ensures
            r == self.spec_genesis(),
    {
        self.genesis
    }

    /// Whether `dbc_id` has been logged as spent.
    pub fn is_spent(&self, dbc_id: &DbcId) -> (r: bool)
        ensures
            r == self.model().spent.contains_key(*dbc_id),
    {
        self.dbc_ids.contains_key(dbc_id)
    }

    /// The output that created `dbc_id`, if one was indexed.
    pub fn output(&self, dbc_id: &DbcId) -> (r: Option<Output>)
        ensures
            r == (if self.model().outputs.contains_key(*dbc_id) {
                Some(self.model().outputs[*dbc_id])
            } else {
                None
            }),
    {
        match self.outputs_by_input_id.get(dbc_id) {
            Some(o) => Some(*o),
            None => None,
        }
    }

    /// The position of the stored transaction with hash `h`.
    fn find_tx(&self, h: &TxHash) -> (r: Option<usize>)
        ensures
            match r {
                Some(i) => i < self.model().transactions.len() && self.model().transactions[i as int].0
                    == h.0@,
                None => !has_hash(self.model().transactions, h.0@),
            },
    {
        let mut i: usize = 0;
        while i < self.transactions.len()
            invariant
                i <= self.transactions.len(),
                forall|j: int| 0 <= j < i ==> self.model().transactions[j].0 != h.0@,
            decreases self.transactions.len() - i,
        {
            if hash_eq(&self.transactions[i].0, h) {
                return Some(i);
            }
            i = i + 1;
        }
        None
    }

    /// The stored transaction with hash `h`, if any.
    pub fn transaction(&self, h: &TxHash) -> (r: Option<&DbcTransaction>)
        requires
            self.wf(),
        ensures
            r is Some <==> has_hash(self.model().transactions, h.0@),
            r is Some ==> r->Some_0@ == self.model().stored(h.0@),
    {
        match self.find_tx(h) {
            Some(i) => {
                let ghost w = tx_index(self.model().transactions, h.0@);
                assert(w == i);
                Some(&self.transactions[i].1)
            },
            None => None,
        }
    }

    /// Each spent identifier with the transaction that spent it, in identifier order.
    pub fn iter(&self) -> (r: Vec<(DbcId, &DbcTransaction)>)
        requires
            self.wf(),
        ensures
            forall|i: int|
                0 <= i < r.len() ==> self.model().spent.contains_key(#[trigger] r@[i].0)
                    && has_hash(self.model().transactions, self.model().spent[r@[i].0])
                    && r@[i].1@ == self.model().stored(self.model().spent[r@[i].0]),
            forall|k: DbcId|
                #[trigger] self.model().spent.contains_key(k) ==> exists|i: int|
                    0 <= i < r.len() && r@[i].0 == k,
            forall|i: int, j: int| 0 <= i < j < r.len() ==> r@[i].0 < r@[j].0,
    {
        broadcast use vstd::laws_cmp::group_laws_cmp, vstd::std_specs::btree::group_btree_axioms;

        let mut r: Vec<(DbcId, &DbcTransaction)> = Vec::new();
        let entries = self.dbc_ids.iter();
        let ghost all = entries.remaining();
        assert(all == spec_btree_map_iter(&self.dbc_ids).remaining());
        assert(increasing_seq(all.map_values(|kv: (&DbcId, &TxHash)| *kv.0)));
        for kv in it: entries
            invariant
                self.wf(),
                it.seq() == all,
                all == spec_btree_map_iter(&self.dbc_ids).remaining(),
                r.len() == it.index(),
                forall|i: int| 0 <= i < r.len() ==> r@[i].0 == *all[i].0,
                forall|i: int|
                    0 <= i < r.len() ==> self.model().spent.contains_key(#[trigger] r@[i].0)
                        && has_hash(self.model().transactions, self.model().spent[r@[i].0])
                        && r@[i].1@ == self.model().stored(self.model().spent[r@[i].0]),
        {
            let (k, h) = kv;
            let ghost n = r.len() as int;
            assert(kv == all[n]);
            assert(self.dbc_ids@.contains_key(*all[n].0));
            assert(self.dbc_ids@.contains_key(*k) && self.dbc_ids@[*k] == *h);
            assert(self.model().spent.contains_key(*k));
            match self.find_tx(h) {
                Some(i) => {
                    let ghost w = tx_index(self.model().transactions, h.0@);
                    assert(w == i);
                    r.push((*k, &self.transactions[i].1));
                },
                None => {
                    assert(false);
                },
            }
        }
        assert(r.len() == all.len());
        assert forall|k: DbcId| #[trigger] self.model().spent.contains_key(k) implies exists|i: int|
            0 <= i < r.len() && r@[i].0 == k by {
            assert(self.dbc_ids@.contains_key(k));
            assert(all.contains((&k, &self.dbc_ids@[k])));
            let i = choose|i: int| 0 <= i < all.len() && all[i] == (&k, &self.dbc_ids@[k]);
            assert(r@[i].0 == k);
        }
        assert forall|i: int, j: int| 0 <= i < j < r.len() implies r@[i].0 < r@[j].0 by {
            let keys = all.map_values(|kv: (&DbcId, &TxHash)| *kv.0);
            assert(keys[i] == r@[i].0 && keys[j] == r@[j].0);
            assert(keys[i].cmp_spec(&keys[j]) is Less);
        }
        r
    }

    /// Logs `signed_spend`, claimed by `tx`, after checking the transaction's structure.
    pub fn log_spent(&mut self, tx: &DbcTransaction, signed_spend: &SignedSpend) -> (r: Result<
        (),
        Error,
    >)
        requires
            old(self).wf(),
        ensures
            final(self).wf(),
            (r, final(self).model()) == log_spend_step(old(self).model(), tx@, *signed_spend, true),
            final(self).spec_genesis() == old(self).spec_genesis(),
            final(self).spec_id() == old(self).spec_id(),
    {
        self.log_spent_worker(tx, signed_spend, true)
    }

    /// Logs `signed_spend`, claimed by `spent_tx`, without checking the transaction's
    /// structure, so that a deliberately invalid transaction can be recorded.
    pub fn log_spent_and_skip_tx_verification(
        &mut self,
        spent_tx: &DbcTransaction,
        signed_spend: &SignedSpend,
    ) -> (r: Result<(), Error>)
        requires
            old(self).wf(),
        ensures
            final(self).wf(),
            (r, final(self).model()) == log_spend_step(
                old(self).model(),
                spent_tx@,
                *signed_spend,
                false,
            ),
            final(self).spec_genesis() == old(self).spec_genesis(),
            final(self).spec_id() == old(self).spec_id(),
    {
        self.log_spent_worker(spent_tx, signed_spend, false)
    }

    fn log_spent_worker(
        &mut self,
        spent_tx: &DbcTransaction,
        signed_spend: &SignedSpend,
        verify_tx: bool,
    ) -> (r: Result<(), Error>)
        requires
            old(self).wf(),
        ensures
            final(self).wf(),
            (r, final(self).model()) == log_spend_step(
                old(self).model(),
                spent_tx@,
                *signed_spend,
                verify_tx,
            ),
            final(self).spec_genesis() == old(self).spec_genesis(),
            final(self).spec_id() == old(self).spec_id(),
    {
        let ghost m = self.model();
        proof {
            lemma_log_preserves_wf(m, spent_tx@, *signed_spend, verify_tx);
        }
        let input_id = signed_spend.dbc_id();
        let spent_tx_hash = signed_spend.spent_tx_hash();
        let tx_hash = spent_tx.hash();
        if !hash_eq(&tx_hash, &spent_tx_hash) {
            return Err(Error::InvalidTransactionHash);
        }
        if verify_tx {
            match spent_tx.verify() {
                Ok(()) => {},
                Err(e) => {
                    return Err(e);
                },
            }
        }
        match self.dbc_ids.get(&input_id) {
            Some(existing) => {
                if !hash_eq(existing, &tx_hash) {
                    return Err(Error::DbcAlreadySpent);
                }
                assert(m.spent.insert(input_id, tx_hash.0@) =~= m.spent);
            },
            None => {
                self.dbc_ids.insert(input_id, tx_hash);
                assert(self.model().spent =~= m.spent.insert(input_id, tx_hash.0@));
            },
        }
        let idx: usize = match self.find_tx(&tx_hash) {
            Some(i) => {
                proof {
                    let w = tx_index(m.transactions, tx_hash.0@);
                    assert(m.transactions[i as int].0 == tx_hash.0@);
                    assert(w == i);
                }
                i
            },
            None => {
                self.transactions.push((tx_hash, spent_tx.duplicate()));
                assert(self.model().transactions =~= m.transactions.push(
                    (tx_hash.0@, spent_tx@),
                ));
                self.transactions.len() - 1
            },
        };
        let ghost base = self.outputs_by_input_id@;
        let ghost outs = self.transactions@[idx as int].1.outputs@;
        let ghost txs = self.model().transactions;
        let ghost spent = self.model().spent;
        let ghost genesis = self.genesis;
        let ghost id = self.id;
        assert(base == m.outputs);
        assert(outs == self.model().transactions[idx as int].1.outputs);
        let n = self.transactions[idx].1.outputs.len();
        for i in 0..n
            invariant
                idx < self.transactions.len(),
                n == outs.len(),
                outs == self.transactions@[idx as int].1.outputs@,
                txs == self.model().transactions,
                spent == self.model().spent,
                genesis == self.genesis,
                id == self.id,
                self.outputs_by_input_id@ == index_outputs(base, outs.take(i as int)),
        {
            let o = self.transactions[idx].1.outputs[i];
            if !self.outputs_by_input_id.contains_key(&o.dbc_id) {
                self.outputs_by_input_id.insert(o.dbc_id, o);
            }
            assert(outs.take(i + 1).drop_last() =~= outs.take(i as int));
        }
        assert(outs.take(n as int) =~= outs);
        Ok(())
    }
}

} // verus!
