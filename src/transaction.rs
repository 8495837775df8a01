use crate::amount_secrets::{u64_le_bytes, Amount};
use crate::error::Error;
use tiny_keccak::Hasher;
use vstd::prelude::*;

verus! {

/// The identifier of a spendable unit.
pub type DbcId = u64;

/// A quantity of tokens.
pub type Token = Amount;

/// A 32-byte transaction digest.
#[derive(Clone, Copy, Debug)]
pub struct TxHash(pub [u8; 32]);

/// A spent unit: its identifier and the amount it held.
#[derive(Clone, Copy, Debug, PartialEq, Eq, Structural)]
pub struct Input {
    pub dbc_id: DbcId,
    pub amount: Token,
}

/// A created unit: its identifier and the amount it holds.
#[derive(Clone, Copy, Debug, PartialEq, Eq, Structural)]
pub struct Output {
    pub dbc_id: DbcId,
    pub amount: Token,
}

impl Output {
    /// The identifier of the unit this output creates.
    pub fn dbc_id(&self) -> (r: DbcId)
        ensures
            r == self.dbc_id,
    {
        self.dbc_id
    }
}

/// The contents of a transaction, as sequences.
pub struct TxView {
    pub inputs: Seq<Input>,
    pub outputs: Seq<Output>,
}

/// A transaction: the units it spends and the units it creates.
#[derive(Debug)]
pub struct DbcTransaction {
    pub inputs: Vec<Input>,
    pub outputs: Vec<Output>,
}

impl View for DbcTransaction {
    type V = TxView;

    open spec fn view(&self) -> TxView {
        TxView { inputs: self.inputs@, outputs: self.outputs@ }
    }
}

/// A claim that a unit is spent by the transaction with the given hash.
#[derive(Clone, Copy, Debug)]
pub struct SignedSpend {
    pub dbc_id: DbcId,
    pub spent_tx_hash: TxHash,
}

impl SignedSpend {
    /// The identifier this spend consumes.
    pub fn dbc_id(&self) -> (r: DbcId)
        ensures
            r == self.dbc_id,
    {
        self.dbc_id
    }

    /// The hash of the transaction this spend claims.
    pub fn spent_tx_hash(&self) -> (r: TxHash)
        ensures
            r == self.spent_tx_hash,
    {
        self.spent_tx_hash
    }
}

/// The SHA3-256 digest of a byte string.
pub uninterp spec fn sha3_256_of(b: Seq<u8>) -> Seq<u8>;

/// Relies on tiny-keccak's `Sha3::v256`: the SHA3-256 digest of the bytes.
#[verifier::external_body]
fn sha3_256(bytes: &Vec<u8>) -> (r: [u8; 32])
    ensures
        r@ == sha3_256_of(bytes@),
{
    let mut hasher = tiny_keccak::Sha3::v256();
    hasher.update(bytes.as_slice());
    let mut out = [0u8; 32];
    hasher.finalize(&mut out);
    out
}

/// The bytes of a sequence of inputs: identifier then amount, each little-endian.
pub open spec fn inputs_bytes(s: Seq<Input>) -> Seq<u8>
    decreases s.len(),
{
    if s.len() == 0 {
        seq![]
    } else {
        inputs_bytes(s.drop_last()) + u64_le_bytes(s.last().dbc_id) + u64_le_bytes(s.last().amount)
    }
}

/// The bytes of a sequence of outputs: identifier then amount, each little-endian.
pub open spec fn outputs_bytes(s: Seq<Output>) -> Seq<u8>
    decreases s.len(),
{
    if s.len() == 0 {
        seq![]
    } else {
        outputs_bytes(s.drop_last()) + u64_le_bytes(s.last().dbc_id) + u64_le_bytes(
            s.last().amount,
        )
    }
}

/// The canonical bytes of a transaction: the number of inputs, the inputs, the outputs.
pub open spec fn tx_bytes(t: TxView) -> Seq<u8> {
    u64_le_bytes(t.inputs.len() as u64) + inputs_bytes(t.inputs) + outputs_bytes(t.outputs)
}

/// The canonical hash of a transaction.
pub open spec fn tx_hash(t: TxView) -> Seq<u8> {
    sha3_256_of(tx_bytes(t))
}

/// Sum of the input amounts.
pub open spec fn inputs_sum(s: Seq<Input>) -> int
    decreases s.len(),
{
    if s.len() == 0 {
        0
    } else {
        inputs_sum(s.drop_last()) + s.last().amount
    }
}

/// Sum of the output amounts.
pub open spec fn outputs_sum(s: Seq<Output>) -> int
    decreases s.len(),
{
    if s.len() == 0 {
        0
    } else {
        outputs_sum(s.drop_last()) + s.last().amount
    }
}

/// No identifier occurs twice among the inputs.
pub open spec fn inputs_unique(s: Seq<Input>) -> bool {
    forall|i: int, j: int| 0 <= i < j < s.len() ==> s[i].dbc_id != s[j].dbc_id
}

/// No identifier occurs twice among the outputs.
pub open spec fn outputs_unique(s: Seq<Output>) -> bool {
    forall|i: int, j: int| 0 <= i < j < s.len() ==> s[i].dbc_id != s[j].dbc_id
}

/// The outcome of checking a transaction's structure.
pub open spec fn tx_verification(t: TxView) -> Result<(), Error> {
    if t.inputs.len() == 0 {
        Err(Error::TransactionMustHaveAnInput)
    } else if !inputs_unique(t.inputs) {
        Err(Error::KeyImageNotUniqueAcrossInputs)
    } else if !outputs_unique(t.outputs) {
        Err(Error::PublicKeyNotUniqueAcrossOutputs)
    } else if inputs_sum(t.inputs) != outputs_sum(t.outputs) {
        Err(Error::DbcReissueRequestDoesNotBalance)
    } else {
        Ok(())
    }
}

/// Appends the eight little-endian bytes of `x`.
fn push_u64(v: &mut Vec<u8>, x: u64)
    ensures
        final(v)@ == old(v)@ + u64_le_bytes(x),
{
    v.push(x as u8);
    v.push((x >> 8) as u8);
    v.push((x >> 16) as u8);
    v.push((x >> 24) as u8);
    v.push((x >> 32) as u8);
    v.push((x >> 40) as u8);
    v.push((x >> 48) as u8);
    v.push((x >> 56) as u8);
    assert(v@ =~= old(v)@ + u64_le_bytes(x));
}

/// Whether two hashes hold the same bytes.
pub fn hash_eq(a: &TxHash, b: &TxHash) -> (r: bool)
    ensures
        r == (a.0@ == b.0@),
{
    let mut i: usize = 0;
    while i < 32
        invariant
            i <= 32,
            forall|j: int| 0 <= j < i ==> a.0@[j] == b.0@[j],
        decreases 32 - i,
    {
        if a.0[i] != b.0[i] {
            return false;
        }
        i = i + 1;
    }
    assert(a.0@ =~= b.0@);
    true
}

impl DbcTransaction {
    /// A copy of this transaction.
    pub fn duplicate(&self) -> (r: Self)
        ensures
            r@ == self@,
    {
        let mut inputs: Vec<Input> = Vec::new();
        let mut outputs: Vec<Output> = Vec::new();
        for i in 0..self.inputs.len()
            invariant
                inputs@ == self.inputs@.take(i as int),
        {
            inputs.push(self.inputs[i]);
            assert(inputs@ =~= self.inputs@.take(i + 1));
        }
        for i in 0..self.outputs.len()
            invariant
                outputs@ == self.outputs@.take(i as int),
        {
            outputs.push(self.outputs[i]);
            assert(outputs@ =~= self.outputs@.take(i + 1));
        }
        assert(inputs@ =~= self.inputs@);
        assert(outputs@ =~= self.outputs@);
        DbcTransaction { inputs, outputs }
    }

    /// The canonical bytes of this transaction.
    pub fn to_bytes(&self) -> (r: Vec<u8>)
        ensures
            r@ == tx_bytes(self@),
    {
        let mut v: Vec<u8> = Vec::new();
        push_u64(&mut v, self.inputs.len() as u64);
        let ghost head = v@;
        for i in 0..self.inputs.len()
            invariant
                v@ == head + inputs_bytes(self.inputs@.take(i as int)),
        {
            let input = self.inputs[i];
            push_u64(&mut v, input.dbc_id);
            push_u64(&mut v, input.amount);
            assert(self.inputs@.take(i + 1).drop_last() =~= self.inputs@.take(i as int));
            assert(v@ =~= head + inputs_bytes(self.inputs@.take(i + 1)));
        }
        assert(self.inputs@.take(self.inputs.len() as int) =~= self.inputs@);
        let ghost mid = v@;
        for i in 0..self.outputs.len()
            invariant
                v@ == mid + outputs_bytes(self.outputs@.take(i as int)),
        {
            let output = self.outputs[i];
            push_u64(&mut v, output.dbc_id);
            push_u64(&mut v, output.amount);
            assert(self.outputs@.take(i + 1).drop_last() =~= self.outputs@.take(i as int));
            assert(v@ =~= mid + outputs_bytes(self.outputs@.take(i + 1)));
        }
        assert(self.outputs@.take(self.outputs.len() as int) =~= self.outputs@);
        assert(v@ =~= tx_bytes(self@));
        v
    }

    /// The canonical hash: the SHA3-256 digest of the canonical bytes.
    pub fn hash(&self) -> (r: TxHash)
        ensures
            r.0@ == tx_hash(self@),
    {
        TxHash(sha3_256(&self.to_bytes()))
    }

    /// Checks the structure of this transaction: at least one input, identifiers
    /// unique among the inputs and among the outputs, and amounts that balance.
    pub fn verify(&self) -> (r: Result<(), Error>)
        ensures
            r == tx_verification(self@),
    {
        let n = self.inputs.len();
        if n == 0 {
            return Err(Error::TransactionMustHaveAnInput);
        }
        for i in 0..n
            invariant
                n == self.inputs.len(),
                forall|a: int, b: int|
                    0 <= a < i && a < b < n ==> self.inputs@[a].dbc_id != self.inputs@[b].dbc_id,
        {
            for j in i + 1..n
                invariant
                    n == self.inputs.len(),
                    i < n,
                    forall|b: int|
                        i < b < j ==> self.inputs@[i as int].dbc_id != self.inputs@[b].dbc_id,
            {
                if self.inputs[i].dbc_id == self.inputs[j].dbc_id {
                    return Err(Error::KeyImageNotUniqueAcrossInputs);
                }
            }
        }
        let m = self.outputs.len();
        for i in 0..m
            invariant
                m == self.outputs.len(),
                self.inputs.len() > 0,
                inputs_unique(self.inputs@),
                forall|a: int, b: int|
                    0 <= a < i && a < b < m ==> self.outputs@[a].dbc_id != self.outputs@[b].dbc_id,
        {
            for j in i + 1..m
                invariant
                    m == self.outputs.len(),
                    self.inputs.len() > 0,
                    inputs_unique(self.inputs@),
                    i < m,
                    forall|b: int|
                        i < b < j ==> self.outputs@[i as int].dbc_id != self.outputs@[b].dbc_id,
            {
                if self.outputs[i].dbc_id == self.outputs[j].dbc_id {
                    return Err(Error::PublicKeyNotUniqueAcrossOutputs);
                }
            }
        }
        let mut total_in: u128 = 0;
        for i in 0..n
            invariant
                n == self.inputs.len(),
                total_in == inputs_sum(self.inputs@.take(i as int)),
                total_in <= i * 0xffff_ffff_ffff_ffffu128,
        {
            assert(self.inputs@.take(i + 1).drop_last() =~= self.inputs@.take(i as int));
            proof {
                assert((i + 1) * 0xffff_ffff_ffff_ffffu128 == i * 0xffff_ffff_ffff_ffffu128
                    + 0xffff_ffff_ffff_ffffu128) by (nonlinear_arith);
                assert(i * 0xffff_ffff_ffff_ffffu128 <= 0xffff_ffff_ffff_ffffu128
                    * 0xffff_ffff_ffff_ffffu128) by (nonlinear_arith)
                    requires i <= 0xffff_ffff_ffff_ffffu128;
            }
            total_in = total_in + self.inputs[i].amount as u128;
        }
        let mut total_out: u128 = 0;
        for i in 0..m
            invariant
                m == self.outputs.len(),
                total_out == outputs_sum(self.outputs@.take(i as int)),
                total_out <= i * 0xffff_ffff_ffff_ffffu128,
        {
            assert(self.outputs@.take(i + 1).drop_last() =~= self.outputs@.take(i as int));
            proof {
                assert((i + 1) * 0xffff_ffff_ffff_ffffu128 == i * 0xffff_ffff_ffff_ffffu128
                    + 0xffff_ffff_ffff_ffffu128) by (nonlinear_arith);
                assert(i * 0xffff_ffff_ffff_ffffu128 <= 0xffff_ffff_ffff_ffffu128
                    * 0xffff_ffff_ffff_ffffu128) by (nonlinear_arith)
                    requires i <= 0xffff_ffff_ffff_ffffu128;
            }
            total_out = total_out + self.outputs[i].amount as u128;
        }
        assert(self.inputs@.take(n as int) =~= self.inputs@);
        assert(self.outputs@.take(m as int) =~= self.outputs@);
        if total_in != total_out {
            return Err(Error::DbcReissueRequestDoesNotBalance);
        }
        Ok(())
    }
}

} // verus!
