use crate::error::Error;
use blsttc::error::Error as BlsError;
use blsttc::{Ciphertext, DecryptionShare, Fr, PublicKey, PublicKeySet, SecretKey, SecretKeySet, SecretKeyShare};
use std::collections::BTreeMap;
use vstd::prelude::*;
use vstd::std_specs::btree::spec_btree_map_iter;
use vstd::std_specs::iter::IteratorSpec;

verus! {

/// A public key, to which amounts are encrypted (blsttc).
#[verifier::external_type_specification]
#[verifier::external_body]
pub struct ExPublicKey(PublicKey);

/// A ciphertext of encrypted secrets (blsttc).
#[verifier::external_type_specification]
#[verifier::external_body]
pub struct ExCiphertext(Ciphertext);

/// A secret key (blsttc).
#[verifier::external_type_specification]
#[verifier::external_body]
pub struct ExSecretKey(SecretKey);

/// A set of secret key shares with its master key (blsttc).
#[verifier::external_type_specification]
#[verifier::external_body]
pub struct ExSecretKeySet(SecretKeySet);

/// One share of a threshold secret key (blsttc).
#[verifier::external_type_specification]
#[verifier::external_body]
pub struct ExSecretKeyShare(SecretKeyShare);

/// One holder's partial decryption (blsttc).
#[verifier::external_type_specification]
#[verifier::external_body]
pub struct ExDecryptionShare(DecryptionShare);

/// The public keys of a threshold key set (blsttc).
#[verifier::external_type_specification]
#[verifier::external_body]
pub struct ExPublicKeySet(PublicKeySet);

/// A scalar field element (blsttc).
#[verifier::external_type_specification]
#[verifier::external_body]
pub struct ExFr(Fr);

/// A token amount.
pub type Amount = u64;

/// Size of the encoded amount: a little-endian `u64`.
pub const AMT_SIZE: usize = 8;

/// Size of the encoded blinding factor: a little-endian scalar.
pub const BF_SIZE: usize = 32;

/// Size of the whole encoding.
pub const SECRETS_SIZE: usize = 40;

/// The order of the BLS12-381 scalar field, in which blinding factors live.
pub open spec fn scalar_modulus() -> nat {
    let limb: nat = 0x1_0000_0000_0000_0000;
    0xffff_ffff_0000_0001 + limb * (0x53bd_a402_fffe_5bfe + limb * (0x3339_d808_09a1_d805 + limb
        * 0x73ed_a753_299d_7d48))
}

/// The natural number that a little-endian byte string denotes.
pub open spec fn le_nat(b: Seq<u8>) -> nat
    decreases b.len(),
{
    if b.len() == 0 {
        0
    } else {
        b[0] as nat + 256 * le_nat(b.drop_first())
    }
}

/// `b` is the canonical little-endian encoding of a scalar field element.
pub open spec fn is_canonical_scalar(b: Seq<u8>) -> bool {
    b.len() == BF_SIZE && le_nat(b) < scalar_modulus()
}

/// The eight little-endian bytes of `x`.
pub open spec fn u64_le_bytes(x: u64) -> Seq<u8> {
    seq![
        x as u8,
        (x >> 8) as u8,
        (x >> 16) as u8,
        (x >> 24) as u8,
        (x >> 32) as u8,
        (x >> 40) as u8,
        (x >> 48) as u8,
        (x >> 56) as u8,
    ]
}

/// The `u64` that eight little-endian bytes denote.
pub open spec fn le_u64(b: Seq<u8>) -> u64 {
    (b[0] as u64) | ((b[1] as u64) << 8) | ((b[2] as u64) << 16) | ((b[3] as u64) << 24) | ((
    b[4] as u64) << 32) | ((b[5] as u64) << 40) | ((b[6] as u64) << 48) | ((b[7] as u64) << 56)
}

/// The encoding of an (amount, blinding factor) pair: amount first, then the factor.
pub open spec fn encode_secrets(v: (u64, Seq<u8>)) -> Seq<u8> {
    u64_le_bytes(v.0) + v.1
}

/// What a byte string decodes to: `None` unless it has exactly 40 bytes whose
/// last 32 are a canonical scalar.
pub open spec fn decode_secrets(b: Seq<u8>) -> Option<(u64, Seq<u8>)> {
    if b.len() == SECRETS_SIZE && is_canonical_scalar(b.subrange(8, 40)) {
        Some((le_u64(b.subrange(0, 8)), b.subrange(8, 40)))
    } else {
        None
    }
}

/// What `from_bytes_ref` returns on `b`, with the secrets given by their view.
pub open spec fn decoded_result(b: Seq<u8>, r: Result<AmountSecrets, Error>) -> bool {
    match decode_secrets(b) {
        Some(v) => r is Ok && r->Ok_0@ == v && r->Ok_0.wf(),
        None => r == Err::<AmountSecrets, Error>(Error::AmountSecretsBytesInvalid),
    }
}

/// Reading back the encoding of a valid pair gives the pair.
pub proof fn lemma_secrets_round_trip(v: (u64, Seq<u8>))
    requires
        is_canonical_scalar(v.1),
    ensures
        decode_secrets(encode_secrets(v)) == Some(v),
{
    let b = encode_secrets(v);
    let x = v.0;
    assert(b.subrange(8, 40) =~= v.1);
    assert(b.subrange(0, 8) =~= u64_le_bytes(x));
    assert((x as u8 as u64) | (((x >> 8) as u8 as u64) << 8) | (((x >> 16) as u8 as u64) << 16)
        | (((x >> 24) as u8 as u64) << 24) | (((x >> 32) as u8 as u64) << 32) | (((x >> 40) as u8
        as u64) << 40) | (((x >> 48) as u8 as u64) << 48) | (((x >> 56) as u8 as u64) << 56) == x)
        by (bit_vector);
}

/// A byte string of any length but 40 is refused, and so is one of 40 bytes whose
/// last 32 are not a canonical scalar.
pub proof fn lemma_secrets_rejection(b: Seq<u8>)
    ensures
        b.len() != SECRETS_SIZE ==> decode_secrets(b) is None,
        b.len() == SECRETS_SIZE && !is_canonical_scalar(b.subrange(8, 40)) ==> decode_secrets(
            b,
        ) is None,
{
}

/// Relies on blstrs' `Scalar::from_bytes_le` (as re-exported by blsttc), which accepts exactly the canonical
/// little-endian encodings, those below the field's order.
#[verifier::external_body]
fn scalar_bytes_are_canonical(b: &[u8; 32]) -> (r: bool)
    ensures
        r == is_canonical_scalar(b@),
{
    bool::from(Fr::from_bytes_le(b).is_some())
}

/// The little-endian bytes of a scalar.
pub uninterp spec fn scalar_bytes_of(s: Fr) -> Seq<u8>;

/// The plaintext that a secret key recovers from a ciphertext, `None` for an
/// invalid ciphertext.
pub uninterp spec fn decrypted_of(secret_key: SecretKey, ciphertext: Ciphertext) -> Option<Seq<u8>>;

/// The public key that belongs to a secret key.
pub uninterp spec fn public_key_of(secret_key: SecretKey) -> PublicKey;

/// The master secret key of a key set.
pub uninterp spec fn master_key_of(secret_key_set: SecretKeySet) -> SecretKey;

/// The decryption share that a secret key share computes for a ciphertext.
pub uninterp spec fn share_decryption_of(share: SecretKeyShare, ciphertext: Ciphertext) -> DecryptionShare;

/// The plaintext, or the error, of combining decryption shares keyed by index.
pub uninterp spec fn combined_of(
    public_key_set: PublicKeySet,
    shares: Map<u64, DecryptionShare>,
    ciphertext: Ciphertext,
) -> Result<Seq<u8>, BlsError>;

/// Relies on blstrs' `Scalar::to_bytes_le`: the canonical little-endian encoding.
#[verifier::external_body]
fn scalar_to_bytes(s: &Fr) -> (r: [u8; 32])
    ensures
        r@ == scalar_bytes_of(*s),
        is_canonical_scalar(r@),
{
    s.to_bytes_le()
}

/// Relies on `Scalar::random` from the `ff::Field` impl of blstrs, drawing from
/// rand_core's `OsRng`, and on `Scalar::to_bytes_le` for the canonical encoding.
#[verifier::external_body]
fn random_blinding_factor() -> (r: [u8; 32])
    ensures
        is_canonical_scalar(r@),
{
    <Fr as blsttc::group::ff::Field>::random(rand_core::OsRng).to_bytes_le()
}

/// Relies on blsttc's `SecretKey::public_key`.
#[verifier::external_body]
fn secret_key_public_key(secret_key: &SecretKey) -> (r: PublicKey)
    ensures
        r == public_key_of(*secret_key),
{
    secret_key.public_key()
}

/// Relies on blsttc's `PublicKey::encrypt`, which draws fresh randomness: whatever
/// is drawn, the secret key of `public_key` decrypts the result to `bytes`.
#[verifier::external_body]
fn encrypt_bytes(public_key: &PublicKey, bytes: &Vec<u8>) -> (r: Ciphertext)
    ensures
        forall|sk: SecretKey|
            #[trigger] public_key_of(sk) == *public_key ==> decrypted_of(sk, r) == Some(bytes@),
{
    public_key.encrypt(bytes)
}

/// Relies on blsttc's `SecretKey::decrypt`: the plaintext, or `None` for an
/// invalid ciphertext.
#[verifier::external_body]
fn secret_key_decrypt(secret_key: &SecretKey, ciphertext: &Ciphertext) -> (r: Option<Vec<u8>>)
    ensures
        r is None <==> decrypted_of(*secret_key, *ciphertext) is None,
        r is Some ==> decrypted_of(*secret_key, *ciphertext) == Some(r->Some_0@),
{
    secret_key.decrypt(ciphertext)
}

/// Relies on blsttc's `SecretKeySet::secret_key`: the master secret key of the set.
#[verifier::external_body]
fn set_secret_key(secret_key_set: &SecretKeySet) -> (r: SecretKey)
    ensures
        r == master_key_of(*secret_key_set),
{
    secret_key_set.secret_key()
}

/// Relies on blsttc's `SecretKeyShare::decrypt_share_no_verify`.
#[verifier::external_body]
fn share_decrypt(share: &SecretKeyShare, ciphertext: &Ciphertext) -> (r: DecryptionShare)
    ensures
        r == share_decryption_of(*share, *ciphertext),
{
    share.decrypt_share_no_verify(ciphertext)
}

/// Relies on blsttc's `PublicKeySet::decrypt`, which combines the decryption
/// shares in the order of their indices.
#[verifier::external_body]
fn combine_decryption_shares(
    public_key_set: &PublicKeySet,
    shares: &BTreeMap<u64, DecryptionShare>,
    ciphertext: &Ciphertext,
) -> (r: Result<Vec<u8>, BlsError>)
    ensures
        r is Ok <==> combined_of(*public_key_set, shares@, *ciphertext) is Ok,
        r is Ok ==> combined_of(*public_key_set, shares@, *ciphertext) == Ok::<Seq<u8>, BlsError>(
            r->Ok_0@,
        ),
        r is Err ==> combined_of(*public_key_set, shares@, *ciphertext) == Err::<Seq<u8>, BlsError>(
            r->Err_0,
        ),
{
    public_key_set.decrypt(shares, ciphertext)
}

/// What decoding the outcome of a decryption by secret key gives: `None` fails
/// with `DecryptionBySecretKeyFailed`, a plaintext is decoded.
pub open spec fn decrypted_result(p: Option<Seq<u8>>, r: Result<AmountSecrets, Error>) -> bool {
    match p {
        None => r == Err::<AmountSecrets, Error>(Error::DecryptionBySecretKeyFailed),
        Some(b) => decoded_result(b, r),
    }
}

/// What decoding the outcome of combining decryption shares gives: an error is
/// wrapped in `DecryptionBySharesFailed`, a plaintext is decoded.
pub open spec fn combined_result(c: Result<Seq<u8>, BlsError>, r: Result<AmountSecrets, Error>) -> bool {
    match c {
        Err(e) => r == Err::<AmountSecrets, Error>(Error::DecryptionBySharesFailed(e)),
        Ok(b) => decoded_result(b, r),
    }
}

/// The decryption shares that secret key shares compute for a ciphertext, under
/// the same indices.
pub open spec fn shares_decryption_of(
    shares: Map<u64, SecretKeyShare>,
    ciphertext: Ciphertext,
) -> Map<u64, DecryptionShare> {
    shares.map_values(|s: SecretKeyShare| share_decryption_of(s, ciphertext))
}

/// Secrets encrypted to a key and decrypted with the matching secret key come back
/// unchanged.
pub proof fn lemma_encrypt_decrypt_round_trip(
    a: AmountSecrets,
    secret_key: SecretKey,
    ciphertext: Ciphertext,
    r: Result<AmountSecrets, Error>,
)
    requires
        a.wf(),
        decrypted_of(secret_key, ciphertext) == Some(encode_secrets(a@)),
        decrypted_result(decrypted_of(secret_key, ciphertext), r),
    ensures
        r is Ok && r->Ok_0@ == a@,
{
    lemma_secrets_round_trip(a@);
}

/// An amount together with the blinding factor of its commitment.
///
/// The blinding factor is held as its canonical 32-byte little-endian encoding.
pub struct AmountSecrets {
    amount: Amount,
    blinding: [u8; 32],
}

impl View for AmountSecrets {
    type V = (u64, Seq<u8>);

    closed spec fn view(&self) -> (u64, Seq<u8>) {
        (self.amount, self.blinding@)
    }
}

impl AmountSecrets {
    /// The blinding factor is a canonical scalar.
    pub open spec fn wf(&self) -> bool {
        is_canonical_scalar(self@.1)
    }

    /// The committed amount.
    pub fn amount(&self) -> (r: Amount)
        ensures
            r == self@.0,
    {
        self.amount
    }

    /// The encoded blinding factor.
    pub fn blinding_factor(&self) -> (r: [u8; 32])
        ensures
            r@ == self@.1,
    {
        self.blinding
    }

    /// The 40-byte encoding: the amount in little-endian order, then the blinding factor.
    pub fn to_bytes(&self) -> (r: Vec<u8>)
        ensures
            r@ == encode_secrets(self@),
            self.wf() ==> decode_secrets(r@) == Some(self@),
    {
        proof {
            if self.wf() {
                lemma_secrets_round_trip(self@);
            }
        }
        let mut v: Vec<u8> = Vec::new();
        let x = self.amount;
        v.push(x as u8);
        v.push((x >> 8) as u8);
        v.push((x >> 16) as u8);
        v.push((x >> 24) as u8);
        v.push((x >> 32) as u8);
        v.push((x >> 40) as u8);
        v.push((x >> 48) as u8);
        v.push((x >> 56) as u8);
        let mut i: usize = 0;
        while i < BF_SIZE
            invariant
                i <= BF_SIZE,
                v@ =~= u64_le_bytes(x) + self.blinding@.subrange(0, i as int),
            decreases BF_SIZE - i,
        {
            v.push(self.blinding[i]);
            i = i + 1;
            assert(v@ =~= u64_le_bytes(x) + self.blinding@.subrange(0, i as int));
        }
        assert(self.blinding@.subrange(0, 32) =~= self.blinding@);
        v
    }

    /// Secrets from a byte string of any length; refused unless it has exactly 40
    /// bytes and its last 32 are a canonical scalar.
    pub fn from_bytes_ref(bytes: &[u8]) -> (r: Result<Self, Error>)
        ensures
            decoded_result(bytes@, r),
    {
        if bytes.len() != SECRETS_SIZE {
            return Err(Error::AmountSecretsBytesInvalid);
        }
        let amount: u64 = (bytes[0] as u64) | ((bytes[1] as u64) << 8) | ((bytes[2] as u64) << 16)
            | ((bytes[3] as u64) << 24) | ((bytes[4] as u64) << 32) | ((bytes[5] as u64) << 40) | ((
        bytes[6] as u64) << 48) | ((bytes[7] as u64) << 56);
        let mut b: [u8; 32] = [0u8; 32];
        let mut i: usize = 0;
        while i < BF_SIZE
            invariant
                i <= BF_SIZE,
                bytes@.len() == SECRETS_SIZE,
                b@.len() == BF_SIZE,
                forall|j: int| 0 <= j < i ==> b@[j] == bytes@[AMT_SIZE + j],
            decreases BF_SIZE - i,
        {
            b[i] = bytes[AMT_SIZE + i];
            i = i + 1;
        }
        assert(b@ =~= bytes@.subrange(8, 40));
        assert(amount == le_u64(bytes@.subrange(0, 8)));
        if !scalar_bytes_are_canonical(&b) {
            return Err(Error::AmountSecretsBytesInvalid);
        }
        Ok(AmountSecrets { amount, blinding: b })
    }

    /// Secrets from exactly 40 bytes, which must decode.
    pub fn from_bytes(bytes: [u8; 40]) -> (r: Self)
        requires
            decode_secrets(bytes@) is Some,
        ensures
            Some(r@) == decode_secrets(bytes@),
            r.wf(),
    {
        match Self::from_bytes_ref(vstd::array::array_as_slice(&bytes)) {
            Ok(s) => s,
            Err(_) => {
                proof {
                    assert(false);
                }
                AmountSecrets { amount: 0, blinding: [0u8; 32] }
            },
        }
    }

    /// Secrets from an amount and a blinding factor.
    pub fn from_commitment_secret(amount: Amount, blinding: &Fr) -> (r: Self)
        ensures
            r@.0 == amount,
            r@.1 == scalar_bytes_of(*blinding),
            r.wf(),
    {
        AmountSecrets { amount, blinding: scalar_to_bytes(blinding) }
    }

    /// Secrets for an amount, with a fresh random blinding factor.
    pub fn from_amount(amount: Amount) -> (r: Self)
        ensures
            r@.0 == amount,
            r.wf(),
    {
        AmountSecrets { amount, blinding: random_blinding_factor() }
    }

    /// Encrypts the encoding of these secrets to `public_key`: the matching secret
    /// key decrypts it to that encoding.
    pub fn encrypt(&self, public_key: &PublicKey) -> (r: Ciphertext)
        ensures
            forall|sk: SecretKey|
                #[trigger] public_key_of(sk) == *public_key ==> decrypted_of(sk, r) == Some(
                    encode_secrets(self@),
                ),
    {
        encrypt_bytes(public_key, &self.to_bytes())
    }

    /// Encrypts these secrets to the public key of `secret_key`, which then
    /// decrypts them.
    pub fn encrypt_to_owner_of(&self, secret_key: &SecretKey) -> (r: Ciphertext)
        ensures
            decrypted_of(*secret_key, r) == Some(encode_secrets(self@)),
    {
        let public_key = secret_key_public_key(secret_key);
        self.encrypt(&public_key)
    }

    /// Secrets from the outcome of a decryption by secret key: `None` means that
    /// decryption failed, a plaintext is decoded.
    pub fn from_decrypted(plaintext: Option<Vec<u8>>) -> (r: Result<Self, Error>)
        ensures
            decrypted_result(
                match plaintext {
                    Some(b) => Some(b@),
                    None => None,
                },
                r,
            ),
    {
        match plaintext {
            None => Err(Error::DecryptionBySecretKeyFailed),
            Some(bytes) => Self::from_bytes_ref(bytes.as_slice()),
        }
    }

    /// Decrypts secrets with a secret key.
    pub fn decrypt_with_secret_key(secret_key: &SecretKey, ciphertext: &Ciphertext) -> (r: Result<
        Self,
        Error,
    >)
        ensures
            decrypted_result(decrypted_of(*secret_key, *ciphertext), r),
    {
        Self::from_decrypted(secret_key_decrypt(secret_key, ciphertext))
    }

    /// Decrypts secrets with the master secret key of a key set.
    pub fn decrypt_with_secret_key_set(
        secret_key_set: &SecretKeySet,
        ciphertext: &Ciphertext,
    ) -> (r: Result<Self, Error>)
        ensures
            decrypted_result(decrypted_of(master_key_of(*secret_key_set), *ciphertext), r),
    {
        Self::decrypt_with_secret_key(&set_secret_key(secret_key_set), ciphertext)
    }

    /// Secrets from the outcome of combining decryption shares: the library's
    /// error is wrapped, a plaintext is decoded.
    pub fn from_combined(plaintext: Result<Vec<u8>, BlsError>) -> (r: Result<Self, Error>)
        ensures
            combined_result(
                match plaintext {
                    Ok(b) => Ok::<Seq<u8>, BlsError>(b@),
                    Err(e) => Err::<Seq<u8>, BlsError>(e),
                },
                r,
            ),
    {
        match plaintext {
            Err(e) => Err(Error::DecryptionBySharesFailed(e)),
            Ok(bytes) => Self::from_bytes_ref(bytes.as_slice()),
        }
    }

    /// Decrypts secrets from decryption shares, keyed by share index; at least
    /// threshold + 1 of them are needed.
    pub fn decrypt_with_decryption_shares(
        public_key_set: &PublicKeySet,
        decryption_shares: &BTreeMap<u64, DecryptionShare>,
        ciphertext: &Ciphertext,
    ) -> (r: Result<Self, Error>)
        ensures
            combined_result(combined_of(*public_key_set, decryption_shares@, *ciphertext), r),
    {
        let c = combine_decryption_shares(public_key_set, decryption_shares, ciphertext);
        Self::from_combined(c)
    }

    /// One decryption share for each secret key share, under the same index.
    pub fn decryption_shares(
        secret_key_shares: &BTreeMap<u64, SecretKeyShare>,
        ciphertext: &Ciphertext,
    ) -> (r: BTreeMap<u64, DecryptionShare>)
        ensures
            r@ == shares_decryption_of(secret_key_shares@, *ciphertext),
    {
        broadcast use vstd::laws_cmp::group_laws_cmp, vstd::std_specs::btree::group_btree_axioms;

        let mut shares: BTreeMap<u64, DecryptionShare> = BTreeMap::new();
        let entries = secret_key_shares.iter();
        let ghost all = entries.remaining();
        assert(all == spec_btree_map_iter(secret_key_shares).remaining());
        for kv in it: entries
            invariant
                it.seq() == all,
                all == spec_btree_map_iter(secret_key_shares).remaining(),
                forall|k: u64| #[trigger]
                    shares@.contains_key(k) <==> exists|j: int|
                        0 <= j < it.index() && *all[j].0 == k,
                forall|k: u64| #[trigger]
                    shares@.contains_key(k) ==> secret_key_shares@.contains_key(k) && shares@[k]
                        == share_decryption_of(secret_key_shares@[k], *ciphertext),
        {
            let (idx, share) = kv;
            let ghost n = it.index();
            assert(kv == all[n]);
            assert(secret_key_shares@.contains_key(*all[n].0));
            shares.insert(*idx, share_decrypt(share, ciphertext));
        }
        assert forall|k: u64| #[trigger] secret_key_shares@.contains_key(k) implies shares@.contains_key(
            k,
        ) by {
            assert(all.contains((&k, &secret_key_shares@[k])));
            let j = choose|j: int| 0 <= j < all.len() && all[j] == (&k, &secret_key_shares@[k]);
            assert(*all[j].0 == k);
        }
        assert(shares@ =~= shares_decryption_of(secret_key_shares@, *ciphertext));
        shares
    }

    /// Decrypts secrets with secret key shares, keyed by share index; at least
    /// threshold + 1 of them are needed. The same as decrypting from the decryption
    /// shares that they compute.
    pub fn decrypt_with_shares(
        public_key_set: &PublicKeySet,
        secret_key_shares: &BTreeMap<u64, SecretKeyShare>,
        ciphertext: &Ciphertext,
    ) -> (r: Result<Self, Error>)
        ensures
            combined_result(
                combined_of(
                    *public_key_set,
                    shares_decryption_of(secret_key_shares@, *ciphertext),
                    *ciphertext,
                ),
                r,
            ),
    {
        let shares = Self::decryption_shares(secret_key_shares, ciphertext);
        Self::decrypt_with_decryption_shares(public_key_set, &shares, ciphertext)
    }
}

} // verus!
