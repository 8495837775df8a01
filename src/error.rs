use blsttc::error::Error as BlsError;
use serde_json::Error as JsonError;
use std::io::Error as IoError;
use vstd::prelude::*;

verus! {

/// The threshold-crypto library's error, carried by [`Error::DecryptionBySharesFailed`].
#[verifier::external_type_specification]
#[verifier::external_body]
pub struct ExBlsError(BlsError);

/// An I/O failure, carried by [`Error::Io`].
#[verifier::external_type_specification]
#[verifier::external_body]
pub struct ExIoError(IoError);

/// A JSON failure, carried by [`Error::JsonSerialisation`].
#[verifier::external_type_specification]
#[verifier::external_body]
pub struct ExJsonError(JsonError);

/// The failures of this library, over signing, transaction consistency,
/// cryptography and its boundary.
#[derive(Debug)]
#[non_exhaustive]
pub enum Error {
    /// An error occured when signing.
    Signing(String),
    /// An input has a signature, but it does not appear in the transaction.
    UnknownInput,
    /// Failed signature check.
    FailedSignature,
    /// Unrecognised authority.
    UnrecognisedAuthority,
    /// At least one transaction input is missing a signature.
    MissingSignatureForInput,
    /// At least one input is missing a spent proof.
    MissingSpentProof,
    /// Invalid spent proof signature for this identifier.
    InvalidSpentProofSignature(u64),
    /// The sum of the inputs differs from the sum of the outputs.
    DbcReissueRequestDoesNotBalance,
    /// A transaction must have at least one input.
    TransactionMustHaveAnInput,
    /// Content is not a member of the transaction outputs.
    DbcContentNotPresentInTransactionOutput,
    /// Output proof not found in the transaction outputs.
    OutputProofNotFound,
    /// An identifier occurs twice among the transaction inputs.
    KeyImageNotUniqueAcrossInputs,
    /// An identifier occurs twice among the transaction outputs.
    PublicKeyNotUniqueAcrossOutputs,
    /// The number of spent proofs differs from the number of inputs.
    SpentProofInputMismatch,
    /// A spent proof's identifier is not among the transaction inputs.
    SpentProofKeyImageMismatch,
    /// The transaction hash claimed by a spend differs from the transaction's hash.
    InvalidTransactionHash,
    /// The identifier was already spent by another transaction.
    DbcAlreadySpent,
    /// The derived owner key does not match.
    DerivedOwnerKeyDoesNotMatch,
    /// Threshold decryption failed.
    DecryptionBySharesFailed(BlsError),
    /// Decryption with a secret key failed.
    DecryptionBySecretKeyFailed,
    /// The bytes do not encode amount secrets.
    AmountSecretsBytesInvalid,
    /// Invalid amount commitment.
    AmountCommitmentInvalid,
    /// Amount commitments do not match.
    AmountCommitmentsDoNotMatch,
    /// Secret key unavailable.
    SecretKeyUnavailable,
    /// Public key not found.
    PublicKeyNotFound,
    /// I/O error.
    Io(IoError),
    /// JSON serialisation error.
    JsonSerialisation(JsonError),
    /// Can never happen.
    Infallible(std::convert::Infallible),
}

} // verus!
