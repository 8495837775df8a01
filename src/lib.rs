//! Confidential amounts and a double-spend ledger for bearer certificates.
//!
//! - [`AmountSecrets`]: an amount together with its blinding factor, with a fixed
//!   40-byte encoding, encryption to a public key and three ways to decrypt.
//! - [`SpentbookNode`]: an append-only, idempotent log of spends with three indices.
mod amount_secrets;
mod error;
mod spentbook;
mod transaction;

pub use amount_secrets::{
    combined_of, combined_result, decode_secrets, decoded_result, decrypted_of, decrypted_result,
    lemma_encrypt_decrypt_round_trip, master_key_of, public_key_of, scalar_bytes_of,
    share_decryption_of, shares_decryption_of, encode_secrets, is_canonical_scalar, le_nat, le_u64, lemma_secrets_rejection,
    lemma_secrets_round_trip, scalar_modulus, u64_le_bytes, Amount, AmountSecrets, AMT_SIZE, BF_SIZE,
    SECRETS_SIZE,
};
pub use error::Error;
pub use spentbook::{
    has_hash, index_outputs, lemma_conflicting_spend_rejected, lemma_index_outputs_covers,
    lemma_index_outputs_fixed, lemma_log_all_keeps, lemma_log_preserves_wf,
    lemma_relog_after_any_history, lemma_spent_only_grows, log_all, lemma_relog_is_idempotent, log_spend_step,
    tx_index, LedgerModel, SpentbookNode,
};
pub use transaction::{
    hash_eq, inputs_bytes, inputs_sum, inputs_unique, outputs_bytes, outputs_sum, outputs_unique,
    sha3_256_of, tx_bytes, tx_hash, tx_verification, DbcId, DbcTransaction, TxHash, Input, Output,
    SignedSpend, Token, TxView,
};
