//! A single privileged operation on a token ledger: create a mint whose
//! mint and freeze authority is a key-less address derived from a fixed
//! label, and issue its initial supply to a recipient's holding record.

pub mod address;
pub mod audit;
pub mod derive;
pub mod issue;
pub mod laws;
pub mod ledger;

pub use address::Address;
pub use audit::audit_log;
pub use derive::find_derived_address;
pub use issue::{check_request, create_token, find_authority, find_holding_address, verify_authority, CreateToken, Programs, TokenError};
pub use ledger::{HoldingRecord, Ledger, MintRecord};
pub use laws::{lemma_authority_is_fixed, lemma_distinct_mints_independent, lemma_second_creation_fails};
