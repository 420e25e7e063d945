//! The failure taxonomy: mutation failures, and the structured denials a read
//! can end in.

use vstd::prelude::*;
use vstd::string::StringExecFns;
use crate::msg::RichieRichPermissions;

verus! {

/// Failure of a mutation entry point.
#[derive(Debug, Clone, Copy, PartialEq, Eq, Structural)]
pub enum ContractError {
    /// Under [`crate::state::SubmitPolicy::RejectResubmission`] an identity
    /// may submit only once; carries the amount already stored.
    AlreadySubmittedNetworth { networth: u128 },
}

/// Failure of a read entry point.
#[derive(Debug, Clone, PartialEq)]
pub enum QueryError {
    /// Viewing-key authentication failed: the identity has no key set, or the
    /// supplied key does not match. The two causes are deliberately reported
    /// identically, so that a caller cannot probe which identities have keys.
    WrongViewingKey,
    /// The permit does not name this contract's address among its audiences.
    PermitAudienceMismatch,
    /// The permit's identifier is on its issuer's revocation list.
    PermitRevoked,
    /// The host's cryptography rejected the permit's signature.
    PermitSignatureInvalid,
    /// The permit is valid but does not declare the permission the query
    /// needs; carries the missing tag and the set actually granted.
    NoPermission { required: RichieRichPermissions, granted: Vec<RichieRichPermissions> },
}

impl QueryError {
    /// The caller-visible message. Both causes of `WrongViewingKey` share
    /// this single text, exactly.
    pub fn message(&self) -> (r: String)
        ensures
            self is WrongViewingKey ==> r@ == "Wrong viewing key for this address or viewing key not set"@,
            self is PermitAudienceMismatch ==> r@ == "Permit does not apply to this contract"@,
            self is PermitRevoked ==> r@ == "Permit was revoked by its account"@,
            self is PermitSignatureInvalid ==> r@ == "Failed to verify signatures for the given permit"@,
            self is NoPermission ==> r@ == "No permission to query"@,
    {
        match self {
            QueryError::WrongViewingKey => String::from_str(
                "Wrong viewing key for this address or viewing key not set",
            ),
            QueryError::PermitAudienceMismatch => String::from_str(
                "Permit does not apply to this contract",
            ),
            QueryError::PermitRevoked => String::from_str("Permit was revoked by its account"),
            QueryError::PermitSignatureInvalid => String::from_str(
                "Failed to verify signatures for the given permit",
            ),
            QueryError::NoPermission { .. } => String::from_str("No permission to query"),
        }
    }
}

} // verus!
