//! The request and answer shapes of the ledger, and the permit credential as
//! the logic reads it.

use vstd::prelude::*;
use vstd::pervasive::unreached;

verus! {

#[derive(Debug, Clone, PartialEq, Eq, Structural)]
pub struct InstantiateMsg {}

/// A mutation request, already bound by the host to the sender's identity.
#[derive(Debug, Clone, PartialEq)]
pub enum ExecuteMsg {
    SubmitNetWorth { networth: u128 },
    SetViewingKey { key: String },
}

/// A read request with its credential.
#[derive(Debug, Clone, PartialEq)]
pub enum QueryMsg {
    AllInfo { addr: String, key: String },
    AmIRichest { addr: String, key: String },
    WithPermit { permit: Permit, query: QueryWithPermit },
}

impl QueryMsg {
    /// The address and viewing key a viewing-key query authenticates with.
    /// Only the two viewing-key shapes carry them.
    pub fn get_validation_params(&self) -> (r: (String, String))
        requires
            !(self is WithPermit),
        ensures
            self matches QueryMsg::AllInfo { addr, key } ==> r.0@ == addr@ && r.1@ == key@,
            self matches QueryMsg::AmIRichest { addr, key } ==> r.0@ == addr@ && r.1@ == key@,
    {
        match self {
            QueryMsg::AllInfo { addr, key } => (addr.clone(), key.clone()),
            QueryMsg::AmIRichest { addr, key } => (addr.clone(), key.clone()),
            QueryMsg::WithPermit { .. } => unreached(),
        }
    }
}

/// The read shapes a permit can authorize.
#[derive(Debug, Clone, Copy, PartialEq, Eq, Structural)]
pub enum QueryWithPermit {
    AllInfo {},
    AmIRichest {},
}

/// The answer to a read.
#[derive(Debug, Clone, Copy, PartialEq, Eq, Structural)]
pub enum QueryAnswer {
    AllInfo { richest: bool, networth: u128 },
    AmIRichest { richest: bool },
}

/// The closed set of permissions a permit can declare, one per read shape.
#[derive(Debug, Clone, Copy, PartialEq, Eq, Structural)]
pub enum RichieRichPermissions {
    AllInfo,
    AmIRichest,
}

/// The signed content of a permit, as the authorization logic reads it.
#[derive(Debug, Clone, PartialEq)]
pub struct PermitParams {
    /// The contract addresses the permit applies to.
    pub allowed_tokens: Vec<String>,
    /// The permit's identifier, the unit of revocation.
    pub permit_name: String,
    /// Every permission the permit's bearer may exercise.
    pub permissions: Vec<RichieRichPermissions>,
}

/// A caller-constructed, signed read credential.
///
/// The signature itself, and the derivation of the issuer's address from the
/// signing key, belong to the host's cryptography: `account` carries the
/// derived issuer, and the host's pass/fail verdict on the signature arrives
/// beside the query in [`HostEnv`].
#[derive(Debug, Clone, PartialEq)]
pub struct Permit {
    pub params: PermitParams,
    /// The issuer identity the host derived from the permit's signing key.
    pub account: String,
}

/// Mathematical image of a [`Permit`].
#[verifier::ext_equal]
pub struct PermitView {
    pub account: Seq<char>,
    pub permit_name: Seq<char>,
    pub allowed_tokens: Seq<Seq<char>>,
    pub permissions: Seq<RichieRichPermissions>,
}

impl View for Permit {
    type V = PermitView;

    open spec fn view(&self) -> PermitView {
        PermitView {
            account: self.account@,
            permit_name: self.params.permit_name@,
            allowed_tokens: self.params.allowed_tokens.deep_view(),
            permissions: self.params.permissions@,
        }
    }
}

impl Permit {
    /// Whether `token` is among the audiences the permit names.
    pub fn check_token(&self, token: &String) -> (r: bool)
        ensures
            r == self@.allowed_tokens.contains(token@),
    {
        let n = self.params.allowed_tokens.len();
        let mut i: usize = 0;
        while i < n
            invariant
                i <= n,
                n == self.params.allowed_tokens@.len(),
                forall|l: int| 0 <= l < i ==> self@.allowed_tokens[l] != token@,
            decreases n - i,
    {
            if self.params.allowed_tokens[i] == *token {
                proof {
                    assert(self@.allowed_tokens[i as int] == token@);
                }
                return true;
            }
            i += 1;
        }
        proof {
            assert forall|l: int| 0 <= l < self@.allowed_tokens.len() implies self@.allowed_tokens[l]
                != token@ by {}
        }
        false
    }

    /// Whether the permit declares `permission`.
    pub fn check_permission(&self, permission: &RichieRichPermissions) -> (r: bool)
        ensures
            r == self@.permissions.contains(*permission),
    {
        let n = self.params.permissions.len();
        let mut i: usize = 0;
        while i < n
            invariant
                i <= n,
                n == self.params.permissions@.len(),
                forall|l: int| 0 <= l < i ==> self@.permissions[l] != *permission,
            decreases n - i,
        {
            if self.params.permissions[i] == *permission {
                proof {
                    assert(self@.permissions[i as int] == *permission);
                }
                return true;
            }
            i += 1;
        }
        false
    }
}

/// What the host execution environment supplies beside a query: the
/// contract's own address (the audience a permit must name), and the host
/// crypto's pass/fail verdict on the permit's signature against its declared
/// issuer. The verdict plays no part in viewing-key queries.
#[derive(Debug, Clone, PartialEq)]
pub struct HostEnv {
    pub contract_address: String,
    pub permit_signature_valid: bool,
}

} // verus!
