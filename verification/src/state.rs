//! The persisted data of the ledger: who submitted what, the running maximum,
//! per-identity viewing-key material, and the revocation list for permits.
//!
//! Each store keeps its records as a vector of `(key, value)` entries where a
//! later entry for the same key overrides an earlier one, and is specified
//! against a mathematical `Map` (or `Set`) view of those entries.

use vstd::prelude::*;

verus! {

/// One participant's standing: their address and the amount they last submitted.
#[derive(Debug, Clone, PartialEq, Eq)]
pub struct Millionaire {
    pub addr: String,
    pub networth: u128,
}

/// Mathematical image of a [`Millionaire`].
#[verifier::ext_equal]
pub struct MillionaireView {
    pub addr: Seq<char>,
    pub networth: u128,
}

impl View for Millionaire {
    type V = MillionaireView;

    open spec fn view(&self) -> MillionaireView {
        MillionaireView { addr: self.addr@, networth: self.networth }
    }
}

/// The singleton record of the current maximum submission and its owner.
///
/// Invariant over a run of the contract: `richest.networth` is the largest
/// amount submitted so far and `richest.addr` is the first identity to have
/// reached it; see the proof functions in [`crate::contract`].
#[derive(Debug, Clone, PartialEq, Eq)]
pub struct Outcome {
    pub richest: Millionaire,
}

impl View for Outcome {
    type V = MillionaireView;

    open spec fn view(&self) -> MillionaireView {
        self.richest@
    }
}

impl Outcome {
    /// The state at deployment: amount zero, owned by the empty-string
    /// sentinel, which equals no real (validated, non-empty) identity.
    pub fn init() -> (s: Self)
        ensures
            s@.addr == Seq::<char>::empty(),
            s@.networth == 0,
    {
        Self { richest: Millionaire { addr: String::new(), networth: 0 } }
    }

    /// Replace the record with a new owner and amount.
    pub fn update_richest(&mut self, addr: String, networth: u128)
        ensures
            final(self)@.addr == addr@,
            final(self)@.networth == networth,
    {
        self.richest = Millionaire { addr, networth };
    }
}

/// How a repeated submission by the same identity is treated.
#[derive(Debug, Clone, Copy, PartialEq, Eq, Structural)]
pub enum SubmitPolicy {
    /// A later submission always replaces the earlier one.
    Overwrite,
    /// A second submission is refused and the stored amount is kept.
    RejectResubmission,
}

/// Per-identity storage of the latest submitted amount.
pub struct NetWorthStore {
    entries: Vec<(String, u128)>,
}

/// The map described by an entry list: a later entry overrides an earlier one.
pub closed spec fn worth_map_of(s: Seq<(String, u128)>) -> Map<Seq<char>, u128>
    decreases s.len(),
{
    if s.len() == 0 {
        Map::empty()
    } else {
        worth_map_of(s.drop_last()).insert(s.last().0@, s.last().1)
    }
}

/// Lookup in an entry list, taking the latest entry for the key.
pub closed spec fn worth_get(s: Seq<(String, u128)>, k: Seq<char>) -> Option<u128>
    decreases s.len(),
{
    if s.len() == 0 {
        None
    } else if s.last().0@ == k {
        Some(s.last().1)
    } else {
        worth_get(s.drop_last(), k)
    }
}

proof fn lemma_worth_get_matches_map(s: Seq<(String, u128)>, k: Seq<char>)
    ensures
        worth_map_of(s).contains_key(k) == worth_get(s, k) is Some,
        worth_get(s, k) is Some ==> worth_map_of(s)[k] == worth_get(s, k)->Some_0,
    decreases s.len(),
{
    if s.len() > 0 {
        lemma_worth_get_matches_map(s.drop_last(), k);
    }
}

impl View for NetWorthStore {
    type V = Map<Seq<char>, u128>;

    closed spec fn view(&self) -> Map<Seq<char>, u128> {
        worth_map_of(self.entries@)
    }
}

impl NetWorthStore {
    /// An empty store: no identity has submitted.
    pub fn new() -> (s: Self)
        ensures
            s@ == Map::<Seq<char>, u128>::empty(),
    {
        Self { entries: Vec::new() }
    }

    /// The stored amount for `account`, or `None` if it never submitted.
    pub fn may_load(&self, account: &String) -> (r: Option<u128>)
        ensures
            r == (if self@.contains_key(account@) {
                Some(self@[account@])
            } else {
                None::<u128>
            }),
    {
        proof {
            lemma_worth_get_matches_map(self.entries@, account@);
            assert(self.entries@.subrange(0, self.entries@.len() as int) =~= self.entries@);
        }
        let mut i: usize = self.entries.len();
        while i > 0
            invariant
                i <= self.entries.len(),
                worth_get(self.entries@, account@) == worth_get(
                    self.entries@.subrange(0, i as int),
                    account@,
                ),
            decreases i,
        {
            let idx = i - 1;
            proof {
                assert(self.entries@.subrange(0, i as int).drop_last() =~= self.entries@.subrange(
                    0,
                    idx as int,
                ));
                assert(self.entries@.subrange(0, i as int).last() == self.entries@[idx as int]);
            }
            if self.entries[idx].0 == *account {
                proof {
                    lemma_worth_get_matches_map(self.entries@, account@);
                }
                return Some(self.entries[idx].1);
            }
            i = idx;
        }
        proof {
            assert(self.entries@.subrange(0, 0) =~= Seq::<(String, u128)>::empty());
        }
        None
    }

    /// The stored amount for `account`, with zero for an identity that never
    /// submitted; a read never fails on an unknown identity.
    pub fn load(&self, account: &String) -> (r: u128)
        ensures
            r == (if self@.contains_key(account@) {
                self@[account@]
            } else {
                0u128
            }),
    {
        match self.may_load(account) {
            Some(amount) => amount,
            None => 0,
        }
    }

    /// Rebuild a store from persisted entries, a later entry overriding an
    /// earlier one for the same key.
    pub fn from_entries(entries: Vec<(String, u128)>) -> (s: Self)
        ensures
            s@ == worth_map_of(entries@),
    {
        Self { entries }
    }

    /// The entries to persist; rebuilding from them restores this store's
    /// contents.
    pub fn entries(&self) -> (r: &Vec<(String, u128)>)
        ensures
            worth_map_of(r@) == self@,
    {
        &self.entries
    }

    /// Store `amount` as the latest value for `account`, replacing and
    /// returning any earlier value.
    pub fn save(&mut self, account: &String, amount: u128) -> (r: Option<u128>)
        ensures
            final(self)@ == old(self)@.insert(account@, amount),
            r == (if old(self)@.contains_key(account@) {
                Some(old(self)@[account@])
            } else {
                None::<u128>
            }),
    {
        let previous = self.may_load(account);
        let key = account.clone();
        self.entries.push((key, amount));
        proof {
            assert(self.entries@.drop_last() =~= old(self).entries@);
        }
        previous
    }
}

/// The 32-byte digest a viewing key is stored and compared as.
pub uninterp spec fn key_hash(viewing_key: Seq<char>) -> Seq<u8>;

/// Relies on `secret_toolkit::crypto::sha_256`: the returned digest is 32
/// bytes and depends on the key's UTF-8 bytes alone.
#[verifier::external_body]
fn hash_viewing_key(viewing_key: &String) -> (r: Vec<u8>)
    ensures
        r@ == key_hash(viewing_key@),
        r@.len() == 32,
{
    secret_toolkit::crypto::sha_256(viewing_key.as_bytes()).to_vec()
}

/// Per-identity storage of viewing-key material. Only a digest of each key is
/// kept; authentication compares digests.
pub struct ViewingKeyStore {
    entries: Vec<(String, Vec<u8>)>,
}

/// The map described by an entry list: a later entry overrides an earlier one.
pub closed spec fn vk_map_of(s: Seq<(String, Vec<u8>)>) -> Map<Seq<char>, Seq<u8>>
    decreases s.len(),
{
    if s.len() == 0 {
        Map::empty()
    } else {
        vk_map_of(s.drop_last()).insert(s.last().0@, s.last().1@)
    }
}

/// Lookup in an entry list, taking the latest entry for the key; the result
/// is the index of that entry.
pub closed spec fn vk_find(s: Seq<(String, Vec<u8>)>, k: Seq<char>) -> Option<int>
    decreases s.len(),
{
    if s.len() == 0 {
        None
    } else if s.last().0@ == k {
        Some(s.len() - 1)
    } else {
        vk_find(s.drop_last(), k)
    }
}

proof fn lemma_vk_find_matches_map(s: Seq<(String, Vec<u8>)>, k: Seq<char>)
    ensures
        vk_map_of(s).contains_key(k) == vk_find(s, k) is Some,
        vk_find(s, k) is Some ==> {
            let i = vk_find(s, k)->Some_0;
            &&& 0 <= i < s.len()
            &&& s[i].0@ == k
            &&& vk_map_of(s)[k] == s[i].1@
        },
    decreases s.len(),
{
    if s.len() > 0 {
        lemma_vk_find_matches_map(s.drop_last(), k);
    }
}

impl View for ViewingKeyStore {
    type V = Map<Seq<char>, Seq<u8>>;

    closed spec fn view(&self) -> Map<Seq<char>, Seq<u8>> {
        vk_map_of(self.entries@)
    }
}

impl ViewingKeyStore {
    /// An empty store: no identity has a key set.
    pub fn new() -> (s: Self)
        ensures
            s@ == Map::<Seq<char>, Seq<u8>>::empty(),
    {
        Self { entries: Vec::new() }
    }

    /// The index of the latest entry for `account`, if any.
    fn find(&self, account: &String) -> (r: Option<usize>)
        ensures
            match r {
                Some(i) => {
                    &&& i < self.entries@.len()
                    &&& self.entries@[i as int].0@ == account@
                    &&& self@.contains_key(account@)
                    &&& self@[account@] == self.entries@[i as int].1@
                },
                None => !self@.contains_key(account@),
            },
    {
        proof {
            lemma_vk_find_matches_map(self.entries@, account@);
            assert(self.entries@.subrange(0, self.entries@.len() as int) =~= self.entries@);
        }
        let mut i: usize = self.entries.len();
        while i > 0
            invariant
                i <= self.entries.len(),
                vk_find(self.entries@, account@) == vk_find(
                    self.entries@.subrange(0, i as int),
                    account@,
                ),
            decreases i,
        {
            let idx = i - 1;
            proof {
                assert(self.entries@.subrange(0, i as int).drop_last() =~= self.entries@.subrange(
                    0,
                    idx as int,
                ));
                assert(self.entries@.subrange(0, i as int).last() == self.entries@[idx as int]);
            }
            if self.entries[idx].0 == *account {
                proof {
                    lemma_vk_find_matches_map(self.entries@, account@);
                }
                return Some(idx);
            }
            i = idx;
        }
        proof {
            assert(self.entries@.subrange(0, 0) =~= Seq::<(String, Vec<u8>)>::empty());
        }
        None
    }

    /// Rebuild a store from persisted entries, a later entry overriding an
    /// earlier one for the same key.
    pub fn from_entries(entries: Vec<(String, Vec<u8>)>) -> (s: Self)
        ensures
            s@ == vk_map_of(entries@),
    {
        Self { entries }
    }

    /// The entries to persist; rebuilding from them restores this store's
    /// contents.
    pub fn entries(&self) -> (r: &Vec<(String, Vec<u8>)>)
        ensures
            vk_map_of(r@) == self@,
    {
        &self.entries
    }

    /// Set a key for `account`, replacing any earlier one: only the digest of
    /// the key is stored.
    pub fn set(&mut self, account: &String, viewing_key: &String)
        ensures
            final(self)@ == old(self)@.insert(account@, key_hash(viewing_key@)),
    {
        let hashed = hash_viewing_key(viewing_key);
        let key = account.clone();
        self.entries.push((key, hashed));
        proof {
            assert(self.entries@.drop_last() =~= old(self).entries@);
        }
    }

    /// Whether `viewing_key` matches the key stored for `account`. False both
    /// when no key is set and when the key differs; the caller reports the
    /// two cases identically.
    pub fn check(&self, account: &String, viewing_key: &String) -> (r: bool)
        ensures
            r == (self@.contains_key(account@) && self@[account@] == key_hash(viewing_key@)),
    {
        let supplied = hash_viewing_key(viewing_key);
        match self.find(account) {
            Some(i) => bytes_eq(&self.entries[i].1, &supplied),
            None => false,
        }
    }

    /// The stored digest for `account`, if any.
    pub fn key_record(&self, account: &String) -> (r: Option<Vec<u8>>)
        ensures
            match r {
                Some(v) => self@.contains_key(account@) && v@ == self@[account@],
                None => !self@.contains_key(account@),
            },
    {
        match self.find(account) {
            Some(i) => Some(copy_bytes(&self.entries[i].1)),
            None => None,
        }
    }
}

/// Element-wise equality of two byte vectors.
fn bytes_eq(a: &Vec<u8>, b: &Vec<u8>) -> (r: bool)
    ensures
        r == (a@ == b@),
{
    if a.len() != b.len() {
        return false;
    }
    let mut j: usize = 0;
    while j < a.len()
        invariant
            j <= a.len(),
            a@.len() == b@.len(),
            forall|l: int| 0 <= l < j ==> a@[l] == b@[l],
        decreases a.len() - j,
    {
        if a[j] != b[j] {
            return false;
        }
        j += 1;
    }
    proof {
        assert(a@ =~= b@);
    }
    true
}

/// A fresh copy of a byte vector.
fn copy_bytes(v: &Vec<u8>) -> (r: Vec<u8>)
    ensures
        r@ == v@,
{
    let mut out: Vec<u8> = Vec::new();
    let mut j: usize = 0;
    while j < v.len()
        invariant
            j <= v.len(),
            out@ =~= v@.subrange(0, j as int),
        decreases v.len() - j,
    {
        out.push(v[j]);
        j += 1;
    }
    proof {
        assert(v@.subrange(0, v@.len() as int) =~= v@);
    }
    out
}

/// The permit identifiers rejected despite a valid signature: an append-only
/// set of `(account, permit name)` pairs.
pub struct RevokedPermits {
    entries: Vec<(String, String)>,
}

/// The set described by an entry list.
pub closed spec fn revoked_set_of(s: Seq<(String, String)>) -> Set<(Seq<char>, Seq<char>)>
    decreases s.len(),
{
    if s.len() == 0 {
        Set::empty()
    } else {
        revoked_set_of(s.drop_last()).insert((s.last().0@, s.last().1@))
    }
}

/// Membership in an entry list.
pub closed spec fn revoked_has(s: Seq<(String, String)>, p: (Seq<char>, Seq<char>)) -> bool
    decreases s.len(),
{
    if s.len() == 0 {
        false
    } else {
        (s.last().0@, s.last().1@) == p || revoked_has(s.drop_last(), p)
    }
}

proof fn lemma_revoked_has_matches_set(s: Seq<(String, String)>, p: (Seq<char>, Seq<char>))
    ensures
        revoked_set_of(s).contains(p) == revoked_has(s, p),
    decreases s.len(),
{
    if s.len() > 0 {
        lemma_revoked_has_matches_set(s.drop_last(), p);
    }
}

impl View for RevokedPermits {
    type V = Set<(Seq<char>, Seq<char>)>;

    closed spec fn view(&self) -> Set<(Seq<char>, Seq<char>)> {
        revoked_set_of(self.entries@)
    }
}

impl RevokedPermits {
    /// An empty list: no permit is revoked.
    pub fn new() -> (s: Self)
        ensures
            s@ == Set::<(Seq<char>, Seq<char>)>::empty(),
    {
        Self { entries: Vec::new() }
    }

    /// Rebuild a list from persisted entries.
    pub fn from_entries(entries: Vec<(String, String)>) -> (s: Self)
        ensures
            s@ == revoked_set_of(entries@),
    {
        Self { entries }
    }

    /// The entries to persist; rebuilding from them restores this list's
    /// contents.
    pub fn entries(&self) -> (r: &Vec<(String, String)>)
        ensures
            revoked_set_of(r@) == self@,
    {
        &self.entries
    }

    /// Whether `account` has revoked the permit named `permit_name`.
    pub fn is_permit_revoked(&self, account: &String, permit_name: &String) -> (r: bool)
        ensures
            r == self@.contains((account@, permit_name@)),
    {
        proof {
            lemma_revoked_has_matches_set(self.entries@, (account@, permit_name@));
            assert(self.entries@.subrange(0, self.entries@.len() as int) =~= self.entries@);
        }
        let mut i: usize = self.entries.len();
        while i > 0
            invariant
                i <= self.entries.len(),
                revoked_has(self.entries@, (account@, permit_name@)) == revoked_has(
                    self.entries@.subrange(0, i as int),
                    (account@, permit_name@),
                ),
            decreases i,
        {
            let idx = i - 1;
            proof {
                assert(self.entries@.subrange(0, i as int).drop_last() =~= self.entries@.subrange(
                    0,
                    idx as int,
                ));
                assert(self.entries@.subrange(0, i as int).last() == self.entries@[idx as int]);
            }
            if self.entries[idx].0 == *account && self.entries[idx].1 == *permit_name {
                proof {
                    lemma_revoked_has_matches_set(self.entries@, (account@, permit_name@));
                }
                return true;
            }
            i = idx;
        }
        proof {
            assert(self.entries@.subrange(0, 0) =~= Seq::<(String, String)>::empty());
        }
        false
    }

    /// Record a revocation; revocations are never removed.
    pub fn revoke_permit(&mut self, account: String, permit_name: String)
        ensures
            final(self)@ == old(self)@.insert((account@, permit_name@)),
    {
        let p = (account, permit_name);
        self.entries.push(p);
        proof {
            assert(self.entries@.drop_last() =~= old(self).entries@);
        }
    }
}

/// The whole persisted state of one deployment.
pub struct ContractState {
    pub outcome: Outcome,
    pub net_worths: NetWorthStore,
    pub viewing_keys: ViewingKeyStore,
    pub revoked_permits: RevokedPermits,
    pub policy: SubmitPolicy,
}

/// Mathematical image of a [`ContractState`].
#[verifier::ext_equal]
pub struct StateView {
    pub richest: MillionaireView,
    pub worths: Map<Seq<char>, u128>,
    pub keys: Map<Seq<char>, Seq<u8>>,
    pub revoked: Set<(Seq<char>, Seq<char>)>,
    pub policy: SubmitPolicy,
}

impl View for ContractState {
    type V = StateView;

    open spec fn view(&self) -> StateView {
        StateView {
            richest: self.outcome@,
            worths: self.net_worths@,
            keys: self.viewing_keys@,
            revoked: self.revoked_permits@,
            policy: self.policy,
        }
    }
}

} // verus!
