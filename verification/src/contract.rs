//! The entry points of the ledger and their exact specifications: mutation
//! dispatch, viewing-key- and permit-gated reads, and the proofs of the
//! properties the ledger keeps over whole runs.
//!
//! Every transition is specified by a `spec` function over [`StateView`]; the
//! executable entry points are proved to realize those functions exactly.

use vstd::prelude::*;

use crate::error::{ContractError, QueryError};
use crate::msg::{
    ExecuteMsg, HostEnv, InstantiateMsg, Permit, PermitView, QueryAnswer, QueryMsg,
    QueryWithPermit, RichieRichPermissions,
};
use crate::state::{
    key_hash, ContractState, MillionaireView, NetWorthStore, Outcome, RevokedPermits, StateView,
    SubmitPolicy, ViewingKeyStore,
};

verus! {

/// The state a fresh deployment starts in: no submissions, no keys, no
/// revocations, and the maximum held by the sentinel at zero.
pub open spec fn spec_init(policy: SubmitPolicy) -> StateView {
    StateView {
        richest: MillionaireView { addr: Seq::empty(), networth: 0 },
        worths: Map::empty(),
        keys: Map::empty(),
        revoked: Set::empty(),
        policy,
    }
}

/// Whether a submission by `sender` is refused under the state's policy.
pub open spec fn spec_submit_rejected(s: StateView, sender: Seq<char>) -> bool {
    s.policy is RejectResubmission && s.worths.contains_key(sender)
}

/// The state after a submission: the stored amount is replaced, and the
/// outcome only by a strictly greater amount — an equal one never displaces
/// the incumbent.
pub open spec fn spec_submit(s: StateView, sender: Seq<char>, networth: u128) -> StateView {
    if spec_submit_rejected(s, sender) {
        s
    } else {
        StateView {
            worths: s.worths.insert(sender, networth),
            richest: if networth > s.richest.networth {
                MillionaireView { addr: sender, networth }
            } else {
                s.richest
            },
            ..s
        }
    }
}

/// The state after a viewing key is set: only the key map changes.
pub open spec fn spec_set_key(s: StateView, sender: Seq<char>, key: Seq<char>) -> StateView {
    StateView { keys: s.keys.insert(sender, key_hash(key)), ..s }
}

/// Whether `addr` currently owns the recorded maximum.
pub open spec fn spec_is_richest(s: StateView, addr: Seq<char>) -> bool {
    s.richest.addr == addr
}

/// The stored amount of `addr`, zero for an identity that never submitted.
pub open spec fn spec_worth(s: StateView, addr: Seq<char>) -> u128 {
    if s.worths.contains_key(addr) {
        s.worths[addr]
    } else {
        0
    }
}

/// The answer of the full read.
pub open spec fn spec_all_info(s: StateView, addr: Seq<char>) -> QueryAnswer {
    QueryAnswer::AllInfo { richest: spec_is_richest(s, addr), networth: spec_worth(s, addr) }
}

/// The answer of the richest-flag read.
pub open spec fn spec_am_i_richest(s: StateView, addr: Seq<char>) -> QueryAnswer {
    QueryAnswer::AmIRichest { richest: spec_is_richest(s, addr) }
}

/// Whether `addr` authenticates with `key`: a key is stored for it and the
/// stored digest is the digest of `key`.
pub open spec fn spec_vk_authenticated(s: StateView, addr: Seq<char>, key: Seq<char>) -> bool {
    s.keys.contains_key(addr) && s.keys[addr] == key_hash(key)
}

/// Whether the permit names `contract_address` among its audiences.
pub open spec fn spec_permit_audience_ok(p: PermitView, contract_address: Seq<char>) -> bool {
    p.allowed_tokens.contains(contract_address)
}

/// Whether the permit has been revoked by its issuer.
pub open spec fn spec_permit_revoked(s: StateView, p: PermitView) -> bool {
    s.revoked.contains((p.account, p.permit_name))
}

/// The permission a permit must declare for each read shape.
pub open spec fn spec_required_permission(query: QueryWithPermit) -> RichieRichPermissions {
    match query {
        QueryWithPermit::AllInfo {  } => RichieRichPermissions::AllInfo,
        QueryWithPermit::AmIRichest {  } => RichieRichPermissions::AmIRichest,
    }
}

/// The answer a permit-authenticated read computes for the permit's issuer.
pub open spec fn spec_permit_answer(s: StateView, account: Seq<char>, query: QueryWithPermit) -> QueryAnswer {
    match query {
        QueryWithPermit::AllInfo {  } => spec_all_info(s, account),
        QueryWithPermit::AmIRichest {  } => spec_am_i_richest(s, account),
    }
}

/// Create the state of a fresh deployment.
pub fn instantiate(_msg: InstantiateMsg, policy: SubmitPolicy) -> (s: ContractState)
    ensures
        s@ == spec_init(policy),
{
    let s = ContractState {
        outcome: Outcome::init(),
        net_worths: NetWorthStore::new(),
        viewing_keys: ViewingKeyStore::new(),
        revoked_permits: RevokedPermits::new(),
        policy,
    };
    proof {
        assert(s@ =~= spec_init(policy));
    }
    s
}

/// Store `networth` as the sender's submission and let it take the maximum
/// if it strictly exceeds the current one. Under the reject policy a second
/// submission is refused and nothing changes.
pub fn try_submit_net_worth(state: &mut ContractState, sender: String, networth: u128) -> (r:
    Result<(), ContractError>)
    requires
        sender@.len() > 0,
    ensures
        final(state)@ == spec_submit(old(state)@, sender@, networth),
        r == (if spec_submit_rejected(old(state)@, sender@) {
            Err::<(), ContractError>(ContractError::AlreadySubmittedNetworth {
                networth: spec_worth(old(state)@, sender@),
            })
        } else {
            Ok::<(), ContractError>(())
        }),
{
    let ghost sender_view = sender@;
    match state.policy {
        SubmitPolicy::RejectResubmission => {
            match state.net_worths.may_load(&sender) {
                Some(existing) => {
                    return Err(ContractError::AlreadySubmittedNetworth { networth: existing });
                },
                None => {},
            }
        },
        SubmitPolicy::Overwrite => {},
    }
    let _previous = state.net_worths.save(&sender, networth);
    if networth > state.outcome.richest.networth {
        state.outcome.update_richest(sender, networth);
    }
    proof {
        assert(state@ =~= spec_submit(old(state)@, sender_view, networth));
    }
    Ok(())
}

/// Store or overwrite the sender's viewing key; always succeeds and touches
/// nothing but the key store — submissions and the outcome are untouched.
pub fn try_set_key(state: &mut ContractState, sender: String, key: String) -> (r: Result<
    (),
    ContractError,
>)
    requires
        sender@.len() > 0,
    ensures
        r == Ok::<(), ContractError>(()),
        final(state)@ == spec_set_key(old(state)@, sender@, key@),
        final(state)@.worths == old(state)@.worths,
        final(state)@.richest == old(state)@.richest,
        final(state)@.revoked == old(state)@.revoked,
        final(state)@.policy == old(state)@.policy,
{
    state.viewing_keys.set(&sender, &key);
    proof {
        assert(state@ =~= spec_set_key(old(state)@, sender@, key@));
    }
    Ok(())
}

/// Mutation dispatch. The sender is the host-validated transaction origin;
/// no further authentication is required.
pub fn execute(state: &mut ContractState, sender: String, msg: ExecuteMsg) -> (r: Result<
    (),
    ContractError,
>)
    requires
        sender@.len() > 0,
    ensures
        msg matches ExecuteMsg::SubmitNetWorth { networth } ==> {
            &&& final(state)@ == spec_submit(old(state)@, sender@, networth)
            &&& r == (if spec_submit_rejected(old(state)@, sender@) {
                Err::<(), ContractError>(ContractError::AlreadySubmittedNetworth {
                    networth: spec_worth(old(state)@, sender@),
                })
            } else {
                Ok::<(), ContractError>(())
            })
        },
        msg matches ExecuteMsg::SetViewingKey { key } ==> {
            &&& r == Ok::<(), ContractError>(())
            &&& final(state)@ == spec_set_key(old(state)@, sender@, key@)
        },
{
    match msg {
        ExecuteMsg::SubmitNetWorth { networth } => try_submit_net_worth(state, sender, networth),
        ExecuteMsg::SetViewingKey { key } => try_set_key(state, sender, key),
    }
}

/// The full read for `addr`: whether it owns the maximum, and its stored
/// amount (zero if it never submitted — an unknown identity never fails).
pub fn query_all_info(state: &ContractState, addr: &String) -> (r: QueryAnswer)
    ensures
        r == spec_all_info(state@, addr@),
{
    let richest = state.outcome.richest.addr == *addr;
    let networth = state.net_worths.load(addr);
    QueryAnswer::AllInfo { richest, networth }
}

/// The richest-flag read for `addr`.
pub fn query_richest(state: &ContractState, addr: &String) -> (r: QueryAnswer)
    ensures
        r == spec_am_i_richest(state@, addr@),
{
    let richest = state.outcome.richest.addr == *addr;
    QueryAnswer::AmIRichest { richest }
}

/// A fresh copy of a permission list.
fn copy_permissions(v: &Vec<RichieRichPermissions>) -> (r: Vec<RichieRichPermissions>)
    ensures
        r@ == v@,
{
    let mut out: Vec<RichieRichPermissions> = Vec::new();
    let mut j: usize = 0;
    while j < v.len()
        invariant
            j <= v.len(),
            out@ =~= v@.subrange(0, j as int),
        decreases v.len() - j,
    {
        out.push(v[j]);
        j += 1;
    }
    proof {
        assert(v@.subrange(0, v@.len() as int) =~= v@);
    }
    out
}

/// A permit-authenticated read. Four gates, in order, each aborting the
/// query: the permit must name this contract as an audience, must not have
/// been revoked by its issuer, must carry a signature the host's crypto
/// accepted, and must declare the permission the requested shape needs. Only
/// then is the answer computed, always for the permit's own issuer.
pub fn permit_queries(
    state: &ContractState,
    env: &HostEnv,
    permit: &Permit,
    query: QueryWithPermit,
) -> (r: Result<QueryAnswer, QueryError>)
    ensures
        !spec_permit_audience_ok(permit@, env.contract_address@) ==> r matches Err(
            QueryError::PermitAudienceMismatch,
        ),
        spec_permit_audience_ok(permit@, env.contract_address@) && spec_permit_revoked(
            state@,
            permit@,
        ) ==> r matches Err(QueryError::PermitRevoked),
        spec_permit_audience_ok(permit@, env.contract_address@) && !spec_permit_revoked(
            state@,
            permit@,
        ) && !env.permit_signature_valid ==> r matches Err(QueryError::PermitSignatureInvalid),
        spec_permit_audience_ok(permit@, env.contract_address@) && !spec_permit_revoked(
            state@,
            permit@,
        ) && env.permit_signature_valid && !permit@.permissions.contains(
            spec_required_permission(query),
        ) ==> (r matches Err(QueryError::NoPermission { required, granted })
            && required == spec_required_permission(query)
            && granted@ == permit@.permissions),
        spec_permit_audience_ok(permit@, env.contract_address@) && !spec_permit_revoked(
            state@,
            permit@,
        ) && env.permit_signature_valid && permit@.permissions.contains(
            spec_required_permission(query),
        ) ==> r == Ok::<QueryAnswer, QueryError>(
            spec_permit_answer(state@, permit@.account, query),
        ),
{
    if !permit.check_token(&env.contract_address) {
        return Err(QueryError::PermitAudienceMismatch);
    }
    if state.revoked_permits.is_permit_revoked(&permit.account, &permit.params.permit_name) {
        return Err(QueryError::PermitRevoked);
    }
    if !env.permit_signature_valid {
        return Err(QueryError::PermitSignatureInvalid);
    }
    let required = match query {
        QueryWithPermit::AllInfo {  } => RichieRichPermissions::AllInfo,
        QueryWithPermit::AmIRichest {  } => RichieRichPermissions::AmIRichest,
    };
    if !permit.check_permission(&required) {
        return Err(
            QueryError::NoPermission {
                required,
                granted: copy_permissions(&permit.params.permissions),
            },
        );
    }
    match query {
        QueryWithPermit::AllInfo {  } => Ok(query_all_info(state, &permit.account)),
        QueryWithPermit::AmIRichest {  } => Ok(query_richest(state, &permit.account)),
    }
}

/// Read dispatch. A viewing-key query authenticates the queried address by
/// its stored key, with one uniform denial for a missing and for a wrong
/// key; a permit query goes through the permit gates. A read never changes
/// the state.
pub fn query(state: &ContractState, env: &HostEnv, msg: QueryMsg) -> (r: Result<
    QueryAnswer,
    QueryError,
>)
    ensures
        msg matches QueryMsg::AllInfo { addr, key } ==> r == (
        if spec_vk_authenticated(state@, addr@, key@) {
            Ok::<QueryAnswer, QueryError>(spec_all_info(state@, addr@))
        } else {
            Err::<QueryAnswer, QueryError>(QueryError::WrongViewingKey)
        }),
        msg matches QueryMsg::AmIRichest { addr, key } ==> r == (
        if spec_vk_authenticated(state@, addr@, key@) {
            Ok::<QueryAnswer, QueryError>(spec_am_i_richest(state@, addr@))
        } else {
            Err::<QueryAnswer, QueryError>(QueryError::WrongViewingKey)
        }),
        msg matches QueryMsg::WithPermit { permit, query: q } ==> {
            &&& (!spec_permit_audience_ok(permit@, env.contract_address@) ==> r matches Err(
                QueryError::PermitAudienceMismatch,
            ))
            &&& (spec_permit_audience_ok(permit@, env.contract_address@) && spec_permit_revoked(
                state@,
                permit@,
            ) ==> r matches Err(QueryError::PermitRevoked))
            &&& (spec_permit_audience_ok(permit@, env.contract_address@) && !spec_permit_revoked(
                state@,
                permit@,
            ) && !env.permit_signature_valid ==> r matches Err(QueryError::PermitSignatureInvalid))
            &&& (spec_permit_audience_ok(permit@, env.contract_address@) && !spec_permit_revoked(
                state@,
                permit@,
            ) && env.permit_signature_valid && !permit@.permissions.contains(
                spec_required_permission(q),
            ) ==> (r matches Err(QueryError::NoPermission { required, granted })
                && required == spec_required_permission(q)
                && granted@ == permit@.permissions))
            &&& (spec_permit_audience_ok(permit@, env.contract_address@) && !spec_permit_revoked(
                state@,
                permit@,
            ) && env.permit_signature_valid && permit@.permissions.contains(
                spec_required_permission(q),
            ) ==> r == Ok::<QueryAnswer, QueryError>(
                spec_permit_answer(state@, permit@.account, q),
            ))
        },
{
    match &msg {
        QueryMsg::AllInfo { .. } => {
            let (addr, key) = msg.get_validation_params();
            if state.viewing_keys.check(&addr, &key) {
                Ok(query_all_info(state, &addr))
            } else {
                Err(QueryError::WrongViewingKey)
            }
        },
        QueryMsg::AmIRichest { .. } => {
            let (addr, key) = msg.get_validation_params();
            if state.viewing_keys.check(&addr, &key) {
                Ok(query_richest(state, &addr))
            } else {
                Err(QueryError::WrongViewingKey)
            }
        },
        QueryMsg::WithPermit { permit, query: q } => permit_queries(state, env, permit, *q),
    }
}

/// The larger of two amounts.
pub open spec fn max_u128(a: u128, b: u128) -> u128 {
    if a >= b {
        a
    } else {
        b
    }
}

/// The state after a whole sequence of submissions, applied in order.
pub open spec fn spec_run_submissions(s: StateView, subs: Seq<(Seq<char>, u128)>) -> StateView
    decreases subs.len(),
{
    if subs.len() == 0 {
        s
    } else {
        spec_run_submissions(spec_submit(s, subs[0].0, subs[0].1), subs.drop_first())
    }
}

/// The largest amount in a sequence of submissions, zero when it is empty.
pub open spec fn spec_max_amount(subs: Seq<(Seq<char>, u128)>) -> u128
    decreases subs.len(),
{
    if subs.len() == 0 {
        0
    } else {
        max_u128(subs[0].1, spec_max_amount(subs.drop_first()))
    }
}

/// One submission never lowers the recorded maximum, under either policy.
pub proof fn lemma_submit_monotone(s: StateView, sender: Seq<char>, networth: u128)
    ensures
        spec_submit(s, sender, networth).richest.networth >= s.richest.networth,
{
}

/// Over any sequence of submissions the recorded maximum never decreases.
pub proof fn lemma_run_monotone(s: StateView, subs: Seq<(Seq<char>, u128)>)
    ensures
        spec_run_submissions(s, subs).richest.networth >= s.richest.networth,
    decreases subs.len(),
{
    if subs.len() > 0 {
        lemma_run_monotone(spec_submit(s, subs[0].0, subs[0].1), subs.drop_first());
    }
}

proof fn lemma_run_networth_overwrite(s: StateView, subs: Seq<(Seq<char>, u128)>)
    requires
        s.policy is Overwrite,
    ensures
        spec_run_submissions(s, subs).richest.networth == max_u128(
            s.richest.networth,
            spec_max_amount(subs),
        ),
    decreases subs.len(),
{
    if subs.len() > 0 {
        lemma_run_networth_overwrite(spec_submit(s, subs[0].0, subs[0].1), subs.drop_first());
    }
}

/// After any sequence of submissions from a fresh deployment under the
/// overwrite policy, the recorded richest amount equals the largest amount
/// submitted so far — zero while there is none.
pub proof fn lemma_richest_amount_is_max(subs: Seq<(Seq<char>, u128)>)
    ensures
        spec_run_submissions(spec_init(SubmitPolicy::Overwrite), subs).richest.networth
            == spec_max_amount(subs),
{
    lemma_run_networth_overwrite(spec_init(SubmitPolicy::Overwrite), subs);
}

/// The position of the first submission of amount `m`.
pub open spec fn spec_first_index_of(subs: Seq<(Seq<char>, u128)>, m: u128) -> int
    decreases subs.len(),
{
    if subs.len() == 0 {
        0
    } else if subs[0].1 == m {
        0
    } else {
        1 + spec_first_index_of(subs.drop_first(), m)
    }
}

proof fn lemma_max_bounds(subs: Seq<(Seq<char>, u128)>)
    ensures
        forall|k: int| 0 <= k < subs.len() ==> subs[k].1 <= spec_max_amount(subs),
    decreases subs.len(),
{
    if subs.len() > 0 {
        lemma_max_bounds(subs.drop_first());
        assert forall|k: int| 0 <= k < subs.len() implies subs[k].1 <= spec_max_amount(subs) by {
            if k > 0 {
                assert(subs[k] == subs.drop_first()[k - 1]);
            }
        }
    }
}

proof fn lemma_max_occurs(subs: Seq<(Seq<char>, u128)>)
    requires
        subs.len() > 0,
    ensures
        exists|k: int| 0 <= k < subs.len() && subs[k].1 == spec_max_amount(subs),
    decreases subs.len(),
{
    if subs[0].1 >= spec_max_amount(subs.drop_first()) {
        assert(subs[0].1 == spec_max_amount(subs));
    } else {
        lemma_max_occurs(subs.drop_first());
        let k = choose|k: int|
            0 <= k < subs.drop_first().len() && subs.drop_first()[k].1 == spec_max_amount(
                subs.drop_first(),
            );
        assert(subs[k + 1] == subs.drop_first()[k]);
        assert(subs[k + 1].1 == spec_max_amount(subs));
    }
}

proof fn lemma_first_index_of(subs: Seq<(Seq<char>, u128)>, m: u128)
    requires
        exists|k: int| 0 <= k < subs.len() && subs[k].1 == m,
    ensures
        ({
            let i = spec_first_index_of(subs, m);
            &&& 0 <= i < subs.len()
            &&& subs[i].1 == m
            &&& forall|j: int| 0 <= j < i ==> subs[j].1 != m
        }),
    decreases subs.len(),
{
    if subs[0].1 != m {
        let k = choose|k: int| 0 <= k < subs.len() && subs[k].1 == m;
        assert(subs.drop_first()[k - 1] == subs[k]);
        lemma_first_index_of(subs.drop_first(), m);
        let i = spec_first_index_of(subs, m);
        assert(subs[i] == subs.drop_first()[i - 1]);
        assert forall|j: int| 0 <= j < i implies subs[j].1 != m by {
            if j > 0 {
                assert(subs[j] == subs.drop_first()[j - 1]);
            }
        }
    }
}

proof fn lemma_run_first_holder(s: StateView, subs: Seq<(Seq<char>, u128)>)
    requires
        s.policy is Overwrite,
    ensures
        spec_max_amount(subs) <= s.richest.networth ==> spec_run_submissions(s, subs).richest
            == s.richest,
        spec_max_amount(subs) > s.richest.networth ==> ({
            let i = spec_first_index_of(subs, spec_max_amount(subs));
            &&& 0 <= i < subs.len()
            &&& spec_run_submissions(s, subs).richest == (MillionaireView {
                addr: subs[i].0,
                networth: subs[i].1,
            })
        }),
    decreases subs.len(),
{
    if subs.len() > 0 {
        let m = spec_max_amount(subs);
        let rest = subs.drop_first();
        let s1 = spec_submit(s, subs[0].0, subs[0].1);
        lemma_run_first_holder(s1, rest);
        if m > s.richest.networth {
            if subs[0].1 == m {
                // the head reaches the maximum first and is never displaced
                assert(spec_max_amount(rest) <= s1.richest.networth);
                assert(s1.richest =~= (MillionaireView { addr: subs[0].0, networth: subs[0].1 }));
            } else {
                // the maximum lies in the tail, above everything seen so far
                assert(m == spec_max_amount(rest));
                assert(spec_max_amount(rest) > s1.richest.networth);
                let i_rest = spec_first_index_of(rest, m);
                assert(subs[i_rest + 1] == rest[i_rest]);
                assert(spec_first_index_of(subs, m) == 1 + i_rest);
            }
        } else {
            assert(s1.richest == s.richest);
            assert(spec_max_amount(rest) <= s1.richest.networth);
        }
    }
}

/// The whole invariant of the outcome record, over any run from a fresh
/// deployment under the overwrite policy: while nothing has been submitted
/// the sentinel holds the maximum at zero, and otherwise the recorded owner
/// is exactly the first submitter to have reached the maximum — everything
/// before it was strictly smaller, and no later tie displaces it.
pub proof fn lemma_richest_is_first_to_reach_max(subs: Seq<(Seq<char>, u128)>)
    ensures
        spec_max_amount(subs) == 0 ==> spec_run_submissions(
            spec_init(SubmitPolicy::Overwrite),
            subs,
        ).richest.addr == Seq::<char>::empty(),
        spec_max_amount(subs) > 0 ==> ({
            let m = spec_max_amount(subs);
            let i = spec_first_index_of(subs, m);
            &&& 0 <= i < subs.len()
            &&& subs[i].1 == m
            &&& forall|j: int| 0 <= j < i ==> subs[j].1 < m
            &&& spec_run_submissions(spec_init(SubmitPolicy::Overwrite), subs).richest.addr
                == subs[i].0
        }),
{
    let s0 = spec_init(SubmitPolicy::Overwrite);
    lemma_run_first_holder(s0, subs);
    if spec_max_amount(subs) > 0 {
        let m = spec_max_amount(subs);
        lemma_max_occurs(subs);
        lemma_first_index_of(subs, m);
        lemma_max_bounds(subs);
    }
}

/// A submission equal to the current maximum never changes who is recorded
/// as richest: the first identity to reach a value keeps it.
pub proof fn lemma_tie_never_displaces(s: StateView, sender: Seq<char>, networth: u128)
    requires
        networth == s.richest.networth,
    ensures
        spec_submit(s, sender, networth).richest.addr == s.richest.addr,
{
}

/// Two reads of the same state with the same valid credential answer alike:
/// an answer is a function of the state alone, and a read never changes the
/// state.
pub proof fn lemma_read_idempotent(s1: StateView, s2: StateView, addr: Seq<char>, key: Seq<char>)
    requires
        s1 == s2,
        spec_vk_authenticated(s1, addr, key),
    ensures
        spec_all_info(s1, addr) == spec_all_info(s2, addr),
        spec_am_i_richest(s1, addr) == spec_am_i_richest(s2, addr),
{
}

} // verus!
