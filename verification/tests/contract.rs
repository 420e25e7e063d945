use richie_rich::contract::{execute, instantiate, query, query_all_info};
use richie_rich::error::ContractError;
use richie_rich::msg::{ExecuteMsg, HostEnv, InstantiateMsg, QueryAnswer, QueryMsg};
use richie_rich::state::{ContractState, Millionaire, Outcome, SubmitPolicy};

fn init_helper(policy: SubmitPolicy) -> ContractState {
    instantiate(InstantiateMsg {}, policy)
}

fn host_env() -> HostEnv {
    HostEnv {
        contract_address: "contract".to_string(),
        permit_signature_valid: true,
    }
}

fn submit_networth_helper(state: &mut ContractState, submissions: Vec<(&str, u128)>) {
    for (sender, networth) in submissions {
        execute(
            state,
            sender.to_string(),
            ExecuteMsg::SubmitNetWorth { networth },
        )
        .unwrap();
    }
}

fn assert_info(state: &ContractState, acc: &str, exp_richest: bool, exp_networth: u128) {
    let res = query_all_info(state, &acc.to_string());
    match res {
        QueryAnswer::AllInfo { richest, networth } => {
            assert_eq!(richest, exp_richest);
            assert_eq!(networth, exp_networth);
        }
        res => panic!("unexpected QueryAnswer type: {res:?}"),
    }
}

fn assert_info_vec(state: &ContractState, acc_richest_networth: Vec<(&str, bool, u128)>) {
    for (acc, exp_richest, exp_networth) in acc_richest_networth {
        assert_info(state, acc, exp_richest, exp_networth);
    }
}

fn assert_query_err(result: Result<QueryAnswer, richie_rich::error::QueryError>, err_str_includes: &str) {
    match result {
        Ok(_) => panic!("An error was expected, but no error could be extracted"),
        Err(err) => assert!(err.message().contains(err_str_includes)),
    }
}

#[test]
fn test_init_sanity() {
    let deps = init_helper(SubmitPolicy::Overwrite);

    let res = query_all_info(&deps, &"alice".to_string());
    // behavior when querying an address that has not submitted anything:
    match res {
        QueryAnswer::AllInfo { richest, networth } => {
            assert_eq!(richest, false);
            assert_eq!(networth, 0);
        }
        res => panic!("unexpected QueryAnswer type: {res:?}"),
    }
}

#[test]
fn contract_test_init_sanity() {
    let state = init_helper(SubmitPolicy::RejectResubmission);

    assert_eq!(
        state.outcome,
        Outcome {
            richest: Millionaire {
                addr: "".to_string(),
                networth: 0,
            }
        }
    );
}

#[test]
fn test_richest_sanity() {
    let mut deps = init_helper(SubmitPolicy::RejectResubmission);
    submit_networth_helper(&mut deps, vec![("alice", 1), ("bob", 2)]);

    let alice_query_res = query_all_info(&deps, &"alice".to_string());
    let bob_query_res = query_all_info(&deps, &"bob".to_string());

    match alice_query_res {
        QueryAnswer::AllInfo { richest, networth } => {
            assert_eq!(richest, false);
            assert_eq!(networth, 1);
        }
        res => panic!("unexpected QueryAnswer type: {res:?}"),
    }
    match bob_query_res {
        QueryAnswer::AllInfo { richest, networth } => {
            assert_eq!(richest, true);
            assert_eq!(networth, 2);
        }
        res => panic!("unexpected QueryAnswer type: {res:?}"),
    }
}

#[test]
fn test_richest_logic() {
    let mut deps = init_helper(SubmitPolicy::RejectResubmission);
    submit_networth_helper(&mut deps, vec![("alice", 1), ("bob", 2)]);

    assert_info_vec(&deps, vec![("alice", false, 1), ("bob", true, 2)]);

    // cannot resubmit
    let res = execute(
        &mut deps,
        "alice".to_string(),
        ExecuteMsg::SubmitNetWorth { networth: 3 },
    );
    match res {
        Ok(_) => assert!(false, "expected an error, but got success"),
        Err(ContractError::AlreadySubmittedNetworth { networth }) => {
            assert_eq!(networth, 1);
        }
    }

    // tied networth => previous `richest` remains the same
    submit_networth_helper(&mut deps, vec![("carol", 2)]);
    assert_info_vec(
        &deps,
        vec![("alice", false, 1), ("bob", true, 2), ("carol", false, 2)],
    );

    // new richest
    submit_networth_helper(&mut deps, vec![("dan", 3)]);
    assert_info_vec(
        &deps,
        vec![
            ("alice", false, 1),
            ("bob", false, 2),
            ("carol", false, 2),
            ("dan", true, 3),
        ],
    );

    // new but not richest
    submit_networth_helper(&mut deps, vec![("eve", 2)]);
    assert_info_vec(
        &deps,
        vec![
            ("alice", false, 1),
            ("bob", false, 2),
            ("carol", false, 2),
            ("dan", true, 3),
            ("eve", false, 2),
        ],
    );

    // executing set viewing key does not change state on submissions
    execute(
        &mut deps,
        "alice".to_string(),
        ExecuteMsg::SetViewingKey {
            key: "vka".to_string(),
        },
    )
    .unwrap();
    assert_info_vec(
        &deps,
        vec![
            ("alice", false, 1),
            ("bob", false, 2),
            ("carol", false, 2),
            ("dan", true, 3),
            ("eve", false, 2),
        ],
    );
}

#[test]
fn test_vk_query() {
    let mut deps = init_helper(SubmitPolicy::RejectResubmission);
    submit_networth_helper(&mut deps, vec![("alice", 1), ("bob", 2)]);
    let env = host_env();

    // no vk set yet ----------------------
    // AllInfo
    let q_msg_all = QueryMsg::AllInfo {
        addr: "alice".to_string(),
        key: "vka".to_string(),
    };
    let query_result = query(&deps, &env, q_msg_all.clone());
    assert_query_err(
        query_result,
        "Wrong viewing key for this address or viewing key not set",
    );

    // AmIRichest
    let q_msg_richest = QueryMsg::AmIRichest {
        addr: "alice".to_string(),
        key: "vka".to_string(),
    };
    let query_result = query(&deps, &env, q_msg_richest.clone());
    assert_query_err(
        query_result,
        "Wrong viewing key for this address or viewing key not set",
    );

    // set vk ----------------------
    execute(
        &mut deps,
        "alice".to_string(),
        ExecuteMsg::SetViewingKey {
            key: "vka".to_string(),
        },
    )
    .unwrap();

    // can view result with correct vk ----------------------
    // AllInfo
    let query_answer = query(&deps, &env, q_msg_all).unwrap();
    assert_eq!(
        query_answer,
        QueryAnswer::AllInfo {
            richest: false,
            networth: 1,
        }
    );

    // AmIRichest
    let query_answer = query(&deps, &env, q_msg_richest).unwrap();
    assert_eq!(query_answer, QueryAnswer::AmIRichest { richest: false });

    // cannot view result with wrong vk ----------------------
    // AllInfo
    let q_msg_wrong_vk_all = QueryMsg::AllInfo {
        addr: "alice".to_string(),
        key: "vk_wrong".to_string(),
    };
    let query_result = query(&deps, &env, q_msg_wrong_vk_all);
    assert_query_err(
        query_result,
        "Wrong viewing key for this address or viewing key not set",
    );

    // AmIRichest
    let q_msg_wrong_vk_richest = QueryMsg::AmIRichest {
        addr: "alice".to_string(),
        key: "vk_wrong".to_string(),
    };
    let query_result = query(&deps, &env, q_msg_wrong_vk_richest);
    assert_query_err(
        query_result,
        "Wrong viewing key for this address or viewing key not set",
    );

    // cannot view result with "wrong address" ----------------------
    // AllInfo
    let q_msg_wrong_addr_all = QueryMsg::AllInfo {
        addr: "bob".to_string(),
        key: "vka".to_string(),
    };
    let query_result = query(&deps, &env, q_msg_wrong_addr_all);
    assert_query_err(
        query_result,
        "Wrong viewing key for this address or viewing key not set",
    );

    // AmIRichest
    let q_msg_wrong_addr_richest = QueryMsg::AmIRichest {
        addr: "bob".to_string(),
        key: "vka".to_string(),
    };
    let query_result = query(&deps, &env, q_msg_wrong_addr_richest);
    assert_query_err(
        query_result,
        "Wrong viewing key for this address or viewing key not set",
    );
}

#[test]
fn test_query_richest() {
    let mut deps = init_helper(SubmitPolicy::Overwrite);
    submit_networth_helper(&mut deps, vec![("alice", 1), ("bob", 2)]);

    let alice_query_res = query_all_info(&deps, &"alice".to_string());
    let bob_query_res = query_all_info(&deps, &"bob".to_string());

    match alice_query_res {
        QueryAnswer::AllInfo { richest, networth } => {
            assert_eq!(richest, false);
            assert_eq!(networth, 1);
        }
        res => panic!("unexpected QueryAnswer type: {res:?}"),
    }
    match bob_query_res {
        QueryAnswer::AllInfo { richest, networth } => {
            assert_eq!(richest, true);
            assert_eq!(networth, 2);
        }
        res => panic!("unexpected QueryAnswer type: {res:?}"),
    }
}

#[test]
fn test_overwrite_policy_resubmission() {
    let mut deps = init_helper(SubmitPolicy::Overwrite);
    submit_networth_helper(&mut deps, vec![("alice", 1)]);
    assert_info(&deps, "alice", true, 1);

    // a later submission replaces the earlier one
    submit_networth_helper(&mut deps, vec![("alice", 5)]);
    assert_info(&deps, "alice", true, 5);

    // the recorded maximum never decreases, even when the stored amount does
    submit_networth_helper(&mut deps, vec![("alice", 2)]);
    assert_info(&deps, "alice", true, 2);
    assert_eq!(deps.outcome.richest.networth, 5);
}

#[test]
fn test_richest_amount_tracks_max() {
    let mut deps = init_helper(SubmitPolicy::Overwrite);
    let submissions: Vec<(&str, u128)> =
        vec![("a", 3), ("b", 1), ("c", 7), ("d", 7), ("e", 2)];
    let expected_max: Vec<u128> = vec![3, 3, 7, 7, 7];

    let mut last_max: u128 = 0;
    for ((sender, networth), exp) in submissions.into_iter().zip(expected_max) {
        submit_networth_helper(&mut deps, vec![(sender, networth)]);
        assert_eq!(deps.outcome.richest.networth, exp);
        assert!(deps.outcome.richest.networth >= last_max);
        last_max = deps.outcome.richest.networth;
    }

    // "c" reached 7 first and keeps it despite "d" tying
    assert_eq!(deps.outcome.richest.addr, "c".to_string());
}

#[test]
fn test_read_idempotent() {
    let mut deps = init_helper(SubmitPolicy::Overwrite);
    submit_networth_helper(&mut deps, vec![("alice", 1), ("bob", 2)]);
    execute(
        &mut deps,
        "alice".to_string(),
        ExecuteMsg::SetViewingKey {
            key: "vka".to_string(),
        },
    )
    .unwrap();
    let env = host_env();

    let q_msg = QueryMsg::AllInfo {
        addr: "alice".to_string(),
        key: "vka".to_string(),
    };
    let first = query(&deps, &env, q_msg.clone());
    let second = query(&deps, &env, q_msg);
    assert_eq!(first, second);
}

#[test]
fn test_set_key_orthogonal() {
    let mut deps = init_helper(SubmitPolicy::Overwrite);
    submit_networth_helper(&mut deps, vec![("alice", 1), ("bob", 2)]);
    let outcome_before = deps.outcome.clone();

    execute(
        &mut deps,
        "carol".to_string(),
        ExecuteMsg::SetViewingKey {
            key: "vkc".to_string(),
        },
    )
    .unwrap();

    assert_eq!(deps.outcome, outcome_before);
    assert_info_vec(&deps, vec![("alice", false, 1), ("bob", true, 2)]);
}

#[test]
fn test_wrong_key_exact_message() {
    let deps = init_helper(SubmitPolicy::Overwrite);
    let env = host_env();
    let res = query(
        &deps,
        &env,
        QueryMsg::AllInfo {
            addr: "alice".to_string(),
            key: "anything".to_string(),
        },
    );
    let err = res.expect_err("a query with no key set must be denied");
    assert_eq!(
        err.message(),
        "Wrong viewing key for this address or viewing key not set"
    );
}
