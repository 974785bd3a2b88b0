use bvs_squaring::contract::{
    create_new_task, execute, instantiate, query_operator_score, query_task_input,
    query_task_result, respond_to_task, worker_responses,
};
use bvs_squaring::error::ContractError;
use bvs_squaring::msg::{ContractEvent, ExecuteMsg, InstantiateMsg, MessageInfo};
use bvs_squaring::numstr::{i64_to_dec, u64_to_dec};
use bvs_squaring::state::{check_wf, Coordinator, ScoreEntry};

fn mock_info(sender: &str) -> MessageInfo {
    MessageInfo { sender: sender.to_string() }
}

fn setup(scoring_enabled: bool) -> Coordinator {
    let msg = InstantiateMsg {
        aggregator: "aggregator".to_string(),
        state_bank: "state_bank".to_string(),
        bvs_driver: "bvs_driver".to_string(),
    };
    instantiate(msg, scoring_enabled).0
}

#[test]
fn identifiers_are_assigned_in_call_order() {
    let mut coordinator = setup(true);
    let info = mock_info("anyone");
    let inputs: [i64; 5] = [3, -8, 3, 0, 9000];
    for (k, input) in inputs.iter().enumerate() {
        let res = create_new_task(&mut coordinator, &info, *input).unwrap();
        let expected_id = (k + 1) as u64;
        assert_eq!(
            res.events[0],
            ContractEvent::TaskCreated { task_id: expected_id, input: *input }
        );
    }
    for (k, input) in inputs.iter().enumerate() {
        assert_eq!(query_task_input(&coordinator, (k + 1) as u64), Ok(*input));
    }
}

#[test]
fn score_accumulates_over_four_responses() {
    let mut coordinator = setup(true);
    let creator = mock_info("creator");
    let aggregator = mock_info("aggregator");
    let worker: i64 = 42;

    // No prior score
    assert_eq!(
        query_operator_score(&coordinator, worker),
        Err(ContractError::NoValueFound {})
    );

    let results: [i64; 4] = [1, 0, 1, 0];
    for (k, result) in results.iter().enumerate() {
        create_new_task(&mut coordinator, &creator, worker).unwrap();
        respond_to_task(&mut coordinator, &aggregator, (k + 1) as u64, *result).unwrap();
    }

    assert_eq!(query_operator_score(&coordinator, worker), Ok(0));
    assert_eq!(worker_responses(&coordinator, worker), Some(4));
}

#[test]
fn second_response_is_rejected_and_changes_nothing() {
    let mut coordinator = setup(true);
    let creator = mock_info("creator");
    let aggregator = mock_info("aggregator");

    create_new_task(&mut coordinator, &creator, 42).unwrap();
    respond_to_task(&mut coordinator, &aggregator, 1, 1).unwrap();

    let second = respond_to_task(&mut coordinator, &aggregator, 1, 0);
    assert_eq!(second.unwrap_err(), ContractError::ResultSubmitted {});

    // The stored result and the scores are unchanged
    assert_eq!(query_task_result(&coordinator, 1), Ok(1));
    assert_eq!(query_operator_score(&coordinator, 42), Ok(1));
    assert_eq!(worker_responses(&coordinator, 42), Some(1));
}

#[test]
fn unauthorized_response_has_no_side_effects() {
    let mut coordinator = setup(true);
    let creator = mock_info("creator");

    create_new_task(&mut coordinator, &creator, 42).unwrap();

    let intruder = mock_info("intruder");
    let res = respond_to_task(&mut coordinator, &intruder, 1, 1);
    assert_eq!(res.unwrap_err(), ContractError::Unauthorized {});

    // Still unresponded, still unscored
    assert_eq!(
        query_task_result(&coordinator, 1),
        Err(ContractError::NoValueFound {})
    );
    assert_eq!(
        query_operator_score(&coordinator, 42),
        Err(ContractError::NoValueFound {})
    );
    assert_eq!(worker_responses(&coordinator, 42), None);
}

#[test]
fn creation_notifies_both_collaborators_exactly_once() {
    let mut coordinator = setup(true);
    let info = mock_info("anyone");

    // A negative input exercises the signed rendering of the value
    let res = create_new_task(&mut coordinator, &info, -7).unwrap();
    assert_eq!(res.messages.len(), 2);

    assert_eq!(res.messages[0].target, "state_bank");
    match &res.messages[0].msg {
        ExecuteMsg::SetValue { key, value } => {
            assert_eq!(key, "taskId.1");
            assert_eq!(value, "-7");
        }
        _ => panic!("Unexpected message type"),
    }

    assert_eq!(res.messages[1].target, "bvs_driver");
    match &res.messages[1].msg {
        ExecuteMsg::ExecuteBvsOffchain { task_id } => assert_eq!(task_id, "1"),
        _ => panic!("Unexpected message type"),
    }
}

#[test]
fn decimal_rendering_is_exact() {
    assert_eq!(u64_to_dec(0), "0");
    assert_eq!(u64_to_dec(84), "84");
    assert_eq!(u64_to_dec(10), "10");
    assert_eq!(u64_to_dec(18446744073709551615), "18446744073709551615");
    assert_eq!(i64_to_dec(0), "0");
    assert_eq!(i64_to_dec(-1), "-1");
    assert_eq!(i64_to_dec(9223372036854775807), "9223372036854775807");
    assert_eq!(i64_to_dec(-9223372036854775808), "-9223372036854775808");
}

#[test]
fn scoring_disabled_records_results_without_scores() {
    let mut coordinator = setup(false);
    let creator = mock_info("creator");
    let aggregator = mock_info("aggregator");

    create_new_task(&mut coordinator, &creator, 42).unwrap();
    respond_to_task(&mut coordinator, &aggregator, 1, 1).unwrap();

    assert_eq!(query_task_result(&coordinator, 1), Ok(1));
    assert_eq!(
        query_operator_score(&coordinator, 42),
        Err(ContractError::NoValueFound {})
    );
    assert_eq!(worker_responses(&coordinator, 42), None);
}

#[test]
fn unknown_identifiers_are_not_found() {
    let mut coordinator = setup(true);
    let creator = mock_info("creator");
    let aggregator = mock_info("aggregator");

    assert_eq!(
        query_task_input(&coordinator, 1),
        Err(ContractError::NoValueFound {})
    );
    assert_eq!(
        query_task_result(&coordinator, 1),
        Err(ContractError::NoValueFound {})
    );

    create_new_task(&mut coordinator, &creator, 5).unwrap();

    // Task identifiers start at 1; 0 and 2 do not exist yet
    assert_eq!(
        query_task_input(&coordinator, 0),
        Err(ContractError::NoValueFound {})
    );
    assert_eq!(
        query_task_input(&coordinator, 2),
        Err(ContractError::NoValueFound {})
    );

    // A response to a task that was never created is refused
    let res = respond_to_task(&mut coordinator, &aggregator, 2, 1);
    assert_eq!(res.unwrap_err(), ContractError::NoValueFound {});
}

#[test]
fn well_formedness_check_accepts_reached_states_and_rejects_corrupted_ones() {
    let mut coordinator = setup(true);
    assert!(check_wf(&coordinator));

    let creator = mock_info("creator");
    let aggregator = mock_info("aggregator");
    create_new_task(&mut coordinator, &creator, 42).unwrap();
    respond_to_task(&mut coordinator, &aggregator, 1, 1).unwrap();
    assert!(check_wf(&coordinator));

    // A task without a result slot
    let mut corrupted = setup(true);
    corrupted.tasks.push(5);
    assert!(!check_wf(&corrupted));

    // Two entries for one worker
    let mut corrupted = setup(true);
    corrupted.scores.push(ScoreEntry { worker: 1, score: 0, responses: 0 });
    corrupted.scores.push(ScoreEntry { worker: 1, score: 0, responses: 0 });
    assert!(!check_wf(&corrupted));

    // A score that no run of responses can reach
    let mut corrupted = setup(true);
    corrupted.scores.push(ScoreEntry { worker: 1, score: 3, responses: 1 });
    assert!(!check_wf(&corrupted));

    // A score table in the variant that keeps none
    let mut corrupted = setup(false);
    corrupted.scores.push(ScoreEntry { worker: 1, score: 0, responses: 0 });
    assert!(!check_wf(&corrupted));
}

#[test]
fn collaborator_commands_are_ignored_by_the_coordinator() {
    let mut coordinator = setup(true);
    let info = mock_info("anyone");

    let set_msg = ExecuteMsg::SetValue {
        key: "taskId.1".to_string(),
        value: "10".to_string(),
    };
    let res = execute(&mut coordinator, &info, set_msg).unwrap();
    assert_eq!(res.messages.len(), 0);
    assert_eq!(res.events.len(), 0);
    assert_eq!(coordinator.tasks.len(), 0);

    let offchain_msg = ExecuteMsg::ExecuteBvsOffchain { task_id: "1".to_string() };
    let res = execute(&mut coordinator, &info, offchain_msg).unwrap();
    assert_eq!(res.messages.len(), 0);
    assert_eq!(res.events.len(), 0);
    assert_eq!(coordinator.tasks.len(), 0);
}
