use vstd::prelude::*;
use vstd::string::StringExecFns;
use crate::error::ContractError;
use crate::msg::{ContractEvent, ExecuteMsg, InstantiateMsg, MessageInfo, OutboundCall, QueryMsg, Response};
use crate::numstr::{dec_digits, int_dec, i64_to_dec, u64_to_dec};
use crate::state::{
    create_step, find_worker, init_view, lemma_count_some_le_len, lemma_count_some_push_none,
    lemma_count_some_update, lemma_scores_map_absent, lemma_scores_map_present,
    lemma_scores_map_push, lemma_scores_map_update, next_task_id, operator_score_query,
    respond_outcome, respond_step, task_exists, task_input_query, task_responded,
    task_result_query, Coordinator, CoordView, ScoreEntry, MAX_TASKS,
};

verus! {

/// The key under which a task is published to the registry collaborator.
pub open spec fn registry_key(task_id: int) -> Seq<char> {
    ("taskId.")@ + dec_digits(task_id)
}

/// Everything a successful task creation promises: the state gained exactly
/// the new task, and the response carries, in order, the registry `SetValue`
/// call, the dispatch `ExecuteBvsOffchain` call, and one `TaskCreated` event,
/// all naming the new identifier.
pub open spec fn create_task_post(
    pre: CoordView,
    input: i64,
    post: CoordView,
    r: Result<Response, ContractError>,
) -> bool {
    &&& post == create_step(pre, input)
    &&& r is Ok
    &&& (r matches Ok(resp) ==> {
        &&& resp.messages@.len() == 2
        &&& resp.messages@[0].target@ == pre.state_bank
        &&& (resp.messages@[0].msg matches ExecuteMsg::SetValue { key, value }
            && key@ == registry_key(next_task_id(pre)) && value@ == int_dec(input as int))
        &&& resp.messages@[1].target@ == pre.bvs_driver
        &&& (resp.messages@[1].msg matches ExecuteMsg::ExecuteBvsOffchain { task_id }
            && task_id@ == dec_digits(next_task_id(pre)))
        &&& resp.events@ =~= seq![
            ContractEvent::TaskCreated { task_id: next_task_id(pre) as u64, input },
        ]
    })
}

/// Sets up a fresh coordinator: the three collaborator identities, the
/// scoring capability, no tasks, no results, no scores. Emits nothing.
pub fn instantiate(msg: InstantiateMsg, scoring_enabled: bool) -> (r: (Coordinator, Response))
    ensures
        r.0.wf(),
        r.0@ == init_view(msg.aggregator@, msg.state_bank@, msg.bvs_driver@, scoring_enabled),
        r.1.messages@.len() == 0,
        r.1.events@.len() == 0,
{
    let coordinator = Coordinator {
        aggregator: msg.aggregator,
        state_bank: msg.state_bank,
        bvs_driver: msg.bvs_driver,
        scoring_enabled,
        tasks: Vec::new(),
        results: Vec::new(),
        scores: Vec::new(),
    };
    proof {
        assert(coordinator@ =~= init_view(
            coordinator.aggregator@,
            coordinator.state_bank@,
            coordinator.bvs_driver@,
            scoring_enabled,
        ));
    }
    (coordinator, Response { messages: Vec::new(), events: Vec::new() })
}

/// Assigns the next identifier, records the task's input, and queues the two
/// collaborator notifications and the `TaskCreated` event. Any caller may
/// create a task. The bound on the task count is a machine limit: identifiers
/// and scores live in 64-bit integers.
pub fn create_new_task(state: &mut Coordinator, _info: &MessageInfo, input: i64) -> (r: Result<
    Response,
    ContractError,
>)
    requires
        old(state).wf(),
        old(state)@.tasks.len() < MAX_TASKS,
    ensures
        final(state).wf(),
        create_task_post(old(state)@, input, final(state)@, r),
{
    let new_id: u64 = state.tasks.len() as u64 + 1;
    state.tasks.push(input);
    state.results.push(None);

    let mut key = "taskId.".to_owned();
    let id_digits = u64_to_dec(new_id);
    key.append(id_digits.as_str());
    let value = i64_to_dec(input);

    let mut messages: Vec<OutboundCall> = Vec::new();
    messages.push(OutboundCall {
        target: state.state_bank.clone(),
        msg: ExecuteMsg::SetValue { key, value },
    });
    messages.push(OutboundCall {
        target: state.bvs_driver.clone(),
        msg: ExecuteMsg::ExecuteBvsOffchain { task_id: u64_to_dec(new_id) },
    });

    let mut events: Vec<ContractEvent> = Vec::new();
    events.push(ContractEvent::TaskCreated { task_id: new_id, input });

    proof {
        lemma_count_some_push_none(old(state).results@);
        assert(state@ =~= create_step(old(state)@, input));
    }
    Ok(Response { messages, events })
}

/// Everything a response attempt promises: exactly the outcome of
/// `respond_outcome`, and on success a response with no outbound calls and
/// one `TaskResponded` event.
pub open spec fn respond_task_post(
    pre: CoordView,
    sender: Seq<char>,
    task_id: u64,
    result: i64,
    post: CoordView,
    r: Result<Response, ContractError>,
) -> bool {
    &&& (match respond_outcome(pre, sender, task_id, result) {
        Ok(next) => r is Ok && post == next,
        Err(e) => r == Err::<Response, ContractError>(e) && post == pre,
    })
    &&& (r matches Ok(resp) ==> resp.messages@.len() == 0 && resp.events@ =~= seq![
        ContractEvent::TaskResponded { task_id, result },
    ])
}

/// Records a task's result exactly once. Only the configured aggregator may
/// call this; a second response to the same task is refused, and a response
/// to a task that was never created is refused. On success the result is
/// stored and, when scoring is enabled, the worker named by the task's input
/// gains or loses a point and its participation count grows by one.
pub fn respond_to_task(
    state: &mut Coordinator,
    info: &MessageInfo,
    task_id: u64,
    result: i64,
) -> (r: Result<Response, ContractError>)
    requires
        old(state).wf(),
    ensures
        final(state).wf(),
        respond_task_post(old(state)@, info.sender@, task_id, result, final(state)@, r),
        info.sender@ != old(state)@.aggregator ==> r == Err::<Response, ContractError>(
            ContractError::Unauthorized {},
        ) && final(state)@ == old(state)@,
        info.sender@ == old(state)@.aggregator && task_responded(old(state)@, task_id) ==> r
            == Err::<Response, ContractError>(ContractError::ResultSubmitted {}) && final(state)@
            == old(state)@,
        info.sender@ == old(state)@.aggregator && !task_responded(old(state)@, task_id)
            && !task_exists(old(state)@, task_id) ==> r == Err::<Response, ContractError>(
            ContractError::NoValueFound {},
        ) && final(state)@ == old(state)@,
{
    if !(info.sender == state.aggregator) {
        return Err(ContractError::Unauthorized {});
    }
    if !(task_id >= 1 && task_id <= state.tasks.len() as u64) {
        return Err(ContractError::NoValueFound {});
    }
    let idx = (task_id - 1) as usize;
    if state.results[idx].is_some() {
        return Err(ContractError::ResultSubmitted {});
    }

    proof {
        lemma_count_some_le_len(old(state).results@);
        lemma_count_some_update(old(state).results@, idx as int, result);
    }
    state.results.set(idx, Some(result));
    proof {
        lemma_count_some_le_len(state.results@);
    }
    let worker = state.tasks[idx];

    if state.scoring_enabled {
        match find_worker(&state.scores, worker) {
            Some(i) => {
                let prior_score = state.scores[i].score;
                let prior_responses = state.scores[i].responses;
                proof {
                    lemma_scores_map_present(state.scores@, i as int);
                }
                let entry = ScoreEntry {
                    worker,
                    score: if result == 1 {
                        prior_score + 1
                    } else {
                        prior_score - 1
                    },
                    responses: prior_responses + 1,
                };
                proof {
                    lemma_scores_map_update(state.scores@, i as int, entry);
                }
                state.scores.set(i, entry);
            },
            None => {
                let entry = ScoreEntry {
                    worker,
                    score: if result == 1 {
                        1
                    } else {
                        -1
                    },
                    responses: 1,
                };
                proof {
                    lemma_scores_map_absent(state.scores@, worker);
                    lemma_scores_map_push(state.scores@, entry);
                }
                state.scores.push(entry);
            },
        }
    }

    let mut events: Vec<ContractEvent> = Vec::new();
    events.push(ContractEvent::TaskResponded { task_id, result });
    proof {
        assert(state@ =~= respond_step(old(state)@, task_id, result));
    }
    Ok(Response { messages: Vec::new(), events })
}

/// Dispatches a command. `SetValue` and `ExecuteBvsOffchain` are addressed to
/// the collaborators, not to this coordinator, so they change nothing here.
pub fn execute(state: &mut Coordinator, info: &MessageInfo, msg: ExecuteMsg) -> (r: Result<
    Response,
    ContractError,
>)
    requires
        old(state).wf(),
        msg is CreateNewTask ==> old(state)@.tasks.len() < MAX_TASKS,
    ensures
        final(state).wf(),
        match msg {
            ExecuteMsg::CreateNewTask { input } => create_task_post(
                old(state)@,
                input,
                final(state)@,
                r,
            ),
            ExecuteMsg::RespondToTask { task_id, result } => respond_task_post(
                old(state)@,
                info.sender@,
                task_id,
                result,
                final(state)@,
                r,
            ),
            _ => {
                &&& (r matches Ok(resp) && resp.messages@.len() == 0 && resp.events@.len() == 0)
                &&& final(state)@ == old(state)@
            },
        },
{
    match msg {
        ExecuteMsg::CreateNewTask { input } => create_new_task(state, info, input),
        ExecuteMsg::RespondToTask { task_id, result } => respond_to_task(
            state,
            info,
            task_id,
            result,
        ),
        _ => Ok(Response { messages: Vec::new(), events: Vec::new() }),
    }
}

/// The stored input of a task, or `NoValueFound` for an unknown identifier.
pub fn query_task_input(state: &Coordinator, task_id: u64) -> (r: Result<i64, ContractError>)
    ensures
        r == task_input_query(state@, task_id),
{
    if task_id >= 1 && task_id <= state.tasks.len() as u64 {
        Ok(state.tasks[(task_id - 1) as usize])
    } else {
        Err(ContractError::NoValueFound {})
    }
}

/// The recorded result of a task, or `NoValueFound` while none is recorded.
pub fn query_task_result(state: &Coordinator, task_id: u64) -> (r: Result<i64, ContractError>)
    ensures
        r == task_result_query(state@, task_id),
{
    if task_id >= 1 && task_id <= state.results.len() as u64 {
        match state.results[(task_id - 1) as usize] {
            Some(v) => Ok(v),
            None => Err(ContractError::NoValueFound {}),
        }
    } else {
        Err(ContractError::NoValueFound {})
    }
}

/// The score of a worker, or `NoValueFound` if the worker was never scored.
pub fn query_operator_score(state: &Coordinator, operator: i64) -> (r: Result<i64, ContractError>)
    requires
        state.wf(),
    ensures
        r == operator_score_query(state@, operator),
{
    match find_worker(&state.scores, operator) {
        Some(i) => {
            proof {
                lemma_scores_map_present(state.scores@, i as int);
            }
            Ok(state.scores[i].score)
        },
        None => {
            proof {
                lemma_scores_map_absent(state.scores@, operator);
            }
            Err(ContractError::NoValueFound {})
        },
    }
}

/// The participation count recorded for a worker: how many responses were
/// attributed to it, regardless of correctness.
pub fn worker_responses(state: &Coordinator, worker: i64) -> (r: Option<u64>)
    requires
        state.wf(),
    ensures
        match r {
            Some(n) => state@.scores.dom().contains(worker) && n as int
                == state@.scores[worker].responses,
            None => !state@.scores.dom().contains(worker),
        },
{
    match find_worker(&state.scores, worker) {
        Some(i) => {
            proof {
                lemma_scores_map_present(state.scores@, i as int);
            }
            Some(state.scores[i].responses)
        },
        None => {
            proof {
                lemma_scores_map_absent(state.scores@, worker);
            }
            None
        },
    }
}

/// Dispatches a query; every answer is a single signed integer.
pub fn query(state: &Coordinator, msg: QueryMsg) -> (r: Result<i64, ContractError>)
    requires
        state.wf(),
    ensures
        match msg {
            QueryMsg::GetTaskInput { task_id } => r == task_input_query(state@, task_id),
            QueryMsg::GetTaskResult { task_id } => r == task_result_query(state@, task_id),
            QueryMsg::GetOperatorScore { operator } => r == operator_score_query(state@, operator),
        },
{
    match msg {
        QueryMsg::GetTaskInput { task_id } => query_task_input(state, task_id),
        QueryMsg::GetTaskResult { task_id } => query_task_result(state, task_id),
        QueryMsg::GetOperatorScore { operator } => query_operator_score(state, operator),
    }
}

} // verus!
