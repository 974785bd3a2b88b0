use vstd::prelude::*;
use crate::error::ContractError;
use crate::state::{
    create_step, init_view, next_task_id, respond_outcome, task_input_query, task_responded,
    task_result_query, CoordView,
};

verus! {

/// The state after a sequence of task creations, one per input, oldest first.
pub open spec fn run_creates(s: CoordView, inputs: Seq<i64>) -> CoordView
    decreases inputs.len(),
{
    if inputs.len() == 0 {
        s
    } else {
        create_step(run_creates(s, inputs.drop_last()), inputs.last())
    }
}

/// Creation only appends: after a run of creations the tasks are the old
/// tasks followed by the inputs, in order; every added result slot is empty;
/// configuration and scores do not move.
pub proof fn lemma_run_creates(s: CoordView, inputs: Seq<i64>)
    ensures
        run_creates(s, inputs).tasks =~= s.tasks + inputs,
        run_creates(s, inputs).results.len() == s.results.len() + inputs.len(),
        forall|i: int|
            s.results.len() <= i < s.results.len() + inputs.len() ==> run_creates(
                s,
                inputs,
            ).results[i] is None,
        forall|i: int|
            0 <= i < s.results.len() ==> run_creates(s, inputs).results[i] == s.results[i],
        run_creates(s, inputs).aggregator == s.aggregator,
        run_creates(s, inputs).state_bank == s.state_bank,
        run_creates(s, inputs).bvs_driver == s.bvs_driver,
        run_creates(s, inputs).scoring_enabled == s.scoring_enabled,
        run_creates(s, inputs).scores == s.scores,
    decreases inputs.len(),
{
    if inputs.len() > 0 {
        lemma_run_creates(s, inputs.drop_last());
    }
}

/// Monotonic identifiers: in any sequence of creations starting from a state
/// with `n` tasks, the creation at position `k` (counting from zero) is
/// assigned identifier `n + k + 1`, whatever the inputs. From a fresh
/// deployment (`n == 0`), `N` creations are assigned exactly `1, 2, ..., N`
/// in call order.
pub proof fn lemma_monotonic_identifiers(s: CoordView, inputs: Seq<i64>, k: int)
    requires
        0 <= k < inputs.len(),
    ensures
        next_task_id(run_creates(s, inputs.take(k))) == s.tasks.len() + k + 1,
{
    lemma_run_creates(s, inputs.take(k));
}

/// The identifiers assigned by a sequence of creations, in call order: the
/// creation at position `k` is assigned the identifier the state holds after
/// the `k` creations before it.
pub open spec fn assigned_ids(s: CoordView, inputs: Seq<i64>) -> Seq<int> {
    Seq::new(inputs.len(), |k: int| next_task_id(run_creates(s, inputs.take(k))))
}

/// From a fresh deployment, `N` creations are assigned exactly the
/// identifiers `1, 2, ..., N`, in call order, whatever the inputs.
pub proof fn lemma_identifiers_from_fresh_deployment(
    aggregator: Seq<char>,
    state_bank: Seq<char>,
    bvs_driver: Seq<char>,
    scoring_enabled: bool,
    inputs: Seq<i64>,
)
    ensures
        assigned_ids(init_view(aggregator, state_bank, bvs_driver, scoring_enabled), inputs)
            =~= Seq::new(inputs.len(), |k: int| k + 1),
{
    let start = init_view(aggregator, state_bank, bvs_driver, scoring_enabled);
    assert forall|k: int| 0 <= k < inputs.len() implies assigned_ids(start, inputs)[k] == k
        + 1 by {
        lemma_monotonic_identifiers(start, inputs, k);
    }
}

/// Query consistency for inputs: after any run of creations from a fresh
/// deployment, `GetTaskInput` answers, for every identifier ever assigned,
/// exactly the input of the creation that was assigned that identifier.
pub proof fn lemma_query_input_consistency(
    aggregator: Seq<char>,
    state_bank: Seq<char>,
    bvs_driver: Seq<char>,
    scoring_enabled: bool,
    inputs: Seq<i64>,
    task_id: u64,
)
    requires
        1 <= task_id <= inputs.len(),
    ensures
        task_input_query(
            run_creates(init_view(aggregator, state_bank, bvs_driver, scoring_enabled), inputs),
            task_id,
        ) == Ok::<i64, ContractError>(inputs[task_id - 1]),
{
    let start = init_view(aggregator, state_bank, bvs_driver, scoring_enabled);
    lemma_run_creates(start, inputs);
    assert(start.tasks + inputs =~= inputs);
}

/// Create-once response: once a response to a task has succeeded, any second
/// response to the same task fails — with `ResultSubmitted` when the caller
/// is the aggregator, with `Unauthorized` otherwise. A failed response leaves
/// the state, and so the stored result and every score, unchanged (the
/// contract of `contract::respond_to_task` carries that to the executable
/// coordinator).
pub proof fn lemma_second_response_rejected(
    s: CoordView,
    sender1: Seq<char>,
    task_id: u64,
    result1: i64,
    sender2: Seq<char>,
    result2: i64,
)
    requires
        s.results.len() == s.tasks.len(),
        respond_outcome(s, sender1, task_id, result1) is Ok,
    ensures
        ({
            let s1 = respond_outcome(s, sender1, task_id, result1)->Ok_0;
            &&& respond_outcome(s1, sender2, task_id, result2) is Err
            &&& (sender2 == s1.aggregator ==> respond_outcome(s1, sender2, task_id, result2)
                == Err::<CoordView, ContractError>(ContractError::ResultSubmitted {}))
            &&& (sender2 != s1.aggregator ==> respond_outcome(s1, sender2, task_id, result2)
                == Err::<CoordView, ContractError>(ContractError::Unauthorized {}))
        }),
{
    let s1 = respond_outcome(s, sender1, task_id, result1)->Ok_0;
    assert(task_responded(s1, task_id));
}

/// Query consistency for results: `GetTaskResult` answers `NoValueFound`
/// until a response to the task has succeeded, and afterwards answers exactly
/// the result that was submitted.
pub proof fn lemma_query_result_consistency(
    s: CoordView,
    sender: Seq<char>,
    task_id: u64,
    result: i64,
)
    requires
        s.results.len() == s.tasks.len(),
    ensures
        !task_responded(s, task_id) ==> task_result_query(s, task_id) == Err::<
            i64,
            ContractError,
        >(ContractError::NoValueFound {}),
        respond_outcome(s, sender, task_id, result) is Ok ==> task_result_query(
            respond_outcome(s, sender, task_id, result)->Ok_0,
            task_id,
        ) == Ok::<i64, ContractError>(result),
{
}

} // verus!
