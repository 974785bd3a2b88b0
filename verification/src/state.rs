use vstd::prelude::*;
use crate::error::ContractError;

verus! {

/// The number of tasks a coordinator can hold. Scores are kept in an `i64`
/// and move by one per response, and no worker can answer more tasks than
/// exist, so this bound keeps every score representable.
pub const MAX_TASKS: u64 = 0x7fff_ffff_ffff_ffff;

/// One worker's standing: the running score and the count of responses
/// attributed to the worker.
pub struct ScoreEntry {
    pub worker: i64,
    pub score: i64,
    pub responses: u64,
}

/// The abstract standing of one worker.
#[verifier::ext_equal]
pub struct WorkerStanding {
    pub score: int,
    pub responses: int,
}

/// The abstract state of a coordinator. Task identifiers are positive and
/// contiguous: task `t` exists exactly when `1 <= t <= tasks.len()`, its
/// input is `tasks[t - 1]`, and its result, if any, is `results[t - 1]`.
#[verifier::ext_equal]
pub struct CoordView {
    pub aggregator: Seq<char>,
    pub state_bank: Seq<char>,
    pub bvs_driver: Seq<char>,
    pub scoring_enabled: bool,
    pub tasks: Seq<i64>,
    pub results: Seq<Option<i64>>,
    pub scores: Map<i64, WorkerStanding>,
}

/// The coordinator's whole state. Every entity spec-described by the
/// coordinator lives here; the host persists the value between calls and
/// serializes the calls themselves.
pub struct Coordinator {
    pub aggregator: String,
    pub state_bank: String,
    pub bvs_driver: String,
    pub scoring_enabled: bool,
    pub tasks: Vec<i64>,
    pub results: Vec<Option<i64>>,
    pub scores: Vec<ScoreEntry>,
}

pub open spec fn standing_of(e: ScoreEntry) -> WorkerStanding {
    WorkerStanding { score: e.score as int, responses: e.responses as int }
}

/// The map a sequence of score entries stands for; later entries would win,
/// though well-formed coordinators never hold two entries for one worker.
pub open spec fn scores_map(entries: Seq<ScoreEntry>) -> Map<i64, WorkerStanding>
    decreases entries.len(),
{
    if entries.len() == 0 {
        Map::empty()
    } else {
        scores_map(entries.drop_last()).insert(
            entries.last().worker,
            standing_of(entries.last()),
        )
    }
}

impl View for Coordinator {
    type V = CoordView;

    open spec fn view(&self) -> CoordView {
        CoordView {
            aggregator: self.aggregator@,
            state_bank: self.state_bank@,
            bvs_driver: self.bvs_driver@,
            scoring_enabled: self.scoring_enabled,
            tasks: self.tasks@,
            results: self.results@,
            scores: scores_map(self.scores@),
        }
    }
}

/// How many tasks have a recorded result.
pub open spec fn count_some(results: Seq<Option<i64>>) -> int
    decreases results.len(),
{
    if results.len() == 0 {
        0
    } else {
        count_some(results.drop_last()) + if results.last() is Some {
            1int
        } else {
            0int
        }
    }
}

pub open spec fn unique_workers(entries: Seq<ScoreEntry>) -> bool {
    forall|i: int, j: int|
        #![trigger entries[i].worker, entries[j].worker]
        0 <= i < j < entries.len() ==> entries[i].worker != entries[j].worker
}

/// A score entry is in bounds: the score moved by one per response, and the
/// worker answered no more tasks than have results at all.
pub open spec fn entry_ok(e: ScoreEntry, results: Seq<Option<i64>>) -> bool {
    &&& -(e.responses as int) <= e.score as int <= e.responses as int
    &&& e.responses as int <= count_some(results)
}

impl Coordinator {
    /// Well-formedness: every task has a result slot, the task count stays
    /// within `MAX_TASKS`, the score table has one bounded entry per worker,
    /// and scores exist only where scoring is enabled.
    pub open spec fn wf(&self) -> bool {
        &&& self.results@.len() == self.tasks@.len()
        &&& self.tasks@.len() <= MAX_TASKS
        &&& unique_workers(self.scores@)
        &&& forall|i: int|
            0 <= i < self.scores@.len() ==> entry_ok(#[trigger] self.scores@[i], self.results@)
        &&& !self.scoring_enabled ==> self.scores@.len() == 0
    }
}

// ---------------------------------------------------------------------------
// The abstract state machine, over `CoordView`.
// ---------------------------------------------------------------------------

/// The state a fresh deployment starts in.
pub open spec fn init_view(
    aggregator: Seq<char>,
    state_bank: Seq<char>,
    bvs_driver: Seq<char>,
    scoring_enabled: bool,
) -> CoordView {
    CoordView {
        aggregator,
        state_bank,
        bvs_driver,
        scoring_enabled,
        tasks: Seq::empty(),
        results: Seq::empty(),
        scores: Map::empty(),
    }
}

/// The identifier the next created task will get.
pub open spec fn next_task_id(s: CoordView) -> int {
    s.tasks.len() + 1int
}

pub open spec fn task_exists(s: CoordView, task_id: u64) -> bool {
    1 <= task_id <= s.tasks.len()
}

pub open spec fn task_responded(s: CoordView, task_id: u64) -> bool {
    1 <= task_id <= s.results.len() && s.results[task_id - 1] is Some
}

/// Creating a task appends its input and an empty result slot; nothing else
/// moves.
pub open spec fn create_step(s: CoordView, input: i64) -> CoordView {
    CoordView { tasks: s.tasks.push(input), results: s.results.push(None), ..s }
}

/// A worker's standing, or the zero standing if the worker was never scored.
pub open spec fn standing_or_default(s: CoordView, worker: i64) -> WorkerStanding {
    if s.scores.dom().contains(worker) {
        s.scores[worker]
    } else {
        WorkerStanding { score: 0, responses: 0 }
    }
}

/// One response moves the score by plus one for a correct result (`1`) and
/// minus one otherwise, and always counts one more response.
pub open spec fn updated_standing(prior: WorkerStanding, result: i64) -> WorkerStanding {
    WorkerStanding {
        score: if result == 1 {
            prior.score + 1
        } else {
            prior.score - 1
        },
        responses: prior.responses + 1,
    }
}

/// Recording a response fills the task's result slot and, when scoring is
/// enabled, moves the standing of the worker named by the task's input.
pub open spec fn respond_step(s: CoordView, task_id: u64, result: i64) -> CoordView
    recommends
        task_exists(s, task_id),
{
    let worker = s.tasks[task_id - 1];
    CoordView {
        results: s.results.update(task_id - 1, Some(result)),
        scores: if s.scoring_enabled {
            s.scores.insert(worker, updated_standing(standing_or_default(s, worker), result))
        } else {
            s.scores
        },
        ..s
    }
}

/// What a response attempt does: the caller must be the aggregator, the task
/// must not have a result yet, and the task must exist — checked in that
/// order. Only then does the state move.
pub open spec fn respond_outcome(
    s: CoordView,
    sender: Seq<char>,
    task_id: u64,
    result: i64,
) -> Result<CoordView, ContractError> {
    if sender != s.aggregator {
        Err(ContractError::Unauthorized {})
    } else if task_responded(s, task_id) {
        Err(ContractError::ResultSubmitted {})
    } else if !task_exists(s, task_id) {
        Err(ContractError::NoValueFound {})
    } else {
        Ok(respond_step(s, task_id, result))
    }
}

/// What `GetTaskInput` answers.
pub open spec fn task_input_query(s: CoordView, task_id: u64) -> Result<i64, ContractError> {
    if task_exists(s, task_id) {
        Ok(s.tasks[task_id - 1])
    } else {
        Err(ContractError::NoValueFound {})
    }
}

/// What `GetTaskResult` answers.
pub open spec fn task_result_query(s: CoordView, task_id: u64) -> Result<i64, ContractError> {
    if task_responded(s, task_id) {
        Ok(s.results[task_id - 1].unwrap())
    } else {
        Err(ContractError::NoValueFound {})
    }
}

// ---------------------------------------------------------------------------
// Facts about `count_some` and `scores_map` that the executable coordinator
// leans on.
// ---------------------------------------------------------------------------

pub proof fn lemma_count_some_le_len(results: Seq<Option<i64>>)
    ensures
        0 <= count_some(results) <= results.len(),
    decreases results.len(),
{
    if results.len() > 0 {
        lemma_count_some_le_len(results.drop_last());
    }
}

pub proof fn lemma_count_some_push_none(results: Seq<Option<i64>>)
    ensures
        count_some(results.push(None)) == count_some(results),
{
    assert(results.push(None).drop_last() =~= results);
}

pub proof fn lemma_count_some_update(results: Seq<Option<i64>>, i: int, v: i64)
    requires
        0 <= i < results.len(),
        results[i] is None,
    ensures
        count_some(results.update(i, Some(v))) == count_some(results) + 1,
    decreases results.len(),
{
    let updated = results.update(i, Some(v));
    if i == results.len() - 1 {
        assert(updated.drop_last() =~= results.drop_last());
    } else {
        assert(updated.drop_last() =~= results.drop_last().update(i, Some(v)));
        lemma_count_some_update(results.drop_last(), i, v);
    }
}

pub proof fn lemma_scores_map_absent(entries: Seq<ScoreEntry>, worker: i64)
    requires
        forall|i: int| 0 <= i < entries.len() ==> (#[trigger] entries[i]).worker != worker,
    ensures
        !scores_map(entries).dom().contains(worker),
    decreases entries.len(),
{
    if entries.len() > 0 {
        lemma_scores_map_absent(entries.drop_last(), worker);
    }
}

pub proof fn lemma_scores_map_present(entries: Seq<ScoreEntry>, i: int)
    requires
        unique_workers(entries),
        0 <= i < entries.len(),
    ensures
        scores_map(entries).dom().contains(entries[i].worker),
        scores_map(entries)[entries[i].worker] == standing_of(entries[i]),
    decreases entries.len(),
{
    if i < entries.len() - 1 {
        assert(unique_workers(entries.drop_last()));
        lemma_scores_map_present(entries.drop_last(), i);
        assert(entries[i].worker != entries.last().worker);
    }
}

pub proof fn lemma_scores_map_push(entries: Seq<ScoreEntry>, e: ScoreEntry)
    ensures
        scores_map(entries.push(e)) == scores_map(entries).insert(e.worker, standing_of(e)),
{
    assert(entries.push(e).drop_last() =~= entries);
}

pub proof fn lemma_scores_map_update(entries: Seq<ScoreEntry>, i: int, e: ScoreEntry)
    requires
        unique_workers(entries),
        0 <= i < entries.len(),
        entries[i].worker == e.worker,
    ensures
        scores_map(entries.update(i, e)) == scores_map(entries).insert(e.worker, standing_of(e)),
    decreases entries.len(),
{
    let updated = entries.update(i, e);
    if i == entries.len() - 1 {
        assert(updated.drop_last() =~= entries.drop_last());
        assert(updated.last() == e);
    } else {
        assert(updated.drop_last() =~= entries.drop_last().update(i, e));
        assert(unique_workers(entries.drop_last()));
        lemma_scores_map_update(entries.drop_last(), i, e);
        assert(entries[i].worker != entries.last().worker);
        assert(updated.last() == entries.last());
        assert(scores_map(entries.drop_last()).insert(e.worker, standing_of(e)).insert(
            entries.last().worker,
            standing_of(entries.last()),
        ) =~= scores_map(entries.drop_last()).insert(
            entries.last().worker,
            standing_of(entries.last()),
        ).insert(e.worker, standing_of(e)));
    }
}

pub proof fn lemma_count_some_take(results: Seq<Option<i64>>, i: int)
    requires
        0 <= i < results.len(),
    ensures
        count_some(results.take(i + 1)) == count_some(results.take(i)) + if results[i] is Some {
            1int
        } else {
            0int
        },
{
    assert(results.take(i + 1).drop_last() =~= results.take(i));
    assert(results.take(i + 1).last() == results[i]);
}

/// Decides well-formedness of a coordinator value, for a host that restores
/// one from its store and owes the library a well-formed state.
pub fn check_wf(state: &Coordinator) -> (b: bool)
    ensures
        b == state.wf(),
{
    if state.results.len() != state.tasks.len() {
        return false;
    }
    if state.tasks.len() as u64 > MAX_TASKS {
        return false;
    }
    if !state.scoring_enabled && state.scores.len() > 0 {
        return false;
    }

    // Count the recorded results.
    let mut responded: u64 = 0;
    let mut i: usize = 0;
    while i < state.results.len()
        invariant
            i <= state.results@.len(),
            responded <= i,
            responded == count_some(state.results@.take(i as int)),
        decreases state.results@.len() - i,
    {
        proof {
            lemma_count_some_take(state.results@, i as int);
        }
        if state.results[i].is_some() {
            responded = responded + 1;
        }
        i = i + 1;
    }
    proof {
        assert(state.results@.take(state.results@.len() as int) =~= state.results@);
    }

    // Each worker may appear once, and each entry must be in bounds.
    let mut j: usize = 0;
    while j < state.scores.len()
        invariant
            j <= state.scores@.len(),
            state.results@.len() == state.tasks@.len(),
            state.tasks@.len() <= MAX_TASKS,
            responded == count_some(state.results@),
            forall|a: int, b: int|
                #![trigger state.scores@[a].worker, state.scores@[b].worker]
                0 <= a < b < j ==> state.scores@[a].worker != state.scores@[b].worker,
            forall|a: int| 0 <= a < j ==> entry_ok(#[trigger] state.scores@[a], state.results@),
        decreases state.scores@.len() - j,
    {
        let mut k: usize = 0;
        while k < j
            invariant
                k <= j < state.scores@.len(),
                forall|a: int|
                    0 <= a < k ==> (#[trigger] state.scores@[a]).worker != state.scores@[j as int].worker,
            decreases j - k,
        {
            if state.scores[k].worker == state.scores[j].worker {
                return false;
            }
            k = k + 1;
        }
        let entry_responses = state.scores[j].responses;
        let entry_score = state.scores[j].score;
        if entry_responses > responded {
            return false;
        }
        proof {
            lemma_count_some_le_len(state.results@);
        }
        let bound = entry_responses as i64;
        if entry_score > bound || entry_score < -bound {
            return false;
        }
        j = j + 1;
    }
    true
}

/// The index of the score entry for `worker`, if the table holds one.
pub fn find_worker(entries: &Vec<ScoreEntry>, worker: i64) -> (r: Option<usize>)
    ensures
        match r {
            Some(i) => i < entries@.len() && entries@[i as int].worker == worker,
            None => forall|i: int|
                0 <= i < entries@.len() ==> (#[trigger] entries@[i]).worker != worker,
        },
{
    let mut i: usize = 0;
    while i < entries.len()
        invariant
            i <= entries@.len(),
            forall|j: int| 0 <= j < i ==> (#[trigger] entries@[j]).worker != worker,
        decreases entries@.len() - i,
    {
        if entries[i].worker == worker {
            return Some(i);
        }
        i = i + 1;
    }
    None
}

/// What `GetOperatorScore` answers.
pub open spec fn operator_score_query(s: CoordView, operator: i64) -> Result<i64, ContractError> {
    if s.scores.dom().contains(operator) {
        Ok(s.scores[operator].score as i64)
    } else {
        Err(ContractError::NoValueFound {})
    }
}

} // verus!
