use vstd::prelude::*;

verus! {

/// Configuration handed to `contract::instantiate`: the one identity allowed
/// to submit results, and the addresses of the two collaborator services
/// notified on task creation.
pub struct InstantiateMsg {
    pub aggregator: String,
    pub state_bank: String,
    pub bvs_driver: String,
}

/// State-changing commands. `CreateNewTask` and `RespondToTask` are handled by
/// this coordinator; `SetValue` and `ExecuteBvsOffchain` are the messages it
/// sends to the registry and dispatch collaborators (a coordinator receiving
/// one of them does nothing).
#[derive(Debug)]
pub enum ExecuteMsg {
    CreateNewTask { input: i64 },
    RespondToTask { task_id: u64, result: i64 },
    SetValue { key: String, value: String },
    ExecuteBvsOffchain { task_id: String },
}

/// Read-only queries; each answers with a single signed integer.
pub enum QueryMsg {
    GetTaskInput { task_id: u64 },
    GetTaskResult { task_id: u64 },
    GetOperatorScore { operator: i64 },
}

/// The identity of the caller of a command.
pub struct MessageInfo {
    pub sender: String,
}

/// One outbound message to a collaborator: the address it is sent to and the
/// command it carries.
#[derive(Debug)]
pub struct OutboundCall {
    pub target: String,
    pub msg: ExecuteMsg,
}

/// Observable events; one is emitted by each successful command.
#[derive(Debug, PartialEq, Eq)]
pub enum ContractEvent {
    TaskCreated { task_id: u64, input: i64 },
    TaskResponded { task_id: u64, result: i64 },
}

/// What a successful command hands back to the host: the outbound calls to
/// queue and the events to record, all committed atomically with the state
/// change that produced them.
#[derive(Debug)]
pub struct Response {
    pub messages: Vec<OutboundCall>,
    pub events: Vec<ContractEvent>,
}

} // verus!
