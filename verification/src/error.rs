use vstd::prelude::*;

verus! {

/// Every way a coordinator call can be refused. Each variant is tied by the
/// contracts in `contract` to the exact inputs and states that produce it.
#[derive(Debug, Clone, Copy, PartialEq, Eq, Structural)]
pub enum ContractError {
    /// The caller of a response is not the configured aggregator.
    Unauthorized {},
    /// A result for the named task has already been recorded.
    ResultSubmitted {},
    /// The task, result or score asked for does not exist.
    NoValueFound {},
}

} // verus!
