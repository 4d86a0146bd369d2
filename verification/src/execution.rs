//! The closed sum of executions and how each is dispatched.
//!
//! An execution names one operation against one resource, or a batch of
//! them selected by a pattern. The runner routes each variant: most go to
//! the execute API and answer one update; batch variants answer a list of
//! per-target results; committing a sync goes through the write API; the
//! sleep and no-op variants are handled locally and touch neither
//! resources nor the journal. A batch variant expands into its singleton
//! request per resolved target with the remaining fields at their
//! defaults.

use vstd::prelude::*;

use crate::update::Update;

verus! {

/// A typed execution request.
#[derive(Debug)]
pub enum Execution {
    NoOp,
    RunAction { action: String },
    BatchRunAction { pattern: String },
    RunProcedure { procedure: String },
    BatchRunProcedure { pattern: String },
    RunBuild { build: String },
    BatchRunBuild { pattern: String },
    CancelBuild { build: String },
    Deploy { deployment: String },
    BatchDeploy { pattern: String },
    PullDeployment { deployment: String },
    StartDeployment { deployment: String },
    RestartDeployment { deployment: String },
    PauseDeployment { deployment: String },
    UnpauseDeployment { deployment: String },
    StopDeployment { deployment: String },
    DestroyDeployment { deployment: String },
    BatchDestroyDeployment { pattern: String },
    CloneRepo { repo: String },
    BatchCloneRepo { pattern: String },
    PullRepo { repo: String },
    BatchPullRepo { pattern: String },
    BuildRepo { repo: String },
    BatchBuildRepo { pattern: String },
    CancelRepoBuild { repo: String },
    StartContainer { server: String, container: String },
    RestartContainer { server: String, container: String },
    PauseContainer { server: String, container: String },
    UnpauseContainer { server: String, container: String },
    StopContainer { server: String, container: String },
    DestroyContainer { server: String, container: String },
    StartAllContainers { server: String },
    RestartAllContainers { server: String },
    PauseAllContainers { server: String },
    UnpauseAllContainers { server: String },
    StopAllContainers { server: String },
    PruneContainers { server: String },
    DeleteNetwork { server: String, name: String },
    PruneNetworks { server: String },
    DeleteImage { server: String, name: String },
    PruneImages { server: String },
    DeleteVolume { server: String, name: String },
    PruneVolumes { server: String },
    PruneDockerBuilders { server: String },
    PruneBuildx { server: String },
    PruneSystem { server: String },
    RunSync { sync: String },
    CommitSync { sync: String },
    DeployStack { stack: String, service: Option<String>, stop_time: Option<i32> },
    BatchDeployStack { pattern: String },
    DeployStackIfChanged { stack: String, stop_time: Option<i32> },
    BatchDeployStackIfChanged { pattern: String },
    PullStack { stack: String, service: Option<String> },
    BatchPullStack { pattern: String },
    StartStack { stack: String, service: Option<String> },
    RestartStack { stack: String, service: Option<String> },
    PauseStack { stack: String, service: Option<String> },
    UnpauseStack { stack: String, service: Option<String> },
    StopStack { stack: String, stop_time: Option<i32>, service: Option<String> },
    DestroyStack {
        stack: String,
        service: Option<String>,
        remove_orphans: bool,
        stop_time: Option<i32>,
    },
    BatchDestroyStack { pattern: String },
    TestAlerter { alerter: String },
    Sleep { duration_ms: u64 },
}

/// How the runner dispatches an execution.
#[derive(Clone, Copy, PartialEq, Eq, Structural, Debug)]
pub enum DispatchRoute {
    ExecuteSingle,
    ExecuteBatch,
    WriteSingle,
    LocalSleep,
    LocalNoOp,
}

/// The route of each variant: batch variants answer per-target results;
/// committing a sync writes; sleep and the no-op stay local; everything
/// else executes and answers one update.
pub open spec fn spec_route(e: Execution) -> DispatchRoute {
    match e {
        Execution::NoOp => DispatchRoute::LocalNoOp,
        Execution::Sleep { .. } => DispatchRoute::LocalSleep,
        Execution::CommitSync { .. } => DispatchRoute::WriteSingle,
        Execution::BatchRunAction { .. } => DispatchRoute::ExecuteBatch,
        Execution::BatchRunProcedure { .. } => DispatchRoute::ExecuteBatch,
        Execution::BatchRunBuild { .. } => DispatchRoute::ExecuteBatch,
        Execution::BatchDeploy { .. } => DispatchRoute::ExecuteBatch,
        Execution::BatchDestroyDeployment { .. } => DispatchRoute::ExecuteBatch,
        Execution::BatchCloneRepo { .. } => DispatchRoute::ExecuteBatch,
        Execution::BatchPullRepo { .. } => DispatchRoute::ExecuteBatch,
        Execution::BatchBuildRepo { .. } => DispatchRoute::ExecuteBatch,
        Execution::BatchDeployStack { .. } => DispatchRoute::ExecuteBatch,
        Execution::BatchDeployStackIfChanged { .. } => DispatchRoute::ExecuteBatch,
        Execution::BatchPullStack { .. } => DispatchRoute::ExecuteBatch,
        Execution::BatchDestroyStack { .. } => DispatchRoute::ExecuteBatch,
        _ => DispatchRoute::ExecuteSingle,
    }
}

/// Routes an execution.
pub fn route(e: &Execution) -> (r: DispatchRoute)
    ensures
        r == spec_route(*e),
{
    match e {
        Execution::NoOp => DispatchRoute::LocalNoOp,
        Execution::Sleep { .. } => DispatchRoute::LocalSleep,
        Execution::CommitSync { .. } => DispatchRoute::WriteSingle,
        Execution::BatchRunAction { .. } => DispatchRoute::ExecuteBatch,
        Execution::BatchRunProcedure { .. } => DispatchRoute::ExecuteBatch,
        Execution::BatchRunBuild { .. } => DispatchRoute::ExecuteBatch,
        Execution::BatchDeploy { .. } => DispatchRoute::ExecuteBatch,
        Execution::BatchDestroyDeployment { .. } => DispatchRoute::ExecuteBatch,
        Execution::BatchCloneRepo { .. } => DispatchRoute::ExecuteBatch,
        Execution::BatchPullRepo { .. } => DispatchRoute::ExecuteBatch,
        Execution::BatchBuildRepo { .. } => DispatchRoute::ExecuteBatch,
        Execution::BatchDeployStack { .. } => DispatchRoute::ExecuteBatch,
        Execution::BatchDeployStackIfChanged { .. } => DispatchRoute::ExecuteBatch,
        Execution::BatchPullStack { .. } => DispatchRoute::ExecuteBatch,
        Execution::BatchDestroyStack { .. } => DispatchRoute::ExecuteBatch,
        _ => DispatchRoute::ExecuteSingle,
    }
}

/// One entry of a batch response: the resolved target's name and its
/// update, or the error message the singleton dispatch failed with.
#[derive(Debug)]
pub struct BatchExecutionResult {
    pub name: String,
    pub result: Result<Update, String>,
}

/// What a batch execution answers: one result per resolved target, in
/// resolved-name order.
#[derive(Debug)]
pub struct BatchExecutionResponse {
    pub results: Vec<BatchExecutionResult>,
}

/// The singleton request a batch deploy issues for one resolved stack:
/// the whole stack, no single service, the default stop time.
pub fn batch_deploy_stack_request(stack: String) -> (e: Execution)
    ensures
        e == (Execution::DeployStack { stack, service: None::<String>, stop_time: None::<i32> }),
{
    Execution::DeployStack { stack, service: None, stop_time: None }
}

/// The singleton request a batch deploy-if-changed issues for one
/// resolved stack.
pub fn batch_deploy_stack_if_changed_request(stack: String) -> (e: Execution)
    ensures
        e == (Execution::DeployStackIfChanged { stack, stop_time: None::<i32> }),
{
    Execution::DeployStackIfChanged { stack, stop_time: None }
}

/// The singleton request a batch destroy issues for one resolved stack:
/// the whole stack, keeping orphans, the default stop time.
pub fn batch_destroy_stack_request(stack: String) -> (e: Execution)
    ensures
        e == (Execution::DestroyStack {
            stack,
            service: None::<String>,
            remove_orphans: false,
            stop_time: None::<i32>,
        }),
{
    Execution::DestroyStack { stack, service: None, remove_orphans: false, stop_time: None }
}

} // verus!
