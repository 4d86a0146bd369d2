//! The typed requests of the write and execute APIs for stacks and
//! deployments: plain data carriers the dispatcher routes to handlers.

use vstd::prelude::*;

use crate::store::PartialStackConfig;

verus! {

/// Create a stack with the given name, optionally starting from a
/// partial config.
#[derive(Debug)]
pub struct CreateStack {
    pub name: String,
    pub config: PartialStackConfig,
}

/// Create a new stack named `name` with the configuration of the stack
/// at `id`.
#[derive(Debug)]
pub struct CopyStack {
    pub name: String,
    pub id: String,
}

/// Delete the stack at the given id, answering the deleted stack.
#[derive(Debug)]
pub struct DeleteStack {
    pub id: String,
}

/// Update the stack at the given id by merging the partial config; only
/// the fields the partial sets change.
#[derive(Debug)]
pub struct UpdateStack {
    pub id: String,
    pub config: PartialStackConfig,
}

/// Rename the stack at `id` to `name`.
#[derive(Debug)]
pub struct RenameStack {
    pub id: String,
    pub name: String,
}

/// Refresh the stack's cached compose file contents: whether remote
/// files are missing, and for git sources the remote contents, hash and
/// message.
#[derive(Debug)]
pub struct RefreshStackCache {
    pub stack: String,
}

/// What a stack webhook triggers on delivery.
#[derive(Clone, Copy, PartialEq, Eq, Structural, Debug)]
pub enum StackWebhookAction {
    Refresh,
    Deploy,
}

/// Create a webhook on the repo attached to the stack.
#[derive(Debug)]
pub struct CreateStackWebhook {
    pub stack: String,
    pub action: StackWebhookAction,
}

/// Delete the webhook on the repo attached to the stack.
#[derive(Debug)]
pub struct DeleteStackWebhook {
    pub stack: String,
    pub action: StackWebhookAction,
}

/// One equality filter of a list query: field name and required value.
#[derive(Debug)]
pub struct QueryFilter {
    pub field: String,
    pub value: String,
}

/// A list query: equality filters, all of which must hold.
#[derive(Debug)]
pub struct QueryDocument {
    pub filters: Vec<QueryFilter>,
}

/// The signal sent to a container on termination.
#[derive(Clone, Copy, PartialEq, Eq, Structural, Debug)]
pub enum TerminationSignal {
    SigHup,
    SigInt,
    SigQuit,
    SigTerm,
}

/// The flag value naming a termination signal.
pub open spec fn spec_signal_name(sig: TerminationSignal) -> Seq<char> {
    match sig {
        TerminationSignal::SigHup => "SIGHUP"@,
        TerminationSignal::SigInt => "SIGINT"@,
        TerminationSignal::SigQuit => "SIGQUIT"@,
        TerminationSignal::SigTerm => "SIGTERM"@,
    }
}

/// Renders a termination signal as its flag value.
pub fn signal_name(sig: TerminationSignal) -> (r: String)
    ensures
        r@ == spec_signal_name(sig),
{
    match sig {
        TerminationSignal::SigHup => "SIGHUP".to_owned(),
        TerminationSignal::SigInt => "SIGINT".to_owned(),
        TerminationSignal::SigQuit => "SIGQUIT".to_owned(),
        TerminationSignal::SigTerm => "SIGTERM".to_owned(),
    }
}

/// A deployment's configuration: the image, the target server, and what
/// shapes the container.
#[derive(Debug)]
pub struct DeploymentConfig {
    pub server_id: String,
    pub image: String,
    pub environment: String,
    pub extra_args: Vec<String>,
    pub termination_signal: TerminationSignal,
    pub termination_timeout: i32,
    pub network: String,
    pub restart: String,
}

/// A partial deployment config: each field optionally overridden.
#[derive(Debug)]
pub struct PartialDeploymentConfig {
    pub server_id: Option<String>,
    pub image: Option<String>,
    pub environment: Option<String>,
    pub extra_args: Option<Vec<String>>,
    pub termination_signal: Option<TerminationSignal>,
    pub termination_timeout: Option<i32>,
    pub network: Option<String>,
    pub restart: Option<String>,
}

impl PartialDeploymentConfig {
    /// A partial that sets nothing.
    pub open spec fn spec_empty(self) -> bool {
        &&& self.server_id is None
        &&& self.image is None
        &&& self.environment is None
        &&& self.extra_args is None
        &&& self.termination_signal is None
        &&& self.termination_timeout is None
        &&& self.network is None
        &&& self.restart is None
    }
}

/// Two deployment configs hold the same data.
pub open spec fn deployment_config_like(a: DeploymentConfig, b: DeploymentConfig) -> bool {
    &&& a.server_id == b.server_id
    &&& a.image == b.image
    &&& a.environment == b.environment
    &&& a.extra_args@ == b.extra_args@
    &&& a.termination_signal == b.termination_signal
    &&& a.termination_timeout == b.termination_timeout
    &&& a.network == b.network
    &&& a.restart == b.restart
}

/// Merge a partial deployment config into a config: a field the partial
/// sets is overwritten, one it leaves out keeps its value — so the empty
/// partial is the identity.
pub fn apply_partial_deployment(
    config: &DeploymentConfig,
    partial: &PartialDeploymentConfig,
) -> (r: DeploymentConfig)
    ensures
        r.server_id == (match partial.server_id {
            Some(v) => v,
            None => config.server_id,
        }),
        r.image == (match partial.image {
            Some(v) => v,
            None => config.image,
        }),
        r.environment == (match partial.environment {
            Some(v) => v,
            None => config.environment,
        }),
        r.extra_args@ == (match partial.extra_args {
            Some(v) => v@,
            None => config.extra_args@,
        }),
        r.termination_signal == (match partial.termination_signal {
            Some(v) => v,
            None => config.termination_signal,
        }),
        r.termination_timeout == (match partial.termination_timeout {
            Some(v) => v,
            None => config.termination_timeout,
        }),
        r.network == (match partial.network {
            Some(v) => v,
            None => config.network,
        }),
        r.restart == (match partial.restart {
            Some(v) => v,
            None => config.restart,
        }),
        partial.spec_empty() ==> deployment_config_like(r, *config),
{
    DeploymentConfig {
        server_id: match &partial.server_id {
            Option::Some(v) => v.clone(),
            Option::None => config.server_id.clone(),
        },
        image: match &partial.image {
            Option::Some(v) => v.clone(),
            Option::None => config.image.clone(),
        },
        environment: match &partial.environment {
            Option::Some(v) => v.clone(),
            Option::None => config.environment.clone(),
        },
        extra_args: match &partial.extra_args {
            Option::Some(v) => crate::stack::clone_strings(v),
            Option::None => crate::stack::clone_strings(&config.extra_args),
        },
        termination_signal: match partial.termination_signal {
            Option::Some(v) => v,
            Option::None => config.termination_signal,
        },
        termination_timeout: match partial.termination_timeout {
            Option::Some(v) => v,
            Option::None => config.termination_timeout,
        },
        network: match &partial.network {
            Option::Some(v) => v.clone(),
            Option::None => config.network.clone(),
        },
        restart: match &partial.restart {
            Option::Some(v) => v.clone(),
            Option::None => config.restart.clone(),
        },
    }
}

/// Read one deployment by id.
#[derive(Debug)]
pub struct GetDeployment {
    pub id: String,
}

/// List deployments matching an optional query.
#[derive(Debug)]
pub struct ListDeployments {
    pub query: Option<QueryDocument>,
}

/// Create a deployment with the given name and partial config.
#[derive(Debug)]
pub struct CreateDeployment {
    pub name: String,
    pub config: PartialDeploymentConfig,
}

/// Delete the deployment at the given id, answering the deleted
/// deployment.
#[derive(Debug)]
pub struct DeleteDeployment {
    pub id: String,
}

/// Update the deployment at the given id by merging the partial config.
#[derive(Debug)]
pub struct UpdateDeployment {
    pub id: String,
    pub config: PartialDeploymentConfig,
}

/// Rename the deployment at `id` to `name`.
#[derive(Debug)]
pub struct RenameDeployment {
    pub id: String,
    pub name: String,
}

/// Deploy the deployment's container, optionally overriding how the old
/// container is stopped first.
#[derive(Debug)]
pub struct Deploy {
    pub deployment_id: String,
    pub stop_signal: Option<TerminationSignal>,
    pub stop_time: Option<i32>,
}

/// Start the deployment's container.
#[derive(Debug)]
pub struct StartContainer {
    pub deployment_id: String,
}

/// Stop the deployment's container, optionally with a signal and a wait
/// time.
#[derive(Debug)]
pub struct StopContainer {
    pub deployment_id: String,
    pub signal: Option<TerminationSignal>,
    pub time: Option<i32>,
}

/// Stop and remove the deployment's container.
#[derive(Debug)]
pub struct RemoveContainer {
    pub deployment_id: String,
    pub signal: Option<TerminationSignal>,
    pub time: Option<i32>,
}

} // verus!
