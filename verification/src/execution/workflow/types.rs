//! What a workflow file says.

use vstd::prelude::*;

use crate::strmap::StringMap;

verus! {

/// A workflow.
#[derive(Debug, Clone)]
pub struct WorkflowDefinition {
    pub name: Option<String>,
    pub on: TriggerConfig,
    pub env: StringMap<String>,
    pub defaults: Option<WorkflowDefaults>,
    pub permissions: Option<serde_yaml::Value>,
    pub jobs: StringMap<JobDefinition>,
}

/// The events that start a workflow.
#[derive(Debug, Clone)]
pub struct TriggerConfig {
    pub push: Option<BranchFilter>,
    pub pull_request: Option<BranchFilter>,
    pub workflow_dispatch: Option<serde_yaml::Value>,
    pub schedule: Option<Vec<serde_yaml::Value>>,
    pub event_names: Vec<String>,
}

/// Which branches, tags and paths an event must concern.
#[derive(Debug, Clone)]
pub struct BranchFilter {
    pub branches: Vec<String>,
    pub tags: Vec<String>,
    pub paths: Vec<String>,
}

/// The `defaults` section of a workflow or a job.
#[derive(Debug, Clone)]
pub struct WorkflowDefaults {
    pub run: Option<RunDefaults>,
}

/// The fallback shell and working directory of `run:` steps.
#[derive(Debug, Clone)]
pub struct RunDefaults {
    pub shell: Option<String>,
    pub working_directory: Option<String>,
}

/// A job of a workflow.
#[derive(Debug, Clone)]
pub struct JobDefinition {
    pub runs_on: Vec<String>,
    pub needs: Vec<String>,
    pub if_condition: Option<String>,
    pub env: StringMap<String>,
    pub defaults: Option<WorkflowDefaults>,
    pub permissions: Option<serde_yaml::Value>,
    pub strategy: Option<StrategyConfig>,
    pub steps: Vec<StepDefinition>,
    pub outputs: StringMap<String>,
    pub container: Option<serde_yaml::Value>,
    pub services: Option<serde_yaml::Value>,
}

/// How a job is run several times.
#[derive(Debug, Clone)]
pub struct StrategyConfig {
    pub matrix: MatrixConfig,
    pub fail_fast: bool,
    pub max_parallel: Option<u32>,
}

/// The values that a job is run with.
#[derive(Debug, Clone)]
pub struct MatrixConfig {
    pub base: StringMap<Vec<serde_yaml::Value>>,
    pub include_rows: Vec<StringMap<serde_yaml::Value>>,
    pub exclude_rows: Vec<StringMap<serde_yaml::Value>>,
}

/// A step of a job.
#[derive(Debug, Clone)]
pub struct StepDefinition {
    pub id: Option<String>,
    pub name: Option<String>,
    pub uses: Option<String>,
    pub run: Option<String>,
    pub shell: Option<String>,
    pub with: StringMap<String>,
    pub env: StringMap<String>,
    pub if_condition: Option<String>,
    pub continue_on_error: bool,
    pub timeout_minutes: Option<u32>,
    pub working_directory: Option<String>,
}

impl Default for WorkflowDefaults {
    fn default() -> (r: WorkflowDefaults)
        ensures
            r.run is None,
    {
        WorkflowDefaults { run: None }
    }
}

impl Default for RunDefaults {
    fn default() -> (r: RunDefaults)
        ensures
            r.shell is None,
            r.working_directory is None,
    {
        RunDefaults { shell: None, working_directory: None }
    }
}

impl Default for TriggerConfig {
    fn default() -> (r: TriggerConfig)
        ensures
            r.push is None,
            r.pull_request is None,
            r.workflow_dispatch is None,
            r.schedule is None,
            r.event_names@.len() == 0,
    {
        TriggerConfig {
            push: None,
            pull_request: None,
            workflow_dispatch: None,
            schedule: None,
            event_names: Vec::new(),
        }
    }
}

impl Default for BranchFilter {
    fn default() -> (r: BranchFilter)
        ensures
            r.branches@.len() == 0,
            r.tags@.len() == 0,
            r.paths@.len() == 0,
    {
        BranchFilter { branches: Vec::new(), tags: Vec::new(), paths: Vec::new() }
    }
}

impl Default for MatrixConfig {
    fn default() -> (r: MatrixConfig)
        ensures
            r.base@.len() == 0,
            r.include_rows@.len() == 0,
            r.exclude_rows@.len() == 0,
    {
        MatrixConfig {
            base: StringMap::new(),
            include_rows: Vec::new(),
            exclude_rows: Vec::new(),
        }
    }
}

} // verus!
