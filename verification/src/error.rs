//! The error that every fallible operation of the runner reports.

use vstd::prelude::*;

verus! {

/// A failure, classed by where it arose.
#[derive(Debug)]
pub enum RunnerError {
    /// Bad or missing configuration.
    Config(String),
    /// A file or directory could not be read or written.
    Io(String),
    /// A `${{ }}` expression could not be evaluated.
    Expression(String),
    /// A step could not be run.
    StepExecution(String),
    /// The cache refused an operation.
    Cache(String),
    /// The container daemon refused an operation.
    Docker(String),
    /// A message of the service was malformed.
    Protocol(String),
    /// The service could not be reached or refused the request.
    Network(String),
    /// No or bad credentials.
    Auth(String),
    /// An action could not be located.
    ActionResolution(String),
    /// A script could not be run to its end.
    ScriptHandler(String),
    /// The Node.js runtime is missing or could not be installed.
    NodeRuntime(String),
    /// A reusable workflow call is invalid.
    ReusableWorkflow(String),
}

/// A failure with its message as text.
pub enum RunnerErrorView {
    Config(Seq<char>),
    Io(Seq<char>),
    Expression(Seq<char>),
    StepExecution(Seq<char>),
    Cache(Seq<char>),
    Docker(Seq<char>),
    Protocol(Seq<char>),
    Network(Seq<char>),
    Auth(Seq<char>),
    ActionResolution(Seq<char>),
    ScriptHandler(Seq<char>),
    NodeRuntime(Seq<char>),
    ReusableWorkflow(Seq<char>),
}

impl View for RunnerError {
    type V = RunnerErrorView;

    open spec fn view(&self) -> RunnerErrorView {
        match self {
            RunnerError::Config(s) => RunnerErrorView::Config(s@),
            RunnerError::Io(s) => RunnerErrorView::Io(s@),
            RunnerError::Expression(s) => RunnerErrorView::Expression(s@),
            RunnerError::StepExecution(s) => RunnerErrorView::StepExecution(s@),
            RunnerError::Cache(s) => RunnerErrorView::Cache(s@),
            RunnerError::Docker(s) => RunnerErrorView::Docker(s@),
            RunnerError::Protocol(s) => RunnerErrorView::Protocol(s@),
            RunnerError::Network(s) => RunnerErrorView::Network(s@),
            RunnerError::Auth(s) => RunnerErrorView::Auth(s@),
            RunnerError::ActionResolution(s) => RunnerErrorView::ActionResolution(s@),
            RunnerError::ScriptHandler(s) => RunnerErrorView::ScriptHandler(s@),
            RunnerError::NodeRuntime(s) => RunnerErrorView::NodeRuntime(s@),
            RunnerError::ReusableWorkflow(s) => RunnerErrorView::ReusableWorkflow(s@),
        }
    }
}

impl RunnerError {
    /// The message without its class.
    pub fn message(&self) -> (r: &str)
        ensures
            r@ == message_of(self@),
    {
        match self {
            RunnerError::Config(s) => s.as_str(),
            RunnerError::Io(s) => s.as_str(),
            RunnerError::Expression(s) => s.as_str(),
            RunnerError::StepExecution(s) => s.as_str(),
            RunnerError::Cache(s) => s.as_str(),
            RunnerError::Docker(s) => s.as_str(),
            RunnerError::Protocol(s) => s.as_str(),
            RunnerError::Network(s) => s.as_str(),
            RunnerError::Auth(s) => s.as_str(),
            RunnerError::ActionResolution(s) => s.as_str(),
            RunnerError::ScriptHandler(s) => s.as_str(),
            RunnerError::NodeRuntime(s) => s.as_str(),
            RunnerError::ReusableWorkflow(s) => s.as_str(),
        }
    }
}

/// The message of a failure.
pub open spec fn message_of(e: RunnerErrorView) -> Seq<char> {
    match e {
        RunnerErrorView::Config(s) => s,
        RunnerErrorView::Io(s) => s,
        RunnerErrorView::Expression(s) => s,
        RunnerErrorView::StepExecution(s) => s,
        RunnerErrorView::Cache(s) => s,
        RunnerErrorView::Docker(s) => s,
        RunnerErrorView::Protocol(s) => s,
        RunnerErrorView::Network(s) => s,
        RunnerErrorView::Auth(s) => s,
        RunnerErrorView::ActionResolution(s) => s,
        RunnerErrorView::ScriptHandler(s) => s,
        RunnerErrorView::NodeRuntime(s) => s,
        RunnerErrorView::ReusableWorkflow(s) => s,
    }
}

/// A text result, success or failure, with its text.
pub open spec fn text_result(r: Result<String, RunnerError>) -> Result<Seq<char>, RunnerErrorView> {
    match r {
        Ok(s) => Ok(s@),
        Err(e) => Err(e@),
    }
}

/// A failure keeps its class and its message: the view has the class of the
/// failure, and the message is what the failure was made with.
pub proof fn law_failure_keeps_class_and_message(s: String, r: &str, e: RunnerError)
    requires
        call_ensures(RunnerError::message, (&e,), r),
        e == RunnerError::Config(s) || e == RunnerError::Io(s) || e == RunnerError::Expression(s)
            || e == RunnerError::StepExecution(s) || e == RunnerError::Cache(s) || e
            == RunnerError::Docker(s) || e == RunnerError::Protocol(s) || e == RunnerError::Network(
            s,
        ) || e == RunnerError::Auth(s) || e == RunnerError::ActionResolution(s) || e
            == RunnerError::ScriptHandler(s) || e == RunnerError::NodeRuntime(s) || e
            == RunnerError::ReusableWorkflow(s),
    ensures
        r@ == s@,
        message_of(e@) == s@,
        e is Config <==> e@ is Config,
        e is Io <==> e@ is Io,
        e is Expression <==> e@ is Expression,
        e is StepExecution <==> e@ is StepExecution,
        e is Cache <==> e@ is Cache,
        e is Docker <==> e@ is Docker,
        e is Protocol <==> e@ is Protocol,
        e is Network <==> e@ is Network,
        e is Auth <==> e@ is Auth,
        e is ActionResolution <==> e@ is ActionResolution,
        e is ScriptHandler <==> e@ is ScriptHandler,
        e is NodeRuntime <==> e@ is NodeRuntime,
        e is ReusableWorkflow <==> e@ is ReusableWorkflow,
{
}

} // verus!
