//! The result of running a script on this machine.

use vstd::prelude::*;

use crate::error::{RunnerError, RunnerErrorView};
use crate::outside::utf8;
use crate::text;

verus! {

/// Result of running a script.
#[derive(Debug)]
pub struct ScriptOutput {
    pub exit_code: i64,
    pub stdout: String,
    pub stderr: String,
}

/// Runs steps as local processes.
#[derive(Debug)]
pub struct DirectHost {
    /// The job's cgroup directory; none when steps are not constrained.
    pub cgroup_path: Option<String>,
}

impl Default for DirectHost {
    fn default() -> (r: DirectHost)
        ensures
            r.cgroup_path is None,
    {
        DirectHost { cgroup_path: None }
    }
}

/// What a script's process left behind: its exit code, if it exited by
/// itself, and what it wrote; or why waiting for it failed.
pub enum ScriptEnd {
    Ended { code: Option<i32>, stdout: Vec<u8>, stderr: Vec<u8> },
    WaitFailed(String),
}

impl DirectHost {
    /// The result of a script. A process that was ended by a signal has no
    /// exit code and counts as -1; output that is no text is repaired.
    pub fn run_script(&self, shell: &str, end: ScriptEnd) -> (r: Result<ScriptOutput, RunnerError>)
        ensures
            match end {
                ScriptEnd::Ended { code, stdout, stderr } => r matches Ok(out) && out.exit_code
                    == match code {
                    Some(c) => c as int,
                    None => -1,
                } && out.stdout@ == utf8::utf8_lossy(stdout@) && out.stderr@ == utf8::utf8_lossy(
                    stderr@,
                ),
                ScriptEnd::WaitFailed(cause) => r matches Err(e) && e@
                    == RunnerErrorView::ScriptHandler("wait "@ + shell@ + ": "@ + cause@),
            },
    {
        match end {
            ScriptEnd::Ended { code, stdout, stderr } => {
                let exit_code: i64 = match code {
                    Some(c) => c as i64,
                    None => -1,
                };
                Ok(
                    ScriptOutput {
                        exit_code,
                        stdout: utf8::decode_lossy(stdout.as_slice()),
                        stderr: utf8::decode_lossy(stderr.as_slice()),
                    },
                )
            },
            ScriptEnd::WaitFailed(cause) => Err(
                RunnerError::ScriptHandler(text::cat4("wait ", shell, ": ", cause.as_str())),
            ),
        }
    }
}

/// A script that ended has a result whatever its exit code, which is kept; one
/// ended by a signal counts as -1. Only a wait that failed is a failure.
pub proof fn law_ended_script_has_a_result(
    host: DirectHost,
    shell: &str,
    end: ScriptEnd,
    r: Result<ScriptOutput, RunnerError>,
)
    requires
        call_ensures(DirectHost::run_script, (&host, shell, end), r),
    ensures
        r is Ok <==> end is Ended,
        end matches ScriptEnd::Ended { code, stdout, stderr } ==> (r matches Ok(out) && (
        code matches Some(c) ==> out.exit_code == c) && (code is None ==> out.exit_code == -1)
            && out.stdout@ == utf8::utf8_lossy(stdout@) && out.stderr@ == utf8::utf8_lossy(stderr@)),
        end matches ScriptEnd::WaitFailed(cause) ==> (r matches Err(e) && e@
            == RunnerErrorView::ScriptHandler("wait "@ + shell@ + ": "@ + cause@)),
{
}

} // verus!
