//! Moving a step's process into the job's cgroup.

use vstd::prelude::*;

use crate::number;
use crate::path;

verus! {

/// What to do with a step's process once it runs. Joining is best-effort: a
/// failure never ends the step.
#[derive(Debug)]
pub enum JoinPlan {
    /// There is no cgroup.
    Unconstrained,
    /// The process has no id and cannot be moved.
    NoPid,
    /// Write the text to the file.
    Write { file: String, text: String },
}

/// What to do with a process, given its id and the job's cgroup directory.
pub fn join_cgroup(cgroup_path: Option<&str>, pid: Option<u32>) -> (r: JoinPlan)
    ensures
        match r {
            JoinPlan::Unconstrained => cgroup_path is None,
            JoinPlan::NoPid => cgroup_path is Some && pid is None,
            JoinPlan::Write { file, text } => {
                &&& cgroup_path matches Some(dir) && file@ == path::joined(dir@, "cgroup.procs"@)
                &&& pid matches Some(id) && text@ == number::decimal(id as nat)
            },
        },
{
    match cgroup_path {
        None => JoinPlan::Unconstrained,
        Some(dir) => match pid {
            None => JoinPlan::NoPid,
            Some(id) => JoinPlan::Write {
                file: path::join(dir, "cgroup.procs"),
                text: number::show_u64(id as u64),
            },
        },
    }
}

/// A process is moved exactly when there is a cgroup and the process has an
/// id; its id is then written to the cgroup's list.
pub proof fn law_process_with_id_is_moved(cgroup_path: Option<&str>, pid: Option<u32>, r: JoinPlan)
    requires
        call_ensures(join_cgroup, (cgroup_path, pid), r),
    ensures
        r is Unconstrained <==> cgroup_path is None,
        r is NoPid <==> cgroup_path is Some && pid is None,
        r is Write <==> cgroup_path is Some && pid is Some,
        r matches JoinPlan::Write { file, text } ==> file@ == path::joined(
            cgroup_path->0@,
            "cgroup.procs"@,
        ) && text@ == number::decimal(pid->0 as nat),
{
}

} // verus!
