//! What the Docker daemon is asked for, and what its answers mean.

use vstd::prelude::*;

use crate::error::{RunnerError, RunnerErrorView};
use crate::text;

verus! {

/// Credentials for a private registry.
#[derive(Debug, Clone)]
pub struct RegistryAuth {
    pub username: String,
    pub password: String,
    pub server_address: Option<String>,
}

/// What is known of an image.
#[derive(Debug)]
pub struct ImageInfo {
    pub repo_tags: Vec<String>,
}

/// What a container is made of.
#[derive(Debug)]
pub struct CreateParams<'a> {
    pub image: &'a str,
    pub name: Option<&'a str>,
    pub cmd: Vec<&'a str>,
    pub env: &'a [String],
    pub binds: &'a [String],
    pub network: Option<&'a str>,
}

/// The request for making a container.
#[derive(Debug)]
pub struct ContainerRequest {
    pub name: Option<String>,
    pub image: String,
    pub cmd: Vec<String>,
    pub env: Vec<String>,
    pub binds: Vec<String>,
    pub network_mode: Option<String>,
    pub working_dir: String,
}

/// What the daemon can be asked to do.
#[derive(Debug, Clone, Copy, PartialEq, Eq, Structural)]
pub enum DockerOp {
    Connect,
    PullImage,
    InspectImage,
    CreateContainer,
    StartContainer,
    WaitContainer,
    RemoveContainer,
    KillContainer,
}

/// How an operation is named in its failure.
pub open spec fn op_name(op: DockerOp) -> Seq<char> {
    match op {
        DockerOp::Connect => "connect docker daemon"@,
        DockerOp::PullImage => "pull image"@,
        DockerOp::InspectImage => "inspect image"@,
        DockerOp::CreateContainer => "create container"@,
        DockerOp::StartContainer => "start container"@,
        DockerOp::WaitContainer => "wait container"@,
        DockerOp::RemoveContainer => "remove container"@,
        DockerOp::KillContainer => "kill container"@,
    }
}

/// The failure of an operation.
pub open spec fn docker_failure(op: DockerOp, cause: Seq<char>) -> RunnerErrorView {
    RunnerErrorView::Docker(op_name(op) + ": "@ + cause)
}

/// The failure of an operation.
pub fn docker_error(op: DockerOp, cause: &str) -> (r: RunnerError)
    ensures
        r@ == docker_failure(op, cause@),
{
    let name: &str = match op {
        DockerOp::Connect => "connect docker daemon",
        DockerOp::PullImage => "pull image",
        DockerOp::InspectImage => "inspect image",
        DockerOp::CreateContainer => "create container",
        DockerOp::StartContainer => "start container",
        DockerOp::WaitContainer => "wait container",
        DockerOp::RemoveContainer => "remove container",
        DockerOp::KillContainer => "kill container",
    };
    RunnerError::Docker(text::cat3(name, ": ", cause))
}

/// The outcome of an operation that only succeeds or fails.
pub fn done(op: DockerOp, result: Result<(), String>) -> (r: Result<(), RunnerError>)
    ensures
        match result {
            Ok(_) => r is Ok,
            Err(cause) => r matches Err(e) && e@ == docker_failure(op, cause@),
        },
{
    match result {
        Ok(_) => Ok(()),
        Err(cause) => Err(docker_error(op, cause.as_str())),
    }
}

/// What an image is known by; none when the daemon lists no tags.
pub fn inspect_image(result: Result<Option<Vec<String>>, String>) -> (r: Result<
    ImageInfo,
    RunnerError,
>)
    ensures
        match result {
            Ok(Some(tags)) => r matches Ok(info) && info.repo_tags == tags,
            Ok(None) => r matches Ok(info) && info.repo_tags@.len() == 0,
            Err(cause) => r matches Err(e) && e@ == docker_failure(
                DockerOp::InspectImage,
                cause@,
            ),
        },
{
    match result {
        Ok(Some(repo_tags)) => Ok(ImageInfo { repo_tags }),
        Ok(None) => Ok(ImageInfo { repo_tags: Vec::new() }),
        Err(cause) => Err(docker_error(DockerOp::InspectImage, cause.as_str())),
    }
}

/// The exit code of a container: that of the first answer to the wait, or -1
/// when there is none.
pub fn wait_container(first: Option<Result<i64, String>>) -> (r: Result<i64, RunnerError>)
    ensures
        match first {
            Some(Ok(code)) => r == Ok::<i64, RunnerError>(code),
            Some(Err(cause)) => r matches Err(e) && e@ == docker_failure(
                DockerOp::WaitContainer,
                cause@,
            ),
            None => r matches Ok(code) && code == -1,
        },
{
    match first {
        Some(Ok(code)) => Ok(code),
        Some(Err(cause)) => Err(docker_error(DockerOp::WaitContainer, cause.as_str())),
        None => Ok(-1),
    }
}

/// The outcome of pulling an image, from the daemon's progress reports: the
/// first failure counts.
pub fn pull_image(reports: &Vec<Result<(), String>>) -> (r: Result<(), RunnerError>)
    ensures
        match r {
            Ok(_) => forall|i: int| 0 <= i < reports@.len() ==> (#[trigger] reports@[i]) is Ok,
            Err(e) => exists|i: int|
                0 <= i < reports@.len() && (forall|k: int|
                    0 <= k < i ==> (#[trigger] reports@[k]) is Ok) && failed_with(
                    #[trigger] reports@[i],
                    DockerOp::PullImage,
                    e@,
                ),
        },
{
    let mut i: usize = 0;
    while i < reports.len()
        invariant
            i <= reports@.len(),
            forall|k: int| 0 <= k < i ==> (#[trigger] reports@[k]) is Ok,
        decreases reports@.len() - i,
    {
        match &reports[i] {
            Ok(_) => {},
            Err(cause) => {
                let e = docker_error(DockerOp::PullImage, cause.as_str());
                assert(failed_with(reports@[i as int], DockerOp::PullImage, e@));
                return Err(e);
            },
        }
        i = i + 1;
    }
    Ok(())
}

/// Whether a report is the failure of an operation.
pub open spec fn failed_with(report: Result<(), String>, op: DockerOp, e: RunnerErrorView) -> bool {
    report matches Err(cause) && e == docker_failure(op, cause@)
}

/// The texts of a list of borrowed texts.
pub open spec fn borrowed_texts(v: Seq<&str>) -> Seq<Seq<char>> {
    v.map_values(|s: &str| s@)
}

fn owned_all(v: &Vec<&str>) -> (r: Vec<String>)
    ensures
        text::texts(r@) == borrowed_texts(v@),
{
    let ghost all = borrowed_texts(v@);
    let mut out: Vec<String> = Vec::new();
    let mut i: usize = 0;
    assert(text::texts(out@) =~= all.take(0));
    while i < v.len()
        invariant
            i <= v@.len(),
            all == borrowed_texts(v@),
            text::texts(out@) == all.take(i as int),
        decreases v@.len() - i,
    {
        let ghost before = text::texts(out@);
        let s: String = v[i].to_owned();
        out.push(s);
        assert(text::texts(out@) =~= before.push(s@));
        assert(all.take(i + 1) =~= all.take(i as int).push(all[i as int]));
        i = i + 1;
    }
    assert(all.take(all.len() as int) =~= all);
    out
}

fn copy_all(v: &[String]) -> (r: Vec<String>)
    ensures
        text::texts(r@) == text::texts(v@),
{
    let ghost all = text::texts(v@);
    let mut out: Vec<String> = Vec::new();
    let mut i: usize = 0;
    assert(text::texts(out@) =~= all.take(0));
    while i < v.len()
        invariant
            i <= v@.len(),
            all == text::texts(v@),
            text::texts(out@) == all.take(i as int),
        decreases v@.len() - i,
    {
        let ghost before = text::texts(out@);
        let s: String = v[i].clone();
        out.push(s);
        assert(text::texts(out@) =~= before.push(s@));
        assert(all.take(i + 1) =~= all.take(i as int).push(all[i as int]));
        i = i + 1;
    }
    assert(all.take(all.len() as int) =~= all);
    out
}

fn owned(o: Option<&str>) -> (r: Option<String>)
    ensures
        text::text_opt(r) == text::str_opt(o),
{
    match o {
        Some(s) => Some(s.to_owned()),
        None => None,
    }
}

/// The request for making a container. It works in `/github/workspace`.
pub fn create_container(params: &CreateParams<'_>) -> (r: ContainerRequest)
    ensures
        text::text_opt(r.name) == text::str_opt(params.name),
        r.image@ == params.image@,
        text::texts(r.cmd@) == borrowed_texts(params.cmd@),
        text::texts(r.env@) == text::texts(params.env@),
        text::texts(r.binds@) == text::texts(params.binds@),
        text::text_opt(r.network_mode) == text::str_opt(params.network),
        r.working_dir@ == "/github/workspace"@,
{
    ContainerRequest {
        name: owned(params.name),
        image: params.image.to_owned(),
        cmd: owned_all(&params.cmd),
        env: copy_all(params.env),
        binds: copy_all(params.binds),
        network_mode: owned(params.network),
        working_dir: "/github/workspace".to_owned(),
    }
}

/// The failure of an operation names the operation and the cause.
pub proof fn law_failure_names_the_operation(op: DockerOp, cause: &str, r: RunnerError)
    requires
        call_ensures(docker_error, (op, cause), r),
    ensures
        r@ == RunnerErrorView::Docker(
            (match op {
                DockerOp::Connect => "connect docker daemon"@,
                DockerOp::PullImage => "pull image"@,
                DockerOp::InspectImage => "inspect image"@,
                DockerOp::CreateContainer => "create container"@,
                DockerOp::StartContainer => "start container"@,
                DockerOp::WaitContainer => "wait container"@,
                DockerOp::RemoveContainer => "remove container"@,
                DockerOp::KillContainer => "kill container"@,
            }) + ": "@ + cause@,
        ),
{
}

/// An operation fails exactly when the daemon says so. The tags of an image
/// are those the daemon lists, none when it lists none; a container exits
/// with the code of the first answer, and with -1 without an answer.
pub proof fn law_daemon_answers(
    op: DockerOp,
    result: Result<(), String>,
    tags: Result<Option<Vec<String>>, String>,
    first: Option<Result<i64, String>>,
    ended: Result<(), RunnerError>,
    image: Result<ImageInfo, RunnerError>,
    code: Result<i64, RunnerError>,
)
    requires
        call_ensures(done, (op, result), ended),
        call_ensures(inspect_image, (tags,), image),
        call_ensures(wait_container, (first,), code),
    ensures
        ended is Ok <==> result is Ok,
        image is Ok <==> tags is Ok,
        tags matches Ok(Some(t)) ==> (image matches Ok(i) && i.repo_tags@ == t@),
        tags matches Ok(None) ==> (image matches Ok(i) && i.repo_tags@.len() == 0),
        code is Err <==> first matches Some(Err(_)),
        first matches Some(Ok(c)) ==> code == Ok::<i64, RunnerError>(c),
        first is None ==> (code matches Ok(c) && c == -1),
{
}

/// An image was pulled exactly when no report is a failure; otherwise the
/// first failure is the one that counts.
pub proof fn law_first_failed_report_counts(
    reports: Vec<Result<(), String>>,
    r: Result<(), RunnerError>,
    i: int,
)
    requires
        call_ensures(pull_image, (&reports,), r),
        0 <= i < reports@.len(),
        reports@[i] is Err,
        forall|k: int| 0 <= k < i ==> (#[trigger] reports@[k]) is Ok,
    ensures
        r matches Err(e) && e@ == RunnerErrorView::Docker(
            "pull image"@ + ": "@ + (reports@[i]->Err_0)@,
        ),
{
    match r {
        Ok(_) => {
            assert(reports@[i] is Ok);
        },
        Err(e) => {
            let j = choose|j: int|
                0 <= j < reports@.len() && (forall|k: int|
                    0 <= k < j ==> (#[trigger] reports@[k]) is Ok) && failed_with(
                    #[trigger] reports@[j],
                    DockerOp::PullImage,
                    e@,
                );
            if j < i {
                assert(reports@[j] is Ok);
            }
            if i < j {
                assert(reports@[i] is Ok);
            }
        },
    }
}

/// A container is made of what was asked for: its image, its command and
/// environment in order, its mounts and its network; it works in the
/// workspace.
pub proof fn law_container_is_as_asked(params: CreateParams<'_>, r: ContainerRequest)
    requires
        call_ensures(create_container, (&params,), r),
    ensures
        r.image@ == params.image@,
        r.name is Some <==> params.name is Some,
        params.name matches Some(n) ==> r.name->0@ == n@,
        r.cmd@.len() == params.cmd@.len(),
        forall|i: int| 0 <= i < params.cmd@.len() ==> (#[trigger] r.cmd@[i])@ == params.cmd@[i]@,
        r.env@.len() == params.env@.len(),
        forall|i: int| 0 <= i < params.env@.len() ==> (#[trigger] r.env@[i])@ == params.env@[i]@,
        r.binds@.len() == params.binds@.len(),
        forall|i: int|
            0 <= i < params.binds@.len() ==> (#[trigger] r.binds@[i])@ == params.binds@[i]@,
        r.network_mode is Some <==> params.network is Some,
        params.network matches Some(n) ==> r.network_mode->0@ == n@,
        r.working_dir@ == "/github/workspace"@,
{
    text::law_texts_are_those_of_the_strings(r.cmd@, None);
    text::law_texts_are_those_of_the_strings(r.env@, None);
    text::law_texts_are_those_of_the_strings(r.binds@, None);
    text::law_texts_are_those_of_the_strings(params.env@, None);
    text::law_texts_are_those_of_the_strings(params.binds@, None);
    assert(borrowed_texts(params.cmd@).len() == params.cmd@.len());
    assert forall|i: int| 0 <= i < params.cmd@.len() implies (#[trigger] r.cmd@[i])@
        == params.cmd@[i]@ by {
        assert(text::texts(r.cmd@)[i] == borrowed_texts(params.cmd@)[i]);
    }
    assert forall|i: int| 0 <= i < params.env@.len() implies (#[trigger] r.env@[i])@
        == params.env@[i]@ by {
        assert(text::texts(r.env@)[i] == text::texts(params.env@)[i]);
    }
    assert forall|i: int| 0 <= i < params.binds@.len() implies (#[trigger] r.binds@[i])@
        == params.binds@[i]@ by {
        assert(text::texts(r.binds@)[i] == text::texts(params.binds@)[i]);
    }
}

} // verus!
