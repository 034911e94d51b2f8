//! Defaults of the command line's arguments.

use vstd::prelude::*;

use crate::outside::machine;
use crate::path;
use crate::text;

verus! {

/// A runner's name: the one asked for, else the machine's, else a fixed one.
pub open spec fn runner_name(name: Option<String>, hostname: Option<String>) -> Seq<char> {
    match name {
        Some(n) => n@,
        None => match hostname {
            Some(h) => h@,
            None => "toolu-runner"@,
        },
    }
}

/// A runner's name, given the machine's.
pub fn runner_name_or(name: Option<String>, hostname: Option<String>) -> (r: String)
    ensures
        r@ == runner_name(name, hostname),
{
    match name {
        Some(n) => n,
        None => match hostname {
            Some(h) => h,
            None => "toolu-runner".to_owned(),
        },
    }
}

/// A runner's name from the `--name` argument, defaulting to this machine's
/// name.
pub fn runner_name_or_hostname(name: Option<String>) -> (r: String)
    ensures
        exists|hostname: Option<String>| r@ == #[trigger] runner_name(name, hostname),
{
    let hostname = machine::hostname();
    let r = runner_name_or(name, hostname);
    assert(r@ == runner_name(name, hostname));
    r
}

/// The default labels on an operating system and architecture.
pub fn default_labels(os: &str, arch: &str) -> (r: Vec<String>)
    ensures
        text::texts(r@) == seq!["self-hosted"@, os@, arch@],
{
    let mut labels: Vec<String> = Vec::new();
    labels.push("self-hosted".to_owned());
    labels.push(os.to_owned());
    labels.push(arch.to_owned());
    assert(text::texts(labels@) =~= seq!["self-hosted"@, os@, arch@]);
    labels
}

/// Where the credentials of a configuration file are kept: beside it.
pub open spec fn credentials_path(config_path: Seq<char>) -> Seq<char> {
    match path::parent(config_path) {
        Some(dir) => path::joined(dir, "credentials.json"@),
        None => "credentials.json"@,
    }
}

/// Where the credentials of a configuration file are kept, so that both
/// files move together.
pub fn credentials_path_for(config_path: &str) -> (r: String)
    ensures
        r@ == credentials_path(config_path@),
{
    match path::parent_of(config_path) {
        Some(dir) => path::join(dir, "credentials.json"),
        None => "credentials.json".to_owned(),
    }
}

/// The work folder from the `--work` argument.
pub fn work_folder_or_default(work: Option<&str>) -> (r: String)
    ensures
        r@ == match work {
            Some(dir) => dir@,
            None => "~/.toolu-runner/_work"@,
        },
{
    match work {
        Some(dir) => dir.to_owned(),
        None => "~/.toolu-runner/_work".to_owned(),
    }
}

/// A name asked for wins over the machine's, and the machine's over the fixed
/// one.
pub proof fn law_asked_name_wins(name: Option<String>, hostname: Option<String>, r: String)
    requires
        call_ensures(runner_name_or, (name, hostname), r),
    ensures
        name matches Some(n) ==> r@ == n@,
        name is None ==> (hostname matches Some(h) ==> r@ == h@),
        name is None && hostname is None ==> r@ == "toolu-runner"@,
        runner_name(name, hostname) == r@,
{
}

/// A name asked for is used on every machine.
pub proof fn law_asked_name_is_used(name: String, r: String)
    requires
        call_ensures(runner_name_or_hostname, (Some(name),), r),
    ensures
        r@ == name@,
{
}

/// The default labels are `self-hosted`, the operating system and the
/// architecture, in this order.
pub proof fn law_default_labels(os: &str, arch: &str, r: Vec<String>)
    requires
        call_ensures(default_labels, (os, arch), r),
    ensures
        r@.len() == 3,
        r@[0]@ == "self-hosted"@,
        r@[1]@ == os@,
        r@[2]@ == arch@,
{
    let t = text::texts(r@);
    assert(t.len() == r@.len());
    assert(t[0] == r@[0]@ && t[1] == r@[1]@ && t[2] == r@[2]@);
}

/// The credentials lie in the directory of the configuration file.
pub proof fn law_credentials_lie_beside(config_path: &str, r: String)
    requires
        call_ensures(credentials_path_for, (config_path,), r),
    ensures
        path::parent(config_path@) matches Some(dir) ==> r@ == path::joined(
            dir,
            "credentials.json"@,
        ),
        path::parent(config_path@) is None ==> r@ == "credentials.json"@,
        credentials_path(config_path@) == r@,
{
}

/// A work folder asked for is used as it is.
pub proof fn law_asked_work_folder_is_used(work: Option<&str>, r: String)
    requires
        call_ensures(work_folder_or_default, (work,), r),
    ensures
        work matches Some(dir) ==> r@ == dir@,
        work is None ==> r@ == "~/.toolu-runner/_work"@,
{
}

} // verus!
