//! Installing the runner as a supervised service.
//!
//! The caller runs the commands and writes the unit file; the functions here
//! say which, where, and how failures are reported.

use vstd::prelude::*;

use crate::error::{RunnerError, RunnerErrorView};
use crate::number;
use crate::outside::debug;
use crate::path;
use crate::text;
use crate::types;
use crate::types::{CommandLine, CommandView};

verus! {

/// The supervisor that a unit is for.
#[derive(Debug, Clone, Copy, PartialEq, Eq, Structural)]
pub enum Supervisor {
    /// macOS launchd, as a user agent.
    Launchd,
    /// Linux systemd, as a user unit.
    Systemd,
}

/// A registration's name with the supervisor.
#[derive(Debug)]
pub struct ServiceId {
    /// launchd label; systemd description suffix.
    pub label: String,
    /// systemd unit file name.
    pub unit: String,
}

/// What a unit file is made from.
#[derive(Debug)]
pub struct ServiceSpec {
    pub label: String,
    /// The running program.
    pub exe: String,
    /// The configuration file, as an absolute path.
    pub config_path: String,
    /// Where the service logs to.
    pub diag_dir: String,
}

/// What the unit of a registration is made from. `exe` is the path of the
/// running program and `absolute` that of the configuration file, or why
/// they are not known.
pub fn render_unit(
    id: &ServiceId,
    data_dir: &str,
    exe: Result<String, String>,
    config_path: &str,
    absolute: Result<String, String>,
) -> (r: Result<ServiceSpec, RunnerError>)
    ensures
        match (exe, absolute) {
            (Err(cause), _) => r matches Err(e) && e@ == RunnerErrorView::Config(
                "cannot resolve the running binary's path: "@ + cause@,
            ),
            (Ok(_), Err(cause)) => r matches Err(e) && e@ == RunnerErrorView::Config(
                "cannot resolve config path "@ + config_path@ + ": "@ + cause@,
            ),
            (Ok(program), Ok(file)) => r matches Ok(spec) && spec.label@ == id.label@ && spec.exe
                == program && spec.config_path == file && spec.diag_dir@ == path::joined(
                data_dir@,
                "_diag"@,
            ),
        },
{
    match exe {
        Err(cause) => Err(
            RunnerError::Config(
                text::cat2("cannot resolve the running binary's path: ", cause.as_str()),
            ),
        ),
        Ok(program) => match absolute {
            Err(cause) => Err(
                RunnerError::Config(
                    text::cat4(
                        "cannot resolve config path ",
                        config_path,
                        ": ",
                        cause.as_str(),
                    ),
                ),
            ),
            Ok(file) => Ok(
                ServiceSpec {
                    label: id.label.clone(),
                    exe: program,
                    config_path: file,
                    diag_dir: path::join(data_dir, "_diag"),
                },
            ),
        },
    }
}

/// The supervisor of an operating system: launchd on macOS, systemd on
/// Linux, none elsewhere.
pub fn current_supervisor(os: &str) -> (r: Result<Supervisor, RunnerError>)
    ensures
        match r {
            Ok(Supervisor::Launchd) => os@ == "macos"@,
            Ok(Supervisor::Systemd) => os@ == "linux"@ && os@ != "macos"@,
            Err(e) => os@ != "macos"@ && os@ != "linux"@ && e@ == RunnerErrorView::Config(
                "install-service supports only launchd (macOS) and systemd (Linux)"@,
            ),
        },
{
    if text::same(os, "macos") {
        Ok(Supervisor::Launchd)
    } else if text::same(os, "linux") {
        Ok(Supervisor::Systemd)
    } else {
        Err(
            RunnerError::Config(
                "install-service supports only launchd (macOS) and systemd (Linux)".to_owned(),
            ),
        )
    }
}

/// The owner and repository that a configuration file is for, when it is
/// kept as `.../runners/<owner>/<repo>/<file>`.
pub open spec fn path_owner_repo(config_path: Seq<char>) -> Option<(Seq<char>, Seq<char>)> {
    match path::parent(config_path) {
        None => None,
        Some(repo_dir) => match path::parent(repo_dir) {
            None => None,
            Some(owner_dir) => match path::parent(owner_dir) {
                None => None,
                Some(root) => if path::file_name(root) != Some("runners"@) {
                    None
                } else {
                    match (path::file_name(owner_dir), path::file_name(repo_dir)) {
                        (Some(owner), Some(repo)) => Some((owner, repo)),
                        _ => None,
                    }
                },
            },
        },
    }
}

/// The owner and repository that a configuration file is for.
pub fn owner_repo(config_path: &str) -> (r: Option<(String, String)>)
    ensures
        crate::register_cmd::pair_opt(r) == path_owner_repo(config_path@),
{
    let repo_dir = match path::parent_of(config_path) {
        None => {
            return None;
        },
        Some(d) => d,
    };
    let owner_dir = match path::parent_of(repo_dir) {
        None => {
            return None;
        },
        Some(d) => d,
    };
    let root = match path::parent_of(owner_dir) {
        None => {
            return None;
        },
        Some(d) => d,
    };
    match path::file_name_of(root) {
        None => {
            return None;
        },
        Some(name) => {
            if !text::same(name, "runners") {
                return None;
            }
        },
    }
    let owner = match path::file_name_of(owner_dir) {
        None => {
            return None;
        },
        Some(n) => n,
    };
    match path::file_name_of(repo_dir) {
        None => None,
        Some(repo) => Some((owner.to_owned(), repo.to_owned())),
    }
}

/// The label of a configuration file's service.
pub open spec fn service_label(config_path: Seq<char>) -> Seq<char> {
    match path_owner_repo(config_path) {
        Some((owner, repo)) => "io.toolu.runner."@ + owner + "."@ + repo,
        None => "io.toolu.runner"@,
    }
}

/// The unit file name of a repository's service.
pub open spec fn unit_name(owner: Seq<char>, repo: Seq<char>) -> Seq<char> {
    "toolu-runner-"@ + owner + "-"@ + repo + ".service"@
}

/// The unit file name of a configuration file's service.
pub open spec fn service_unit(config_path: Seq<char>) -> Seq<char> {
    match path_owner_repo(config_path) {
        Some((owner, repo)) => unit_name(owner, repo),
        None => "toolu-runner.service"@,
    }
}

/// The name of a configuration file's service with the supervisor.
pub fn service_id(config_path: &str) -> (r: ServiceId)
    ensures
        r.label@ == service_label(config_path@),
        r.unit@ == service_unit(config_path@),
{
    match owner_repo(config_path) {
        Some((owner, repo)) => ServiceId {
            label: text::cat4("io.toolu.runner.", owner.as_str(), ".", repo.as_str()),
            unit: text::cat5("toolu-runner-", owner.as_str(), "-", repo.as_str(), ".service"),
        },
        None => ServiceId {
            label: "io.toolu.runner".to_owned(),
            unit: "toolu-runner.service".to_owned(),
        },
    }
}

/// Where a unit file goes.
pub open spec fn unit_path(
    supervisor: Supervisor,
    label: Seq<char>,
    unit: Seq<char>,
    home: Seq<char>,
) -> Seq<char> {
    match supervisor {
        Supervisor::Launchd => path::joined(
            path::joined(home, "Library/LaunchAgents"@),
            label + ".plist"@,
        ),
        Supervisor::Systemd => path::joined(path::joined(home, ".config/systemd/user"@), unit),
    }
}

/// Where a unit file goes under the user's home directory.
pub fn dest_path(supervisor: Supervisor, id: &ServiceId, home: &str) -> (r: String)
    ensures
        r@ == unit_path(supervisor, id.label@, id.unit@, home@),
{
    match supervisor {
        Supervisor::Launchd => {
            let dir = path::join(home, "Library/LaunchAgents");
            let name = text::cat2(id.label.as_str(), ".plist");
            path::join(dir.as_str(), name.as_str())
        },
        Supervisor::Systemd => {
            let dir = path::join(home, ".config/systemd/user");
            path::join(dir.as_str(), id.unit.as_str())
        },
    }
}

/// What installing does.
#[derive(Debug, Clone, Copy, PartialEq, Eq, Structural)]
pub enum InstallAction {
    /// Nothing on disk: the unit is only printed.
    Print,
    /// Deactivate the unit and delete its file.
    Remove,
    /// Write the unit file.
    Write,
    /// Write the unit file and activate it.
    WriteAndActivate,
}

/// What was written or removed.
#[derive(Debug)]
pub struct InstallOutcome {
    /// The unit file acted on; empty when it is only printed.
    pub path: String,
    pub label: String,
    /// Whether the unit was activated, or a unit file was deleted.
    pub activated: bool,
}

/// What installing does under the given flags.
pub open spec fn install_action(print: bool, no_activate: bool, remove: bool) -> InstallAction {
    if print {
        InstallAction::Print
    } else if remove {
        InstallAction::Remove
    } else if no_activate {
        InstallAction::Write
    } else {
        InstallAction::WriteAndActivate
    }
}

/// Decides what installing does, and the outcome when the action goes
/// through. Only printing works without a home directory. For a removal the
/// outcome is that of a deleted file; see [`remove_service`].
pub fn install_service_core(
    supervisor: Supervisor,
    config_path: &str,
    home: Option<&str>,
    print: bool,
    no_activate: bool,
    remove: bool,
) -> (r: Result<(InstallAction, InstallOutcome), RunnerError>)
    ensures
        match r {
            Ok((action, outcome)) => {
                &&& action == install_action(print, no_activate, remove)
                &&& outcome.label@ == service_label(config_path@)
                &&& outcome.activated == (action == InstallAction::Remove || action
                    == InstallAction::WriteAndActivate)
                &&& if print {
                    outcome.path@ == Seq::<char>::empty()
                } else {
                    home matches Some(h) && outcome.path@ == unit_path(
                        supervisor,
                        service_label(config_path@),
                        service_unit(config_path@),
                        h@,
                    )
                }
            },
            Err(e) => !print && home is None && e@ == RunnerErrorView::Config(
                "HOME is not set — cannot locate the user service directory"@,
            ),
        },
{
    let id = service_id(config_path);
    if print {
        let path = String::new();
        assert(path@ =~= Seq::<char>::empty());
        return Ok((InstallAction::Print, InstallOutcome { path, label: id.label, activated: false }));
    }
    let home: &str = match home {
        Some(h) => h,
        None => {
            return Err(
                RunnerError::Config(
                    "HOME is not set — cannot locate the user service directory".to_owned(),
                ),
            );
        },
    };
    let path = dest_path(supervisor, &id, home);
    if remove {
        return Ok((InstallAction::Remove, InstallOutcome { path, label: id.label, activated: true }));
    }
    if no_activate {
        return Ok((InstallAction::Write, InstallOutcome { path, label: id.label, activated: false }));
    }
    Ok((InstallAction::WriteAndActivate, InstallOutcome { path, label: id.label, activated: true }))
}

/// What deleting a unit file came to.
pub enum Deletion {
    /// There was none to begin with.
    Absent,
    Deleted,
    /// It was gone by the time it was to be deleted.
    Vanished,
    Failed(RunnerError),
}

/// The outcome of a removal: deleting nothing is no failure.
pub fn remove_service(planned: InstallOutcome, deletion: Deletion) -> (r: Result<
    InstallOutcome,
    RunnerError,
>)
    ensures
        match deletion {
            Deletion::Failed(e) => r == Err::<InstallOutcome, RunnerError>(e),
            _ => r matches Ok(outcome) && outcome.path == planned.path && outcome.label
                == planned.label && outcome.activated == (deletion is Deleted),
        },
{
    match deletion {
        Deletion::Failed(e) => Err(e),
        Deletion::Deleted => Ok(
            InstallOutcome { path: planned.path, label: planned.label, activated: true },
        ),
        _ => Ok(InstallOutcome { path: planned.path, label: planned.label, activated: false }),
    }
}

/// Commands to run: the first one ends it when it succeeds; otherwise the
/// others are run in order and each must succeed.
#[derive(Debug)]
pub struct CommandPlan {
    pub preferred: Option<CommandLine>,
    pub required: Vec<CommandLine>,
}

/// The views of a list of commands.
pub open spec fn command_views(commands: Seq<CommandLine>) -> Seq<CommandView> {
    commands.map_values(|c: CommandLine| c@)
}

/// The commands that load a plist: the modern loader, else the older one.
pub fn activate_launchd(uid: &str, plist: &str) -> (r: CommandPlan)
    ensures
        r.preferred matches Some(c) && c@ == (CommandView {
            program: "launchctl"@,
            args: seq!["bootstrap"@, "gui/"@ + uid@, plist@],
        }),
        command_views(r.required@) == seq![
            CommandView { program: "launchctl"@, args: seq!["load"@, "-w"@, plist@] },
        ],
{
    let domain = text::cat2("gui/", uid);
    let preferred = types::command3("launchctl", "bootstrap", domain.as_str(), plist);
    let mut required: Vec<CommandLine> = Vec::new();
    required.push(types::command3("launchctl", "load", "-w", plist));
    assert(command_views(required@) =~= seq![
        CommandView { program: "launchctl"@, args: seq!["load"@, "-w"@, plist@] },
    ]);
    CommandPlan { preferred: Some(preferred), required }
}

/// The commands that enable and start a unit.
pub fn activate_systemd(unit: &str) -> (r: CommandPlan)
    ensures
        r.preferred is None,
        command_views(r.required@) == seq![
            CommandView { program: "systemctl"@, args: seq!["--user"@, "daemon-reload"@] },
            CommandView { program: "systemctl"@, args: seq!["--user"@, "enable"@, "--now"@, unit@] },
        ],
{
    let mut required: Vec<CommandLine> = Vec::new();
    required.push(types::command2("systemctl", "--user", "daemon-reload"));
    required.push(types::command4("systemctl", "--user", "enable", "--now", unit));
    assert(command_views(required@) =~= seq![
        CommandView { program: "systemctl"@, args: seq!["--user"@, "daemon-reload"@] },
        CommandView { program: "systemctl"@, args: seq!["--user"@, "enable"@, "--now"@, unit@] },
    ]);
    CommandPlan { preferred: None, required }
}

/// The commands that unload a plist: the modern way, else the older one.
pub fn deactivate_launchd(uid: &str, plist: &str, label: &str) -> (r: CommandPlan)
    ensures
        r.preferred matches Some(c) && c@ == (CommandView {
            program: "launchctl"@,
            args: seq!["bootout"@, "gui/"@ + uid@ + "/"@ + label@],
        }),
        command_views(r.required@) == seq![
            CommandView { program: "launchctl"@, args: seq!["unload"@, plist@] },
        ],
{
    let target = text::cat4("gui/", uid, "/", label);
    let preferred = types::command2("launchctl", "bootout", target.as_str());
    let mut required: Vec<CommandLine> = Vec::new();
    required.push(types::command2("launchctl", "unload", plist));
    assert(command_views(required@) =~= seq![
        CommandView { program: "launchctl"@, args: seq!["unload"@, plist@] },
    ]);
    CommandPlan { preferred: Some(preferred), required }
}

/// The commands that stop and disable a unit.
pub fn deactivate_systemd(unit: &str) -> (r: CommandPlan)
    ensures
        r.preferred is None,
        command_views(r.required@) == seq![
            CommandView {
                program: "systemctl"@,
                args: seq!["--user"@, "disable"@, "--now"@, unit@],
            },
            CommandView { program: "systemctl"@, args: seq!["--user"@, "daemon-reload"@] },
        ],
{
    let mut required: Vec<CommandLine> = Vec::new();
    required.push(types::command4("systemctl", "--user", "disable", "--now", unit));
    required.push(types::command2("systemctl", "--user", "daemon-reload"));
    assert(command_views(required@) =~= seq![
        CommandView { program: "systemctl"@, args: seq!["--user"@, "disable"@, "--now"@, unit@] },
        CommandView { program: "systemctl"@, args: seq!["--user"@, "daemon-reload"@] },
    ]);
    CommandPlan { preferred: None, required }
}

/// The command that a user runs to activate a unit that was only written.
pub fn activation_hint(supervisor: Supervisor, dest: &str, id: &ServiceId) -> (r: String)
    ensures
        r@ == match supervisor {
            Supervisor::Launchd => "launchctl bootstrap gui/$(id -u) "@ + dest@,
            Supervisor::Systemd => "systemctl --user daemon-reload && systemctl --user enable --now "@
                + id.unit@,
        },
{
    match supervisor {
        Supervisor::Launchd => text::cat2("launchctl bootstrap gui/$(id -u) ", dest),
        Supervisor::Systemd => text::cat2(
            "systemctl --user daemon-reload && systemctl --user enable --now ",
            id.unit.as_str(),
        ),
    }
}

/// The user id in the output of `id -u`: digits, or an error.
pub fn current_uid(output: &str) -> (r: Result<String, RunnerError>)
    ensures
        ({
            let uid = text::trimmed(output@);
            match r {
                Ok(s) => uid.len() > 0 && number::all_digits(uid) && s@ == uid,
                Err(e) => (uid.len() == 0 || !number::all_digits(uid)) && e@
                    == RunnerErrorView::Config(
                    "`id -u` returned a non-numeric uid: "@ + debug::debug_quoted(uid),
                ),
            }
        }),
{
    let uid = text::trim(output);
    let chars = text::chars_of(uid);
    let mut digits: bool = chars.len() > 0;
    let mut i: usize = 0;
    while i < chars.len()
        invariant
            i <= chars@.len(),
            chars@ == uid@,
            digits == (chars@.len() > 0 && forall|k: int|
                0 <= k < i ==> text::is_digit(#[trigger] chars@[k])),
        decreases chars@.len() - i,
    {
        if chars[i] < '0' || '9' < chars[i] {
            digits = false;
        }
        i = i + 1;
    }
    if !digits {
        let shown = debug::quoted(uid);
        return Err(
            RunnerError::Config(
                text::cat2("`id -u` returned a non-numeric uid: ", shown.as_str()),
            ),
        );
    }
    Ok(uid.to_owned())
}

/// What running a command came to.
pub enum CommandResult {
    /// It could not be started.
    NotRun(String),
    /// It ended: whether with success, how its status displays, and what it
    /// wrote.
    Ended { success: bool, status: String, stdout: String, stderr: String },
}

/// The failure of a command that could not be started.
pub open spec fn not_run(command: CommandView, cause: Seq<char>) -> RunnerErrorView {
    RunnerErrorView::Config("failed to run `"@ + types::command_line(command) + "`: "@ + cause)
}

/// The failure of a command that ended without success.
pub open spec fn failed_command(
    command: CommandView,
    status: Seq<char>,
    stderr: Seq<char>,
) -> RunnerErrorView {
    RunnerErrorView::Config(
        "`"@ + types::command_line(command) + "` failed ("@ + status + "): "@ + text::trimmed(stderr),
    )
}

/// Takes a command that must succeed; its trimmed output.
pub fn run_stdout(command: &CommandLine, result: CommandResult) -> (r: Result<String, RunnerError>)
    ensures
        match result {
            CommandResult::NotRun(cause) => r matches Err(e) && e@ == not_run(command@, cause@),
            CommandResult::Ended { success, status, stdout, stderr } => if success {
                r matches Ok(out) && out@ == text::trimmed(stdout@)
            } else {
                r matches Err(e) && e@ == failed_command(command@, status@, stderr@)
            },
        },
{
    match result {
        CommandResult::NotRun(cause) => {
            let line = command.line();
            Err(
                RunnerError::Config(
                    text::cat4("failed to run `", line.as_str(), "`: ", cause.as_str()),
                ),
            )
        },
        CommandResult::Ended { success, status, stdout, stderr } => {
            if success {
                return Ok(text::trim(stdout.as_str()).to_owned());
            }
            let line = command.line();
            let mut msg = text::cat4("`", line.as_str(), "` failed (", status.as_str());
            msg.append("): ");
            msg.append(text::trim(stderr.as_str()));
            Err(RunnerError::Config(msg))
        },
    }
}

/// Takes a command that must succeed.
pub fn run_checked(command: &CommandLine, result: CommandResult) -> (r: Result<(), RunnerError>)
    ensures
        match result {
            CommandResult::NotRun(cause) => r matches Err(e) && e@ == not_run(command@, cause@),
            CommandResult::Ended { success, status, stdout, stderr } => if success {
                r is Ok
            } else {
                r matches Err(e) && e@ == failed_command(command@, status@, stderr@)
            },
        },
{
    match run_stdout(command, result) {
        Ok(_) => Ok(()),
        Err(e) => Err(e),
    }
}

/// Whether a command was run and succeeded.
pub fn succeeds(result: &CommandResult) -> (r: bool)
    ensures
        r == (*result matches CommandResult::Ended { success, .. } && success),
{
    match result {
        CommandResult::NotRun(_) => false,
        CommandResult::Ended { success, .. } => *success,
    }
}

/// The lines that report an installation or removal.
pub fn cmd_install_service(
    supervisor: Supervisor,
    id: &ServiceId,
    action: InstallAction,
    outcome: &InstallOutcome,
) -> (r: Vec<String>)
    ensures
        text::texts(r@) == match action {
            InstallAction::Print => Seq::<Seq<char>>::empty(),
            InstallAction::Remove => if outcome.activated {
                seq!["removed "@ + outcome.label@ + " ("@ + outcome.path@ + ")"@]
            } else {
                seq!["no service installed at "@ + outcome.path@ + " — nothing to do"@]
            },
            InstallAction::Write => seq![
                "wrote "@ + outcome.path@,
                "activate it with:\n  "@ + match supervisor {
                    Supervisor::Launchd => "launchctl bootstrap gui/$(id -u) "@ + outcome.path@,
                    Supervisor::Systemd => "systemctl --user daemon-reload && systemctl --user enable --now "@
                        + id.unit@,
                },
            ],
            InstallAction::WriteAndActivate => seq![
                "installed "@ + outcome.label@ + " and activated it at "@ + outcome.path@,
            ],
        },
{
    let mut lines: Vec<String> = Vec::new();
    match action {
        InstallAction::Print => {
            assert(text::texts(lines@) =~= Seq::<Seq<char>>::empty());
        },
        InstallAction::Remove => {
            if outcome.activated {
                let mut line = text::cat4(
                    "removed ",
                    outcome.label.as_str(),
                    " (",
                    outcome.path.as_str(),
                );
                line.append(")");
                lines.push(line);
                assert(text::texts(lines@) =~= seq![line@]);
            } else {
                let line = text::cat3(
                    "no service installed at ",
                    outcome.path.as_str(),
                    " — nothing to do",
                );
                lines.push(line);
                assert(text::texts(lines@) =~= seq![line@]);
            }
        },
        InstallAction::Write => {
            let first = text::cat2("wrote ", outcome.path.as_str());
            let hint = activation_hint(supervisor, outcome.path.as_str(), id);
            let second = text::cat2("activate it with:\n  ", hint.as_str());
            lines.push(first);
            lines.push(second);
            assert(text::texts(lines@) =~= seq![first@, second@]);
        },
        InstallAction::WriteAndActivate => {
            let line = text::cat4(
                "installed ",
                outcome.label.as_str(),
                " and activated it at ",
                outcome.path.as_str(),
            );
            lines.push(line);
            assert(text::texts(lines@) =~= seq![line@]);
        },
    }
    lines
}

/// macOS has launchd, Linux systemd, and no other system a supervisor.
pub proof fn law_supervisor_of_the_system(os: &str, r: Result<Supervisor, RunnerError>)
    requires
        call_ensures(current_supervisor, (os,), r),
    ensures
        r == Ok::<Supervisor, RunnerError>(Supervisor::Launchd) <==> os@ == "macos"@,
        r == Ok::<Supervisor, RunnerError>(Supervisor::Systemd) <==> os@ == "linux"@,
        r is Err <==> os@ != "macos"@ && os@ != "linux"@,
{
    reveal_strlit("macos");
    reveal_strlit("linux");
    assert("macos"@[0] != "linux"@[0]);
}

/// A unit is made exactly when both paths are known; the program's comes
/// first. It runs that program on that configuration file.
pub proof fn law_unit_runs_the_program(
    id: ServiceId,
    data_dir: &str,
    exe: Result<String, String>,
    config_path: &str,
    absolute: Result<String, String>,
    r: Result<ServiceSpec, RunnerError>,
)
    requires
        call_ensures(render_unit, (&id, data_dir, exe, config_path, absolute), r),
    ensures
        r is Ok <==> exe is Ok && absolute is Ok,
        r matches Ok(spec) ==> spec.label@ == id.label@ && spec.exe@ == exe->Ok_0@
            && spec.config_path@ == absolute->Ok_0@ && spec.diag_dir@ == path::joined(
            data_dir@,
            "_diag"@,
        ),
        exe matches Err(cause) ==> (r matches Err(e) && e@ == RunnerErrorView::Config(
            "cannot resolve the running binary's path: "@ + cause@,
        )),
{
}

/// A configuration file kept as `runners/<owner>/<repo>/<file>` under some
/// directory is that repository's.
pub proof fn law_kept_path_names_its_repository(
    root: Seq<char>,
    owner: Seq<char>,
    repo: Seq<char>,
    file: Seq<char>,
)
    requires
        root.len() > 0,
        root.last() != '/',
        path::stripped_tail(root) == root,
        path::plain_segment(owner),
        path::plain_segment(repo),
        path::plain_segment(file),
        owner != seq!['.', '.'],
        repo != seq!['.', '.'],
    ensures
        path_owner_repo(
            root.push('/') + "runners"@ + seq!['/'] + owner + seq!['/'] + repo + seq!['/'] + file,
        ) == Some((owner, repo)),
{
    reveal_strlit("runners");
    let runners = "runners"@;
    assert(path::plain_segment(runners)) by {
        assert(runners != path::dot()) by {
            assert(runners.len() != path::dot().len());
        }
    }
    assert(runners != seq!['.', '.']) by {
        assert(runners[0] != '.');
    }
    let a = root.push('/') + runners;
    let b = a.push('/') + owner;
    let c = b.push('/') + repo;
    let d = c.push('/') + file;
    path::law_parent_and_name(root, runners);
    lemma_plain_end(root, runners);
    path::law_parent_and_name(a, owner);
    lemma_plain_end(a, owner);
    path::law_parent_and_name(b, repo);
    lemma_plain_end(b, repo);
    path::law_parent_and_name(c, file);
    assert(root.push('/') + runners + seq!['/'] + owner + seq!['/'] + repo + seq!['/'] + file
        =~= d);
}

/// A configuration file kept below any other directory is no repository's.
pub proof fn law_other_path_names_no_repository(
    root: Seq<char>,
    dir: Seq<char>,
    owner: Seq<char>,
    repo: Seq<char>,
    file: Seq<char>,
)
    requires
        root.len() > 0,
        root.last() != '/',
        path::stripped_tail(root) == root,
        path::plain_segment(dir),
        path::plain_segment(owner),
        path::plain_segment(repo),
        path::plain_segment(file),
        dir != "runners"@,
        dir != seq!['.', '.'],
    ensures
        path_owner_repo(
            root.push('/') + dir + seq!['/'] + owner + seq!['/'] + repo + seq!['/'] + file,
        ) is None,
{
    let a = root.push('/') + dir;
    let b = a.push('/') + owner;
    let c = b.push('/') + repo;
    let d = c.push('/') + file;
    path::law_parent_and_name(root, dir);
    lemma_plain_end(root, dir);
    path::law_parent_and_name(a, owner);
    lemma_plain_end(a, owner);
    path::law_parent_and_name(b, repo);
    lemma_plain_end(b, repo);
    path::law_parent_and_name(c, file);
    assert(root.push('/') + dir + seq!['/'] + owner + seq!['/'] + repo + seq!['/'] + file =~= d);
}

proof fn lemma_plain_end(dir: Seq<char>, name: Seq<char>)
    requires
        path::plain_segment(name),
    ensures
        path::stripped_tail(dir.push('/') + name) == dir.push('/') + name,
        (dir.push('/') + name).last() != '/',
{
    let p = dir.push('/') + name;
    let n = p.len() as int;
    assert(p[n - 1] == name.last());
    assert(name.contains(name.last()));
    if name.len() == 1 {
        assert(name[0] != '.') by {
            if name[0] == '.' {
                assert(name =~= path::dot());
            }
        }
    } else {
        assert(p[n - 2] == name[name.len() - 2]);
        assert(name.contains(name[name.len() - 2]));
    }
}

/// A service is named after the repository of its configuration file, and
/// has the plain name without one; label and unit name the same.
pub proof fn law_service_is_named_after_repository(config_path: &str, r: ServiceId)
    requires
        call_ensures(service_id, (config_path,), r),
    ensures
        path_owner_repo(config_path@) matches Some((owner, repo)) ==> r.label@
            == "io.toolu.runner."@ + owner + "."@ + repo && r.unit@ == "toolu-runner-"@ + owner
            + "-"@ + repo + ".service"@,
        path_owner_repo(config_path@) is None ==> r.label@ == "io.toolu.runner"@ && r.unit@
            == "toolu-runner.service"@,
{
}

/// A unit file goes where its supervisor looks: the label's plist for
/// launchd, the unit for systemd.
pub proof fn law_unit_goes_where_it_is_looked_for(
    supervisor: Supervisor,
    id: ServiceId,
    home: &str,
    r: String,
)
    requires
        call_ensures(dest_path, (supervisor, &id, home), r),
    ensures
        supervisor == Supervisor::Launchd ==> r@ == path::joined(
            path::joined(home@, "Library/LaunchAgents"@),
            id.label@ + ".plist"@,
        ),
        supervisor == Supervisor::Systemd ==> r@ == path::joined(
            path::joined(home@, ".config/systemd/user"@),
            id.unit@,
        ),
{
}

/// Printing comes before everything, removing before writing, and activation
/// follows unless it was turned off; only printing works without a home
/// directory.
pub proof fn law_install_flags(
    supervisor: Supervisor,
    config_path: &str,
    home: Option<&str>,
    print: bool,
    no_activate: bool,
    remove: bool,
    r: Result<(InstallAction, InstallOutcome), RunnerError>,
)
    requires
        call_ensures(
            install_service_core,
            (supervisor, config_path, home, print, no_activate, remove),
            r,
        ),
    ensures
        r is Err <==> !print && home is None,
        r matches Ok((action, outcome)) ==> {
            &&& action == InstallAction::Print <==> print
            &&& action == InstallAction::Remove <==> !print && remove
            &&& action == InstallAction::Write <==> !print && !remove && no_activate
            &&& action == InstallAction::WriteAndActivate <==> !print && !remove && !no_activate
            &&& outcome.activated <==> action == InstallAction::Remove || action
                == InstallAction::WriteAndActivate
            &&& outcome.label@ == service_label(config_path@)
            &&& print ==> outcome.path@.len() == 0
            &&& !print ==> outcome.path@ == unit_path(
                supervisor,
                service_label(config_path@),
                service_unit(config_path@),
                home->0@,
            )
        },
{
}

/// A removal fails only when deleting does; it says whether a file was
/// deleted.
pub proof fn law_removing_nothing_is_no_failure(
    planned: InstallOutcome,
    deletion: Deletion,
    r: Result<InstallOutcome, RunnerError>,
)
    requires
        call_ensures(remove_service, (planned, deletion), r),
    ensures
        r is Err <==> deletion is Failed,
        r matches Ok(outcome) ==> (outcome.activated <==> deletion is Deleted) && outcome.path@
            == planned.path@ && outcome.label@ == planned.label@,
        deletion matches Deletion::Failed(e) ==> (r matches Err(f) && f@ == e@),
{
}

/// launchd is tried the modern way first and then the older one; systemd reads
/// its units before it enables one, and after it has disabled one.
pub proof fn law_commands_of_the_supervisors(
    uid: &str,
    plist: &str,
    label: &str,
    unit: &str,
    load: CommandPlan,
    unload: CommandPlan,
    enable: CommandPlan,
    disable: CommandPlan,
)
    requires
        call_ensures(activate_launchd, (uid, plist), load),
        call_ensures(deactivate_launchd, (uid, plist, label), unload),
        call_ensures(activate_systemd, (unit,), enable),
        call_ensures(deactivate_systemd, (unit,), disable),
    ensures
        load.preferred matches Some(c) && c@.program == "launchctl"@ && c@.args == seq![
            "bootstrap"@,
            "gui/"@ + uid@,
            plist@,
        ],
        load.required@.len() == 1 && load.required@[0]@.args == seq!["load"@, "-w"@, plist@],
        unload.preferred matches Some(c) && c@.program == "launchctl"@ && c@.args == seq![
            "bootout"@,
            "gui/"@ + uid@ + "/"@ + label@,
        ],
        unload.required@.len() == 1 && unload.required@[0]@.args == seq!["unload"@, plist@],
        enable.preferred is None && disable.preferred is None,
        enable.required@.len() == 2 && disable.required@.len() == 2,
        enable.required@[0]@ == disable.required@[1]@,
        enable.required@[0]@.args == seq!["--user"@, "daemon-reload"@],
        enable.required@[1]@.args == seq!["--user"@, "enable"@, "--now"@, unit@],
        disable.required@[0]@.args == seq!["--user"@, "disable"@, "--now"@, unit@],
        enable.required@[1]@.program == "systemctl"@ && disable.required@[0]@.program
            == "systemctl"@,
{
    assert(command_views(load.required@).len() == load.required@.len());
    assert(command_views(load.required@)[0] == load.required@[0]@);
    assert(command_views(unload.required@).len() == unload.required@.len());
    assert(command_views(unload.required@)[0] == unload.required@[0]@);
    assert(command_views(enable.required@).len() == enable.required@.len());
    assert(command_views(enable.required@)[0] == enable.required@[0]@);
    assert(command_views(enable.required@)[1] == enable.required@[1]@);
    assert(command_views(disable.required@).len() == disable.required@.len());
    assert(command_views(disable.required@)[0] == disable.required@[0]@);
    assert(command_views(disable.required@)[1] == disable.required@[1]@);
}

/// A user id is digits alone, white space around them aside.
pub proof fn law_uid_is_digits(output: &str, r: Result<String, RunnerError>)
    requires
        call_ensures(current_uid, (output,), r),
    ensures
        r is Ok <==> text::trimmed(output@).len() > 0 && forall|i: int|
            0 <= i < text::trimmed(output@).len() ==> '0' <= #[trigger] text::trimmed(output@)[i]
                <= '9',
        r matches Ok(uid) ==> uid@ == text::trimmed(output@),
{
    let t = text::trimmed(output@);
    assert(number::all_digits(t) <==> forall|i: int|
        0 <= i < t.len() ==> '0' <= #[trigger] t[i] <= '9');
}

/// A command counts only when it ran and ended with success; its output is
/// then handed on without white space at the ends.
pub proof fn law_command_must_succeed(
    command: CommandLine,
    result: CommandResult,
    out: Result<String, RunnerError>,
    checked: Result<(), RunnerError>,
    ok: bool,
)
    requires
        call_ensures(run_stdout, (&command, result), out),
        call_ensures(run_checked, (&command, result), checked),
        call_ensures(succeeds, (&result,), ok),
    ensures
        ok <==> (result matches CommandResult::Ended { success, .. } && success),
        out is Ok <==> ok,
        checked is Ok <==> ok,
        out matches Ok(s) ==> (result matches CommandResult::Ended { stdout, .. } && s@
            == text::trimmed(stdout@)),
        !ok ==> (out->Err_0)@ == (checked->Err_0)@,
        result matches CommandResult::NotRun(cause) ==> (out->Err_0)@ == RunnerErrorView::Config(
            "failed to run `"@ + types::command_line(command@) + "`: "@ + cause@,
        ),
{
}

/// The hint is the command of the unit's own supervisor.
pub proof fn law_hint_is_for_the_supervisor(
    supervisor: Supervisor,
    dest: &str,
    id: ServiceId,
    r: String,
)
    requires
        call_ensures(activation_hint, (supervisor, dest, &id), r),
    ensures
        supervisor == Supervisor::Launchd ==> r@ == "launchctl bootstrap gui/$(id -u) "@ + dest@,
        supervisor == Supervisor::Systemd ==> r@
            == "systemctl --user daemon-reload && systemctl --user enable --now "@ + id.unit@,
{
}

/// Nothing is reported about a printed unit. A removal names what it removed,
/// or says that there was nothing; a unit only written is reported with its
/// path and how to activate it.
pub proof fn law_installation_is_reported(
    supervisor: Supervisor,
    id: ServiceId,
    action: InstallAction,
    outcome: InstallOutcome,
    r: Vec<String>,
)
    requires
        call_ensures(cmd_install_service, (supervisor, &id, action, &outcome), r),
    ensures
        action == InstallAction::Print <==> r@.len() == 0,
        action == InstallAction::Write <==> r@.len() == 2,
        action == InstallAction::Remove && outcome.activated ==> r@[0]@ == "removed "@
            + outcome.label@ + " ("@ + outcome.path@ + ")"@,
        action == InstallAction::Remove && !outcome.activated ==> r@[0]@
            == "no service installed at "@ + outcome.path@ + " — nothing to do"@,
        action == InstallAction::Write ==> r@[0]@ == "wrote "@ + outcome.path@,
        action == InstallAction::Write && supervisor == Supervisor::Systemd ==> r@[1]@
            == "activate it with:\n  "@ + (
        "systemctl --user daemon-reload && systemctl --user enable --now "@ + id.unit@),
        action == InstallAction::Write && supervisor == Supervisor::Launchd ==> r@[1]@
            == "activate it with:\n  "@ + ("launchctl bootstrap gui/$(id -u) "@ + outcome.path@),
        action == InstallAction::WriteAndActivate ==> r@[0]@ == "installed "@ + outcome.label@
            + " and activated it at "@ + outcome.path@,
{
    let t = text::texts(r@);
    assert(t.len() == r@.len());
    assert(t.len() > 0 ==> t[0] == r@[0]@);
    assert(t.len() > 1 ==> t[1] == r@[1]@);
}

} // verus!
