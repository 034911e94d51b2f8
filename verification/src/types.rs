//! Types shared by the whole runner.

use vstd::prelude::*;

use crate::text;

verus! {

/// How a job or a step ended.
#[derive(Debug, Clone, Copy, PartialEq, Eq, Structural)]
pub enum Conclusion {
    Success,
    Failure,
    Cancelled,
    Skipped,
}

/// Which services a job reaches, and how.
#[derive(Debug, Clone, Copy, PartialEq, Eq, Structural)]
pub enum ServicesMode {
    /// Requests are forwarded to GitHub.
    Forwarder,
    /// Requests are answered on this machine.
    Offline,
}

/// Runner environment configuration, without anything specific to a job.
#[derive(Debug, Clone)]
pub struct RunnerConfig {
    /// Root directory for caches (actions, node, tools).
    pub data_dir: String,
    /// Parent directory of the per-job workspaces.
    pub workspace_root: String,
    /// Per-job cgroup directory that spawned steps are moved into.
    pub cgroup_path: Option<String>,
}

/// A program and its arguments.
#[derive(Debug)]
pub struct CommandLine {
    pub program: String,
    pub args: Vec<String>,
}

/// A program and its arguments, as texts.
pub struct CommandView {
    pub program: Seq<char>,
    pub args: Seq<Seq<char>>,
}

impl View for CommandLine {
    type V = CommandView;

    open spec fn view(&self) -> CommandView {
        CommandView { program: self.program@, args: text::texts(self.args@) }
    }
}

/// A program with one argument.
pub fn command1(program: &str, a: &str) -> (r: CommandLine)
    ensures
        r@ == (CommandView { program: program@, args: seq![a@] }),
{
    let mut args: Vec<String> = Vec::new();
    args.push(a.to_owned());
    assert(text::texts(args@) =~= seq![a@]);
    CommandLine { program: program.to_owned(), args }
}

/// A program with two arguments.
pub fn command2(program: &str, a: &str, b: &str) -> (r: CommandLine)
    ensures
        r@ == (CommandView { program: program@, args: seq![a@, b@] }),
{
    let mut args: Vec<String> = Vec::new();
    args.push(a.to_owned());
    args.push(b.to_owned());
    assert(text::texts(args@) =~= seq![a@, b@]);
    CommandLine { program: program.to_owned(), args }
}

/// A program with three arguments.
pub fn command3(program: &str, a: &str, b: &str, c: &str) -> (r: CommandLine)
    ensures
        r@ == (CommandView { program: program@, args: seq![a@, b@, c@] }),
{
    let mut args: Vec<String> = Vec::new();
    args.push(a.to_owned());
    args.push(b.to_owned());
    args.push(c.to_owned());
    assert(text::texts(args@) =~= seq![a@, b@, c@]);
    CommandLine { program: program.to_owned(), args }
}

/// A program with four arguments.
pub fn command4(program: &str, a: &str, b: &str, c: &str, d: &str) -> (r: CommandLine)
    ensures
        r@ == (CommandView { program: program@, args: seq![a@, b@, c@, d@] }),
{
    let mut args: Vec<String> = Vec::new();
    args.push(a.to_owned());
    args.push(b.to_owned());
    args.push(c.to_owned());
    args.push(d.to_owned());
    assert(text::texts(args@) =~= seq![a@, b@, c@, d@]);
    CommandLine { program: program.to_owned(), args }
}

/// A program and its arguments as one line.
pub open spec fn command_line(c: CommandView) -> Seq<char> {
    c.program + " "@ + text::joined(c.args, " "@)
}

impl CommandLine {
    /// The program and its arguments as one line.
    pub fn line(&self) -> (r: String)
        ensures
            r@ == command_line(self@),
    {
        let args = text::join(&self.args, " ");
        text::cat3(self.program.as_str(), " ", args.as_str())
    }
}

/// A command runs its program with its arguments in the order given.
pub proof fn law_commands_keep_their_arguments(
    program: &str,
    a: &str,
    b: &str,
    c: &str,
    d: &str,
    one: CommandLine,
    two: CommandLine,
    three: CommandLine,
    four: CommandLine,
)
    requires
        call_ensures(command1, (program, a), one),
        call_ensures(command2, (program, a, b), two),
        call_ensures(command3, (program, a, b, c), three),
        call_ensures(command4, (program, a, b, c, d), four),
    ensures
        one.program@ == program@ && one.args@.len() == 1 && one.args@[0]@ == a@,
        two.program@ == program@ && two.args@.len() == 2 && two.args@[0]@ == a@ && two.args@[1]@
            == b@,
        three.program@ == program@ && three.args@.len() == 3 && three.args@[0]@ == a@
            && three.args@[1]@ == b@ && three.args@[2]@ == c@,
        four.program@ == program@ && four.args@.len() == 4 && four.args@[0]@ == a@ && four.args@[1]@
            == b@ && four.args@[2]@ == c@ && four.args@[3]@ == d@,
{
    text::law_texts_are_those_of_the_strings(one.args@, None);
    text::law_texts_are_those_of_the_strings(two.args@, None);
    text::law_texts_are_those_of_the_strings(three.args@, None);
    text::law_texts_are_those_of_the_strings(four.args@, None);
    assert(one@.args[0] == one.args@[0]@);
    assert(two@.args[0] == two.args@[0]@ && two@.args[1] == two.args@[1]@);
    assert(three@.args[0] == three.args@[0]@ && three@.args[1] == three.args@[1]@ && three@.args[2]
        == three.args@[2]@);
    assert(four@.args[0] == four.args@[0]@ && four@.args[1] == four.args@[1]@ && four@.args[2]
        == four.args@[2]@ && four@.args[3] == four.args@[3]@);
}

/// The line of a command is the program and each argument, a blank before
/// each.
pub proof fn law_line_names_every_argument(program: Seq<char>, args: Seq<Seq<char>>, last: Seq<char>)
    requires
        args.len() > 0,
    ensures
        command_line(CommandView { program, args: args.push(last) }) == command_line(
            CommandView { program, args },
        ) + " "@ + last,
        command_line(CommandView { program, args: seq![last] }) == program + " "@ + last,
{
    text::law_join_separates_neighbours(args, last, " "@);
    assert(program + " "@ + (text::joined(args, " "@) + " "@ + last) =~= program + " "@
        + text::joined(args, " "@) + " "@ + last);
}

} // verus!
