//! Configuration from the environment. A variable that is no text counts as
//! unset, and is diagnosed without showing its value.

use vstd::prelude::*;

use crate::text;

verus! {

/// What reading an environment variable gave.
pub enum EnvRead {
    Value(String),
    NotPresent,
    NotUnicode,
}

/// The value of a variable.
pub open spec fn env_value(read: EnvRead) -> Option<Seq<char>> {
    match read {
        EnvRead::Value(v) => Some(v@),
        _ => None,
    }
}

/// What to say about a variable that is no text.
pub open spec fn not_unicode_text(key: Seq<char>) -> Seq<char> {
    "toolu-runner: "@ + key + " is not valid Unicode; treating it as unset"@
}

/// A variable's value, and what to say about it if anything.
pub struct EnvAnswer {
    pub value: Option<String>,
    pub diagnosis: Option<String>,
}

/// Whether an answer is the right one for what was read.
pub open spec fn answers(a: EnvAnswer, key: Seq<char>, read: EnvRead) -> bool {
    &&& text::text_opt(a.value) == env_value(read)
    &&& text::text_opt(a.diagnosis) == if read is NotUnicode {
        Some(not_unicode_text(key))
    } else {
        None
    }
}

/// The value of the variable `key`, given what reading it gave.
pub fn read(key: &str, env: EnvRead) -> (r: EnvAnswer)
    ensures
        answers(r, key@, env),
{
    match env {
        EnvRead::Value(v) => EnvAnswer { value: Some(v), diagnosis: None },
        EnvRead::NotPresent => EnvAnswer { value: None, diagnosis: None },
        EnvRead::NotUnicode => EnvAnswer {
            value: None,
            diagnosis: Some(
                text::cat3(
                    "toolu-runner: ",
                    key,
                    " is not valid Unicode; treating it as unset",
                ),
            ),
        },
    }
}

/// `TOOLU_JITCONFIG`.
pub fn jit_config_raw(env: EnvRead) -> (r: EnvAnswer)
    ensures
        answers(r, "TOOLU_JITCONFIG"@, env),
{
    read("TOOLU_JITCONFIG", env)
}

/// `TOOLU_DEADLINE`.
pub fn deadline_raw(env: EnvRead) -> (r: EnvAnswer)
    ensures
        answers(r, "TOOLU_DEADLINE"@, env),
{
    read("TOOLU_DEADLINE", env)
}

/// `TOOLU_RUNNER_CLIENT_ID`.
pub fn runner_client_id(env: EnvRead) -> (r: EnvAnswer)
    ensures
        answers(r, "TOOLU_RUNNER_CLIENT_ID"@, env),
{
    read("TOOLU_RUNNER_CLIENT_ID", env)
}

/// `TOOLU_RUNNER_TOKEN`.
pub fn runner_token(env: EnvRead) -> (r: EnvAnswer)
    ensures
        answers(r, "TOOLU_RUNNER_TOKEN"@, env),
{
    read("TOOLU_RUNNER_TOKEN", env)
}

/// The installing shell's `PATH`.
pub fn path(env: EnvRead) -> (r: EnvAnswer)
    ensures
        answers(r, "PATH"@, env),
{
    read("PATH", env)
}

/// A variable has a value exactly when it is set to text, and the value is
/// that text. Only a value that is no text is worth a word, and that word
/// names the variable.
pub proof fn law_only_text_is_a_value(key: &str, env: EnvRead, r: EnvAnswer)
    requires
        call_ensures(read, (key, env), r),
    ensures
        r.value is Some <==> env is Value,
        env matches EnvRead::Value(v) ==> r.value->0@ == v@,
        r.diagnosis is Some <==> env is NotUnicode,
        env is NotUnicode ==> r.diagnosis->0@ == "toolu-runner: "@ + key@
            + " is not valid Unicode; treating it as unset"@,
{
}

/// Each setting is read under its own variable's name.
pub proof fn law_settings_have_their_names(
    env: EnvRead,
    jit: EnvAnswer,
    deadline: EnvAnswer,
    client: EnvAnswer,
    token: EnvAnswer,
    search: EnvAnswer,
)
    requires
        call_ensures(jit_config_raw, (env,), jit),
        call_ensures(deadline_raw, (env,), deadline),
        call_ensures(runner_client_id, (env,), client),
        call_ensures(runner_token, (env,), token),
        call_ensures(path, (env,), search),
    ensures
        env matches EnvRead::Value(v) ==> jit.value->0@ == v@ && deadline.value->0@ == v@
            && client.value->0@ == v@ && token.value->0@ == v@ && search.value->0@ == v@,
        !(env is Value) ==> jit.value is None && deadline.value is None && client.value is None
            && token.value is None && search.value is None,
        env is NotUnicode ==> {
            let tail = " is not valid Unicode; treating it as unset"@;
            &&& jit.diagnosis->0@ == "toolu-runner: "@ + "TOOLU_JITCONFIG"@ + tail
            &&& deadline.diagnosis->0@ == "toolu-runner: "@ + "TOOLU_DEADLINE"@ + tail
            &&& client.diagnosis->0@ == "toolu-runner: "@ + "TOOLU_RUNNER_CLIENT_ID"@ + tail
            &&& token.diagnosis->0@ == "toolu-runner: "@ + "TOOLU_RUNNER_TOKEN"@ + tail
            &&& search.diagnosis->0@ == "toolu-runner: "@ + "PATH"@ + tail
        },
{
}

} // verus!
