//! Logging in to GitHub: which OAuth App to use, and how to open a browser.

use vstd::prelude::*;

use crate::stamp;
use crate::text;
use crate::types;
use crate::types::{CommandLine, CommandView};

verus! {

/// The built-in client id. No App is registered under it, so it is never
/// sent anywhere.
pub open spec fn placeholder_client_id() -> Seq<char> {
    "REPLACE_ME"@
}

/// The client id in force: the argument, else the environment's, else the
/// built-in one.
pub open spec fn client_id_in_force(
    argument: Option<Seq<char>>,
    environment: Option<Seq<char>>,
) -> Seq<char> {
    match argument {
        Some(id) => id,
        None => match environment {
            Some(id) => id,
            None => placeholder_client_id(),
        },
    }
}

/// The client id to log in with. The built-in one is refused before
/// anything is sent.
pub fn device_client_id(argument: Option<String>, environment: Option<String>, host: &str) -> (r:
    Result<String, String>)
    ensures
        ({
            let id = client_id_in_force(text::text_opt(argument), text::text_opt(environment));
            match r {
                Ok(s) => s@ == id && id != placeholder_client_id(),
                Err(msg) => id == placeholder_client_id() && msg@ == if host@ == "github.com"@ {
                    "no GitHub OAuth App configured — pass --client-id or set TOOLU_RUNNER_CLIENT_ID"@
                } else {
                    "GHES login needs --client-id for an OAuth App registered on "@ + host@
                },
            }
        }),
{
    let id: String = match argument {
        Some(id) => id,
        None => match environment {
            Some(id) => id,
            None => "REPLACE_ME".to_owned(),
        },
    };
    if text::same(id.as_str(), "REPLACE_ME") {
        let msg: String = if text::same(host, "github.com") {
            "no GitHub OAuth App configured — pass --client-id or set TOOLU_RUNNER_CLIENT_ID".to_owned()
        } else {
            text::cat2("GHES login needs --client-id for an OAuth App registered on ", host)
        };
        return Err(msg);
    }
    Ok(id)
}

/// The permissions that a login asks for.
pub fn login_scope() -> (r: &'static str)
    ensures
        r@ == "repo admin:org"@,
{
    "repo admin:org"
}

/// A stored login.
#[derive(Debug)]
pub struct StoredToken {
    pub access_token: String,
    pub scope: String,
    pub host: String,
    pub issued_at: String,
}

/// The login to store for a token granted now.
pub fn granted_token(access_token: String, scope: String, host: &str) -> (r: StoredToken)
    ensures
        r.access_token == access_token,
        r.scope == scope,
        r.host@ == host@,
        exists|reading: Option<(u64, u32)>| r.issued_at@ == #[trigger] stamp::rfc3339(reading),
{
    let issued_at = stamp::rfc3339_now();
    StoredToken { access_token, scope, host: host.to_owned(), issued_at }
}

/// The line that reports a login.
pub fn logged_in_line(host: &str, scope: &str) -> (r: String)
    ensures
        r@ == "logged in to "@ + host@ + " (scopes: "@ + scope@ + ")"@,
{
    text::cat5("logged in to ", host, " (scopes: ", scope, ")")
}

/// The line that reports a logout.
pub fn logged_out_line(host: &str) -> (r: String)
    ensures
        r@ == "Logged out of "@ + host@,
{
    text::cat2("Logged out of ", host)
}

/// The prompt that shows a user code.
pub fn code_prompt(user_code: &str, verification_uri: &str) -> (r: String)
    ensures
        r@ == "Enter code "@ + user_code@ + " at "@ + verification_uri@,
{
    text::cat4("Enter code ", user_code, " at ", verification_uri)
}

/// The command that opens an address in a browser.
pub open spec fn browser_view(os: Seq<char>, url: Seq<char>) -> CommandView {
    if os == "macos"@ {
        CommandView { program: "open"@, args: seq![url] }
    } else if os == "windows"@ {
        CommandView { program: "cmd"@, args: seq!["/c"@, "start"@, ""@, url] }
    } else {
        CommandView { program: "xdg-open"@, args: seq![url] }
    }
}

/// The command that opens an address in a browser on an operating system.
pub fn browser_command(os: &str, url: &str) -> (r: CommandLine)
    ensures
        r@ == browser_view(os@, url@),
{
    if text::same(os, "macos") {
        types::command1("open", url)
    } else if text::same(os, "windows") {
        types::command4("cmd", "/c", "start", "", url)
    } else {
        types::command1("xdg-open", url)
    }
}

/// The argument's client id wins over the environment's; only without either
/// is the built-in one in force, which is refused as it would be if given.
pub proof fn law_given_client_id_is_used(
    argument: Option<String>,
    environment: Option<String>,
    host: &str,
    r: Result<String, String>,
)
    requires
        call_ensures(device_client_id, (argument, environment, host), r),
    ensures
        argument matches Some(id) ==> (id@ != "REPLACE_ME"@ <==> r is Ok),
        argument matches Some(id) ==> (r matches Ok(s) ==> s@ == id@),
        argument is None ==> (environment matches Some(id) ==> (id@ != "REPLACE_ME"@ <==> r is Ok)),
        argument is None ==> (environment matches Some(id) ==> (r matches Ok(s) ==> s@ == id@)),
        argument is None && environment is None ==> r is Err,
        r matches Err(msg) ==> (host@ != "github.com"@ ==> msg@
            == "GHES login needs --client-id for an OAuth App registered on "@ + host@),
        r matches Err(msg) ==> (host@ == "github.com"@ ==> msg@
            == "no GitHub OAuth App configured — pass --client-id or set TOOLU_RUNNER_CLIENT_ID"@),
{
}

/// A login is stored with the token, the scope and the host that it is for.
pub proof fn law_stored_login_is_the_granted_one(
    access_token: String,
    scope: String,
    host: &str,
    r: StoredToken,
)
    requires
        call_ensures(granted_token, (access_token, scope, host), r),
    ensures
        r.access_token@ == access_token@,
        r.scope@ == scope@,
        r.host@ == host@,
{
}

/// The address is opened by the system's own command, as its last argument.
pub proof fn law_browser_opens_the_address(os: &str, url: &str, r: CommandLine)
    requires
        call_ensures(browser_command, (os, url), r),
    ensures
        os@ == "macos"@ ==> r@.program == "open"@ && r@.args == seq![url@],
        os@ == "windows"@ ==> r@.program == "cmd"@ && r@.args == seq!["/c"@, "start"@, ""@, url@],
        os@ != "macos"@ && os@ != "windows"@ ==> r@.program == "xdg-open"@ && r@.args == seq![url@],
        r@.args.last() == url@,
{
    reveal_strlit("macos");
    reveal_strlit("windows");
    assert("macos"@.len() != "windows"@.len());
}

/// The lines of a login say the host, the scope, and the code and where to
/// enter it.
pub proof fn law_login_lines(
    host: &str,
    scope: &str,
    code: &str,
    uri: &str,
    logged_in: String,
    logged_out: String,
    prompt: String,
    asked: &'static str,
)
    requires
        call_ensures(logged_in_line, (host, scope), logged_in),
        call_ensures(logged_out_line, (host,), logged_out),
        call_ensures(code_prompt, (code, uri), prompt),
        call_ensures(login_scope, (), asked),
    ensures
        logged_in@ == "logged in to "@ + host@ + " (scopes: "@ + scope@ + ")"@,
        logged_out@ == "Logged out of "@ + host@,
        prompt@ == "Enter code "@ + code@ + " at "@ + uri@,
        asked@ == "repo admin:org"@,
{
}

} // verus!
