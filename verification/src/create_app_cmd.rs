//! Creating the runner's GitHub App.

use vstd::prelude::*;

use crate::cli;
use crate::stamp;
use crate::text;

verus! {

/// How long to wait for the browser, in seconds.
pub const BROWSER_TIMEOUT_SECS: u64 = 300;

/// The refusal of a host.
pub open spec fn unsupported_host(host: Seq<char>) -> Seq<char> {
    "--host '"@ + host
        + "' is not supported yet — `create-app` targets github.com only this release (GHES and organization-owned Apps come later); re-run without --host, or with --host github.com"@
}

/// The refusal of a host.
pub fn unsupported_host_error(host: &str) -> (r: String)
    ensures
        r@ == unsupported_host(host@),
{
    text::cat3(
        "--host '",
        host,
        "' is not supported yet — `create-app` targets github.com only this release (GHES and organization-owned Apps come later); re-run without --host, or with --host github.com",
    )
}

/// The refusal to overwrite a saved App.
pub open spec fn existing_app(path: Seq<char>) -> Seq<char> {
    "a GitHub App is already saved at "@ + path + " — pass --force to overwrite it"@
}

/// The refusal to overwrite a saved App.
pub fn existing_app_error(path: &str) -> (r: String)
    ensures
        r@ == existing_app(path@),
{
    text::cat3("a GitHub App is already saved at ", path, " — pass --force to overwrite it")
}

/// The name of an App: the one asked for, else one made from the machine's.
pub open spec fn app_name(name: Option<String>, hostname: Option<String>) -> Seq<char> {
    match name {
        Some(n) => n@,
        None => "toolu-runner-"@ + cli::runner_name(None, hostname),
    }
}

/// Guards the creation of an App, before anything is opened or sent: the
/// host first, then an App that is already saved.
pub fn guard_create_app(host: &str, path: &str, saved: bool, force: bool) -> (r: Result<(), String>)
    ensures
        match r {
            Ok(_) => host@ == "github.com"@ && (!saved || force),
            Err(msg) => if host@ != "github.com"@ {
                msg@ == unsupported_host(host@)
            } else {
                saved && !force && msg@ == existing_app(path@)
            },
        },
{
    if !text::same(host, "github.com") {
        return Err(unsupported_host_error(host));
    }
    if saved && !force {
        return Err(existing_app_error(path));
    }
    Ok(())
}

/// The name of the App to create on this machine, once the guards have
/// passed.
pub fn cmd_create_app(
    name: Option<String>,
    host: &str,
    path: &str,
    saved: bool,
    force: bool,
) -> (r: Result<String, String>)
    ensures
        match r {
            Ok(chosen) => host@ == "github.com"@ && (!saved || force)
                && exists|hostname: Option<String>| chosen@ == #[trigger] app_name(name, hostname),
            Err(msg) => if host@ != "github.com"@ {
                msg@ == unsupported_host(host@)
            } else {
                saved && !force && msg@ == existing_app(path@)
            },
        },
{
    match guard_create_app(host, path, saved, force) {
        Err(msg) => {
            return Err(msg);
        },
        Ok(_) => {},
    }
    match name {
        Some(n) => {
            assert(n@ == app_name(Some(n), None));
            Ok(n)
        },
        None => {
            let machine = cli::runner_name_or_hostname(None);
            let ghost hostname = choose|hostname: Option<String>| machine@ == #[trigger]
                cli::runner_name(None, hostname);
            let chosen = text::cat2("toolu-runner-", machine.as_str());
            assert(chosen@ == app_name(None, hostname));
            Ok(chosen)
        },
    }
}

/// The lines shown around the browser; the browser is opened between the
/// first and the last unless asked not to.
pub fn prompt_browser(local_url: &str, no_browser: bool) -> (r: Vec<String>)
    ensures
        text::texts(r@) == if no_browser {
            seq![
                "Open this URL to create the GitHub App: "@ + local_url@,
                "(--no-browser set: not launching a browser; open the URL above yourself)"@,
                "Waiting for the browser to finish creating the GitHub App…"@,
            ]
        } else {
            seq![
                "Open this URL to create the GitHub App: "@ + local_url@,
                "Waiting for the browser to finish creating the GitHub App…"@,
            ]
        },
{
    let mut lines: Vec<String> = Vec::new();
    let first = text::cat2("Open this URL to create the GitHub App: ", local_url);
    lines.push(first);
    if no_browser {
        lines.push(
            "(--no-browser set: not launching a browser; open the URL above yourself)".to_owned(),
        );
    }
    lines.push("Waiting for the browser to finish creating the GitHub App…".to_owned());
    proof {
        if no_browser {
            assert(text::texts(lines@) =~= seq![
                first@,
                "(--no-browser set: not launching a browser; open the URL above yourself)"@,
                "Waiting for the browser to finish creating the GitHub App…"@,
            ]);
        } else {
            assert(text::texts(lines@) =~= seq![
                first@,
                "Waiting for the browser to finish creating the GitHub App…"@,
            ]);
        }
    }
    lines
}

/// The credentials of a new App, as the service sends them.
#[derive(Debug)]
pub struct ConversionResponse {
    pub id: u64,
    pub slug: String,
    pub owner_login: String,
    pub client_id: String,
    pub client_secret: String,
    pub webhook_secret: Option<String>,
    pub pem: String,
    pub html_url: String,
}

/// A saved App.
#[derive(Debug)]
pub struct StoredApp {
    pub host: String,
    pub app_id: u64,
    pub slug: String,
    pub owner: String,
    pub client_id: String,
    pub client_secret: String,
    pub webhook_secret: Option<String>,
    pub pem: String,
    pub html_url: String,
    pub created_at: String,
}

/// The App to save, created now.
pub fn build_stored_app(resp: ConversionResponse, host: String) -> (r: StoredApp)
    ensures
        r.host == host,
        r.app_id == resp.id,
        r.slug == resp.slug,
        r.owner == resp.owner_login,
        r.client_id == resp.client_id,
        r.client_secret == resp.client_secret,
        r.webhook_secret == resp.webhook_secret,
        r.pem == resp.pem,
        r.html_url == resp.html_url,
        exists|reading: Option<(u64, u32)>| r.created_at@ == #[trigger] stamp::rfc3339(reading),
{
    let created_at = stamp::rfc3339_now();
    StoredApp {
        host,
        app_id: resp.id,
        slug: resp.slug,
        owner: resp.owner_login,
        client_id: resp.client_id,
        client_secret: resp.client_secret,
        webhook_secret: resp.webhook_secret,
        pem: resp.pem,
        html_url: resp.html_url,
        created_at,
    }
}

/// An App is created exactly for github.com, and over a saved one only when
/// forced; the host is looked at first.
pub proof fn law_saved_app_is_not_overwritten(
    host: &str,
    path: &str,
    saved: bool,
    force: bool,
    r: Result<(), String>,
)
    requires
        call_ensures(guard_create_app, (host, path, saved, force), r),
    ensures
        r is Ok <==> host@ == "github.com"@ && (!saved || force),
        host@ != "github.com"@ ==> (r matches Err(msg) && msg@ == unsupported_host(host@)),
        host@ == "github.com"@ && saved && !force ==> (r matches Err(msg) && msg@ == existing_app(
            path@,
        )),
{
}

/// The App gets the name asked for; without one, a name made from the
/// machine's. It is refused as the guards refuse it.
pub proof fn law_app_name_asked_for(
    name: Option<String>,
    host: &str,
    path: &str,
    saved: bool,
    force: bool,
    r: Result<String, String>,
)
    requires
        call_ensures(cmd_create_app, (name, host, path, saved, force), r),
    ensures
        r is Ok <==> host@ == "github.com"@ && (!saved || force),
        r matches Ok(chosen) ==> (name matches Some(n) ==> chosen@ == n@),
        r matches Ok(chosen) ==> (name is None ==> "toolu-runner-"@.is_prefix_of(chosen@)),
        forall|h: String| #[trigger] app_name(None, Some(h)) == "toolu-runner-"@ + h@,
{
    if r is Ok && name is None {
        let chosen = r->Ok_0@;
        let h = choose|hostname: Option<String>| chosen == #[trigger] app_name(name, hostname);
        assert("toolu-runner-"@ =~= chosen.subrange(0, "toolu-runner-"@.len() as int));
    }
}

/// The address is always shown first; a note says when no browser is opened.
pub proof fn law_address_is_shown(local_url: &str, no_browser: bool, r: Vec<String>)
    requires
        call_ensures(prompt_browser, (local_url, no_browser), r),
    ensures
        r@.len() == if no_browser {
            3int
        } else {
            2int
        },
        r@[0]@ == "Open this URL to create the GitHub App: "@ + local_url@,
        r@[r@.len() - 1]@ == "Waiting for the browser to finish creating the GitHub App…"@,
{
    text::law_texts_are_those_of_the_strings(r@, None);
    assert(text::texts(r@)[0] == r@[0]@);
    assert(text::texts(r@)[r@.len() - 1] == r@[r@.len() - 1]@);
}

/// The saved App is what the service sent, under the host it is for.
pub proof fn law_saved_app_is_what_was_sent(resp: ConversionResponse, host: String, r: StoredApp)
    requires
        call_ensures(build_stored_app, (resp, host), r),
    ensures
        r.host@ == host@,
        r.app_id == resp.id,
        r.slug@ == resp.slug@,
        r.owner@ == resp.owner_login@,
        r.client_id@ == resp.client_id@,
        r.client_secret@ == resp.client_secret@,
        r.webhook_secret == resp.webhook_secret,
        r.pem@ == resp.pem@,
        r.html_url@ == resp.html_url@,
{
}

/// The refusals name the host and the saved App, and the way out.
pub proof fn law_refusals_name_host_and_app(host: &str, path: &str, foreign: String, saved: String)
    requires
        call_ensures(unsupported_host_error, (host,), foreign),
        call_ensures(existing_app_error, (path,), saved),
    ensures
        foreign@ == "--host '"@ + host@
            + "' is not supported yet — `create-app` targets github.com only this release (GHES and organization-owned Apps come later); re-run without --host, or with --host github.com"@,
        saved@ == "a GitHub App is already saved at "@ + path@ + " — pass --force to overwrite it"@,
{
}

} // verus!
