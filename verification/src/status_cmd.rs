//! Reporting the local state of a registration.

use vstd::prelude::*;

use crate::number;
use crate::outside::debug;
use crate::register_cmd::RunnerRegistrationConfig;
use crate::text;

verus! {

/// Where login tokens are kept.
#[derive(Debug, Clone, Copy, PartialEq, Eq, Structural)]
pub enum TokenStore {
    File,
    Keyring,
}

/// How a token store is described.
pub open spec fn store_text(store: TokenStore) -> Seq<char> {
    match store {
        TokenStore::File => "0600 file (default; set TOOLU_RUNNER_KEYRING=1 for the OS keyring)"@,
        TokenStore::Keyring => "OS keyring (TOOLU_RUNNER_KEYRING opt-in)"@,
    }
}

/// The texts, each quoted.
pub open spec fn quoted_all(items: Seq<Seq<char>>) -> Seq<Seq<char>> {
    items.map_values(|s: Seq<char>| debug::debug_quoted(s))
}

/// A list of texts as `{:?}` shows it.
pub open spec fn debug_list(items: Seq<Seq<char>>) -> Seq<char> {
    "["@ + text::joined(quoted_all(items), ", "@) + "]"@
}

/// A list of texts as `{:?}` shows it.
pub fn show_list(items: &Vec<String>) -> (r: String)
    ensures
        r@ == debug_list(text::texts(items@)),
{
    let ghost all = quoted_all(text::texts(items@));
    let mut quoted: Vec<String> = Vec::new();
    let mut i: usize = 0;
    while i < items.len()
        invariant
            i <= items@.len(),
            all == quoted_all(text::texts(items@)),
            text::texts(quoted@) == all.take(i as int),
        decreases items@.len() - i,
    {
        let ghost before = text::texts(quoted@);
        let q = debug::quoted(items[i].as_str());
        quoted.push(q);
        proof {
            assert(text::texts(quoted@) =~= before.push(q@));
            assert(all.take(i + 1) =~= all.take(i as int).push(q@));
        }
        i = i + 1;
    }
    assert(all.take(all.len() as int) =~= all);
    let inner = text::join(&quoted, ", ");
    text::cat3("[", inner.as_str(), "]")
}

/// The refusal when there is no registration.
pub fn config_not_found(config_path: &str) -> (r: String)
    ensures
        r@ == "config not found at "@ + config_path@,
{
    text::cat2("config not found at ", config_path)
}

/// The login line.
pub open spec fn login_line(host: Seq<char>, scope: Option<Seq<char>>) -> Seq<char> {
    match scope {
        Some(s) => "login:     logged in to "@ + host + " (scopes: "@ + s + ")"@,
        None => "login:     not logged in to "@ + host
            + " — run `toolu-runner login`; a login stored in the OS keyring by an older version is only read with TOOLU_RUNNER_KEYRING=1"@,
    }
}

/// The lines of the report.
pub open spec fn report(
    cfg: RunnerRegistrationConfig,
    creds_found: bool,
    store: TokenStore,
    host: Seq<char>,
    scope: Option<Seq<char>>,
) -> Seq<Seq<char>> {
    seq![
        "runner:    "@ + cfg.runner_name@,
        "url:       "@ + cfg.runner_url@,
        "runner_id: "@ + number::signed_decimal(cfg.runner_id as int),
        "labels:    "@ + debug_list(text::texts(cfg.labels@)),
        "group:     "@ + cfg.runner_group@,
        "protocol:  "@ + cfg.runtime.protocol_version@,
        "data_dir:  "@ + cfg.runtime.data_dir@,
        "work_dir:  "@ + cfg.runtime.work_dir@,
        "jit_cfg:   "@ + number::decimal(vstd::utf8::encode_utf8(cfg.runtime.jit_config@).len())
            + " bytes"@,
        "creds:     "@ + if creds_found {
            "credentials present"@
        } else {
            "credentials MISSING"@
        },
        "tokens:    "@ + store_text(store),
        login_line(host, scope),
    ]
}

/// The report on a registration. `scope` is that of the stored login, if
/// there is one.
pub fn cmd_status(
    cfg: &RunnerRegistrationConfig,
    creds_found: bool,
    store: TokenStore,
    host: &str,
    scope: Option<&str>,
) -> (r: Vec<String>)
    ensures
        text::texts(r@) == report(*cfg, creds_found, store, host@, text::str_opt(scope)),
{
    let creds: &str = if creds_found {
        "credentials present"
    } else {
        "credentials MISSING"
    };
    let backend: &str = match store {
        TokenStore::File => "0600 file (default; set TOOLU_RUNNER_KEYRING=1 for the OS keyring)",
        TokenStore::Keyring => "OS keyring (TOOLU_RUNNER_KEYRING opt-in)",
    };
    let bytes: usize = cfg.runtime.jit_config.as_str().as_bytes().len();
    let login: String = match scope {
        Some(s) => text::cat5("login:     logged in to ", host, " (scopes: ", s, ")"),
        None => text::cat3(
            "login:     not logged in to ",
            host,
            " — run `toolu-runner login`; a login stored in the OS keyring by an older version is only read with TOOLU_RUNNER_KEYRING=1",
        ),
    };
    let mut lines: Vec<String> = Vec::new();
    lines.push(text::cat2("runner:    ", cfg.runner_name.as_str()));
    lines.push(text::cat2("url:       ", cfg.runner_url.as_str()));
    lines.push(text::cat2("runner_id: ", number::show_i64(cfg.runner_id).as_str()));
    lines.push(text::cat2("labels:    ", show_list(&cfg.labels).as_str()));
    lines.push(text::cat2("group:     ", cfg.runner_group.as_str()));
    lines.push(text::cat2("protocol:  ", cfg.runtime.protocol_version.as_str()));
    lines.push(text::cat2("data_dir:  ", cfg.runtime.data_dir.as_str()));
    lines.push(text::cat2("work_dir:  ", cfg.runtime.work_dir.as_str()));
    lines.push(text::cat3("jit_cfg:   ", number::show_usize(bytes).as_str(), " bytes"));
    lines.push(text::cat2("creds:     ", creds));
    lines.push(text::cat2("tokens:    ", backend));
    lines.push(login);
    assert(text::texts(lines@) =~= report(*cfg, creds_found, store, host@, text::str_opt(scope)));
    lines
}

/// The report has twelve lines, and each says what it is about: the runner,
/// its labels, whether the credentials are there, where tokens are kept, and
/// whether there is a login, with its scope.
pub proof fn law_report_says_what_is_there(
    cfg: RunnerRegistrationConfig,
    creds_found: bool,
    store: TokenStore,
    host: &str,
    scope: Option<&str>,
    r: Vec<String>,
)
    requires
        call_ensures(cmd_status, (&cfg, creds_found, store, host, scope), r),
    ensures
        r@.len() == 12,
        r@[0]@ == "runner:    "@ + cfg.runner_name@,
        r@[1]@ == "url:       "@ + cfg.runner_url@,
        r@[2]@ == "runner_id: "@ + number::signed_decimal(cfg.runner_id as int),
        r@[3]@ == "labels:    "@ + debug_list(text::texts(cfg.labels@)),
        r@[4]@ == "group:     "@ + cfg.runner_group@,
        r@[5]@ == "protocol:  "@ + cfg.runtime.protocol_version@,
        r@[6]@ == "data_dir:  "@ + cfg.runtime.data_dir@,
        r@[7]@ == "work_dir:  "@ + cfg.runtime.work_dir@,
        r@[8]@ == "jit_cfg:   "@ + number::decimal(
            vstd::utf8::encode_utf8(cfg.runtime.jit_config@).len(),
        ) + " bytes"@,
        creds_found ==> r@[9]@ == "creds:     "@ + "credentials present"@,
        !creds_found ==> r@[9]@ == "creds:     "@ + "credentials MISSING"@,
        store == TokenStore::Keyring ==> r@[10]@ == "tokens:    "@
            + "OS keyring (TOOLU_RUNNER_KEYRING opt-in)"@,
        store == TokenStore::File ==> r@[10]@ == "tokens:    "@
            + "0600 file (default; set TOOLU_RUNNER_KEYRING=1 for the OS keyring)"@,
        scope matches Some(s) ==> r@[11]@ == "login:     logged in to "@ + host@ + " (scopes: "@ + s@
            + ")"@,
        scope is None ==> ("login:     not logged in to "@ + host@).is_prefix_of(r@[11]@),
{
    text::law_texts_are_those_of_the_strings(r@, None);
    let t = text::texts(r@);
    assert(t[0] == r@[0]@ && t[1] == r@[1]@ && t[2] == r@[2]@ && t[3] == r@[3]@);
    assert(t[4] == r@[4]@ && t[5] == r@[5]@ && t[6] == r@[6]@ && t[7] == r@[7]@);
    assert(t[8] == r@[8]@ && t[9] == r@[9]@ && t[10] == r@[10]@ && t[11] == r@[11]@);
    if scope is None {
        let head = "login:     not logged in to "@ + host@;
        assert(head =~= t[11].subrange(0, head.len() as int));
    }
}

/// A list is shown between brackets, each text quoted, with a comma and a
/// blank between neighbours.
pub proof fn law_list_is_shown_in_order(items: Seq<Seq<char>>, last: Seq<char>)
    requires
        items.len() > 0,
    ensures
        debug_list(seq![last]) == "["@ + debug::debug_quoted(last) + "]"@,
        debug_list(items.push(last)) == "["@ + (text::joined(quoted_all(items), ", "@) + ", "@
            + debug::debug_quoted(last)) + "]"@,
        quoted_all(items).len() == items.len(),
        forall|i: int|
            0 <= i < items.len() ==> #[trigger] quoted_all(items)[i] == debug::debug_quoted(items[i]),
{
    text::law_join_separates_neighbours(quoted_all(items), debug::debug_quoted(last), ", "@);
    assert(quoted_all(items.push(last)) =~= quoted_all(items).push(debug::debug_quoted(last)));
    assert(quoted_all(seq![last]) =~= seq![debug::debug_quoted(last)]);
}

} // verus!
