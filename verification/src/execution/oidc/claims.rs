//! The claims of a job's identity token.

use vstd::prelude::*;

use crate::outside::{clock, random};
use crate::stamp;
use crate::text;

verus! {

/// How long a token is valid, in seconds.
pub const TOKEN_LIFETIME_SECS: u64 = 600;

/// How tokens are made.
#[derive(Debug)]
pub enum OidcMode {
    /// Requests are passed on to GitHub's provider.
    GitHub { upstream_url: String },
    /// Tokens are signed here.
    Local { signing_key: Vec<u8>, issuer_url: String },
}

/// Configuration of the token service.
#[derive(Debug)]
pub struct OidcConfig {
    pub mode: OidcMode,
}

impl OidcConfig {
    /// Requests are passed on.
    pub fn github(upstream_url: String) -> (r: OidcConfig)
        ensures
            r.mode == (OidcMode::GitHub { upstream_url }),
    {
        OidcConfig { mode: OidcMode::GitHub { upstream_url } }
    }

    /// Tokens are signed here.
    pub fn local(signing_key: Vec<u8>, issuer_url: String) -> (r: OidcConfig)
        ensures
            r.mode == (OidcMode::Local { signing_key, issuer_url }),
    {
        OidcConfig { mode: OidcMode::Local { signing_key, issuer_url } }
    }
}

/// What the claims say of a job.
#[derive(Debug)]
pub struct OidcJobContext {
    pub repository: String,
    pub repository_owner: String,
    pub actor: String,
    pub event_name: String,
    pub git_ref: String,
    pub sha: String,
    pub workflow: String,
    pub run_id: String,
    pub run_number: String,
    pub run_attempt: String,
}

/// What claims are made of.
#[derive(Debug)]
pub struct OidcClaimsParams<'a> {
    pub issuer: &'a str,
    pub subject: &'a str,
    pub audience: Option<&'a str>,
    pub repository: &'a str,
    pub repository_owner: &'a str,
    pub actor: &'a str,
    pub event_name: &'a str,
    pub git_ref: &'a str,
    pub sha: &'a str,
    pub workflow: &'a str,
    pub run_id: &'a str,
    pub run_number: &'a str,
    pub run_attempt: &'a str,
}

/// The claims of a token. `git_ref` is written `ref` in the token.
#[derive(Debug, Clone)]
pub struct OidcClaims {
    pub iss: String,
    pub sub: String,
    pub aud: String,
    pub exp: u64,
    pub nbf: u64,
    pub iat: u64,
    pub jti: String,
    pub repository: String,
    pub repository_owner: String,
    pub actor: String,
    pub event_name: String,
    pub git_ref: String,
    pub sha: String,
    pub workflow: String,
    pub run_id: String,
    pub run_number: String,
    pub run_attempt: String,
}

/// The claims of a token, as texts.
pub struct OidcClaimsView {
    pub iss: Seq<char>,
    pub sub: Seq<char>,
    pub aud: Seq<char>,
    pub exp: nat,
    pub nbf: nat,
    pub iat: nat,
    pub jti: Seq<char>,
    pub repository: Seq<char>,
    pub repository_owner: Seq<char>,
    pub actor: Seq<char>,
    pub event_name: Seq<char>,
    pub git_ref: Seq<char>,
    pub sha: Seq<char>,
    pub workflow: Seq<char>,
    pub run_id: Seq<char>,
    pub run_number: Seq<char>,
    pub run_attempt: Seq<char>,
}

impl View for OidcClaims {
    type V = OidcClaimsView;

    open spec fn view(&self) -> OidcClaimsView {
        OidcClaimsView {
            iss: self.iss@,
            sub: self.sub@,
            aud: self.aud@,
            exp: self.exp as nat,
            nbf: self.nbf as nat,
            iat: self.iat as nat,
            jti: self.jti@,
            repository: self.repository@,
            repository_owner: self.repository_owner@,
            actor: self.actor@,
            event_name: self.event_name@,
            git_ref: self.git_ref@,
            sha: self.sha@,
            workflow: self.workflow@,
            run_id: self.run_id@,
            run_number: self.run_number@,
            run_attempt: self.run_attempt@,
        }
    }
}

/// The audience of a token for which none is asked.
pub open spec fn default_audience() -> Seq<char> {
    "api://AzureADTokenExchange"@
}

/// When a token made at `now` expires, in seconds since 1970: after its
/// lifetime, or with the last second that can be written.
pub open spec fn expiry(now: u64) -> nat {
    if now + TOKEN_LIFETIME_SECS <= u64::MAX {
        (now + TOKEN_LIFETIME_SECS) as nat
    } else {
        u64::MAX as nat
    }
}

/// The claims of a token made at `now` under the id `jti`.
pub open spec fn claims(p: OidcClaimsParams, now: u64, jti: Seq<char>) -> OidcClaimsView {
    OidcClaimsView {
        iss: p.issuer@,
        sub: p.subject@,
        aud: match p.audience {
            Some(a) => a@,
            None => default_audience(),
        },
        exp: expiry(now),
        nbf: now as nat,
        iat: now as nat,
        jti,
        repository: p.repository@,
        repository_owner: p.repository_owner@,
        actor: p.actor@,
        event_name: p.event_name@,
        git_ref: p.git_ref@,
        sha: p.sha@,
        workflow: p.workflow@,
        run_id: p.run_id@,
        run_number: p.run_number@,
        run_attempt: p.run_attempt@,
    }
}

impl OidcClaims {
    /// The claims of a token made at `now`, in seconds since 1970, under the
    /// id `jti`.
    pub fn at(params: &OidcClaimsParams<'_>, now: u64, jti: String) -> (r: OidcClaims)
        ensures
            r@ == claims(*params, now, jti@),
    {
        let aud: &str = match params.audience {
            Some(a) => a,
            None => "api://AzureADTokenExchange",
        };
        let exp: u64 = if now <= u64::MAX - TOKEN_LIFETIME_SECS {
            now + TOKEN_LIFETIME_SECS
        } else {
            u64::MAX
        };
        OidcClaims {
            iss: params.issuer.to_owned(),
            sub: params.subject.to_owned(),
            aud: aud.to_owned(),
            exp,
            nbf: now,
            iat: now,
            jti,
            repository: params.repository.to_owned(),
            repository_owner: params.repository_owner.to_owned(),
            actor: params.actor.to_owned(),
            event_name: params.event_name.to_owned(),
            git_ref: params.git_ref.to_owned(),
            sha: params.sha.to_owned(),
            workflow: params.workflow.to_owned(),
            run_id: params.run_id.to_owned(),
            run_number: params.run_number.to_owned(),
            run_attempt: params.run_attempt.to_owned(),
        }
    }

    /// The claims of a token made now under a fresh id. A clock set before
    /// 1970 counts as 1970.
    pub fn new(params: &OidcClaimsParams<'_>) -> (r: OidcClaims)
        ensures
            r@ == claims(*params, r.iat, r.jti@),
            random::random_id(r.jti@),
    {
        let now: u64 = stamp::epoch_secs(clock::since_epoch());
        OidcClaims::at(params, now, random::uuid_v4())
    }
}

/// A token is valid from the moment it is made, and for its lifetime.
pub proof fn law_token_lifetime(p: OidcClaimsParams, now: u64, jti: Seq<char>)
    requires
        now + TOKEN_LIFETIME_SECS <= u64::MAX,
    ensures
        claims(p, now, jti).nbf == claims(p, now, jti).iat,
        claims(p, now, jti).exp == claims(p, now, jti).iat + 600,
{
}

/// The claims say of a job what its context says, each under its own name;
/// the audience asked for is used, and the default one only without it.
pub proof fn law_claims_say_what_the_context_says(
    p: OidcClaimsParams<'_>,
    now: u64,
    jti: String,
    r: OidcClaims,
)
    requires
        call_ensures(OidcClaims::at, (&p, now, jti), r),
    ensures
        r.iss@ == p.issuer@,
        r.sub@ == p.subject@,
        p.audience matches Some(a) ==> r.aud@ == a@,
        p.audience is None ==> r.aud@ == "api://AzureADTokenExchange"@,
        r.iat == now && r.nbf == now,
        now <= 0xFFFF_FFFF_FFFF_FDA7 ==> r.exp == now + 600,
        now > 0xFFFF_FFFF_FFFF_FDA7 ==> r.exp == 0xFFFF_FFFF_FFFF_FFFF,
        r.jti@ == jti@,
        r.repository@ == p.repository@,
        r.repository_owner@ == p.repository_owner@,
        r.actor@ == p.actor@,
        r.event_name@ == p.event_name@,
        r.git_ref@ == p.git_ref@,
        r.sha@ == p.sha@,
        r.workflow@ == p.workflow@,
        r.run_id@ == p.run_id@,
        r.run_number@ == p.run_number@,
        r.run_attempt@ == p.run_attempt@,
{
}

/// The same holds of a token made now, and it is valid from when it is made.
pub proof fn law_fresh_claims_say_what_the_context_says(p: OidcClaimsParams<'_>, r: OidcClaims)
    requires
        call_ensures(OidcClaims::new, (&p,), r),
    ensures
        r.iss@ == p.issuer@,
        r.sub@ == p.subject@,
        p.audience matches Some(a) ==> r.aud@ == a@,
        p.audience is None ==> r.aud@ == "api://AzureADTokenExchange"@,
        r.nbf == r.iat,
        r.exp >= r.iat,
        r.repository@ == p.repository@,
        r.repository_owner@ == p.repository_owner@,
        r.actor@ == p.actor@,
        r.event_name@ == p.event_name@,
        r.git_ref@ == p.git_ref@,
        r.sha@ == p.sha@,
        r.workflow@ == p.workflow@,
        r.run_id@ == p.run_id@,
        r.run_number@ == p.run_number@,
        r.run_attempt@ == p.run_attempt@,
{
}

/// A configuration passes requests on to the address given, or signs tokens
/// with the key given.
pub proof fn law_token_service_configurations(
    upstream: String,
    key: Vec<u8>,
    issuer: String,
    passing: OidcConfig,
    signing: OidcConfig,
)
    requires
        call_ensures(OidcConfig::github, (upstream,), passing),
        call_ensures(OidcConfig::local, (key, issuer), signing),
    ensures
        passing.mode matches OidcMode::GitHub { upstream_url } && upstream_url@ == upstream@,
        signing.mode matches OidcMode::Local { signing_key, issuer_url } && signing_key@ == key@
            && issuer_url@ == issuer@,
{
}

} // verus!
