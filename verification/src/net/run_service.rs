//! The run service: acquiring, renewing and completing a job.
//!
//! The caller sends the request and hands over what came back; the
//! functions here name the address and turn the reply into a result.

use vstd::prelude::*;

use crate::error::{RunnerError, RunnerErrorView};
use crate::outside::http;
use crate::text;

verus! {

/// What came back for a request: nothing, or a status and a body that may
/// not have parsed.
pub enum Reply<B> {
    /// The request could not be sent.
    Unsent(String),
    /// The service answered.
    Answered { status: u16, body: Result<B, String> },
}

/// The headers of the reply to an acquire request.
pub struct AcquireHeaders {
    /// `x-plan-id`, if present as text.
    pub plan_id: Option<String>,
    /// `x-actions-results-token`, if present as text.
    pub results_token: Option<String>,
}

/// An acquired job.
pub struct AcquireJobResponse<B> {
    pub plan_id: String,
    pub body: B,
    pub run_service_token: Option<String>,
}

/// Whether a status is in the 200 range.
pub open spec fn is_success(status: u16) -> bool {
    200 <= status < 300
}

/// How a status is shown. A number that is no status code is shown bare.
pub open spec fn shown_status(status: u16) -> Seq<char> {
    match http::status_line(status) {
        Some(line) => line,
        None => crate::number::decimal(status as nat),
    }
}

/// The outcome of a request, before its body is looked at.
pub open spec fn reply_failure<B>(what: Seq<char>, reply: Reply<B>) -> Option<RunnerErrorView> {
    match reply {
        Reply::Unsent(cause) => Some(RunnerErrorView::Protocol(what + " failed: "@ + cause@)),
        Reply::Answered { status, .. } => if is_success(status) {
            None
        } else {
            Some(
                RunnerErrorView::Protocol(
                    what + " status "@ + shown_status(status) + ": see debug log"@,
                ),
            )
        },
    }
}

/// How a status is shown.
pub fn show_status(status: u16) -> (r: String)
    ensures
        r@ == shown_status(status),
{
    match http::status_line_of(status) {
        Some(line) => line,
        None => crate::number::show_u64(status as u64),
    }
}

/// The body of a reply, or why there is none.
fn body_of<B>(what: &str, reply: Reply<B>) -> (r: Result<Result<B, String>, RunnerError>)
    ensures
        match r {
            Ok(body) => {
                &&& reply_failure(what@, reply) is None
                &&& reply matches Reply::Answered { body: b, .. } && b == body
            },
            Err(e) => reply_failure(what@, reply) == Some(e@),
        },
{
    match reply {
        Reply::Unsent(cause) => Err(
            RunnerError::Protocol(text::cat3(what, " failed: ", cause.as_str())),
        ),
        Reply::Answered { status, body } => if 200 <= status && status < 300 {
            Ok(body)
        } else {
            let shown = show_status(status);
            Err(
                RunnerError::Protocol(
                    text::cat4(what, " status ", shown.as_str(), ": see debug log"),
                ),
            )
        },
    }
}

/// The address for acquiring a job.
pub fn acquire_url(run_service_url: &str) -> (r: String)
    ensures
        r@ == run_service_url@ + "/acquirejob"@,
{
    text::cat2(run_service_url, "/acquirejob")
}

/// How many seconds pass between two renewals of a job's lock.
pub const RENEW_INTERVAL_SECS: u64 = 60;

/// The address for renewing a job's lock.
pub fn renew_url(run_service_url: &str) -> (r: String)
    ensures
        r@ == run_service_url@ + "/renewjob"@,
{
    text::cat2(run_service_url, "/renewjob")
}

/// The address for completing a job.
pub fn complete_url(run_service_url: &str) -> (r: String)
    ensures
        r@ == run_service_url@ + "/completejob"@,
{
    text::cat2(run_service_url, "/completejob")
}

/// The text of an optional string, empty when there is none.
pub open spec fn or_empty(o: Option<String>) -> Seq<char> {
    match o {
        Some(s) => s@,
        None => Seq::empty(),
    }
}

/// Takes the reply to an acquire request. A missing plan id is empty, and a
/// missing results token stays missing.
pub fn acquire_job<B>(reply: Reply<B>, headers: AcquireHeaders) -> (r: Result<
    AcquireJobResponse<B>,
    RunnerError,
>)
    ensures
        match r {
            Ok(acquired) => {
                &&& reply_failure("acquire job"@, reply) is None
                &&& reply matches Reply::Answered { body: b, .. } && b == Ok::<B, String>(
                    acquired.body,
                )
                &&& acquired.plan_id@ == or_empty(headers.plan_id)
                &&& acquired.run_service_token == headers.results_token
            },
            Err(e) => match reply_failure("acquire job"@, reply) {
                Some(failure) => e@ == failure,
                None => reply matches Reply::Answered { body: Err(cause), .. } && e@
                    == RunnerErrorView::Protocol("acquire job parse: "@ + cause@),
            },
        },
{
    match body_of("acquire job", reply) {
        Err(e) => Err(e),
        Ok(Err(cause)) => Err(
            RunnerError::Protocol(text::cat2("acquire job parse: ", cause.as_str())),
        ),
        Ok(Ok(body)) => {
            let plan_id: String = match headers.plan_id {
                Some(id) => id,
                None => {
                    let none = String::new();
                    assert(none@ =~= Seq::<char>::empty());
                    none
                },
            };
            Ok(AcquireJobResponse { plan_id, body, run_service_token: headers.results_token })
        },
    }
}

/// Takes the reply to a renew request.
pub fn renew_job<B>(reply: Reply<B>) -> (r: Result<B, RunnerError>)
    ensures
        match r {
            Ok(renewed) => {
                &&& reply_failure("renew job"@, reply) is None
                &&& reply matches Reply::Answered { body: b, .. } && b == Ok::<B, String>(renewed)
            },
            Err(e) => match reply_failure("renew job"@, reply) {
                Some(failure) => e@ == failure,
                None => reply matches Reply::Answered { body: Err(cause), .. } && e@
                    == RunnerErrorView::Protocol("renew job parse: "@ + cause@),
            },
        },
{
    match body_of("renew job", reply) {
        Err(e) => Err(e),
        Ok(Err(cause)) => Err(
            RunnerError::Protocol(text::cat2("renew job parse: ", cause.as_str())),
        ),
        Ok(Ok(body)) => Ok(body),
    }
}

/// Takes the reply to a complete request; its body carries nothing.
pub fn complete_job(reply: Reply<()>) -> (r: Result<(), RunnerError>)
    ensures
        match r {
            Ok(_) => reply_failure("complete job"@, reply) is None,
            Err(e) => reply_failure("complete job"@, reply) == Some(e@),
        },
{
    match body_of("complete job", reply) {
        Err(e) => Err(e),
        Ok(_) => Ok(()),
    }
}

/// A reply counts exactly when its status is between 200 and 299.
pub proof fn law_success_is_the_two_hundreds(status: u16)
    ensures
        is_success(status) <==> 200 <= status <= 299,
{
}

/// The three addresses differ by their last segment.
pub proof fn law_service_addresses(
    url: &str,
    acquire: String,
    renew: String,
    complete: String,
)
    requires
        call_ensures(acquire_url, (url,), acquire),
        call_ensures(renew_url, (url,), renew),
        call_ensures(complete_url, (url,), complete),
    ensures
        acquire@ == url@ + "/acquirejob"@,
        renew@ == url@ + "/renewjob"@,
        complete@ == url@ + "/completejob"@,
{
}

/// A job is acquired exactly when the service answered with success and a
/// body that parses; it has that body, the plan of the headers, empty when
/// there is none, and the token of the headers.
pub proof fn law_job_is_acquired_from_a_good_reply<B>(
    reply: Reply<B>,
    headers: AcquireHeaders,
    r: Result<AcquireJobResponse<B>, RunnerError>,
)
    requires
        call_ensures(acquire_job::<B>, (reply, headers), r),
    ensures
        r is Ok <==> (reply matches Reply::Answered { status, body } && 200 <= status <= 299
            && body is Ok),
        r matches Ok(job) ==> (reply matches Reply::Answered { body, .. } && body == Ok::<B, String>(
            job.body,
        )),
        r matches Ok(job) ==> (headers.plan_id matches Some(p) ==> job.plan_id@ == p@),
        r matches Ok(job) ==> (headers.plan_id is None ==> job.plan_id@.len() == 0),
        r matches Ok(job) ==> job.run_service_token == headers.results_token,
        reply matches Reply::Unsent(cause) ==> (r matches Err(e) && e@ == RunnerErrorView::Protocol(
            "acquire job"@ + " failed: "@ + cause@,
        )),
        reply matches Reply::Answered { status, .. } ==> (!(200 <= status <= 299) ==> (r matches Err(e)
            && e@ == RunnerErrorView::Protocol(
            "acquire job"@ + " status "@ + shown_status(status) + ": see debug log"@,
        ))),
{
}

/// A lock is renewed exactly when the service answered with success and a body
/// that parses; completing looks at the status alone.
pub proof fn law_renewal_and_completion<B>(
    reply: Reply<B>,
    plain: Reply<()>,
    renewed: Result<B, RunnerError>,
    completed: Result<(), RunnerError>,
)
    requires
        call_ensures(renew_job::<B>, (reply,), renewed),
        call_ensures(complete_job, (plain,), completed),
    ensures
        renewed is Ok <==> (reply matches Reply::Answered { status, body } && 200 <= status <= 299
            && body is Ok),
        renewed matches Ok(b) ==> (reply matches Reply::Answered { body, .. } && body == Ok::<
            B,
            String,
        >(b)),
        completed is Ok <==> (plain matches Reply::Answered { status, .. } && 200 <= status <= 299),
        plain matches Reply::Unsent(cause) ==> (completed matches Err(e) && e@
            == RunnerErrorView::Protocol("complete job"@ + " failed: "@ + cause@)),
{
}

/// A status is shown with its reason when it has one, and bare otherwise.
pub proof fn law_status_is_shown(status: u16, r: String)
    requires
        call_ensures(show_status, (status,), r),
    ensures
        http::status_line(status) matches Some(line) ==> r@ == line,
        http::status_line(status) is None ==> r@ == crate::number::decimal(status as nat),
{
}

} // verus!
