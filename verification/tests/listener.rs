//! Polling, running and reporting jobs.

use toolu_runner::error::RunnerError;
use toolu_runner::listener::execution_loop::{
    results_url, spawn_step_uploader, Forward, ForwardEvent, ForwarderState, FwdConfig, LiveSend,
};
use toolu_runner::listener::job_lifecycle::{
    body_parse_error, classify_message, decrypted_body, diagnose_missing_token, plan_body,
    poll_once, token_or, unparsed_job, Authorization, BodyPlan, BrokerMessage, CancelWatch,
    Endpoint, JobOutcome, JobSession, MessageRoute, Phase, PollLoop, PollOutcome, PollReply,
    PollStep, RunnerJobRequestBody, WatchStep,
};
use toolu_runner::listener::log_uploader::{StepLogStreamer, CHANNEL_CAPACITY};
use toolu_runner::net::run_service::{
    acquire_job, acquire_url, complete_job, complete_url, renew_job, renew_url, show_status,
    AcquireHeaders, Reply,
};
use toolu_runner::types::Conclusion;

fn message(id: i64) -> BrokerMessage {
    BrokerMessage {
        message_id: id,
        message_type: "RunnerJobRequest".to_owned(),
        body: "{}".to_owned(),
        iv: None,
    }
}

fn offline() -> RunnerError {
    RunnerError::Network("offline".to_owned())
}

#[test]
fn messages_are_classified_by_their_route() {
    assert!(matches!(
        classify_message(message(1), MessageRoute::AcquireJob, None),
        PollOutcome::Job(m) if m.message_id == 1
    ));
    assert!(matches!(
        classify_message(message(2), MessageRoute::Migrate, Some("https://b".to_owned())),
        PollOutcome::Migrated { url, message_id: 2 } if url == "https://b"
    ));
    assert!(matches!(
        classify_message(message(3), MessageRoute::Cancel, Some("job".to_owned())),
        PollOutcome::Cancel { msg, job_id } if msg.message_id == 3 && job_id == "job"
    ));
    assert!(matches!(
        classify_message(message(4), MessageRoute::Migrate, None),
        PollOutcome::Skip { message_id: 4 }
    ));
    assert!(matches!(
        classify_message(message(5), MessageRoute::Cancel, None),
        PollOutcome::Skip { message_id: 5 }
    ));
}

#[test]
fn polls_are_classified() {
    assert!(matches!(poll_once(PollReply::Cancelled), PollOutcome::Cancelled));
    assert!(matches!(poll_once(PollReply::Empty), PollOutcome::NoWork));
    assert!(matches!(
        poll_once(PollReply::Undecryptable { message_id: 9 }),
        PollOutcome::Skip { message_id: 9 }
    ));
    assert!(matches!(poll_once(PollReply::Failed(offline())), PollOutcome::NetworkError(_)));
}

#[test]
fn the_cursor_follows_every_message() {
    let mut l = PollLoop::new("https://broker".to_owned());
    assert_eq!(l.last_message_id, 0);
    assert!(matches!(l.poll_until_job(PollOutcome::NoWork), PollStep::Again));
    assert_eq!(l.last_message_id, 0);
    assert!(matches!(l.poll_until_job(PollOutcome::Skip { message_id: 7 }), PollStep::Again));
    assert_eq!(l.last_message_id, 7);
    let step = l.poll_until_job(PollOutcome::Migrated { url: "https://other".to_owned(), message_id: 8 });
    assert!(matches!(step, PollStep::Again));
    assert_eq!((l.last_message_id, l.broker_url.as_str()), (8, "https://other"));
    assert!(matches!(l.poll_until_job(PollOutcome::Job(message(9))), PollStep::Job(m) if m.message_id == 9));
    assert_eq!(l.last_message_id, 9);
}

#[test]
fn poll_failures_back_off_and_recover() {
    let mut l = PollLoop::new("b".to_owned());
    assert!(matches!(l.poll_until_job(PollOutcome::NetworkError(offline())), PollStep::Backoff(_)));
    let wait = l.wait_us();
    assert!((500_000..1_000_000).contains(&wait));
    assert!(matches!(l.waited(false), PollStep::Again));
    assert_eq!(l.backoff_ms, 2_000);
    l.poll_until_job(PollOutcome::NoWork);
    assert_eq!(l.backoff_ms, 1_000);
    l.poll_until_job(PollOutcome::NetworkError(offline()));
    assert!(matches!(l.waited(true), PollStep::Stop));
}

#[test]
fn a_cancellation_ends_polling() {
    let mut l = PollLoop::new("b".to_owned());
    let step = l.poll_until_job(PollOutcome::Cancel { msg: message(3), job_id: "j".to_owned() });
    assert!(matches!(step, PollStep::CancelSession { job_id } if job_id == "j"));
    assert!(matches!(l.poll_until_job(PollOutcome::Cancelled), PollStep::Stop));
}

#[test]
fn a_running_job_is_cancelled_only_by_a_cancellation() {
    let mut w = CancelWatch::new();
    assert!(matches!(w.watch_step(PollOutcome::NoWork), WatchStep::Again));
    assert!(matches!(w.watch_step(PollOutcome::Job(message(4))), WatchStep::Again));
    assert_eq!(w.last_message_id, 4);
    assert!(matches!(w.watch_step(PollOutcome::NetworkError(offline())), WatchStep::Backoff(_)));
    assert!(matches!(w.waited(false), WatchStep::Again));
    assert_eq!(w.backoff_ms, 2_000);
    let step = w.watch_step(PollOutcome::Cancel { msg: message(5), job_id: "j".to_owned() });
    assert!(matches!(step, WatchStep::CancelJob { job_id } if job_id == "j"));
    let mut w = CancelWatch::new();
    assert!(matches!(w.watch_step(PollOutcome::Cancelled), WatchStep::Dormant));
    assert!(matches!(w.waited(true), WatchStep::Dormant));
}

#[test]
fn encrypted_bodies_need_an_iv() {
    assert!(matches!(plan_body(false, None), Ok(BodyPlan::Plain)));
    assert!(matches!(plan_body(true, Some("iv".to_owned())), Ok(BodyPlan::Decrypt { iv }) if iv == "iv"));
    assert_eq!(plan_body(true, None).err().unwrap().message(), "encrypted broker message missing iv");
}

#[test]
fn decrypted_bodies_are_text() {
    assert_eq!(decrypted_body("hé".as_bytes().to_vec()).ok(), Some("hé".to_owned()));
    let cause = String::from_utf8(vec![0xff]).err().unwrap().to_string();
    assert_eq!(
        decrypted_body(vec![0xff]).err().unwrap().message(),
        format!("decrypted broker body not UTF-8: {cause}")
    );
    assert_eq!(body_parse_error("migration", "eof").message(), "migration parse: eof");
}

#[test]
fn a_job_session_completes_what_it_acquired() {
    let mut s = JobSession::new("session");
    assert_eq!(s.phase(), Phase::Polling);
    let body = RunnerJobRequestBody {
        runner_request_id: "req".to_owned(),
        run_service_url: "https://run".to_owned(),
        billing_owner_id: Some("bill".to_owned()),
    };
    let request = s.job_arrived(Some(body), "linux").unwrap();
    assert_eq!(request.job_message_id, "req");
    assert_eq!(request.runner_os, "linux");
    assert_eq!(request.billing_owner_id, Some("bill".to_owned()));
    s.acquired("plan".to_owned(), None);
    let (acknowledge, complete) = s.ran(JobOutcome {
        conclusion: Conclusion::Success,
        job_id: "job".to_owned(),
        request_id: 5,
        step_results: vec![1, 2],
        job_token: Some("job token".to_owned()),
    });
    assert_eq!(acknowledge, "req");
    assert_eq!(
        (complete.plan_id.as_str(), complete.job_id.as_str(), complete.request_id),
        ("plan", "job", 5)
    );
    assert_eq!(complete.conclusion, Conclusion::Success);
    assert_eq!(complete.step_results, [1, 2]);
    assert_eq!(s.acknowledged(), ("https://run".to_owned(), "job token".to_owned()));
    s.finish();
    assert_eq!(s.phase(), Phase::Done);
}

#[test]
fn no_job_ends_the_session() {
    let mut s = JobSession::new("session");
    assert!(s.job_arrived(None, "linux").is_none());
    assert_eq!(s.phase(), Phase::Done);
}

#[test]
fn tokens_fall_back() {
    assert_eq!(token_or(&Some("a".to_owned()), "b"), "a");
    assert_eq!(token_or(&None, "b"), "b");
    let lost: JobOutcome<u8> = unparsed_job();
    assert_eq!(lost.conclusion, Conclusion::Failure);
    assert_eq!((lost.job_id.as_str(), lost.request_id), ("unknown", 0));
    assert!(lost.step_results.is_empty() && lost.job_token.is_none());
}

#[test]
fn a_missing_token_is_diagnosed() {
    let none = diagnose_missing_token(&vec![]);
    assert!(!none.endpoint_found);
    assert_eq!(none.auth_scheme, "<none>");
    let endpoints = vec![
        Endpoint { name: "other".to_owned(), authorization: None },
        Endpoint {
            name: "systemvssconnection".to_owned(),
            authorization: Some(Authorization {
                scheme: "OAuth".to_owned(),
                parameter_names: vec!["Other".to_owned()],
            }),
        },
    ];
    let found = diagnose_missing_token(&endpoints);
    assert!(found.endpoint_found);
    assert_eq!(found.auth_scheme, "OAuth");
    assert_eq!(found.auth_keys, ["Other"]);
}

#[test]
fn log_lines_reach_every_consumer() {
    let mut f = ForwarderState::new(vec!["setup".to_owned()], true, true);
    let log = |line: &str| ForwardEvent::Log { step_id: "s".to_owned(), masked: line.to_owned() };
    assert_eq!(f.handle_event(log("early")), Forward::SendLine { to_step: false, to_live: true });
    assert_eq!(
        f.handle_event(ForwardEvent::StepStarted { step_id: "s".to_owned() }),
        Forward::StartUpload
    );
    assert_eq!(f.handle_event(log("one")), Forward::SendLine { to_step: true, to_live: true });
    f.live_sent(LiveSend::Full);
    assert_eq!(f.handle_event(log("two")), Forward::SendLine { to_step: true, to_live: true });
    f.live_sent(LiveSend::Closed);
    assert_eq!(f.handle_event(log("three")), Forward::SendLine { to_step: true, to_live: false });
    assert_eq!(
        f.handle_event(ForwardEvent::StepCompleted { step_id: "s".to_owned() }),
        Forward::CloseUpload
    );
    assert_eq!(f.handle_event(log("four")), Forward::SendLine { to_step: false, to_live: false });
    assert_eq!(f.job_lines(), &["setup", "early", "one", "two", "three", "four"]);
    assert!(f.finalize_job_logs());
}

#[test]
fn the_conclusion_is_the_one_reported_last() {
    let mut f = ForwarderState::new(vec![], false, false);
    assert_eq!(f.final_conclusion(), Conclusion::Failure);
    assert_eq!(
        f.handle_event(ForwardEvent::StepStarted { step_id: "s".to_owned() }),
        Forward::Nothing
    );
    f.handle_event(ForwardEvent::JobCompleted { conclusion: Conclusion::Cancelled });
    f.handle_event(ForwardEvent::Other);
    assert_eq!(f.final_conclusion(), Conclusion::Cancelled);
    f.handle_event(ForwardEvent::JobCompleted { conclusion: Conclusion::Success });
    assert_eq!(f.final_conclusion(), Conclusion::Success);
    assert!(!f.finalize_job_logs());
}

#[test]
fn step_logs_are_kept_in_order() {
    assert_eq!(CHANNEL_CAPACITY, 4096);
    let mut s = StepLogStreamer::new();
    s.receive("a".to_owned());
    s.receive("b".to_owned());
    assert_eq!(s.finalize(), ["a", "b"]);
    assert_eq!(results_url(Some("https://results//")), Some("https://results".to_owned()));
    assert_eq!(results_url(None), None);
}

#[test]
fn step_logs_go_to_the_results_service() {
    let cfg = |url: Option<&str>| FwdConfig {
        results_url: url.map(str::to_owned),
        results_token: "t".to_owned(),
        run_backend_id: "run".to_owned(),
        job_backend_id: "job".to_owned(),
    };
    assert!(spawn_step_uploader(&cfg(None), "s", "n").is_none());
    let s = spawn_step_uploader(&cfg(Some("u")), "s", "n").unwrap();
    assert_eq!((s.results_url.as_str(), s.token.as_str()), ("u", "t"));
    assert_eq!((s.run_backend_id.as_str(), s.job_backend_id.as_str()), ("run", "job"));
    assert_eq!((s.step_backend_id.as_str(), s.step_name.as_str()), ("s", "n"));
}

#[test]
fn run_service_addresses() {
    assert_eq!(acquire_url("https://run"), "https://run/acquirejob");
    assert_eq!(renew_url("https://run"), "https://run/renewjob");
    assert_eq!(complete_url("https://run"), "https://run/completejob");
}

#[test]
fn run_service_failures_are_named() {
    let unsent: Reply<()> = Reply::Unsent("down".to_owned());
    assert_eq!(complete_job(unsent).err().unwrap().message(), "complete job failed: down");
    let refused = Reply::Answered { status: 404, body: Ok(()) };
    assert_eq!(
        complete_job(refused).err().unwrap().message(),
        "complete job status 404 Not Found: see debug log"
    );
    let garbled: Reply<u8> = Reply::Answered { status: 200, body: Err("eof".to_owned()) };
    assert_eq!(renew_job(garbled).err().unwrap().message(), "renew job parse: eof");
    assert_eq!(show_status(418), "418 I'm a teapot");
    assert_eq!(show_status(299), reqwest::StatusCode::from_u16(299).unwrap().to_string());
    assert_eq!(show_status(7), "7");
}

#[test]
fn acquiring_reads_the_headers() {
    let reply = Reply::Answered { status: 200, body: Ok(5) };
    let headers = AcquireHeaders { plan_id: Some("p".to_owned()), results_token: None };
    let job = acquire_job(reply, headers).ok().unwrap();
    assert_eq!((job.plan_id.as_str(), job.body, job.run_service_token), ("p", 5, None));
    let reply = Reply::Answered { status: 204, body: Ok(6) };
    let headers = AcquireHeaders { plan_id: None, results_token: Some("t".to_owned()) };
    let job = acquire_job(reply, headers).ok().unwrap();
    assert_eq!((job.plan_id.as_str(), job.body, job.run_service_token.as_deref()), ("", 6, Some("t")));
    let reply: Reply<u8> = Reply::Answered { status: 500, body: Err("x".to_owned()) };
    let headers = AcquireHeaders { plan_id: None, results_token: None };
    assert_eq!(
        acquire_job(reply, headers).err().unwrap().message(),
        "acquire job status 500 Internal Server Error: see debug log"
    );
    let reply: Reply<u8> = Reply::Answered { status: 200, body: Err("x".to_owned()) };
    let headers = AcquireHeaders { plan_id: None, results_token: None };
    assert_eq!(acquire_job(reply, headers).err().unwrap().message(), "acquire job parse: x");
}
