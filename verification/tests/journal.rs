//! The job journal.

use toolu_runner::journal::writer::{
    jobs_dir_for, journal_path, journal_path_now, line_to_append, list_journals, prune_jobs_dir,
    LineOutcome, Next, Writer, JOURNAL_RETAIN, PREACQ_BUF,
};
use toolu_runner::stamp::{
    compact_at, compact_now, epoch_secs, rfc3339_at, rfc3339_millis_at, rfc3339_millis_now, rfc3339_now,
};

fn drain(w: &mut Writer<u32>, outcome: fn() -> LineOutcome) -> Vec<(u64, u32)> {
    let mut out = Vec::new();
    while let Some(line) = w.next_line() {
        out.push((line.seq, line.event));
        w.write_event(&line, outcome());
    }
    out
}

#[test]
fn the_journal_lives_under_the_data_directory() {
    assert_eq!(jobs_dir_for("/data"), "/data/_diag/jobs");
    assert_eq!(journal_path("/data/_diag/jobs", "20260101T000000Z", "job-1"), "/data/_diag/jobs/20260101T000000Z-job-1.jsonl");
    let now = journal_path_now("/d", "j");
    assert!(now.starts_with("/d/2") && now.ends_with("Z-j.jsonl"));
    assert_eq!(now.len(), "/d/20260101T000000Z-j.jsonl".len());
}

#[test]
fn events_before_the_job_are_replayed_into_its_journal() {
    let mut w: Writer<u32> = Writer::new("/d");
    assert!(matches!(w.handle(false, "t1".to_owned(), 1), Next::Kept { overflow: false }));
    assert!(matches!(w.handle(false, "t2".to_owned(), 2), Next::Kept { overflow: false }));
    assert!(matches!(w.handle(true, "t3".to_owned(), 3), Next::Open { rotate: false }));
    w.open_for_job(true);
    assert_eq!(drain(&mut w, || LineOutcome::Written), [(0, 1), (1, 2), (2, 3)]);
    assert!(matches!(w.handle(false, "t4".to_owned(), 4), Next::Write));
    assert_eq!(drain(&mut w, || LineOutcome::Written), [(3, 4)]);
}

#[test]
fn a_second_job_rotates_the_journal() {
    let mut w: Writer<u32> = Writer::new("/d");
    w.handle(true, "t".to_owned(), 1);
    w.open_for_job(true);
    drain(&mut w, || LineOutcome::Written);
    assert!(matches!(w.handle(true, "t".to_owned(), 2), Next::Open { rotate: true }));
    w.open_for_job(true);
    assert_eq!(drain(&mut w, || LineOutcome::Written), [(0, 2)]);
}

#[test]
fn the_newest_events_are_kept_when_the_buffer_overflows() {
    let mut w: Writer<u32> = Writer::new("/d");
    let last = PREACQ_BUF as u32 + 2;
    let mut overflows = 0;
    for i in 0..last {
        if let Next::Kept { overflow: true } = w.handle(false, "t".to_owned(), i) {
            overflows += 1;
        }
    }
    assert!(overflows > 0);
    w.handle(true, "t".to_owned(), 9_999);
    w.open_for_job(true);
    let lines = drain(&mut w, || LineOutcome::Written);
    assert_eq!(lines.len(), PREACQ_BUF + 1);
    assert_eq!(lines[0], (0, 2));
    assert_eq!(lines[PREACQ_BUF], (PREACQ_BUF as u64, 9_999));
}

#[test]
fn a_failed_write_ends_the_journal_for_good() {
    let mut w: Writer<u32> = Writer::new("/d");
    w.handle(true, "t".to_owned(), 1);
    w.open_for_job(true);
    assert_eq!(drain(&mut w, || LineOutcome::Failed).len(), 1);
    assert!(matches!(w.handle(false, "t".to_owned(), 2), Next::Ignore));
    assert!(matches!(w.handle(true, "t".to_owned(), 3), Next::Ignore));
    assert!(w.next_line().is_none());
}

#[test]
fn an_unmasked_line_ends_the_journal() {
    let mut w: Writer<u32> = Writer::new("/d");
    w.handle(true, "t".to_owned(), 1);
    w.open_for_job(true);
    drain(&mut w, || LineOutcome::Unmasked);
    assert!(matches!(w.handle(false, "t".to_owned(), 2), Next::Ignore));
}

#[test]
fn a_skipped_line_takes_no_number() {
    let mut w: Writer<u32> = Writer::new("/d");
    w.handle(true, "t".to_owned(), 1);
    w.open_for_job(true);
    drain(&mut w, || LineOutcome::Skipped);
    w.handle(false, "t".to_owned(), 2);
    assert_eq!(drain(&mut w, || LineOutcome::Written), [(0, 2)]);
}

#[test]
fn a_file_that_cannot_be_opened_ends_the_journal() {
    let mut w: Writer<u32> = Writer::new("/d");
    w.handle(true, "t".to_owned(), 1);
    w.open_for_job(false);
    assert!(w.next_line().is_none());
    assert!(matches!(w.handle(false, "t".to_owned(), 2), Next::Ignore));
}

#[test]
fn a_failed_flush_ends_the_journal() {
    let mut w: Writer<u32> = Writer::new("/d");
    w.handle(true, "t".to_owned(), 1);
    w.open_for_job(true);
    drain(&mut w, || LineOutcome::Written);
    w.flush(true);
    assert!(matches!(w.handle(false, "t".to_owned(), 2), Next::Write));
    drain(&mut w, || LineOutcome::Written);
    w.flush(false);
    assert!(matches!(w.handle(false, "t".to_owned(), 3), Next::Ignore));
}

#[test]
fn recorded_events_carry_a_time_stamp() {
    let mut w: Writer<u32> = Writer::new("/d");
    w.record(true, 7);
    w.open_for_job(true);
    let line = w.next_line().unwrap();
    assert_eq!(line.event, 7);
    assert_eq!(line.ts.len(), "2026-01-01T00:00:00.000Z".len());
    assert!(line.ts.ends_with('Z'));
}

#[test]
fn only_masked_lines_are_appended() {
    assert_eq!(line_to_append(Some("{\"a\":\"***\"}".to_owned())), Ok("{\"a\":\"***\"}\n".to_owned()));
    assert_eq!(line_to_append(Some(String::new())), Ok("\n".to_owned()));
    assert_eq!(line_to_append(None), Err(LineOutcome::Unmasked));
}

#[test]
fn due_lines_keep_the_writer_busy() {
    let mut w: Writer<u32> = Writer::new("/d");
    assert!(w.idle());
    w.handle(false, "t".to_owned(), 1);
    assert!(w.idle());
    w.handle(true, "t".to_owned(), 2);
    assert!(!w.idle());
    w.open_for_job(true);
    drain(&mut w, || LineOutcome::Written);
    assert!(w.idle());
}

#[test]
fn stamps_follow_the_clock() {
    let moment = Some((1_700_000_000, 123_456_789));
    assert_eq!(rfc3339_at(moment), "2023-11-14T22:13:20.123456789+00:00");
    assert_eq!(rfc3339_at(Some((1_700_000_000, 0))), "2023-11-14T22:13:20+00:00");
    assert_eq!(rfc3339_millis_at(moment), "2023-11-14T22:13:20.123Z");
    assert_eq!(compact_at(moment), "20231114T221320Z");
    for reading in [None, Some((0, 0)), Some((u64::MAX, 0)), Some((i64::MAX as u64, 0))] {
        assert_eq!(rfc3339_at(reading), "1970-01-01T00:00:00+00:00");
        assert_eq!(rfc3339_millis_at(reading), "1970-01-01T00:00:00.000Z");
        assert_eq!(compact_at(reading), "19700101T000000Z");
    }
    assert_eq!(epoch_secs(Some((1_700_000_000, 999_999_999))), 1_700_000_000);
    assert_eq!(epoch_secs(None), 0);
    for now in [rfc3339_now(), rfc3339_millis_now(), compact_now()] {
        assert!(now.starts_with('2'), "{now}");
    }
}

#[test]
fn retention_makes_room_for_one_more() {
    let names = |n: usize| -> Vec<String> { (0..n).map(|i| format!("{i:03}.jsonl")).rev().collect() };
    assert!(prune_jobs_dir(&names(JOURNAL_RETAIN - 1)).is_empty());
    assert_eq!(prune_jobs_dir(&names(JOURNAL_RETAIN)), ["000.jsonl"]);
    assert_eq!(prune_jobs_dir(&names(JOURNAL_RETAIN + 2)), ["000.jsonl", "001.jsonl", "002.jsonl"]);
    let mixed: Vec<String> = ["a.jsonl", "b.txt", ".jsonl", "c.jsonl"].iter().map(|s| s.to_string()).collect();
    assert_eq!(list_journals(&mixed), ["a.jsonl", "c.jsonl"]);
}
