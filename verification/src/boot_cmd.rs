//! The one-shot container mode: inputs from the environment, a deadline, and
//! the exit code.

use vstd::prelude::*;

use crate::number;
use crate::outside::clock;
use crate::path;
use crate::types::{Conclusion, ServicesMode};

verus! {

/// How long after the deadline a clean exit is waited for, in milliseconds.
pub const WATCHDOG_GRACE_MS: u64 = 30_000;

/// Exit code when the deadline was hit.
pub const EXIT_DEADLINE: i32 = 124;

/// Exit code for bad inputs.
pub const EXIT_CONFIG: i32 = 2;

/// The deadline that a text states: digits alone, in range.
pub open spec fn deadline_stated(s: Seq<char>) -> Option<u64> {
    if s.len() > 0 && number::all_digits(s) && number::digits_value(s) <= u64::MAX {
        Some(number::digits_value(s) as u64)
    } else {
        None
    }
}

/// Reads a deadline in milliseconds since 1970: digits alone, without sign
/// or white space.
pub fn parse_deadline_ms(s: &str) -> (r: Option<u64>)
    ensures
        r == deadline_stated(s@),
{
    number::parse_digits(s)
}

/// A clock reading in milliseconds: zero before 1970, and the largest number
/// when out of range.
pub open spec fn epoch_ms(reading: Option<(u64, u32)>) -> u64 {
    match reading {
        None => 0,
        Some((secs, nanos)) => if secs * 1000 + nanos as int / 1_000_000 > u64::MAX {
            u64::MAX
        } else {
            (secs * 1000 + nanos as int / 1_000_000) as u64
        },
    }
}

/// A clock reading, as seconds and nanoseconds since 1970, in milliseconds.
pub fn to_epoch_ms(reading: Option<(u64, u32)>) -> (r: u64)
    ensures
        r == epoch_ms(reading),
{
    match reading {
        None => 0,
        Some((secs, nanos)) => {
            let millis: u64 = (nanos / 1_000_000) as u64;
            if secs > (u64::MAX - millis) / 1000 {
                u64::MAX
            } else {
                secs * 1000 + millis
            }
        },
    }
}

/// The current time in milliseconds since 1970.
pub fn now_epoch_ms() -> (r: u64)
    ensures
        exists|reading: Option<(u64, u32)>| r == #[trigger] epoch_ms(reading),
{
    let reading = clock::since_epoch();
    let r: u64 = to_epoch_ms(reading);
    assert(r == epoch_ms(reading));
    r
}

/// Whether a deadline is at or before a time.
pub fn deadline_has_passed(deadline_ms: u64, now_ms: u64) -> (r: bool)
    ensures
        r == (now_ms >= deadline_ms),
{
    now_ms >= deadline_ms
}

/// The inputs of a run.
#[derive(Debug)]
pub struct BootInputs {
    pub jit_config_base64: String,
    pub deadline_ms: Option<u64>,
}

/// The deadline of a run: none when it is not stated or cannot be read, for
/// it is a backstop and no authority.
pub open spec fn deadline_of(raw: Option<String>) -> Option<u64> {
    match raw {
        Some(s) => deadline_stated(s@),
        None => None,
    }
}

/// Validates the inputs before anything is sent: the registration must be
/// there, and the deadline must not be past.
pub fn resolve_boot_inputs_at(
    jit_config: Option<String>,
    deadline: Option<String>,
    now_ms: u64,
) -> (r: Result<BootInputs, i32>)
    ensures
        match r {
            Ok(inputs) => {
                &&& jit_config == Some(inputs.jit_config_base64)
                &&& inputs.jit_config_base64@.len() > 0
                &&& inputs.deadline_ms == deadline_of(deadline)
                &&& deadline_of(deadline) matches Some(d) ==> now_ms < d
            },
            Err(code) => if jit_config is None || jit_config->0@.len() == 0 {
                code == EXIT_CONFIG
            } else {
                &&& code == EXIT_DEADLINE
                &&& deadline_of(deadline) matches Some(d) && now_ms >= d
            },
        },
{
    let jit_config_base64: String = match jit_config {
        None => {
            return Err(EXIT_CONFIG);
        },
        Some(blob) => {
            if blob.as_str().is_empty() {
                return Err(EXIT_CONFIG);
            }
            blob
        },
    };
    let deadline_ms: Option<u64> = match &deadline {
        Some(s) => parse_deadline_ms(s.as_str()),
        None => None,
    };
    match deadline_ms {
        Some(d) => {
            if deadline_has_passed(d, now_ms) {
                return Err(EXIT_DEADLINE);
            }
        },
        None => {},
    }
    Ok(BootInputs { jit_config_base64, deadline_ms })
}

/// Validates the inputs against the current time.
pub fn resolve_boot_inputs(jit_config: Option<String>, deadline: Option<String>) -> (r: Result<
    BootInputs,
    i32,
>)
    ensures
        match r {
            Ok(inputs) => {
                &&& jit_config == Some(inputs.jit_config_base64)
                &&& inputs.jit_config_base64@.len() > 0
                &&& inputs.deadline_ms == deadline_of(deadline)
            },
            Err(code) => if jit_config is None || jit_config->0@.len() == 0 {
                code == EXIT_CONFIG
            } else {
                code == EXIT_DEADLINE && deadline_of(deadline) is Some
            },
        },
{
    let now_ms: u64 = now_epoch_ms();
    resolve_boot_inputs_at(jit_config, deadline, now_ms)
}

/// How one run ended.
#[derive(Debug, Clone, Copy, PartialEq, Eq, Structural)]
pub enum BootEnd {
    /// No job came.
    NoJob,
    /// A job ran.
    Job(Conclusion),
    /// The listener failed.
    Failed,
}

/// The exit code of a run, the deadline aside.
pub open spec fn end_code(end: BootEnd) -> i32 {
    match end {
        BootEnd::NoJob => 0,
        BootEnd::Job(Conclusion::Success) => 0,
        BootEnd::Job(Conclusion::Skipped) => 0,
        BootEnd::Job(Conclusion::Failure) => 1,
        BootEnd::Job(Conclusion::Cancelled) => 1,
        BootEnd::Failed => 1,
    }
}

/// The exit code of a run, the deadline aside.
pub fn exit_code_for(end: BootEnd) -> (r: i32)
    ensures
        r == end_code(end),
{
    match end {
        BootEnd::NoJob => 0,
        BootEnd::Job(c) => match c {
            Conclusion::Success => 0,
            Conclusion::Skipped => 0,
            Conclusion::Failure => 1,
            Conclusion::Cancelled => 1,
        },
        BootEnd::Failed => 1,
    }
}

/// The exit code of a run: hitting the deadline comes before everything
/// else.
pub fn run_exit_code(deadline_hit: bool, end: BootEnd) -> (r: i32)
    ensures
        r == if deadline_hit {
            EXIT_DEADLINE
        } else {
            end_code(end)
        },
{
    if deadline_hit {
        EXIT_DEADLINE
    } else {
        exit_code_for(end)
    }
}

/// The exit code of a run that may not even have started: `end` is none when
/// the HTTP client or the listener could not be built.
pub fn run_listener_once(end: Option<BootEnd>, deadline_hit: bool) -> (r: i32)
    ensures
        r == match end {
            None => EXIT_CONFIG,
            Some(e) => if deadline_hit {
                EXIT_DEADLINE
            } else {
                end_code(e)
            },
        },
{
    match end {
        None => EXIT_CONFIG,
        Some(e) => run_exit_code(deadline_hit, e),
    }
}

/// The watchdog over a deadline.
#[derive(Debug, Clone, Copy, PartialEq, Eq, Structural)]
pub enum Watchdog {
    /// Sleeping until the deadline.
    Armed { remaining_ms: u64 },
    /// The deadline was hit and the job cancelled; sleeping out the grace.
    Grace { remaining_ms: u64 },
    /// Stood down: the run was cancelled before the deadline.
    StoodDown,
    /// The grace is over: exit at once.
    HardExit { code: i32 },
}

/// What ended a watchdog's sleep.
#[derive(Debug, Clone, Copy, PartialEq, Eq, Structural)]
pub enum Wake {
    /// The time was up.
    TimeUp,
    /// The run was cancelled.
    Cancelled,
}

/// The watchdog after its sleep ended.
pub open spec fn woken(w: Watchdog, wake: Wake) -> Watchdog {
    match w {
        Watchdog::Armed { .. } => match wake {
            Wake::TimeUp => Watchdog::Grace { remaining_ms: WATCHDOG_GRACE_MS },
            Wake::Cancelled => Watchdog::StoodDown,
        },
        Watchdog::Grace { .. } => match wake {
            Wake::TimeUp => Watchdog::HardExit { code: EXIT_DEADLINE },
            Wake::Cancelled => w,
        },
        _ => w,
    }
}

impl Watchdog {
    /// A watchdog that sleeps from `now_ms` until the deadline.
    pub fn new(deadline_ms: u64, now_ms: u64) -> (r: Watchdog)
        ensures
            r == (Watchdog::Armed {
                remaining_ms: if deadline_ms > now_ms {
                    (deadline_ms - now_ms) as u64
                } else {
                    0
                },
            }),
    {
        let remaining_ms: u64 = if deadline_ms > now_ms {
            deadline_ms - now_ms
        } else {
            0
        };
        Watchdog::Armed { remaining_ms }
    }

    /// Takes the end of a sleep. Entering the grace means that the deadline
    /// was hit: the run is to be cancelled.
    pub fn wake(self, wake: Wake) -> (r: Watchdog)
        ensures
            r == woken(self, wake),
    {
        match self {
            Watchdog::Armed { .. } => match wake {
                Wake::TimeUp => Watchdog::Grace { remaining_ms: WATCHDOG_GRACE_MS },
                Wake::Cancelled => Watchdog::StoodDown,
            },
            Watchdog::Grace { .. } => match wake {
                Wake::TimeUp => Watchdog::HardExit { code: EXIT_DEADLINE },
                Wake::Cancelled => self,
            },
            _ => self,
        }
    }
}

/// The watchdog after several sleeps in turn.
pub open spec fn woken_in_turn(w: Watchdog, wakes: Seq<Wake>) -> Watchdog
    decreases wakes.len(),
{
    if wakes.len() == 0 {
        w
    } else {
        woken(woken_in_turn(w, wakes.drop_last()), wakes.last())
    }
}

/// A cancellation before the deadline is no deadline hit: the watchdog then
/// never exits the process, whatever follows.
pub proof fn law_cancel_stands_watchdog_down(remaining_ms: u64, later: Seq<Wake>)
    ensures
        woken_in_turn(woken(Watchdog::Armed { remaining_ms }, Wake::Cancelled), later)
            == Watchdog::StoodDown,
    decreases later.len(),
{
    if later.len() > 0 {
        law_cancel_stands_watchdog_down(remaining_ms, later.drop_last());
    }
}

/// The configuration of a container run.
#[derive(Debug)]
pub struct BootRunnerConfig {
    pub data_dir: String,
    pub workspace_root: String,
    pub cgroup_path: Option<String>,
    pub services_mode: ServicesMode,
    pub shadow_enabled: bool,
}

/// The configuration of a container run under a home directory.
pub fn build_boot_runner_config(home: &str) -> (r: BootRunnerConfig)
    ensures
        r.data_dir@ == home@,
        r.workspace_root@ == path::joined(home@, "_work"@),
        r.cgroup_path is None,
        r.services_mode == ServicesMode::Forwarder,
        !r.shadow_enabled,
{
    BootRunnerConfig {
        data_dir: home.to_owned(),
        workspace_root: path::join(home, "_work"),
        cgroup_path: None,
        services_mode: ServicesMode::Forwarder,
        shadow_enabled: false,
    }
}

/// A deadline is read exactly from digits that make a number in range, and
/// is that number; a sign, white space or an empty text states none.
pub proof fn law_deadline_is_digits_alone(s: &str, r: Option<u64>)
    requires
        call_ensures(parse_deadline_ms, (s,), r),
    ensures
        r is Some <==> s@.len() > 0 && (forall|i: int|
            0 <= i < s@.len() ==> '0' <= #[trigger] s@[i] <= '9') && number::digits_value(s@)
            <= 0xFFFF_FFFF_FFFF_FFFF,
        r matches Some(d) ==> d == number::digits_value(s@),
{
    assert(number::all_digits(s@) <==> forall|i: int|
        0 <= i < s@.len() ==> '0' <= #[trigger] s@[i] <= '9');
}

/// A clock reading counts a thousand for each second and one for each whole
/// millisecond, as far as the range goes; before 1970 it is zero.
pub proof fn law_clock_in_milliseconds(secs: u64, nanos: u32, r: u64)
    requires
        call_ensures(to_epoch_ms, (Some((secs, nanos)),), r),
    ensures
        secs < 18_446_744_073_709_551 && nanos < 1_000_000_000 ==> r as int * 1_000_000 <= secs
            * 1_000_000_000 + nanos < (r + 1) * 1_000_000,
        secs > 18_446_744_073_709_551 ==> r == 0xFFFF_FFFF_FFFF_FFFF,
        epoch_ms(None) == 0,
{
    let n = nanos as int;
    vstd::arithmetic::div_mod::lemma_fundamental_div_mod(n, 1_000_000);
    vstd::arithmetic::div_mod::lemma_mod_bound(n, 1_000_000);
}

/// A deadline has passed from its very millisecond on.
pub proof fn law_deadline_passes_at_its_time(deadline_ms: u64, now_ms: u64, r: bool)
    requires
        call_ensures(deadline_has_passed, (deadline_ms, now_ms), r),
    ensures
        r <==> deadline_ms <= now_ms,
{
}

/// A run starts exactly when a registration is given that is not empty and
/// no readable deadline is past; a missing registration comes before a
/// deadline, and each has its own code.
pub proof fn law_run_needs_a_registration_in_time(
    jit_config: Option<String>,
    deadline: Option<String>,
    now_ms: u64,
    r: Result<BootInputs, i32>,
)
    requires
        call_ensures(resolve_boot_inputs_at, (jit_config, deadline, now_ms), r),
    ensures
        r is Ok <==> jit_config is Some && jit_config->0@.len() > 0 && (deadline is Some
            && deadline_stated(deadline->0@) is Some ==> now_ms < deadline_stated(deadline->0@)->0),
        r matches Ok(inputs) ==> inputs.jit_config_base64@ == jit_config->0@,
        r matches Ok(inputs) ==> (deadline is None ==> inputs.deadline_ms is None),
        r matches Ok(inputs) ==> (deadline is Some ==> inputs.deadline_ms == deadline_stated(
            deadline->0@,
        )),
        r matches Err(code) ==> (code == 2 <==> jit_config is None || jit_config->0@.len() == 0),
        r matches Err(code) ==> code == 2 || code == 124,
{
}

/// Against the current time: without a registration the run is refused as
/// misconfigured, and without a readable deadline nothing else refuses it.
pub proof fn law_run_without_deadline_starts(
    jit_config: Option<String>,
    deadline: Option<String>,
    r: Result<BootInputs, i32>,
)
    requires
        call_ensures(resolve_boot_inputs, (jit_config, deadline), r),
    ensures
        jit_config is None || jit_config->0@.len() == 0 ==> r == Err::<BootInputs, i32>(2),
        jit_config is Some && jit_config->0@.len() > 0 && (deadline is None || deadline_stated(
            deadline->0@,
        ) is None) ==> r is Ok,
        r matches Ok(inputs) ==> inputs.jit_config_base64@ == jit_config->0@,
        r matches Err(code) ==> code == 2 || code == 124,
{
}

/// The exit code is zero exactly when no job came, or the job succeeded or was
/// skipped; it is the deadline's whenever the deadline was hit.
pub proof fn law_exit_codes(end: BootEnd, deadline_hit: bool, alone: i32, with_deadline: i32)
    requires
        call_ensures(exit_code_for, (end,), alone),
        call_ensures(run_exit_code, (deadline_hit, end), with_deadline),
    ensures
        alone == 0 <==> end == BootEnd::NoJob || end == BootEnd::Job(Conclusion::Success) || end
            == BootEnd::Job(Conclusion::Skipped),
        alone == 0 || alone == 1,
        deadline_hit ==> with_deadline == 124,
        !deadline_hit ==> with_deadline == alone,
{
}

/// A run that could not even start is misconfigured, deadline or not.
pub proof fn law_unstarted_run_is_misconfigured(
    end: Option<BootEnd>,
    deadline_hit: bool,
    r: i32,
)
    requires
        call_ensures(run_listener_once, (end, deadline_hit), r),
    ensures
        end is None ==> r == 2,
        end is Some && deadline_hit ==> r == 124,
        end is Some && !deadline_hit ==> (r == 0 <==> end->0 == BootEnd::NoJob || end->0
            == BootEnd::Job(Conclusion::Success) || end->0 == BootEnd::Job(Conclusion::Skipped)),
        end is Some && !deadline_hit ==> r == 0 || r == 1,
{
}

/// The watchdog sleeps out what is left to the deadline, nothing when it is
/// past; it then gives thirty seconds of grace, and exits with the deadline's
/// code only when the grace is over.
pub proof fn law_watchdog_gives_grace(deadline_ms: u64, now_ms: u64, remaining: u64, r: Watchdog)
    requires
        call_ensures(Watchdog::new, (deadline_ms, now_ms), r),
    ensures
        r is Armed,
        deadline_ms >= now_ms ==> r == (Watchdog::Armed {
            remaining_ms: (deadline_ms - now_ms) as u64,
        }),
        deadline_ms < now_ms ==> r == (Watchdog::Armed { remaining_ms: 0 }),
        woken(Watchdog::Armed { remaining_ms: remaining }, Wake::TimeUp) == (Watchdog::Grace {
            remaining_ms: 30_000,
        }),
        woken(Watchdog::Grace { remaining_ms: remaining }, Wake::TimeUp) == (Watchdog::HardExit {
            code: 124,
        }),
        woken(Watchdog::Grace { remaining_ms: remaining }, Wake::Cancelled) == (Watchdog::Grace {
            remaining_ms: remaining,
        }),
        forall|wake: Wake| #[trigger]
            woken(Watchdog::HardExit { code: 124 }, wake) == (Watchdog::HardExit { code: 124 }),
{
}

/// A container run keeps its data at home, works in a directory below it,
/// and forwards its services.
pub proof fn law_container_run_lives_at_home(home: &str, r: BootRunnerConfig)
    requires
        call_ensures(build_boot_runner_config, (home,), r),
    ensures
        r.data_dir@ == home@,
        r.workspace_root@ == path::joined(home@, "_work"@),
        r.cgroup_path is None,
        r.services_mode == ServicesMode::Forwarder,
        !r.shadow_enabled,
{
}

/// The watchdog cancels the run when its time is up and exits only after the
/// grace; a cancellation before stands it down.
pub proof fn law_watchdog_wakes(w: Watchdog, wake: Wake, r: Watchdog)
    requires
        call_ensures(Watchdog::wake, (w, wake), r),
    ensures
        w is Armed && wake == Wake::TimeUp ==> r == (Watchdog::Grace { remaining_ms: 30_000 }),
        w is Armed && wake == Wake::Cancelled ==> r == Watchdog::StoodDown,
        w is Grace && wake == Wake::TimeUp ==> r == (Watchdog::HardExit { code: 124 }),
        w is Grace && wake == Wake::Cancelled ==> r == w,
        w is StoodDown || w is HardExit ==> r == w,
{
}

} // verus!
