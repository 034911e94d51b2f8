//! Forwarding a running job's events: combined log, step logs, live feed and
//! conclusion.

use vstd::prelude::*;

use crate::listener::log_uploader::StreamerConfig;
use crate::text;
use crate::types::Conclusion;

verus! {

/// The results service address of a job, from the variable that holds it:
/// without trailing slashes.
pub fn results_url(endpoint: Option<&str>) -> (r: Option<String>)
    ensures
        text::text_opt(r) == match endpoint {
            Some(e) => Some(text::trim_end_of(e@, '/')),
            None => None,
        },
{
    match endpoint {
        Some(e) => Some(text::trim_end_char(e, '/').to_owned()),
        None => None,
    }
}

/// Where a job is reported to.
#[derive(Debug)]
pub struct FwdConfig {
    /// The results service; none when the job has none.
    pub results_url: Option<String>,
    pub results_token: String,
    pub run_backend_id: String,
    pub job_backend_id: String,
}

/// Where the log of a step goes; nowhere without a results service.
pub fn spawn_step_uploader(cfg: &FwdConfig, step_id: &str, step_name: &str) -> (r: Option<
    StreamerConfig,
>)
    ensures
        match cfg.results_url {
            Some(url) => r matches Some(s) && s.results_url@ == url@ && s.token@
                == cfg.results_token@ && s.run_backend_id@ == cfg.run_backend_id@
                && s.job_backend_id@ == cfg.job_backend_id@ && s.step_backend_id@ == step_id@
                && s.step_name@ == step_name@,
            None => r is None,
        },
{
    match &cfg.results_url {
        Some(url) => Some(
            StreamerConfig {
                results_url: url.clone(),
                token: cfg.results_token.clone(),
                run_backend_id: cfg.run_backend_id.clone(),
                job_backend_id: cfg.job_backend_id.clone(),
                step_backend_id: step_id.to_owned(),
                step_name: step_name.to_owned(),
            },
        ),
        None => None,
    }
}

/// An event of the running job, as far as forwarding goes. Log lines are
/// masked before they get here.
pub enum ForwardEvent {
    StepStarted { step_id: String },
    Log { step_id: String, masked: String },
    StepCompleted { step_id: String },
    JobCompleted { conclusion: Conclusion },
    Other,
}

/// An event with its texts.
pub enum ForwardEventView {
    StepStarted { step_id: Seq<char> },
    Log { step_id: Seq<char>, masked: Seq<char> },
    StepCompleted { step_id: Seq<char> },
    JobCompleted { conclusion: Conclusion },
    Other,
}

impl View for ForwardEvent {
    type V = ForwardEventView;

    open spec fn view(&self) -> ForwardEventView {
        match self {
            ForwardEvent::StepStarted { step_id } => ForwardEventView::StepStarted {
                step_id: step_id@,
            },
            ForwardEvent::Log { step_id, masked } => ForwardEventView::Log {
                step_id: step_id@,
                masked: masked@,
            },
            ForwardEvent::StepCompleted { step_id } => ForwardEventView::StepCompleted {
                step_id: step_id@,
            },
            ForwardEvent::JobCompleted { conclusion } => ForwardEventView::JobCompleted {
                conclusion: *conclusion,
            },
            ForwardEvent::Other => ForwardEventView::Other,
        }
    }
}

/// What the caller does with an event.
#[derive(Debug, Clone, Copy, PartialEq, Eq, Structural)]
pub enum Forward {
    /// Nothing beyond passing it on.
    Nothing,
    /// Start a log upload for the step.
    StartUpload,
    /// Send the line to the step's upload and to the live feed, each where
    /// set.
    SendLine { to_step: bool, to_live: bool },
    /// Close the step's upload.
    CloseUpload,
}

/// How a send to the live feed went.
#[derive(Debug, Clone, Copy, PartialEq, Eq, Structural)]
pub enum LiveSend {
    Sent,
    /// The feed is behind; the line is dropped from the live view only.
    Full,
    /// The feed is gone.
    Closed,
}

/// The forwarder's state.
pub struct ForwarderState {
    has_results: bool,
    has_live: bool,
    live_log_closed: bool,
    all_job_lines: Vec<String>,
    uploading: Vec<String>,
    conclusion: Option<Conclusion>,
}

/// The forwarder's state: whether there is a results service and a live
/// feed, whether the feed is gone, the combined log, the steps whose logs
/// are being uploaded, and the job's conclusion.
pub struct ForwarderView {
    pub has_results: bool,
    pub has_live: bool,
    pub live_log_closed: bool,
    pub lines: Seq<Seq<char>>,
    pub uploading: Seq<Seq<char>>,
    pub conclusion: Option<Conclusion>,
}

impl View for ForwarderState {
    type V = ForwarderView;

    closed spec fn view(&self) -> ForwarderView {
        ForwarderView {
            has_results: self.has_results,
            has_live: self.has_live,
            live_log_closed: self.live_log_closed,
            lines: text::texts(self.all_job_lines@),
            uploading: text::texts(self.uploading@),
            conclusion: self.conclusion,
        }
    }
}

/// The list without the text.
pub open spec fn without(list: Seq<Seq<char>>, item: Seq<char>) -> Seq<Seq<char>>
    decreases list.len(),
{
    if list.len() == 0 {
        Seq::empty()
    } else if list.last() == item {
        without(list.drop_last(), item)
    } else {
        without(list.drop_last(), item).push(list.last())
    }
}

/// The list with the text at its end, once.
pub open spec fn with(list: Seq<Seq<char>>, item: Seq<char>) -> Seq<Seq<char>> {
    if list.contains(item) {
        list
    } else {
        list.push(item)
    }
}

/// The state after an event.
pub open spec fn forwarded(s: ForwarderView, event: ForwardEventView) -> ForwarderView {
    match event {
        ForwardEventView::StepStarted { step_id } => if s.has_results {
            ForwarderView { uploading: with(s.uploading, step_id), ..s }
        } else {
            s
        },
        ForwardEventView::Log { masked, .. } => ForwarderView { lines: s.lines.push(masked), ..s },
        ForwardEventView::StepCompleted { step_id } => ForwarderView {
            uploading: without(s.uploading, step_id),
            ..s
        },
        ForwardEventView::JobCompleted { conclusion } => ForwarderView {
            conclusion: Some(conclusion),
            ..s
        },
        ForwardEventView::Other => s,
    }
}

/// What the caller does with an event.
pub open spec fn forwarding(s: ForwarderView, event: ForwardEventView) -> Forward {
    match event {
        ForwardEventView::StepStarted { .. } => if s.has_results {
            Forward::StartUpload
        } else {
            Forward::Nothing
        },
        ForwardEventView::Log { step_id, .. } => Forward::SendLine {
            to_step: s.uploading.contains(step_id),
            to_live: s.has_live && !s.live_log_closed,
        },
        ForwardEventView::StepCompleted { .. } => Forward::CloseUpload,
        _ => Forward::Nothing,
    }
}

/// The conclusion of a job: the last one reported, failure when none was.
pub open spec fn concluded(s: ForwarderView) -> Conclusion {
    match s.conclusion {
        Some(c) => c,
        None => Conclusion::Failure,
    }
}

impl ForwarderState {
    /// A forwarder whose combined log begins with the setup lines.
    pub fn new(setup_lines: Vec<String>, has_results: bool, has_live: bool) -> (r: ForwarderState)
        ensures
            r@ == (ForwarderView {
                has_results,
                has_live,
                live_log_closed: false,
                lines: text::texts(setup_lines@),
                uploading: Seq::<Seq<char>>::empty(),
                conclusion: None,
            }),
    {
        let r = ForwarderState {
            has_results,
            has_live,
            live_log_closed: false,
            all_job_lines: setup_lines,
            uploading: Vec::new(),
            conclusion: None,
        };
        assert(r@.uploading =~= Seq::empty());
        r
    }

    fn remove_upload(&mut self, step_id: &str)
        ensures
            final(self)@ == (ForwarderView {
                uploading: without(old(self)@.uploading, step_id@),
                ..old(self)@
            }),
    {
        let ghost all = text::texts(self.uploading@);
        let mut kept: Vec<String> = Vec::new();
        let mut i: usize = 0;
        assert(text::texts(kept@) =~= without(all.take(0), step_id@));
        while i < self.uploading.len()
            invariant
                i <= self.uploading@.len(),
                all == text::texts(self.uploading@),
                text::texts(kept@) == without(all.take(i as int), step_id@),
                *self == *old(self),
            decreases self.uploading@.len() - i,
        {
            let ghost before = text::texts(kept@);
            proof {
                assert(all.take(i + 1).drop_last() =~= all.take(i as int));
                assert(all.take(i + 1).last() == self.uploading@[i as int]@);
            }
            if !text::same(self.uploading[i].as_str(), step_id) {
                kept.push(self.uploading[i].clone());
                assert(text::texts(kept@) =~= before.push(self.uploading@[i as int]@));
            }
            i = i + 1;
        }
        assert(all.take(all.len() as int) =~= all);
        self.uploading = kept;
    }

    /// Takes an event.
    pub fn handle_event(&mut self, event: ForwardEvent) -> (r: Forward)
        ensures
            final(self)@ == forwarded(old(self)@, event@),
            r == forwarding(old(self)@, event@),
    {
        match event {
            ForwardEvent::StepStarted { step_id } => {
                if !self.has_results {
                    return Forward::Nothing;
                }
                let ghost before = self@.uploading;
                if !text::holds_text(&self.uploading, step_id.as_str()) {
                    self.uploading.push(step_id);
                    assert(self@.uploading =~= before.push(step_id@));
                }
                Forward::StartUpload
            },
            ForwardEvent::Log { step_id, masked } => {
                let to_step: bool = text::holds_text(&self.uploading, step_id.as_str());
                let to_live: bool = self.has_live && !self.live_log_closed;
                let ghost before = self@.lines;
                self.all_job_lines.push(masked);
                assert(self@.lines =~= before.push(masked@));
                Forward::SendLine { to_step, to_live }
            },
            ForwardEvent::StepCompleted { step_id } => {
                self.remove_upload(step_id.as_str());
                Forward::CloseUpload
            },
            ForwardEvent::JobCompleted { conclusion } => {
                self.conclusion = Some(conclusion);
                Forward::Nothing
            },
            ForwardEvent::Other => Forward::Nothing,
        }
    }

    /// Takes how a send to the live feed went. Once the feed is gone nothing
    /// more is sent to it.
    pub fn live_sent(&mut self, send: LiveSend)
        ensures
            final(self)@ == (ForwarderView {
                live_log_closed: old(self)@.live_log_closed || send == LiveSend::Closed,
                ..old(self)@
            }),
    {
        if send == LiveSend::Closed {
            self.live_log_closed = true;
        }
    }

    /// Ends forwarding: every upload is closed, and the combined log is
    /// uploaded when there is a results service.
    pub fn finalize_job_logs(&mut self) -> (upload: bool)
        ensures
            final(self)@ == (ForwarderView {
                uploading: Seq::<Seq<char>>::empty(),
                ..old(self)@
            }),
            upload == old(self)@.has_results,
    {
        self.uploading = Vec::new();
        assert(self@.uploading =~= Seq::empty());
        self.has_results
    }

    /// The combined log.
    pub fn job_lines(&self) -> (r: &Vec<String>)
        ensures
            text::texts(r@) == self@.lines,
    {
        &self.all_job_lines
    }

    /// The conclusion of the job.
    pub fn final_conclusion(&self) -> (r: Conclusion)
        ensures
            r == concluded(self@),
    {
        match self.conclusion {
            Some(c) => c,
            None => Conclusion::Failure,
        }
    }
}

/// The state after a sequence of events.
pub open spec fn forwarded_all(s: ForwarderView, events: Seq<ForwardEventView>) -> ForwarderView
    decreases events.len(),
{
    if events.len() == 0 {
        s
    } else {
        forwarded(forwarded_all(s, events.drop_last()), events.last())
    }
}

/// The log lines among the events.
pub open spec fn logged(events: Seq<ForwardEventView>) -> Seq<Seq<char>>
    decreases events.len(),
{
    if events.len() == 0 {
        Seq::empty()
    } else {
        match events.last() {
            ForwardEventView::Log { masked, .. } => logged(events.drop_last()).push(masked),
            _ => logged(events.drop_last()),
        }
    }
}

/// The last conclusion among the events.
pub open spec fn last_conclusion(events: Seq<ForwardEventView>) -> Option<Conclusion>
    decreases events.len(),
{
    if events.len() == 0 {
        None
    } else {
        match events.last() {
            ForwardEventView::JobCompleted { conclusion } => Some(conclusion),
            _ => last_conclusion(events.drop_last()),
        }
    }
}

/// The combined log holds the setup lines and then every log line, in order,
/// whatever becomes of the live feed and the uploads.
pub proof fn law_no_line_is_lost(s: ForwarderView, events: Seq<ForwardEventView>)
    ensures
        forwarded_all(s, events).lines == s.lines + logged(events),
    decreases events.len(),
{
    if events.len() == 0 {
        assert(s.lines + logged(events) =~= s.lines);
    } else {
        law_no_line_is_lost(s, events.drop_last());
        assert(forwarded_all(s, events).lines =~= s.lines + logged(events));
    }
}

/// A job concludes as the engine last reported, and fails when the engine
/// ended without a report.
pub proof fn law_conclusion_is_last_reported(s: ForwarderView, events: Seq<ForwardEventView>)
    requires
        s.conclusion is None,
    ensures
        concluded(forwarded_all(s, events)) == match last_conclusion(events) {
            Some(c) => c,
            None => Conclusion::Failure,
        },
    decreases events.len(),
{
    lemma_conclusion_kept(s, events);
}

proof fn lemma_conclusion_kept(s: ForwarderView, events: Seq<ForwardEventView>)
    requires
        s.conclusion is None,
    ensures
        forwarded_all(s, events).conclusion == last_conclusion(events),
    decreases events.len(),
{
    if events.len() > 0 {
        lemma_conclusion_kept(s, events.drop_last());
    }
}

/// Once the live feed is gone, no line is sent to it again.
pub proof fn law_closed_feed_stays_closed(
    s: ForwarderView,
    events: Seq<ForwardEventView>,
    next: ForwardEventView,
)
    requires
        s.live_log_closed,
    ensures
        forwarding(forwarded_all(s, events), next) matches Forward::SendLine { to_live, .. }
            ==> !to_live,
    decreases events.len(),
{
    lemma_feed_closed(s, events);
}

proof fn lemma_feed_closed(s: ForwarderView, events: Seq<ForwardEventView>)
    requires
        s.live_log_closed,
    ensures
        forwarded_all(s, events).live_log_closed,
    decreases events.len(),
{
    if events.len() > 0 {
        lemma_feed_closed(s, events.drop_last());
    }
}

/// A job has a results service exactly when its variables name one; its
/// address is used without the slashes at its end.
pub proof fn law_results_address(endpoint: Option<&str>, r: Option<String>)
    requires
        call_ensures(results_url, (endpoint,), r),
    ensures
        r is Some <==> endpoint is Some,
        endpoint matches Some(e) ==> (r matches Some(url) && url@.is_prefix_of(e@) && (url@.len()
            > 0 ==> url@.last() != '/') && forall|i: int|
            url@.len() <= i < e@.len() ==> #[trigger] e@[i] == '/'),
{
    match endpoint {
        Some(e) => {
            text::law_trailing_run_is_taken_off(e@, '/');
        },
        None => {},
    }
}

/// A step's log is uploaded exactly when there is a results service, to that
/// service and under the step's own names.
pub proof fn law_step_log_goes_to_the_service(
    cfg: FwdConfig,
    step_id: &str,
    step_name: &str,
    r: Option<StreamerConfig>,
)
    requires
        call_ensures(spawn_step_uploader, (&cfg, step_id, step_name), r),
    ensures
        r is Some <==> cfg.results_url is Some,
        r matches Some(s) ==> s.results_url@ == cfg.results_url->0@ && s.token@
            == cfg.results_token@ && s.run_backend_id@ == cfg.run_backend_id@ && s.job_backend_id@
            == cfg.job_backend_id@ && s.step_backend_id@ == step_id@ && s.step_name@ == step_name@,
{
}

/// A step's log is being uploaded from its start to its end when there is a
/// results service, whatever other steps do; without one it never is.
pub proof fn law_upload_lasts_as_long_as_the_step(
    s: ForwarderView,
    step: Seq<char>,
    other: Seq<char>,
    event: ForwardEventView,
)
    requires
        step != other,
    ensures
        s.has_results ==> forwarded(
            s,
            (ForwardEventView::StepStarted { step_id: step }),
        ).uploading.contains(step),
        !s.has_results ==> forwarded(s, (ForwardEventView::StepStarted { step_id: step }))
            == s,
        !forwarded(
            s,
            (ForwardEventView::StepCompleted { step_id: step }),
        ).uploading.contains(step),
        s.uploading.contains(other) ==> forwarded(
            s,
            (ForwardEventView::StepStarted { step_id: step }),
        ).uploading.contains(other),
        s.uploading.contains(other) <==> forwarded(
            s,
            (ForwardEventView::StepCompleted { step_id: step }),
        ).uploading.contains(other),
        !(event is StepStarted) && !(event is StepCompleted) ==> forwarded(s, event).uploading
            == s.uploading,
        s.uploading.contains(step) ==> forwarded(s, (ForwardEventView::StepStarted { step_id: step }))
            == s,
{
    lemma_without(s.uploading, step, step);
    lemma_without(s.uploading, step, other);
    let pushed = s.uploading.push(step);
    assert(pushed[s.uploading.len() as int] == step);
    if s.uploading.contains(other) {
        let k = choose|k: int| 0 <= k < s.uploading.len() && s.uploading[k] == other;
        assert(pushed[k] == other);
    }
}

proof fn lemma_without(list: Seq<Seq<char>>, item: Seq<char>, x: Seq<char>)
    ensures
        without(list, item).contains(x) <==> list.contains(x) && x != item,
    decreases list.len(),
{
    if list.len() > 0 {
        let front = list.drop_last();
        lemma_without(front, item, x);
        let w = without(front, item);
        assert(list.contains(x) <==> front.contains(x) || list.last() == x) by {
            if list.contains(x) {
                let k = choose|k: int| 0 <= k < list.len() && list[k] == x;
                if k < front.len() {
                    assert(front[k] == x);
                }
            }
            if front.contains(x) {
                let k = choose|k: int| 0 <= k < front.len() && front[k] == x;
                assert(list[k] == x);
            }
            if list.last() == x {
                assert(list[list.len() - 1] == x);
            }
        }
        let p = w.push(list.last());
        assert(p.contains(x) <==> w.contains(x) || list.last() == x) by {
            if p.contains(x) {
                let k = choose|k: int| 0 <= k < p.len() && p[k] == x;
                if k < w.len() {
                    assert(w[k] == x);
                }
            }
            if w.contains(x) {
                let k = choose|k: int| 0 <= k < w.len() && w[k] == x;
                assert(p[k] == x);
            }
            if list.last() == x {
                assert(p[w.len() as int] == x);
            }
        }
    }
}

/// A log line goes to its step's upload exactly when that is running, and to
/// the live feed exactly when there is one that is not gone. A step that
/// starts opens its upload when there is a results service, and one that
/// ends closes it; no other event does anything more.
pub proof fn law_line_goes_where_it_is_wanted(s: ForwarderView, event: ForwardEventView)
    ensures
        event matches ForwardEventView::Log { step_id, .. } ==> (forwarding(s, event) matches Forward::SendLine {
            to_step,
            to_live,
        } && to_step == s.uploading.contains(step_id) && to_live == (s.has_live
            && !s.live_log_closed)),
        event is StepStarted && s.has_results ==> forwarding(s, event) == Forward::StartUpload,
        event is StepStarted && !s.has_results ==> forwarding(s, event) == Forward::Nothing,
        event is StepCompleted ==> forwarding(s, event) == Forward::CloseUpload,
        event is JobCompleted || event is Other ==> forwarding(s, event) == Forward::Nothing,
        forwarded(s, event).has_results == s.has_results,
        forwarded(s, event).has_live == s.has_live,
        forwarded(s, event).live_log_closed == s.live_log_closed,
        event matches ForwardEventView::JobCompleted { conclusion } ==> forwarded(
            s,
            event,
        ).conclusion == Some(conclusion),
        !(event is JobCompleted) ==> forwarded(s, event).conclusion == s.conclusion,
{
}

/// The live feed is taken as gone exactly once it is closed, and stays so; a
/// line that it could not take changes nothing. At the end every upload is
/// closed, and the combined log is uploaded exactly when there is a results
/// service.
pub proof fn law_feed_and_end(
    sending: &mut ForwarderState,
    send: LiveSend,
    ending: &mut ForwarderState,
    upload: bool,
)
    requires
        call_ensures(ForwarderState::live_sent, (sending, send), ()),
        call_ensures(ForwarderState::finalize_job_logs, (ending,), upload),
    ensures
        send == LiveSend::Closed ==> final(sending)@.live_log_closed,
        send != LiveSend::Closed ==> final(sending)@ == old(sending)@,
        final(sending)@.lines == old(sending)@.lines,
        upload <==> old(ending)@.has_results,
        final(ending)@.uploading.len() == 0,
        final(ending)@.lines == old(ending)@.lines,
        final(ending)@.conclusion == old(ending)@.conclusion,
{
}

/// An event is taken as it should: a log line joins the combined log and goes
/// where it is wanted, and a conclusion is kept.
pub proof fn law_event_is_taken(state: &mut ForwarderState, event: ForwardEvent, r: Forward)
    requires
        call_ensures(ForwarderState::handle_event, (state, event), r),
    ensures
        event matches ForwardEvent::Log { step_id, masked } ==> {
            &&& final(state)@.lines == old(state)@.lines + seq![masked@]
            &&& r == (Forward::SendLine {
                to_step: old(state)@.uploading.contains(step_id@),
                to_live: old(state)@.has_live && !old(state)@.live_log_closed,
            })
        },
        !(event is Log) ==> final(state)@.lines == old(state)@.lines,
        event matches ForwardEvent::JobCompleted { conclusion } ==> final(state)@.conclusion
            == Some(conclusion),
        !(event is JobCompleted) ==> final(state)@.conclusion == old(state)@.conclusion,
        event matches ForwardEvent::StepStarted { .. } ==> (r == Forward::StartUpload <==> old(state)@.has_results),
        event is StepCompleted ==> r == Forward::CloseUpload,
{
    match event {
        ForwardEvent::Log { masked, .. } => {
            assert(old(state)@.lines.push(masked@) =~= old(state)@.lines + seq![masked@]);
        },
        _ => {},
    }
}

/// A forwarder begins with the setup lines, no upload and no conclusion, and
/// concludes as a failure until a conclusion comes.
pub proof fn law_forwarder_begins_with_setup(
    setup: Vec<String>,
    has_results: bool,
    has_live: bool,
    r: ForwarderState,
    conclusion: Conclusion,
)
    requires
        call_ensures(ForwarderState::new, (setup, has_results, has_live), r),
        call_ensures(ForwarderState::final_conclusion, (&r,), conclusion),
    ensures
        r@.lines == text::texts(setup@),
        r@.uploading.len() == 0,
        r@.has_results == has_results,
        r@.has_live == has_live,
        !r@.live_log_closed,
        conclusion == Conclusion::Failure,
{
}

} // verus!
