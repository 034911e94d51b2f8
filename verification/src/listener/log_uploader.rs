//! Collecting a step's log lines until the step ends.

use vstd::prelude::*;

use crate::text;

verus! {

/// Most lines in flight to a step's collector.
pub const CHANNEL_CAPACITY: usize = 4096;

/// Where a step's log goes.
#[derive(Debug)]
pub struct StreamerConfig {
    pub results_url: String,
    pub token: String,
    pub run_backend_id: String,
    pub job_backend_id: String,
    pub step_backend_id: String,
    pub step_name: String,
}

/// The lines of one step.
pub struct StepLogStreamer {
    all_lines: Vec<String>,
}

impl View for StepLogStreamer {
    type V = Seq<Seq<char>>;

    closed spec fn view(&self) -> Seq<Seq<char>> {
        text::texts(self.all_lines@)
    }
}

impl StepLogStreamer {
    /// No lines yet.
    pub fn new() -> (r: StepLogStreamer)
        ensures
            r@ == Seq::<Seq<char>>::empty(),
    {
        let r = StepLogStreamer { all_lines: Vec::new() };
        assert(r@ =~= Seq::empty());
        r
    }

    /// Takes a line.
    pub fn receive(&mut self, line: String)
        ensures
            final(self)@ == old(self)@.push(line@),
    {
        let ghost before = self@;
        self.all_lines.push(line);
        assert(self@ =~= before.push(line@));
    }

    /// All lines, in the order they came.
    pub fn finalize(self) -> (r: Vec<String>)
        ensures
            text::texts(r@) == self@,
    {
        self.all_lines
    }
}

/// Every line that a step logs is kept, in the order it came, until the step
/// ends.
pub proof fn law_lines_are_kept_in_order(
    streamer: &mut StepLogStreamer,
    line: String,
    done: StepLogStreamer,
    lines: Vec<String>,
)
    requires
        call_ensures(StepLogStreamer::receive, (streamer, line), ()),
        call_ensures(StepLogStreamer::finalize, (done,), lines),
    ensures
        final(streamer)@ == old(streamer)@ + seq![line@],
        lines@.len() == done@.len(),
        forall|i: int| 0 <= i < done@.len() ==> (#[trigger] lines@[i])@ == done@[i],
{
    assert(old(streamer)@.push(line@) =~= old(streamer)@ + seq![line@]);
    text::law_texts_are_those_of_the_strings(lines@, None);
    assert forall|i: int| 0 <= i < done@.len() implies (#[trigger] lines@[i])@ == done@[i] by {
        assert(text::texts(lines@)[i] == lines@[i]@);
    }
}

} // verus!
