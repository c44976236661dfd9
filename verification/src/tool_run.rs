//! One run of the tool-call pipeline: the calls of an answer are launched
//! together, finish in any order, and their results are put back in the
//! order of the calls.
use vstd::prelude::*;
use crate::directive::{
    extract_tool_uses, lemma_strip_without_tool_uses, strip_tool_uses, tool_uses, without_tool_uses,
};
use crate::tools::{
    joined, outcome_result, result_of, result_views, text_views, TaskOutcome, TaskOutcomeView,
    ToolResult, ToolResultView,
};

verus! {

/// The state of a run: the answer without its directives, the call text of
/// each directive in order of appearance, and for each call how it ended,
/// once that is known.
#[derive(Debug)]
pub struct ToolRun {
    pub clean_answer: String,
    pub calls: Vec<String>,
    pub outcomes: Vec<Option<TaskOutcome>>,
}

/// The model of a [`ToolRun`].
pub struct ToolRunView {
    pub clean_answer: Seq<char>,
    pub calls: Seq<Seq<char>>,
    pub outcomes: Seq<Option<TaskOutcomeView>>,
}

impl View for ToolRun {
    type V = ToolRunView;

    open spec fn view(&self) -> ToolRunView {
        ToolRunView {
            clean_answer: self.clean_answer@,
            calls: text_views(self.calls@),
            outcomes: Seq::new(
                self.outcomes@.len(),
                |i: int|
                    match self.outcomes@[i] {
                        Some(outcome) => Some(outcome@),
                        None => None,
                    },
            ),
        }
    }
}

impl ToolRunView {
    /// There is one slot for each call.
    pub open spec fn wf(self) -> bool {
        self.outcomes.len() == self.calls.len()
    }

    /// The run of `answer` before any call has ended.
    pub open spec fn started(answer: Seq<char>) -> ToolRunView {
        ToolRunView {
            clean_answer: without_tool_uses(answer),
            calls: tool_uses(answer),
            outcomes: Seq::new(tool_uses(answer).len(), |i: int| None),
        }
    }

    /// Whether the end of the call at `position` can be recorded: the call
    /// exists and has not ended before.
    pub open spec fn awaits(self, position: int) -> bool {
        0 <= position < self.outcomes.len() && self.outcomes[position] is None
    }

    /// The run after the call at `position` ended with `outcome`.
    pub open spec fn recorded(self, position: int, outcome: TaskOutcomeView) -> ToolRunView {
        if self.awaits(position) {
            ToolRunView {
                clean_answer: self.clean_answer,
                calls: self.calls,
                outcomes: self.outcomes.update(position, Some(outcome)),
            }
        } else {
            self
        }
    }

    /// Whether every call has ended.
    pub open spec fn complete(self) -> bool {
        forall|i: int| 0 <= i < self.outcomes.len() ==> (#[trigger] self.outcomes[i]) is Some
    }

    /// How the calls ended, in the order of the calls.
    pub open spec fn ends(self) -> Seq<TaskOutcomeView> {
        Seq::new(self.outcomes.len(), |i: int| self.outcomes[i]->Some_0)
    }

    /// The results of a run whose calls have all ended: one for each call,
    /// at the position of the call.
    pub open spec fn results(self) -> Seq<ToolResultView> {
        joined(self.ends())
    }
}

/// The results do not depend on the order in which the calls end:
/// recording the ends of two calls in either order gives the same run.
pub proof fn lemma_order_of_completion(
    run: ToolRunView,
    first: int,
    first_outcome: TaskOutcomeView,
    second: int,
    second_outcome: TaskOutcomeView,
)
    requires
        first != second,
    ensures
        run.recorded(first, first_outcome).recorded(second, second_outcome) == run.recorded(
            second,
            second_outcome,
        ).recorded(first, first_outcome),
{
    let one = run.recorded(first, first_outcome).recorded(second, second_outcome);
    let other = run.recorded(second, second_outcome).recorded(first, first_outcome);
    assert(one.outcomes =~= other.outcomes);
}

/// A run of an answer with `k` directives that has seen all its calls end
/// has exactly `k` results, the one at each position being that of the
/// directive at that position in the answer, however the calls ended.
pub proof fn lemma_results_are_aligned(answer: Seq<char>, run: ToolRunView)
    requires
        run.wf(),
        run.calls == tool_uses(answer),
        run.complete(),
    ensures
        run.results().len() == tool_uses(answer).len(),
        forall|i: int|
            0 <= i < run.results().len() ==> run.results()[i] == result_of(
                run.outcomes[i]->Some_0,
                i as nat,
            ),
{
}

/// Recording the end of a call keeps the slots one for each call, leaves
/// the answer and the calls as they are, and touches no other slot.
pub proof fn lemma_recorded_keeps(run: ToolRunView, position: int, outcome: TaskOutcomeView)
    requires
        run.wf(),
    ensures
        run.recorded(position, outcome).wf(),
        run.recorded(position, outcome).calls == run.calls,
        run.recorded(position, outcome).clean_answer == run.clean_answer,
        forall|i: int|
            0 <= i < run.outcomes.len() && i != position ==> run.recorded(position, outcome).outcomes[i]
                == run.outcomes[i],
        run.awaits(position) ==> run.recorded(position, outcome).outcomes[position] == Some(outcome),
{
}

impl ToolRun {
    /// Takes `answer` apart and starts its run. An answer without directives
    /// is kept as it is, with no calls.
    pub fn start(answer: String) -> (run: ToolRun)
        ensures
            run@ == ToolRunView::started(answer@),
            run@.wf(),
            tool_uses(answer@).len() == 0 ==> run.clean_answer@ == answer@,
    {
        let calls = extract_tool_uses(answer.as_str());
        proof {
            assert(text_views(calls@) =~= tool_uses(answer@));
        }
        let mut outcomes: Vec<Option<TaskOutcome>> = Vec::new();
        let mut i: usize = 0;
        while i < calls.len()
            invariant
                i <= calls@.len(),
                outcomes@.len() == i,
                forall|j: int| 0 <= j < i ==> (#[trigger] outcomes@[j]) is None,
            decreases calls@.len() - i,
        {
            outcomes.push(None);
            i += 1;
        }
        let clean_answer = if calls.len() == 0 {
            proof {
                lemma_strip_without_tool_uses(answer@);
            }
            answer
        } else {
            strip_tool_uses(answer.as_str())
        };
        let run = ToolRun { clean_answer, calls, outcomes };
        proof {
            assert(run@.outcomes =~= ToolRunView::started(answer@).outcomes);
        }
        run
    }

    /// The number of calls of this run.
    pub fn call_count(&self) -> (n: usize)
        ensures
            n == self.calls@.len(),
    {
        self.calls.len()
    }

    /// Records that the call at `position` ended with `outcome`. Returns
    /// whether it was recorded: a position that is no call's, and a second
    /// end of the same call, change nothing.
    pub fn record(&mut self, position: usize, outcome: TaskOutcome) -> (done: bool)
        ensures
            done == old(self)@.awaits(position as int),
            final(self)@ == old(self)@.recorded(position as int, outcome@),
    {
        if position >= self.outcomes.len() {
            return false;
        }
        let free = match &self.outcomes[position] {
            None => true,
            Some(_) => false,
        };
        if !free {
            return false;
        }
        self.outcomes.set(position, Some(outcome));
        proof {
            assert(self@.outcomes =~= old(self)@.recorded(position as int, outcome@).outcomes);
        }
        true
    }

    /// Whether every call has ended.
    pub fn is_complete(&self) -> (r: bool)
        ensures
            r == self@.complete(),
    {
        let mut i: usize = 0;
        while i < self.outcomes.len()
            invariant
                i <= self.outcomes@.len(),
                forall|j: int| 0 <= j < i ==> (#[trigger] self@.outcomes[j]) is Some,
            decreases self.outcomes@.len() - i,
        {
            let ended = match &self.outcomes[i] {
                Some(_) => true,
                None => false,
            };
            if !ended {
                assert(self@.outcomes[i as int] is None);
                return false;
            }
            i += 1;
        }
        true
    }

    /// Ends the run: the clean answer, and one result for each call, in the
    /// order in which the calls appear in the answer. `None` while a call
    /// has not ended.
    pub fn finish(self) -> (r: Option<(String, Vec<ToolResult>)>)
        ensures
            match r {
                Some((clean_answer, results)) => self@.complete() && clean_answer == self.clean_answer
                    && result_views(results@) == self@.results() && results@.len()
                    == self.outcomes@.len(),
                None => !self@.complete(),
            },
    {
        if !self.is_complete() {
            return None;
        }
        let mut results: Vec<ToolResult> = Vec::new();
        let mut i: usize = 0;
        while i < self.outcomes.len()
            invariant
                self@.complete(),
                i <= self.outcomes@.len(),
                results@.len() == i,
                forall|j: int|
                    0 <= j < i ==> (#[trigger] results@[j])@ == result_of(
                        self@.outcomes[j]->Some_0,
                        j as nat,
                    ),
            decreases self.outcomes@.len() - i,
        {
            assert(self@.outcomes[i as int] is Some);
            match &self.outcomes[i] {
                Some(outcome) => {
                    results.push(outcome_result(outcome, i));
                },
                None => {},
            }
            i += 1;
        }
        proof {
            assert(result_views(results@) =~= self@.results());
        }
        Some((self.clean_answer, results))
    }
}

} // verus!
