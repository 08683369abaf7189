//! Timelines: pre-authored sequences of emit and wait directives, consumed
//! one step at a time.

use crate::error::{ErrorView, KituError};
use crate::text::{
    lemma_lines_unfold, line_window, lines, parse_u64, parse_u64_window, starts_with,
    string_from, to_chars, trim, trim_window, window_starts_with,
};
use crate::tick::Tick;
use std::collections::VecDeque;
use vstd::prelude::*;

verus! {

/// One directive of a timeline.
#[derive(Debug, Clone, PartialEq, Eq)]
pub enum TimelineStep {
    /// Emit the label.
    Emit(String),
    /// Hold back further emissions for this many ticks.
    Wait(u64),
}

/// Mathematical value of a [`TimelineStep`].
pub enum StepView {
    Emit(Seq<char>),
    Wait(u64),
}

impl View for TimelineStep {
    type V = StepView;

    open spec fn view(&self) -> StepView {
        match self {
            TimelineStep::Emit(label) => StepView::Emit(label@),
            TimelineStep::Wait(ticks) => StepView::Wait(*ticks),
        }
    }
}

/// What one line of a script says.
pub enum Directive {
    /// Nothing but whitespace.
    Blank,
    /// A well-formed directive.
    Step(StepView),
    /// `wait:` followed by something that is no number.
    BadWait,
    /// Anything else.
    Unknown,
}

/// Reads one line of a script. Whitespace around the line, and around what
/// follows the colon, does not count.
pub open spec fn read_line(line: Seq<char>) -> Directive {
    let text = trim(line);
    if text.len() == 0 {
        Directive::Blank
    } else if starts_with(text, "emit:"@) {
        Directive::Step(StepView::Emit(trim(text.skip("emit:"@.len() as int))))
    } else if starts_with(text, "wait:"@) {
        match parse_u64(trim(text.skip("wait:"@.len() as int))) {
            Some(ticks) => Directive::Step(StepView::Wait(ticks)),
            None => Directive::BadWait,
        }
    } else {
        Directive::Unknown
    }
}

/// The failure reported for a `wait:` without a number.
pub open spec fn bad_wait() -> ErrorView {
    ErrorView::InvalidInput("wait expects integer"@)
}

/// The failure reported for a line that is no directive.
pub open spec fn unknown_directive() -> ErrorView {
    ErrorView::InvalidInput("unknown directive"@)
}

/// Reads the lines of a script in order. Blank lines are skipped; the first
/// line that is no directive fails the whole script.
pub open spec fn read_lines(lines: Seq<Seq<char>>) -> Result<Seq<StepView>, ErrorView>
    decreases lines.len(),
{
    if lines.len() == 0 {
        Ok(Seq::empty())
    } else {
        match read_line(lines[0]) {
            Directive::BadWait => Err(bad_wait()),
            Directive::Unknown => Err(unknown_directive()),
            Directive::Blank => read_lines(lines.skip(1)),
            Directive::Step(step) => match read_lines(lines.skip(1)) {
                Ok(rest) => Ok(seq![step] + rest),
                Err(e) => Err(e),
            },
        }
    }
}

/// The steps that a script describes, or the failure of its first bad line.
pub open spec fn parse_script(script: Seq<char>) -> Result<Seq<StepView>, ErrorView> {
    read_lines(lines(script))
}

/// The steps `done` followed by the outcome `rest` of what is still unread.
pub open spec fn followed_by(done: Seq<StepView>, rest: Result<Seq<StepView>, ErrorView>) -> Result<
    Seq<StepView>,
    ErrorView,
> {
    match rest {
        Ok(steps) => Ok(done + steps),
        Err(e) => Err(e),
    }
}

/// The values of a queue of steps.
pub open spec fn step_views(steps: Seq<TimelineStep>) -> Seq<StepView> {
    steps.map_values(|step: TimelineStep| step@)
}

/// Reading a line and then the rest is reading all of it.
proof fn lemma_read_lines_step(done: Seq<StepView>, line: Seq<char>, rest: Seq<Seq<char>>)
    ensures
        followed_by(done, read_lines(seq![line] + rest)) == match read_line(line) {
            Directive::BadWait => Err(bad_wait()),
            Directive::Unknown => Err(unknown_directive()),
            Directive::Blank => followed_by(done, read_lines(rest)),
            Directive::Step(step) => followed_by(done.push(step), read_lines(rest)),
        },
{
    let all = seq![line] + rest;
    assert(all[0] == line);
    assert(all.skip(1) =~= rest);
    match read_line(line) {
        Directive::Step(step) => {
            match read_lines(rest) {
                Ok(steps) => {
                    assert(done + (seq![step] + steps) =~= done.push(step) + steps);
                },
                Err(_) => {},
            }
        },
        _ => {},
    }
}

/// A parsed script: its steps, in the order in which they were written.
#[derive(Debug, Clone, PartialEq, Eq)]
pub struct Timeline {
    steps: VecDeque<TimelineStep>,
}

impl View for Timeline {
    type V = Seq<StepView>;

    closed spec fn view(&self) -> Seq<StepView> {
        step_views(self.steps@)
    }
}

impl Default for Timeline {
    /// The timeline without steps.
    fn default() -> (timeline: Timeline)
        ensures
            timeline@ == Seq::<StepView>::empty(),
    {
        let timeline = Timeline { steps: VecDeque::new() };
        assert(timeline@ =~= Seq::<StepView>::empty());
        timeline
    }
}

impl Timeline {
    /// Parses a script. Each line is `emit:<label>` or `wait:<ticks>`; blank
    /// lines are skipped. One bad line fails the whole script: a `wait:`
    /// without a number that fits in 64 bits, or a line that is neither.
    pub fn parse(script: &str) -> (outcome: Result<Timeline, KituError>)
        ensures
            match parse_script(script@) {
                Ok(steps) => outcome matches Ok(timeline) && timeline@ == steps,
                Err(e) => outcome matches Err(failure) && failure@ == e,
            },
    {
        let chars = to_chars(script);
        let mut steps: VecDeque<TimelineStep> = VecDeque::new();
        let mut pos: usize = 0;
        assert(chars@.skip(0) =~= chars@);
        assert(step_views(steps@) =~= Seq::<StepView>::empty());
        assert(followed_by(Seq::<StepView>::empty(), read_lines(lines(script@))) == read_lines(
            lines(script@),
        )) by {
            match read_lines(lines(script@)) {
                Ok(all) => {
                    assert(Seq::<StepView>::empty() + all =~= all);
                },
                Err(_) => {},
            }
        }
        while pos < chars.len()
            invariant
                pos <= chars@.len(),
                chars@ == script@,
                parse_script(script@) == followed_by(
                    step_views(steps@),
                    read_lines(lines(chars@.skip(pos as int))),
                ),
            decreases chars@.len() - pos,
        {
            let ghost rest = chars@.skip(pos as int);
            let ghost done = step_views(steps@);
            let (end, next) = line_window(&chars, pos);
            let ghost line = chars@.subrange(pos as int, end as int);
            let ghost unread = chars@.skip(next as int);
            proof {
                lemma_lines_unfold(chars@, pos as int);
                lemma_read_lines_step(done, line, lines(unread));
                reveal_strlit("emit:");
                reveal_strlit("wait:");
            }
            let (a, b) = trim_window(&chars, pos, end);
            let ghost text = chars@.subrange(a as int, b as int);
            if a == b {
            } else if window_starts_with(&chars, a, b, "emit:") {
                assert(text.skip(5) =~= chars@.subrange(a + 5, b as int));
                let (la, lb) = trim_window(&chars, a + 5, b);
                let label = string_from(&chars, la, lb);
                steps.push_back(TimelineStep::Emit(label));
                assert(step_views(steps@) =~= done.push(StepView::Emit(label@)));
            } else if window_starts_with(&chars, a, b, "wait:") {
                assert(text.skip(5) =~= chars@.subrange(a + 5, b as int));
                let (na, nb) = trim_window(&chars, a + 5, b);
                match parse_u64_window(&chars, na, nb) {
                    Some(ticks) => {
                        steps.push_back(TimelineStep::Wait(ticks));
                        assert(step_views(steps@) =~= done.push(StepView::Wait(ticks)));
                    },
                    None => {
                        return Err(KituError::InvalidInput("wait expects integer"));
                    },
                }
            } else {
                return Err(KituError::InvalidInput("unknown directive"));
            }
            pos = next;
        }
        assert(lines(chars@.skip(pos as int)) =~= Seq::<Seq<char>>::empty());
        assert(step_views(steps@) + Seq::<StepView>::empty() =~= step_views(steps@));
        Ok(Timeline { steps })
    }

    /// Removes the first step and returns it; `None` once the timeline is
    /// exhausted. The tick makes no difference to the outcome.
    pub fn next_step(&mut self, tick: Tick) -> (step: Option<TimelineStep>)
        ensures
            old(self)@.len() == 0 ==> step is None && final(self)@ == old(self)@,
            old(self)@.len() > 0 ==> (step matches Some(s) && s@ == old(self)@[0]) && final(self)@
                == old(self)@.skip(1),
    {
        let step = self.steps.pop_front();
        proof {
            if old(self).steps@.len() > 0 {
                assert(step_views(self.steps@) =~= step_views(old(self).steps@).skip(1));
            }
        }
        step
    }

    /// Whether every step has been consumed.
    pub fn is_finished(&self) -> (finished: bool)
        ensures
            finished == (self@.len() == 0),
    {
        self.steps.len() == 0
    }

    /// The number of steps that are left.
    pub fn len(&self) -> (n: usize)
        ensures
            n == self@.len(),
    {
        self.steps.len()
    }

    /// Whether no step is left.
    pub fn is_empty(&self) -> (empty: bool)
        ensures
            empty == (self@.len() == 0),
    {
        self.steps.len() == 0
    }
}

} // verus!
