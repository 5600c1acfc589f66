//! The update loop of one activity: what its task does next. The task
//! writes the values of its activity one after the other, waits after each,
//! waits longer after the last and starts again, until it is cancelled or a
//! write fails.

use vstd::prelude::*;

verus! {

/// Milliseconds to wait after each value.
pub const STEP_DELAY_MS: u64 = 500;

/// Milliseconds to wait after the last value, before the values start again.
pub const CYCLE_DELAY_MS: u64 = 1500;

/// What the task has seen since its last step.
#[derive(Clone, Copy, Debug, PartialEq, Eq, Structural)]
pub enum LoopEvent {
    /// The last action went through.
    Proceed,
    /// The property refused the value that was written.
    WriteFailed,
    /// Cancellation was signalled.
    Cancelled,
}

/// What the task does next.
#[derive(Clone, Copy, Debug, PartialEq, Eq, Structural)]
pub enum LoopAction {
    /// Write this value into the property of the activity.
    Write(char),
    /// Wait this many milliseconds.
    Wait(u64),
    /// End the task.
    Exit,
}

/// What an [`UpdateLoop`] holds: the values, how many of them were taken up
/// in this round, whether the value taken up last was written and its wait
/// is still due, and whether the loop has ended.
pub struct LoopView {
    pub values: Seq<char>,
    pub position: nat,
    pub written: bool,
    pub ended: bool,
}

impl LoopView {
    /// The loop stands within its values.
    pub open spec fn wf(self) -> bool {
        &&& self.position <= self.values.len()
        &&& self.written ==> self.position < self.values.len()
    }

    /// A loop over `values` that has done nothing yet.
    pub open spec fn start(values: Seq<char>) -> LoopView {
        LoopView { values: values, position: 0, written: false, ended: false }
    }

    /// The action that follows on `event`.
    pub open spec fn action(self, event: LoopEvent) -> LoopAction {
        if self.ended || event != LoopEvent::Proceed {
            LoopAction::Exit
        } else if self.position >= self.values.len() {
            LoopAction::Wait(CYCLE_DELAY_MS)
        } else if self.written {
            LoopAction::Wait(STEP_DELAY_MS)
        } else {
            LoopAction::Write(self.values[self.position as int])
        }
    }

    /// The loop after the action that follows on `event`.
    pub open spec fn advance(self, event: LoopEvent) -> LoopView {
        if self.ended || event != LoopEvent::Proceed {
            LoopView { ended: true, ..self }
        } else if self.position >= self.values.len() {
            LoopView { position: 0, written: false, ..self }
        } else if self.written {
            LoopView { position: self.position + 1, written: false, ..self }
        } else {
            LoopView { written: true, ..self }
        }
    }

    /// The loop after `n` actions that all went through.
    pub open spec fn run(self, n: nat) -> LoopView
        decreases n,
    {
        if n == 0 {
            self
        } else {
            self.run((n - 1) as nat).advance(LoopEvent::Proceed)
        }
    }

    /// The action of step `n`, counted from 0, where all before it went
    /// through.
    pub open spec fn action_at(self, n: nat) -> LoopAction {
        self.run(n).action(LoopEvent::Proceed)
    }
}

/// The loop of one task.
#[derive(Debug)]
pub struct UpdateLoop {
    values: Vec<char>,
    position: usize,
    written: bool,
    ended: bool,
}

impl View for UpdateLoop {
    type V = LoopView;

    closed spec fn view(&self) -> LoopView {
        LoopView {
            values: self.values@,
            position: self.position as nat,
            written: self.written,
            ended: self.ended,
        }
    }
}

impl UpdateLoop {
    /// A loop over the characters of `text` that has done nothing yet.
    pub fn new(text: &str) -> (res: Self)
        ensures
            res@ == LoopView::start(text@),
            res@.wf(),
    {
        let mut values: Vec<char> = Vec::new();
        for c in it: text.chars()
            invariant
                it.seq() == text@,
                values@ == text@.take(it.index() as int),
        {
            values.push(c);
            assert(values@ =~= text@.take(it.index() + 1));
        }
        assert(text@.take(text@.len() as int) =~= text@);
        UpdateLoop { values, position: 0, written: false, ended: false }
    }

    /// Whether the loop has ended.
    pub fn has_ended(&self) -> (res: bool)
        ensures
            res == self@.ended,
    {
        self.ended
    }

    /// The next action of the task, given what it has seen since the last
    /// one. After a failed write or a cancellation the loop has ended, and
    /// every further action is [`LoopAction::Exit`].
    pub fn next(&mut self, event: LoopEvent) -> (res: LoopAction)
        requires
            old(self)@.wf(),
        ensures
            res == old(self)@.action(event),
            final(self)@ == old(self)@.advance(event),
            final(self)@.wf(),
    {
        if self.ended {
            return LoopAction::Exit;
        }
        match event {
            LoopEvent::Proceed => {},
            _ => {
                self.ended = true;
                return LoopAction::Exit;
            },
        }
        if self.position >= self.values.len() {
            self.position = 0;
            self.written = false;
            LoopAction::Wait(CYCLE_DELAY_MS)
        } else if self.written {
            self.position = self.position + 1;
            self.written = false;
            LoopAction::Wait(STEP_DELAY_MS)
        } else {
            self.written = true;
            LoopAction::Write(self.values[self.position])
        }
    }
}

/// One round: a loop at the start of its values is back there after two
/// actions per value and one more, and before that it has, for each value
/// in turn, written it and waited the short delay, and at last waited the
/// long delay.
pub proof fn lemma_round(values: Seq<char>, n: nat)
    requires
        n <= 2 * values.len(),
    ensures
        LoopView::start(values).run(n) == (LoopView {
            values: values,
            position: n / 2,
            written: n % 2 == 1,
            ended: false,
        }),
        LoopView::start(values).action_at(n) == if n == 2 * values.len() {
            LoopAction::Wait(CYCLE_DELAY_MS)
        } else if n % 2 == 0 {
            LoopAction::Write(values[(n / 2) as int])
        } else {
            LoopAction::Wait(STEP_DELAY_MS)
        },
        LoopView::start(values).run(2 * values.len() + 1) == LoopView::start(values),
    decreases 2 * values.len() + 1 - n,
{
    lemma_round_prefix(values, n);
    lemma_round_prefix(values, 2 * values.len());
}

/// Where a loop stands after `n` actions of its first round.
proof fn lemma_round_prefix(values: Seq<char>, n: nat)
    requires
        n <= 2 * values.len(),
    ensures
        LoopView::start(values).run(n) == (LoopView {
            values: values,
            position: n / 2,
            written: n % 2 == 1,
            ended: false,
        }),
    decreases n,
{
    if n > 0 {
        lemma_round_prefix(values, (n - 1) as nat);
    }
}

} // verus!
