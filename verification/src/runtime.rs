//! The lifecycle of the background tasks: which tasks are live, how a
//! shutdown waits for them, and what a reset clears.

use vstd::prelude::*;

verus! {

/// Where the runtime stands.
#[derive(Clone, Copy, Debug, PartialEq, Eq, Structural)]
pub enum RuntimeState {
    /// No task is live; tasks may be spawned.
    Idle,
    /// Tasks were spawned; any number of them may have ended by themselves.
    Running,
    /// Cancellation was requested and some task has not ended yet.
    ShuttingDown,
}

/// Names one task: the batch it was spawned in and its number in the batch.
#[derive(Clone, Copy, Debug, PartialEq, Eq, Structural)]
pub struct TaskId {
    pub generation: u64,
    pub serial: usize,
}

/// What a [`ProducerRuntime`] holds: its state, the number of the current
/// batch, and for each task of the batch whether it has ended.
pub struct RuntimeView {
    pub state: RuntimeState,
    pub generation: u64,
    pub ended: Seq<bool>,
}

impl RuntimeView {
    /// The task was spawned in the current batch and has not ended: only
    /// such a task may still write.
    pub open spec fn live(self, task: TaskId) -> bool {
        &&& task.generation == self.generation
        &&& task.serial < self.ended.len()
        &&& !self.ended[task.serial as int]
    }

    /// No task is live.
    pub open spec fn quiet(self) -> bool {
        forall|i: int| 0 <= i < self.ended.len() ==> #[trigger] self.ended[i]
    }

    /// An idle runtime has no live task, a shutdown is under way only while
    /// some task is live, and the tasks of the batch can be numbered.
    pub open spec fn wf(self) -> bool {
        &&& self.ended.len() <= usize::MAX
        &&& self.state == RuntimeState::Idle ==> self.quiet()
        &&& self.state == RuntimeState::ShuttingDown ==> !self.quiet()
    }

    /// The live tasks of the first `n` of the batch, in the order in which
    /// they were spawned.
    pub open spec fn live_among(self, n: nat) -> Seq<TaskId>
        decreases n,
    {
        if n == 0 {
            Seq::empty()
        } else {
            let rest = self.live_among((n - 1) as nat);
            if n <= self.ended.len() && !self.ended[n - 1] {
                rest.push(TaskId { generation: self.generation, serial: (n - 1) as usize })
            } else {
                rest
            }
        }
    }

    /// The live tasks, in the order in which they were spawned.
    pub open spec fn live_tasks(self) -> Seq<TaskId> {
        self.live_among(self.ended.len())
    }

    /// A runtime that has spawned nothing yet.
    pub open spec fn fresh() -> RuntimeView {
        RuntimeView { state: RuntimeState::Idle, generation: 0, ended: Seq::empty() }
    }

    /// The task that the spawn after `ahead` more spawns starts.
    pub open spec fn task_number(self, ahead: int) -> TaskId {
        TaskId { generation: self.generation, serial: (self.ended.len() + ahead) as usize }
    }

    /// The task that the next spawn starts.
    pub open spec fn next_task(self) -> TaskId {
        self.task_number(0)
    }

    /// After a spawn: one more live task, and the runtime is running.
    pub open spec fn spawn(self) -> RuntimeView {
        RuntimeView { state: RuntimeState::Running, ended: self.ended.push(false), ..self }
    }

    /// After cancellation was requested: idle at once where no task is
    /// live, else shutting down until the last live task has ended.
    pub open spec fn begin_shutdown(self) -> RuntimeView {
        RuntimeView {
            state: if self.quiet() {
                RuntimeState::Idle
            } else {
                RuntimeState::ShuttingDown
            },
            ..self
        }
    }

    /// After a task has ended, by itself, by a failure or on cancellation: it
    /// is live no more, and a shutdown that waited for it alone is complete.
    /// The end of a task that is not live changes nothing.
    pub open spec fn task_ended(self, task: TaskId) -> RuntimeView {
        if self.live(task) {
            let ended = self.ended.update(task.serial as int, true);
            let after = RuntimeView { ended: ended, ..self };
            RuntimeView {
                state: if self.state == RuntimeState::ShuttingDown && after.quiet() {
                    RuntimeState::Idle
                } else {
                    self.state
                },
                ..after
            }
        } else {
            self
        }
    }

    /// After the given tasks have ended, one after the other.
    pub open spec fn tasks_ended(self, tasks: Seq<TaskId>) -> RuntimeView
        decreases tasks.len(),
    {
        if tasks.len() == 0 {
            self
        } else {
            self.tasks_ended(tasks.drop_last()).task_ended(tasks.last())
        }
    }

    /// After a reset: a new, empty batch.
    pub open spec fn reset(self) -> RuntimeView {
        RuntimeView {
            state: RuntimeState::Idle,
            generation: if self.generation == u64::MAX {
                0
            } else {
                (self.generation + 1) as u64
            },
            ended: Seq::empty(),
        }
    }

    /// After `n` spawns in a row.
    pub open spec fn spawn_many(self, n: nat) -> RuntimeView
        decreases n,
    {
        if n == 0 {
            self
        } else {
            self.spawn_many((n - 1) as nat).spawn()
        }
    }
}

/// The owner of the background tasks. It keeps account of the tasks that
/// were spawned and not yet seen to end; the caller runs them, signals
/// cancellation to those that [`ProducerRuntime::begin_shutdown`] names and
/// reports each end with [`ProducerRuntime::task_ended`].
#[derive(Debug)]
pub struct ProducerRuntime {
    state: RuntimeState,
    generation: u64,
    ended: Vec<bool>,
}

impl View for ProducerRuntime {
    type V = RuntimeView;

    closed spec fn view(&self) -> RuntimeView {
        RuntimeView { state: self.state, generation: self.generation, ended: self.ended@ }
    }
}

impl ProducerRuntime {
    /// A runtime that has spawned nothing yet.
    pub fn new() -> (res: Self)
        ensures
            res@ == RuntimeView::fresh(),
            res@.wf(),
    {
        ProducerRuntime { state: RuntimeState::Idle, generation: 0, ended: Vec::new() }
    }

    /// Where the runtime stands.
    pub fn state(&self) -> (res: RuntimeState)
        ensures
            res == self@.state,
    {
        self.state
    }

    /// Whether every task of the batch has ended.
    fn is_quiet(&self) -> (res: bool)
        ensures
            res == self@.quiet(),
    {
        let mut i: usize = 0;
        while i < self.ended.len()
            invariant
                i <= self.ended.len(),
                forall|j: int| 0 <= j < i ==> #[trigger] self.ended@[j],
            decreases self.ended.len() - i,
        {
            if !self.ended[i] {
                assert(!self@.ended[i as int]);
                return false;
            }
            i += 1;
        }
        true
    }

    /// Whether the task may still write: it was spawned in the current
    /// batch and has not ended.
    pub fn is_live(&self, task: TaskId) -> (res: bool)
        ensures
            res == self@.live(task),
    {
        task.generation == self.generation && task.serial < self.ended.len()
            && !self.ended[task.serial]
    }

    /// The live tasks, in the order in which they were spawned.
    pub fn live_tasks(&self) -> (res: Vec<TaskId>)
        ensures
            res@ == self@.live_tasks(),
    {
        let mut tasks: Vec<TaskId> = Vec::new();
        let mut i: usize = 0;
        while i < self.ended.len()
            invariant
                i <= self.ended.len(),
                tasks@ == self@.live_among(i as nat),
            decreases self.ended.len() - i,
        {
            if !self.ended[i] {
                tasks.push(TaskId { generation: self.generation, serial: i });
            }
            i += 1;
        }
        tasks
    }

    /// Accounts for one more task and names it. The caller starts the work.
    ///
    /// No task is spawned while a shutdown is under way.
    pub fn spawn(&mut self) -> (task: TaskId)
        requires
            old(self)@.wf(),
            old(self)@.state != RuntimeState::ShuttingDown,
        ensures
            final(self)@ == old(self)@.spawn(),
            final(self)@.wf(),
            task == old(self)@.next_task(),
            final(self)@.live(task),
    {
        let task = TaskId { generation: self.generation, serial: self.ended.len() };
        self.ended.push(false);
        self.state = RuntimeState::Running;
        assert(!self@.ended[task.serial as int]);
        assert(self.ended@.len() == self.ended.len());
        task
    }

    /// Requests cancellation and names the tasks to signal: the live ones.
    /// The shutdown is complete, and the runtime idle, once each of them was
    /// reported with [`Self::task_ended`]; where no task is live it is
    /// complete at once.
    pub fn begin_shutdown(&mut self) -> (pending: Vec<TaskId>)
        requires
            old(self)@.wf(),
        ensures
            final(self)@ == old(self)@.begin_shutdown(),
            final(self)@.wf(),
            pending@ == old(self)@.live_tasks(),
    {
        let pending = self.live_tasks();
        let quiet = self.is_quiet();
        if quiet {
            self.state = RuntimeState::Idle;
        } else {
            self.state = RuntimeState::ShuttingDown;
        }
        assert(self@.ended == old(self)@.ended);
        assert(self@.quiet() == quiet);
        pending
    }

    /// Records that a task has ended, whether by itself, by a failure or on
    /// cancellation. The other tasks are not affected.
    pub fn task_ended(&mut self, task: TaskId)
        requires
            old(self)@.wf(),
        ensures
            final(self)@ == old(self)@.task_ended(task),
            final(self)@.wf(),
            !final(self)@.live(task),
    {
        if self.is_live(task) {
            self.ended.set(task.serial, true);
            if self.state == RuntimeState::ShuttingDown && self.is_quiet() {
                self.state = RuntimeState::Idle;
            }
            proof {
                let before = old(self)@;
                if before.state == RuntimeState::Idle {
                    assert(before.ended[task.serial as int]);
                }
                if self@.state == RuntimeState::Idle && before.state == RuntimeState::Idle {
                    assert(self@.quiet());
                }
            }
        }
    }

    /// Starts a new, empty batch: what was kept of the ended tasks is
    /// dropped, and none of their names is ever live again in this batch.
    ///
    /// Only an idle runtime is reset: a shutdown comes first.
    pub fn reset(&mut self)
        requires
            old(self)@.wf(),
            old(self)@.state == RuntimeState::Idle,
        ensures
            final(self)@ == old(self)@.reset(),
            final(self)@.wf(),
    {
        self.ended.clear();
        self.generation = if self.generation == u64::MAX {
            0
        } else {
            self.generation + 1
        };
        self.state = RuntimeState::Idle;
    }
}

/// Spawning keeps the runtime in order, takes it out of a shutdown never,
/// and leaves the batch `n` tasks longer, none of the new ones ended.
pub proof fn lemma_spawn_many(runtime: RuntimeView, n: nat)
    requires
        runtime.wf(),
        runtime.state != RuntimeState::ShuttingDown,
        runtime.ended.len() + n <= usize::MAX,
    ensures
        runtime.spawn_many(n).wf(),
        runtime.spawn_many(n).state != RuntimeState::ShuttingDown,
        runtime.spawn_many(n).generation == runtime.generation,
        runtime.spawn_many(n).ended.len() == runtime.ended.len() + n,
        forall|i: int|
            0 <= i < runtime.ended.len() ==> runtime.spawn_many(n).ended[i] == runtime.ended[i],
        forall|i: int|
            runtime.ended.len() <= i < runtime.ended.len() + n ==> !runtime.spawn_many(n).ended[i],
    decreases n,
{
    if n > 0 {
        lemma_spawn_many(runtime, (n - 1) as nat);
        let before = runtime.spawn_many((n - 1) as nat);
        assert(!before.spawn().ended[before.ended.len() as int]);
    }
}

/// What the runtime holds while the tasks named by a request for
/// cancellation end one after the other.
proof fn lemma_shutdown_progress(runtime: RuntimeView, n: nat)
    requires
        runtime.wf(),
        n <= runtime.ended.len(),
    ensures
        ({
            let now = runtime.begin_shutdown().tasks_ended(runtime.live_among(n));
            &&& now.generation == runtime.generation
            &&& now.ended.len() == runtime.ended.len()
            &&& forall|i: int|
                0 <= i < now.ended.len() ==> now.ended[i] == (runtime.ended[i] || i < n)
            &&& now.state == if now.quiet() {
                RuntimeState::Idle
            } else {
                RuntimeState::ShuttingDown
            }
        }),
    decreases n,
{
    let start = runtime.begin_shutdown();
    if n == 0 {
        assert(runtime.live_among(0) =~= Seq::<TaskId>::empty());
        assert(start.quiet() == runtime.quiet());
    } else {
        lemma_shutdown_progress(runtime, (n - 1) as nat);
        let before = start.tasks_ended(runtime.live_among((n - 1) as nat));
        if !runtime.ended[n - 1] {
            let task = TaskId { generation: runtime.generation, serial: (n - 1) as usize };
            let tasks = runtime.live_among(n);
            assert(tasks.drop_last() =~= runtime.live_among((n - 1) as nat));
            assert(tasks.last() == task);
            assert(!before.ended[n - 1]);
            assert(before.live(task));
            assert(!before.quiet());
        }
    }
}

/// Shutdown: once cancellation was requested and each task that the request
/// named has ended, the runtime is idle and no task whatever is live, so
/// none writes any more.
pub proof fn lemma_shutdown_silences(runtime: RuntimeView, task: TaskId)
    requires
        runtime.wf(),
    ensures
        runtime.begin_shutdown().tasks_ended(runtime.live_tasks()).state == RuntimeState::Idle,
        !runtime.begin_shutdown().tasks_ended(runtime.live_tasks()).live(task),
{
    lemma_shutdown_progress(runtime, runtime.ended.len());
    let now = runtime.begin_shutdown().tasks_ended(runtime.live_tasks());
    assert(now.quiet());
}

/// Shutdown after `n` spawns: the same holds of a runtime that has just
/// spawned any number of tasks.
pub proof fn lemma_spawn_then_shutdown(runtime: RuntimeView, n: nat, task: TaskId)
    requires
        runtime.wf(),
        runtime.state != RuntimeState::ShuttingDown,
        runtime.ended.len() + n <= usize::MAX,
    ensures
        ({
            let spawned = runtime.spawn_many(n);
            let now = spawned.begin_shutdown().tasks_ended(spawned.live_tasks());
            now.state == RuntimeState::Idle && !now.live(task)
        }),
{
    lemma_spawn_many(runtime, n);
    lemma_shutdown_silences(runtime.spawn_many(n), task);
}

/// Reset: the tasks live after a reset and `n` spawns are exactly the `n`
/// new ones, and no task of the batch before is among them.
pub proof fn lemma_fresh_batch(runtime: RuntimeView, n: nat, task: TaskId)
    requires
        runtime.wf(),
        runtime.state == RuntimeState::Idle,
        n <= usize::MAX,
    ensures
        runtime.reset().spawn_many(n).ended.len() == n,
        runtime.reset().spawn_many(n).live(task) <==> task.generation
            == runtime.reset().generation && task.serial < n,
        task.generation == runtime.generation ==> !runtime.reset().spawn_many(n).live(task),
{
    lemma_spawn_many(runtime.reset(), n);
}

/// The end of one task, by failure or otherwise, leaves every other task
/// as live as it was.
pub proof fn lemma_task_end_is_local(runtime: RuntimeView, task: TaskId, other: TaskId)
    requires
        other != task,
    ensures
        runtime.task_ended(task).live(other) == runtime.live(other),
{
}

} // verus!
