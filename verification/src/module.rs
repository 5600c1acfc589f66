//! The module: its configuration, its live activities and its background
//! tasks, and the passes that keep the three in line.

use crate::config::{
    builtin_main_config, ingest, lemma_with_default_window, ConfigError, DeTemplateConfigMain,
    MainConfigView, MainOverrideView, TemplateConfigMain,
};
use crate::convergence::{distinct_windows, kept, reconciled};
use crate::identifier::{slot_id, IdView, InstanceId};
use crate::pass::{
    lemma_all_removed, lemma_next_removal, lemma_no_removal_yet, lemma_pass_is_clean, not_among,
    pair_ids, registered, turned_away,
};
use crate::reconciler::{
    activities_to_update, additions, id_views, ref_views, removals, slot_views,
};
use crate::registry::ActivityRegistry;
use crate::runtime::{ProducerRuntime, RuntimeState, RuntimeView, TaskId};
use crate::update_loop::{LoopView, UpdateLoop};
use vstd::prelude::*;

verus! {

/// The state of the module. `A` is what the shell holds for one activity:
/// its widget and its properties.
pub struct MusicModule<A> {
    config: TemplateConfigMain,
    registry: ActivityRegistry<A>,
    producers_rt: ProducerRuntime,
}

/// A background task to run: its name in the account of the runtime, the
/// activity it feeds, and its loop.
#[derive(Debug)]
pub struct ProducerTask {
    pub task: TaskId,
    pub activity: InstanceId,
    pub update: UpdateLoop,
}

/// The values that the task of an activity writes: the characters of the
/// first nested option configured for its slot.
pub open spec fn task_values(config: MainConfigView, id: IdView) -> Seq<char> {
    config.get_for_window(id.window, id.index).template_subconfig.sub_field1
}

/// A configuration that names no window twice takes effect as one that
/// names none twice and configures at least one activity.
pub proof fn lemma_ingest_keeps_windows_distinct(incoming: MainOverrideView)
    requires
        incoming.distinct_windows(),
    ensures
        incoming.into_main_config().distinct_windows(),
        incoming.ingest().distinct_windows(),
        incoming.ingest().windows.len() > 0,
        incoming.ingest().activity_count() >= 1,
{
    lemma_with_default_window(incoming.into_main_config());
}

impl<A> MusicModule<A> {
    /// The configuration in use.
    pub closed spec fn config(&self) -> MainConfigView {
        self.config@
    }

    /// The registry of the live activities.
    pub closed spec fn registry(&self) -> ActivityRegistry<A> {
        self.registry
    }

    /// The account of the background tasks.
    pub closed spec fn runtime(&self) -> RuntimeView {
        self.producers_rt@
    }

    /// The parts are in order: no identifier is registered twice, the
    /// configuration names no window twice and configures at least one
    /// activity, and the account of the tasks is sound.
    pub closed spec fn wf(&self) -> bool {
        &&& self.registry.wf()
        &&& self.producers_rt@.wf()
        &&& self.config@.distinct_windows()
        &&& self.config@.windows.len() > 0
        &&& self.config@.activity_count() >= 1
    }

    /// What being in order means for the parts that can be seen.
    pub proof fn lemma_wf(&self)
        requires
            self.wf(),
        ensures
            self.registry().wf(),
            self.runtime().wf(),
            self.config().distinct_windows(),
            self.config().windows.len() > 0,
            self.config().activity_count() >= 1,
    {
    }

    /// A pass over a module in order is clean: when an activity is created
    /// for each slot that [`Self::begin_pass`] names, [`Self::finish_pass`]
    /// registers them all and hands none back, and the registry then holds
    /// the activities that fit the configuration followed by the new ones.
    pub proof fn lemma_clean_pass(&self, created: Seq<(InstanceId, A)>)
        requires
            self.wf(),
            pair_ids(created) == additions(self.registry().ids(), self.config().desired()),
        ensures
            distinct_windows(self.config().desired()),
            registered(
                self.registry().ids().filter(kept(self.config().desired())),
                pair_ids(created),
            ) == reconciled(self.registry().ids(), self.config().desired()),
            turned_away(self.registry().ids().filter(kept(self.config().desired())), created)
                == Seq::<(InstanceId, A)>::empty(),
            reconciled(self.registry().ids(), self.config().desired()).no_duplicates(),
    {
        let desired = self.config@.desired();
        assert forall|a: int, b: int| 0 <= a < b < desired.len() implies (#[trigger] desired[a]).0
            != (#[trigger] desired[b]).0 by {
            assert(self.config@.windows[a].0 != self.config@.windows[b].0);
        }
        lemma_pass_is_clean(self.registry.ids(), desired, created);
    }

    /// The configuration in use.
    pub fn current_config(&self) -> (res: &TemplateConfigMain)
        ensures
            res@ == self.config(),
    {
        &self.config
    }

    /// The identifiers of the live activities.
    pub fn list_activities(&self) -> (res: Vec<InstanceId>)
        requires
            self.wf(),
        ensures
            id_views(res@) == self.registry().ids(),
    {
        self.registry.list()
    }

    /// The activity of slot `index` in `window`, `None` where there is none.
    pub fn lookup(&self, window: &str, index: usize) -> (res: Option<&A>)
        requires
            self.wf(),
        ensures
            match res {
                Some(activity) => self.registry().contains(slot_id(window@, index as nat))
                    && *activity == self.registry().activity_of(slot_id(window@, index as nat)),
                None => !self.registry().contains(slot_id(window@, index as nat)),
            },
    {
        self.registry.lookup(window, index)
    }

    /// Takes in a configuration. `parsed` is the configuration as it was
    /// read, or the message of the reader that could not read it.
    ///
    /// A configuration that was read and names no window twice takes
    /// effect, with every option filled in and one activity in the stand-in
    /// window where it configures none. Otherwise the error says why not,
    /// and the configuration in use stays. Either way the configuration in
    /// use configures at least one activity. Activities and tasks are not
    /// touched: they follow with the next pass.
    pub fn update_config(&mut self, parsed: Result<DeTemplateConfigMain, String>) -> (res: Result<
        (),
        ConfigError,
    >)
        requires
            old(self).wf(),
        ensures
            final(self).wf(),
            final(self).config().activity_count() >= 1,
            final(self).registry() == old(self).registry(),
            final(self).runtime() == old(self).runtime(),
            match parsed {
                Err(message) => res matches Err(ConfigError::Parse(text)) && text == message
                    && final(self).config() == old(self).config(),
                Ok(incoming) => if incoming@.distinct_windows() {
                    res == Ok::<(), ConfigError>(()) && final(self).config() == incoming@.ingest()
                } else {
                    res matches Err(ConfigError::DuplicateWindow(name)) && (exists|b: int|
                        incoming@.first_repeat(b) && name@ == (#[trigger] incoming@.windows[b]).0)
                        && final(self).config() == old(self).config()
                },
            },
    {
        proof {
            if parsed is Ok && parsed->Ok_0@.distinct_windows() {
                lemma_ingest_keeps_windows_distinct(parsed->Ok_0@);
            }
        }
        match ingest(parsed) {
            Ok(config) => {
                self.config = config;
                Ok(())
            },
            Err(error) => Err(error),
        }
    }

    /// The configuration to show as a template: the built-in one.
    pub fn default_config(&self) -> (res: TemplateConfigMain)
        ensures
            res@ == builtin_main_config(),
    {
        TemplateConfigMain::default()
    }

    /// Opens a pass: compares the live activities with the configuration,
    /// takes the activities that no longer fit out of the registry and hands
    /// them back for the caller to destroy, and names the slots to fill.
    ///
    /// The caller creates an activity for each slot and closes the pass with
    /// [`Self::finish_pass`]. Every removal is done before that.
    pub fn begin_pass(&mut self) -> (res: (Vec<(InstanceId, A)>, Vec<InstanceId>))
        requires
            old(self).wf(),
        ensures
            final(self).wf(),
            final(self).config() == old(self).config(),
            final(self).runtime() == old(self).runtime(),
            pair_ids(res.0@) == removals(old(self).registry().ids(), old(self).config().desired()),
            forall|i: int|
                0 <= i < res.0.len() ==> (#[trigger] res.0[i]).1
                    == old(self).registry().activity_of(res.0[i].0@),
            id_views(res.1@) == additions(old(self).registry().ids(), old(self).config().desired()),
            final(self).registry().ids() == old(self).registry().ids().filter(
                kept(old(self).config().desired()),
            ),
            forall|id: IdView| #[trigger]
                final(self).registry().ids().contains(id) ==> final(self).registry().activity_of(id)
                    == old(self).registry().activity_of(id),
    {
        let ghost entry = *self;
        let ghost live = self.registry.ids();
        let ghost wanted_state = self.config@.desired();
        let current = self.registry.list();
        let desired = self.config.desired_state();
        let (to_remove, to_add) = activities_to_update(&current, &desired);
        let ghost gone = ref_views(to_remove@);
        proof {
            lemma_all_removed(live, wanted_state);
            lemma_no_removal_yet(live, gone);
        }

        let mut removed: Vec<(InstanceId, A)> = Vec::new();
        let mut i: usize = 0;
        while i < to_remove.len()
            invariant
                i <= to_remove.len(),
                self.registry.wf(),
                self.config == entry.config,
                self.producers_rt == entry.producers_rt,
                live == entry.registry.ids(),
                live.no_duplicates(),
                gone == ref_views(to_remove@),
                gone.no_duplicates(),
                forall|j: int| 0 <= j < gone.len() ==> live.contains(#[trigger] gone[j]),
                self.registry.ids() == live.filter(not_among(gone.take(i as int))),
                pair_ids(removed@) == gone.take(i as int),
                forall|k: int|
                    0 <= k < removed.len() ==> (#[trigger] removed[k]).1
                        == entry.registry.activity_of(removed[k].0@),
                forall|id: IdView| #[trigger]
                    self.registry.ids().contains(id) ==> entry.registry.ids().contains(id)
                        && self.registry.activity_of(id) == entry.registry.activity_of(id),
            decreases to_remove.len() - i,
        {
            let id = to_remove[i];
            let ghost before = removed@;
            let ghost registry = self.registry;
            proof {
                assert(gone[i as int] == id@);
                lemma_next_removal(live, gone, i as int);
                assert(registry.contains(id@));
            }
            match self.registry.remove(id) {
                Ok(activity) => {
                    let owned = id.clone();
                    removed.push((owned, activity));
                    proof {
                        assert(pair_ids(removed@) =~= pair_ids(before).push(id@));
                        assert(gone.take(i + 1) =~= gone.take(i as int).push(id@));
                        let now = self.registry;
                        assert forall|other: IdView| #[trigger]
                            now.ids().contains(other) implies entry.registry.ids().contains(other)
                            && now.activity_of(other) == entry.registry.activity_of(other) by {
                            assert(self.registry.contains(other));
                            assert(registry.contains(other));
                            assert(registry.ids().contains(other));
                        }
                    }
                },
                Err(_) => {},
            }
            i += 1;
        }
        proof {
            assert(gone.take(i as int) =~= gone);
        }

        let ghost fill = slot_views(to_add@);
        let mut slots: Vec<InstanceId> = Vec::new();
        let mut j: usize = 0;
        while j < to_add.len()
            invariant
                j <= to_add.len(),
                fill == slot_views(to_add@),
                id_views(slots@) == fill.take(j as int),
            decreases to_add.len() - j,
        {
            let ghost before = slots@;
            let slot = InstanceId::new(to_add[j].0, to_add[j].1);
            slots.push(slot);
            proof {
                assert(id_views(slots@) =~= id_views(before).push(slot@));
                assert(fill.take(j + 1) =~= fill.take(j as int).push(slot@));
            }
            j += 1;
        }
        proof {
            assert(fill.take(j as int) =~= fill);
        }
        (removed, slots)
    }

    /// Closes a pass: registers each created activity under its identifier,
    /// in the order given. An activity whose identifier is registered
    /// already is not registered; it is handed back, and the pass goes on.
    pub fn finish_pass(&mut self, created: Vec<(InstanceId, A)>) -> (res: Vec<(InstanceId, A)>)
        requires
            old(self).wf(),
        ensures
            final(self).wf(),
            final(self).config() == old(self).config(),
            final(self).runtime() == old(self).runtime(),
            final(self).registry().ids() == registered(
                old(self).registry().ids(),
                pair_ids(created@),
            ),
            res@ == turned_away(old(self).registry().ids(), created@),
            forall|id: IdView| #[trigger]
                old(self).registry().ids().contains(id) ==> final(self).registry().activity_of(id)
                    == old(self).registry().activity_of(id),
            forall|at: int|
                0 <= at < created.len() && !old(self).registry().ids().contains(
                    (#[trigger] created[at]).0@,
                ) && (forall|b: int| 0 <= b < at ==> created[b].0@ != created[at].0@)
                    ==> final(self).registry().activity_of(created[at].0@) == created[at].1,
    {
        let ghost entry = *self;
        let ghost live = self.registry.ids();
        let ghost offered = created@;
        let mut refused: Vec<(InstanceId, A)> = Vec::new();
        for pair in it: created
            invariant
                it.seq() == offered,
                self.registry.wf(),
                self.config == entry.config,
                self.producers_rt == entry.producers_rt,
                live == entry.registry.ids(),
                self.registry.ids() == registered(live, pair_ids(offered.take(it.index() as int))),
                refused@ == turned_away(live, offered.take(it.index() as int)),
                forall|id: IdView| #[trigger]
                    live.contains(id) ==> self.registry.ids().contains(id)
                        && self.registry.activity_of(id) == entry.registry.activity_of(id),
                forall|at: int|
                    0 <= at < it.index() && !live.contains((#[trigger] offered[at]).0@) && (forall|
                        b: int,
                    |
                        0 <= b < at ==> offered[b].0@ != offered[at].0@)
                        ==> self.registry.ids().contains(offered[at].0@)
                        && self.registry.activity_of(offered[at].0@) == offered[at].1,
                forall|id: IdView| #[trigger]
                    self.registry.ids().contains(id) ==> live.contains(id) || exists|b: int|
                        0 <= b < it.index() && (#[trigger] offered[b]).0@ == id,
        {
            let ghost at = it.index() as int;
            let ghost before = self.registry;
            proof {
                assert(offered.take(at + 1).drop_last() =~= offered.take(at));
                assert(offered.take(at + 1).last() == pair);
                assert(pair_ids(offered.take(at + 1)).drop_last() =~= pair_ids(offered.take(at)));
                assert(pair_ids(offered.take(at + 1)).last() == pair.0@);
            }
            let (id, activity) = pair;
            if self.registry.is_registered(&id) {
                refused.push((id, activity));
                proof {
                    assert forall|k: int|
                        0 <= k < at + 1 && !live.contains((#[trigger] offered[k]).0@) && (forall|
                            b: int,
                        |
                            0 <= b < k ==> offered[b].0@ != offered[k].0@)
                            implies self.registry.ids().contains(offered[k].0@)
                        && self.registry.activity_of(offered[k].0@) == offered[k].1 by {
                        if k == at {
                            assert(before.ids().contains(pair.0@));
                            let b = choose|b: int|
                                0 <= b < at && (#[trigger] offered[b]).0@ == pair.0@;
                            assert(offered[b].0@ == offered[k].0@);
                        }
                    }
                }
            } else {
                let _ = self.registry.insert(id, activity);
                proof {
                    let now = self.registry;
                    assert(now.ids() == before.ids().push(pair.0@));
                    assert(now.ids()[before.ids().len() as int] == pair.0@);
                    assert forall|other: IdView| #[trigger] live.contains(other) implies now.ids()
                        .contains(other) && now.activity_of(other) == entry.registry.activity_of(
                        other,
                    ) by {
                        assert(before.ids().contains(other));
                        assert(before.contains(other));
                        let from = before.ids().index_of(other);
                        assert(now.ids()[from] == other);
                    }
                    assert forall|k: int|
                        0 <= k < at + 1 && !live.contains((#[trigger] offered[k]).0@) && (forall|
                            b: int,
                        |
                            0 <= b < k ==> offered[b].0@ != offered[k].0@)
                            implies now.ids().contains(offered[k].0@) && now.activity_of(
                        offered[k].0@,
                    ) == offered[k].1 by {
                        if k < at {
                            assert(before.ids().contains(offered[k].0@));
                            assert(before.contains(offered[k].0@));
                            let from = before.ids().index_of(offered[k].0@);
                            assert(now.ids()[from] == offered[k].0@);
                        }
                    }
                    assert forall|other: IdView| #[trigger]
                        now.ids().contains(other) implies live.contains(other) || exists|b: int|
                        0 <= b < at + 1 && (#[trigger] offered[b]).0@ == other by {
                        if other == pair.0@ {
                            assert(offered[at].0@ == other);
                        } else {
                            let from = now.ids().index_of(other);
                            assert(before.ids()[from] == other);
                            assert(before.ids().contains(other));
                            if !live.contains(other) {
                                let b = choose|b: int|
                                    0 <= b < at && (#[trigger] offered[b]).0@ == other;
                                assert(offered[b].0@ == other);
                            }
                        }
                    }
                }
            }
        }
        proof {
            assert(offered.take(offered.len() as int) =~= offered);
        }
        refused
    }

    /// Starts the tasks of a pass: one for each live activity, in the order
    /// of the registry. Each task gets the values configured for the slot
    /// of its activity, and the module-wide ones where the slot is not
    /// configured. The caller runs the tasks.
    ///
    /// No task is started while a shutdown is under way.
    pub fn spawn_tasks(&mut self) -> (tasks: Vec<ProducerTask>)
        requires
            old(self).wf(),
            old(self).runtime().state != RuntimeState::ShuttingDown,
        ensures
            final(self).wf(),
            final(self).config() == old(self).config(),
            final(self).registry() == old(self).registry(),
            final(self).runtime() == old(self).runtime().spawn_many(
                old(self).registry().ids().len(),
            ),
            tasks.len() == old(self).registry().ids().len(),
            forall|i: int|
                0 <= i < tasks.len() ==> ({
                    &&& (#[trigger] tasks[i]).activity@ == old(self).registry().ids()[i]
                    &&& tasks[i].task == old(self).runtime().task_number(i)
                    &&& tasks[i].update@ == LoopView::start(
                        task_values(old(self).config(), old(self).registry().ids()[i]),
                    )
                    &&& final(self).runtime().live(tasks[i].task)
                }),
    {
        let ghost entry = *self;
        let ghost live = self.registry.ids();
        let ids = self.registry.list();
        let mut tasks: Vec<ProducerTask> = Vec::new();
        let mut i: usize = 0;
        while i < ids.len()
            invariant
                i <= ids.len(),
                id_views(ids@) == live,
                self.config == entry.config,
                self.registry == entry.registry,
                self.producers_rt@.wf(),
                self.producers_rt@.state != RuntimeState::ShuttingDown,
                self.producers_rt@ == entry.producers_rt@.spawn_many(i as nat),
                self.producers_rt@.generation == entry.producers_rt@.generation,
                self.producers_rt@.ended.len() == entry.producers_rt@.ended.len() + i,
                forall|k: int|
                    entry.producers_rt@.ended.len() <= k < self.producers_rt@.ended.len()
                        ==> !self.producers_rt@.ended[k],
                tasks.len() == i,
                forall|k: int|
                    0 <= k < i ==> ({
                        &&& (#[trigger] tasks[k]).activity@ == live[k]
                        &&& tasks[k].task == entry.producers_rt@.task_number(k)
                        &&& tasks[k].update@ == LoopView::start(task_values(entry.config@, live[k]))
                    }),
            decreases ids.len() - i,
        {
            let activity = ids[i].clone();
            assert(activity@ == live[i as int]);
            let activity_config = self.config.get_for_window(
                activity.window_name.as_str(),
                activity.instance_index,
            );
            let update = UpdateLoop::new(activity_config.template_subconfig.sub_field1.as_str());
            let ghost before = self.producers_rt@;
            let task = self.producers_rt.spawn();
            proof {
                assert(self.producers_rt@.ended.len() <= usize::MAX);
                assert forall|k: int|
                    entry.producers_rt@.ended.len() <= k < self.producers_rt@.ended.len()
                        implies !self.producers_rt@.ended[k] by {
                    if k < before.ended.len() {
                        assert(self.producers_rt@.ended[k] == before.ended[k]);
                    }
                }
            }
            tasks.push(ProducerTask { task, activity, update });
            i += 1;
        }
        tasks
    }

    /// Begins a restart of the tasks: requests cancellation and names the
    /// tasks to signal. The caller signals them, reports each end with
    /// [`Self::task_ended`], and goes on with [`Self::reset_runtime`] and a
    /// pass once the runtime is idle.
    pub fn restart_producers(&mut self) -> (pending: Vec<TaskId>)
        requires
            old(self).wf(),
        ensures
            final(self).wf(),
            final(self).config() == old(self).config(),
            final(self).registry() == old(self).registry(),
            final(self).runtime() == old(self).runtime().begin_shutdown(),
            pending@ == old(self).runtime().live_tasks(),
    {
        self.producers_rt.begin_shutdown()
    }

    /// Records that a task has ended, whether by itself, by a failure or on
    /// cancellation.
    pub fn task_ended(&mut self, task: TaskId)
        requires
            old(self).wf(),
        ensures
            final(self).wf(),
            final(self).config() == old(self).config(),
            final(self).registry() == old(self).registry(),
            final(self).runtime() == old(self).runtime().task_ended(task),
    {
        self.producers_rt.task_ended(task);
    }

    /// Where the runtime stands.
    pub fn runtime_state(&self) -> (res: RuntimeState)
        ensures
            res == self.runtime().state,
    {
        self.producers_rt.state()
    }

    /// Whether no task is live and none is waited for.
    pub fn is_idle(&self) -> (res: bool)
        ensures
            res == (self.runtime().state == RuntimeState::Idle),
    {
        match self.producers_rt.state() {
            RuntimeState::Idle => true,
            _ => false,
        }
    }

    /// Whether the task may still write.
    pub fn is_live(&self, task: TaskId) -> (res: bool)
        ensures
            res == self.runtime().live(task),
    {
        self.producers_rt.is_live(task)
    }

    /// Starts a new batch of tasks after a shutdown.
    ///
    /// Only an idle runtime is reset.
    pub fn reset_runtime(&mut self)
        requires
            old(self).wf(),
            old(self).runtime().state == RuntimeState::Idle,
        ensures
            final(self).wf(),
            final(self).config() == old(self).config(),
            final(self).registry() == old(self).registry(),
            final(self).runtime() == old(self).runtime().reset(),
    {
        self.producers_rt.reset();
    }
}

/// A module as it starts: the built-in configuration with the stand-in
/// window, so that there is one activity once the first pass has run; no
/// activity yet; no task yet.
pub fn new<A>() -> (res: MusicModule<A>)
    ensures
        res.wf(),
        res.config() == builtin_main_config().with_default_window(),
        res.config().activity_count() >= 1,
        res.registry().ids() == Seq::<IdView>::empty(),
        res.registry().activities() == Seq::<A>::empty(),
        res.runtime() == RuntimeView::fresh(),
{
    let mut config = TemplateConfigMain::default();
    config.ensure_default_window();
    MusicModule { config, registry: ActivityRegistry::new(), producers_rt: ProducerRuntime::new() }
}

} // verus!
