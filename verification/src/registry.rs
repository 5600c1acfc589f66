//! The registry of live activities, addressed by identifier.

use crate::filters::lemma_filter_all;
use crate::identifier::{slot_id, IdView, InstanceId};
use crate::reconciler::id_views;
use crate::text::str_eq;
use vstd::prelude::*;

verus! {

/// A request that the registry cannot serve as it stands.
#[derive(Clone, Copy, Debug, PartialEq, Eq, Structural)]
pub enum RegistryError {
    /// An activity with that identifier is registered already.
    AlreadyRegistered,
    /// No activity with that identifier is registered.
    NotRegistered,
}

/// The live activities, each under its identifier, in the order in which
/// they were registered.
pub struct ActivityRegistry<A> {
    ids: Vec<InstanceId>,
    activities: Vec<A>,
}

/// The test that picks every identifier but one.
pub open spec fn other_than(id: IdView) -> spec_fn(IdView) -> bool {
    |other: IdView| other != id
}

/// Taking the one occurrence of an identifier out of a list without
/// duplicates leaves the identifiers other than it, in their order.
pub proof fn lemma_remove_is_filter(ids: Seq<IdView>, id: IdView)
    requires
        ids.no_duplicates(),
        ids.contains(id),
    ensures
        ids.remove(ids.index_of(id)) == ids.filter(other_than(id)),
    decreases ids.len(),
{
    reveal(Seq::filter);
    let at = ids.index_of(id);
    let front = ids.drop_last();
    if at == ids.len() - 1 {
        assert(ids.remove(at) =~= front);
        assert forall|i: int| 0 <= i < front.len() implies other_than(id)(#[trigger] front[i]) by {
            assert(front[i] == ids[i]);
        }
        lemma_filter_all(front, other_than(id));
    } else {
        assert(front[at] == id);
        assert(front.no_duplicates());
        assert(front.index_of(id) == at);
        lemma_remove_is_filter(front, id);
        assert(ids.remove(at) =~= front.remove(at).push(ids.last()));
    }
}

impl<A> ActivityRegistry<A> {
    /// The identifiers of the live activities, in the order of [`Self::list`].
    pub closed spec fn ids(&self) -> Seq<IdView> {
        id_views(self.ids@)
    }

    /// The live activities, each at the position of its identifier.
    pub closed spec fn activities(&self) -> Seq<A> {
        self.activities@
    }

    /// Every activity has its identifier, and no identifier stands for two
    /// activities.
    pub open spec fn wf(&self) -> bool {
        &&& self.ids().len() == self.activities().len()
        &&& self.ids().no_duplicates()
    }

    /// An activity is registered under `id`.
    pub open spec fn contains(&self, id: IdView) -> bool {
        self.ids().contains(id)
    }

    /// The activity registered under `id`.
    pub open spec fn activity_of(&self, id: IdView) -> A
        recommends
            self.contains(id),
    {
        self.activities()[self.ids().index_of(id)]
    }

    /// A registry without activities.
    pub fn new() -> (res: Self)
        ensures
            res.wf(),
            res.ids() == Seq::<IdView>::empty(),
            res.activities() == Seq::<A>::empty(),
    {
        let res = ActivityRegistry { ids: Vec::new(), activities: Vec::new() };
        assert(res.ids() =~= Seq::<IdView>::empty());
        res
    }

    /// The number of live activities.
    pub fn len(&self) -> (res: usize)
        requires
            self.wf(),
        ensures
            res == self.ids().len(),
    {
        self.ids.len()
    }

    /// The identifiers of all live activities.
    pub fn list(&self) -> (res: Vec<InstanceId>)
        requires
            self.wf(),
        ensures
            id_views(res@) == self.ids(),
    {
        let mut listed: Vec<InstanceId> = Vec::new();
        let mut i: usize = 0;
        while i < self.ids.len()
            invariant
                i <= self.ids.len(),
                id_views(listed@) == self.ids().take(i as int),
            decreases self.ids.len() - i,
        {
            let ghost before = listed@;
            let id = self.ids[i].clone();
            listed.push(id);
            proof {
                assert(id_views(listed@) =~= id_views(before).push(id@));
                assert(self.ids().take(i + 1) =~= self.ids().take(i as int).push(id@));
            }
            i += 1;
        }
        assert(self.ids().take(i as int) =~= self.ids());
        listed
    }

    /// Where the activity of slot `index` in `window` stands.
    fn position(&self, window: &str, index: usize) -> (res: Option<usize>)
        requires
            self.wf(),
        ensures
            match res {
                Some(at) => at < self.ids().len() && self.ids()[at as int] == slot_id(
                    window@,
                    index as nat,
                ) && self.ids().index_of(slot_id(window@, index as nat)) == at,
                None => !self.contains(slot_id(window@, index as nat)),
            },
    {
        let ghost id = slot_id(window@, index as nat);
        let mut i: usize = 0;
        while i < self.ids.len()
            invariant
                i <= self.ids.len(),
                self.wf(),
                id == slot_id(window@, index as nat),
                forall|j: int| 0 <= j < i ==> self.ids()[j] != id,
            decreases self.ids.len() - i,
        {
            if str_eq(self.ids[i].window_name.as_str(), window) && self.ids[i].instance_index
                == index {
                assert(self.ids()[i as int] == id);
                assert(self.ids().contains(id));
                assert(self.ids()[self.ids().index_of(id)] == id);
                return Some(i);
            }
            i += 1;
        }
        None
    }

    /// Whether an activity is registered under `id`.
    pub fn is_registered(&self, id: &InstanceId) -> (res: bool)
        requires
            self.wf(),
        ensures
            res == self.contains(id@),
    {
        self.position(id.window_name.as_str(), id.instance_index).is_some()
    }

    /// The activity of slot `index` in `window`, `None` where there is none.
    pub fn lookup(&self, window: &str, index: usize) -> (res: Option<&A>)
        requires
            self.wf(),
        ensures
            match res {
                Some(activity) => self.contains(slot_id(window@, index as nat)) && *activity
                    == self.activity_of(slot_id(window@, index as nat)),
                None => !self.contains(slot_id(window@, index as nat)),
            },
    {
        match self.position(window, index) {
            Some(at) => Some(&self.activities[at]),
            None => None,
        }
    }

    /// Registers `activity` under `id`. Where an activity is registered
    /// under `id` already, nothing changes and the request fails.
    pub fn insert(&mut self, id: InstanceId, activity: A) -> (res: Result<(), RegistryError>)
        requires
            old(self).wf(),
        ensures
            final(self).wf(),
            old(self).contains(id@) ==> ({
                &&& res == Err::<(), RegistryError>(RegistryError::AlreadyRegistered)
                &&& final(self).ids() == old(self).ids()
                &&& final(self).activities() == old(self).activities()
            }),
            !old(self).contains(id@) ==> ({
                &&& res == Ok::<(), RegistryError>(())
                &&& final(self).ids() == old(self).ids().push(id@)
                &&& final(self).activities() == old(self).activities().push(activity)
                &&& final(self).activity_of(id@) == activity
            }),
            forall|other: IdView| #[trigger]
                old(self).contains(other) ==> final(self).activity_of(other) == old(
                    self,
                ).activity_of(other),
    {
        if self.position(id.window_name.as_str(), id.instance_index).is_some() {
            return Err(RegistryError::AlreadyRegistered);
        }
        self.ids.push(id);
        self.activities.push(activity);
        proof {
            let was = old(self).ids();
            let now = self.ids();
            assert(now =~= was.push(id@));
            assert(now[was.len() as int] == id@);
            assert forall|other: IdView| #[trigger] was.contains(other) implies now.index_of(
                other,
            ) == was.index_of(other) by {
                assert(now[was.index_of(other)] == other);
            }
        }
        Ok(())
    }

    /// Takes the activity registered under `id` out of the registry and
    /// hands it back; the others keep their order. Where no activity is
    /// registered under `id`, nothing changes and the request fails.
    pub fn remove(&mut self, id: &InstanceId) -> (res: Result<A, RegistryError>)
        requires
            old(self).wf(),
        ensures
            final(self).wf(),
            !old(self).contains(id@) ==> ({
                &&& res == Err::<A, RegistryError>(RegistryError::NotRegistered)
                &&& final(self).ids() == old(self).ids()
                &&& final(self).activities() == old(self).activities()
            }),
            old(self).contains(id@) ==> ({
                &&& res == Ok::<A, RegistryError>(old(self).activity_of(id@))
                &&& final(self).ids() == old(self).ids().remove(old(self).ids().index_of(id@))
                &&& final(self).ids() == old(self).ids().filter(other_than(id@))
                &&& final(self).activities() == old(self).activities().remove(
                    old(self).ids().index_of(id@),
                )
            }),
            forall|other: IdView|
                other != id@ && #[trigger] old(self).contains(other) ==> final(self).contains(other)
                    && final(self).activity_of(other) == old(self).activity_of(other),
            forall|other: IdView| #[trigger]
                final(self).contains(other) ==> old(self).contains(other) && other != id@,
    {
        match self.position(id.window_name.as_str(), id.instance_index) {
            None => Err(RegistryError::NotRegistered),
            Some(at) => {
                let ghost before = *self;
                self.ids.remove(at);
                let activity = self.activities.remove(at);
                proof {
                    let was = before.ids();
                    let now = *self;
                    assert(now.ids() =~= was.remove(at as int));
                    lemma_remove_is_filter(was, id@);
                    assert forall|other: IdView|
                        other != id@ && #[trigger] before.contains(other) implies now.contains(
                        other,
                    ) && now.activity_of(other) == before.activity_of(other) by {
                        let from = was.index_of(other);
                        let to = if from < at {
                            from
                        } else {
                            from - 1
                        };
                        assert(now.ids()[to] == other);
                    }
                    assert forall|other: IdView| #[trigger] now.contains(other) implies before
                        .contains(other) && other != id@ by {
                        let to = now.ids().index_of(other);
                        let from = if to < at {
                            to
                        } else {
                            to + 1
                        };
                        assert(was[from] == other);
                    }
                }
                Ok(activity)
            },
        }
    }
}

} // verus!
