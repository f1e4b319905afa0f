//! The project registry: project records by id, with ids handed out from a
//! counter that only moves forward, so that no id is ever handed out twice,
//! even after the project that held it is deleted.
use std::collections::HashMap;
use vstd::prelude::*;

verus! {

/// A project record. Its `id` is assigned by the registry.
#[derive(Clone, Debug)]
pub struct Project {
    pub id: u32,
    pub name: String,
    pub description: String,
}

/// Errors of the registry's operations.
#[derive(Clone, Copy, Debug, PartialEq, Eq, Structural)]
pub enum RegistryError {
    /// No project has the id.
    NotFound,
}

/// A second record with the same id, name and description.
fn copy_of(p: &Project) -> (r: Project)
    ensures
        r == *p,
{
    Project { id: p.id, name: p.name.clone(), description: p.description.clone() }
}

/// Project records by id.
pub struct ProjectRegistry {
    projects: HashMap<u32, Project>,
    next_id: u32,
}

impl ProjectRegistry {
    /// The stored records, by id.
    pub closed spec fn records(&self) -> Map<u32, Project> {
        self.projects@
    }

    /// The id that the next project will receive.
    pub closed spec fn counter(&self) -> nat {
        self.next_id as nat
    }

    /// Ids handed out so far: they start at 1 and have no gaps.
    pub open spec fn issued(&self) -> Set<u32> {
        Set::new(|id: u32| 1 <= id < self.counter())
    }

    /// Every record is stored under its own id, which has been handed out.
    pub open spec fn wf(&self) -> bool {
        &&& 1 <= self.counter() <= u32::MAX
        &&& forall|id: u32| #[trigger]
            self.records().contains_key(id) ==> self.issued().contains(id) && self.records()[id].id
                == id
    }

    /// An empty registry; the first project will receive id 1.
    pub fn new() -> (r: ProjectRegistry)
        ensures
            r.wf(),
            r.records() == Map::<u32, Project>::empty(),
            r.counter() == 1,
    {
        ProjectRegistry { projects: HashMap::new(), next_id: 1 }
    }

    /// Stores a new project under the next id and returns it. Ids run from 1 to
    /// `u32::MAX - 1`; once the counter has reached `u32::MAX` this returns
    /// `None` and changes nothing.
    pub fn add_project(&mut self, name: String, description: String) -> (r: Option<Project>)
        requires
            old(self).wf(),
        ensures
            final(self).wf(),
            r is Some == (old(self).counter() < u32::MAX),
            r matches Some(p) ==> {
                &&& p == (Project { id: old(self).counter() as u32, name, description })
                &&& !old(self).issued().contains(p.id)
                &&& !old(self).records().contains_key(p.id)
                &&& final(self).records() == old(self).records().insert(p.id, p)
                &&& final(self).counter() == old(self).counter() + 1
                &&& hands_out(*old(self), *final(self), p.id)
            },
            r is None ==> final(self).records() == old(self).records() && final(self).counter()
                == old(self).counter(),
    {
        if self.next_id == u32::MAX {
            return None;
        }
        let id = self.next_id;
        self.next_id = self.next_id + 1;
        let project = Project { id, name, description };
        let copy = copy_of(&project);
        self.projects.insert(id, project);
        proof {
            assert forall|k: u32| #[trigger] self.records().contains_key(k) implies self.issued().contains(
                k,
            ) && self.records()[k].id == k by {
                if k != id {
                    assert(old(self).records().contains_key(k));
                }
            }
        }
        Some(copy)
    }

    /// The project with id `id`.
    pub fn get_project(&self, id: u32) -> (r: Result<Project, RegistryError>)
        ensures
            self.records().contains_key(id) ==> r == Ok::<Project, RegistryError>(
                self.records()[id],
            ),
            !self.records().contains_key(id) ==> r == Err::<Project, _>(RegistryError::NotFound),
    {
        match self.projects.get(&id) {
            Some(p) => Ok(copy_of(p)),
            None => Err(RegistryError::NotFound),
        }
    }

    /// Replaces the name and description of project `id` and returns the
    /// record; the id stays.
    pub fn edit_project(&mut self, id: u32, name: String, description: String) -> (r: Result<
        Project,
        RegistryError,
    >)
        requires
            old(self).wf(),
        ensures
            final(self).wf(),
            final(self).counter() == old(self).counter(),
            old(self).records().contains_key(id) ==> {
                &&& r == Ok::<Project, RegistryError>(Project { id, name, description })
                &&& final(self).records() == old(self).records().insert(
                    id,
                    Project { id, name, description },
                )
            },
            !old(self).records().contains_key(id) ==> r == Err::<Project, _>(
                RegistryError::NotFound,
            ) && final(self).records() == old(self).records(),
    {
        if !self.projects.contains_key(&id) {
            return Err(RegistryError::NotFound);
        }
        assert(old(self).records().contains_key(id));
        let project = Project { id, name, description };
        let copy = copy_of(&project);
        self.projects.insert(id, project);
        proof {
            assert forall|k: u32| #[trigger] self.records().contains_key(k) implies self.issued().contains(
                k,
            ) && self.records()[k].id == k by {
                if k != id {
                    assert(old(self).records().contains_key(k));
                }
            }
        }
        Ok(copy)
    }

    /// Removes project `id`. Its id is not handed out again.
    pub fn delete_project(&mut self, id: u32) -> (r: Result<(), RegistryError>)
        requires
            old(self).wf(),
        ensures
            final(self).wf(),
            final(self).counter() == old(self).counter(),
            old(self).records().contains_key(id) ==> r is Ok && final(self).records() == old(
                self,
            ).records().remove(id),
            !old(self).records().contains_key(id) ==> r == Err::<(), _>(RegistryError::NotFound)
                && final(self).records() == old(self).records(),
    {
        match self.projects.remove(&id) {
            Some(_) => {
                proof {
                    assert forall|k: u32| #[trigger] self.records().contains_key(k) implies self.issued().contains(
                        k,
                    ) && self.records()[k].id == k by {
                        assert(old(self).records().contains_key(k));
                    }
                }
                Ok(())
            },
            None => {
                assert(self.records() =~= old(self).records());
                Err(RegistryError::NotFound)
            },
        }
    }
}

/// `after` follows `before` by an operation that handed out `id`: the id is
/// the counter of `before`, and the counter has moved one step.
pub open spec fn hands_out(before: ProjectRegistry, after: ProjectRegistry, id: u32) -> bool {
    id == before.counter() && after.counter() == before.counter() + 1
}

/// Ids handed out over any run of registry operations are pairwise distinct.
///
/// `states[k]` is the registry before operation `k` and `states[k + 1]` the
/// registry after it; `issued[k]` is the id that operation `k` handed out, or
/// `None` where it handed out none, in which case the counter stays, as the
/// contracts of the operations state.
pub proof fn lemma_issued_ids_distinct(states: Seq<ProjectRegistry>, issued: Seq<Option<u32>>)
    requires
        states.len() == issued.len() + 1,
        forall|k: int|
            0 <= k < issued.len() ==> match #[trigger] issued[k] {
                Some(id) => hands_out(states[k], states[k + 1], id),
                None => states[k + 1].counter() == states[k].counter(),
            },
    ensures
        forall|j: int, k: int|
            0 <= j < k < issued.len() && issued[j] is Some && issued[k] is Some ==> issued[j]
                != issued[k],
{
    assert forall|j: int, k: int|
        0 <= j < k < issued.len() && issued[j] is Some && issued[k] is Some implies issued[j]
        != issued[k] by {
        lemma_counter_grows(states, issued, j + 1, k);
    }
}

/// Along such a run the counter never moves back.
proof fn lemma_counter_grows(states: Seq<ProjectRegistry>, issued: Seq<Option<u32>>, j: int, k: int)
    requires
        states.len() == issued.len() + 1,
        forall|m: int|
            0 <= m < issued.len() ==> match #[trigger] issued[m] {
                Some(id) => hands_out(states[m], states[m + 1], id),
                None => states[m + 1].counter() == states[m].counter(),
            },
        0 <= j <= k < states.len(),
    ensures
        states[j].counter() <= states[k].counter(),
    decreases k - j,
{
    if j < k {
        lemma_counter_grows(states, issued, j, k - 1);
        match issued[k - 1] {
            Some(id) => assert(hands_out(states[k - 1], states[k], id)),
            None => assert(states[k].counter() == states[k - 1].counter()),
        }
    }
}

/// A run of `add_project` calls, one after another, that all return a project:
/// the `i`-th hands out the starting counter plus `i`, so the ids strictly
/// increase, and the counter ends `ids.len()` steps further on.
///
/// `states[i]` is the registry before call `i` and `states[i + 1]` the registry
/// after it; `ids[i]` is the id of the project that call `i` returned.
pub proof fn lemma_create_run(states: Seq<ProjectRegistry>, ids: Seq<u32>)
    requires
        states.len() == ids.len() + 1,
        forall|i: int| 0 <= i < ids.len() ==> hands_out(states[i], states[i + 1], #[trigger] ids[i]),
    ensures
        forall|i: int| 0 <= i < ids.len() ==> ids[i] == states[0].counter() + i,
        forall|i: int, j: int| 0 <= i < j < ids.len() ==> ids[i] < ids[j],
        states[ids.len() as int].counter() == states[0].counter() + ids.len(),
    decreases ids.len(),
{
    if ids.len() > 0 {
        let n = ids.len() - 1;
        lemma_create_run(states.take(n + 1), ids.take(n));
        assert(hands_out(states[n], states[n + 1], ids[n]));
        assert forall|i: int| 0 <= i < ids.len() implies ids[i] == states[0].counter() + i by {
            if i < n {
                assert(ids.take(n)[i] == ids[i]);
            }
        }
    }
}

} // verus!
