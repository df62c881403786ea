//! The aggregate: one named control group over several subsystems.
//!
//! A group is created, then used, then deleted, and nothing can be done with
//! it once it is deleted. Every call that touches the control filesystem
//! comes in two parts: the group says which actions to perform, the caller
//! performs them, and the group judges the outcomes.

use vstd::prelude::*;
use crate::action::{steps, Action, Operation, Outcome};
use crate::controller::Controller;
use crate::creation::Creation;
use crate::error::{CgroupError, ControllerError};
use crate::fanout::{each, fan_out};
use crate::hierarchy::Hierarchy;
use crate::kinds::Controllers;
use crate::member::{coherent, kinds_of, members_of, position, Member};
use crate::path::joined;
use crate::plan::{
    failures, lemma_empty_record_is_silent, lemma_nothing_to_do_ends_well, rejections, writes, Plan,
};
use crate::resources::Resources;
use crate::subsystem::Subsystem;

verus! {

/// Whether the directory at position `i` may still hold processes, going by
/// the task lists `tasks`. A directory whose task list is not given counts
/// as occupied.
pub open spec fn occupied(tasks: Seq<Vec<u64>>, i: int) -> bool {
    i < 0 || i >= tasks.len() || tasks[i]@.len() > 0
}

/// The last position below `n` whose directory is occupied.
pub open spec fn last_occupied(tasks: Seq<Vec<u64>>, n: nat) -> Option<int>
    decreases n,
{
    if n == 0 {
        None
    } else if occupied(tasks, n - 1) {
        Some(n - 1)
    } else {
        last_occupied(tasks, (n - 1) as nat)
    }
}

/// A control group that exists on the host, or did until it was deleted.
#[derive(Debug)]
pub struct Cgroup {
    name: String,
    subsystems: Vec<Subsystem>,
    deleted: bool,
}

impl Cgroup {
    /// The group's name, which is its path relative to the root of each
    /// hierarchy.
    pub closed spec fn name(&self) -> Seq<char> {
        self.name@
    }

    /// The subsystems that the group owns, in the order in which it
    /// registered them.
    pub closed spec fn members(&self) -> Seq<Member> {
        members_of(self.subsystems@)
    }

    /// Whether the group has been deleted.
    pub closed spec fn is_deleted(&self) -> bool {
        self.deleted
    }

    /// What holds of every value of this type: the path invariant, and that
    /// no two subsystems are of one kind.
    pub open spec fn wf(&self) -> bool {
        coherent(self.members(), self.name())
    }

    #[verifier::type_invariant]
    spec fn inv(&self) -> bool {
        coherent(members_of(self.subsystems@), self.name@)
    }

    /// Puts a group together from its parts.
    pub(crate) fn assemble(name: String, subsystems: Vec<Subsystem>) -> (cg: Cgroup)
        requires
            coherent(members_of(subsystems@), name@),
        ensures
            cg.wf(),
            cg.name() == name@,
            cg.members() == members_of(subsystems@),
            !cg.is_deleted(),
    {
        Cgroup { name, subsystems, deleted: false }
    }

    /// Starts the creation of a group called `name` over the kinds
    /// `requested`, on a host with the mounts of `hierarchy`. The answer
    /// tells which directories to create; [`Creation::finish`] then gives
    /// the group.
    pub fn create(name: &str, requested: &Vec<Controllers>, hierarchy: &Hierarchy) -> (r: Result<
        Creation,
        CgroupError,
    >)
        ensures
            match r {
                Ok(c) => {
                    &&& c.wf()
                    &&& c.name() == name@
                    &&& c.members() == crate::creation::selected(requested@, *hierarchy, name@)
                    &&& c.omitted() == crate::creation::unavailable(requested@, *hierarchy)
                },
                Err(e) => {
                    &&& e is NoControllersAvailable
                    &&& crate::creation::selected(requested@, *hierarchy, name@).len() == 0
                },
            },
    {
        Creation::new(name, requested, hierarchy)
    }

    /// The group's name.
    pub fn group_name(&self) -> (name: &String)
        ensures
            name@ == self.name(),
    {
        &self.name
    }

    /// Whether the group has been deleted.
    pub fn deleted(&self) -> (b: bool)
        ensures
            b == self.is_deleted(),
    {
        self.deleted
    }

    /// The subsystems that the group owns, in the order in which it
    /// registered them.
    pub fn subsystems(&self) -> (subs: &Vec<Subsystem>)
        ensures
            members_of(subs@) == self.members(),
            self.wf(),
            forall|i: int|
                0 <= i < subs@.len() ==> (#[trigger] subs@[i]).path() == joined(
                    subs@[i].base(),
                    self.name(),
                ),
    {
        proof {
            use_type_invariant(self);
            assert forall|i: int| 0 <= i < self.subsystems@.len() implies (
            #[trigger] self.subsystems@[i]).path() == joined(
                self.subsystems@[i].base(),
                self.name(),
            ) by {
                assert(self.members()[i] == crate::member::member_of(self.subsystems@[i]));
            }
        }
        &self.subsystems
    }

    /// The group's subsystem of the given kind, if it owns one.
    pub fn controller(&self, kind: Controllers) -> (found: Option<&Subsystem>)
        ensures
            match found {
                Some(sub) => {
                    &&& sub.kind() == kind
                    &&& self.members().contains(crate::member::member_of(*sub))
                    &&& sub.path() == joined(sub.base(), self.name())
                },
                None => !kinds_of(self.members()).contains(kind),
            },
    {
        match position(&self.subsystems, kind) {
            Some(i) => {
                proof {
                    use_type_invariant(self);
                    assert(self.members()[i as int] == crate::member::member_of(
                        self.subsystems@[i as int],
                    ));
                }
                Some(&self.subsystems[i])
            },
            None => None,
        }
    }

    /// The group's directories, one per subsystem in registration order.
    /// These are the directories whose task lists [`Cgroup::delete`] asks
    /// for.
    pub fn directories(&self) -> (dirs: Vec<String>)
        ensures
            dirs@.len() == self.members().len(),
            forall|i: int| 0 <= i < dirs@.len() ==> (#[trigger] dirs@[i])@ == self.members()[i].path,
    {
        let mut dirs: Vec<String> = Vec::new();
        let mut i: usize = 0;
        while i < self.subsystems.len()
            invariant
                0 <= i <= self.subsystems.len(),
                dirs@.len() == i,
                forall|j: int|
                    0 <= j < i ==> (#[trigger] dirs@[j])@ == members_of(self.subsystems@)[j].path,
            decreases self.subsystems.len() - i,
        {
            dirs.push(self.subsystems[i].get_path().clone());
            i += 1;
        }
        dirs
    }

    /// Says what applying `res` to the group writes. Each subsystem
    /// translates its own part of `res`; one that finds a value out of range
    /// refuses and writes nothing, which stops no other subsystem. A
    /// subsystem whose part is absent is left alone, so the empty record
    /// asks for nothing at all.
    pub fn apply(&self, res: &Resources) -> (r: Result<Plan, CgroupError>)
        ensures
            match r {
                Ok(plan) => {
                    &&& !self.is_deleted()
                    &&& steps(plan.actions@) == writes(self.members(), *res)
                    &&& plan.rejected@ == rejections(self.members(), *res)
                    &&& *res == Resources::empty() ==> plan.actions@.len() == 0
                        && plan.rejected@.len() == 0
                },
                Err(e) => self.is_deleted() && e is AlreadyDeleted,
            },
    {
        if self.deleted {
            return Err(CgroupError::AlreadyDeleted);
        }
        let ghost members = self.members();
        proof {
            lemma_empty_record_is_silent(members);
        }
        let mut plan = Plan::new();
        let mut i: usize = 0;
        proof {
            assert(steps(plan.actions@) =~= Seq::empty());
            assert(members.take(0) =~= Seq::<Member>::empty());
        }
        while i < self.subsystems.len()
            invariant
                0 <= i <= self.subsystems.len(),
                members == members_of(self.subsystems@),
                steps(plan.actions@) == writes(members.take(i as int), *res),
                plan.rejected@ == rejections(members.take(i as int), *res),
            decreases self.subsystems.len() - i,
        {
            let sub = &self.subsystems[i];
            proof {
                assert(members.take(i as int + 1).drop_last() =~= members.take(i as int));
                assert(members.take(i as int + 1).last() == crate::member::member_of(*sub));
            }
            match sub.apply(res) {
                Ok(directives) => {
                    plan.write_all(sub, &directives);
                },
                Err(e) => {
                    plan.rejected.push((sub.control_type(), e));
                    proof {
                        assert(steps(plan.actions@) + Seq::empty() =~= steps(plan.actions@));
                    }
                },
            }
            i += 1;
        }
        proof {
            assert(members.take(i as int) =~= members);
            assert(steps(plan.actions@).len() == plan.actions@.len());
        }
        Ok(plan)
    }

    /// Says what adding the process `pid` to the group writes: its id to the
    /// task list of every subsystem. In each hierarchy this moves the
    /// process from the group it was in.
    pub fn add_task(&self, pid: u64) -> (r: Result<Plan, CgroupError>)
        ensures
            match r {
                Ok(plan) => {
                    &&& !self.is_deleted()
                    &&& steps(plan.actions@) == each(self.members(), Operation::AddTask(pid))
                    &&& plan.rejected@.len() == 0
                },
                Err(e) => self.is_deleted() && e is AlreadyDeleted,
            },
    {
        if self.deleted {
            return Err(CgroupError::AlreadyDeleted);
        }
        Ok(Plan { actions: fan_out(&self.subsystems, Operation::AddTask(pid)), rejected: Vec::new() })
    }

    /// Says what taking the process `pid` out of the group writes: one
    /// removal from the task list of every subsystem.
    pub fn remove_task(&self, pid: u64) -> (r: Result<Plan, CgroupError>)
        ensures
            match r {
                Ok(plan) => {
                    &&& !self.is_deleted()
                    &&& steps(plan.actions@) == each(self.members(), Operation::RemoveTask(pid))
                    &&& plan.rejected@.len() == 0
                },
                Err(e) => self.is_deleted() && e is AlreadyDeleted,
            },
    {
        if self.deleted {
            return Err(CgroupError::AlreadyDeleted);
        }
        Ok(
            Plan {
                actions: fan_out(&self.subsystems, Operation::RemoveTask(pid)),
                rejected: Vec::new(),
            },
        )
    }

    /// Judges a call once its actions were performed. `outcomes` tells how
    /// each action of `plan` ended, in their order. The call succeeded if it
    /// ended well for every subsystem; otherwise the answer lists the
    /// subsystems for which it did not, each with its error, in registration
    /// order. What other subsystems wrote stays written.
    pub fn report(&self, plan: &Plan, outcomes: &Vec<Outcome>) -> (r: Result<(), CgroupError>)
        ensures
            self.is_deleted() ==> r is Err && r->Err_0 is AlreadyDeleted,
            !self.is_deleted() && plan.actions@.len() == 0 && plan.rejected@.len() == 0 ==> r is Ok,
            !self.is_deleted() ==> match r {
                Ok(_) => failures(
                    kinds_of(self.members()),
                    steps(plan.actions@),
                    plan.rejected@,
                    outcomes@,
                ).len() == 0,
                Err(e) => {
                    &&& e matches CgroupError::Failed(list)
                    &&& list@.len() > 0
                    &&& list@ == failures(
                        kinds_of(self.members()),
                        steps(plan.actions@),
                        plan.rejected@,
                        outcomes@,
                    )
                },
            },
    {
        if self.deleted {
            return Err(CgroupError::AlreadyDeleted);
        }
        let ghost kinds = kinds_of(self.members());
        proof {
            if plan.actions@.len() == 0 && plan.rejected@.len() == 0 {
                assert(steps(plan.actions@) =~= Seq::empty());
                assert(plan.rejected@ =~= Seq::empty());
                lemma_nothing_to_do_ends_well(kinds, outcomes@);
            }
        }
        let mut list: Vec<(Controllers, ControllerError)> = Vec::new();
        let mut i: usize = 0;
        proof {
            assert(kinds.take(0) =~= Seq::<Controllers>::empty());
        }
        while i < self.subsystems.len()
            invariant
                0 <= i <= self.subsystems.len(),
                kinds == kinds_of(members_of(self.subsystems@)),
                list@ == failures(
                    kinds.take(i as int),
                    steps(plan.actions@),
                    plan.rejected@,
                    outcomes@,
                ),
            decreases self.subsystems.len() - i,
        {
            let kind = self.subsystems[i].control_type();
            proof {
                assert(kinds.take(i as int + 1).drop_last() =~= kinds.take(i as int));
                assert(kinds.take(i as int + 1).last() == kind);
            }
            match plan.verdict_for(outcomes, kind) {
                Some(e) => {
                    list.push((kind, e));
                },
                None => {},
            }
            i += 1;
        }
        proof {
            assert(kinds.take(i as int) =~= kinds);
        }
        if list.len() == 0 {
            Ok(())
        } else {
            Err(CgroupError::Failed(list))
        }
    }

    /// Deletes the group, given the task list of each of its directories in
    /// the order of [`Cgroup::directories`]. A group of which some directory
    /// is occupied cannot be deleted. The directories are looked at as a
    /// group is taken down, from the subsystem registered last to the one
    /// registered first: the answer is `Busy` with the first subsystem found
    /// occupied, nothing is to be removed, and the group stays as it is.
    /// Otherwise the group is deleted and the answer tells which directories
    /// to remove.
    pub fn delete(&mut self, tasks: &Vec<Vec<u64>>) -> (r: Result<Vec<Action>, CgroupError>)
        ensures
            final(self).wf(),
            final(self).name() == old(self).name(),
            final(self).members() == old(self).members(),
            old(self).is_deleted() ==> final(self).is_deleted() && r is Err && r->Err_0
                is AlreadyDeleted,
            !old(self).is_deleted() ==> match last_occupied(tasks@, old(self).members().len()) {
                Some(i) => {
                    &&& !final(self).is_deleted()
                    &&& r is Err
                    &&& r->Err_0 == CgroupError::Busy(old(self).members()[i].kind)
                },
                None => {
                    &&& final(self).is_deleted()
                    &&& r is Ok
                    &&& steps(r->Ok_0@) == each(old(self).members(), Operation::RemoveDir)
                },
            },
    {
        proof {
            use_type_invariant(&*self);
        }
        if self.deleted {
            return Err(CgroupError::AlreadyDeleted);
        }
        let mut i: usize = self.subsystems.len();
        while i > 0
            invariant
                0 <= i <= self.subsystems.len(),
                *self == *old(self),
                self.wf(),
                !self.deleted,
                last_occupied(tasks@, self.members().len()) == last_occupied(tasks@, i as nat),
            decreases i,
        {
            if i - 1 >= tasks.len() || tasks[i - 1].len() > 0 {
                return Err(CgroupError::Busy(self.subsystems[i - 1].control_type()));
            }
            i -= 1;
        }
        self.deleted = true;
        Ok(fan_out(&self.subsystems, Operation::RemoveDir))
    }
}

} // verus!
