//! A group's calls carried out on an in-memory host: the group says what to
//! do, the host does it, and the group judges what came of it.
//!
//! A caller that works on a real control filesystem goes through the same
//! motions with its own reads and writes in place of the host's.

use vstd::prelude::*;
use crate::action::{steps, Operation, Outcome, Step};
use crate::cgroup::{last_occupied, Cgroup};
use crate::controller::Controller;
use crate::creation::{dropped, kept, selected, unavailable};
use crate::directive::{reading, Knob};
use crate::error::{CgroupError, ControllerError};
use crate::fanout::each;
use crate::hierarchy::Hierarchy;
use crate::host::{dir_at, outcomes_of, state_after, DirModel, Host};
use crate::kinds::Controllers;
use crate::member::{kinds_of, members_of, Member};
use crate::plan::{failures, rejections, writes};
use crate::resources::Resources;

verus! {

/// The processes that the host lists in the directory of `m`.
pub open spec fn listing(dirs: Seq<DirModel>, m: Member) -> Seq<u64> {
    match dir_at(dirs, m.kind, m.path) {
        Some(d) => d.tasks,
        None => Seq::empty(),
    }
}

/// The last position below `n` of a member in whose directory the host
/// lists a process.
pub open spec fn last_busy(dirs: Seq<DirModel>, members: Seq<Member>, n: nat) -> Option<int>
    decreases n,
{
    if n == 0 {
        None
    } else if n <= members.len() && listing(dirs, members[n - 1]).len() > 0 {
        Some(n - 1)
    } else {
        last_busy(dirs, members, (n - 1) as nat)
    }
}

/// How a call whose plan has the actions `actions` and the refusals
/// `rejected` ends on a host with the directories `dirs`, for a group of the
/// given kinds.
pub open spec fn ending(
    dirs: Seq<DirModel>,
    kinds: Seq<Controllers>,
    actions: Seq<Step>,
    rejected: Seq<(Controllers, ControllerError)>,
) -> Seq<(Controllers, ControllerError)> {
    failures(kinds, actions, rejected, outcomes_of(dirs, actions, actions.len()))
}

/// Whether `r` says that the call ended as `bad` tells: well if `bad` is
/// empty, else with the list `bad`.
pub open spec fn tells(r: Result<(), CgroupError>, bad: Seq<(Controllers, ControllerError)>)
    -> bool {
    match r {
        Ok(_) => bad.len() == 0,
        Err(e) => {
            &&& bad.len() > 0
            &&& e matches CgroupError::Failed(list)
            &&& list@ == bad
        },
    }
}

/// What the group's control files show for `knob` on a host with the
/// directories `dirs`: the value in the directory of the member that owns
/// the tunable, or nothing where the group has no such member, the
/// directory does not exist or no value was written.
pub open spec fn shown(dirs: Seq<DirModel>, members: Seq<Member>, knob: Knob) -> Option<i64> {
    if exists|i: int| 0 <= i < members.len() && (#[trigger] members[i]).kind == knob.owner() {
        let i = choose|i: int| 0 <= i < members.len() && (#[trigger] members[i]).kind == knob.owner();
        match dir_at(dirs, members[i].kind, members[i].path) {
            Some(d) => reading(d.written, knob),
            None => None,
        }
    } else {
        None
    }
}

/// A group that was created on a host, with what was left out on the way.
#[derive(Debug)]
pub struct Created {
    pub cgroup: Cgroup,
    /// The requested kinds whose hierarchy is not mounted.
    pub omitted: Vec<Controllers>,
    /// The kinds whose directory could not be created, each with the error.
    pub failed: Vec<(Controllers, ControllerError)>,
}

/// Creates the group called `name` over the kinds `requested` on `host`.
pub fn create(host: &mut Host, name: &str, requested: &Vec<Controllers>, hierarchy: &Hierarchy) -> (r:
    Result<Created, CgroupError>)
    ensures
        ({
            let chosen = selected(requested@, *hierarchy, name@);
            let actions = each(chosen, Operation::CreateDir);
            &&& final(host)@ == state_after(old(host)@, actions, actions.len())
            &&& match r {
                Ok(c) => {
                    &&& c.cgroup.wf()
                    &&& !c.cgroup.is_deleted()
                    &&& c.cgroup.name() == name@
                    &&& c.cgroup.members() == chosen
                    &&& chosen.len() > 0
                    &&& c.omitted@ == unavailable(requested@, *hierarchy)
                    &&& c.failed@.len() == 0
                },
                Err(e) => e is NoControllersAvailable && chosen.len() == 0,
            }
        }),
{
    match Cgroup::create(name, requested, hierarchy) {
        Err(e) => {
            proof {
                let chosen = selected(requested@, *hierarchy, name@);
                assert(each(chosen, Operation::CreateDir).len() == 0);
            }
            Err(e)
        },
        Ok(creation) => {
            let actions = creation.actions();
            let omitted = creation.omissions().clone();
            let outcomes = host.run(&actions);
            proof {
                let chosen = creation.members();
                let wanted = each(chosen, Operation::CreateDir);
                lemma_creations_succeed(old(host)@, wanted, wanted.len());
                lemma_kept_all(chosen, outcomes@, chosen.len());
                assert(chosen.take(chosen.len() as int) =~= chosen);
            }
            match creation.finish(&outcomes) {
                Ok((cgroup, failed)) => Ok(Created { cgroup, omitted, failed }),
                Err(e) => Err(e),
            }
        },
    }
}

/// Applies `res` to the group on `host`. What a subsystem wrote stays
/// written when another fails. Applying the empty record changes nothing
/// and succeeds.
pub fn apply(host: &mut Host, cgroup: &Cgroup, res: &Resources) -> (r: Result<(), CgroupError>)
    ensures
        cgroup.is_deleted() ==> final(host)@ == old(host)@ && r is Err && r->Err_0
            is AlreadyDeleted,
        !cgroup.is_deleted() && *res == Resources::empty() ==> final(host)@ == old(host)@ && r
            is Ok,
        !cgroup.is_deleted() ==> {
            let actions = writes(cgroup.members(), *res);
            &&& final(host)@ == state_after(old(host)@, actions, actions.len())
            &&& tells(
                r,
                ending(
                    old(host)@,
                    kinds_of(cgroup.members()),
                    actions,
                    rejections(cgroup.members(), *res),
                ),
            )
        },
{
    match cgroup.apply(res) {
        Err(e) => Err(e),
        Ok(plan) => {
            proof {
                assert(steps(plan.actions@).len() == plan.actions@.len());
            }
            let outcomes = host.run(&plan.actions);
            cgroup.report(&plan, &outcomes)
        },
    }
}

/// Adds the process `pid` to the group on `host`.
pub fn add_task(host: &mut Host, cgroup: &Cgroup, pid: u64) -> (r: Result<(), CgroupError>)
    ensures
        cgroup.is_deleted() ==> final(host)@ == old(host)@ && r is Err && r->Err_0
            is AlreadyDeleted,
        !cgroup.is_deleted() ==> {
            let actions = each(cgroup.members(), Operation::AddTask(pid));
            &&& final(host)@ == state_after(old(host)@, actions, actions.len())
            &&& tells(
                r,
                ending(old(host)@, kinds_of(cgroup.members()), actions, Seq::empty()),
            )
        },
{
    match cgroup.add_task(pid) {
        Err(e) => Err(e),
        Ok(plan) => {
            let outcomes = host.run(&plan.actions);
            proof {
                assert(plan.rejected@ =~= Seq::empty());
            }
            cgroup.report(&plan, &outcomes)
        },
    }
}

/// Takes the process `pid` out of the group on `host`.
pub fn remove_task(host: &mut Host, cgroup: &Cgroup, pid: u64) -> (r: Result<(), CgroupError>)
    ensures
        cgroup.is_deleted() ==> final(host)@ == old(host)@ && r is Err && r->Err_0
            is AlreadyDeleted,
        !cgroup.is_deleted() ==> {
            let actions = each(cgroup.members(), Operation::RemoveTask(pid));
            &&& final(host)@ == state_after(old(host)@, actions, actions.len())
            &&& tells(
                r,
                ending(old(host)@, kinds_of(cgroup.members()), actions, Seq::empty()),
            )
        },
{
    match cgroup.remove_task(pid) {
        Err(e) => Err(e),
        Ok(plan) => {
            let outcomes = host.run(&plan.actions);
            proof {
                assert(plan.rejected@ =~= Seq::empty());
            }
            cgroup.report(&plan, &outcomes)
        },
    }
}

/// Reads what the group's control files show for `knob` on `host`, in the
/// directory of the subsystem that owns the tunable.
pub fn read(host: &Host, cgroup: &Cgroup, knob: Knob) -> (r: Result<Option<i64>, CgroupError>)
    ensures
        match r {
            Ok(value) => !cgroup.is_deleted() && value == shown(host@, cgroup.members(), knob),
            Err(e) => cgroup.is_deleted() && e is AlreadyDeleted,
        },
{
    if cgroup.deleted() {
        return Err(CgroupError::AlreadyDeleted);
    }
    let kind = knob.controller();
    let subs = cgroup.subsystems();
    let ghost members = cgroup.members();
    match crate::member::position(subs, kind) {
        Some(at) => {
            proof {
                let m = members[at as int];
                assert(m == crate::member::member_of(subs@[at as int]));
                let i = choose|i: int| 0 <= i < members.len() && (#[trigger] members[i]).kind == kind;
                assert(kinds_of(members)[i] == kinds_of(members)[at as int]);
                assert(i == at);
            }
            Ok(host.read(kind, subs[at].get_path(), knob))
        },
        None => {
            proof {
                assert forall|i: int| 0 <= i < members.len() implies (#[trigger] members[i]).kind
                    != kind by {
                    assert(kinds_of(members)[i] == members[i].kind);
                }
            }
            Ok(None)
        },
    }
}

/// The task list of each of the group's directories on `host`, in
/// registration order.
pub fn census(host: &Host, cgroup: &Cgroup) -> (tasks: Vec<Vec<u64>>)
    ensures
        tasks@.len() == cgroup.members().len(),
        forall|i: int|
            0 <= i < tasks@.len() ==> (#[trigger] tasks@[i])@ == listing(host@, cgroup.members()[i]),
{
    let subs = cgroup.subsystems();
    let mut tasks: Vec<Vec<u64>> = Vec::new();
    let mut i: usize = 0;
    while i < subs.len()
        invariant
            0 <= i <= subs.len(),
            members_of(subs@) == cgroup.members(),
            tasks@.len() == i,
            forall|j: int|
                0 <= j < i ==> (#[trigger] tasks@[j])@ == listing(host@, cgroup.members()[j]),
        decreases subs.len() - i,
    {
        let list = host.tasks(subs[i].control_type(), subs[i].get_path());
        proof {
            assert(members_of(subs@)[i as int] == crate::member::member_of(subs@[i as int]));
        }
        tasks.push(list);
        i += 1;
    }
    tasks
}

/// Deletes the group on `host`. While the host lists a process in one of
/// the group's directories, the answer is `Busy` with the subsystem
/// registered last among those, and neither the host nor the group changes:
/// no directory is removed. Otherwise the group's directories are removed;
/// the answer tells how each removal ended.
pub fn delete(host: &mut Host, cgroup: &mut Cgroup) -> (r: Result<Vec<Outcome>, CgroupError>)
    ensures
        final(cgroup).name() == old(cgroup).name(),
        final(cgroup).members() == old(cgroup).members(),
        old(cgroup).is_deleted() ==> {
            &&& final(cgroup).is_deleted()
            &&& final(host)@ == old(host)@
            &&& r is Err
            &&& r->Err_0 is AlreadyDeleted
        },
        !old(cgroup).is_deleted() ==> match last_busy(
            old(host)@,
            old(cgroup).members(),
            old(cgroup).members().len(),
        ) {
            Some(i) => {
                &&& !final(cgroup).is_deleted()
                &&& final(host)@ == old(host)@
                &&& r is Err
                &&& r->Err_0 == CgroupError::Busy(old(cgroup).members()[i].kind)
            },
            None => {
                let actions = each(old(cgroup).members(), Operation::RemoveDir);
                &&& final(cgroup).is_deleted()
                &&& final(host)@ == state_after(old(host)@, actions, actions.len())
                &&& r is Ok
                &&& r->Ok_0@ == outcomes_of(old(host)@, actions, actions.len())
            },
        },
{
    let tasks = census(host, cgroup);
    proof {
        lemma_census_decides(host@, cgroup.members(), tasks@, cgroup.members().len());
    }
    match cgroup.delete(&tasks) {
        Err(e) => Err(e),
        Ok(actions) => Ok(host.run(&actions)),
    }
}

/// With the host's own task lists in hand, the last occupied directory is
/// the last in which the host lists a process.
pub proof fn lemma_census_decides(
    dirs: Seq<DirModel>,
    members: Seq<Member>,
    tasks: Seq<Vec<u64>>,
    n: nat,
)
    requires
        tasks.len() == members.len(),
        forall|i: int| 0 <= i < tasks.len() ==> (#[trigger] tasks[i])@ == listing(dirs, members[i]),
        n <= members.len(),
    ensures
        last_occupied(tasks, n) == last_busy(dirs, members, n),
    decreases n,
{
    if n > 0 {
        lemma_census_decides(dirs, members, tasks, (n - 1) as nat);
        assert(tasks[n - 1]@ == listing(dirs, members[n - 1]));
    }
}

/// The host creates every directory it is asked for: one that exists
/// already counts as created.
pub proof fn lemma_creations_succeed(dirs: Seq<DirModel>, actions: Seq<Step>, n: nat)
    requires
        n <= actions.len(),
        forall|j: int| 0 <= j < n ==> (#[trigger] actions[j]).op is CreateDir,
    ensures
        outcomes_of(dirs, actions, n).len() == n,
        forall|j: int| 0 <= j < n ==> #[trigger] outcomes_of(dirs, actions, n)[j] == Outcome::Done,
    decreases n,
{
    if n > 0 {
        lemma_creations_succeed(dirs, actions, (n - 1) as nat);
        let sofar = outcomes_of(dirs, actions, (n - 1) as nat);
        let now = outcomes_of(dirs, actions, n);
        assert forall|j: int| 0 <= j < n implies #[trigger] now[j] == Outcome::Done by {
            if j < n - 1 {
                assert(now[j] == sofar[j]);
            }
        }
    }
}

/// Where every directory was created, every candidate is kept and none is
/// dropped.
pub proof fn lemma_kept_all(members: Seq<Member>, outcomes: Seq<Outcome>, n: nat)
    requires
        n <= members.len(),
        n <= outcomes.len(),
        forall|j: int| 0 <= j < n ==> #[trigger] outcomes[j] == Outcome::Done,
    ensures
        kept(members, outcomes, n) == members.take(n as int),
        dropped(members, outcomes, n) == Seq::<(Controllers, ControllerError)>::empty(),
    decreases n,
{
    if n == 0 {
        assert(members.take(0) =~= Seq::<Member>::empty());
    } else {
        lemma_kept_all(members, outcomes, (n - 1) as nat);
        assert(outcomes[n - 1] == Outcome::Done);
        assert(members.take(n - 1).push(members[n - 1]) =~= members.take(n as int));
    }
}

/// What a group shows for a tunable is what the directory of the member
/// that owns the tunable shows.
pub proof fn lemma_shown_is_the_owners(
    dirs: Seq<DirModel>,
    members: Seq<Member>,
    knob: Knob,
    i: int,
)
    requires
        kinds_of(members).no_duplicates(),
        0 <= i < members.len(),
        members[i].kind == knob.owner(),
    ensures
        shown(dirs, members, knob) == match dir_at(dirs, members[i].kind, members[i].path) {
            Some(d) => reading(d.written, knob),
            None => None,
        },
{
    let c = choose|c: int| 0 <= c < members.len() && (#[trigger] members[c]).kind == knob.owner();
    assert(kinds_of(members)[c] == kinds_of(members)[i]);
}

} // verus!
