//! A control group that is not materialized yet: which subsystems it will
//! span, and which directories have to be created for it.

use vstd::prelude::*;
use crate::action::{outcome_at, outcome_of, steps, Action, Operation, Outcome};
use crate::cgroup::Cgroup;
use crate::controller::Controller;
use crate::error::{CgroupError, ControllerError};
use crate::fanout::{each, fan_out};
use crate::hierarchy::Hierarchy;
use crate::kinds::Controllers;
use crate::member::{coherent, kinds_of, listed, member_of, members_of, placed, position, Member};
use crate::path::joined;
use crate::subsystem::Subsystem;

verus! {

/// The subsystems of a group called `name` over the kinds `requested`: one
/// for each kind whose hierarchy is mounted, in the order of the request, a
/// kind that is requested twice counting once.
pub open spec fn selected(requested: Seq<Controllers>, h: Hierarchy, name: Seq<char>) -> Seq<Member>
    decreases requested.len(),
{
    if requested.len() == 0 {
        Seq::empty()
    } else {
        let before = selected(requested.drop_last(), h, name);
        let kind = requested.last();
        match h.root_of(kind) {
            Some(root) => if kinds_of(before).contains(kind) {
                before
            } else {
                before.push(Member { kind, base: root, path: joined(root, name) })
            },
            None => before,
        }
    }
}

/// The kinds among `requested` whose hierarchy is not mounted, in the order
/// of the request, each once.
pub open spec fn unavailable(requested: Seq<Controllers>, h: Hierarchy) -> Seq<Controllers>
    decreases requested.len(),
{
    if requested.len() == 0 {
        Seq::empty()
    } else {
        let before = unavailable(requested.drop_last(), h);
        let kind = requested.last();
        if h.root_of(kind) is None && !before.contains(kind) {
            before.push(kind)
        } else {
            before
        }
    }
}

/// Of the first `n` members, those whose directory was created.
pub open spec fn kept(members: Seq<Member>, outcomes: Seq<Outcome>, n: nat) -> Seq<Member>
    decreases n,
{
    if n == 0 {
        Seq::empty()
    } else {
        let before = kept(members, outcomes, (n - 1) as nat);
        match outcome_at(outcomes, n - 1) {
            Outcome::Done => before.push(members[n - 1]),
            Outcome::Failed(_) => before,
        }
    }
}

/// Of the first `n` members, the kinds whose directory could not be created,
/// each with the error.
pub open spec fn dropped(members: Seq<Member>, outcomes: Seq<Outcome>, n: nat) -> Seq<
    (Controllers, ControllerError),
>
    decreases n,
{
    if n == 0 {
        Seq::empty()
    } else {
        let before = dropped(members, outcomes, (n - 1) as nat);
        match outcome_at(outcomes, n - 1) {
            Outcome::Done => before,
            Outcome::Failed(e) => before.push((members[n - 1].kind, e)),
        }
    }
}

/// Dropping the members whose directory could not be created leaves the rest
/// coherent: each one kept is one of the first `n` members, so the path
/// invariant holds of it and no kind occurs twice.
pub proof fn lemma_kept_coherent(members: Seq<Member>, outcomes: Seq<Outcome>, n: nat, name: Seq<char>)
    requires
        coherent(members, name),
        n <= members.len(),
    ensures
        coherent(kept(members, outcomes, n), name),
        kept(members, outcomes, n).len() <= n,
        forall|a: int|
            0 <= a < kept(members, outcomes, n).len() ==> exists|j: int|
                0 <= j < n && members[j] == #[trigger] kept(members, outcomes, n)[a],
    decreases n,
{
    if n > 0 {
        let before = kept(members, outcomes, (n - 1) as nat);
        let now = kept(members, outcomes, n);
        lemma_kept_coherent(members, outcomes, (n - 1) as nat, name);
        assert forall|a: int| 0 <= a < now.len() implies exists|j: int|
            0 <= j < n && members[j] == #[trigger] now[a] by {
            if a < before.len() {
                let j = choose|j: int| 0 <= j < n - 1 && members[j] == before[a];
                assert(members[j] == now[a]);
            } else {
                assert(members[n - 1] == now[a]);
            }
        }
        assert forall|a: int, b: int|
            0 <= a < now.len() && 0 <= b < now.len() && a != b implies kinds_of(now)[a] != kinds_of(
            now,
        )[b] by {
            let ja = choose|j: int| 0 <= j < n && members[j] == now[a];
            let jb = choose|j: int| 0 <= j < n && members[j] == now[b];
            if a < before.len() && b < before.len() {
                assert(kinds_of(before)[a] == now[a].kind);
                assert(kinds_of(before)[b] == now[b].kind);
            } else if a < before.len() {
                let j = choose|j: int| 0 <= j < n - 1 && members[j] == before[a];
                assert(kinds_of(members)[j] == now[a].kind);
                assert(kinds_of(members)[n - 1] == now[b].kind);
            } else {
                let j = choose|j: int| 0 <= j < n - 1 && members[j] == before[b];
                assert(kinds_of(members)[j] == now[b].kind);
                assert(kinds_of(members)[n - 1] == now[a].kind);
            }
        }
    }
}

/// Which subsystems a creation spans: exactly the requested kinds whose
/// hierarchy is mounted, each once and each rooted where its hierarchy is
/// mounted, with the path invariant; and exactly the requested kinds whose
/// hierarchy is not mounted are reported as left out, each once.
pub proof fn lemma_selected_exactly(requested: Seq<Controllers>, h: Hierarchy, name: Seq<char>)
    ensures
        coherent(selected(requested, h, name), name),
        forall|kind: Controllers| #[trigger]
            kinds_of(selected(requested, h, name)).contains(kind) <==> requested.contains(kind)
                && h.root_of(kind) is Some,
        forall|i: int|
            0 <= i < selected(requested, h, name).len() ==> h.root_of(
                (#[trigger] selected(requested, h, name)[i]).kind,
            ) == Some(selected(requested, h, name)[i].base),
        unavailable(requested, h).no_duplicates(),
        forall|kind: Controllers| #[trigger]
            unavailable(requested, h).contains(kind) <==> requested.contains(kind) && h.root_of(
                kind,
            ) is None,
    decreases requested.len(),
{
    let sel = selected(requested, h, name);
    let una = unavailable(requested, h);
    if requested.len() > 0 {
        let front = requested.drop_last();
        let last = requested.last();
        let sel0 = selected(front, h, name);
        let una0 = unavailable(front, h);
        lemma_selected_exactly(front, h, name);
        assert(requested[requested.len() - 1] == last);
        assert forall|kind: Controllers| #[trigger]
            requested.contains(kind) <==> front.contains(kind) || kind == last by {
            if front.contains(kind) {
                let j = choose|j: int| 0 <= j < front.len() && front[j] == kind;
                assert(requested[j] == kind);
            }
            if requested.contains(kind) && kind != last {
                let j = choose|j: int| 0 <= j < requested.len() && requested[j] == kind;
                assert(front[j] == kind);
            }
        }
        if sel.len() > sel0.len() {
            let added = sel.last();
            assert(sel =~= sel0.push(added));
            assert(kinds_of(sel) =~= kinds_of(sel0).push(last));
            assert(kinds_of(sel)[sel0.len() as int] == last);
            assert forall|kind: Controllers| #[trigger]
                kinds_of(sel).contains(kind) <==> kinds_of(sel0).contains(kind) || kind == last by {
                if kinds_of(sel0).contains(kind) {
                    let j = choose|j: int| 0 <= j < kinds_of(sel0).len() && kinds_of(sel0)[j] == kind;
                    assert(kinds_of(sel)[j] == kind);
                }
            }
            assert forall|a: int, b: int|
                0 <= a < kinds_of(sel).len() && 0 <= b < kinds_of(sel).len() && a != b implies kinds_of(
                sel,
            )[a] != kinds_of(sel)[b] by {
                if a < sel0.len() {
                    assert(kinds_of(sel0)[a] == kinds_of(sel)[a]);
                }
                if b < sel0.len() {
                    assert(kinds_of(sel0)[b] == kinds_of(sel)[b]);
                }
            }
        } else {
            assert(sel == sel0);
        }
        if una.len() > una0.len() {
            assert(una =~= una0.push(last));
            assert(una[una0.len() as int] == last);
            assert forall|kind: Controllers| #[trigger]
                una.contains(kind) <==> una0.contains(kind) || kind == last by {
                if una0.contains(kind) {
                    let j = choose|j: int| 0 <= j < una0.len() && una0[j] == kind;
                    assert(una[j] == kind);
                }
            }
        } else {
            assert(una == una0);
        }
    } else {
        assert(kinds_of(sel) =~= Seq::<Controllers>::empty());
    }
}

/// A group before its directories exist.
#[derive(Debug)]
pub struct Creation {
    name: String,
    candidates: Vec<Subsystem>,
    omitted: Vec<Controllers>,
}

impl Creation {
    /// The group's name.
    pub closed spec fn name(&self) -> Seq<char> {
        self.name@
    }

    /// The subsystems that the group will span if their directories can be
    /// created.
    pub closed spec fn members(&self) -> Seq<Member> {
        members_of(self.candidates@)
    }

    /// The requested kinds that were left out because their hierarchy is not
    /// mounted.
    pub closed spec fn omitted(&self) -> Seq<Controllers> {
        self.omitted@
    }

    /// What holds of every value of this type: the path invariant, that no
    /// two subsystems are of one kind, and that there is a subsystem.
    pub open spec fn wf(&self) -> bool {
        &&& coherent(self.members(), self.name())
        &&& self.members().len() > 0
    }

    #[verifier::type_invariant]
    spec fn inv(&self) -> bool {
        &&& coherent(members_of(self.candidates@), self.name@)
        &&& self.candidates@.len() > 0
    }

    /// Decides which subsystems a group called `name` over the kinds
    /// `requested` spans on a host with the mounts of `hierarchy`. A kind
    /// whose hierarchy is not mounted is left out and reported; if that
    /// leaves none, the answer is `NoControllersAvailable`.
    pub fn new(name: &str, requested: &Vec<Controllers>, hierarchy: &Hierarchy) -> (r: Result<
        Creation,
        CgroupError,
    >)
        ensures
            match r {
                Ok(c) => {
                    &&& c.wf()
                    &&& c.name() == name@
                    &&& c.members() == selected(requested@, *hierarchy, name@)
                    &&& c.omitted() == unavailable(requested@, *hierarchy)
                },
                Err(e) => {
                    &&& e is NoControllersAvailable
                    &&& selected(requested@, *hierarchy, name@).len() == 0
                },
            },
    {
        let mut candidates: Vec<Subsystem> = Vec::new();
        let mut omitted: Vec<Controllers> = Vec::new();
        let mut i: usize = 0;
        proof {
            assert(requested@.take(0) =~= Seq::<Controllers>::empty());
            assert(members_of(candidates@) =~= Seq::<Member>::empty());
        }
        while i < requested.len()
            invariant
                0 <= i <= requested.len(),
                members_of(candidates@) == selected(requested@.take(i as int), *hierarchy, name@),
                omitted@ == unavailable(requested@.take(i as int), *hierarchy),
                coherent(members_of(candidates@), name@),
            decreases requested.len() - i,
        {
            let kind = requested[i];
            proof {
                assert(requested@.take(i as int + 1).drop_last() =~= requested@.take(i as int));
                assert(requested@.take(i as int + 1).last() == kind);
            }
            match hierarchy.root_for(kind) {
                Some(root) => {
                    let held = position(&candidates, kind);
                    proof {
                        if let Some(p) = held {
                            assert(kinds_of(members_of(candidates@))[p as int] == kind);
                        }
                    }
                    if held.is_none() {
                        let ghost before = members_of(candidates@);
                        let sub = Subsystem::at(kind, root, name);
                        candidates.push(sub);
                        proof {
                            let after = members_of(candidates@);
                            assert(after =~= before.push(member_of(sub)));
                            assert(kinds_of(after) =~= kinds_of(before).push(kind));
                            assert forall|a: int, b: int|
                                0 <= a < kinds_of(after).len() && 0 <= b < kinds_of(after).len()
                                    && a != b implies kinds_of(after)[a] != kinds_of(after)[b] by {
                                if a < before.len() {
                                    assert(kinds_of(before)[a] == kinds_of(after)[a]);
                                }
                                if b < before.len() {
                                    assert(kinds_of(before)[b] == kinds_of(after)[b]);
                                }
                            }
                        }
                    }
                },
                None => {
                    if !listed(&omitted, kind) {
                        omitted.push(kind);
                    }
                },
            }
            i += 1;
        }
        proof {
            assert(requested@.take(i as int) =~= requested@);
        }
        if candidates.len() == 0 {
            Err(CgroupError::NoControllersAvailable)
        } else {
            Ok(Creation { name: String::from_str(name), candidates, omitted })
        }
    }

    /// The requested kinds that were left out because their hierarchy is not
    /// mounted.
    pub fn omissions(&self) -> (kinds: &Vec<Controllers>)
        ensures
            kinds@ == self.omitted(),
    {
        &self.omitted
    }

    /// The directories to create: the group's directory in each hierarchy, in
    /// the order of the request.
    pub fn actions(&self) -> (actions: Vec<Action>)
        ensures
            steps(actions@) == each(self.members(), Operation::CreateDir),
    {
        fan_out(&self.candidates, Operation::CreateDir)
    }

    /// Makes the group out of what could be created. `outcomes` tells how
    /// each of [`Creation::actions`] ended, in their order. A subsystem whose
    /// directory could not be created is dropped and reported with the
    /// error; if none is left, the answer is `NoControllersAvailable`.
    pub fn finish(self, outcomes: &Vec<Outcome>) -> (r: Result<
        (Cgroup, Vec<(Controllers, ControllerError)>),
        CgroupError,
    >)
        ensures
            match r {
                Ok((cgroup, failed)) => {
                    &&& cgroup.wf()
                    &&& !cgroup.is_deleted()
                    &&& cgroup.name() == self.name()
                    &&& cgroup.members() == kept(self.members(), outcomes@, self.members().len())
                    &&& cgroup.members().len() > 0
                    &&& failed@ == dropped(self.members(), outcomes@, self.members().len())
                },
                Err(e) => {
                    &&& e is NoControllersAvailable
                    &&& kept(self.members(), outcomes@, self.members().len()).len() == 0
                },
            },
    {
        proof {
            use_type_invariant(&self);
        }
        let ghost members = self.members();
        let mut subsystems: Vec<Subsystem> = Vec::new();
        let mut failed: Vec<(Controllers, ControllerError)> = Vec::new();
        let mut i: usize = 0;
        proof {
            assert(members_of(subsystems@) =~= Seq::<Member>::empty());
        }
        while i < self.candidates.len()
            invariant
                0 <= i <= self.candidates.len(),
                members == members_of(self.candidates@),
                placed(members, self.name@),
                members_of(subsystems@) == kept(members, outcomes@, i as nat),
                failed@ == dropped(members, outcomes@, i as nat),
            decreases self.candidates.len() - i,
        {
            let candidate = &self.candidates[i];
            match outcome_of(outcomes, i) {
                Outcome::Done => {
                    let ghost before = members_of(subsystems@);
                    let sub = Subsystem::at(
                        candidate.control_type(),
                        candidate.get_base().clone(),
                        self.name.as_str(),
                    );
                    proof {
                        assert(members[i as int] == member_of(*candidate));
                        assert(member_of(sub) == members[i as int]);
                    }
                    subsystems.push(sub);
                    proof {
                        assert(members_of(subsystems@) =~= before.push(member_of(sub)));
                    }
                },
                Outcome::Failed(e) => {
                    proof {
                        assert(members[i as int] == member_of(*candidate));
                    }
                    failed.push((candidate.control_type(), e));
                },
            }
            i += 1;
        }
        proof {
            lemma_kept_coherent(members, outcomes@, members.len(), self.name@);
        }
        if subsystems.len() == 0 {
            Err(CgroupError::NoControllersAvailable)
        } else {
            Ok((Cgroup::assemble(self.name, subsystems), failed))
        }
    }
}

} // verus!
