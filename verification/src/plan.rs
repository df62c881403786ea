//! What a call on a group amounts to before anything is written, and the
//! verdict on it once the outcomes are known.

use vstd::prelude::*;
use crate::action::{outcome_at, outcome_of, steps, Action, Operation, Outcome, Step};
use crate::controller::Controller;
use crate::directive::{translation, Directive};
use crate::error::ControllerError;
use crate::kinds::Controllers;
use crate::member::{kinds_of, member_of, Member};
use crate::resources::Resources;
use crate::subsystem::Subsystem;

verus! {

/// The actions of one call on a group, and the subsystems that refused
/// their part of it before anything was written.
#[derive(Clone, Debug, PartialEq, Eq)]
pub struct Plan {
    /// What to do, grouped by subsystem in the order in which the group
    /// registered them.
    pub actions: Vec<Action>,
    /// The subsystems that refused, each with its error, in the same order.
    pub rejected: Vec<(Controllers, ControllerError)>,
}

/// One write in the directory of `m` for each of `directives`.
pub open spec fn write_steps(m: Member, directives: Seq<Directive>) -> Seq<Step> {
    directives.map_values(|d: Directive| Step { kind: m.kind, path: m.path, op: Operation::Write(d) })
}

/// What applying `res` writes in the directory of `m`: the directives of the
/// member's part, or nothing where the member refuses the part.
pub open spec fn member_writes(m: Member, res: Resources) -> Seq<Step> {
    match translation(res.settings(m.kind)) {
        Ok(directives) => write_steps(m, directives),
        Err(_) => Seq::empty(),
    }
}

/// What applying `res` writes for `members`, member by member.
pub open spec fn writes(members: Seq<Member>, res: Resources) -> Seq<Step>
    decreases members.len(),
{
    if members.len() == 0 {
        Seq::empty()
    } else {
        writes(members.drop_last(), res) + member_writes(members.last(), res)
    }
}

/// The members that refuse their part of `res`, each with its error.
pub open spec fn rejections(members: Seq<Member>, res: Resources) -> Seq<
    (Controllers, ControllerError),
>
    decreases members.len(),
{
    if members.len() == 0 {
        Seq::empty()
    } else {
        let before = rejections(members.drop_last(), res);
        match translation(res.settings(members.last().kind)) {
            Ok(_) => before,
            Err(e) => before.push((members.last().kind, e)),
        }
    }
}

/// The error of the first among the first `n` entries of `rejected` that
/// names `kind`.
pub open spec fn refusal(rejected: Seq<(Controllers, ControllerError)>, kind: Controllers, n: nat)
    -> Option<ControllerError>
    decreases n,
{
    if n == 0 {
        None
    } else {
        match refusal(rejected, kind, (n - 1) as nat) {
            Some(e) => Some(e),
            None => if n <= rejected.len() && rejected[n - 1].0 == kind {
                Some(rejected[n - 1].1)
            } else {
                None
            },
        }
    }
}

/// The error of the first among the first `n` of `actions` that is in the
/// hierarchy of `kind` and failed.
pub open spec fn failure(actions: Seq<Step>, outcomes: Seq<Outcome>, kind: Controllers, n: nat)
    -> Option<ControllerError>
    decreases n,
{
    if n == 0 {
        None
    } else {
        match failure(actions, outcomes, kind, (n - 1) as nat) {
            Some(e) => Some(e),
            None => if n <= actions.len() && actions[n - 1].kind == kind {
                match outcome_at(outcomes, n - 1) {
                    Outcome::Done => None,
                    Outcome::Failed(e) => Some(e),
                }
            } else {
                None
            },
        }
    }
}

/// How the call ended for the subsystem `kind`: with the error of its
/// refusal, else with that of its first action that failed, else well.
pub open spec fn verdict(
    actions: Seq<Step>,
    rejected: Seq<(Controllers, ControllerError)>,
    outcomes: Seq<Outcome>,
    kind: Controllers,
) -> Option<ControllerError> {
    match refusal(rejected, kind, rejected.len()) {
        Some(e) => Some(e),
        None => failure(actions, outcomes, kind, actions.len()),
    }
}

/// The subsystems among `kinds` for which the call ended badly, each with
/// its error, in the order of `kinds`.
pub open spec fn failures(
    kinds: Seq<Controllers>,
    actions: Seq<Step>,
    rejected: Seq<(Controllers, ControllerError)>,
    outcomes: Seq<Outcome>,
) -> Seq<(Controllers, ControllerError)>
    decreases kinds.len(),
{
    if kinds.len() == 0 {
        Seq::empty()
    } else {
        let before = failures(kinds.drop_last(), actions, rejected, outcomes);
        match verdict(actions, rejected, outcomes, kinds.last()) {
            Some(e) => before.push((kinds.last(), e)),
            None => before,
        }
    }
}

impl Plan {
    /// A plan with nothing to do and nothing refused.
    pub fn new() -> (plan: Plan)
        ensures
            plan.actions@.len() == 0,
            plan.rejected@.len() == 0,
    {
        Plan { actions: Vec::new(), rejected: Vec::new() }
    }

    /// Adds one write in the directory of `sub` for each of `directives`.
    pub fn write_all(&mut self, sub: &Subsystem, directives: &Vec<Directive>)
        ensures
            steps(final(self).actions@) == steps(old(self).actions@) + write_steps(
                member_of(*sub),
                directives@,
            ),
            final(self).rejected@ == old(self).rejected@,
    {
        let ghost before = steps(self.actions@);
        let ghost m = member_of(*sub);
        let mut j: usize = 0;
        while j < directives.len()
            invariant
                0 <= j <= directives.len(),
                m == member_of(*sub),
                steps(self.actions@) =~= before + write_steps(m, directives@.take(j as int)),
                self.rejected@ == old(self).rejected@,
            decreases directives.len() - j,
        {
            let ghost sofar = steps(self.actions@);
            let action = Action {
                kind: sub.control_type(),
                path: sub.get_path().clone(),
                op: Operation::Write(directives[j]),
            };
            self.actions.push(action);
            proof {
                assert(steps(self.actions@) =~= sofar.push(action@));
                assert(directives@.take(j as int + 1) =~= directives@.take(j as int).push(
                    directives@[j as int],
                ));
            }
            j += 1;
        }
        proof {
            assert(directives@.take(j as int) =~= directives@);
        }
    }

    /// How the call ended for the subsystem `kind`, given how each action
    /// ended.
    pub fn verdict_for(&self, outcomes: &Vec<Outcome>, kind: Controllers) -> (v: Option<
        ControllerError,
    >)
        ensures
            v == verdict(steps(self.actions@), self.rejected@, outcomes@, kind),
    {
        let mut i: usize = 0;
        while i < self.rejected.len()
            invariant
                0 <= i <= self.rejected.len(),
                refusal(self.rejected@, kind, i as nat) is None,
            decreases self.rejected.len() - i,
        {
            if self.rejected[i].0 == kind {
                proof {
                    lemma_refusal_stays(self.rejected@, kind, (i + 1) as nat, self.rejected@.len());
                }
                return Some(self.rejected[i].1);
            }
            i += 1;
        }
        let mut j: usize = 0;
        while j < self.actions.len()
            invariant
                0 <= j <= self.actions.len(),
                refusal(self.rejected@, kind, self.rejected@.len()) is None,
                failure(steps(self.actions@), outcomes@, kind, j as nat) is None,
            decreases self.actions.len() - j,
        {
            if self.actions[j].kind == kind {
                match outcome_of(outcomes, j) {
                    Outcome::Done => {},
                    Outcome::Failed(e) => {
                        proof {
                            assert(steps(self.actions@)[j as int].kind == kind);
                            lemma_failure_stays(
                                steps(self.actions@),
                                outcomes@,
                                kind,
                                (j + 1) as nat,
                                self.actions@.len(),
                            );
                        }
                        return Some(e);
                    },
                }
            }
            j += 1;
        }
        None
    }
}

/// Once a refusal is found among the first `n` entries, it is the one found
/// among any more of them.
pub proof fn lemma_refusal_stays(
    rejected: Seq<(Controllers, ControllerError)>,
    kind: Controllers,
    n: nat,
    m: nat,
)
    requires
        n <= m,
        refusal(rejected, kind, n) is Some,
    ensures
        refusal(rejected, kind, m) == refusal(rejected, kind, n),
    decreases m,
{
    if n < m {
        lemma_refusal_stays(rejected, kind, n, (m - 1) as nat);
    }
}

/// Once a failure is found among the first `n` actions, it is the one found
/// among any more of them.
pub proof fn lemma_failure_stays(
    actions: Seq<Step>,
    outcomes: Seq<Outcome>,
    kind: Controllers,
    n: nat,
    m: nat,
)
    requires
        n <= m,
        failure(actions, outcomes, kind, n) is Some,
    ensures
        failure(actions, outcomes, kind, m) == failure(actions, outcomes, kind, n),
    decreases m,
{
    if n < m {
        lemma_failure_stays(actions, outcomes, kind, n, (m - 1) as nat);
    }
}

/// The empty record asks nothing of any subsystem: applying it writes
/// nothing and no subsystem refuses.
pub proof fn lemma_empty_record_is_silent(members: Seq<Member>)
    ensures
        writes(members, Resources::empty()) == Seq::<Step>::empty(),
        rejections(members, Resources::empty()) == Seq::<(Controllers, ControllerError)>::empty(),
    decreases members.len(),
{
    if members.len() > 0 {
        lemma_empty_record_is_silent(members.drop_last());
        lemma_absent_part_is_left_alone(members.last(), Resources::empty());
        assert(Seq::<Step>::empty() + Seq::<Step>::empty() =~= Seq::<Step>::empty());
    }
}

/// A subsystem whose part is absent from the record is left alone: nothing
/// is written for it and it does not refuse.
pub proof fn lemma_absent_part_is_left_alone(m: Member, res: Resources)
    requires
        !res.carries(m.kind),
    ensures
        member_writes(m, res) == Seq::<Step>::empty(),
        translation(res.settings(m.kind)) is Ok,
{
    let none = res.settings(m.kind);
    assert(none =~= Seq::empty());
    assert(crate::directive::acceptable(none));
    assert(crate::directive::chosen(none) =~= Seq::empty());
    assert(write_steps(m, Seq::empty()) =~= Seq::empty());
}

/// A call with nothing to do and nothing refused ends well for every
/// subsystem, whatever outcomes are handed in.
pub proof fn lemma_nothing_to_do_ends_well(kinds: Seq<Controllers>, outcomes: Seq<Outcome>)
    ensures
        failures(
            kinds,
            Seq::<Step>::empty(),
            Seq::<(Controllers, ControllerError)>::empty(),
            outcomes,
        ) == Seq::<(Controllers, ControllerError)>::empty(),
    decreases kinds.len(),
{
    if kinds.len() > 0 {
        lemma_nothing_to_do_ends_well(kinds.drop_last(), outcomes);
    }
}

/// What is written for the first members of a group does not depend on the
/// members behind them.
pub proof fn lemma_writes_grow(members: Seq<Member>, res: Resources, n: int)
    requires
        0 <= n <= members.len(),
    ensures
        writes(members.take(n), res).is_prefix_of(writes(members, res)),
    decreases members.len() - n,
{
    if n == members.len() {
        assert(members.take(n) =~= members);
    } else {
        lemma_writes_grow(members, res, n + 1);
        assert(members.take(n + 1).drop_last() =~= members.take(n));
    }
}

/// Subsystems are independent when a record is applied: the writes of the
/// member at position `i` stand in the plan exactly as that member
/// translates its own part, whether or not any other member refuses.
pub proof fn lemma_members_are_independent(members: Seq<Member>, res: Resources, i: int)
    requires
        0 <= i < members.len(),
    ensures
        ({
            let start = writes(members.take(i), res).len() as int;
            let own = member_writes(members[i], res);
            &&& start + own.len() <= writes(members, res).len()
            &&& writes(members, res).subrange(start, start + own.len()) == own
        }),
{
    let start = writes(members.take(i), res).len() as int;
    let own = member_writes(members[i], res);
    lemma_writes_grow(members, res, i + 1);
    assert(members.take(i + 1).drop_last() =~= members.take(i));
    assert(members.take(i + 1).last() == members[i]);
    assert(writes(members.take(i + 1), res) == writes(members.take(i), res) + own);
    let upto = writes(members.take(i + 1), res);
    let all = writes(members, res);
    assert(upto == all.subrange(0, upto.len() as int));
    assert forall|k: int| 0 <= k < own.len() implies all.subrange(start, start + own.len())[k]
        == own[k] by {
        assert(all.subrange(0, upto.len() as int)[start + k] == all[start + k]);
        assert(upto[start + k] == own[k]);
    }
    assert(all.subrange(start, start + own.len()) =~= own);
}

/// A longer list of refusals gives the same answer on its first entries.
pub proof fn lemma_refusal_prefix(
    short: Seq<(Controllers, ControllerError)>,
    long: Seq<(Controllers, ControllerError)>,
    kind: Controllers,
    n: nat,
)
    requires
        short.is_prefix_of(long),
        n <= short.len(),
    ensures
        refusal(short, kind, n) == refusal(long, kind, n),
    decreases n,
{
    if n > 0 {
        lemma_refusal_prefix(short, long, kind, (n - 1) as nat);
        assert(short[n - 1] == long[n - 1]);
    }
}

/// A member that refuses its part of a record is judged by that refusal,
/// and one that accepts it is not reported as refusing: the refusal found
/// for a kind is `InvalidValue` exactly if a member of that kind finds a
/// value out of range.
pub proof fn lemma_refusal_exactly(members: Seq<Member>, res: Resources, kind: Controllers)
    ensures
        refusal(rejections(members, res), kind, rejections(members, res).len()) == if kinds_of(
            members,
        ).contains(kind) && translation(res.settings(kind)) is Err {
            Some(ControllerError::InvalidValue)
        } else {
            None
        },
    decreases members.len(),
{
    let all = rejections(members, res);
    if members.len() > 0 {
        let front = members.drop_last();
        let last = members.last();
        let before = rejections(front, res);
        lemma_refusal_exactly(front, res, kind);
        assert(kinds_of(members) =~= kinds_of(front).push(last.kind));
        assert(kinds_of(members)[front.len() as int] == last.kind);
        assert(kinds_of(members).contains(kind) <==> kinds_of(front).contains(kind) || last.kind
            == kind) by {
            if kinds_of(front).contains(kind) {
                let j = choose|j: int| 0 <= j < kinds_of(front).len() && kinds_of(front)[j] == kind;
                assert(kinds_of(members)[j] == kind);
            }
        }
        if all.len() > before.len() {
            assert(all =~= before.push((last.kind, ControllerError::InvalidValue)));
            lemma_refusal_prefix(before, all, kind, before.len());
        }
    } else {
        assert(kinds_of(members) =~= Seq::<Controllers>::empty());
    }
}

/// A subsystem all of whose actions ended well has no failure.
pub proof fn lemma_all_done_no_failure(
    actions: Seq<Step>,
    outcomes: Seq<Outcome>,
    kind: Controllers,
    n: nat,
)
    requires
        n <= actions.len(),
        forall|j: int|
            0 <= j < n && (#[trigger] actions[j]).kind == kind ==> outcome_at(outcomes, j)
                == Outcome::Done,
    ensures
        failure(actions, outcomes, kind, n) is None,
    decreases n,
{
    if n > 0 {
        lemma_all_done_no_failure(actions, outcomes, kind, (n - 1) as nat);
    }
}

/// Partial failure is reported and nothing is taken back: when a record is
/// applied, a member that finds a value out of range is judged
/// `InvalidValue`, while a member that accepts its part and whose writes all
/// ended well is judged to have succeeded, whatever happened to the others.
pub proof fn lemma_partial_failure(
    members: Seq<Member>,
    res: Resources,
    outcomes: Seq<Outcome>,
    good: int,
    bad: int,
)
    requires
        0 <= good < members.len(),
        0 <= bad < members.len(),
        translation(res.settings(members[good].kind)) is Ok,
        translation(res.settings(members[bad].kind)) is Err,
        forall|j: int|
            0 <= j < writes(members, res).len() && (#[trigger] writes(members, res)[j]).kind
                == members[good].kind ==> outcome_at(outcomes, j) == Outcome::Done,
    ensures
        verdict(writes(members, res), rejections(members, res), outcomes, members[good].kind)
            is None,
        verdict(writes(members, res), rejections(members, res), outcomes, members[bad].kind)
            == Some(ControllerError::InvalidValue),
{
    lemma_refusal_exactly(members, res, members[good].kind);
    lemma_refusal_exactly(members, res, members[bad].kind);
    assert(kinds_of(members)[bad] == members[bad].kind);
    lemma_all_done_no_failure(
        writes(members, res),
        outcomes,
        members[good].kind,
        writes(members, res).len(),
    );
}

/// The report names exactly the subsystems for which the call ended badly:
/// a pair is in the list if and only if its kind is one of `kinds` and its
/// error is the verdict on that kind.
pub proof fn lemma_failures_exactly(
    kinds: Seq<Controllers>,
    actions: Seq<Step>,
    rejected: Seq<(Controllers, ControllerError)>,
    outcomes: Seq<Outcome>,
)
    ensures
        forall|kind: Controllers, e: ControllerError| #[trigger]
            failures(kinds, actions, rejected, outcomes).contains((kind, e)) <==> kinds.contains(
                kind,
            ) && verdict(actions, rejected, outcomes, kind) == Some(e),
    decreases kinds.len(),
{
    let all = failures(kinds, actions, rejected, outcomes);
    if kinds.len() > 0 {
        let front = kinds.drop_last();
        let last = kinds.last();
        let before = failures(front, actions, rejected, outcomes);
        lemma_failures_exactly(front, actions, rejected, outcomes);
        assert(kinds[kinds.len() - 1] == last);
        assert forall|kind: Controllers| #[trigger]
            kinds.contains(kind) <==> front.contains(kind) || kind == last by {
            if front.contains(kind) {
                let j = choose|j: int| 0 <= j < front.len() && front[j] == kind;
                assert(kinds[j] == kind);
            }
            if kinds.contains(kind) && kind != last {
                let j = choose|j: int| 0 <= j < kinds.len() && kinds[j] == kind;
                assert(front[j] == kind);
            }
        }
        assert forall|kind: Controllers, e: ControllerError| #[trigger]
            all.contains((kind, e)) <==> kinds.contains(kind) && verdict(
                actions,
                rejected,
                outcomes,
                kind,
            ) == Some(e) by {
            if all.len() > before.len() {
                let added = all.last();
                assert(all =~= before.push(added));
                assert(all[before.len() as int] == added);
                if before.contains((kind, e)) {
                    let j = choose|j: int| 0 <= j < before.len() && before[j] == (kind, e);
                    assert(all[j] == (kind, e));
                }
                if all.contains((kind, e)) {
                    let j = choose|j: int| 0 <= j < all.len() && all[j] == (kind, e);
                    if j < before.len() {
                        assert(before[j] == (kind, e));
                    }
                }
            } else {
                assert(all == before);
            }
        }
    }
}

} // verus!
