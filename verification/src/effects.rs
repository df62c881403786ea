//! What applying a record does to a host, seen from one subsystem.

use vstd::prelude::*;
use crate::action::{outcome_at, Outcome, Step};
use crate::directive::{
    chosen, lemma_chosen_accepted, lemma_round_trip, reading, translation, Directive, Setting,
};
use crate::host::{
    dir_at, lemma_foreign_writes, lemma_run_in_two, lemma_write_lands, outcomes_of, state_after,
    DirModel,
};
use crate::kinds::Controllers;
use crate::member::{kinds_of, Member};
use crate::plan::{
    lemma_all_done_no_failure, lemma_refusal_exactly, member_writes, rejections, verdict,
    write_steps, writes,
};
use crate::rehearsal::{lemma_shown_is_the_owners, shown};
use crate::resources::{
    lemma_settings_are_distinct, lemma_settings_are_the_subsystems, names_each_device_once,
    Resources,
};

verus! {

/// The directives of settings that all belong to one subsystem belong to
/// that subsystem.
pub proof fn lemma_chosen_owned(settings: Seq<Setting>, kind: Controllers)
    requires
        forall|i: int| 0 <= i < settings.len() ==> (#[trigger] settings[i]).knob.owner() == kind,
    ensures
        forall|j: int|
            0 <= j < chosen(settings).len() ==> (#[trigger] chosen(settings)[j]).knob.owner()
                == kind,
    decreases settings.len(),
{
    if settings.len() > 0 {
        let front = settings.drop_last();
        assert forall|i: int| 0 <= i < front.len() implies (#[trigger] front[i]).knob.owner()
            == kind by {
            assert(front[i] == settings[i]);
        }
        lemma_chosen_owned(front, kind);
        assert(settings[settings.len() - 1] == settings.last());
    }
}

/// Applying a record only ever writes, and only in the hierarchies of the
/// members.
pub proof fn lemma_writes_are_writes(members: Seq<Member>, res: Resources)
    ensures
        forall|j: int|
            0 <= j < writes(members, res).len() ==> (#[trigger] writes(members, res)[j]).op
                is Write && kinds_of(members).contains(writes(members, res)[j].kind),
    decreases members.len(),
{
    if members.len() > 0 {
        let front = members.drop_last();
        let last = members.last();
        lemma_writes_are_writes(front, res);
        let all = writes(members, res);
        assert(kinds_of(members)[members.len() - 1] == last.kind);
        assert forall|j: int| 0 <= j < all.len() implies (#[trigger] all[j]).op is Write
            && kinds_of(members).contains(all[j].kind) by {
            if j < writes(front, res).len() {
                let k = writes(front, res)[j].kind;
                let a = choose|a: int| 0 <= a < kinds_of(front).len() && kinds_of(front)[a] == k;
                assert(kinds_of(members)[a] == k);
            }
        }
    }
}

/// What is written for a group is what is written for its first `n`
/// members, followed by what is written for the others.
pub proof fn lemma_writes_split(members: Seq<Member>, res: Resources, n: int)
    requires
        0 <= n <= members.len(),
    ensures
        writes(members, res) == writes(members.take(n), res) + writes(members.skip(n), res),
    decreases members.len(),
{
    if n == members.len() {
        assert(members.take(n) =~= members);
        assert(members.skip(n) =~= Seq::<Member>::empty());
        assert(writes(members, res) + Seq::<Step>::empty() =~= writes(members, res));
    } else {
        let front = members.drop_last();
        lemma_writes_split(front, res, n);
        assert(front.take(n) =~= members.take(n));
        assert(front.skip(n) =~= members.skip(n).drop_last());
        assert(members.skip(n).last() == members.last());
        assert(writes(members, res) =~= writes(members.take(n), res) + writes(
            members.skip(n),
            res,
        ));
    }
}

/// The writes of one subsystem, each accepted by the hierarchy, in a
/// directory that exists and allows writes: all end well, and the directory
/// has them written behind what was written before.
pub proof fn lemma_own_writes(dirs: Seq<DirModel>, m: Member, directives: Seq<Directive>, n: nat)
    requires
        n <= directives.len(),
        dir_at(dirs, m.kind, m.path) is Some,
        !dir_at(dirs, m.kind, m.path)->Some_0.read_only,
        forall|j: int|
            0 <= j < directives.len() ==> (#[trigger] directives[j]).knob.owner() == m.kind
                && directives[j].knob.accepts(directives[j].value as int),
    ensures
        dir_at(state_after(dirs, write_steps(m, directives), n), m.kind, m.path) == Some(
            DirModel {
                written: dir_at(dirs, m.kind, m.path)->Some_0.written + directives.take(n as int),
                ..dir_at(dirs, m.kind, m.path)->Some_0
            },
        ),
        outcomes_of(dirs, write_steps(m, directives), n).len() == n,
        forall|j: int|
            0 <= j < n ==> #[trigger] outcomes_of(dirs, write_steps(m, directives), n)[j]
                == Outcome::Done,
    decreases n,
{
    let before = dir_at(dirs, m.kind, m.path)->Some_0;
    let actions = write_steps(m, directives);
    if n == 0 {
        assert(before.written + directives.take(0) =~= before.written);
    } else {
        lemma_own_writes(dirs, m, directives, (n - 1) as nat);
        let mid = state_after(dirs, actions, (n - 1) as nat);
        let step = actions[n - 1];
        assert(step.op->Write_0 == directives[n - 1]);
        lemma_write_lands(mid, step);
        assert((before.written + directives.take(n - 1)).push(directives[n - 1])
            =~= before.written + directives.take(n as int));
        let sofar = outcomes_of(dirs, actions, (n - 1) as nat);
        let now = outcomes_of(dirs, actions, n);
        assert forall|j: int| 0 <= j < n implies #[trigger] now[j] == Outcome::Done by {
            if j < n - 1 {
                assert(now[j] == sofar[j]);
            }
        }
    }
}

/// What was applied is what is read back, subsystem by subsystem and
/// whatever becomes of the others.
///
/// Take a group whose member `i` accepts its part of `res`, a part that
/// names no device twice, and whose directory exists on the host and allows
/// writes. After the plan for `res`
/// was performed, the call has ended well for that member, and its directory
/// shows, for every tunable of the part, the value that the part carries,
/// or, where it carries none, what the directory showed before; and that is
/// what reading the tunable through the group gives. This holds
/// also when other members refuse their parts or fail to write: nothing is
/// taken back.
pub proof fn lemma_applied_is_read_back(
    dirs: Seq<DirModel>,
    members: Seq<Member>,
    res: Resources,
    i: int,
)
    requires
        kinds_of(members).no_duplicates(),
        0 <= i < members.len(),
        translation(res.settings(members[i].kind)) is Ok,
        names_each_device_once(res, members[i].kind),
        dir_at(dirs, members[i].kind, members[i].path) is Some,
        !dir_at(dirs, members[i].kind, members[i].path)->Some_0.read_only,
    ensures
        ({
            let m = members[i];
            let plan = writes(members, res);
            let after = state_after(dirs, plan, plan.len());
            let settings = res.settings(m.kind);
            let before = dir_at(dirs, m.kind, m.path)->Some_0;
            &&& dir_at(after, m.kind, m.path) is Some
            &&& forall|j: int|
                0 <= j < settings.len() ==> reading(
                    dir_at(after, m.kind, m.path)->Some_0.written,
                    (#[trigger] settings[j]).knob,
                ) == match settings[j].value {
                    Some(v) => Some(v),
                    None => reading(before.written, settings[j].knob),
                }
            &&& forall|j: int|
                0 <= j < settings.len() && (#[trigger] settings[j]).value is Some ==> shown(
                    after,
                    members,
                    settings[j].knob,
                ) == settings[j].value
            &&& verdict(
                plan,
                rejections(members, res),
                outcomes_of(dirs, plan, plan.len()),
                m.kind,
            ) is None
        }),
{
    let m = members[i];
    let plan = writes(members, res);
    let settings = res.settings(m.kind);
    let directives = chosen(settings);
    let before = dir_at(dirs, m.kind, m.path)->Some_0;
    let ahead = writes(members.take(i), res);
    let own = write_steps(m, directives);
    let behind = writes(members.skip(i + 1), res);

    // The plan is what is written ahead of the member, its own writes, and
    // what is written behind it.
    lemma_writes_split(members, res, i + 1);
    assert(members.take(i + 1).drop_last() =~= members.take(i));
    assert(members.take(i + 1).last() == m);
    assert(member_writes(m, res) == own);
    assert(plan == (ahead + own) + behind);

    // The others write in other hierarchies.
    lemma_writes_are_writes(members.take(i), res);
    lemma_writes_are_writes(members.skip(i + 1), res);
    assert(kinds_of(members)[i] == m.kind);
    assert forall|j: int| 0 <= j < ahead.len() implies (#[trigger] ahead[j]).op is Write
        && ahead[j].kind != m.kind by {
        let ks = kinds_of(members.take(i));
        let a = choose|a: int| 0 <= a < ks.len() && ks[a] == ahead[j].kind;
        assert(kinds_of(members)[a] == ks[a]);
    }
    assert forall|j: int| 0 <= j < behind.len() implies (#[trigger] behind[j]).op is Write
        && behind[j].kind != m.kind by {
        let ks = kinds_of(members.skip(i + 1));
        let a = choose|a: int| 0 <= a < ks.len() && ks[a] == behind[j].kind;
        assert(kinds_of(members)[a + i + 1] == ks[a]);
    }

    // The member's own directives are the hierarchy's and in range.
    lemma_settings_are_the_subsystems(res, m.kind);
    lemma_settings_are_distinct(res, m.kind);
    lemma_chosen_owned(settings, m.kind);
    lemma_chosen_accepted(settings);

    // The three stretches, one after the other.
    let s1 = state_after(dirs, ahead, ahead.len());
    lemma_foreign_writes(dirs, ahead, ahead.len(), m.kind, m.path);
    let s2 = state_after(s1, own, own.len());
    lemma_own_writes(s1, m, directives, directives.len());
    assert(directives.take(directives.len() as int) =~= directives);
    let s3 = state_after(s2, behind, behind.len());
    lemma_foreign_writes(s2, behind, behind.len(), m.kind, m.path);
    lemma_run_in_two(dirs, ahead, own, own.len());
    lemma_run_in_two(dirs, ahead + own, behind, behind.len());
    let after = state_after(dirs, plan, plan.len());
    assert(after == s3);
    assert(dir_at(after, m.kind, m.path)->Some_0.written == before.written + directives);

    assert forall|j: int| 0 <= j < settings.len() implies reading(
        dir_at(after, m.kind, m.path)->Some_0.written,
        (#[trigger] settings[j]).knob,
    ) == match settings[j].value {
        Some(v) => Some(v),
        None => reading(before.written, settings[j].knob),
    } by {
        lemma_round_trip(before.written, settings, j);
    }

    assert forall|j: int| 0 <= j < settings.len() && (#[trigger] settings[j]).value is Some implies shown(
        after,
        members,
        settings[j].knob,
    ) == settings[j].value by {
        lemma_shown_is_the_owners(after, members, settings[j].knob, i);
    }

    // Every action in the member's hierarchy is one of its own, and ended
    // well.
    let outcomes = outcomes_of(dirs, plan, plan.len());
    let o1 = outcomes_of(dirs, ahead, ahead.len());
    let o2 = outcomes_of(s1, own, own.len());
    let o3 = outcomes_of(s2, behind, behind.len());
    assert(outcomes == (o1 + o2) + o3);
    lemma_outcomes_len(dirs, ahead, ahead.len());
    lemma_outcomes_len(s2, behind, behind.len());
    assert forall|t: int| 0 <= t < plan.len() && (#[trigger] plan[t]).kind == m.kind implies outcome_at(
        outcomes,
        t,
    ) == Outcome::Done by {
        if t < ahead.len() {
            assert(plan[t] == ahead[t]);
        } else if t < ahead.len() + own.len() {
            assert(outcomes[t] == o2[t - ahead.len()]);
        } else {
            assert(plan[t] == behind[t - ahead.len() - own.len()]);
        }
    }
    lemma_all_done_no_failure(plan, outcomes, m.kind, plan.len());
    lemma_refusal_exactly(members, res, m.kind);
}

/// Every action that was performed has an outcome.
pub proof fn lemma_outcomes_len(dirs: Seq<DirModel>, actions: Seq<Step>, n: nat)
    ensures
        outcomes_of(dirs, actions, n).len() == n,
    decreases n,
{
    if n > 0 {
        lemma_outcomes_len(dirs, actions, (n - 1) as nat);
    }
}

} // verus!
