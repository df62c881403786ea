//! One operation in the directory of every subsystem of a group.

use vstd::prelude::*;
use crate::action::{steps, Action, Operation, Step};
use crate::controller::Controller;
use crate::member::{members_of, Member};
use crate::subsystem::Subsystem;

verus! {

/// One operation `op` in the directory of each member, in their order.
pub open spec fn each(members: Seq<Member>, op: Operation) -> Seq<Step> {
    members.map_values(|m: Member| Step { kind: m.kind, path: m.path, op })
}

/// The action that performs `op` in the directory of each of `subs`.
pub fn fan_out(subs: &Vec<Subsystem>, op: Operation) -> (actions: Vec<Action>)
    ensures
        steps(actions@) == each(members_of(subs@), op),
{
    let mut actions: Vec<Action> = Vec::new();
    let mut i: usize = 0;
    while i < subs.len()
        invariant
            0 <= i <= subs.len(),
            steps(actions@) =~= each(members_of(subs@).take(i as int), op),
        decreases subs.len() - i,
    {
        let ghost before = steps(actions@);
        let action = Action { kind: subs[i].control_type(), path: subs[i].get_path().clone(), op };
        actions.push(action);
        proof {
            assert(steps(actions@) =~= before.push(action@));
            assert(members_of(subs@).take(i as int + 1) =~= members_of(subs@).take(i as int).push(
                members_of(subs@)[i as int],
            ));
        }
        i += 1;
    }
    proof {
        assert(members_of(subs@).take(i as int) =~= members_of(subs@));
    }
    actions
}

} // verus!
