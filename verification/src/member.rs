//! The mathematical content of a group's subsystems.

use vstd::prelude::*;
use crate::controller::Controller;
use crate::kinds::Controllers;
use crate::path::joined;
use crate::subsystem::Subsystem;

verus! {

/// What a subsystem is to the group that owns it.
pub ghost struct Member {
    pub kind: Controllers,
    pub base: Seq<char>,
    pub path: Seq<char>,
}

/// The content of one subsystem.
pub open spec fn member_of(sub: Subsystem) -> Member {
    Member { kind: sub.kind(), base: sub.base(), path: sub.path() }
}

/// The contents of a list of subsystems, in its order.
pub open spec fn members_of(subs: Seq<Subsystem>) -> Seq<Member> {
    subs.map_values(|s: Subsystem| member_of(s))
}

/// The kinds of `members`, in their order.
pub open spec fn kinds_of(members: Seq<Member>) -> Seq<Controllers> {
    members.map_values(|m: Member| m.kind)
}

/// The path invariant: each member's directory is the root of its hierarchy
/// joined with the group's name.
pub open spec fn placed(members: Seq<Member>, name: Seq<char>) -> bool {
    forall|i: int|
        0 <= i < members.len() ==> (#[trigger] members[i]).path == joined(members[i].base, name)
}

/// Whether `members` can be the subsystems of a group called `name`: the
/// path invariant holds and no kind occurs twice.
pub open spec fn coherent(members: Seq<Member>, name: Seq<char>) -> bool {
    &&& placed(members, name)
    &&& kinds_of(members).no_duplicates()
}

/// The position of the member of the given kind, if there is one.
pub fn position(subs: &Vec<Subsystem>, kind: Controllers) -> (found: Option<usize>)
    ensures
        match found {
            Some(i) => i < subs.len() && members_of(subs@)[i as int].kind == kind && forall|j: int|
                0 <= j < i ==> (#[trigger] members_of(subs@)[j]).kind != kind,
            None => !kinds_of(members_of(subs@)).contains(kind),
        },
{
    let mut i: usize = 0;
    while i < subs.len()
        invariant
            0 <= i <= subs.len(),
            forall|j: int| 0 <= j < i ==> (#[trigger] members_of(subs@)[j]).kind != kind,
        decreases subs.len() - i,
    {
        if subs[i].control_type() == kind {
            return Some(i);
        }
        i += 1;
    }
    proof {
        let kinds = kinds_of(members_of(subs@));
        assert forall|j: int| 0 <= j < kinds.len() implies kinds[j] != kind by {
            assert(kinds[j] == members_of(subs@)[j].kind);
        }
    }
    None
}

/// Whether `kind` occurs in `kinds`.
pub fn listed(kinds: &Vec<Controllers>, kind: Controllers) -> (b: bool)
    ensures
        b == kinds@.contains(kind),
{
    let mut i: usize = 0;
    while i < kinds.len()
        invariant
            0 <= i <= kinds.len(),
            forall|j: int| 0 <= j < i ==> kinds@[j] != kind,
        decreases kinds.len() - i,
    {
        if kinds[i] == kind {
            return true;
        }
        i += 1;
    }
    false
}

} // verus!
