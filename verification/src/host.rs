//! An in-memory control filesystem.
//!
//! It behaves as the kernel's does as far as this library is concerned, so
//! that the actions of a plan can be rehearsed and their effect read back
//! without a kernel.

use vstd::prelude::*;
use crate::action::{steps, Action, Operation, Outcome, Step};
use crate::directive::{read_back, reading, Directive, Knob};
use crate::error::ControllerError;
use crate::kinds::Controllers;

verus! {

/// One directory of one hierarchy.
#[derive(Debug)]
pub struct Dir {
    kind: Controllers,
    path: String,
    tasks: Vec<u64>,
    written: Vec<Directive>,
    read_only: bool,
}

/// The mathematical content of a directory.
pub ghost struct DirModel {
    pub kind: Controllers,
    pub path: Seq<char>,
    /// The processes in the directory, in the order in which they came.
    pub tasks: Seq<u64>,
    /// The directives written to the directory's control files, in the order
    /// in which they were written.
    pub written: Seq<Directive>,
    /// Whether writes to the directory are denied.
    pub read_only: bool,
}

impl View for Dir {
    type V = DirModel;

    closed spec fn view(&self) -> DirModel {
        DirModel {
            kind: self.kind,
            path: self.path@,
            tasks: self.tasks@,
            written: self.written@,
            read_only: self.read_only,
        }
    }
}

/// `tasks` with every occurrence of `pid` taken out.
pub open spec fn without(tasks: Seq<u64>, pid: u64) -> Seq<u64>
    decreases tasks.len(),
{
    if tasks.len() == 0 {
        Seq::empty()
    } else {
        let before = without(tasks.drop_last(), pid);
        if tasks.last() == pid {
            before
        } else {
            before.push(tasks.last())
        }
    }
}

/// The position among the first `n` of `dirs` of the directory `path` of
/// the hierarchy of `kind`.
pub open spec fn index_below(dirs: Seq<DirModel>, kind: Controllers, path: Seq<char>, n: nat)
    -> Option<int>
    decreases n,
{
    if n == 0 {
        None
    } else {
        match index_below(dirs, kind, path, (n - 1) as nat) {
            Some(i) => Some(i),
            None => if n <= dirs.len() && dirs[n - 1].kind == kind && dirs[n - 1].path == path {
                Some(n - 1)
            } else {
                None
            },
        }
    }
}

/// The position in `dirs` of the directory `path` of the hierarchy of
/// `kind`.
pub open spec fn index_of(dirs: Seq<DirModel>, kind: Controllers, path: Seq<char>) -> Option<int> {
    index_below(dirs, kind, path, dirs.len())
}

/// The directory `path` of the hierarchy of `kind`, if it exists.
pub open spec fn dir_at(dirs: Seq<DirModel>, kind: Controllers, path: Seq<char>) -> Option<
    DirModel,
> {
    match index_of(dirs, kind, path) {
        Some(i) => Some(dirs[i]),
        None => None,
    }
}

/// The directory `d` once the process `pid` was moved to the directory at
/// position `to` of the hierarchy of `kind`: a directory of that hierarchy
/// loses the process, and the one it was moved to lists it last.
pub open spec fn after_move(d: DirModel, at: int, kind: Controllers, to: int, pid: u64)
    -> DirModel {
    if d.kind != kind {
        d
    } else if at == to {
        DirModel { tasks: without(d.tasks, pid).push(pid), ..d }
    } else {
        DirModel { tasks: without(d.tasks, pid), ..d }
    }
}

/// `dirs` once the process `pid` was moved to the directory at position
/// `to` of the hierarchy of `kind`.
pub open spec fn moved(dirs: Seq<DirModel>, kind: Controllers, to: int, pid: u64) -> Seq<
    DirModel,
> {
    Seq::new(dirs.len(), |at: int| after_move(dirs[at], at, kind, to, pid))
}

/// What one step does to the directories, and how it ends.
///
/// A step in a directory that does not exist fails with `NotMounted`, but
/// for the creation of that directory. A write or a change of membership in
/// a directory that denies writes fails with `PermissionDenied`. A write of
/// a tunable that is not the hierarchy's, or of a value that the tunable
/// does not accept, fails with `InvalidValue`. A directory that holds
/// processes cannot be removed: that fails with `Io`. A step that fails
/// changes nothing.
pub open spec fn effect(dirs: Seq<DirModel>, step: Step) -> (Seq<DirModel>, Outcome) {
    match index_of(dirs, step.kind, step.path) {
        None => match step.op {
            Operation::CreateDir => (
                dirs.push(
                    DirModel {
                        kind: step.kind,
                        path: step.path,
                        tasks: Seq::empty(),
                        written: Seq::empty(),
                        read_only: false,
                    },
                ),
                Outcome::Done,
            ),
            _ => (dirs, Outcome::Failed(ControllerError::NotMounted)),
        },
        Some(i) => match step.op {
            Operation::CreateDir => (dirs, Outcome::Done),
            Operation::RemoveDir => if dirs[i].tasks.len() > 0 {
                (dirs, Outcome::Failed(ControllerError::Io))
            } else {
                (dirs.remove(i), Outcome::Done)
            },
            Operation::Write(d) => if dirs[i].read_only {
                (dirs, Outcome::Failed(ControllerError::PermissionDenied))
            } else if d.knob.owner() != step.kind || !d.knob.accepts(d.value as int) {
                (dirs, Outcome::Failed(ControllerError::InvalidValue))
            } else {
                (
                    dirs.update(i, DirModel { written: dirs[i].written.push(d), ..dirs[i] }),
                    Outcome::Done,
                )
            },
            Operation::AddTask(pid) => if dirs[i].read_only {
                (dirs, Outcome::Failed(ControllerError::PermissionDenied))
            } else {
                (moved(dirs, step.kind, i, pid), Outcome::Done)
            },
            Operation::RemoveTask(pid) => if dirs[i].read_only {
                (dirs, Outcome::Failed(ControllerError::PermissionDenied))
            } else {
                (
                    dirs.update(i, DirModel { tasks: without(dirs[i].tasks, pid), ..dirs[i] }),
                    Outcome::Done,
                )
            },
        },
    }
}

/// The directories after the first `n` of `actions` were performed one
/// after the other.
pub open spec fn state_after(dirs: Seq<DirModel>, actions: Seq<Step>, n: nat) -> Seq<DirModel>
    decreases n,
{
    if n == 0 {
        dirs
    } else {
        effect(state_after(dirs, actions, (n - 1) as nat), actions[n - 1]).0
    }
}

/// How each of the first `n` of `actions` ended.
pub open spec fn outcomes_of(dirs: Seq<DirModel>, actions: Seq<Step>, n: nat) -> Seq<Outcome>
    decreases n,
{
    if n == 0 {
        Seq::empty()
    } else {
        outcomes_of(dirs, actions, (n - 1) as nat).push(
            effect(state_after(dirs, actions, (n - 1) as nat), actions[n - 1]).1,
        )
    }
}

/// `tasks` with every occurrence of `pid` taken out.
pub fn strike(tasks: &Vec<u64>, pid: u64) -> (rest: Vec<u64>)
    ensures
        rest@ == without(tasks@, pid),
{
    let mut rest: Vec<u64> = Vec::new();
    let mut i: usize = 0;
    proof {
        assert(tasks@.take(0) =~= Seq::<u64>::empty());
    }
    while i < tasks.len()
        invariant
            0 <= i <= tasks.len(),
            rest@ == without(tasks@.take(i as int), pid),
        decreases tasks.len() - i,
    {
        proof {
            assert(tasks@.take(i as int + 1).drop_last() =~= tasks@.take(i as int));
        }
        if tasks[i] != pid {
            rest.push(tasks[i]);
        }
        i += 1;
    }
    proof {
        assert(tasks@.take(i as int) =~= tasks@);
    }
    rest
}

/// The control filesystem of a host.
#[derive(Debug)]
pub struct Host {
    dirs: Vec<Dir>,
}

impl View for Host {
    type V = Seq<DirModel>;

    closed spec fn view(&self) -> Seq<DirModel> {
        self.dirs@.map_values(|d: Dir| d@)
    }
}

impl Host {
    /// A host without any directory.
    pub fn new() -> (host: Host)
        ensures
            host@ == Seq::<DirModel>::empty(),
    {
        let host = Host { dirs: Vec::new() };
        proof {
            assert(host@ =~= Seq::<DirModel>::empty());
        }
        host
    }

    /// The position of the directory `path` of the hierarchy of `kind`.
    fn find(&self, kind: Controllers, path: &String) -> (found: Option<usize>)
        ensures
            match found {
                Some(i) => i < self@.len() && index_of(self@, kind, path@) == Some(i as int),
                None => index_of(self@, kind, path@) is None,
            },
    {
        let mut i: usize = 0;
        while i < self.dirs.len()
            invariant
                0 <= i <= self.dirs.len(),
                index_below(self@, kind, path@, i as nat) is None,
            decreases self.dirs.len() - i,
        {
            if self.dirs[i].kind == kind && self.dirs[i].path.eq(path) {
                proof {
                    assert(self@[i as int] == self.dirs@[i as int]@);
                    lemma_index_stays(self@, kind, path@, (i + 1) as nat, self@.len());
                }
                return Some(i);
            }
            proof {
                assert(self@[i as int] == self.dirs@[i as int]@);
            }
            i += 1;
        }
        None
    }

    /// Whether the directory `path` of the hierarchy of `kind` exists.
    pub fn has_dir(&self, kind: Controllers, path: &String) -> (b: bool)
        ensures
            b == dir_at(self@, kind, path@).is_some(),
    {
        self.find(kind, path).is_some()
    }

    /// The processes in the directory `path` of the hierarchy of `kind`. A
    /// directory that does not exist holds none.
    pub fn tasks(&self, kind: Controllers, path: &String) -> (list: Vec<u64>)
        ensures
            list@ == match dir_at(self@, kind, path@) {
                Some(d) => d.tasks,
                None => Seq::empty(),
            },
    {
        match self.find(kind, path) {
            Some(i) => {
                proof {
                    assert(self@[i as int] == self.dirs@[i as int]@);
                }
                self.dirs[i].tasks.clone()
            },
            None => Vec::new(),
        }
    }

    /// What the directory `path` of the hierarchy of `kind` shows for
    /// `knob`: the value written last, or nothing where none was written or
    /// the directory does not exist.
    pub fn read(&self, kind: Controllers, path: &String, knob: Knob) -> (value: Option<i64>)
        ensures
            value == match dir_at(self@, kind, path@) {
                Some(d) => reading(d.written, knob),
                None => None,
            },
    {
        match self.find(kind, path) {
            Some(i) => {
                proof {
                    assert(self@[i as int] == self.dirs@[i as int]@);
                }
                read_back(&self.dirs[i].written, knob)
            },
            None => None,
        }
    }

    /// Denies or allows writes to the directory `path` of the hierarchy of
    /// `kind`. Where the directory does not exist nothing changes and the
    /// answer is `false`.
    pub fn protect(&mut self, kind: Controllers, path: &String, read_only: bool) -> (found: bool)
        ensures
            found == index_of(old(self)@, kind, path@).is_some(),
            final(self)@ == match index_of(old(self)@, kind, path@) {
                Some(i) => old(self)@.update(i, DirModel { read_only, ..old(self)@[i] }),
                None => old(self)@,
            },
    {
        match self.find(kind, path) {
            Some(i) => {
                let mut dir = self.dirs.remove(i);
                dir.read_only = read_only;
                self.dirs.insert(i, dir);
                proof {
                    assert(old(self)@[i as int] == old(self).dirs@[i as int]@);
                    assert(self@ =~= old(self)@.update(
                        i as int,
                        DirModel { read_only, ..old(self)@[i as int] },
                    ));
                }
                true
            },
            None => false,
        }
    }

    /// Moves the process `pid` to the directory at position `to` of the
    /// hierarchy of `kind`.
    fn move_task(&mut self, kind: Controllers, to: usize, pid: u64)
        requires
            to < old(self)@.len(),
        ensures
            final(self)@ == moved(old(self)@, kind, to as int, pid),
    {
        let mut at: usize = 0;
        while at < self.dirs.len()
            invariant
                0 <= at <= self.dirs.len(),
                self@.len() == old(self)@.len(),
                forall|k: int|
                    0 <= k < at ==> self@[k] == after_move(old(self)@[k], k, kind, to as int, pid),
                forall|k: int| at <= k < self@.len() ==> self@[k] == old(self)@[k],
            decreases self.dirs.len() - at,
        {
            let ghost before = self@;
            if self.dirs[at].kind == kind {
                let mut dir = self.dirs.remove(at);
                dir.tasks = strike(&dir.tasks, pid);
                if at == to {
                    dir.tasks.push(pid);
                }
                self.dirs.insert(at, dir);
                proof {
                    assert(before[at as int] == old(self)@[at as int]);
                    assert(self@ =~= before.update(
                        at as int,
                        after_move(before[at as int], at as int, kind, to as int, pid),
                    ));
                }
            } else {
                proof {
                    assert(before[at as int] == self.dirs@[at as int]@);
                }
            }
            at += 1;
        }
        proof {
            assert(self@ =~= moved(old(self)@, kind, to as int, pid));
        }
    }

    /// Performs one action and tells how it ended.
    pub fn perform(&mut self, action: &Action) -> (outcome: Outcome)
        ensures
            (final(self)@, outcome) == effect(old(self)@, action@),
    {
        let kind = action.kind;
        match self.find(kind, &action.path) {
            None => match action.op {
                Operation::CreateDir => {
                    let dir = Dir {
                        kind,
                        path: action.path.clone(),
                        tasks: Vec::new(),
                        written: Vec::new(),
                        read_only: false,
                    };
                    self.dirs.push(dir);
                    proof {
                        assert(self@ =~= old(self)@.push(dir@));
                    }
                    Outcome::Done
                },
                _ => Outcome::Failed(ControllerError::NotMounted),
            },
            Some(i) => {
                proof {
                    assert(old(self)@[i as int] == old(self).dirs@[i as int]@);
                }
                match action.op {
                    Operation::CreateDir => Outcome::Done,
                    Operation::RemoveDir => {
                        if self.dirs[i].tasks.len() > 0 {
                            Outcome::Failed(ControllerError::Io)
                        } else {
                            let _ = self.dirs.remove(i);
                            proof {
                                assert(self@ =~= old(self)@.remove(i as int));
                            }
                            Outcome::Done
                        }
                    },
                    Operation::Write(d) => {
                        if self.dirs[i].read_only {
                            Outcome::Failed(ControllerError::PermissionDenied)
                        } else if d.knob.controller() != kind || !d.knob.admits(d.value) {
                            Outcome::Failed(ControllerError::InvalidValue)
                        } else {
                            let mut dir = self.dirs.remove(i);
                            dir.written.push(d);
                            self.dirs.insert(i, dir);
                            proof {
                                assert(self@ =~= old(self)@.update(i as int, dir@));
                            }
                            Outcome::Done
                        }
                    },
                    Operation::AddTask(pid) => {
                        if self.dirs[i].read_only {
                            Outcome::Failed(ControllerError::PermissionDenied)
                        } else {
                            self.move_task(kind, i, pid);
                            Outcome::Done
                        }
                    },
                    Operation::RemoveTask(pid) => {
                        if self.dirs[i].read_only {
                            Outcome::Failed(ControllerError::PermissionDenied)
                        } else {
                            let mut dir = self.dirs.remove(i);
                            dir.tasks = strike(&dir.tasks, pid);
                            self.dirs.insert(i, dir);
                            proof {
                                assert(self@ =~= old(self)@.update(i as int, dir@));
                            }
                            Outcome::Done
                        }
                    },
                }
            },
        }
    }

    /// Performs `actions` one after the other and tells how each ended.
    pub fn run(&mut self, actions: &Vec<Action>) -> (outcomes: Vec<Outcome>)
        ensures
            final(self)@ == state_after(old(self)@, steps(actions@), actions@.len()),
            outcomes@ == outcomes_of(old(self)@, steps(actions@), actions@.len()),
    {
        let mut outcomes: Vec<Outcome> = Vec::new();
        let mut i: usize = 0;
        while i < actions.len()
            invariant
                0 <= i <= actions.len(),
                self@ == state_after(old(self)@, steps(actions@), i as nat),
                outcomes@ == outcomes_of(old(self)@, steps(actions@), i as nat),
            decreases actions.len() - i,
        {
            proof {
                assert(steps(actions@)[i as int] == actions@[i as int]@);
            }
            let outcome = self.perform(&actions[i]);
            outcomes.push(outcome);
            i += 1;
        }
        outcomes
    }
}

/// Once a directory is found among the first `n`, it is the one found among
/// any more of them.
pub proof fn lemma_index_stays(
    dirs: Seq<DirModel>,
    kind: Controllers,
    path: Seq<char>,
    n: nat,
    m: nat,
)
    requires
        n <= m,
        index_below(dirs, kind, path, n) is Some,
    ensures
        index_below(dirs, kind, path, m) == index_below(dirs, kind, path, n),
    decreases m,
{
    if n < m {
        lemma_index_stays(dirs, kind, path, n, (m - 1) as nat);
    }
}

/// A position that is found is that of a directory with the key asked for.
pub proof fn lemma_index_found(dirs: Seq<DirModel>, kind: Controllers, path: Seq<char>, n: nat)
    ensures
        match index_below(dirs, kind, path, n) {
            Some(i) => 0 <= i < n && i < dirs.len() && dirs[i].kind == kind && dirs[i].path == path,
            None => true,
        },
    decreases n,
{
    if n > 0 {
        lemma_index_found(dirs, kind, path, (n - 1) as nat);
    }
}

/// Lookups only go by kind and path: two lists of directories that agree on
/// those, position by position, give every lookup the same position.
pub proof fn lemma_index_by_keys(
    a: Seq<DirModel>,
    b: Seq<DirModel>,
    kind: Controllers,
    path: Seq<char>,
    n: nat,
)
    requires
        a.len() == b.len(),
        forall|i: int|
            0 <= i < a.len() ==> (#[trigger] a[i]).kind == b[i].kind && a[i].path == b[i].path,
    ensures
        index_below(a, kind, path, n) == index_below(b, kind, path, n),
    decreases n,
{
    if n > 0 {
        lemma_index_by_keys(a, b, kind, path, (n - 1) as nat);
        if n <= a.len() {
            assert(a[n - 1].kind == b[n - 1].kind && a[n - 1].path == b[n - 1].path);
        }
    }
}

/// A write in one hierarchy leaves the directories of every other hierarchy
/// as they are.
pub proof fn lemma_write_keeps_others(
    dirs: Seq<DirModel>,
    step: Step,
    kind: Controllers,
    path: Seq<char>,
)
    requires
        step.op is Write,
        step.kind != kind,
    ensures
        dir_at(effect(dirs, step).0, kind, path) == dir_at(dirs, kind, path),
{
    let after = effect(dirs, step).0;
    if after != dirs {
        lemma_index_found(dirs, step.kind, step.path, dirs.len());
        lemma_index_found(dirs, kind, path, dirs.len());
        lemma_index_by_keys(dirs, after, kind, path, dirs.len());
    }
}

/// A write that the hierarchy accepts, in a directory that exists and
/// allows writes, ends well and is the latest thing written there.
pub proof fn lemma_write_lands(dirs: Seq<DirModel>, step: Step)
    requires
        step.op is Write,
        dir_at(dirs, step.kind, step.path) is Some,
        !dir_at(dirs, step.kind, step.path)->Some_0.read_only,
        step.op->Write_0.knob.owner() == step.kind,
        step.op->Write_0.knob.accepts(step.op->Write_0.value as int),
    ensures
        effect(dirs, step).1 == Outcome::Done,
        dir_at(effect(dirs, step).0, step.kind, step.path) == Some(
            DirModel {
                written: dir_at(dirs, step.kind, step.path)->Some_0.written.push(
                    step.op->Write_0,
                ),
                ..dir_at(dirs, step.kind, step.path)->Some_0
            },
        ),
{
    let after = effect(dirs, step).0;
    lemma_index_found(dirs, step.kind, step.path, dirs.len());
    lemma_index_by_keys(dirs, after, step.kind, step.path, dirs.len());
}

/// Performing one list of actions and then another is performing the two
/// as one list.
pub proof fn lemma_run_in_two(dirs: Seq<DirModel>, first: Seq<Step>, second: Seq<Step>, n: nat)
    requires
        n <= second.len(),
    ensures
        state_after(dirs, first + second, first.len() + n) == state_after(
            state_after(dirs, first, first.len()),
            second,
            n,
        ),
        outcomes_of(dirs, first + second, first.len() + n) == outcomes_of(
            dirs,
            first,
            first.len(),
        ) + outcomes_of(state_after(dirs, first, first.len()), second, n),
    decreases n,
{
    let both = first + second;
    if n == 0 {
        lemma_run_of_prefix(dirs, first, both, first.len());
        assert(outcomes_of(dirs, first, first.len()) + Seq::<Outcome>::empty() =~= outcomes_of(
            dirs,
            first,
            first.len(),
        ));
    } else {
        lemma_run_in_two(dirs, first, second, (n - 1) as nat);
        assert(both[first.len() + n - 1] == second[n - 1]);
        let mid = state_after(dirs, first, first.len());
        assert(outcomes_of(dirs, both, first.len() + n) =~= outcomes_of(dirs, first, first.len())
            + outcomes_of(mid, second, n));
    }
}

/// What the first `n` actions do does not depend on the actions behind
/// them.
pub proof fn lemma_run_of_prefix(dirs: Seq<DirModel>, short: Seq<Step>, long: Seq<Step>, n: nat)
    requires
        short.is_prefix_of(long),
        n <= short.len(),
    ensures
        state_after(dirs, short, n) == state_after(dirs, long, n),
        outcomes_of(dirs, short, n) == outcomes_of(dirs, long, n),
    decreases n,
{
    if n > 0 {
        lemma_run_of_prefix(dirs, short, long, (n - 1) as nat);
        assert(short[n - 1] == long[n - 1]);
    }
}

/// Writes in other hierarchies, however they end, leave a directory as it
/// is.
pub proof fn lemma_foreign_writes(
    dirs: Seq<DirModel>,
    actions: Seq<Step>,
    n: nat,
    kind: Controllers,
    path: Seq<char>,
)
    requires
        n <= actions.len(),
        forall|j: int| 0 <= j < n ==> (#[trigger] actions[j]).op is Write && actions[j].kind != kind,
    ensures
        dir_at(state_after(dirs, actions, n), kind, path) == dir_at(dirs, kind, path),
    decreases n,
{
    if n > 0 {
        lemma_foreign_writes(dirs, actions, (n - 1) as nat, kind, path);
        lemma_write_keeps_others(
            state_after(dirs, actions, (n - 1) as nat),
            actions[n - 1],
            kind,
            path,
        );
    }
}

/// Taking a process out of a task list leaves no occurrence of it and
/// leaves every other process where it was listed.
pub proof fn lemma_without_lacks(tasks: Seq<u64>, pid: u64)
    ensures
        !without(tasks, pid).contains(pid),
        forall|other: u64|
            other != pid ==> (#[trigger] without(tasks, pid).contains(other) <==> tasks.contains(
                other,
            )),
    decreases tasks.len(),
{
    let rest = without(tasks, pid);
    if tasks.len() > 0 {
        let front = tasks.drop_last();
        let before = without(front, pid);
        lemma_without_lacks(front, pid);
        assert(tasks[tasks.len() - 1] == tasks.last());
        assert forall|other: u64| #[trigger] tasks.contains(other) <==> front.contains(other)
            || other == tasks.last() by {
            if front.contains(other) {
                let j = choose|j: int| 0 <= j < front.len() && front[j] == other;
                assert(tasks[j] == other);
            }
            if tasks.contains(other) && other != tasks.last() {
                let j = choose|j: int| 0 <= j < tasks.len() && tasks[j] == other;
                assert(front[j] == other);
            }
        }
        if tasks.last() != pid {
            assert(rest == before.push(tasks.last()));
            assert(rest[before.len() as int] == tasks.last());
            assert forall|other: u64| #[trigger] rest.contains(other) <==> before.contains(other)
                || other == tasks.last() by {
                if before.contains(other) {
                    let j = choose|j: int| 0 <= j < before.len() && before[j] == other;
                    assert(rest[j] == other);
                }
                if rest.contains(other) {
                    let j = choose|j: int| 0 <= j < rest.len() && rest[j] == other;
                    if j < before.len() {
                        assert(before[j] == other);
                    }
                }
            }
        }
    }
}

/// A process is in one group per hierarchy: once it was moved to a
/// directory, that directory lists it, and no other directory of the same
/// hierarchy does. Directories of other hierarchies are as they were.
pub proof fn lemma_move_is_exclusive(dirs: Seq<DirModel>, kind: Controllers, to: int, pid: u64)
    requires
        0 <= to < dirs.len(),
        dirs[to].kind == kind,
    ensures
        forall|at: int|
            0 <= at < dirs.len() && dirs[at].kind == kind ==> (#[trigger] moved(
                dirs,
                kind,
                to,
                pid,
            )[at]).tasks.contains(pid) == (at == to),
        forall|at: int|
            0 <= at < dirs.len() && dirs[at].kind != kind ==> #[trigger] moved(dirs, kind, to, pid)[at]
                == dirs[at],
{
    let after = moved(dirs, kind, to, pid);
    assert forall|at: int| 0 <= at < dirs.len() && dirs[at].kind == kind implies (
    #[trigger] after[at]).tasks.contains(pid) == (at == to) by {
        lemma_without_lacks(dirs[at].tasks, pid);
        if at == to {
            let listed = without(dirs[at].tasks, pid).push(pid);
            assert(listed[listed.len() - 1] == pid);
        }
    }
}

} // verus!
