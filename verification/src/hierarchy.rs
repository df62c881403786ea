//! Where the kernel's hierarchies are mounted.
//!
//! The table is filled by the caller, who knows the host; the library only
//! looks roots up in it.

use vstd::prelude::*;
use crate::kinds::Controllers;
use crate::path::{join, joined};

verus! {

/// One mounted hierarchy: its controller and the absolute path of its root.
#[derive(Clone, Debug, PartialEq, Eq)]
pub struct Mount {
    pub kind: Controllers,
    pub root: String,
}

/// The hierarchies that are mounted on a host.
#[derive(Clone, Debug)]
pub struct Hierarchy {
    mounts: Vec<Mount>,
}

/// The root that `mounts` gives for `kind`: that of the latest entry for it.
pub open spec fn latest(mounts: Seq<Mount>, kind: Controllers) -> Option<Seq<char>>
    decreases mounts.len(),
{
    if mounts.len() == 0 {
        None
    } else if mounts.last().kind == kind {
        Some(mounts.last().root@)
    } else {
        latest(mounts.drop_last(), kind)
    }
}

impl Hierarchy {
    /// The root of the hierarchy of `kind`, or `None` where it is not
    /// mounted.
    pub closed spec fn root_of(&self, kind: Controllers) -> Option<Seq<char>> {
        latest(self.mounts@, kind)
    }

    /// A host with nothing mounted.
    pub fn new() -> (h: Hierarchy)
        ensures
            forall|kind: Controllers| h.root_of(kind) is None,
    {
        Hierarchy { mounts: Vec::new() }
    }

    /// Records that the hierarchy of `kind` is mounted at `root`. A later
    /// mount of the same kind replaces an earlier one.
    pub fn mount(&mut self, kind: Controllers, root: String)
        ensures
            final(self).root_of(kind) == Some(root@),
            forall|other: Controllers|
                other != kind ==> final(self).root_of(other) == old(self).root_of(other),
    {
        self.mounts.push(Mount { kind, root });
        proof {
            assert(self.mounts@.drop_last() =~= old(self).mounts@);
        }
    }

    /// Records that the hierarchy of `kind` is mounted where the
    /// conventional layout puts it: in the directory of `oroot` that is named
    /// after the subsystem.
    pub fn mount_under(&mut self, kind: Controllers, oroot: &String)
        ensures
            final(self).root_of(kind) == Some(joined(oroot@, kind.name())),
            forall|other: Controllers|
                other != kind ==> final(self).root_of(other) == old(self).root_of(other),
    {
        let root = join(oroot, kind.as_str());
        self.mount(kind, root);
    }

    /// The root of the hierarchy of `kind`, or `None` where it is not
    /// mounted.
    pub fn root_for(&self, kind: Controllers) -> (root: Option<String>)
        ensures
            match root {
                Some(r) => self.root_of(kind) == Some(r@),
                None => self.root_of(kind) is None,
            },
    {
        let mut i: usize = self.mounts.len();
        proof {
            assert(self.mounts@.take(i as int) =~= self.mounts@);
        }
        while i > 0
            invariant
                0 <= i <= self.mounts.len(),
                latest(self.mounts@, kind) == latest(self.mounts@.take(i as int), kind),
            decreases i,
        {
            proof {
                assert(self.mounts@.take(i as int).drop_last() =~= self.mounts@.take(i as int - 1));
            }
            if self.mounts[i - 1].kind == kind {
                return Some(self.mounts[i - 1].root.clone());
            }
            i -= 1;
        }
        None
    }
}

} // verus!
