//! The `cpuset` subsystem.
//!
//! It confines a group's processes to a set of processors and memory nodes.
//! The unified resource record holds no part for it, so applying a record
//! writes nothing here.

use vstd::prelude::*;
use crate::controller::{ControllIdentifier, Controller};
use crate::directive::{acceptable, chosen, Directive, Setting};
use crate::error::ControllerError;
use crate::kinds::Controllers;
use crate::path::{join, joined};
use crate::resources::Resources;
use crate::subsystem::Subsystem;

verus! {

/// A controller for the `cpuset` subsystem of a control group.
#[derive(Debug, Clone)]
pub struct CpuSetController {
    base: String,
    path: String,
}

impl Controller for CpuSetController {
    open spec fn kind(&self) -> Controllers {
        Controllers::CpuSet
    }

    closed spec fn base(&self) -> Seq<char> {
        self.base@
    }

    closed spec fn path(&self) -> Seq<char> {
        self.path@
    }

    fn control_type(&self) -> (kind: Controllers) {
        Controllers::CpuSet
    }

    fn get_path(&self) -> (path: &String) {
        &self.path
    }

    fn get_base(&self) -> (base: &String) {
        &self.base
    }

    fn relocate(&mut self, name: &str) {
        self.path = join(&self.base, name);
    }

    /// There is nothing to tune, so there is never anything to write.
    fn apply(&self, _res: &Resources) -> (r: Result<Vec<Directive>, ControllerError>)
        ensures
            r is Ok,
            r->Ok_0@.len() == 0,
    {
        proof {
            let none = Seq::<Setting>::empty();
            assert(_res.settings(Controllers::CpuSet) == none);
            assert(acceptable(none));
            assert(chosen(none) == Seq::<Directive>::empty());
        }
        Ok(Vec::new())
    }
}

impl ControllIdentifier for CpuSetController {
    open spec fn identity() -> Controllers {
        Controllers::CpuSet
    }

    fn controller_type() -> (kind: Controllers) {
        Controllers::CpuSet
    }
}

impl CpuSetController {
    /// Constructs a new `CpuSetController` with `oroot` serving as the root of the
    /// control group filesystem: the hierarchy is the directory of `oroot`
    /// that is named after the subsystem, and the controller stands at the
    /// hierarchy's root.
    pub fn new(oroot: String) -> (ctrl: Self)
        ensures
            ctrl.base() == joined(oroot@, Controllers::CpuSet.name()),
            ctrl.path() == ctrl.base(),
    {
        let root = join(&oroot, Self::controller_type().as_str());
        Self { base: root.clone(), path: root }
    }

    /// Constructs the controller at the root of the hierarchy mounted at
    /// `base`.
    pub fn rooted(base: String) -> (ctrl: Self)
        ensures
            ctrl.base() == base@,
            ctrl.path() == base@,
    {
        Self { base: base.clone(), path: base }
    }

    /// The controller inside `sub`, if `sub` is of this kind. A subsystem of
    /// another kind gives `None`.
    pub fn from<'a>(sub: &'a Subsystem) -> (found: Option<&'a CpuSetController>)
        ensures
            match *sub {
                Subsystem::CpuSet(c) => found == Some(&c),
                _ => found is None,
            },
    {
        match sub {
            Subsystem::CpuSet(c) => Some(c),
            _ => None,
        }
    }
}

} // verus!
