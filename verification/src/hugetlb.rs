//! The `hugetlb` subsystem.
//!
//! It limits the huge-page memory that a group's processes may use.

use vstd::prelude::*;
use crate::controller::{ControllIdentifier, Controller};
use crate::directive::{acceptable, chosen, translate, Directive, Setting};
use crate::error::ControllerError;
use crate::kinds::Controllers;
use crate::path::{join, joined};
use crate::resources::Resources;
use crate::subsystem::Subsystem;

verus! {

/// A controller for the `hugetlb` subsystem of a control group.
#[derive(Debug, Clone)]
pub struct HugeTlbController {
    base: String,
    path: String,
}

impl Controller for HugeTlbController {
    open spec fn kind(&self) -> Controllers {
        Controllers::HugeTlb
    }

    closed spec fn base(&self) -> Seq<char> {
        self.base@
    }

    closed spec fn path(&self) -> Seq<char> {
        self.path@
    }

    fn control_type(&self) -> (kind: Controllers) {
        Controllers::HugeTlb
    }

    fn get_path(&self) -> (path: &String) {
        &self.path
    }

    fn get_base(&self) -> (base: &String) {
        &self.base
    }

    fn relocate(&mut self, name: &str) {
        self.path = join(&self.base, name);
    }

    fn apply(&self, res: &Resources) -> (r: Result<Vec<Directive>, ControllerError>) {
        match res.hugepages {
            Some(part) => translate(&part.to_settings()),
            None => {
                proof {
                    let none = Seq::<Setting>::empty();
                    assert(acceptable(none));
                    assert(chosen(none) == Seq::<Directive>::empty());
                }
                Ok(Vec::new())
            },
        }
    }
}

impl ControllIdentifier for HugeTlbController {
    open spec fn identity() -> Controllers {
        Controllers::HugeTlb
    }

    fn controller_type() -> (kind: Controllers) {
        Controllers::HugeTlb
    }
}

impl HugeTlbController {
    /// Constructs a new `HugeTlbController` with `oroot` serving as the root of the
    /// control group filesystem: the hierarchy is the directory of `oroot`
    /// that is named after the subsystem, and the controller stands at the
    /// hierarchy's root.
    pub fn new(oroot: String) -> (ctrl: Self)
        ensures
            ctrl.base() == joined(oroot@, Controllers::HugeTlb.name()),
            ctrl.path() == ctrl.base(),
    {
        let root = join(&oroot, Self::controller_type().as_str());
        Self { base: root.clone(), path: root }
    }

    /// Constructs the controller at the root of the hierarchy mounted at
    /// `base`.
    pub fn rooted(base: String) -> (ctrl: Self)
        ensures
            ctrl.base() == base@,
            ctrl.path() == base@,
    {
        Self { base: base.clone(), path: base }
    }

    /// The controller inside `sub`, if `sub` is of this kind. A subsystem of
    /// another kind gives `None`.
    pub fn from<'a>(sub: &'a Subsystem) -> (found: Option<&'a HugeTlbController>)
        ensures
            match *sub {
                Subsystem::HugeTlb(c) => found == Some(&c),
                _ => found is None,
            },
    {
        match sub {
            Subsystem::HugeTlb(c) => Some(c),
            _ => None,
        }
    }
}

} // verus!
