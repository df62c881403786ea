//! The `devices` subsystem.
//!
//! It decides which device nodes a group's processes may open, by rules
//! that grant or withdraw access.

use vstd::prelude::*;
use crate::controller::{ControllIdentifier, Controller};
use crate::directive::{acceptable, chosen, translate, Directive, Setting};
use crate::error::ControllerError;
use crate::kinds::Controllers;
use crate::path::{join, joined};
use crate::resources::Resources;
use crate::subsystem::Subsystem;

verus! {

/// A controller for the `devices` subsystem of a control group.
#[derive(Debug, Clone)]
pub struct DevicesController {
    base: String,
    path: String,
}

impl Controller for DevicesController {
    open spec fn kind(&self) -> Controllers {
        Controllers::Devices
    }

    closed spec fn base(&self) -> Seq<char> {
        self.base@
    }

    closed spec fn path(&self) -> Seq<char> {
        self.path@
    }

    fn control_type(&self) -> (kind: Controllers) {
        Controllers::Devices
    }

    fn get_path(&self) -> (path: &String) {
        &self.path
    }

    fn get_base(&self) -> (base: &String) {
        &self.base
    }

    fn relocate(&mut self, name: &str) {
        self.path = join(&self.base, name);
    }

    fn apply(&self, res: &Resources) -> (r: Result<Vec<Directive>, ControllerError>) {
        match &res.devices {
            Some(part) => translate(&part.to_settings()),
            None => {
                proof {
                    let none = Seq::<Setting>::empty();
                    assert(acceptable(none));
                    assert(chosen(none) == Seq::<Directive>::empty());
                }
                Ok(Vec::new())
            },
        }
    }
}

impl ControllIdentifier for DevicesController {
    open spec fn identity() -> Controllers {
        Controllers::Devices
    }

    fn controller_type() -> (kind: Controllers) {
        Controllers::Devices
    }
}

impl DevicesController {
    /// Constructs a new `DevicesController` with `oroot` serving as the root of the
    /// control group filesystem: the hierarchy is the directory of `oroot`
    /// that is named after the subsystem, and the controller stands at the
    /// hierarchy's root.
    pub fn new(oroot: String) -> (ctrl: Self)
        ensures
            ctrl.base() == joined(oroot@, Controllers::Devices.name()),
            ctrl.path() == ctrl.base(),
    {
        let root = join(&oroot, Self::controller_type().as_str());
        Self { base: root.clone(), path: root }
    }

    /// Constructs the controller at the root of the hierarchy mounted at
    /// `base`.
    pub fn rooted(base: String) -> (ctrl: Self)
        ensures
            ctrl.base() == base@,
            ctrl.path() == base@,
    {
        Self { base: base.clone(), path: base }
    }

    /// The controller inside `sub`, if `sub` is of this kind. A subsystem of
    /// another kind gives `None`.
    pub fn from<'a>(sub: &'a Subsystem) -> (found: Option<&'a DevicesController>)
        ensures
            match *sub {
                Subsystem::Devices(c) => found == Some(&c),
                _ => found is None,
            },
    {
        match sub {
            Subsystem::Devices(c) => Some(c),
            _ => None,
        }
    }
}

} // verus!
