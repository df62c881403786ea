//! The capability that every subsystem offers.

use vstd::prelude::*;
use crate::directive::{answers, translation, Directive};
use crate::error::ControllerError;
use crate::kinds::Controllers;
use crate::path::joined;
use crate::resources::Resources;

verus! {

/// A subsystem's place in one control group: which facility it is, where its
/// hierarchy is rooted, and which directory of that hierarchy is the group's.
pub trait Controller {
    /// The kind of the subsystem. It never changes.
    spec fn kind(&self) -> Controllers;

    /// The root of the subsystem's hierarchy.
    spec fn base(&self) -> Seq<char>;

    /// The group's directory in the subsystem's hierarchy.
    spec fn path(&self) -> Seq<char>;

    /// Which facility this is.
    fn control_type(&self) -> (kind: Controllers)
        ensures
            kind == self.kind(),
    ;

    /// The group's directory in the subsystem's hierarchy.
    fn get_path(&self) -> (path: &String)
        ensures
            path@ == self.path(),
    ;

    /// The root of the subsystem's hierarchy.
    fn get_base(&self) -> (base: &String)
        ensures
            base@ == self.base(),
    ;

    /// Moves the subsystem to the group called `name`: its directory becomes
    /// the root of its hierarchy joined with `name`.
    fn relocate(&mut self, name: &str)
        ensures
            final(self).kind() == old(self).kind(),
            final(self).base() == old(self).base(),
            final(self).path() == joined(old(self).base(), name@),
    ;

    /// Translates the subsystem's part of `res` into the directives to write
    /// to its control files. Where `res` holds no such part, or the subsystem
    /// has no tunables, there is nothing to write. Where a value is out of
    /// range the answer is `InvalidValue` and nothing is to be written.
    fn apply(&self, res: &Resources) -> (r: Result<Vec<Directive>, ControllerError>)
        ensures
            answers(r, translation(res.settings(self.kind()))),
    ;
}

/// A controller type that stands for one fixed facility.
pub trait ControllIdentifier {
    /// The facility that the type stands for.
    spec fn identity() -> Controllers;

    /// The facility that the type stands for.
    fn controller_type() -> (kind: Controllers)
        ensures
            kind == Self::identity(),
    ;
}

} // verus!
