//! The `==` of objects and keys: observable equality, that is equality of
//! the values that they stand for.  For dictionaries the order of the
//! entries does not count.

use crate::object::{HashObject, HashableObject, Object};
use vstd::prelude::*;

verus! {

impl PartialEq for HashableObject {
    fn eq(&self, other: &HashableObject) -> (equal: bool) {
        self.equals(other)
    }
}

impl vstd::std_specs::cmp::PartialEqSpecImpl for HashableObject {
    open spec fn obeys_eq_spec() -> bool {
        true
    }

    open spec fn eq_spec(&self, other: &HashableObject) -> bool {
        self@ == other@
    }
}

impl PartialEq for HashObject {
    fn eq(&self, other: &HashObject) -> (equal: bool) {
        self.equals(other)
    }
}

impl vstd::std_specs::cmp::PartialEqSpecImpl for HashObject {
    open spec fn obeys_eq_spec() -> bool {
        true
    }

    open spec fn eq_spec(&self, other: &HashObject) -> bool {
        self@ == other@
    }
}

impl PartialEq for Object {
    fn eq(&self, other: &Object) -> (equal: bool) {
        self.equals(other)
    }
}

impl vstd::std_specs::cmp::PartialEqSpecImpl for Object {
    open spec fn obeys_eq_spec() -> bool {
        true
    }

    open spec fn eq_spec(&self, other: &Object) -> bool {
        self@ == other@
    }
}

} // verus!
