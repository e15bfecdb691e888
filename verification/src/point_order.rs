//! The order of points: by `x` first, and by `y` where the `x` are equal.

use crate::point::Point;
use std::cmp::Ordering;
use vstd::prelude::*;
use vstd::std_specs::cmp::{PartialOrdSpec, PartialOrdSpecImpl};

verus! {

impl<T: PartialOrd> PartialOrdSpecImpl for Point<T> {
    open spec fn obeys_partial_cmp_spec() -> bool {
        T::obeys_partial_cmp_spec()
    }

    open spec fn partial_cmp_spec(&self, other: &Point<T>) -> Option<Ordering> {
        if self.x.partial_cmp_spec(&other.x) == Some(Ordering::Equal) {
            self.y.partial_cmp_spec(&other.y)
        } else {
            self.x.partial_cmp_spec(&other.x)
        }
    }
}

impl<T: PartialOrd> PartialOrd for Point<T> {
    /// Compares by `x`, and by `y` where the `x` are equal.
    fn partial_cmp(&self, other: &Point<T>) -> (r: Option<Ordering>) {
        match self.x.partial_cmp(&other.x) {
            Some(Ordering::Equal) => self.y.partial_cmp(&other.y),
            first => first,
        }
    }
}

} // verus!
