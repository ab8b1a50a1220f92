//! The order of values in the terms of the standard library.

use std::cmp::Ordering;
use vstd::prelude::*;
use crate::order::value_order;
use crate::text::Comparison;
use crate::value::Value;

verus! {

/// The outcome of a comparison in the terms of the standard library.
pub open spec fn standard(c: Option<Comparison>) -> Option<Ordering> {
    match c {
        Some(Comparison::Less) => Some(Ordering::Less),
        Some(Comparison::Equal) => Some(Ordering::Equal),
        Some(Comparison::Greater) => Some(Ordering::Greater),
        None => None,
    }
}

impl Value {
    /// Compares two values. Two values that have no order are neither less,
    /// equal nor greater: nothing comes back for them.
    pub fn partial_cmp(&self, other: &Value) -> (r: Option<Ordering>)
        ensures
            r == standard(value_order(self@, other@)),
    {
        match self.compare(other) {
            Some(Comparison::Less) => Some(Ordering::Less),
            Some(Comparison::Equal) => Some(Ordering::Equal),
            Some(Comparison::Greater) => Some(Ordering::Greater),
            None => None,
        }
    }
}

} // verus!
