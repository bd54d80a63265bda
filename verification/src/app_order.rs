//! Comparing application records with `<` and its kin.
use vstd::prelude::*;
use crate::app::App;
use crate::order::{identity_side, Side};
use std::cmp::Ordering;

verus! {

impl PartialOrd for App {
    fn partial_cmp(&self, other: &Self) -> (r: Option<Ordering>) {
        match self.compare(other) {
            Side::Before => Some(Ordering::Less),
            Side::Same => Some(Ordering::Equal),
            Side::After => Some(Ordering::Greater),
        }
    }
}

impl vstd::std_specs::cmp::PartialOrdSpecImpl for App {
    open spec fn obeys_partial_cmp_spec() -> bool {
        true
    }

    open spec fn partial_cmp_spec(&self, other: &Self) -> Option<Ordering> {
        match identity_side(self@.identity(), other@.identity()) {
            Side::Before => Some(Ordering::Less),
            Side::Same => Some(Ordering::Equal),
            Side::After => Some(Ordering::Greater),
        }
    }
}

} // verus!
