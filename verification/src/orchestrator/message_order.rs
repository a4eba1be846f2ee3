//! Messages compare by their sequence ids alone.

use vstd::prelude::*;
use vstd::std_specs::cmp::{PartialEqSpecImpl, PartialOrdSpecImpl};
use core::cmp::Ordering;
use super::memory::MemoryMessage;

verus! {

impl PartialEq for MemoryMessage {
    fn eq(&self, other: &Self) -> (r: bool) {
        self.sequence_id == other.sequence_id
    }
}

impl PartialEqSpecImpl for MemoryMessage {
    open spec fn obeys_eq_spec() -> bool {
        true
    }

    open spec fn eq_spec(&self, other: &MemoryMessage) -> bool {
        self.sequence_id == other.sequence_id
    }
}

impl PartialOrd for MemoryMessage {
    fn partial_cmp(&self, other: &Self) -> (r: Option<Ordering>) {
        if self.sequence_id < other.sequence_id {
            Some(Ordering::Less)
        } else if self.sequence_id == other.sequence_id {
            Some(Ordering::Equal)
        } else {
            Some(Ordering::Greater)
        }
    }
}

impl PartialOrdSpecImpl for MemoryMessage {
    open spec fn obeys_partial_cmp_spec() -> bool {
        true
    }

    open spec fn partial_cmp_spec(&self, other: &MemoryMessage) -> Option<Ordering> {
        if self.sequence_id < other.sequence_id {
            Some(Ordering::Less)
        } else if self.sequence_id == other.sequence_id {
            Some(Ordering::Equal)
        } else {
            Some(Ordering::Greater)
        }
    }
}

} // verus!
