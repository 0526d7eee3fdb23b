//! The errors a read can end in.

use vstd::prelude::*;

verus! {

/// Why a read failed.
#[derive(Clone, Copy, Debug, PartialEq, Eq, Hash)]
pub enum Error {
    /// The attribute id is not one that the cluster declares.
    AttributeNotFound,
    /// The writer has no room left for the next element.
    NoSpace,
}

} // verus!
