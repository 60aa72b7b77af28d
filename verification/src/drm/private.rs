//! What keeps the object traits closed to other crates' types.

use vstd::prelude::*;

verus! {

/// Marks the types that may be graphics memory objects.
pub trait Sealed {

}

} // verus!
