//! The supertrait that keeps the state marker traits closed to other crates.

use vstd::prelude::*;

use super::states::{Acquired, Failed, Initializing, Released};

verus! {

/// Implemented by the lifecycle states only.
pub trait Sealed {}

impl Sealed for Acquired {}

impl Sealed for Released {}

impl Sealed for Initializing {}

impl Sealed for Failed {}

} // verus!
