//! The lifecycle states a resource can be in, as types.

use vstd::prelude::*;

verus! {

/// Acquired and ready for use.
pub struct Acquired;

/// Released; it can no longer be used.
pub struct Released;

/// Being set up.
pub struct Initializing;

/// Failed; it must be recovered or released.
pub struct Failed;

} // verus!
