//! The offline renderer's handle.

use vstd::prelude::*;

verus! {

/// An offline renderer.
pub struct OfflineRenderer;

} // verus!
