//! Release information.

use vstd::prelude::*;

verus! {

/// The version of this library.
pub const VERSION: &'static str = "0.2.0";

/// Who wrote it.
pub const AUTHOR: &'static str = "richö butts";

} // verus!
