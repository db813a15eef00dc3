//! Bounds on paging.

use vstd::prelude::*;

verus! {

/// The first page.
pub const MIN_PAGE: i32 = 1;

/// The smallest page size a query may ask for.
pub const MIN_PAGE_SIZE: i32 = 1;

/// The largest page size a query may ask for.
pub const MAX_PAGE_SIZE: i32 = 100;

} // verus!
