//! Standard permission flags. The log stores the raw bit mask, so that its
//! readers share a vocabulary.

use vstd::prelude::*;

verus! {

/// Permission flag: no permission.
pub const NONE: u32 = 0;

/// Permission flag: the actor is a staker.
pub const STAKER: u32 = 1;

/// Permission flag: the actor is an administrator.
pub const ADMIN: u32 = 2;

/// Permission flag: the actor acts for the treasury.
pub const TREASURY: u32 = 4;

/// Permission flag: the actor is the system itself.
pub const SYSTEM: u32 = 8;

} // verus!
