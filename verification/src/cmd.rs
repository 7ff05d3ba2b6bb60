//! The responses of a turtle under their first names.

use vstd::prelude::*;
use crate::turtle_core::data::{TurtRawResponse, TurtResponse};

verus! {

/// What a turtle reports for one command.
pub type Resp = TurtResponse;

/// A response as it arrives.
pub type LuaResp = TurtRawResponse;

} // verus!
