//! Constants that both ends of a connection share.

use vstd::prelude::*;

verus! {

/// The version of the wire protocol.
pub const PROTOCOL_VERSION: u32 = 11;

/// The session that is meant where none is named.
pub const DEFAULT_SESSION_NAME: &'static str = "default";

} // verus!
