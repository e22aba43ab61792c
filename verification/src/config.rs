//! Default connection configuration for hosts of the companion client.

use vstd::prelude::*;

verus! {

/// URI of the synchronization server a client connects to.
pub const SERVER_URI: &'static str = "http://localhost:3000";

/// Name of the module database a client connects to.
pub const MODULE_NAME: &'static str = "mydatabase";

} // verus!
