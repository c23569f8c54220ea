//! Fixed strings that identify this client.

use vstd::prelude::*;

verus! {

/// Default value of the `User-Agent` header: the name and the version of
/// this library.
pub const USER_AGENT: &'static str = "cabot/0.1.1";

} // verus!
