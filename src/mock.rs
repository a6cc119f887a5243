//! Support for unit tests of applications.

use vstd::prelude::*;

verus! {

/// The type that answers an application's system API calls with mock values
/// when the application's unit tests run.
pub struct MockSystemApi;

} // verus!
