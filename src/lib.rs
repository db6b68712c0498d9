//! A traveller's session with a travel agency, and the bank transfers that pay for it,
//! as state machines whose states decide which operations exist.

use vstd::prelude::*;

/// Trips and the agency's catalogue.
pub mod trip;
/// The account ledger and the transfer lifecycle.
pub mod bank;
/// The traveller's session and its driver.
pub mod agency;
/// The same conversations as dual channel protocols.
pub mod protocol;

verus! {

} // verus!
