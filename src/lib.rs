use vstd::prelude::*;

/// Activating a target's debug inspector and settling on its port.
pub mod activation;
/// Reading polled values out of inbound protocol frames.
pub mod frames;
/// Port sets and the listening ports of a process.
pub mod ports;
/// Finding the target process by a search text.
pub mod process;
/// Method call requests, manifest addresses and the protocol listing.
pub mod protocol;

verus! {

} // verus!
