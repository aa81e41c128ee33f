//! What lets a device into the cloud.
use vstd::prelude::*;

verus! {

/// The token of a device and the server that it is for.
#[derive(Debug)]
pub struct Credential {
    pub token: String,
    pub server_url: String,
}

} // verus!
