//! The authentication gate: a single static shared-secret comparison,
//! performed before any core logic runs.

use vstd::prelude::*;

use crate::config::Config;

verus! {

/// Accepts exactly the presented key that equals the configured token.
pub fn validate_api_key(api_key: &String, config: &Config) -> (r: Result<(), ()>)
    ensures
        r is Ok <==> api_key@ == config@.api_token,
{
    if config.api_token == *api_key {
        Ok(())
    } else {
        Err(())
    }
}

} // verus!
