//! The relay's settings, as read from its configuration file.
use vstd::prelude::*;

verus! {

pub struct Config {
    /// The address to listen on.
    pub bind: String,
    /// The static shared secret that creating and sending require.
    pub token: String,
    /// The key that signs capability tokens, in base64.
    pub jwt_secret: String,
    /// The log filter, where the environment's should not apply.
    pub log_filter: Option<String>,
}

} // verus!
