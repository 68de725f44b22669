//! What the bot is configured with.

use vstd::prelude::*;

verus! {

/// How to sign in to the chat platform.
#[derive(Debug)]
pub struct Discord {
    pub token: String,
}

/// What to log, and where.
#[derive(Debug)]
pub struct Logging {
    /// The name of the most verbose level to log.
    pub level: String,
    pub file: String,
}

/// All settings.
#[derive(Debug)]
pub struct Settings {
    pub discord: Discord,
    pub logging: Logging,
}

} // verus!
