//! Shared error type of the surrounding command layer.

use vstd::prelude::*;

verus! {

/// An error of the command layer around the engine.
#[derive(Debug, Clone, Copy, PartialEq, Eq, Structural)]
pub enum BigBirbError {
    /// The command makes sense only inside a guild.
    GuildOnly,
}

impl BigBirbError {
    /// The message shown for this error.
    pub fn message(&self) -> (r: String)
        ensures
            r@ == "This command must be run inside of a guild."@,
    {
        "This command must be run inside of a guild.".to_owned()
    }
}

} // verus!
