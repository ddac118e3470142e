use vstd::prelude::*;

verus! {

/// The Steam universes an account can belong to, in the order of their numbers.
#[derive(Clone, Copy, Debug, PartialEq, Eq, Structural)]
pub enum Universe {
    Individual,
    Public,
    Beta,
    Internal,
    Dev,
    RC,
}

/// A 64-bit Steam id.
#[derive(Clone, Copy, Debug, PartialEq, Eq, Structural)]
pub struct SteamId {
    pub id: u64,
}

impl SteamId {
    /// Takes a steam3 id text. No conversion is done here: nothing is read from the text
    /// and nothing is returned (see `steam_id::from_steamid3` for the conversion).
    pub fn from_steamid3(self, id_str: String) {
    }
}

} // verus!
