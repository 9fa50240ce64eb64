//! The closed set of game-client variants ("flavors") and their canonical
//! lowercase identifiers, used both for serialization and for directory
//! naming.

use vstd::prelude::*;

verus! {

/// A distinct build/channel of the game client. The set is closed and stable.
#[derive(Debug, Clone, Copy, PartialEq, Eq, Hash, Structural)]
pub enum Flavor {
    Retail,
    Classic,
    RetailPTR,
    ClassicPTR,
    Beta,
}

/// The canonical identifier of a flavor, as a sequence of characters.
pub open spec fn spec_identifier(f: Flavor) -> Seq<char> {
    match f {
        Flavor::Retail => "retail"@,
        Flavor::Classic => "classic"@,
        Flavor::RetailPTR => "ptr"@,
        Flavor::ClassicPTR => "classic_ptr"@,
        Flavor::Beta => "beta"@,
    }
}

/// The flavor a given identifier string denotes, if any. Unknown strings
/// denote no flavor.
pub open spec fn spec_from_identifier(s: Seq<char>) -> Option<Flavor> {
    if s == "retail"@ {
        Some(Flavor::Retail)
    } else if s == "classic"@ {
        Some(Flavor::Classic)
    } else if s == "ptr"@ {
        Some(Flavor::RetailPTR)
    } else if s == "classic_ptr"@ {
        Some(Flavor::ClassicPTR)
    } else if s == "beta"@ {
        Some(Flavor::Beta)
    } else {
        None
    }
}

impl Flavor {
    /// The canonical lowercase identifier, shared by serialization and
    /// directory naming; identifier and display form are identical.
    pub fn identifier(&self) -> (r: &'static str)
        ensures
            r@ == spec_identifier(*self),
    {
        match self {
            Flavor::Retail => "retail",
            Flavor::Classic => "classic",
            Flavor::RetailPTR => "ptr",
            Flavor::ClassicPTR => "classic_ptr",
            Flavor::Beta => "beta",
        }
    }

    /// Parses a canonical identifier back into a flavor; unknown strings
    /// yield `None`.
    pub fn from_identifier(s: &str) -> (r: Option<Flavor>)
        ensures
            r == spec_from_identifier(s@),
    {
        if crate::strutil::str_eq(s, "retail") {
            Some(Flavor::Retail)
        } else if crate::strutil::str_eq(s, "classic") {
            Some(Flavor::Classic)
        } else if crate::strutil::str_eq(s, "ptr") {
            Some(Flavor::RetailPTR)
        } else if crate::strutil::str_eq(s, "classic_ptr") {
            Some(Flavor::ClassicPTR)
        } else if crate::strutil::str_eq(s, "beta") {
            Some(Flavor::Beta)
        } else {
            None
        }
    }
}

impl Default for Flavor {
    /// The default flavor is `Retail`.
    fn default() -> (r: Flavor)
        ensures
            r == Flavor::Retail,
    {
        Flavor::Retail
    }
}

/// Converting a flavor to its identifier string and parsing that string
/// back yields the original flavor, for every flavor.
pub proof fn lemma_flavor_identifier_round_trip(f: Flavor)
    ensures
        spec_from_identifier(spec_identifier(f)) == Some(f),
{
    reveal_strlit("retail");
    reveal_strlit("classic");
    reveal_strlit("ptr");
    reveal_strlit("classic_ptr");
    reveal_strlit("beta");
    assert("retail"@.len() == 6);
    assert("classic"@.len() == 7);
    assert("ptr"@.len() == 3);
    assert("classic_ptr"@.len() == 11);
    assert("beta"@.len() == 4);
}

} // verus!
