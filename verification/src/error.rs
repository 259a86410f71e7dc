//! What can be wrong with a configuration value.

use vstd::prelude::*;

verus! {

/// A configuration string that cannot be used.
#[derive(Debug, Clone, Copy, PartialEq, Eq, Structural)]
pub enum ConfigError {
    /// The bracket string has fewer than two characters.
    BracketsTooShort,
    /// The symbol string has fewer than eleven characters.
    SymbolsTooShort,
}

impl ConfigError {
    /// The text shown to the user for this error.
    pub open spec fn message_text(self) -> Seq<char> {
        match self {
            ConfigError::BracketsTooShort => "Not enough chars in string"@,
            ConfigError::SymbolsTooShort => "Not enough characters in string"@,
        }
    }

    /// The text shown to the user for this error.
    pub fn message(&self) -> (text: String)
        ensures
            text@ == self.message_text(),
    {
        match self {
            ConfigError::BracketsTooShort => String::from_str("Not enough chars in string"),
            ConfigError::SymbolsTooShort => String::from_str("Not enough characters in string"),
        }
    }
}

} // verus!
