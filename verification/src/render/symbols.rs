//! The glyphs from which a drawing is made, and how a set of them is chosen.

use crate::error::ConfigError;
use crate::text::{chars_of, string_of};
use vstd::prelude::*;

verus! {

/// The number of single-character glyphs in a set.
pub const CONNECTOR_COUNT: usize = 11;

/// One visual style: eleven connectors and the two end caps of a branch.
#[derive(Debug, Clone)]
pub struct Symbols {
    pub vertical: char,
    pub horizontal: char,
    pub crossing: char,
    pub branch_right: char,
    pub branch_left: char,
    pub branch_down: char,
    pub branch_up: char,
    pub corner_down_right: char,
    pub corner_down_left: char,
    pub corner_up_right: char,
    pub corner_up_left: char,
    pub cap_right: String,
    pub cap_left: String,
}

/// A set of glyphs as plain values.
pub ghost struct Glyphs {
    pub vertical: char,
    pub horizontal: char,
    pub crossing: char,
    pub branch_right: char,
    pub branch_left: char,
    pub branch_down: char,
    pub branch_up: char,
    pub corner_down_right: char,
    pub corner_down_left: char,
    pub corner_up_right: char,
    pub corner_up_left: char,
    pub cap_right: Seq<char>,
    pub cap_left: Seq<char>,
}

impl View for Symbols {
    type V = Glyphs;

    open spec fn view(&self) -> Glyphs {
        Glyphs {
            vertical: self.vertical,
            horizontal: self.horizontal,
            crossing: self.crossing,
            branch_right: self.branch_right,
            branch_left: self.branch_left,
            branch_down: self.branch_down,
            branch_up: self.branch_up,
            corner_down_right: self.corner_down_right,
            corner_down_left: self.corner_down_left,
            corner_up_right: self.corner_up_right,
            corner_up_left: self.corner_up_left,
            cap_right: self.cap_right@,
            cap_left: self.cap_left@,
        }
    }
}

/// The box-drawing glyphs with rounded corners.
pub open spec fn rounded_glyphs() -> Glyphs {
    Glyphs {
        vertical: '│',
        horizontal: '─',
        crossing: '┼',
        branch_right: '├',
        branch_left: '┤',
        branch_down: '┬',
        branch_up: '┴',
        corner_down_right: '╭',
        corner_down_left: '╮',
        corner_up_right: '╰',
        corner_up_left: '╯',
        cap_right: "╴"@,
        cap_left: "╶"@,
    }
}

/// The glyphs that plain ASCII offers.
pub open spec fn ascii_glyphs() -> Glyphs {
    Glyphs {
        vertical: '|',
        horizontal: '-',
        crossing: '+',
        branch_right: '+',
        branch_left: '+',
        branch_down: '+',
        branch_up: '+',
        corner_down_right: '+',
        corner_down_left: '+',
        corner_up_right: '+',
        corner_up_left: '+',
        cap_right: "- "@,
        cap_left: " -"@,
    }
}

/// The box-drawing glyphs with square corners.
pub open spec fn standard_glyphs() -> Glyphs {
    Glyphs {
        vertical: '│',
        horizontal: '─',
        crossing: '┼',
        branch_right: '├',
        branch_left: '┤',
        branch_down: '┬',
        branch_up: '┴',
        corner_down_right: '┌',
        corner_down_left: '┐',
        corner_up_right: '└',
        corner_up_left: '┘',
        cap_right: "╴"@,
        cap_left: "╶"@,
    }
}

/// The glyphs of a custom set: the first eleven characters are the connectors, in
/// the order of the fields, and what is left is split evenly between the two caps,
/// the left cap taking the odd character.
pub open spec fn custom_glyphs(text: Seq<char>) -> Glyphs
    recommends
        text.len() >= CONNECTOR_COUNT,
{
    let half = (text.len() - CONNECTOR_COUNT) / 2;
    Glyphs {
        vertical: text[0],
        horizontal: text[1],
        crossing: text[2],
        branch_right: text[3],
        branch_left: text[4],
        branch_down: text[5],
        branch_up: text[6],
        corner_down_right: text[7],
        corner_down_left: text[8],
        corner_up_right: text[9],
        corner_up_left: text[10],
        cap_right: text.subrange(CONNECTOR_COUNT as int, CONNECTOR_COUNT + half),
        cap_left: text.subrange(CONNECTOR_COUNT + half, text.len() as int),
    }
}

impl Symbols {
    /// The box-drawing glyphs with rounded corners.
    pub fn rounded() -> (symbols: Symbols)
        ensures
            symbols@ == rounded_glyphs(),
    {
        Symbols {
            vertical: '│',
            horizontal: '─',
            crossing: '┼',
            branch_right: '├',
            branch_left: '┤',
            branch_down: '┬',
            branch_up: '┴',
            corner_down_right: '╭',
            corner_down_left: '╮',
            corner_up_right: '╰',
            corner_up_left: '╯',
            cap_right: String::from_str("╴"),
            cap_left: String::from_str("╶"),
        }
    }

    /// The glyphs that plain ASCII offers.
    pub fn ascii() -> (symbols: Symbols)
        ensures
            symbols@ == ascii_glyphs(),
    {
        Symbols {
            vertical: '|',
            horizontal: '-',
            crossing: '+',
            branch_right: '+',
            branch_left: '+',
            branch_down: '+',
            branch_up: '+',
            corner_down_right: '+',
            corner_down_left: '+',
            corner_up_right: '+',
            corner_up_left: '+',
            cap_right: String::from_str("- "),
            cap_left: String::from_str(" -"),
        }
    }

    /// Reads a custom set of glyphs. Fewer than eleven characters are refused.
    pub fn parse(text: &str) -> (result: Result<Symbols, ConfigError>)
        ensures
            text@.len() < CONNECTOR_COUNT ==> result == Err::<Symbols, ConfigError>(
                ConfigError::SymbolsTooShort,
            ),
            text@.len() >= CONNECTOR_COUNT ==> result is Ok && result->Ok_0@ == custom_glyphs(text@),
    {
        let chars = chars_of(text);
        if chars.len() < CONNECTOR_COUNT {
            return Err(ConfigError::SymbolsTooShort);
        }
        let half: usize = (chars.len() - CONNECTOR_COUNT) / 2;
        Ok(
            Symbols {
                vertical: chars[0],
                horizontal: chars[1],
                crossing: chars[2],
                branch_right: chars[3],
                branch_left: chars[4],
                branch_down: chars[5],
                branch_up: chars[6],
                corner_down_right: chars[7],
                corner_down_left: chars[8],
                corner_up_right: chars[9],
                corner_up_left: chars[10],
                cap_right: string_of(&chars, CONNECTOR_COUNT, CONNECTOR_COUNT + half),
                cap_left: string_of(&chars, CONNECTOR_COUNT + half, chars.len()),
            },
        )
    }
}

impl Default for Symbols {
    /// The box-drawing glyphs with square corners.
    fn default() -> (symbols: Symbols)
        ensures
            symbols@ == standard_glyphs(),
    {
        Symbols {
            vertical: '│',
            horizontal: '─',
            crossing: '┼',
            branch_right: '├',
            branch_left: '┤',
            branch_down: '┬',
            branch_up: '┴',
            corner_down_right: '┌',
            corner_down_left: '┐',
            corner_up_right: '└',
            corner_up_left: '┘',
            cap_right: String::from_str("╴"),
            cap_left: String::from_str("╶"),
        }
    }
}

/// Collects overrides for single glyphs and the choice of a fallback style.
#[derive(Debug, Clone)]
pub struct SymbolsBuilder {
    pub default_to_ascii: bool,
    pub default_to_rounded: bool,
    pub vertical: Option<char>,
    pub horizontal: Option<char>,
    pub crossing: Option<char>,
    pub branch_right: Option<char>,
    pub branch_left: Option<char>,
    pub branch_down: Option<char>,
    pub branch_up: Option<char>,
    pub corner_down_right: Option<char>,
    pub corner_down_left: Option<char>,
    pub corner_up_right: Option<char>,
    pub corner_up_left: Option<char>,
    pub cap_right: Option<String>,
    pub cap_left: Option<String>,
}

/// The style that fills the slots without an override: ASCII before rounded before
/// the standard box-drawing set.
pub open spec fn fallback_glyphs(ascii: bool, rounded: bool) -> Glyphs {
    if ascii {
        ascii_glyphs()
    } else if rounded {
        rounded_glyphs()
    } else {
        standard_glyphs()
    }
}

/// A connector slot: the override where there is one, else the fallback.
pub open spec fn resolve_glyph(explicit: Option<char>, fallback: char) -> char {
    match explicit {
        Some(c) => c,
        None => fallback,
    }
}

/// A cap slot: the override where there is one, else the fallback.
pub open spec fn resolve_cap(explicit: Option<String>, fallback: Seq<char>) -> Seq<char> {
    match explicit {
        Some(s) => s@,
        None => fallback,
    }
}

impl SymbolsBuilder {
    /// The glyphs that the builder resolves to, slot by slot.
    pub open spec fn resolved(&self) -> Glyphs {
        let base = fallback_glyphs(self.default_to_ascii, self.default_to_rounded);
        Glyphs {
            vertical: resolve_glyph(self.vertical, base.vertical),
            horizontal: resolve_glyph(self.horizontal, base.horizontal),
            crossing: resolve_glyph(self.crossing, base.crossing),
            branch_right: resolve_glyph(self.branch_right, base.branch_right),
            branch_left: resolve_glyph(self.branch_left, base.branch_left),
            branch_down: resolve_glyph(self.branch_down, base.branch_down),
            branch_up: resolve_glyph(self.branch_up, base.branch_up),
            corner_down_right: resolve_glyph(self.corner_down_right, base.corner_down_right),
            corner_down_left: resolve_glyph(self.corner_down_left, base.corner_down_left),
            corner_up_right: resolve_glyph(self.corner_up_right, base.corner_up_right),
            corner_up_left: resolve_glyph(self.corner_up_left, base.corner_up_left),
            cap_right: resolve_cap(self.cap_right, base.cap_right),
            cap_left: resolve_cap(self.cap_left, base.cap_left),
        }
    }

    /// Whether no slot has an override and no fallback style is chosen.
    pub open spec fn is_blank(&self) -> bool {
        &&& !self.default_to_ascii
        &&& !self.default_to_rounded
        &&& self.vertical is None
        &&& self.horizontal is None
        &&& self.crossing is None
        &&& self.branch_right is None
        &&& self.branch_left is None
        &&& self.branch_down is None
        &&& self.branch_up is None
        &&& self.corner_down_right is None
        &&& self.corner_down_left is None
        &&& self.corner_up_right is None
        &&& self.corner_up_left is None
        &&& self.cap_right is None
        &&& self.cap_left is None
    }

    /// A builder without overrides, which resolves to the standard set.
    pub fn new() -> (builder: SymbolsBuilder)
        ensures
            builder.is_blank(),
    {
        SymbolsBuilder {
            default_to_ascii: false,
            default_to_rounded: false,
            vertical: None,
            horizontal: None,
            crossing: None,
            branch_right: None,
            branch_left: None,
            branch_down: None,
            branch_up: None,
            corner_down_right: None,
            corner_down_left: None,
            corner_up_right: None,
            corner_up_left: None,
            cap_right: None,
            cap_left: None,
        }
    }

    /// Chooses whether slots without an override fall back to the ASCII set.
    pub fn default_to_ascii(&mut self, default_to_ascii: bool) -> (ret: &mut Self)
        ensures
            *ret == (SymbolsBuilder { default_to_ascii, ..*old(self) }),
            *final(self) == *final(ret),
    {
        self.default_to_ascii = default_to_ascii;
        self
    }

    /// Chooses whether slots without an override fall back to the rounded set.
    pub fn default_to_rounded(&mut self, default_to_rounded: bool) -> (ret: &mut Self)
        ensures
            *ret == (SymbolsBuilder { default_to_rounded, ..*old(self) }),
            *final(self) == *final(ret),
    {
        self.default_to_rounded = default_to_rounded;
        self
    }

    /// Overrides every slot with the glyphs of `symbols`; `None` changes nothing.
    pub fn opt_symbol_set(&mut self, symbols: Option<Symbols>) -> (ret: &mut Self)
        ensures
            symbols is None ==> *ret == *old(self),
            symbols matches Some(set) ==> *ret == (SymbolsBuilder {
                default_to_ascii: old(self).default_to_ascii,
                default_to_rounded: old(self).default_to_rounded,
                vertical: Some(set.vertical),
                horizontal: Some(set.horizontal),
                crossing: Some(set.crossing),
                branch_right: Some(set.branch_right),
                branch_left: Some(set.branch_left),
                branch_down: Some(set.branch_down),
                branch_up: Some(set.branch_up),
                corner_down_right: Some(set.corner_down_right),
                corner_down_left: Some(set.corner_down_left),
                corner_up_right: Some(set.corner_up_right),
                corner_up_left: Some(set.corner_up_left),
                cap_right: Some(set.cap_right),
                cap_left: Some(set.cap_left),
            }),
            *final(self) == *final(ret),
    {
        if let Some(symbols) = symbols {
            self.vertical = Some(symbols.vertical);
            self.horizontal = Some(symbols.horizontal);
            self.crossing = Some(symbols.crossing);
            self.branch_right = Some(symbols.branch_right);
            self.branch_left = Some(symbols.branch_left);
            self.branch_down = Some(symbols.branch_down);
            self.branch_up = Some(symbols.branch_up);
            self.corner_down_right = Some(symbols.corner_down_right);
            self.corner_down_left = Some(symbols.corner_down_left);
            self.corner_up_right = Some(symbols.corner_up_right);
            self.corner_up_left = Some(symbols.corner_up_left);
            self.cap_right = Some(symbols.cap_right);
            self.cap_left = Some(symbols.cap_left);
        }
        self
    }

    /// Overrides, or with `None` frees, the glyph for vertical lines.
    pub fn vertical(&mut self, vertical: Option<char>) -> (ret: &mut Self)
        ensures
            *ret == (SymbolsBuilder { vertical, ..*old(self) }),
            *final(self) == *final(ret),
    {
        self.vertical = vertical;
        self
    }

    /// Overrides, or with `None` frees, the glyph for horizontal lines.
    pub fn horizontal(&mut self, horizontal: Option<char>) -> (ret: &mut Self)
        ensures
            *ret == (SymbolsBuilder { horizontal, ..*old(self) }),
            *final(self) == *final(ret),
    {
        self.horizontal = horizontal;
        self
    }

    /// Overrides, or with `None` frees, the glyph for crossings.
    pub fn crossing(&mut self, crossing: Option<char>) -> (ret: &mut Self)
        ensures
            *ret == (SymbolsBuilder { crossing, ..*old(self) }),
            *final(self) == *final(ret),
    {
        self.crossing = crossing;
        self
    }

    /// Overrides, or with `None` frees, the glyph for a vertical line that branches to the right.
    pub fn branch_right(&mut self, branch_right: Option<char>) -> (ret: &mut Self)
        ensures
            *ret == (SymbolsBuilder { branch_right, ..*old(self) }),
            *final(self) == *final(ret),
    {
        self.branch_right = branch_right;
        self
    }

    /// Overrides, or with `None` frees, the glyph for a vertical line that branches to the left.
    pub fn branch_left(&mut self, branch_left: Option<char>) -> (ret: &mut Self)
        ensures
            *ret == (SymbolsBuilder { branch_left, ..*old(self) }),
            *final(self) == *final(ret),
    {
        self.branch_left = branch_left;
        self
    }

    /// Overrides, or with `None` frees, the glyph for a horizontal line that branches downwards.
    pub fn branch_down(&mut self, branch_down: Option<char>) -> (ret: &mut Self)
        ensures
            *ret == (SymbolsBuilder { branch_down, ..*old(self) }),
            *final(self) == *final(ret),
    {
        self.branch_down = branch_down;
        self
    }

    /// Overrides, or with `None` frees, the glyph for a horizontal line that branches upwards.
    pub fn branch_up(&mut self, branch_up: Option<char>) -> (ret: &mut Self)
        ensures
            *ret == (SymbolsBuilder { branch_up, ..*old(self) }),
            *final(self) == *final(ret),
    {
        self.branch_up = branch_up;
        self
    }

    /// Overrides, or with `None` frees, the glyph for the corner that joins down and right.
    pub fn corner_down_right(&mut self, corner_down_right: Option<char>) -> (ret: &mut Self)
        ensures
            *ret == (SymbolsBuilder { corner_down_right, ..*old(self) }),
            *final(self) == *final(ret),
    {
        self.corner_down_right = corner_down_right;
        self
    }

    /// Overrides, or with `None` frees, the glyph for the corner that joins down and left.
    pub fn corner_down_left(&mut self, corner_down_left: Option<char>) -> (ret: &mut Self)
        ensures
            *ret == (SymbolsBuilder { corner_down_left, ..*old(self) }),
            *final(self) == *final(ret),
    {
        self.corner_down_left = corner_down_left;
        self
    }

    /// Overrides, or with `None` frees, the glyph for the corner that joins up and right.
    pub fn corner_up_right(&mut self, corner_up_right: Option<char>) -> (ret: &mut Self)
        ensures
            *ret == (SymbolsBuilder { corner_up_right, ..*old(self) }),
            *final(self) == *final(ret),
    {
        self.corner_up_right = corner_up_right;
        self
    }

    /// Overrides, or with `None` frees, the glyph for the corner that joins up and left.
    pub fn corner_up_left(&mut self, corner_up_left: Option<char>) -> (ret: &mut Self)
        ensures
            *ret == (SymbolsBuilder { corner_up_left, ..*old(self) }),
            *final(self) == *final(ret),
    {
        self.corner_up_left = corner_up_left;
        self
    }

    /// Overrides, or with `None` frees, the cap that ends a branch on the right.
    pub fn cap_right(&mut self, cap_right: Option<String>) -> (ret: &mut Self)
        ensures
            *ret == (SymbolsBuilder { cap_right, ..*old(self) }),
            *final(self) == *final(ret),
    {
        self.cap_right = cap_right;
        self
    }

    /// Overrides, or with `None` frees, the cap that ends a branch on the left.
    pub fn cap_left(&mut self, cap_left: Option<String>) -> (ret: &mut Self)
        ensures
            *ret == (SymbolsBuilder { cap_left, ..*old(self) }),
            *final(self) == *final(ret),
    {
        self.cap_left = cap_left;
        self
    }

    /// Resolves every slot on its own: the override, else the fallback style.
    pub fn build(&self) -> (symbols: Symbols)
        ensures
            symbols@ == self.resolved(),
    {
        let base = if self.default_to_ascii {
            Symbols::ascii()
        } else if self.default_to_rounded {
            Symbols::rounded()
        } else {
            Symbols::default()
        };
        Symbols {
            vertical: match self.vertical {
                Some(c) => c,
                None => base.vertical,
            },
            horizontal: match self.horizontal {
                Some(c) => c,
                None => base.horizontal,
            },
            crossing: match self.crossing {
                Some(c) => c,
                None => base.crossing,
            },
            branch_right: match self.branch_right {
                Some(c) => c,
                None => base.branch_right,
            },
            branch_left: match self.branch_left {
                Some(c) => c,
                None => base.branch_left,
            },
            branch_down: match self.branch_down {
                Some(c) => c,
                None => base.branch_down,
            },
            branch_up: match self.branch_up {
                Some(c) => c,
                None => base.branch_up,
            },
            corner_down_right: match self.corner_down_right {
                Some(c) => c,
                None => base.corner_down_right,
            },
            corner_down_left: match self.corner_down_left {
                Some(c) => c,
                None => base.corner_down_left,
            },
            corner_up_right: match self.corner_up_right {
                Some(c) => c,
                None => base.corner_up_right,
            },
            corner_up_left: match self.corner_up_left {
                Some(c) => c,
                None => base.corner_up_left,
            },
            cap_right: match &self.cap_right {
                Some(s) => s.clone(),
                None => base.cap_right,
            },
            cap_left: match &self.cap_left {
                Some(s) => s.clone(),
                None => base.cap_left,
            },
        }
    }
}

impl Default for SymbolsBuilder {
    fn default() -> (builder: SymbolsBuilder)
        ensures
            builder.is_blank(),
    {
        SymbolsBuilder::new()
    }
}

} // verus!
