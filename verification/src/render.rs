//! Rendering configuration: glyphs, spacing and growth directions.

pub mod alignment;
pub mod symbols;

pub use self::alignment::{Alignment, AlignmentBuilder};
pub use self::symbols::{Symbols, SymbolsBuilder};

use self::symbols::Glyphs;
use vstd::prelude::*;

verus! {

/// A small grid of text that shows every glyph of a set in its place.
#[derive(Debug, Clone)]
pub struct DemoGrid(pub String);

/// How a tree is drawn.
#[derive(Debug, Clone)]
pub struct RenderMode {
    pub demo_grid: DemoGrid,
    pub symbol_set: Symbols,
    pub lines: u8,
    pub gaps: u8,
    pub chain: bool,
    pub vertical: bool,
    pub invert: bool,
    pub align_root: Alignment,
}

/// A cap as the grid shows it: an empty cap takes one blank.
pub open spec fn shown_cap(cap: Seq<char>) -> Seq<char> {
    if cap.len() == 0 {
        seq![' ']
    } else {
        cap
    }
}

/// `n` times the same glyph.
pub open spec fn glyph_run(glyph: char, n: nat) -> Seq<char> {
    Seq::new(n, |i: int| glyph)
}

/// One row of the grid: three glyphs with a stretch between each two.
pub open spec fn grid_row(
    left: char,
    first: Seq<char>,
    middle: char,
    second: Seq<char>,
    right: char,
) -> Seq<char> {
    seq![left] + first + seq![middle] + second + seq![right]
}

/// The grid for a set of glyphs: four rows of five parts. The stretches are as
/// wide as the caps, which stand in the third row beside the vertical line.
pub open spec fn demo_grid_text(g: Glyphs) -> Seq<char> {
    let right = shown_cap(g.cap_right);
    let left = shown_cap(g.cap_left);
    let a = glyph_run(g.horizontal, right.len());
    let b = glyph_run(g.horizontal, left.len());
    grid_row(g.corner_down_right, a, g.branch_down, b, g.corner_down_left) + seq!['\n']
        + grid_row(g.branch_right, a, g.crossing, b, g.branch_left) + seq!['\n'] + grid_row(
        g.branch_right,
        right,
        g.vertical,
        left,
        g.branch_left,
    ) + seq!['\n'] + grid_row(g.corner_up_right, a, g.branch_up, b, g.corner_up_left)
}

/// `n` times the same glyph.
fn repeat_glyph(glyph: char, n: usize) -> (run: String)
    ensures
        run@ == glyph_run(glyph, n as nat),
{
    let mut run = String::new();
    let mut i: usize = 0;
    while i < n
        invariant
            i <= n,
            run@ =~= glyph_run(glyph, i as nat),
        decreases n - i,
    {
        run.push(glyph);
        i += 1;
    }
    run
}

/// Appends one row of the grid to `out`.
fn push_row(out: &mut String, left: char, first: &str, middle: char, second: &str, right: char)
    ensures
        final(out)@ == old(out)@ + grid_row(left, first@, middle, second@, right),
{
    out.push(left);
    out.append(first);
    out.push(middle);
    out.append(second);
    out.push(right);
    proof {
        assert(out@ =~= old(out)@ + grid_row(left, first@, middle, second@, right));
    }
}

impl DemoGrid {
    /// The grid for a set of glyphs.
    pub fn new(sym: &Symbols) -> (grid: DemoGrid)
        ensures
            grid.0@ == demo_grid_text(sym@),
    {
        let blank = " ";
        proof {
            reveal_strlit(" ");
            assert(blank@ =~= seq![' ']);
        }
        let cap_right = if sym.cap_right.as_str().is_empty() {
            blank
        } else {
            sym.cap_right.as_str()
        };
        let cap_left = if sym.cap_left.as_str().is_empty() {
            blank
        } else {
            sym.cap_left.as_str()
        };
        let horizontal_a = repeat_glyph(sym.horizontal, cap_right.unicode_len());
        let horizontal_b = repeat_glyph(sym.horizontal, cap_left.unicode_len());
        let a = horizontal_a.as_str();
        let b = horizontal_b.as_str();
        let mut out = String::new();
        push_row(&mut out, sym.corner_down_right, a, sym.branch_down, b, sym.corner_down_left);
        out.push('\n');
        push_row(&mut out, sym.branch_right, a, sym.crossing, b, sym.branch_left);
        out.push('\n');
        push_row(&mut out, sym.branch_right, cap_right, sym.vertical, cap_left, sym.branch_left);
        out.push('\n');
        push_row(&mut out, sym.corner_up_right, a, sym.branch_up, b, sym.corner_up_left);
        proof {
            assert(out@ =~= demo_grid_text(sym@));
        }
        DemoGrid(out)
    }
}

impl RenderMode {
    /// A rendering mode from its parts; the grid is made from the glyphs once,
    /// here.
    pub fn new(
        symbol_set: Symbols,
        lines: u8,
        gaps: u8,
        chain: bool,
        vertical: bool,
        invert: bool,
        align_root: Alignment,
    ) -> (mode: RenderMode)
        ensures
            mode.demo_grid.0@ == demo_grid_text(symbol_set@),
            mode.symbol_set == symbol_set,
            mode.lines == lines,
            mode.gaps == gaps,
            mode.chain == chain,
            mode.vertical == vertical,
            mode.invert == invert,
            mode.align_root == align_root,
    {
        RenderMode {
            demo_grid: DemoGrid::new(&symbol_set),
            symbol_set,
            lines,
            gaps,
            chain,
            vertical,
            invert,
            align_root,
        }
    }
}

} // verus!
