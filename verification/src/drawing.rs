//! From text to drawings: parse, order, draw.

use crate::display::tree_lines;
use crate::order::{ordered, OrderMode, OrderPolicy};
use crate::parser::{parse_forest, spec_parse, Grammar, ParseMode};
use crate::tree::{forest_view, Node, Tree};
use vstd::prelude::*;

verus! {

/// A piece of text as `{:?}` shows it: in double quotes, with escapes.
pub uninterp spec fn debug_text(s: Seq<char>) -> Seq<char>;

/// Formats a string slice with `{:?}`, which is the `Debug` impl of `str` in
/// the standard library. Assumed, not proved: the text that comes out depends
/// on the characters of the slice alone. The contract gives it the name
/// `debug_text` and says no more of it.
#[verifier::external_body]
fn quoted(s: &str) -> (text: String)
    ensures
        text@ == debug_text(s@),
{
    format!("{:?}", s)
}

/// The message for input that was not used up, around the quoted remainder.
pub open spec fn failure_text(quoted: Seq<char>) -> Seq<char> {
    "Failed to parse input, on "@ + quoted + "."@
}

/// The message for input that was not used up, around the quoted remainder.
pub fn failure_message(quoted: &str) -> (message: String)
    ensures
        message@ == failure_text(quoted@),
{
    let mut message = String::from_str("Failed to parse input, on ");
    message.append(quoted);
    message.append(".");
    message
}

/// The drawings of the first `k` trees of a forest, a blank line after each.
pub open spec fn forest_lines(forest: Seq<Tree>, k: nat) -> Seq<char>
    decreases k,
{
    if k == 0 || k > forest.len() {
        Seq::empty()
    } else {
        forest_lines(forest, (k - 1) as nat) + tree_lines(forest[k - 1]) + "\n\n"@
    }
}

/// What rendering `input` gives: the message about the remainder where the
/// input is not used up, else the drawings of the trees, which are ordered as
/// the children of one root.
pub open spec fn spec_render(input: Seq<char>, g: Grammar, policy: OrderPolicy) -> Result<
    Seq<char>,
    Seq<char>,
> {
    let (rest, forest) = spec_parse(input, g);
    if rest.len() > 0 {
        Err(failure_text(debug_text(rest)))
    } else {
        let root = ordered(Tree { name: "ROOT"@, children: forest }, policy);
        Ok(forest_lines(root.children, root.children.len()))
    }
}

/// The drawings of the trees of a forest, a blank line after each.
pub fn render_forest(nodes: &Vec<Node>) -> (text: String)
    ensures
        text@ == forest_lines(forest_view(nodes@), nodes@.len()),
{
    let mut text = String::new();
    let mut i: usize = 0;
    while i < nodes.len()
        invariant
            i <= nodes.len(),
            text@ == forest_lines(forest_view(nodes@), i as nat),
        decreases nodes.len() - i,
    {
        let drawing = nodes[i].mock_display();
        text.append(drawing.as_str());
        text.append("\n\n");
        i += 1;
    }
    text
}

/// Parses `input`, orders the trees and draws them. Input that is not used up
/// is refused with a message that quotes what was left.
pub fn render_string(input: &str, parse_mode: ParseMode, order_mode: &OrderMode) -> (result:
    Result<String, String>)
    requires
        order_mode.is_supported(),
    ensures
        match result {
            Ok(text) => spec_render(input@, parse_mode@, order_mode.policy()) == Ok::<
                Seq<char>,
                Seq<char>,
            >(text@),
            Err(message) => spec_render(input@, parse_mode@, order_mode.policy()) == Err::<
                Seq<char>,
                Seq<char>,
            >(message@),
        },
{
    let nodes = match parse_forest(input, parse_mode) {
        Ok(nodes) => nodes,
        Err(e) => {
            let shown = quoted(e.remainder.as_str());
            return Err(failure_message(shown.as_str()));
        },
    };
    let mut parsed = Node::new(String::from_str("ROOT"), nodes);
    parsed.order_children(order_mode);
    let children = parsed.take_children();
    Ok(render_forest(&children))
}

} // verus!
