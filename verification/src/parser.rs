//! The structural parser: names, delimiters and brackets into a forest.

use crate::error::ConfigError;
use crate::text::{
    chars_of, find_token, first_at, has_at, lemma_first_at_least, skip_spaces, space_run,
    starts_at, string_of, trim_range, trimmed,
};
use crate::tree::{forest_view, Node, Tree};
use vstd::prelude::*;

verus! {

/// The two tokens that enclose a list of children.
#[derive(Debug, Clone)]
pub struct Brackets {
    pub open: String,
    pub close: String,
}

/// How raw text maps to tree structure.
#[derive(Debug, Clone)]
pub struct ParseMode {
    pub delimiter: String,
    pub brackets: Brackets,
    pub trim: bool,
}

/// A grammar as plain values.
pub ghost struct Grammar {
    pub delimiter: Seq<char>,
    pub open: Seq<char>,
    pub close: Seq<char>,
    pub trim: bool,
}

impl View for ParseMode {
    type V = Grammar;

    open spec fn view(&self) -> Grammar {
        Grammar {
            delimiter: self.delimiter@,
            open: self.brackets.open@,
            close: self.brackets.close@,
            trim: self.trim,
        }
    }
}

/// The tokens of a grammar as characters, ready for matching.
pub struct Tokens {
    pub delimiter: Vec<char>,
    pub open: Vec<char>,
    pub close: Vec<char>,
    pub trim: bool,
}

impl View for Tokens {
    type V = Grammar;

    open spec fn view(&self) -> Grammar {
        Grammar {
            delimiter: self.delimiter@,
            open: self.open@,
            close: self.close@,
            trim: self.trim,
        }
    }
}

/// The two halves of a bracket string, split by the number of characters (the
/// closing half takes the odd one) and trimmed.
pub open spec fn bracket_halves(text: Seq<char>) -> (Seq<char>, Seq<char>) {
    let half = text.len() / 2;
    (trimmed(text.subrange(0, half as int)), trimmed(text.subrange(half as int, text.len() as int)))
}

impl Brackets {
    /// Reads a bracket string. Fewer than two characters are refused.
    pub fn parse(text: &str) -> (result: Result<Brackets, ConfigError>)
        ensures
            text@.len() < 2 ==> result == Err::<Brackets, ConfigError>(
                ConfigError::BracketsTooShort,
            ),
            text@.len() >= 2 ==> result is Ok && result->Ok_0.open@ == bracket_halves(text@).0
                && result->Ok_0.close@ == bracket_halves(text@).1,
    {
        let chars = chars_of(text);
        let half: usize = chars.len() / 2;
        if half == 0 {
            return Err(ConfigError::BracketsTooShort);
        }
        let (a, b) = trim_range(&chars, 0, half);
        let (c, d) = trim_range(&chars, half, chars.len());
        Ok(Brackets { open: string_of(&chars, a, b), close: string_of(&chars, c, d) })
    }
}

impl ParseMode {
    /// A grammar from its delimiter, its brackets and the choice to trim names.
    pub fn new(delimiter: String, brackets: Brackets, trim: bool) -> (mode: ParseMode)
        ensures
            mode.delimiter == delimiter,
            mode.brackets == brackets,
            mode.trim == trim,
    {
        ParseMode { delimiter, brackets, trim }
    }

    /// The three tokens in a row: delimiter, opening bracket, closing bracket.
    pub fn to_string(&self) -> (text: String)
        ensures
            text@ == self.delimiter@ + self.brackets.open@ + self.brackets.close@,
    {
        let mut text = self.delimiter.clone();
        text.append(self.brackets.open.as_str());
        text.append(self.brackets.close.as_str());
        text
    }

    /// The tokens of the grammar as characters.
    pub fn tokens(&self) -> (tokens: Tokens)
        ensures
            tokens@ == self@,
    {
        Tokens {
            delimiter: chars_of(self.delimiter.as_str()),
            open: chars_of(self.brackets.open.as_str()),
            close: chars_of(self.brackets.close.as_str()),
            trim: self.trim,
        }
    }
}

/// Where parsing stopped and what was left there.
#[derive(Debug, Clone)]
pub struct ParseError {
    /// The number of characters that were consumed.
    pub position: usize,
    /// The text that was not consumed.
    pub remainder: String,
}

/// The place after a token that stands at `pos` behind any run of white space.
pub open spec fn match_token(s: Seq<char>, pos: int, tok: Seq<char>) -> Option<int> {
    let start = pos + space_run(s, pos);
    if has_at(s, start, tok) {
        Some(start + tok.len())
    } else {
        None
    }
}

/// The end of the name that starts at `pos`: the first place where any of the
/// three tokens stands, or the end of the text.
pub open spec fn name_end(s: Seq<char>, pos: int, g: Grammar) -> int {
    let d = first_at(s, pos, g.delimiter);
    let o = first_at(s, pos, g.open);
    let c = first_at(s, pos, g.close);
    if d <= o && d <= c {
        d
    } else if o <= c {
        o
    } else {
        c
    }
}

/// The name of a node as it is kept: trimmed where the grammar says so.
pub open spec fn kept_name(raw: Seq<char>, trim: bool) -> Seq<char> {
    if trim {
        trimmed(raw)
    } else {
        raw
    }
}

/// One node at `pos`: a name that is not empty, then its bracketed children
/// where they follow. Gives the node and the place behind it.
pub open spec fn spec_node(s: Seq<char>, pos: int, g: Grammar) -> Option<(Tree, int)>
    decreases s.len() - pos, 0nat,
{
    let end = name_end(s, pos, g);
    if 0 <= pos < end <= s.len() {
        let name = kept_name(s.subrange(pos, end), g.trim);
        match spec_bracketed(s, end, g) {
            Some((children, after)) => Some((Tree { name, children }, after)),
            None => Some((Tree { name, children: Seq::empty() }, end)),
        }
    } else {
        None
    }
}

/// A bracketed list at `pos`: the opening token, a list, the closing token.
pub open spec fn spec_bracketed(s: Seq<char>, pos: int, g: Grammar) -> Option<(Seq<Tree>, int)>
    decreases s.len() - pos, 3nat,
{
    match match_token(s, pos, g.open) {
        Some(inner) => {
            let (children, end) = spec_list(s, inner, g);
            match match_token(s, end, g.close) {
                Some(after) => Some((children, after)),
                None => None,
            }
        },
        None => None,
    }
}

/// A list at `pos`: nodes with the delimiter between them, as many as there are.
/// A node always ends behind its start and inside the text
/// (`lemma_parse_bounds`), so the test on `after` holds wherever a node is found.
pub open spec fn spec_list(s: Seq<char>, pos: int, g: Grammar) -> (Seq<Tree>, int)
    decreases s.len() - pos, 2nat,
{
    match spec_node(s, pos, g) {
        Some((first, after)) if pos < after <= s.len() => {
            let (more, end) = spec_list_tail(s, after, g);
            (seq![first] + more, end)
        },
        _ => (Seq::empty(), pos),
    }
}

/// What follows a node of a list: a delimiter and a node, as often as both are
/// there. A delimiter that no node follows is not consumed.
pub open spec fn spec_list_tail(s: Seq<char>, pos: int, g: Grammar) -> (Seq<Tree>, int)
    decreases s.len() - pos, 1nat,
{
    match match_token(s, pos, g.delimiter) {
        Some(start) => match spec_node(s, start, g) {
            Some((next, after)) if start < after <= s.len() => {
                let (more, end) = spec_list_tail(s, after, g);
                (seq![next] + more, end)
            },
            _ => (Seq::empty(), pos),
        },
        None => (Seq::empty(), pos),
    }
}

/// The list that the whole of `s` starts with, and the text that it leaves.
pub open spec fn spec_parse(s: Seq<char>, g: Grammar) -> (Seq<char>, Seq<Tree>) {
    let (forest, end) = spec_list(s, 0, g);
    (s.subrange(end, s.len() as int), forest)
}

/// A name is as short as it can be: no token stands before its end, and at
/// its end a token stands or the text is over.
pub proof fn lemma_name_end_least(s: Seq<char>, pos: int, g: Grammar)
    requires
        0 <= pos <= s.len(),
    ensures
        pos <= name_end(s, pos, g) <= s.len(),
        forall|i: int|
            pos <= i < name_end(s, pos, g) ==> !has_at(s, i, g.delimiter) && !has_at(s, i, g.open)
                && !has_at(s, i, g.close),
        name_end(s, pos, g) < s.len() ==> has_at(s, name_end(s, pos, g), g.delimiter) || has_at(
            s,
            name_end(s, pos, g),
            g.open,
        ) || has_at(s, name_end(s, pos, g), g.close),
{
    lemma_first_at_least(s, pos, g.delimiter);
    lemma_first_at_least(s, pos, g.open);
    lemma_first_at_least(s, pos, g.close);
}

/// The places that the grammar's functions give lie inside the text, and a node
/// is never empty.
pub proof fn lemma_parse_bounds(s: Seq<char>, pos: int, g: Grammar)
    requires
        0 <= pos <= s.len(),
    ensures
        pos <= name_end(s, pos, g) <= s.len(),
        spec_node(s, pos, g) matches Some((_, after)) ==> pos < after <= s.len(),
        spec_bracketed(s, pos, g) matches Some((_, after)) ==> pos <= after <= s.len(),
        pos <= spec_list(s, pos, g).1 <= s.len(),
        pos <= spec_list_tail(s, pos, g).1 <= s.len(),
{
    lemma_first_at_least(s, pos, g.delimiter);
    lemma_first_at_least(s, pos, g.open);
    lemma_first_at_least(s, pos, g.close);
    lemma_node_bounds(s, pos, g);
    lemma_bracketed_bounds(s, pos, g);
    lemma_list_bounds(s, pos, g);
    lemma_tail_bounds(s, pos, g);
}

proof fn lemma_list_bounds(s: Seq<char>, pos: int, g: Grammar)
    requires
        0 <= pos <= s.len(),
    ensures
        pos <= spec_list(s, pos, g).1 <= s.len(),
    decreases s.len() - pos, 2nat,
{
    lemma_node_bounds(s, pos, g);
    match spec_node(s, pos, g) {
        Some((_, after)) => {
            lemma_tail_bounds(s, after, g);
        },
        None => {},
    }
}

proof fn lemma_bracketed_bounds(s: Seq<char>, pos: int, g: Grammar)
    requires
        0 <= pos <= s.len(),
    ensures
        spec_bracketed(s, pos, g) matches Some((_, after)) ==> pos <= after <= s.len(),
    decreases s.len() - pos, 3nat,
{
    match match_token(s, pos, g.open) {
        Some(inner) => {
            lemma_list_bounds(s, inner, g);
        },
        None => {},
    }
}

proof fn lemma_tail_bounds(s: Seq<char>, pos: int, g: Grammar)
    requires
        0 <= pos <= s.len(),
    ensures
        pos <= spec_list_tail(s, pos, g).1 <= s.len(),
    decreases s.len() - pos, 1nat,
{
    match match_token(s, pos, g.delimiter) {
        Some(start) => {
            lemma_node_bounds(s, start, g);
            match spec_node(s, start, g) {
                Some((_, after)) => {
                    lemma_tail_bounds(s, after, g);
                },
                None => {},
            }
        },
        None => {},
    }
}

proof fn lemma_node_bounds(s: Seq<char>, pos: int, g: Grammar)
    requires
        0 <= pos <= s.len(),
    ensures
        spec_node(s, pos, g) matches Some((_, after)) ==> pos < after <= s.len(),
    decreases s.len() - pos, 0nat,
{
    lemma_first_at_least(s, pos, g.delimiter);
    lemma_first_at_least(s, pos, g.open);
    lemma_first_at_least(s, pos, g.close);
    let end = name_end(s, pos, g);
    if pos < end {
        lemma_bracketed_bounds(s, end, g);
    }
}

/// Matches `tok` at `pos` behind any run of white space.
fn wtag(text: &Vec<char>, pos: usize, tok: &Vec<char>) -> (after: Option<usize>)
    requires
        pos <= text.len(),
    ensures
        match after {
            Some(p) => match_token(text@, pos as int, tok@) == Some(p as int) && pos <= p
                <= text.len(),
            None => match_token(text@, pos as int, tok@) is None,
        },
{
    let start = skip_spaces(text, pos);
    if starts_at(text, start, tok) {
        Some(start + tok.len())
    } else {
        None
    }
}

/// The end of the name that starts at `pos`.
fn name_bound(text: &Vec<char>, pos: usize, tokens: &Tokens) -> (end: usize)
    requires
        pos <= text.len(),
    ensures
        end == name_end(text@, pos as int, tokens@),
        pos <= end <= text.len(),
{
    let d = find_token(text, pos, &tokens.delimiter);
    let o = find_token(text, pos, &tokens.open);
    let c = find_token(text, pos, &tokens.close);
    if d <= o && d <= c {
        d
    } else if o <= c {
        o
    } else {
        c
    }
}

/// The node whose raw name is `text[from..to]`, with the children given or none.
fn make_node(
    text: &Vec<char>,
    from: usize,
    to: usize,
    trim: bool,
    children: Option<Vec<Node>>,
) -> (node: Node)
    requires
        from <= to <= text.len(),
    ensures
        node@.name == kept_name(text@.subrange(from as int, to as int), trim),
        node@.children == match children {
            Some(c) => forest_view(c@),
            None => Seq::<Tree>::empty(),
        },
{
    let name = if trim {
        let (a, b) = trim_range(text, from, to);
        string_of(text, a, b)
    } else {
        string_of(text, from, to)
    };
    let children = match children {
        Some(c) => c,
        None => Vec::new(),
    };
    proof {
        assert(forest_view(Seq::<Node>::empty()) =~= Seq::<Tree>::empty());
    }
    Node::new(name, children)
}

/// The node for a raw name and what was found in its brackets: the name is
/// trimmed where the grammar says so, and no brackets mean no children.
pub fn map_node(mode: &ParseMode, name: &str, children: Option<Vec<Node>>) -> (node: Node)
    ensures
        node@.name == kept_name(name@, mode.trim),
        node@.children == match children {
            Some(c) => forest_view(c@),
            None => Seq::<Tree>::empty(),
        },
{
    let chars = chars_of(name);
    proof {
        assert(chars@.subrange(0, chars@.len() as int) =~= name@);
    }
    make_node(&chars, 0, chars.len(), mode.trim, children)
}

/// One node at `pos`.
fn single_node(text: &Vec<char>, pos: usize, tokens: &Tokens) -> (found: Option<(Node, usize)>)
    requires
        pos <= text.len(),
    ensures
        match spec_node(text@, pos as int, tokens@) {
            Some((tree, after)) => found matches Some((node, end)) && node@ == tree && end
                == after && pos < after <= text.len(),
            None => found is None,
        },
    decreases text.len() - pos, 0nat,
{
    let end = name_bound(text, pos, tokens);
    if end <= pos {
        return None;
    }
    match bracketed(text, end, tokens) {
        Some((children, after)) => Some(
            (make_node(text, pos, end, tokens.trim, Some(children)), after),
        ),
        None => Some((make_node(text, pos, end, tokens.trim, None), end)),
    }
}

/// A bracketed list at `pos`.
fn bracketed(text: &Vec<char>, pos: usize, tokens: &Tokens) -> (found: Option<(Vec<Node>, usize)>)
    requires
        pos <= text.len(),
    ensures
        match spec_bracketed(text@, pos as int, tokens@) {
            Some((forest, after)) => found matches Some((nodes, end)) && forest_view(nodes@)
                == forest && end == after && pos <= after <= text.len(),
            None => found is None,
        },
    decreases text.len() - pos, 3nat,
{
    let inner = match wtag(text, pos, &tokens.open) {
        Some(inner) => inner,
        None => {
            return None;
        },
    };
    let (children, end) = node_list(text, inner, tokens);
    match wtag(text, end, &tokens.close) {
        Some(after) => Some((children, after)),
        None => None,
    }
}

/// A list at `pos`.
fn node_list(text: &Vec<char>, pos: usize, tokens: &Tokens) -> (found: (Vec<Node>, usize))
    requires
        pos <= text.len(),
    ensures
        forest_view(found.0@) == spec_list(text@, pos as int, tokens@).0,
        found.1 == spec_list(text@, pos as int, tokens@).1,
        pos <= found.1 <= text.len(),
    decreases text.len() - pos, 2nat,
{
    let mut nodes: Vec<Node> = Vec::new();
    let mut cur: usize = pos;
    match single_node(text, pos, tokens) {
        Some((first, after)) => {
            nodes.push(first);
            cur = after;
            proof {
                assert(forest_view(nodes@) =~= seq![first@]);
            }
        },
        None => {
            proof {
                assert(forest_view(nodes@) =~= Seq::<Tree>::empty());
            }
            return (nodes, pos);
        },
    }
    loop
        invariant
            pos < cur <= text.len(),
            spec_list(text@, pos as int, tokens@).0 == forest_view(nodes@) + spec_list_tail(
                text@,
                cur as int,
                tokens@,
            ).0,
            spec_list(text@, pos as int, tokens@).1 == spec_list_tail(
                text@,
                cur as int,
                tokens@,
            ).1,
        decreases text.len() - cur,
    {
        let start = match wtag(text, cur, &tokens.delimiter) {
            Some(start) => start,
            None => {
                proof {
                    assert(forest_view(nodes@) + Seq::<Tree>::empty() =~= forest_view(nodes@));
                }
                return (nodes, cur);
            },
        };
        match single_node(text, start, tokens) {
            Some((next, after)) => {
                let ghost before = forest_view(nodes@);
                let ghost more = spec_list_tail(text@, after as int, tokens@).0;
                nodes.push(next);
                proof {
                    assert(forest_view(nodes@) =~= before + seq![next@]);
                    assert(before + (seq![next@] + more) =~= (before + seq![next@]) + more);
                }
                cur = after;
            },
            None => {
                proof {
                    assert(forest_view(nodes@) + Seq::<Tree>::empty() =~= forest_view(nodes@));
                }
                return (nodes, cur);
            },
        }
    }
}

/// Parses the list of nodes that `input` starts with. Gives the text that the
/// list leaves unread, which is empty where the whole input is a list, and the
/// nodes of the list.
pub fn parse_nodes(input: &str, mode: ParseMode) -> (parsed: (String, Vec<Node>))
    ensures
        parsed.0@ == spec_parse(input@, mode@).0,
        forest_view(parsed.1@) == spec_parse(input@, mode@).1,
{
    let text = chars_of(input);
    let tokens = mode.tokens();
    let (nodes, end) = node_list(&text, 0, &tokens);
    (string_of(&text, end, text.len()), nodes)
}

/// Parses the whole of `input` as a list of nodes. Input that the list does not
/// use up is refused, with the place where the list ended and the text from
/// there on.
pub fn parse_forest(input: &str, mode: ParseMode) -> (result: Result<Vec<Node>, ParseError>)
    ensures
        match result {
            Ok(nodes) => spec_parse(input@, mode@).0.len() == 0 && forest_view(nodes@)
                == spec_parse(input@, mode@).1,
            Err(e) => spec_parse(input@, mode@).0.len() > 0 && e.remainder@ == spec_parse(
                input@,
                mode@,
            ).0 && e.position == input@.len() - e.remainder@.len(),
        },
{
    let text = chars_of(input);
    let tokens = mode.tokens();
    let (nodes, end) = node_list(&text, 0, &tokens);
    if end == text.len() {
        Ok(nodes)
    } else {
        Err(ParseError { position: end, remainder: string_of(&text, end, text.len()) })
    }
}

/// Splits the name that `input` starts with from the rest. The name ends where
/// the first token stands, whichever it is; an empty name is refused.
pub fn node_name(input: &str, mode: &ParseMode) -> (result: Result<(String, String), ParseError>)
    ensures
        match result {
            Ok((rest, name)) => name_end(input@, 0, mode@) > 0 && name@ == input@.subrange(
                0,
                name_end(input@, 0, mode@),
            ) && rest@ == input@.subrange(name_end(input@, 0, mode@), input@.len() as int),
            Err(e) => name_end(input@, 0, mode@) == 0 && e.position == 0 && e.remainder@
                == input@,
        },
{
    let text = chars_of(input);
    let tokens = mode.tokens();
    let end = name_bound(&text, 0, &tokens);
    if end > 0 {
        Ok((string_of(&text, end, text.len()), string_of(&text, 0, end)))
    } else {
        proof {
            assert(text@.subrange(0, text@.len() as int) =~= input@);
        }
        Err(ParseError { position: 0, remainder: string_of(&text, 0, text.len()) })
    }
}

} // verus!
