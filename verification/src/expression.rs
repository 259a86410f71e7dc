//! The expression form of a tree, and that parsing it gives the tree back.

use crate::parser::{
    kept_name, match_token, name_end, spec_list, spec_list_tail, spec_node, spec_parse, Grammar,
};
use crate::text::{
    first_at, has_at, is_space, lemma_first_at_least, space_run, trim_end, trim_start,
};
use crate::tree::Tree;
use vstd::prelude::*;

verus! {

/// A tree written as an expression: its name, and where it has children their
/// list between the brackets.
pub open spec fn expression_of(tree: Tree, g: Grammar) -> Seq<char>
    decreases tree, 0nat,
{
    if tree.children.len() == 0 {
        tree.name
    } else {
        tree.name + g.open + list_expression(tree.children, g) + g.close
    }
}

/// The trees of `forest` from `from` on, each behind a delimiter.
pub open spec fn tail_expression(forest: Seq<Tree>, from: nat, g: Grammar) -> Seq<char>
    decreases forest, forest.len() - from,
{
    if from >= forest.len() {
        Seq::empty()
    } else {
        g.delimiter + expression_of(forest[from as int], g) + tail_expression(forest, from + 1, g)
    }
}

/// A forest written as a list: its trees with the delimiter between them.
pub open spec fn list_expression(forest: Seq<Tree>, g: Grammar) -> Seq<char>
    decreases forest, forest.len() + 1,
{
    if forest.len() == 0 {
        Seq::empty()
    } else {
        expression_of(forest[0], g) + tail_expression(forest, 1, g)
    }
}

/// Whether one of two texts starts with the other, so that both can stand at
/// one place.
pub open spec fn overlap(a: Seq<char>, b: Seq<char>) -> bool {
    a.is_prefix_of(b) || b.is_prefix_of(a)
}

/// Whether `tok` could start somewhere inside `name`, whatever follows the name:
/// `tok` stands in `name`, or `name` ends with a start of `tok`.
pub open spec fn reaches_into(tok: Seq<char>, name: Seq<char>) -> bool {
    exists|k: int| 0 <= k < name.len() && overlap(#[trigger] name.skip(k), tok)
}

/// A grammar whose tokens cannot be mistaken for each other or for white
/// space: none is empty, none starts with white space, and none starts with
/// another.
pub open spec fn plain_grammar(g: Grammar) -> bool {
    &&& g.delimiter.len() > 0
    &&& g.open.len() > 0
    &&& g.close.len() > 0
    &&& !overlap(g.delimiter, g.open)
    &&& !overlap(g.delimiter, g.close)
    &&& !overlap(g.open, g.close)
    &&& !is_space(g.delimiter[0])
    &&& !is_space(g.open[0])
    &&& !is_space(g.close[0])
}

/// A name that the grammar reads back as it is: it is not empty, no token
/// stands in it or starts at its end, and where names are trimmed it neither
/// starts nor ends with white space.
pub open spec fn plain_name(name: Seq<char>, g: Grammar) -> bool {
    &&& name.len() > 0
    &&& !reaches_into(g.delimiter, name)
    &&& !reaches_into(g.open, name)
    &&& !reaches_into(g.close, name)
    &&& g.trim ==> !is_space(name[0]) && !is_space(name[name.len() - 1])
}

/// A tree all of whose names are plain.
pub open spec fn plain_tree(tree: Tree, g: Grammar) -> bool
    decreases tree,
{
    &&& plain_name(tree.name, g)
    &&& forall|i: int|
        0 <= i < tree.children.len() ==> plain_tree(#[trigger] tree.children[i], g)
}

/// What may follow a list: the end of the text or the closing bracket.
pub open spec fn list_ends(s: Seq<char>, pos: int, g: Grammar) -> bool {
    pos == s.len() || has_at(s, pos, g.close)
}

/// What may follow a node: a delimiter, or what may follow a list.
pub open spec fn node_ends(s: Seq<char>, pos: int, g: Grammar) -> bool {
    list_ends(s, pos, g) || has_at(s, pos, g.delimiter)
}

proof fn lemma_has_at_concat(s: Seq<char>, pos: int, a: Seq<char>, b: Seq<char>)
    requires
        has_at(s, pos, a + b),
    ensures
        has_at(s, pos, a),
        has_at(s, pos + a.len(), b),
{
    let whole = s.subrange(pos, pos + (a + b).len());
    assert(s.subrange(pos, pos + a.len()) =~= whole.subrange(0, a.len() as int));
    assert((a + b).subrange(0, a.len() as int) =~= a);
    assert(s.subrange(pos + a.len(), pos + a.len() + b.len()) =~= whole.subrange(
        a.len() as int,
        (a + b).len() as int,
    ));
    assert((a + b).subrange(a.len() as int, (a + b).len() as int) =~= b);
}

proof fn lemma_has_at_first(s: Seq<char>, pos: int, tok: Seq<char>)
    requires
        has_at(s, pos, tok),
        tok.len() > 0,
    ensures
        pos < s.len(),
        s[pos] == tok[0],
{
    assert(s.subrange(pos, pos + tok.len())[0] == s[pos]);
}

proof fn lemma_same_place(s: Seq<char>, pos: int, a: Seq<char>, b: Seq<char>)
    requires
        has_at(s, pos, a),
        has_at(s, pos, b),
    ensures
        overlap(a, b),
{
    let x = s.subrange(pos, pos + a.len());
    let y = s.subrange(pos, pos + b.len());
    if a.len() <= b.len() {
        assert(y.subrange(0, a.len() as int) =~= x);
    } else {
        assert(x.subrange(0, b.len() as int) =~= y);
    }
}

proof fn lemma_first_at_behind(s: Seq<char>, pos: int, end: int, tok: Seq<char>)
    requires
        0 <= pos <= end <= s.len(),
        forall|i: int| pos <= i < end ==> !has_at(s, i, tok),
    ensures
        first_at(s, pos, tok) == first_at(s, end, tok),
    decreases end - pos,
{
    if pos < end {
        lemma_first_at_behind(s, pos + 1, end, tok);
    }
}

proof fn lemma_first_at_here(s: Seq<char>, pos: int, tok: Seq<char>)
    requires
        0 <= pos <= s.len(),
    ensures
        has_at(s, pos, tok) || pos == s.len() ==> first_at(s, pos, tok) == pos,
        first_at(s, pos, tok) >= pos,
{
    lemma_first_at_least(s, pos, tok);
}

proof fn lemma_not_inside(s: Seq<char>, pos: int, name: Seq<char>, tok: Seq<char>)
    requires
        has_at(s, pos, name),
        !reaches_into(tok, name),
    ensures
        forall|i: int| pos <= i < pos + name.len() ==> !has_at(s, i, tok),
{
    assert forall|i: int| pos <= i < pos + name.len() implies !has_at(s, i, tok) by {
        if has_at(s, i, tok) {
            let rest = name.skip(i - pos);
            assert(s.subrange(i, i + rest.len()) =~= rest);
            lemma_same_place(s, i, rest, tok);
        }
    }
}

/// A plain name ends where the text behind it says so: at a token or at the
/// end of the text.
proof fn lemma_plain_name_end(s: Seq<char>, pos: int, name: Seq<char>, g: Grammar)
    requires
        plain_grammar(g),
        plain_name(name, g),
        has_at(s, pos, name),
        node_ends(s, pos + name.len(), g) || has_at(s, pos + name.len(), g.open),
    ensures
        name_end(s, pos, g) == pos + name.len(),
        kept_name(s.subrange(pos, pos + name.len()), g.trim) == name,
{
    let end = pos + name.len();
    lemma_not_inside(s, pos, name, g.delimiter);
    lemma_not_inside(s, pos, name, g.open);
    lemma_not_inside(s, pos, name, g.close);
    lemma_first_at_behind(s, pos, end, g.delimiter);
    lemma_first_at_behind(s, pos, end, g.open);
    lemma_first_at_behind(s, pos, end, g.close);
    lemma_first_at_here(s, end, g.delimiter);
    lemma_first_at_here(s, end, g.open);
    lemma_first_at_here(s, end, g.close);
    if g.trim {
        assert(trim_start(name) == name);
        assert(trim_end(name) == name);
    }
}

proof fn lemma_no_token_here(s: Seq<char>, pos: int, here: Seq<char>, tok: Seq<char>)
    requires
        0 <= pos <= s.len(),
        tok.len() > 0,
        pos == s.len() || (has_at(s, pos, here) && here.len() > 0 && !overlap(here, tok)
            && !is_space(here[0])),
    ensures
        match_token(s, pos, tok) is None,
{
    if pos < s.len() {
        lemma_has_at_first(s, pos, here);
        assert(space_run(s, pos) == 0);
        if has_at(s, pos, tok) {
            lemma_same_place(s, pos, here, tok);
        }
    } else {
        assert(space_run(s, pos) == 0);
    }
}

proof fn lemma_token_here(s: Seq<char>, pos: int, tok: Seq<char>)
    requires
        has_at(s, pos, tok),
        tok.len() > 0,
        !is_space(tok[0]),
    ensures
        match_token(s, pos, tok) == Some(pos + tok.len()),
{
    lemma_has_at_first(s, pos, tok);
    assert(space_run(s, pos) == 0);
}

proof fn lemma_node_of_expression(s: Seq<char>, pos: int, tree: Tree, g: Grammar)
    requires
        plain_grammar(g),
        plain_tree(tree, g),
        has_at(s, pos, expression_of(tree, g)),
        node_ends(s, pos + expression_of(tree, g).len(), g),
    ensures
        spec_node(s, pos, g) == Some((tree, pos + expression_of(tree, g).len())),
        expression_of(tree, g).len() > 0,
    decreases tree, 0nat,
{
    let name = tree.name;
    let end = pos + name.len();
    if tree.children.len() == 0 {
        lemma_plain_name_end(s, pos, name, g);
        if end < s.len() && !has_at(s, end, g.close) {
            lemma_no_token_here(s, end, g.delimiter, g.open);
        } else {
            lemma_no_token_here(s, end, g.close, g.open);
        }
        assert(tree.children =~= Seq::<Tree>::empty());
    } else {
        let list = list_expression(tree.children, g);
        lemma_has_at_concat(s, pos, name + g.open + list, g.close);
        lemma_has_at_concat(s, pos, name + g.open, list);
        lemma_has_at_concat(s, pos, name, g.open);
        lemma_plain_name_end(s, pos, name, g);
        lemma_token_here(s, end, g.open);
        let inner = end + g.open.len();
        lemma_list_of_expression(s, inner, tree.children, g);
        lemma_token_here(s, inner + list.len(), g.close);
    }
}

proof fn lemma_list_of_expression(s: Seq<char>, pos: int, forest: Seq<Tree>, g: Grammar)
    requires
        plain_grammar(g),
        forest.len() > 0,
        forall|i: int| 0 <= i < forest.len() ==> plain_tree(#[trigger] forest[i], g),
        has_at(s, pos, list_expression(forest, g)),
        list_ends(s, pos + list_expression(forest, g).len(), g),
    ensures
        spec_list(s, pos, g) == (forest, pos + list_expression(forest, g).len()),
    decreases forest, forest.len() + 1,
{
    let first = expression_of(forest[0], g);
    let tail = tail_expression(forest, 1, g);
    lemma_has_at_concat(s, pos, first, tail);
    let after = pos + first.len();
    if forest.len() > 1 {
        lemma_has_at_concat(
            s,
            after,
            g.delimiter + expression_of(forest[1], g),
            tail_expression(forest, 2, g),
        );
        lemma_has_at_concat(s, after, g.delimiter, expression_of(forest[1], g));
    } else {
        assert(tail_expression(forest, 2, g).len() == 0);
    }
    lemma_node_of_expression(s, pos, forest[0], g);
    lemma_tail_of_expression(s, after, forest, 1, g);
    assert(seq![forest[0]] + forest.skip(1) =~= forest);
}

proof fn lemma_tail_of_expression(s: Seq<char>, pos: int, forest: Seq<Tree>, from: nat, g: Grammar)
    requires
        plain_grammar(g),
        from <= forest.len(),
        forall|i: int| 0 <= i < forest.len() ==> plain_tree(#[trigger] forest[i], g),
        has_at(s, pos, tail_expression(forest, from, g)),
        list_ends(s, pos + tail_expression(forest, from, g).len(), g),
    ensures
        spec_list_tail(s, pos, g) == (forest.skip(from as int), pos + tail_expression(
            forest,
            from,
            g,
        ).len()),
    decreases forest, forest.len() - from,
{
    if from >= forest.len() {
        lemma_no_token_here(s, pos, g.close, g.delimiter);
        assert(forest.skip(from as int) =~= Seq::<Tree>::empty());
    } else {
        let tree = forest[from as int];
        let here = expression_of(tree, g);
        let rest = tail_expression(forest, from + 1, g);
        lemma_has_at_concat(s, pos, g.delimiter + here, rest);
        lemma_has_at_concat(s, pos, g.delimiter, here);
        lemma_token_here(s, pos, g.delimiter);
        let start = pos + g.delimiter.len();
        let after = start + here.len();
        if from + 1 < forest.len() {
            lemma_has_at_concat(
                s,
                after,
                g.delimiter + expression_of(forest[from as int + 1], g),
                tail_expression(forest, from + 2, g),
            );
            lemma_has_at_concat(s, after, g.delimiter, expression_of(forest[from as int + 1], g));
        } else {
            assert(rest.len() == 0);
        }
        lemma_node_of_expression(s, start, tree, g);
        lemma_tail_of_expression(s, after, forest, from + 1, g);
        assert(seq![tree] + forest.skip(from as int + 1) =~= forest.skip(from as int));
    }
}

/// Parsing the expression form of a forest gives the forest back and leaves
/// nothing unread, for a plain grammar and trees with plain names.
pub proof fn lemma_parse_of_expression(forest: Seq<Tree>, g: Grammar)
    requires
        plain_grammar(g),
        forall|i: int| 0 <= i < forest.len() ==> plain_tree(#[trigger] forest[i], g),
    ensures
        spec_parse(list_expression(forest, g), g) == (Seq::<char>::empty(), forest),
{
    let s = list_expression(forest, g);
    if forest.len() == 0 {
        assert(spec_node(s, 0, g) is None);
        assert(forest =~= Seq::<Tree>::empty());
        assert(s.subrange(0, 0) =~= Seq::<char>::empty());
    } else {
        assert(s.subrange(0, s.len() as int) =~= s);
        lemma_list_of_expression(s, 0, forest, g);
        assert(s.subrange(s.len() as int, s.len() as int) =~= Seq::<char>::empty());
    }
}

} // verus!
