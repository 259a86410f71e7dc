//! Character-level helpers shared by the parser and the renderer.

use vstd::prelude::*;

verus! {

/// Whether a character counts as white space (the Unicode `White_Space` property).
pub uninterp spec fn is_space(c: char) -> bool;

/// `char::is_whitespace` of the standard library. Assumed, not proved: the
/// answer depends on the character alone. The contract gives it the name
/// `is_space` and says no more of it.
pub assume_specification[ char::is_whitespace ](c: char) -> (r: bool)
    ensures
        r == is_space(c),
;

/// `String::push` of the standard library. Assumed, not proved: the string
/// afterwards is the string before with the character appended.
pub assume_specification[ String::push ](s: &mut String, c: char)
    ensures
        final(s)@ == old(s)@.push(c),
;

/// The characters of a string slice, in order.
pub fn chars_of(s: &str) -> (v: Vec<char>)
    ensures
        v@ == s@,
{
    let mut v: Vec<char> = Vec::new();
    for c in it: s.chars()
        invariant
            v@ == it.seq().take(it.index() as int),
            it.seq() == s@,
    {
        v.push(c);
    }
    v
}

/// The string made of the characters `v[from..to]`.
pub fn string_of(v: &Vec<char>, from: usize, to: usize) -> (s: String)
    requires
        from <= to <= v.len(),
    ensures
        s@ == v@.subrange(from as int, to as int),
{
    let mut s = String::new();
    let mut i: usize = from;
    while i < to
        invariant
            from <= i <= to <= v.len(),
            s@ == v@.subrange(from as int, i as int),
        decreases to - i,
    {
        s.push(v[i]);
        i += 1;
    }
    s
}

/// The number of white-space characters that stand in a row from `pos` on.
pub open spec fn space_run(s: Seq<char>, pos: int) -> nat
    decreases s.len() - pos,
{
    if 0 <= pos < s.len() && is_space(s[pos]) {
        1 + space_run(s, pos + 1)
    } else {
        0
    }
}

/// `s` without the white space at its start.
pub open spec fn trim_start(s: Seq<char>) -> Seq<char>
    decreases s.len(),
{
    if s.len() > 0 && is_space(s[0]) {
        trim_start(s.subrange(1, s.len() as int))
    } else {
        s
    }
}

/// `s` without the white space at its end.
pub open spec fn trim_end(s: Seq<char>) -> Seq<char>
    decreases s.len(),
{
    if s.len() > 0 && is_space(s[s.len() - 1]) {
        trim_end(s.subrange(0, s.len() - 1))
    } else {
        s
    }
}

/// `s` without the white space at either end.
pub open spec fn trimmed(s: Seq<char>) -> Seq<char> {
    trim_end(trim_start(s))
}

/// Whether `tok` stands in `s` at `pos`.
pub open spec fn has_at(s: Seq<char>, pos: int, tok: Seq<char>) -> bool {
    0 <= pos && pos + tok.len() <= s.len() && s.subrange(pos, pos + tok.len()) == tok
}

/// The first place at or after `pos` where `tok` stands in `s`, or the length of
/// `s` where it stands nowhere.
pub open spec fn first_at(s: Seq<char>, pos: int, tok: Seq<char>) -> int
    decreases s.len() - pos,
{
    if pos >= s.len() {
        s.len() as int
    } else if has_at(s, pos, tok) {
        pos
    } else {
        first_at(s, pos + 1, tok)
    }
}

/// `first_at` is the least place where the token stands: it stands nowhere
/// before, and it stands there unless the text has run out.
pub proof fn lemma_first_at_least(s: Seq<char>, pos: int, tok: Seq<char>)
    requires
        0 <= pos <= s.len(),
    ensures
        pos <= first_at(s, pos, tok) <= s.len(),
        forall|i: int| pos <= i < first_at(s, pos, tok) ==> !has_at(s, i, tok),
        first_at(s, pos, tok) < s.len() ==> has_at(s, first_at(s, pos, tok), tok),
    decreases s.len() - pos,
{
    if pos < s.len() && !has_at(s, pos, tok) {
        lemma_first_at_least(s, pos + 1, tok);
    }
}

/// The end of the white space that starts at `pos`.
pub fn skip_spaces(text: &Vec<char>, pos: usize) -> (end: usize)
    requires
        pos <= text.len(),
    ensures
        end == pos + space_run(text@, pos as int),
        end <= text.len(),
{
    let mut end: usize = pos;
    while end < text.len() && text[end].is_whitespace()
        invariant
            pos <= end <= text.len(),
            pos + space_run(text@, pos as int) == end + space_run(text@, end as int),
        decreases text.len() - end,
    {
        end += 1;
    }
    end
}

/// Whether `tok` stands in `text` at `pos`.
pub fn starts_at(text: &Vec<char>, pos: usize, tok: &Vec<char>) -> (found: bool)
    requires
        pos <= text.len(),
    ensures
        found == has_at(text@, pos as int, tok@),
{
    if tok.len() > text.len() - pos {
        return false;
    }
    let mut k: usize = 0;
    while k < tok.len()
        invariant
            pos + tok.len() <= text.len(),
            k <= tok.len(),
            forall|j: int| 0 <= j < k ==> text@[pos + j] == tok@[j],
        decreases tok.len() - k,
    {
        if text[pos + k] != tok[k] {
            proof {
                assert(text@.subrange(pos as int, pos + tok.len())[k as int] != tok@[k as int]);
            }
            return false;
        }
        k += 1;
    }
    proof {
        assert(text@.subrange(pos as int, pos + tok.len()) =~= tok@);
    }
    true
}

/// The first place at or after `pos` where `tok` stands in `text`, or the length
/// of `text`.
pub fn find_token(text: &Vec<char>, pos: usize, tok: &Vec<char>) -> (at: usize)
    requires
        pos <= text.len(),
    ensures
        at == first_at(text@, pos as int, tok@),
        pos <= at <= text.len(),
{
    let mut at: usize = pos;
    while at < text.len()
        invariant
            pos <= at <= text.len(),
            first_at(text@, pos as int, tok@) == first_at(text@, at as int, tok@),
        decreases text.len() - at,
    {
        if starts_at(text, at, tok) {
            return at;
        }
        at += 1;
    }
    at
}

/// The bounds of `text[from..to]` without the white space at either end.
pub fn trim_range(text: &Vec<char>, from: usize, to: usize) -> (bounds: (usize, usize))
    requires
        from <= to <= text.len(),
    ensures
        from <= bounds.0 <= bounds.1 <= to,
        text@.subrange(bounds.0 as int, bounds.1 as int) == trimmed(
            text@.subrange(from as int, to as int),
        ),
{
    let mut a: usize = from;
    while a < to && text[a].is_whitespace()
        invariant
            from <= a <= to <= text.len(),
            trim_start(text@.subrange(from as int, to as int)) == trim_start(
                text@.subrange(a as int, to as int),
            ),
        decreases to - a,
    {
        proof {
            let cur = text@.subrange(a as int, to as int);
            assert(cur.subrange(1, cur.len() as int) =~= text@.subrange(a + 1, to as int));
        }
        a += 1;
    }
    let mut b: usize = to;
    while b > a && text[b - 1].is_whitespace()
        invariant
            a <= b <= to <= text.len(),
            trim_end(text@.subrange(a as int, to as int)) == trim_end(
                text@.subrange(a as int, b as int),
            ),
        decreases b - a,
    {
        proof {
            let cur = text@.subrange(a as int, b as int);
            assert(cur.subrange(0, cur.len() - 1) =~= text@.subrange(a as int, b - 1));
        }
        b -= 1;
    }
    (a, b)
}

} // verus!
