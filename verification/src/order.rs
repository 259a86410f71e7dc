//! Ordering: how the children of every node are sorted and reversed.

use crate::tree::{forest_view, Node, Tree};
use vstd::prelude::*;
use vstd::utf8::encode_utf8;

verus! {

/// How siblings are sorted.
#[derive(Debug, Clone)]
pub enum Sorter {
    /// By name.
    Alphabetical,
    /// By an outside program, which is named here. No ordering function accepts it.
    External(String),
}

/// The ordering that is applied to the children of every node.
#[derive(Debug, Clone)]
pub struct OrderMode {
    pub sort: Option<Sorter>,
    pub reverse: bool,
}

/// The refusal to sort with an outside program, which is named.
#[derive(Debug, Clone)]
pub struct UnsupportedSorter {
    pub program: String,
}

/// Collects the options from which an [`OrderMode`] is made.
#[derive(Debug, Clone)]
pub struct OrderModeBuilder {
    pub sort_program: Option<String>,
    pub default_to_alphabetical: bool,
    pub reverse_order: bool,
}

/// An ordering as plain values: whether siblings are sorted by name, and whether
/// they are reversed after that.
pub ghost struct OrderPolicy {
    pub sort: bool,
    pub reverse: bool,
}

impl OrderMode {
    /// Whether the ordering can be applied: sorting by an outside program cannot.
    pub open spec fn is_supported(&self) -> bool {
        !(self.sort matches Some(Sorter::External(_)))
    }

    /// The ordering as plain values.
    pub open spec fn policy(&self) -> OrderPolicy {
        OrderPolicy { sort: self.sort matches Some(Sorter::Alphabetical), reverse: self.reverse }
    }

    /// Whether the ordering can be applied: sorting by an outside program cannot.
    pub fn supported(&self) -> (yes: bool)
        ensures
            yes == self.is_supported(),
    {
        match &self.sort {
            Some(Sorter::External(_)) => false,
            _ => true,
        }
    }
}

impl OrderModeBuilder {
    /// A builder that neither sorts nor reverses.
    pub fn new() -> (builder: OrderModeBuilder)
        ensures
            builder.sort_program is None,
            !builder.default_to_alphabetical,
            !builder.reverse_order,
    {
        OrderModeBuilder { sort_program: None, default_to_alphabetical: false, reverse_order: false }
    }

    /// Chooses whether siblings are sorted by name where no program is named.
    pub fn default_to_alphabetical(&mut self, value: bool) -> (ret: &mut Self)
        ensures
            *ret == (OrderModeBuilder { default_to_alphabetical: value, ..*old(self) }),
            *final(self) == *final(ret),
    {
        self.default_to_alphabetical = value;
        self
    }

    /// Names the program to sort with, or with `None` names none.
    pub fn opt_sort_program(&mut self, program: Option<String>) -> (ret: &mut Self)
        ensures
            *ret == (OrderModeBuilder { sort_program: program, ..*old(self) }),
            *final(self) == *final(ret),
    {
        self.sort_program = program;
        self
    }

    /// Chooses whether siblings are reversed.
    pub fn reverse(&mut self, reverse: bool) -> (ret: &mut Self)
        ensures
            *ret == (OrderModeBuilder { reverse_order: reverse, ..*old(self) }),
            *final(self) == *final(ret),
    {
        self.reverse_order = reverse;
        self
    }

    /// The ordering that the options select: a named program wins over sorting
    /// by name.
    pub fn build(&self) -> (mode: OrderMode)
        ensures
            mode.reverse == self.reverse_order,
            mode.sort == match self.sort_program {
                Some(program) => Some(Sorter::External(program)),
                None => if self.default_to_alphabetical {
                    Some(Sorter::Alphabetical)
                } else {
                    None
                },
            },
    {
        let sort = match &self.sort_program {
            Some(program) => Some(Sorter::External(program.clone())),
            None => if self.default_to_alphabetical {
                Some(Sorter::Alphabetical)
            } else {
                None
            },
        };
        OrderMode { sort, reverse: self.reverse_order }
    }
}

impl Default for OrderModeBuilder {
    fn default() -> (builder: OrderModeBuilder)
        ensures
            builder.sort_program is None,
            !builder.default_to_alphabetical,
            !builder.reverse_order,
    {
        OrderModeBuilder::new()
    }
}

/// Whether `x` comes before `y` or equals it from `from` on, byte by byte, a
/// prefix coming before what it is a prefix of.
pub open spec fn bytes_le(x: Seq<u8>, y: Seq<u8>, from: int) -> bool
    decreases x.len() - from,
{
    if from >= x.len() {
        true
    } else if from >= y.len() {
        false
    } else if x[from] != y[from] {
        x[from] < y[from]
    } else {
        bytes_le(x, y, from + 1)
    }
}

/// The order of names: that of their UTF-8 encodings, byte by byte.
pub open spec fn name_le(a: Seq<char>, b: Seq<char>) -> bool {
    bytes_le(encode_utf8(a), encode_utf8(b), 0)
}

/// Whether the name `a` comes before the name `b` or equals it.
pub fn name_precedes(a: &str, b: &str) -> (le: bool)
    ensures
        le == name_le(a@, b@),
{
    let x = a.as_bytes();
    let y = b.as_bytes();
    let mut i: usize = 0;
    while i < x.len()
        invariant
            i <= x.len(),
            x@ == encode_utf8(a@),
            y@ == encode_utf8(b@),
            bytes_le(x@, y@, 0) == bytes_le(x@, y@, i as int),
        decreases x.len() - i,
    {
        if i >= y.len() {
            return false;
        }
        if x[i] != y[i] {
            return x[i] < y[i];
        }
        i += 1;
    }
    true
}

/// The first place from `from` on where a tree stands whose name does not come
/// before `name`, or the length of `s`.
pub open spec fn insert_point(name: Seq<char>, s: Seq<Tree>, from: int) -> int
    decreases s.len() - from,
{
    if from < 0 || from >= s.len() {
        s.len() as int
    } else if name_le(name, s[from].name) {
        from
    } else {
        insert_point(name, s, from + 1)
    }
}

/// The trees of `s` sorted by name, trees of one name staying in the order in
/// which they stand in `s`.
pub open spec fn sort_by_name(s: Seq<Tree>) -> Seq<Tree>
    decreases s.len(),
{
    if s.len() == 0 {
        s
    } else {
        let rest = sort_by_name(s.subrange(1, s.len() as int));
        rest.insert(insert_point(s[0].name, rest, 0), s[0])
    }
}

/// The siblings `s` as the policy arranges them: sorted first, reversed after.
pub open spec fn arrange(s: Seq<Tree>, policy: OrderPolicy) -> Seq<Tree> {
    let sorted = if policy.sort {
        sort_by_name(s)
    } else {
        s
    };
    if policy.reverse {
        sorted.reverse()
    } else {
        sorted
    }
}

/// The first `k` trees of `s`, each ordered throughout.
pub open spec fn ordered_upto(s: Seq<Tree>, k: nat, policy: OrderPolicy) -> Seq<Tree>
    decreases s, k,
{
    if k == 0 || k > s.len() {
        Seq::empty()
    } else {
        ordered_upto(s, (k - 1) as nat, policy).push(ordered(s[k - 1], policy))
    }
}

/// The tree with the children of every node arranged by the policy.
pub open spec fn ordered(tree: Tree, policy: OrderPolicy) -> Tree
    decreases tree, 0nat,
{
    Tree {
        name: tree.name,
        children: arrange(ordered_upto(tree.children, tree.children.len(), policy), policy),
    }
}

/// Every name comes before itself or equals it.
pub proof fn lemma_name_le_reflexive(a: Seq<char>)
    ensures
        name_le(a, a),
{
    lemma_bytes_le_reflexive(encode_utf8(a), 0);
}

/// Of two names, one comes before the other or equals it.
pub proof fn lemma_name_le_total(a: Seq<char>, b: Seq<char>)
    ensures
        name_le(a, b) || name_le(b, a),
{
    lemma_bytes_le_total(encode_utf8(a), encode_utf8(b), 0);
}

/// The order of names is transitive.
pub proof fn lemma_name_le_transitive(a: Seq<char>, b: Seq<char>, c: Seq<char>)
    requires
        name_le(a, b),
        name_le(b, c),
    ensures
        name_le(a, c),
{
    lemma_bytes_le_transitive(encode_utf8(a), encode_utf8(b), encode_utf8(c), 0);
}

/// Two names of which each comes before the other or equals it are one name.
pub proof fn lemma_name_le_antisymmetric(a: Seq<char>, b: Seq<char>)
    requires
        name_le(a, b),
        name_le(b, a),
    ensures
        a == b,
{
    lemma_bytes_le_antisymmetric(encode_utf8(a), encode_utf8(b), 0);
    assert(encode_utf8(a) =~= encode_utf8(b));
    vstd::utf8::encode_utf8_decode_utf8(a);
    vstd::utf8::encode_utf8_decode_utf8(b);
}

proof fn lemma_bytes_le_antisymmetric(x: Seq<u8>, y: Seq<u8>, from: int)
    requires
        0 <= from <= x.len(),
        from <= y.len(),
        bytes_le(x, y, from),
        bytes_le(y, x, from),
    ensures
        x.len() == y.len(),
        forall|i: int| from <= i < x.len() ==> x[i] == y[i],
    decreases x.len() - from,
{
    if from < x.len() {
        lemma_bytes_le_antisymmetric(x, y, from + 1);
    }
}

proof fn lemma_bytes_le_reflexive(x: Seq<u8>, from: int)
    requires
        0 <= from,
    ensures
        bytes_le(x, x, from),
    decreases x.len() - from,
{
    if from < x.len() {
        lemma_bytes_le_reflexive(x, from + 1);
    }
}

proof fn lemma_bytes_le_total(x: Seq<u8>, y: Seq<u8>, from: int)
    requires
        0 <= from,
    ensures
        bytes_le(x, y, from) || bytes_le(y, x, from),
    decreases x.len() - from,
{
    if from < x.len() && from < y.len() && x[from] == y[from] {
        lemma_bytes_le_total(x, y, from + 1);
    }
}

proof fn lemma_bytes_le_transitive(x: Seq<u8>, y: Seq<u8>, z: Seq<u8>, from: int)
    requires
        0 <= from,
        bytes_le(x, y, from),
        bytes_le(y, z, from),
    ensures
        bytes_le(x, z, from),
    decreases x.len() - from,
{
    if from < x.len() && x[from] == y[from] && y[from] == z[from] {
        lemma_bytes_le_transitive(x, y, z, from + 1);
    }
}

/// Whether the names of `s` stand in order.
pub open spec fn is_sorted(s: Seq<Tree>) -> bool {
    forall|i: int, j: int| 0 <= i < j < s.len() ==> name_le(#[trigger] s[i].name, #[trigger] s[j].name)
}

/// The test for a tree of the given name.
pub open spec fn named(name: Seq<char>) -> spec_fn(Tree) -> bool {
    |t: Tree| t.name == name
}

proof fn lemma_insert_point(name: Seq<char>, s: Seq<Tree>, from: int)
    requires
        0 <= from <= s.len(),
    ensures
        from <= insert_point(name, s, from) <= s.len(),
        forall|i: int|
            from <= i < insert_point(name, s, from) ==> !name_le(name, (#[trigger] s[i]).name),
        insert_point(name, s, from) < s.len() ==> name_le(
            name,
            s[insert_point(name, s, from)].name,
        ),
    decreases s.len() - from,
{
    if from < s.len() && !name_le(name, s[from].name) {
        lemma_insert_point(name, s, from + 1);
    }
}

proof fn lemma_filter_none(s: Seq<Tree>, pred: spec_fn(Tree) -> bool)
    requires
        forall|i: int| 0 <= i < s.len() ==> !pred(#[trigger] s[i]),
    ensures
        s.filter(pred) == Seq::<Tree>::empty(),
    decreases s.len(),
{
    reveal(Seq::filter);
    if s.len() > 0 {
        let front = s.drop_last();
        assert forall|i: int| 0 <= i < front.len() implies !pred(#[trigger] front[i]) by {
            assert(front[i] == s[i]);
        }
        lemma_filter_none(front, pred);
        assert(!pred(s[s.len() - 1]));
    } else {
        assert(s =~= Seq::<Tree>::empty());
    }
}

proof fn lemma_filter_one(x: Tree, pred: spec_fn(Tree) -> bool)
    ensures
        seq![x].filter(pred) == if pred(x) {
            seq![x]
        } else {
            Seq::<Tree>::empty()
        },
{
    reveal(Seq::filter);
    let s = seq![x];
    assert(s.drop_last() =~= Seq::<Tree>::empty());
    assert(s.drop_last().filter(pred) =~= Seq::<Tree>::empty());
    assert(s.last() == x);
    assert(Seq::<Tree>::empty().push(x) =~= seq![x]);
}

/// Sorting keeps the trees, each as often as it stood there, and puts their
/// names in order.
pub proof fn lemma_sort_by_name_sorts(s: Seq<Tree>)
    ensures
        sort_by_name(s).len() == s.len(),
        sort_by_name(s).to_multiset() == s.to_multiset(),
        is_sorted(sort_by_name(s)),
    decreases s.len(),
{
    if s.len() == 0 {
    } else {
        let first = s[0];
        let tail = s.subrange(1, s.len() as int);
        let rest = sort_by_name(tail);
        lemma_sort_by_name_sorts(tail);
        lemma_insert_point(first.name, rest, 0);
        let p = insert_point(first.name, rest, 0);
        let out = rest.insert(p, first);
        vstd::seq_lib::to_multiset_insert(rest, p, first);
        vstd::seq_lib::to_multiset_insert(tail, 0, first);
        assert(tail.insert(0, first) =~= s);
        assert forall|i: int, j: int| 0 <= i < j < out.len() implies name_le(
            #[trigger] out[i].name,
            #[trigger] out[j].name,
        ) by {
            if j < p {
                assert(out[i] == rest[i] && out[j] == rest[j]);
            } else if j == p {
                assert(out[i] == rest[i]);
                lemma_name_le_total(first.name, rest[i].name);
            } else if i < p {
                assert(out[i] == rest[i] && out[j] == rest[j - 1]);
            } else if i == p {
                assert(out[j] == rest[j - 1]);
                if j - 1 > p {
                    assert(name_le(rest[p].name, rest[j - 1].name));
                    lemma_name_le_transitive(first.name, rest[p].name, rest[j - 1].name);
                }
            } else {
                assert(out[i] == rest[i - 1] && out[j] == rest[j - 1]);
            }
        }
    }
}

/// Sorting is stable: the trees of any one name stand in the sorted list in
/// the order in which they stood before.
pub proof fn lemma_sort_by_name_stable(s: Seq<Tree>, name: Seq<char>)
    ensures
        sort_by_name(s).filter(named(name)) == s.filter(named(name)),
    decreases s.len(),
{
    let pred = named(name);
    if s.len() == 0 {
    } else {
        let first = s[0];
        let tail = s.subrange(1, s.len() as int);
        let rest = sort_by_name(tail);
        lemma_sort_by_name_stable(tail, name);
        lemma_sort_by_name_sorts(tail);
        lemma_insert_point(first.name, rest, 0);
        let p = insert_point(first.name, rest, 0);
        let before = rest.take(p);
        let after = rest.skip(p);
        assert(rest.insert(p, first) =~= before + seq![first] + after);
        assert(rest =~= before + after);
        assert(s =~= seq![first] + tail);
        Seq::filter_distributes_over_add(before + seq![first], after, pred);
        Seq::filter_distributes_over_add(before, seq![first], pred);
        Seq::filter_distributes_over_add(before, after, pred);
        Seq::filter_distributes_over_add(seq![first], tail, pred);
        lemma_filter_one(first, pred);
        if pred(first) {
            assert forall|i: int| 0 <= i < before.len() implies !pred(#[trigger] before[i]) by {
                assert(before[i] == rest[i]);
                lemma_name_le_reflexive(first.name);
            }
            lemma_filter_none(before, pred);
            assert(before.filter(pred) + seq![first] + after.filter(pred) =~= seq![first] + (
            before.filter(pred) + after.filter(pred)));
        } else {
            assert(before.filter(pred) + Seq::<Tree>::empty() + after.filter(pred)
                =~= before.filter(pred) + after.filter(pred));
            assert(Seq::<Tree>::empty() + tail.filter(pred) =~= tail.filter(pred));
        }
    }
}

/// Sorting what is sorted changes nothing.
pub proof fn lemma_sort_by_name_of_sorted(s: Seq<Tree>)
    requires
        is_sorted(s),
    ensures
        sort_by_name(s) == s,
    decreases s.len(),
{
    if s.len() > 0 {
        let tail = s.subrange(1, s.len() as int);
        assert forall|i: int, j: int| 0 <= i < j < tail.len() implies name_le(
            #[trigger] tail[i].name,
            #[trigger] tail[j].name,
        ) by {
            assert(tail[i] == s[i + 1] && tail[j] == s[j + 1]);
        }
        lemma_sort_by_name_of_sorted(tail);
        if tail.len() > 0 {
            assert(tail[0] == s[1]);
            assert(name_le(s[0].name, s[1].name));
        }
        assert(tail.insert(0, s[0]) =~= s);
    }
}

/// Sorting twice is sorting once.
pub proof fn lemma_sort_by_name_idempotent(s: Seq<Tree>)
    ensures
        sort_by_name(sort_by_name(s)) == sort_by_name(s),
{
    lemma_sort_by_name_sorts(s);
    lemma_sort_by_name_of_sorted(sort_by_name(s));
}

/// The trees of `s`, each ordered throughout.
pub open spec fn ordered_each(s: Seq<Tree>, policy: OrderPolicy) -> Seq<Tree> {
    ordered_upto(s, s.len(), policy)
}

/// `ordered_upto` orders tree by tree.
pub proof fn lemma_ordered_upto(s: Seq<Tree>, k: nat, policy: OrderPolicy)
    requires
        k <= s.len(),
    ensures
        ordered_upto(s, k, policy).len() == k,
        forall|i: int|
            0 <= i < k ==> #[trigger] ordered_upto(s, k, policy)[i] == ordered(s[i], policy),
    decreases k,
{
    if k > 0 {
        lemma_ordered_upto(s, (k - 1) as nat, policy);
    }
}

proof fn lemma_insert_point_by_names(name: Seq<char>, a: Seq<Tree>, b: Seq<Tree>, from: int)
    requires
        a.len() == b.len(),
        forall|i: int| 0 <= i < a.len() ==> (#[trigger] a[i]).name == b[i].name,
    ensures
        insert_point(name, a, from) == insert_point(name, b, from),
    decreases a.len() - from,
{
    if 0 <= from < a.len() {
        assert(a[from].name == b[from].name);
        if !name_le(name, a[from].name) {
            lemma_insert_point_by_names(name, a, b, from + 1);
        }
    }
}

proof fn lemma_sort_then_order(s: Seq<Tree>, policy: OrderPolicy)
    ensures
        sort_by_name(ordered_each(s, policy)) == ordered_each(sort_by_name(s), policy),
    decreases s.len(),
{
    lemma_ordered_upto(s, s.len(), policy);
    lemma_sort_by_name_sorts(s);
    lemma_ordered_upto(sort_by_name(s), s.len(), policy);
    if s.len() == 0 {
        assert(ordered_each(s, policy) =~= ordered_each(sort_by_name(s), policy));
    } else {
        let tail = s.subrange(1, s.len() as int);
        let rest = sort_by_name(tail);
        let each = ordered_each(s, policy);
        lemma_sort_then_order(tail, policy);
        lemma_sort_by_name_sorts(tail);
        lemma_ordered_upto(tail, tail.len(), policy);
        lemma_ordered_upto(rest, rest.len(), policy);
        assert(each.subrange(1, each.len() as int) =~= ordered_each(tail, policy));
        let rest_each = ordered_each(rest, policy);
        lemma_insert_point_by_names(s[0].name, rest_each, rest, 0);
        lemma_insert_point(s[0].name, rest, 0);
        let p = insert_point(s[0].name, rest, 0);
        assert(rest_each.insert(p, each[0]) =~= ordered_each(rest.insert(p, s[0]), policy));
    }
}

proof fn lemma_reverse_then_order(s: Seq<Tree>, policy: OrderPolicy)
    ensures
        ordered_each(s, policy).reverse() == ordered_each(s.reverse(), policy),
{
    lemma_ordered_upto(s, s.len(), policy);
    lemma_ordered_upto(s.reverse(), s.len(), policy);
    assert(ordered_each(s, policy).reverse() =~= ordered_each(s.reverse(), policy));
}

/// At every node the children are the node's own children arranged by the
/// policy, sorted first and reversed after, each of them ordered in turn.
pub proof fn lemma_ordered_children(tree: Tree, policy: OrderPolicy)
    ensures
        ordered(tree, policy).name == tree.name,
        ordered(tree, policy).children == ordered_each(arrange(tree.children, policy), policy),
{
    let c = tree.children;
    lemma_sort_by_name_sorts(c);
    if policy.sort {
        lemma_sort_then_order(c, policy);
        if policy.reverse {
            lemma_reverse_then_order(sort_by_name(c), policy);
        }
    } else if policy.reverse {
        lemma_reverse_then_order(c, policy);
    }
}

proof fn lemma_sort_all(s: Seq<Tree>, pred: spec_fn(Tree) -> bool)
    requires
        forall|i: int| 0 <= i < s.len() ==> pred(#[trigger] s[i]),
    ensures
        forall|i: int| 0 <= i < s.len() ==> pred(#[trigger] sort_by_name(s)[i]),
    decreases s.len(),
{
    lemma_sort_by_name_sorts(s);
    if s.len() > 0 {
        let tail = s.subrange(1, s.len() as int);
        let rest = sort_by_name(tail);
        assert forall|i: int| 0 <= i < tail.len() implies pred(#[trigger] tail[i]) by {
            assert(tail[i] == s[i + 1]);
        }
        lemma_sort_all(tail, pred);
        lemma_sort_by_name_sorts(tail);
        lemma_insert_point(s[0].name, rest, 0);
        let p = insert_point(s[0].name, rest, 0);
        let out = rest.insert(p, s[0]);
        assert forall|i: int| 0 <= i < s.len() implies pred(#[trigger] out[i]) by {
            if i < p {
                assert(out[i] == rest[i]);
            } else if i > p {
                assert(out[i] == rest[i - 1]);
            }
        }
    }
}

/// Whether no two trees of `s` have one name.
pub open spec fn distinct_names(s: Seq<Tree>) -> bool {
    forall|i: int, j: int| 0 <= i < j < s.len() ==> (#[trigger] s[i]).name != (#[trigger] s[j]).name
}

/// Whether no two siblings have one name, at any node of the tree.
pub open spec fn distinct_siblings(tree: Tree) -> bool
    decreases tree,
{
    &&& distinct_names(tree.children)
    &&& forall|i: int|
        0 <= i < tree.children.len() ==> distinct_siblings(#[trigger] tree.children[i])
}

proof fn lemma_sort_keeps_distinct(s: Seq<Tree>)
    requires
        distinct_names(s),
    ensures
        distinct_names(sort_by_name(s)),
    decreases s.len(),
{
    lemma_sort_by_name_sorts(s);
    if s.len() > 0 {
        let first = s[0];
        let tail = s.subrange(1, s.len() as int);
        let rest = sort_by_name(tail);
        assert forall|i: int, j: int| 0 <= i < j < tail.len() implies (#[trigger] tail[i]).name != (
        #[trigger] tail[j]).name by {
            assert(tail[i] == s[i + 1] && tail[j] == s[j + 1]);
        }
        lemma_sort_keeps_distinct(tail);
        let other = |t: Tree| t.name != first.name;
        assert forall|i: int| 0 <= i < tail.len() implies other(#[trigger] tail[i]) by {
            assert(tail[i] == s[i + 1]);
        }
        lemma_sort_all(tail, other);
        lemma_sort_by_name_sorts(tail);
        lemma_insert_point(first.name, rest, 0);
        let p = insert_point(first.name, rest, 0);
        let out = rest.insert(p, first);
        assert forall|i: int, j: int| 0 <= i < j < out.len() implies (#[trigger] out[i]).name != (
        #[trigger] out[j]).name by {
            if i == p {
                assert(out[j] == rest[j - 1]);
                assert(other(rest[j - 1]));
            } else if j == p {
                assert(out[i] == rest[i]);
                assert(other(rest[i]));
            } else {
                let a = if i < p {
                    i
                } else {
                    i - 1
                };
                let b = if j < p {
                    j
                } else {
                    j - 1
                };
                assert(out[i] == rest[a] && out[j] == rest[b]);
            }
        }
    }
}

proof fn lemma_sort_of_reversed(s: Seq<Tree>)
    requires
        is_sorted(s),
        distinct_names(s),
    ensures
        sort_by_name(s.reverse()) == s,
    decreases s.len(),
{
    if s.len() > 0 {
        let n = s.len() as int;
        let front = s.take(n - 1);
        let turned = s.reverse();
        assert(turned.subrange(1, n) =~= front.reverse());
        assert forall|i: int, j: int| 0 <= i < j < front.len() implies name_le(
            #[trigger] front[i].name,
            #[trigger] front[j].name,
        ) && front[i].name != front[j].name by {
            assert(front[i] == s[i] && front[j] == s[j]);
        }
        lemma_sort_of_reversed(front);
        let last = s[n - 1];
        assert(turned[0] == last);
        lemma_insert_point(last.name, front, 0);
        let p = insert_point(last.name, front, 0);
        if p < front.len() {
            assert(front[p] == s[p]);
            assert(name_le(s[p].name, s[n - 1].name));
            lemma_name_le_antisymmetric(last.name, front[p].name);
        }
        assert(front.insert(n - 1, last) =~= s);
    } else {
        assert(s.reverse() =~= s);
    }
}

/// Ordering without reversal is idempotent: a tree that was ordered stays as
/// it is when it is ordered again.
pub proof fn lemma_ordered_idempotent(tree: Tree, policy: OrderPolicy)
    requires
        !policy.reverse,
    ensures
        ordered(ordered(tree, policy), policy) == ordered(tree, policy),
    decreases tree,
{
    let c = tree.children;
    let n = c.len();
    let each = ordered_each(c, policy);
    lemma_ordered_upto(c, n, policy);
    assert forall|i: int| 0 <= i < n implies ordered(#[trigger] each[i], policy) == each[i] by {
        lemma_ordered_idempotent(c[i], policy);
    }
    let once = arrange(each, policy);
    lemma_sort_by_name_sorts(each);
    if policy.sort {
        lemma_sort_all(each, |t: Tree| ordered(t, policy) == t);
        lemma_sort_by_name_idempotent(each);
    }
    lemma_ordered_upto(once, n, policy);
    assert(ordered_each(once, policy) =~= once);
}

/// Sorting and reversing is idempotent where no two siblings have one name.
pub proof fn lemma_ordered_idempotent_distinct(tree: Tree, policy: OrderPolicy)
    requires
        policy.sort,
        distinct_siblings(tree),
    ensures
        ordered(ordered(tree, policy), policy) == ordered(tree, policy),
    decreases tree,
{
    if !policy.reverse {
        lemma_ordered_idempotent(tree, policy);
    } else {
        let c = tree.children;
        let n = c.len();
        let each = ordered_each(c, policy);
        lemma_ordered_upto(c, n, policy);
        assert forall|i: int| 0 <= i < n implies ordered(#[trigger] each[i], policy)
            == each[i] by {
            lemma_ordered_idempotent_distinct(c[i], policy);
        }
        assert forall|i: int, j: int| 0 <= i < j < n implies (#[trigger] each[i]).name != (
        #[trigger] each[j]).name by {
            assert(c[i].name != c[j].name);
        }
        let sorted = sort_by_name(each);
        lemma_sort_by_name_sorts(each);
        lemma_sort_all(each, |t: Tree| ordered(t, policy) == t);
        lemma_sort_keeps_distinct(each);
        let once = sorted.reverse();
        lemma_ordered_upto(once, n, policy);
        assert(ordered_each(once, policy) =~= once);
        lemma_sort_of_reversed(sorted);
    }
}

/// Reversal alone undoes itself: ordering twice gives the tree back. So it is
/// idempotent on the trees that it leaves as they are, and on no others.
pub proof fn lemma_reverse_twice(tree: Tree, policy: OrderPolicy)
    requires
        !policy.sort,
        policy.reverse,
    ensures
        ordered(ordered(tree, policy), policy) == tree,
        ordered(ordered(tree, policy), policy) == ordered(tree, policy) <==> ordered(tree, policy)
            == tree,
    decreases tree,
{
    let c = tree.children;
    let n = c.len();
    let each = ordered_each(c, policy);
    lemma_ordered_upto(c, n, policy);
    assert forall|i: int| 0 <= i < n implies ordered(#[trigger] each[i], policy) == c[i] by {
        lemma_reverse_twice(c[i], policy);
    }
    let once = each.reverse();
    lemma_ordered_upto(once, n, policy);
    assert(ordered_each(once, policy).reverse() =~= c);
}

/// The nodes sorted by name.
fn sort_nodes(nodes: Vec<Node>) -> (sorted: Vec<Node>)
    ensures
        forest_view(sorted@) == sort_by_name(forest_view(nodes@)),
{
    let ghost all = forest_view(nodes@);
    let mut source = nodes;
    let mut sorted: Vec<Node> = Vec::new();
    proof {
        assert(all.subrange(all.len() as int, all.len() as int) =~= Seq::<Tree>::empty());
        assert(forest_view(sorted@) =~= Seq::<Tree>::empty());
    }
    while source.len() > 0
        invariant
            source.len() <= all.len(),
            forest_view(source@) == all.take(source.len() as int),
            forest_view(sorted@) == sort_by_name(all.subrange(source.len() as int, all.len() as int)),
        decreases source.len(),
    {
        let ghost k = source.len() as int;
        let ghost before = forest_view(source@);
        let node = source.pop().unwrap();
        proof {
            node.lemma_view();
            assert(node@ == before[k - 1]);
            assert(forest_view(source@) =~= all.take(k - 1));
        }
        let mut p: usize = 0;
        while p < sorted.len() && !name_precedes(node.name.as_str(), sorted[p].name.as_str())
            invariant
                p <= sorted.len(),
                node@.name == node.name@,
                insert_point(node@.name, forest_view(sorted@), 0) == insert_point(
                    node@.name,
                    forest_view(sorted@),
                    p as int,
                ),
            decreases sorted.len() - p,
        {
            proof {
                sorted[p as int].lemma_view();
            }
            p += 1;
        }
        proof {
            if p < sorted.len() {
                sorted[p as int].lemma_view();
            }
        }
        let ghost rest = forest_view(sorted@);
        sorted.insert(p, node);
        proof {
            let tail = all.subrange(k - 1, all.len() as int);
            assert(tail.subrange(1, tail.len() as int) =~= all.subrange(k, all.len() as int));
            assert(tail[0] == node@);
            assert(forest_view(sorted@) =~= rest.insert(p as int, node@));
        }
    }
    proof {
        assert(all.subrange(0, all.len() as int) =~= all);
    }
    sorted
}

/// The nodes in the opposite order.
fn reverse_nodes(nodes: Vec<Node>) -> (reversed: Vec<Node>)
    ensures
        forest_view(reversed@) == forest_view(nodes@).reverse(),
{
    let ghost all = forest_view(nodes@);
    let mut source = nodes;
    let mut reversed: Vec<Node> = Vec::new();
    while source.len() > 0
        invariant
            source.len() + reversed.len() == all.len(),
            forest_view(source@) == all.take(source.len() as int),
            forall|i: int|
                0 <= i < reversed.len() ==> (#[trigger] reversed@[i])@ == all[all.len() - 1 - i],
        decreases source.len(),
    {
        let ghost before = forest_view(source@);
        let node = source.pop().unwrap();
        proof {
            assert(node@ == before[source.len() as int]);
            assert(forest_view(source@) =~= all.take(source.len() as int));
        }
        reversed.push(node);
    }
    proof {
        assert(forest_view(reversed@) =~= all.reverse());
    }
    reversed
}

/// The node with the children of every node arranged as the mode says.
fn order_node(node: Node, order_mode: &OrderMode) -> (out: Node)
    requires
        order_mode.is_supported(),
    ensures
        out@ == ordered(node@, order_mode.policy()),
    decreases node,
{
    let ghost policy = order_mode.policy();
    proof {
        node.lemma_view();
    }
    let name = node.name;
    let children = node.children;
    let mut done: Vec<Node> = Vec::new();
    proof {
        assert(forest_view(done@) =~= Seq::<Tree>::empty());
    }
    for child in it: children
        invariant
            it.seq() == node.children@,
            order_mode.is_supported(),
            policy == order_mode.policy(),
            forest_view(done@) == ordered_upto(
                forest_view(node.children@),
                it.index() as nat,
                policy,
            ),
    {
        let ghost before = forest_view(done@);
        let ghost at = it.index() as int;
        proof {
            assert(child == node.children[at]);
        }
        let child = order_node(child, order_mode);
        done.push(child);
        proof {
            assert(forest_view(done@) =~= before.push(child@));
        }
    }
    let sorted = match &order_mode.sort {
        Some(Sorter::Alphabetical) => sort_nodes(done),
        _ => done,
    };
    let arranged = if order_mode.reverse {
        reverse_nodes(sorted)
    } else {
        sorted
    };
    Node::new(name, arranged)
}

impl Node {
    /// Arranges the children of this node and of every node below it: sorted by
    /// name where the mode sorts, then reversed where it reverses.
    pub fn order_children(&mut self, order_mode: &OrderMode)
        requires
            order_mode.is_supported(),
        ensures
            final(self)@ == ordered(old(self)@, order_mode.policy()),
    {
        let mut node = Node::new(String::new(), Vec::new());
        core::mem::swap(self, &mut node);
        *self = order_node(node, order_mode);
    }

    /// Arranges the children as [`Node::order_children`] does where the mode is
    /// supported. A mode that sorts with an outside program is refused, and
    /// the tree stays as it is.
    pub fn try_order_children(&mut self, order_mode: &OrderMode) -> (result: Result<
        (),
        UnsupportedSorter,
    >)
        ensures
            match result {
                Ok(_) => order_mode.is_supported() && final(self)@ == ordered(
                    old(self)@,
                    order_mode.policy(),
                ),
                Err(e) => order_mode.sort == Some(Sorter::External(e.program)) && *final(self)
                    == *old(self),
            },
    {
        match &order_mode.sort {
            Some(Sorter::External(program)) => Err(UnsupportedSorter { program: program.clone() }),
            _ => {
                self.order_children(order_mode);
                Ok(())
            },
        }
    }
}

} // verus!
