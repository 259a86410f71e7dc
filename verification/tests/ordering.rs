use txtree::order::name_precedes;
use txtree::{Node, OrderMode, OrderModeBuilder, Sorter};

fn leaf(name: &str) -> Node {
    Node::new(name.to_string(), Vec::new())
}

fn node(name: &str, children: Vec<Node>) -> Node {
    Node::new(name.to_string(), children)
}

fn policy(sort: bool, reverse: bool) -> OrderMode {
    OrderModeBuilder::new().default_to_alphabetical(sort).reverse(reverse).build()
}

fn sample() -> Node {
    node(
        "r",
        vec![
            node("c", vec![leaf("z"), leaf("x"), leaf("y")]),
            leaf("a"),
            node("b", vec![leaf("2"), leaf("1")]),
        ],
    )
}

#[test]
fn no_policy_changes_nothing() {
    let mut tree = sample();
    tree.order_children(&policy(false, false));
    assert_eq!(tree, sample());
}

#[test]
fn sort_orders_every_level() {
    let mut tree = sample();
    tree.order_children(&policy(true, false));
    assert_eq!(
        tree,
        node(
            "r",
            vec![
                leaf("a"),
                node("b", vec![leaf("1"), leaf("2")]),
                node("c", vec![leaf("x"), leaf("y"), leaf("z")]),
            ],
        )
    );
}

#[test]
fn reverse_turns_every_level() {
    let mut tree = sample();
    tree.order_children(&policy(false, true));
    assert_eq!(
        tree,
        node(
            "r",
            vec![
                node("b", vec![leaf("1"), leaf("2")]),
                leaf("a"),
                node("c", vec![leaf("y"), leaf("x"), leaf("z")]),
            ],
        )
    );
}

#[test]
fn reverse_follows_the_sort_at_every_level() {
    let mut tree = sample();
    tree.order_children(&policy(true, true));
    assert_eq!(
        tree,
        node(
            "r",
            vec![
                node("c", vec![leaf("z"), leaf("y"), leaf("x")]),
                node("b", vec![leaf("2"), leaf("1")]),
                leaf("a"),
            ],
        )
    );
}

#[test]
fn sort_keeps_equal_names_in_order() {
    let mut tree = node(
        "r",
        vec![
            node("x", vec![leaf("second")]),
            leaf("a"),
            node("x", vec![leaf("first")]),
            node("x", vec![]),
        ],
    );
    tree.order_children(&policy(true, false));
    assert_eq!(
        tree,
        node(
            "r",
            vec![
                leaf("a"),
                node("x", vec![leaf("second")]),
                node("x", vec![leaf("first")]),
                node("x", vec![]),
            ],
        )
    );
}

#[test]
fn sorting_twice_is_sorting_once() {
    let mut once = sample();
    once.order_children(&policy(true, false));
    let mut twice = once.clone();
    twice.order_children(&policy(true, false));
    assert_eq!(once, twice);
}

#[test]
fn reversing_twice_gives_the_start() {
    let mut tree = sample();
    tree.order_children(&policy(false, true));
    assert_ne!(tree, sample());
    tree.order_children(&policy(false, true));
    assert_eq!(tree, sample());
}

#[test]
fn names_are_ordered_by_their_bytes() {
    assert!(name_precedes("a", "b"));
    assert!(!name_precedes("b", "a"));
    assert!(name_precedes("a", "a"));
    assert!(name_precedes("", "a"));
    assert!(!name_precedes("a", ""));
    assert!(name_precedes("ab", "abc"));
    assert!(!name_precedes("abc", "ab"));
    assert!(name_precedes("Z", "a"));
    assert!(name_precedes("z", "é"));
    assert!(!name_precedes("é", "z"));
    assert!(name_precedes("10", "9"));
}

#[test]
fn builder_prefers_the_program() {
    let mode = OrderModeBuilder::new()
        .opt_sort_program(Some("sort".to_string()))
        .default_to_alphabetical(true)
        .reverse(true)
        .build();
    assert!(matches!(&mode.sort, Some(Sorter::External(p)) if p == "sort"));
    assert!(mode.reverse);
    assert!(!mode.supported());
}

#[test]
fn builder_defaults() {
    let mode = OrderModeBuilder::new().build();
    assert!(mode.sort.is_none());
    assert!(!mode.reverse);
    assert!(mode.supported());
    let mode = OrderModeBuilder::default().default_to_alphabetical(true).build();
    assert!(matches!(mode.sort, Some(Sorter::Alphabetical)));
    assert!(mode.supported());
    let mode = OrderModeBuilder::new()
        .opt_sort_program(Some("x".to_string()))
        .opt_sort_program(None)
        .build();
    assert!(mode.sort.is_none());
}

#[test]
fn take_children_hands_out_the_children() {
    assert_eq!(sample().take_children().len(), 3);
    assert_eq!(leaf("a").take_children(), Vec::<Node>::new());
    assert_eq!(
        node("p", vec![leaf("q"), leaf("r")]).take_children(),
        vec![leaf("q"), leaf("r")]
    );
}

#[test]
fn an_outside_sorter_is_refused() {
    let mode = OrderModeBuilder::new()
        .opt_sort_program(Some("sort -n".to_string()))
        .reverse(true)
        .build();
    let mut tree = sample();
    let refusal = tree.try_order_children(&mode).unwrap_err();
    assert_eq!(refusal.program, "sort -n");
    assert_eq!(tree, sample());
}

#[test]
fn a_supported_mode_is_applied() {
    let mut tree = sample();
    assert!(tree.try_order_children(&policy(true, true)).is_ok());
    let mut expected = sample();
    expected.order_children(&policy(true, true));
    assert_eq!(tree, expected);
    assert_ne!(tree, sample());
}

#[test]
fn a_pair_converts_to_a_node() {
    let tree = Node::from(("a", vec![Node::from(("b", Vec::new())), Node::from(("c", []))]));
    assert_eq!(tree, node("a", vec![leaf("b"), leaf("c")]));
    assert_eq!(Node::from((String::from("x"), Vec::new())), leaf("x"));
}

#[test]
fn sorting_and_reversing_twice_is_once_for_distinct_names() {
    let mut once = sample();
    once.order_children(&policy(true, true));
    let mut twice = once.clone();
    twice.order_children(&policy(true, true));
    assert_eq!(once, twice);
}

#[test]
fn equal_names_swap_when_sorted_and_reversed_again() {
    let mut once = node("r", vec![node("x", vec![leaf("1")]), node("x", vec![leaf("2")])]);
    once.order_children(&policy(true, true));
    assert_eq!(
        once,
        node("r", vec![node("x", vec![leaf("2")]), node("x", vec![leaf("1")])])
    );
    let mut twice = once.clone();
    twice.order_children(&policy(true, true));
    assert_eq!(
        twice,
        node("r", vec![node("x", vec![leaf("1")]), node("x", vec![leaf("2")])])
    );
}
