use txtree::display::{
    compute_child_preprint, compute_name_separator, compute_placement, compute_preprint,
    DisplayPlace,
};
use txtree::parser::{Brackets, ParseMode};
use txtree::drawing::{failure_message, render_forest, render_string};
use txtree::{Node, OrderModeBuilder};

fn leaf(name: &str) -> Node {
    Node::new(name.to_string(), Vec::new())
}

fn node(name: &str, children: Vec<Node>) -> Node {
    Node::new(name.to_string(), children)
}

fn grammar() -> ParseMode {
    ParseMode::new(",".to_string(), Brackets::parse("[]").unwrap(), false)
}

#[test]
fn two_children_under_a_root() {
    let root = node("ROOT", vec![node("a", vec![leaf("b"), leaf("c")])]);
    let children = root.take_children();
    assert_eq!(children[0].mock_display(), "a\n├╴b\n╰╴c");
}

#[test]
fn a_leaf_is_its_name() {
    assert_eq!(leaf("only").mock_display(), "only");
    assert_eq!(leaf("").mock_display(), "");
}

#[test]
fn branches_continue_beside_deeper_levels() {
    let tree = node(
        "a",
        vec![node("b", vec![leaf("d"), node("e", vec![leaf("f")])]), leaf("c")],
    );
    assert_eq!(
        tree.mock_display(),
        "a\n├╴b\n│ ├╴d\n│ ╰╴e\n│   ╰╴f\n╰╴c"
    );
}

#[test]
fn display_branch_draws_the_joint() {
    assert_eq!(leaf("x").display_branch(0, 0, ""), "╰╴x");
    assert_eq!(leaf("x").display_branch(3, 2, ""), "╰╴x");
    assert_eq!(leaf("x").display_branch(3, 0, "│ "), "│ ├╴x");
    assert_eq!(
        node("x", vec![leaf("y")]).display_branch(2, 0, ""),
        "├╴x\n│ ╰╴y"
    );
}

#[test]
fn display_root_draws_the_children() {
    assert_eq!(leaf("x").display_root(">"), "");
    assert_eq!(
        node("x", vec![leaf("a"), leaf("b"), leaf("c")]).display_root(">"),
        ">├╴a\n>├╴b\n>╰╴c"
    );
}

#[test]
fn placement_marks_the_last_sibling() {
    assert_eq!(compute_placement(0, 0), DisplayPlace::Last);
    assert_eq!(compute_placement(1, 0), DisplayPlace::Last);
    assert_eq!(compute_placement(3, 0), DisplayPlace::Item);
    assert_eq!(compute_placement(3, 1), DisplayPlace::Item);
    assert_eq!(compute_placement(3, 2), DisplayPlace::Last);
    assert_eq!(compute_placement(0, 1), DisplayPlace::Item);
    assert_eq!(compute_placement(2, 5), DisplayPlace::Item);
}

#[test]
fn prefixes_are_appended() {
    assert_eq!(compute_preprint("ab", &DisplayPlace::Item), "ab├╴");
    assert_eq!(compute_preprint("ab", &DisplayPlace::Last), "ab╰╴");
    assert_eq!(compute_child_preprint("ab", &DisplayPlace::Item), "ab│ ");
    assert_eq!(compute_child_preprint("ab", &DisplayPlace::Last), "ab  ");
    assert_eq!(compute_name_separator(0), "");
    assert_eq!(compute_name_separator(1), "\n");
    assert_eq!(compute_name_separator(7), "\n");
}

#[test]
fn a_forest_is_drawn_tree_by_tree() {
    assert_eq!(render_forest(&Vec::new()), "");
    assert_eq!(
        render_forest(&vec![node("a", vec![leaf("b")]), leaf("c")]),
        "a\n╰╴b\n\nc\n\n"
    );
}

#[test]
fn text_is_parsed_ordered_and_drawn() {
    let plain = OrderModeBuilder::new().build();
    assert_eq!(
        render_string("a[c,b],d", grammar(), &plain).unwrap(),
        "a\n├╴c\n╰╴b\n\nd\n\n"
    );
    let sorted = OrderModeBuilder::new().default_to_alphabetical(true).reverse(true).build();
    assert_eq!(
        render_string("a[b,c],d", grammar(), &sorted).unwrap(),
        "d\n\na\n├╴c\n╰╴b\n\n"
    );
    assert_eq!(render_string("", grammar(), &plain).unwrap(), "");
}

#[test]
fn unread_input_is_reported_in_quotes() {
    let plain = OrderModeBuilder::new().build();
    assert_eq!(
        render_string("a[b", grammar(), &plain).unwrap_err(),
        "Failed to parse input, on \"[b\"."
    );
    assert_eq!(
        render_string("a]\"\n", grammar(), &plain).unwrap_err(),
        "Failed to parse input, on \"]\\\"\\n\"."
    );
    assert_eq!(failure_message("<x>"), "Failed to parse input, on <x>.");
}
