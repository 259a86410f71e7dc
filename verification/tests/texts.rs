use txtree::parser::{parse_forest, Brackets, ParseMode};
use txtree::text::{chars_of, find_token, skip_spaces, starts_at, string_of, trim_range};
use txtree::Node;

fn leaf(name: &str) -> Node {
    Node::new(name.to_string(), Vec::new())
}

fn node(name: &str, children: Vec<Node>) -> Node {
    Node::new(name.to_string(), children)
}

#[test]
fn chars_and_back() {
    assert_eq!(chars_of(""), Vec::<char>::new());
    assert_eq!(chars_of("aé╴"), vec!['a', 'é', '╴']);
    let v = chars_of("hello wörld");
    assert_eq!(string_of(&v, 0, v.len()), "hello wörld");
    assert_eq!(string_of(&v, 6, 9), "wör");
    assert_eq!(string_of(&v, 4, 4), "");
}

#[test]
fn white_space_runs() {
    let v = chars_of("a \t\n\u{2003}b ");
    assert_eq!(skip_spaces(&v, 0), 0);
    assert_eq!(skip_spaces(&v, 1), 5);
    assert_eq!(skip_spaces(&v, 3), 5);
    assert_eq!(skip_spaces(&v, 6), 7);
    assert_eq!(skip_spaces(&v, 7), 7);
}

#[test]
fn tokens_are_found_first_to_last() {
    let v = chars_of("ab->cd->");
    let arrow = chars_of("->");
    assert!(starts_at(&v, 2, &arrow));
    assert!(!starts_at(&v, 1, &arrow));
    assert!(!starts_at(&v, 7, &arrow));
    assert!(starts_at(&v, 8, &Vec::new()));
    assert_eq!(find_token(&v, 0, &arrow), 2);
    assert_eq!(find_token(&v, 2, &arrow), 2);
    assert_eq!(find_token(&v, 3, &arrow), 6);
    assert_eq!(find_token(&v, 7, &arrow), 8);
    assert_eq!(find_token(&v, 0, &chars_of("x")), 8);
    assert_eq!(find_token(&v, 3, &Vec::new()), 3);
    assert_eq!(find_token(&v, 8, &Vec::new()), 8);
}

#[test]
fn trimming_moves_both_bounds() {
    let v = chars_of("  ab c \t");
    assert_eq!(trim_range(&v, 0, v.len()), (2, 6));
    assert_eq!(trim_range(&v, 2, 6), (2, 6));
    assert_eq!(trim_range(&v, 0, 2), (2, 2));
    assert_eq!(trim_range(&v, 4, 8), (5, 6));
    assert_eq!(trim_range(&v, 3, 3), (3, 3));
}

#[test]
fn an_expression_parses_back_to_its_tree() {
    let forest = vec![
        node("a", vec![leaf("b"), node("c d", vec![leaf("e")])]),
        leaf("f"),
    ];
    let comma = ParseMode::new(",".to_string(), Brackets::parse("[]").unwrap(), false);
    assert_eq!(parse_forest("a[b,c d[e]],f", comma).unwrap(), forest);
    let words = ParseMode::new("->".to_string(), Brackets::parse("<<>>").unwrap(), true);
    assert_eq!(parse_forest("a<<b->c d<<e>>>>->f", words).unwrap(), forest);
}

#[test]
fn tokens_may_share_their_first_character() {
    let mode = ParseMode::new("->".to_string(), Brackets::parse("-[-]").unwrap(), false);
    let forest = vec![node("x-y", vec![leaf("b"), leaf("c")]), leaf("d")];
    assert_eq!(parse_forest("x-y-[b->c-]->d", mode).unwrap(), forest);
}

#[test]
fn a_token_across_a_name_boundary_is_found_early() {
    let mode = ParseMode::new("ab".to_string(), Brackets::parse("b]").unwrap(), false);
    let error = parse_forest("xab", mode).unwrap_err();
    assert_eq!(error.position, 1);
    assert_eq!(error.remainder, "ab");
}
