use txtree::error::ConfigError;
use txtree::parser::{map_node, node_name, parse_forest, parse_nodes, Brackets, ParseMode};
use txtree::Node;

fn leaf(name: &str) -> Node {
    Node::new(name.to_string(), Vec::new())
}

fn node(name: &str, children: Vec<Node>) -> Node {
    Node::new(name.to_string(), children)
}

fn mode(delimiter: &str, brackets: &str, trim: bool) -> ParseMode {
    ParseMode::new(delimiter.to_string(), Brackets::parse(brackets).unwrap(), trim)
}

#[test]
fn name_ends_at_the_first_token() {
    let (rest, forest) = parse_nodes("a,b[c]", mode(",", "[]", false));
    assert_eq!(rest, "");
    assert_eq!(forest, vec![leaf("a"), node("b", vec![leaf("c")])]);
}

#[test]
fn nested_lists_are_parsed() {
    let (rest, forest) = parse_nodes("a[b,c[d,e]]", mode(",", "[]", false));
    assert_eq!(rest, "");
    assert_eq!(
        forest,
        vec![node("a", vec![leaf("b"), node("c", vec![leaf("d"), leaf("e")])])]
    );
}

#[test]
fn word_brackets_tolerate_white_space() {
    let grammar = mode(",", "BEGIN  END", true);
    assert_eq!(grammar.brackets.open, "BEGIN");
    assert_eq!(grammar.brackets.close, "END");
    let (rest, forest) = parse_nodes("x BEGIN y END", grammar);
    assert_eq!(rest, "");
    assert_eq!(forest, vec![node("x", vec![leaf("y")])]);
}

#[test]
fn names_keep_white_space_without_trim() {
    let (rest, forest) = parse_nodes("x BEGIN y END", mode(",", "BEGIN  END", false));
    assert_eq!(rest, "");
    assert_eq!(forest, vec![node("x ", vec![leaf(" y ")])]);
}

#[test]
fn white_space_before_tokens_is_skipped() {
    let (rest, forest) = parse_nodes("a[b]  ,c", mode(",", "[]", false));
    assert_eq!(rest, "");
    assert_eq!(forest, vec![node("a", vec![leaf("b")]), leaf("c")]);
}

#[test]
fn empty_brackets_give_no_children() {
    let (rest, forest) = parse_nodes("a[]", mode(",", "[]", false));
    assert_eq!(rest, "");
    assert_eq!(forest, vec![leaf("a")]);
    let (_, plain) = parse_nodes("a", mode(",", "[]", false));
    assert_eq!(forest, plain);
}

#[test]
fn empty_input_is_an_empty_forest() {
    let (rest, forest) = parse_nodes("", mode(",", "[]", false));
    assert_eq!(rest, "");
    assert_eq!(forest, Vec::<Node>::new());
    assert_eq!(parse_forest("", mode(",", "[]", false)).unwrap(), Vec::<Node>::new());
}

#[test]
fn unterminated_bracket_is_left_unread() {
    let (rest, forest) = parse_nodes("a[b", mode(",", "[]", false));
    assert_eq!(rest, "[b");
    assert_eq!(forest, vec![leaf("a")]);
    let error = parse_forest("a[b", mode(",", "[]", false)).unwrap_err();
    assert_eq!(error.position, 1);
    assert_eq!(error.remainder, "[b");
}

#[test]
fn mismatched_bracket_is_refused() {
    let error = parse_forest("a]b", mode(",", "[]", false)).unwrap_err();
    assert_eq!(error.position, 1);
    assert_eq!(error.remainder, "]b");
}

#[test]
fn empty_name_is_refused() {
    let error = parse_forest(",a", mode(",", "[]", false)).unwrap_err();
    assert_eq!(error.position, 0);
    assert_eq!(error.remainder, ",a");
    let error = parse_forest("a,,b", mode(",", "[]", false)).unwrap_err();
    assert_eq!(error.position, 1);
    assert_eq!(error.remainder, ",,b");
}

#[test]
fn trailing_delimiter_is_not_consumed() {
    let (rest, forest) = parse_nodes("a,", mode(",", "[]", false));
    assert_eq!(rest, ",");
    assert_eq!(forest, vec![leaf("a")]);
}

#[test]
fn whole_input_gives_the_forest() {
    let forest = parse_forest("a,b[c]", mode(",", "[]", false)).unwrap();
    assert_eq!(forest, vec![leaf("a"), node("b", vec![leaf("c")])]);
}

#[test]
fn positions_count_characters() {
    let error = parse_forest("é[ü", mode(",", "[]", false)).unwrap_err();
    assert_eq!(error.position, 1);
    assert_eq!(error.remainder, "[ü");
}

#[test]
fn multi_character_tokens() {
    let forest = parse_forest("a->b((c->d))", mode("->", "(())", false)).unwrap();
    assert_eq!(forest, vec![leaf("a"), node("b", vec![leaf("c"), leaf("d")])]);
}

#[test]
fn empty_delimiter_never_finds_a_name() {
    let (rest, forest) = parse_nodes("abc", mode("", "[]", false));
    assert_eq!(rest, "abc");
    assert_eq!(forest, Vec::<Node>::new());
}

#[test]
fn node_name_splits_at_the_first_token() {
    let grammar = mode(",", "[]", false);
    assert_eq!(
        node_name("abc,def", &grammar).unwrap(),
        (",def".to_string(), "abc".to_string())
    );
    assert_eq!(
        node_name("ab]c[d,e", &grammar).unwrap(),
        ("]c[d,e".to_string(), "ab".to_string())
    );
    assert_eq!(node_name("abc", &grammar).unwrap(), (String::new(), "abc".to_string()));
    assert_eq!(
        node_name(" a ,b", &mode(",", "[]", true)).unwrap(),
        (",b".to_string(), " a ".to_string())
    );
}

#[test]
fn node_name_refuses_an_empty_name() {
    let grammar = mode(",", "[]", false);
    let error = node_name(",x", &grammar).unwrap_err();
    assert_eq!(error.position, 0);
    assert_eq!(error.remainder, ",x");
    let error = node_name("", &grammar).unwrap_err();
    assert_eq!(error.position, 0);
    assert_eq!(error.remainder, "");
}

#[test]
fn map_node_trims_on_request() {
    let trimming = mode(",", "[]", true);
    let keeping = mode(",", "[]", false);
    assert_eq!(map_node(&trimming, "  x \t", None), leaf("x"));
    assert_eq!(map_node(&keeping, "  x ", None), leaf("  x "));
    assert_eq!(map_node(&trimming, "   ", None), leaf(""));
    assert_eq!(
        map_node(&trimming, "p", Some(vec![leaf("q")])),
        node("p", vec![leaf("q")])
    );
    assert_eq!(map_node(&trimming, "\u{3000}x\u{a0}", None), leaf("x"));
}

#[test]
fn brackets_split_in_halves() {
    let b = Brackets::parse("[]").unwrap();
    assert_eq!((b.open.as_str(), b.close.as_str()), ("[", "]"));
    let b = Brackets::parse("BEGIN  END").unwrap();
    assert_eq!((b.open.as_str(), b.close.as_str()), ("BEGIN", "END"));
    let b = Brackets::parse("abc").unwrap();
    assert_eq!((b.open.as_str(), b.close.as_str()), ("a", "bc"));
    let b = Brackets::parse("「」").unwrap();
    assert_eq!((b.open.as_str(), b.close.as_str()), ("「", "」"));
    let b = Brackets::parse("  ").unwrap();
    assert_eq!((b.open.as_str(), b.close.as_str()), ("", ""));
}

#[test]
fn short_bracket_strings_are_refused() {
    assert_eq!(Brackets::parse("").unwrap_err(), ConfigError::BracketsTooShort);
    assert_eq!(Brackets::parse("[").unwrap_err(), ConfigError::BracketsTooShort);
    assert_eq!(Brackets::parse("é").unwrap_err(), ConfigError::BracketsTooShort);
    assert_eq!(
        ConfigError::BracketsTooShort.message(),
        "Not enough chars in string"
    );
}

#[test]
fn parse_mode_shows_its_tokens() {
    assert_eq!(mode(",", "[]", false).to_string(), ",[]");
    assert_eq!(mode("->", "BEGIN  END", true).to_string(), "->BEGINEND");
    let t = mode("->", "()", true).tokens();
    assert_eq!(t.delimiter, vec!['-', '>']);
    assert_eq!(t.open, vec!['(']);
    assert_eq!(t.close, vec![')']);
    assert!(t.trim);
}
