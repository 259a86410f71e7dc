use txtree::error::ConfigError;
use txtree::render::symbols::Symbols;
use txtree::render::{Alignment, AlignmentBuilder, DemoGrid, RenderMode, SymbolsBuilder};

fn connectors(s: &Symbols) -> String {
    [
        s.vertical,
        s.horizontal,
        s.crossing,
        s.branch_right,
        s.branch_left,
        s.branch_down,
        s.branch_up,
        s.corner_down_right,
        s.corner_down_left,
        s.corner_up_right,
        s.corner_up_left,
    ]
    .iter()
    .collect()
}

#[test]
fn preset_styles() {
    let s = Symbols::default();
    assert_eq!(connectors(&s), "│─┼├┤┬┴┌┐└┘");
    assert_eq!((s.cap_right.as_str(), s.cap_left.as_str()), ("╴", "╶"));
    let s = Symbols::rounded();
    assert_eq!(connectors(&s), "│─┼├┤┬┴╭╮╰╯");
    assert_eq!((s.cap_right.as_str(), s.cap_left.as_str()), ("╴", "╶"));
    let s = Symbols::ascii();
    assert_eq!(connectors(&s), "|-+++++++++");
    assert_eq!((s.cap_right.as_str(), s.cap_left.as_str()), ("- ", " -"));
}

#[test]
fn custom_symbols_split_the_caps() {
    let s = Symbols::parse("0123456789AXYZW").unwrap();
    assert_eq!(connectors(&s), "0123456789A");
    assert_eq!((s.cap_right.as_str(), s.cap_left.as_str()), ("XY", "ZW"));
    let s = Symbols::parse("0123456789AXYZ").unwrap();
    assert_eq!((s.cap_right.as_str(), s.cap_left.as_str()), ("X", "YZ"));
    let s = Symbols::parse("0123456789A").unwrap();
    assert_eq!((s.cap_right.as_str(), s.cap_left.as_str()), ("", ""));
    let s = Symbols::parse("│─┼├┤┬┴┌┐└┘╴╶").unwrap();
    assert_eq!(connectors(&s), "│─┼├┤┬┴┌┐└┘");
    assert_eq!((s.cap_right.as_str(), s.cap_left.as_str()), ("╴", "╶"));
}

#[test]
fn short_symbol_strings_are_refused() {
    assert_eq!(Symbols::parse("").unwrap_err(), ConfigError::SymbolsTooShort);
    assert_eq!(Symbols::parse("0123456789").unwrap_err(), ConfigError::SymbolsTooShort);
    assert_eq!(Symbols::parse("│─┼├┤┬┴┌┐└").unwrap_err(), ConfigError::SymbolsTooShort);
    assert_eq!(
        ConfigError::SymbolsTooShort.message(),
        "Not enough characters in string"
    );
}

#[test]
fn builder_falls_back_in_order() {
    assert_eq!(connectors(&SymbolsBuilder::new().build()), "│─┼├┤┬┴┌┐└┘");
    assert_eq!(
        connectors(&SymbolsBuilder::new().default_to_rounded(true).build()),
        "│─┼├┤┬┴╭╮╰╯"
    );
    let both = SymbolsBuilder::new().default_to_rounded(true).default_to_ascii(true).build();
    assert_eq!(connectors(&both), "|-+++++++++");
    assert_eq!((both.cap_right.as_str(), both.cap_left.as_str()), ("- ", " -"));
}

#[test]
fn builder_overrides_slot_by_slot() {
    let s = SymbolsBuilder::default()
        .default_to_ascii(true)
        .vertical(Some('V'))
        .horizontal(Some('H'))
        .crossing(Some('X'))
        .branch_right(Some('R'))
        .branch_left(Some('L'))
        .branch_down(Some('D'))
        .branch_up(Some('U'))
        .corner_down_right(Some('1'))
        .corner_down_left(Some('2'))
        .corner_up_right(Some('3'))
        .corner_up_left(Some('4'))
        .cap_right(Some(">".to_string()))
        .cap_left(Some("<".to_string()))
        .build();
    assert_eq!(connectors(&s), "VHXRLDU1234");
    assert_eq!((s.cap_right.as_str(), s.cap_left.as_str()), (">", "<"));
    let s = SymbolsBuilder::new()
        .default_to_ascii(true)
        .crossing(Some('X'))
        .cap_left(Some("<<".to_string()))
        .vertical(Some('V'))
        .vertical(None)
        .build();
    assert_eq!(connectors(&s), "|-X++++++++");
    assert_eq!((s.cap_right.as_str(), s.cap_left.as_str()), ("- ", "<<"));
}

#[test]
fn a_symbol_set_overrides_every_slot() {
    let custom = Symbols::parse("0123456789AXYZW").unwrap();
    let s = SymbolsBuilder::new()
        .opt_symbol_set(Some(custom))
        .default_to_ascii(true)
        .default_to_rounded(true)
        .build();
    assert_eq!(connectors(&s), "0123456789A");
    assert_eq!((s.cap_right.as_str(), s.cap_left.as_str()), ("XY", "ZW"));
    let s = SymbolsBuilder::new().default_to_ascii(true).opt_symbol_set(None).build();
    assert_eq!(connectors(&s), "|-+++++++++");
}

#[test]
fn alignment_priorities() {
    assert_eq!(AlignmentBuilder::new().build(), Alignment::Start);
    assert_eq!(AlignmentBuilder::default().build(), Alignment::Start);
    assert_eq!(AlignmentBuilder::new().flipped(true).build(), Alignment::End);
    assert_eq!(AlignmentBuilder::new().centered(true).build(), Alignment::Middle);
    assert_eq!(
        AlignmentBuilder::new().flipped(true).centered(true).build(),
        Alignment::Middle
    );
    assert_eq!(
        AlignmentBuilder::new().flipped(true).flipped(false).build(),
        Alignment::Start
    );
}

#[test]
fn demo_grid_shows_every_glyph() {
    assert_eq!(DemoGrid::new(&Symbols::default()).0, "┌─┬─┐\n├─┼─┤\n├╴│╶┤\n└─┴─┘");
    assert_eq!(DemoGrid::new(&Symbols::rounded()).0, "╭─┬─╮\n├─┼─┤\n├╴│╶┤\n╰─┴─╯");
    assert_eq!(
        DemoGrid::new(&Symbols::ascii()).0,
        "+--+--+\n+--+--+\n+- | -+\n+--+--+"
    );
    let bare = Symbols::parse("0123456789A").unwrap();
    assert_eq!(DemoGrid::new(&bare).0, "71518\n31214\n3 0 4\n9161A");
    let wide = Symbols::parse("0123456789Aabcde").unwrap();
    assert_eq!(DemoGrid::new(&wide).0, "71151118\n31121114\n3ab0cde4\n9116111A");
}

#[test]
fn render_mode_keeps_its_parts() {
    let mode = RenderMode::new(Symbols::ascii(), 2, 3, true, false, true, Alignment::End);
    assert_eq!(mode.demo_grid.0, "+--+--+\n+--+--+\n+- | -+\n+--+--+");
    assert_eq!(connectors(&mode.symbol_set), "|-+++++++++");
    assert_eq!((mode.lines, mode.gaps), (2, 3));
    assert_eq!((mode.chain, mode.vertical, mode.invert), (true, false, true));
    assert_eq!(mode.align_root, Alignment::End);
}
