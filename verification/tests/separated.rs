use biome_bindings::separated::{
    join_formatted, print_pieces, FormatError, FormatPiece, JsonFormatSeparatedElementRule,
    SeparatedElement, SeparatedList, SeparatorSlot, SeparatorToken, TrailingSeparator,
};

fn token(text: &str, comments: &str) -> SeparatorSlot {
    SeparatorSlot::Token(SeparatorToken { text: text.to_string(), comments: comments.to_string() })
}

fn element(node: &str, slot: SeparatorSlot) -> SeparatedElement {
    SeparatedElement { node: Some(node.to_string()), trailing_separator: slot }
}

fn list(elements: Vec<SeparatedElement>) -> SeparatedList {
    SeparatedList { elements }
}

fn describe(pieces: &[FormatPiece]) -> Vec<String> {
    pieces
        .iter()
        .map(|p| match p {
            FormatPiece::Node(t) => format!("node:{t}"),
            FormatPiece::Separator(t) => format!("sep:{}{}", t.text, t.comments),
            FormatPiece::InsertedSeparator(t) => format!("inserted:{t}"),
            FormatPiece::SeparatorIfGroupBreaks(t) => format!("sep_if_breaks:{}{}", t.text, t.comments),
            FormatPiece::InsertedIfGroupBreaks(t) => format!("inserted_if_breaks:{t}"),
            FormatPiece::Removed(t) => format!("removed:{}{}", t.text, t.comments),
        })
        .collect()
}

fn format(l: &SeparatedList, separator: &str, policy: TrailingSeparator) -> Result<Vec<FormatPiece>, FormatError> {
    join_formatted(&l.format_separated(separator, policy))
}

#[test]
fn rule_formats_nodes_and_separators() {
    let rule = JsonFormatSeparatedElementRule;
    let n = rule.format_node(&"1".to_string());
    let s = rule.format_separator(&SeparatorToken { text: ",".to_string(), comments: String::new() });
    assert_eq!(describe(&[n, s]), vec!["node:1", "sep:,"]);
}

#[test]
fn one_item_per_element() {
    let l = list(vec![
        element("1", token(",", "")),
        element("2", token(",", "")),
        element("3", SeparatorSlot::Absent),
    ]);
    let items = l.format_separated(",", TrailingSeparator::Allowed);
    assert_eq!(items.len(), 3);
    assert_eq!(describe(items[0].as_ref().unwrap()), vec!["node:1", "sep:,"]);
    assert_eq!(describe(items[1].as_ref().unwrap()), vec!["node:2", "sep:,"]);
    assert_eq!(describe(items[2].as_ref().unwrap()), vec!["node:3", "inserted_if_breaks:,"]);
}

#[test]
fn separators_between_elements_are_reused() {
    let l = list(vec![
        element("1", token(";", "")),
        element("2", token(",", "")),
        element("3", SeparatorSlot::Absent),
    ]);
    let pieces = format(&l, ",", TrailingSeparator::Omit).unwrap();
    assert_eq!(describe(&pieces), vec!["node:1", "sep:;", "node:2", "sep:,", "node:3"]);
}

#[test]
fn allowed_prints_trailing_only_when_group_breaks() {
    let l = list(vec![element("1", token(",", "")), element("2", SeparatorSlot::Absent)]);
    let pieces = format(&l, ",", TrailingSeparator::Allowed).unwrap();
    assert_eq!(describe(&pieces), vec!["node:1", "sep:,", "node:2", "inserted_if_breaks:,"]);
    assert_eq!(print_pieces(&pieces, false), vec!["1", ",", "2"]);
    assert_eq!(print_pieces(&pieces, true), vec!["1", ",", "2", ","]);
}

#[test]
fn allowed_reuses_existing_trailing_separator_and_keeps_its_comments() {
    let l = list(vec![element("a", token(",", " // last"))]);
    let pieces = format(&l, ";", TrailingSeparator::Allowed).unwrap();
    assert_eq!(describe(&pieces), vec!["node:a", "sep_if_breaks:, // last"]);
    assert_eq!(print_pieces(&pieces, true), vec!["a", ", // last"]);
    assert_eq!(print_pieces(&pieces, false), vec!["a", " // last"]);

    let plain = list(vec![element("a", token(",", ""))]);
    let pieces = format(&plain, ";", TrailingSeparator::Allowed).unwrap();
    assert_eq!(print_pieces(&pieces, false), vec!["a"]);
}

#[test]
fn mandatory_always_prints_trailing() {
    let inserted = format(
        &list(vec![element("1", token(",", "")), element("2", SeparatorSlot::Absent)]),
        ",",
        TrailingSeparator::Mandatory,
    )
    .unwrap();
    assert_eq!(describe(&inserted), vec!["node:1", "sep:,", "node:2", "inserted:,"]);
    assert_eq!(print_pieces(&inserted, false), vec!["1", ",", "2", ","]);
    assert_eq!(print_pieces(&inserted, true), vec!["1", ",", "2", ","]);

    let reused = format(&list(vec![element("x", token(";", ""))]), ",", TrailingSeparator::Mandatory)
        .unwrap();
    assert_eq!(describe(&reused), vec!["node:x", "sep:;"]);
}

#[test]
fn omit_removes_trailing_separator_but_keeps_its_comments() {
    let pieces = format(
        &list(vec![element("1", token(",", "")), element("2", token(",", " /* c */"))]),
        ",",
        TrailingSeparator::Omit,
    )
    .unwrap();
    assert_eq!(describe(&pieces), vec!["node:1", "sep:,", "node:2", "removed:, /* c */"]);
    assert_eq!(print_pieces(&pieces, true), vec!["1", ",", "2", " /* c */"]);
    assert_eq!(print_pieces(&pieces, false), vec!["1", ",", "2", " /* c */"]);

    let plain = format(
        &list(vec![element("1", token(",", "")), element("2", token(",", ""))]),
        ",",
        TrailingSeparator::Omit,
    )
    .unwrap();
    assert_eq!(print_pieces(&plain, true), vec!["1", ",", "2"]);
}

#[test]
fn disallowed_rejects_trailing_separator() {
    let l = list(vec![element("1", token(",", "")), element("2", token(",", ""))]);
    let items = l.format_separated(",", TrailingSeparator::Disallowed);
    assert!(items[0].is_ok());
    assert!(matches!(items[1], Err(FormatError::SyntaxError)));
    assert!(matches!(join_formatted(&items), Err(FormatError::SyntaxError)));

    let ok = format(
        &list(vec![element("1", token(",", "")), element("2", SeparatorSlot::Absent)]),
        ",",
        TrailingSeparator::Disallowed,
    )
    .unwrap();
    assert_eq!(describe(&ok), vec!["node:1", "sep:,", "node:2"]);
    assert_eq!(print_pieces(&ok, true), vec!["1", ",", "2"]);
}

#[test]
fn missing_node_is_a_syntax_error_at_its_item() {
    let l = list(vec![
        element("1", token(",", "")),
        SeparatedElement { node: None, trailing_separator: token(",", "") },
        element("3", SeparatorSlot::Absent),
    ]);
    let items = l.format_separated(",", TrailingSeparator::Allowed);
    assert_eq!(describe(items[0].as_ref().unwrap()), vec!["node:1", "sep:,"]);
    assert!(matches!(items[1], Err(FormatError::SyntaxError)));
    assert_eq!(describe(items[2].as_ref().unwrap()), vec!["node:3", "inserted_if_breaks:,"]);
    assert!(matches!(join_formatted(&items), Err(FormatError::SyntaxError)));
}

#[test]
fn missing_separator_is_a_syntax_error_at_its_item() {
    let l = list(vec![element("1", SeparatorSlot::Missing), element("2", SeparatorSlot::Absent)]);
    let items = l.format_separated(",", TrailingSeparator::Mandatory);
    assert!(matches!(items[0], Err(FormatError::SyntaxError)));
    assert_eq!(describe(items[1].as_ref().unwrap()), vec!["node:2", "inserted:,"]);
    assert!(join_formatted(&items).is_err());
}

#[test]
fn empty_list_formats_to_nothing() {
    for policy in [
        TrailingSeparator::Allowed,
        TrailingSeparator::Disallowed,
        TrailingSeparator::Omit,
        TrailingSeparator::Mandatory,
    ] {
        let pieces = format(&list(vec![]), ",", policy).unwrap();
        assert!(pieces.is_empty());
        assert!(print_pieces(&pieces, true).is_empty());
    }
}

#[test]
fn every_separator_printed_when_all_present() {
    let pieces = format(
        &list(vec![
            element("a", token(",", "")),
            element("b", token(",", " // b")),
            element("c", token(",", "")),
        ]),
        ",",
        TrailingSeparator::Allowed,
    )
    .unwrap();
    assert_eq!(print_pieces(&pieces, true), vec!["a", ",", "b", ", // b", "c", ","]);
}
