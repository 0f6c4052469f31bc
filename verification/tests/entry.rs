use instantmenu::entry::{parse, ParsedItem};
use instantmenu::enums::Scheme;
use instantmenu::icons;

#[test]
fn plain_lines_are_unchanged() {
    for text in ["Display", "", ":red:power: Shutdown", ">Heading"] {
        assert_eq!(parse(text), ParsedItem::plain(text), "{text}");
    }
}

#[test]
fn doubled_opening_brace_escapes_a_literal_markup_like_label() {
    let parsed = parse("{{red} Literal braces");
    assert_eq!(parsed, ParsedItem::plain("{red} Literal braces"));
}

#[test]
fn color_shorthand_and_explicit_color_are_equivalent() {
    let short = parse("{red} Shut down");
    let explicit = parse("{color=red} Shut down");
    assert_eq!(short, explicit);
    assert_eq!(short.label, "Shut down");
    assert_eq!(short.entry.scheme, Some(Scheme::Red));
}

#[test]
fn every_named_scheme_parses() {
    for (name, scheme) in [
        ("normal", Scheme::Normal),
        ("default", Scheme::Normal),
        ("fade", Scheme::Fade),
        ("highlight", Scheme::Highlight),
        ("hover", Scheme::Hover),
        ("selected", Scheme::Selected),
        ("blue", Scheme::Selected),
        ("output", Scheme::Output),
        ("green", Scheme::Green),
        ("yellow", Scheme::Yellow),
        ("red", Scheme::Red),
    ] {
        assert_eq!(parse(&format!("{{{name}}} x")).entry.scheme, Some(scheme));
        assert_eq!(
            parse(&format!("{{color={name}}} x")).entry.scheme,
            Some(scheme)
        );
    }
}

#[test]
fn attributes_compose_in_any_order() {
    let parsed = parse("{key=d blue icon=display match='monitor screen'} Display");
    assert_eq!(parsed.label, "Display");
    assert_eq!(parsed.match_text.as_deref(), Some("monitor screen"));
    assert_eq!(parsed.entry.scheme, Some(Scheme::Selected));
    assert_eq!(parsed.entry.icon, icons::lookup("display"));
    assert_eq!(parsed.entry.key, Some('d'));
    assert!(!parsed.entry.heading);
    assert_eq!(parsed.value, None);
}

#[test]
fn value_is_hidden_output_without_changing_label_or_search() {
    let parsed = parse("{value=one} same");
    assert_eq!(parsed.label, "same");
    assert_eq!(parsed.value.as_deref(), Some("one"));
    assert_eq!(parsed.match_text, None);

    let with_match = parse("{value=two match=alt} Label");
    assert_eq!(with_match.label, "Label");
    assert_eq!(with_match.value.as_deref(), Some("two"));
    assert_eq!(with_match.match_text.as_deref(), Some("alt"));

    let quoted = parse(r#"{value="file:/tmp/a b"} My File"#);
    assert_eq!(quoted.label, "My File");
    assert_eq!(quoted.value.as_deref(), Some("file:/tmp/a b"));

    let icon_value = parse("{value=one icon=star} same");
    assert_eq!(icon_value.label, "same");
    assert_eq!(icon_value.value.as_deref(), Some("one"));
    assert_eq!(icon_value.entry.icon, icons::lookup("star"));

    // value composes in any order with other attributes
    let any_order = parse("{icon=display value=out match=alt red} X");
    assert_eq!(any_order.label, "X");
    assert_eq!(any_order.value.as_deref(), Some("out"));
    assert_eq!(any_order.match_text.as_deref(), Some("alt"));
    assert_eq!(any_order.entry.scheme, Some(Scheme::Red));
}

#[test]
fn quoted_values_support_spaces_braces_and_escapes() {
    let parsed = parse(r#"{match="one \"two\" } three" color=green} Label"#);
    assert_eq!(parsed.label, "Label");
    assert_eq!(parsed.match_text.as_deref(), Some("one \"two\" } three"));
}

#[test]
fn unicode_keys_are_single_characters() {
    assert_eq!(parse("{key=λ} Lambda").entry.key, Some('λ'));
    for invalid in ["{key=} x", "{key=ab} x", "{key=' '} x", "{key='\t'} x"] {
        assert_eq!(parse(invalid), ParsedItem::plain(invalid), "{invalid}");
    }
}

#[test]
fn headings_may_be_styled_but_not_searchable_or_activated() {
    let heading = parse("{heading green icon=display} Displays");
    assert!(heading.entry.heading);
    assert_eq!(heading.entry.scheme, Some(Scheme::Green));
    assert_eq!(heading.entry.icon, icons::lookup("display"));

    for invalid in [
        "{heading key=d} Displays",
        "{heading match=monitor} Displays",
        "{heading value=one} Displays",
    ] {
        assert_eq!(parse(invalid), ParsedItem::plain(invalid), "{invalid}");
    }
}

#[test]
fn invalid_markup_is_literal_and_never_partially_consumed() {
    for text in [
        "{} Empty",
        "{purple} Unknown color",
        "{color=gren} Typo",
        "{icon=not-an-icon} Unknown icon",
        "{wat=yes} Unknown attribute",
        "{red green} Duplicate color",
        "{color=red color=green} Duplicate field",
        "{heading heading} Duplicate flag",
        "{match=} Empty match",
        "{value=} Empty value",
        "{value=one value=two} Duplicate value",
        "{value =one} Space before equals",
        "{red}No separator",
        "{red Nested { block} Label",
        "{red Unclosed",
        "{match=\"unclosed} Label",
        "{match =value} Label",
        "{value=\"unclosed} Label",
    ] {
        assert_eq!(parse(text), ParsedItem::plain(text), "{text}");
    }
}

#[test]
fn labels_may_be_empty_and_leading_separator_space_is_not_rendered() {
    assert_eq!(parse("{icon=power}").label, "");
    assert_eq!(parse("{red}    padded").label, "padded");
}

#[test]
fn attribute_names_are_case_insensitive_and_keys_keep_their_case() {
    let parsed = parse("{COLOR=Red Heading} Title");
    assert_eq!(parsed.entry.scheme, Some(Scheme::Red));
    assert!(parsed.entry.is_heading());
    assert_eq!(
        parse("{COLOR=Red KEY=D Heading} Title"),
        ParsedItem::plain("{COLOR=Red KEY=D Heading} Title")
    );
    let keyed = parse("{Key=D} Title");
    assert_eq!(keyed.entry.key, Some('D'));
    assert_eq!(keyed.label, "Title");
}

#[test]
fn escapes_and_single_quotes_inside_values() {
    let parsed = parse(r"{match='it\'s' value='a\\b'} Label");
    assert_eq!(parsed.match_text.as_deref(), Some("it's"));
    assert_eq!(parsed.value.as_deref(), Some(r"a\b"));
    assert_eq!(parsed.label, "Label");
}

#[test]
fn unicode_white_space_separates_the_block_from_the_label() {
    let parsed = parse("{red}\u{3000}Wide space");
    assert_eq!(parsed.entry.scheme, Some(Scheme::Red));
    assert_eq!(parsed.label, "Wide space");
    let tabbed = parse("{red}\tTabbed");
    assert_eq!(tabbed.label, "Tabbed");
}
