use instantmenu::icons::{catalog, is_emoji_char, is_icon_char, lookup, names, normalize, search};

fn lookup_str(spec: &str) -> Option<String> {
    lookup(spec).map(|c| c.to_string())
}

/// The literal glyph passes through untouched.
#[test]
fn literal_glyphs_resolve_to_themselves() {
    assert_eq!(lookup("\u{f011}"), Some('\u{f011}')); // nf-fa-power_off
    assert_eq!(lookup("\u{f0425}"), Some('\u{f0425}')); // nf-md-power
    assert_eq!(lookup("\u{1f5a5}"), Some('\u{1f5a5}')); // emoji
    assert_eq!(lookup(" \u{f011} "), Some('\u{f011}'));
}

/// Plain words that name no icon do not resolve.
#[test]
fn plain_characters_do_not_resolve() {
    assert_eq!(lookup("a"), None);
    assert_eq!(lookup("qqq"), None);
    assert_eq!(lookup("zzz"), None);
}

/// Separator and case variants of a name all resolve to the same glyph.
#[test]
fn name_separators_and_case_do_not_matter() {
    let power = lookup_str("md-power").unwrap(); // f0425
    for spec in ["power", "Power", "md-power", "md_power", "MD POWER"] {
        assert_eq!(lookup_str(spec), Some(power.clone()), "{spec}");
    }
    let power_off = lookup_str("md-power_off").unwrap(); // f0902
    for spec in [
        "power-off",
        "power_off",
        "poweroff",
        "power off",
        "nf-md-power_off",
    ] {
        assert_eq!(lookup_str(spec), Some(power_off.clone()), "{spec}");
    }
}

/// The bare name prefers Material Design; a family qualifier selects that
/// family's glyph instead.
#[test]
fn qualified_names_select_their_family() {
    assert_eq!(lookup("poweroff"), Some('\u{f0902}'));
    assert_eq!(lookup("fa-power_off"), Some('\u{f011}'));
    assert_eq!(lookup("nf-fa-power_off"), Some('\u{f011}'));
}

/// The aliases resolve, and only to glyphs the tables actually contain.
#[test]
fn aliases_resolve_to_existing_names() {
    assert_eq!(lookup("shutdown"), lookup("poweroff"));
    assert_eq!(lookup("reboot"), lookup("restart"));
    assert_eq!(lookup("brightness"), lookup("brightness5"));
    for (alias, target) in names::aliases() {
        // keys and targets must already be normalized to be reachable
        assert_eq!(normalize(alias), alias, "{alias}");
        assert_eq!(normalize(target), target, "{target}");
        let resolved = lookup(alias).unwrap_or_else(|| panic!("{alias}"));
        let expected = lookup(target).unwrap_or_else(|| panic!("{target}"));
        assert_eq!(resolved, expected, "{alias}");
    }
}

#[test]
fn catalog_search_is_normalized_and_complete() {
    assert_eq!(catalog().len(), names::qualified().len());
    let results = search("power-off");
    assert!(results.iter().any(|icon| icon.name == "fapoweroff"));
    assert!(results.iter().any(|icon| icon.name == "mdpoweroff"));
    assert_eq!(search("MD POWER_OFF"), search("mdpoweroff"));
    assert_eq!(search("").len(), catalog().len());
}

/// Hex codepoints in the icon ranges resolve; hex-looking words outside them
/// and unknown names do not.
#[test]
fn hex_codepoints_resolve_only_inside_icon_ranges() {
    assert_eq!(lookup("f011"), Some('\u{f011}'));
    assert_eq!(lookup("0xf011"), Some('\u{f011}'));
    assert_eq!(lookup("u+f011"), Some('\u{f011}'));
    assert_eq!(lookup("\\u{f0425}"), Some('\u{f0425}'));
    assert_eq!(lookup("1f5a5"), Some('\u{1f5a5}'));
    // valid hex, but 0xcafe is not an icon codepoint
    assert_eq!(lookup("cafe"), None);
    assert_eq!(lookup("no-such-icon"), None);
    assert_eq!(lookup(""), None);
    assert_eq!(lookup("   "), None);
}

#[test]
fn icon_and_emoji_ranges_have_exact_edges() {
    assert!(is_icon_char('\u{e000}'));
    assert!(is_icon_char('\u{f8ff}'));
    assert!(!is_icon_char('\u{f900}'));
    assert!(is_emoji_char('\u{1f000}'));
    assert!(is_emoji_char('\u{2600}'));
    assert!(!is_emoji_char('\u{27c0}'));
    assert!(!is_emoji_char('a'));
}

#[test]
fn hex_spellings_need_three_to_six_digits() {
    assert_eq!(lookup("e00"), None);
    assert_eq!(lookup("0x00e000"), Some('\u{e000}'));
    assert_eq!(lookup("0x1000000"), None);
    // the table wins over the hex reading
    assert_eq!(lookup("mdapps"), Some('\u{f003b}'));
}

#[test]
fn search_ignores_the_spelling_of_the_query() {
    let a: Vec<&str> = search("MD POWER_OFF").iter().map(|i| i.name).collect();
    let b: Vec<&str> = search("mdpoweroff").iter().map(|i| i.name).collect();
    assert_eq!(a, b);
    assert_eq!(search("").len(), catalog().len());
    let names: Vec<&str> = search("power-off").iter().map(|i| i.name).collect();
    assert!(names.contains(&"fapoweroff"));
    assert!(names.contains(&"mdpoweroff"));
    assert_eq!(lookup("Power Off"), lookup(&normalize("Power Off")));
}
