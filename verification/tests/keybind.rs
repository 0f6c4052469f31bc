use instantmenu::backend::Modifiers;
use instantmenu::keybind::{is_supported_menu_key, KeySpec, Keybind, KeybindError, NO_SYMBOL};

/// Keysym values (X11 keysymdef.h) for the keys these tests bind.
const KEY_E_LOWER: u32 = 0x0065;
const KEY_A_UPPER: u32 = 0x0041;
const KEY_F3: u32 = 0xffc0;

fn chars(s: &str) -> Vec<char> {
    s.chars().collect()
}

fn bind(spec: &str, sym: u32) -> Keybind {
    Keybind::from_spec(KeySpec::parse_spec(spec).unwrap(), sym).unwrap()
}

#[test]
fn rejects_unsafe_reserved_and_malformed_bindings() {
    for spec in [
        "ctrl-c:Quit",
        "enter:Submit",
        "ctrl-j:Jump",
        "ctrl-e",
        "ctrl-e:",
        "ctrl-e:bad\nlabel",
        "load:Oops",
        "ctrl-e,alt-s:Oops",
    ] {
        assert!(KeySpec::parse_spec(spec).is_err(), "{spec:?}");
    }
}

#[test]
fn matches_exact_modifiers_and_function_keys() {
    let spec = KeySpec::parse_spec("ctrl-alt-e:Edit: details").unwrap();
    assert_eq!(spec.name, "e");
    assert!(spec.exact_case);
    let binding = Keybind::from_spec(spec, KEY_E_LOWER).unwrap();
    assert!(binding.matches(
        KEY_E_LOWER,
        Modifiers {
            ctrl: true,
            alt: true,
            ..Modifiers::default()
        }
    ));
    assert!(!binding.matches(
        KEY_E_LOWER,
        Modifiers {
            ctrl: true,
            ..Modifiers::default()
        }
    ));
    let f3 = KeySpec::parse_spec("f3:Open").unwrap();
    assert_eq!(f3.name, "f3");
    assert!(!f3.exact_case);
    assert!(Keybind::from_spec(f3, KEY_F3)
        .unwrap()
        .matches(KEY_F3, Modifiers::default()));
    assert!(bind("A:Add", KEY_A_UPPER).matches(
        KEY_A_UPPER,
        Modifiers {
            shift: true,
            ..Modifiers::default()
        }
    ));
}

#[test]
fn each_refusal_names_its_reason() {
    assert_eq!(
        KeySpec::parse_spec("ctrl-e"),
        Err(KeybindError::MissingSeparator)
    );
    assert_eq!(
        KeySpec::parse_spec("ctrl-c:Quit"),
        Err(KeybindError::UnsupportedKey("ctrl-c".to_string()))
    );
    assert_eq!(
        KeySpec::parse_spec("load:Oops"),
        Err(KeybindError::UnsupportedKey("load".to_string()))
    );
    assert_eq!(KeySpec::parse_spec("ctrl-e:   "), Err(KeybindError::InvalidLabel));
    assert_eq!(
        KeySpec::parse_spec("ctrl-e:a\tb"),
        Err(KeybindError::InvalidLabel)
    );
    let spec = KeySpec::parse_spec("ctrl-e:Edit").unwrap();
    assert_eq!(
        Keybind::from_spec(spec, NO_SYMBOL).unwrap_err(),
        KeybindError::UnknownKey("ctrl-e".to_string())
    );
}

#[test]
fn the_label_is_everything_after_the_first_colon() {
    let spec = KeySpec::parse_spec("alt-1:Run: now").unwrap();
    assert_eq!(spec.key, "alt-1");
    assert_eq!(spec.label, "Run: now");
    assert_eq!(
        spec.mods,
        Modifiers {
            alt: true,
            ..Modifiers::default()
        }
    );
}

#[test]
fn named_keys_map_to_keysym_names() {
    let cases = [
        ("ctrl-enter:X", "Return"),
        ("alt-space:X", "space"),
        ("ctrl-backspace:X", "BackSpace"),
        ("shift-delete:X", "Delete"),
        ("ctrl-page-up:X", "Prior"),
        ("alt-shift-page-down:X", "Next"),
        ("ctrl-alt-shift-home:X", "Home"),
        ("f12:X", "f12"),
        ("7:X", "7"),
    ];
    for (spec, name) in cases {
        let parsed = KeySpec::parse_spec(spec).unwrap();
        assert_eq!(parsed.name, name, "{spec}");
    }
    let mods = KeySpec::parse_spec("ctrl-alt-shift-home:X").unwrap().mods;
    assert!(mods.ctrl && mods.alt && mods.shift && !mods.logo);
}

#[test]
fn supported_keys_follow_the_modifier_rules() {
    for key in [
        "f1", "f12", "a", "Z", "5", "ctrl-a", "ctrl-up", "ctrl-alt-x", "alt-7", "alt-shift-left",
        "shift-tab", "ctrl-shift-end", "page-down",
    ] {
        assert!(is_supported_menu_key(&chars(key)), "{key}");
    }
    for key in [
        "f", "f0", "f13", "ctrl-A", "ctrl-1", "shift-a", "ctrl-shift-a", "alt-!", "hyper-a", "",
        "é", "ctrl-alt-shift-a",
    ] {
        assert!(!is_supported_menu_key(&chars(key)), "{key}");
    }
}

#[test]
fn hints_capitalise_each_part() {
    assert_eq!(bind("ctrl-e:Edit", KEY_E_LOWER).hint(), "Ctrl+E  Edit");
    assert_eq!(bind("alt-shift-page-down:Last", 1).hint(), "Alt+Shift+Page+Down  Last");
    assert_eq!(bind("f3:Open", KEY_F3).hint(), "F3  Open");
}

#[test]
fn refusals_are_worded_as_before() {
    assert_eq!(KeybindError::MissingSeparator.message(), "expected KEY:LABEL (for example ctrl-e:Edit)");
    assert_eq!(
        KeybindError::UnsupportedKey("ctrl-tab".to_string()).message(),
        "unsupported or reserved menu key \"ctrl-tab\""
    );
    assert_eq!(
        KeybindError::InvalidLabel.message(),
        "binding labels must be nonempty and contain no control characters"
    );
    assert_eq!(KeybindError::UnknownKey("f13".to_string()).message(), "unknown key \"f13\"");
    assert_eq!(KeybindError::UnknownKey("a\"b".to_string()).message(), "unknown key \"a\\\"b\"");
}
