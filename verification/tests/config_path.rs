use instantmenu::config::default_config_path;

fn path(xdg: Option<&str>, home: Option<&str>) -> Option<String> {
    default_config_path(xdg.map(str::as_bytes), home.map(str::as_bytes))
        .map(|v| String::from_utf8(v).unwrap())
}

#[test]
fn xdg_config_home_wins_when_absolute() {
    assert_eq!(path(Some("/x"), Some("/home/u")), Some("/x/instantmenu/config.toml".into()));
    assert_eq!(path(Some("/x/"), None), Some("/x/instantmenu/config.toml".into()));
}

#[test]
fn empty_or_relative_xdg_falls_back_to_home() {
    assert_eq!(
        path(Some(""), Some("/home/u")),
        Some("/home/u/.config/instantmenu/config.toml".into())
    );
    assert_eq!(path(Some("rel"), Some("/h/")), Some("/h/.config/instantmenu/config.toml".into()));
    assert_eq!(path(None, Some("")), Some(".config/instantmenu/config.toml".into()));
    assert_eq!(path(Some("rel"), None), None);
    assert_eq!(path(None, None), None);
}
