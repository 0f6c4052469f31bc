//! The glyph names this library resolves: the bare and family-qualified
//! Nerd Fonts names, as normalized (lowercase, separator-free) lookup keys,
//! each with its codepoint. Both tables are sorted by name.
use vstd::prelude::*;

verus! {

/// The views of a table of `(name, value)` pairs.
pub open spec fn name_views(v: Seq<(&'static str, u32)>) -> Seq<(Seq<char>, u32)> {
    v.map_values(|e: (&'static str, u32)| (e.0@, e.1))
}

/// The views of a table of `(name, name)` pairs.
pub open spec fn pair_views(v: Seq<(&'static str, &'static str)>) -> Seq<(Seq<char>, Seq<char>)> {
    v.map_values(|e: (&'static str, &'static str)| (e.0@, e.1@))
}

/// Bare names: the preferred glyph of every name regardless of family
/// (Material Design first).
pub open spec fn bare_table() -> Seq<(Seq<char>, u32)> {
    seq![
        ("apps"@, 0xf003bu32),
        ("arrowdown"@, 0xf0045u32),
        ("arrowleft"@, 0xf004du32),
        ("arrowright"@, 0xf0054u32),
        ("arrowup"@, 0xf005du32),
        ("brightness5"@, 0xf00e0u32),
        ("headphones"@, 0xf02cbu32),
        ("laptop"@, 0xf0322u32),
        ("logout"@, 0xf0343u32),
        ("monitor"@, 0xf0379u32),
        ("power"@, 0xf0425u32),
        ("poweroff"@, 0xf0902u32),
        ("restart"@, 0xf0709u32),
        ("settings"@, 0xeb52u32),
        ("skipnext"@, 0xf04adu32),
        ("skipprevious"@, 0xf04aeu32),
        ("star"@, 0xf04ceu32),
        ("thermometer"@, 0xf050fu32),
        ("volumehigh"@, 0xf057eu32),
    ]
}

/// Family-qualified names (`md`, `fa`, `cod`, ... followed by the bare name).
pub open spec fn qualified_table() -> Seq<(Seq<char>, u32)> {
    seq![
        ("codsettings"@, 0xeb52u32),
        ("fapoweroff"@, 0xf011u32),
        ("mdapps"@, 0xf003bu32),
        ("mdarrowdown"@, 0xf0045u32),
        ("mdarrowleft"@, 0xf004du32),
        ("mdarrowright"@, 0xf0054u32),
        ("mdarrowup"@, 0xf005du32),
        ("mdbrightness5"@, 0xf00e0u32),
        ("mdheadphones"@, 0xf02cbu32),
        ("mdlaptop"@, 0xf0322u32),
        ("mdlogout"@, 0xf0343u32),
        ("mdmonitor"@, 0xf0379u32),
        ("mdpower"@, 0xf0425u32),
        ("mdpoweroff"@, 0xf0902u32),
        ("mdrestart"@, 0xf0709u32),
        ("mdskipnext"@, 0xf04adu32),
        ("mdskipprevious"@, 0xf04aeu32),
        ("mdstar"@, 0xf04ceu32),
        ("mdthermometer"@, 0xf050fu32),
        ("mdvolumehigh"@, 0xf057eu32),
    ]
}

/// Launcher-vocabulary synonyms that are not Nerd Fonts names, mapping to the
/// bare name of the icon they mean. Checked before the name tables, so an
/// alias also overrides an unfortunate bare-name collision.
pub open spec fn alias_table() -> Seq<(Seq<char>, Seq<char>)> {
    seq![
        ("app"@, "apps"@),
        ("back"@, "arrowleft"@),
        ("brightness"@, "brightness5"@),
        ("computer"@, "laptop"@),
        ("display"@, "monitor"@),
        ("down"@, "arrowdown"@),
        ("exit"@, "logout"@),
        ("forward"@, "arrowright"@),
        ("headphone"@, "headphones"@),
        ("left"@, "arrowleft"@),
        ("next"@, "skipnext"@),
        ("options"@, "settings"@),
        ("poweron"@, "power"@),
        ("preferences"@, "settings"@),
        ("prev"@, "skipprevious"@),
        ("previous"@, "skipprevious"@),
        ("quit"@, "logout"@),
        ("reboot"@, "restart"@),
        ("right"@, "arrowright"@),
        ("shutdown"@, "poweroff"@),
        ("sound"@, "volumehigh"@),
        ("temperature"@, "thermometer"@),
        ("up"@, "arrowup"@),
        ("volume"@, "volumehigh"@),
    ]
}

pub fn bare() -> (v: Vec<(&'static str, u32)>)
    ensures
        name_views(v@) == bare_table(),
{
    let v = vec![
        ("apps", 0xf003bu32),
        ("arrowdown", 0xf0045u32),
        ("arrowleft", 0xf004du32),
        ("arrowright", 0xf0054u32),
        ("arrowup", 0xf005du32),
        ("brightness5", 0xf00e0u32),
        ("headphones", 0xf02cbu32),
        ("laptop", 0xf0322u32),
        ("logout", 0xf0343u32),
        ("monitor", 0xf0379u32),
        ("power", 0xf0425u32),
        ("poweroff", 0xf0902u32),
        ("restart", 0xf0709u32),
        ("settings", 0xeb52u32),
        ("skipnext", 0xf04adu32),
        ("skipprevious", 0xf04aeu32),
        ("star", 0xf04ceu32),
        ("thermometer", 0xf050fu32),
        ("volumehigh", 0xf057eu32),
    ];
    assert(name_views(v@) =~= bare_table());
    v
}

pub fn qualified() -> (v: Vec<(&'static str, u32)>)
    ensures
        name_views(v@) == qualified_table(),
{
    let v = vec![
        ("codsettings", 0xeb52u32),
        ("fapoweroff", 0xf011u32),
        ("mdapps", 0xf003bu32),
        ("mdarrowdown", 0xf0045u32),
        ("mdarrowleft", 0xf004du32),
        ("mdarrowright", 0xf0054u32),
        ("mdarrowup", 0xf005du32),
        ("mdbrightness5", 0xf00e0u32),
        ("mdheadphones", 0xf02cbu32),
        ("mdlaptop", 0xf0322u32),
        ("mdlogout", 0xf0343u32),
        ("mdmonitor", 0xf0379u32),
        ("mdpower", 0xf0425u32),
        ("mdpoweroff", 0xf0902u32),
        ("mdrestart", 0xf0709u32),
        ("mdskipnext", 0xf04adu32),
        ("mdskipprevious", 0xf04aeu32),
        ("mdstar", 0xf04ceu32),
        ("mdthermometer", 0xf050fu32),
        ("mdvolumehigh", 0xf057eu32),
    ];
    assert(name_views(v@) =~= qualified_table());
    v
}

pub fn aliases() -> (v: Vec<(&'static str, &'static str)>)
    ensures
        pair_views(v@) == alias_table(),
{
    let v = vec![
        ("app", "apps"),
        ("back", "arrowleft"),
        ("brightness", "brightness5"),
        ("computer", "laptop"),
        ("display", "monitor"),
        ("down", "arrowdown"),
        ("exit", "logout"),
        ("forward", "arrowright"),
        ("headphone", "headphones"),
        ("left", "arrowleft"),
        ("next", "skipnext"),
        ("options", "settings"),
        ("poweron", "power"),
        ("preferences", "settings"),
        ("prev", "skipprevious"),
        ("previous", "skipprevious"),
        ("quit", "logout"),
        ("reboot", "restart"),
        ("right", "arrowright"),
        ("shutdown", "poweroff"),
        ("sound", "volumehigh"),
        ("temperature", "thermometer"),
        ("up", "arrowup"),
        ("volume", "volumehigh"),
    ];
    assert(pair_views(v@) =~= alias_table());
    v
}

} // verus!
