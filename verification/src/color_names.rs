//! The named colors: the keyword colors of CSS, each with its `#RRGGBB`
//! value.
use vstd::prelude::*;

use crate::keybind::str_views;

verus! {

/// The color keywords, in alphabetical order.
pub open spec fn color_names() -> Seq<Seq<char>> {
    seq![
        "aliceblue"@, "antiquewhite"@, "aqua"@, "aquamarine"@, "azure"@,
        "beige"@, "bisque"@, "black"@, "blanchedalmond"@, "blue"@,
        "blueviolet"@, "brown"@, "burlywood"@, "cadetblue"@, "chartreuse"@,
        "chocolate"@, "coral"@, "cornflowerblue"@, "cornsilk"@, "crimson"@,
        "cyan"@, "darkblue"@, "darkcyan"@, "darkgoldenrod"@, "darkgray"@,
        "darkgreen"@, "darkgrey"@, "darkkhaki"@, "darkmagenta"@, "darkolivegreen"@,
        "darkorange"@, "darkorchid"@, "darkred"@, "darksalmon"@, "darkseagreen"@,
        "darkslateblue"@, "darkslategray"@, "darkslategrey"@, "darkturquoise"@, "darkviolet"@,
        "deeppink"@, "deepskyblue"@, "dimgray"@, "dimgrey"@, "dodgerblue"@,
        "firebrick"@, "floralwhite"@, "forestgreen"@, "fuchsia"@, "gainsboro"@,
        "ghostwhite"@, "gold"@, "goldenrod"@, "gray"@, "green"@,
        "greenyellow"@, "grey"@, "honeydew"@, "hotpink"@, "indianred"@,
        "indigo"@, "ivory"@, "khaki"@, "lavender"@, "lavenderblush"@,
        "lawngreen"@, "lemonchiffon"@, "lightblue"@, "lightcoral"@, "lightcyan"@,
        "lightgoldenrodyellow"@, "lightgray"@, "lightgreen"@, "lightgrey"@, "lightpink"@,
        "lightsalmon"@, "lightseagreen"@, "lightskyblue"@, "lightslategray"@, "lightslategrey"@,
        "lightsteelblue"@, "lightyellow"@, "lime"@, "limegreen"@, "linen"@,
        "magenta"@, "maroon"@, "mediumaquamarine"@, "mediumblue"@, "mediumorchid"@,
        "mediumpurple"@, "mediumseagreen"@, "mediumslateblue"@, "mediumspringgreen"@, "mediumturquoise"@,
        "mediumvioletred"@, "midnightblue"@, "mintcream"@, "mistyrose"@, "moccasin"@,
        "navajowhite"@, "navy"@, "oldlace"@, "olive"@, "olivedrab"@,
        "orange"@, "orangered"@, "orchid"@, "palegoldenrod"@, "palegreen"@,
        "paleturquoise"@, "palevioletred"@, "papayawhip"@, "peachpuff"@, "peru"@,
        "pink"@, "plum"@, "powderblue"@, "purple"@, "rebeccapurple"@,
        "red"@, "rosybrown"@, "royalblue"@, "saddlebrown"@, "salmon"@,
        "sandybrown"@, "seagreen"@, "seashell"@, "sienna"@, "silver"@,
        "skyblue"@, "slateblue"@, "slategray"@, "slategrey"@, "snow"@,
        "springgreen"@, "steelblue"@, "tan"@, "teal"@, "thistle"@,
        "tomato"@, "turquoise"@, "violet"@, "wheat"@, "white"@,
        "whitesmoke"@, "yellow"@, "yellowgreen"@,
    ]
}

/// The `0xRRGGBB` value of each keyword, in the order of [`color_names`].
pub open spec fn color_values() -> Seq<u32> {
    seq![
        0xf0f8ff, 0xfaebd7, 0x00ffff, 0x7fffd4, 0xf0ffff, 0xf5f5dc, 0xffe4c4, 0x000000,
        0xffebcd, 0x0000ff, 0x8a2be2, 0xa52a2a, 0xdeb887, 0x5f9ea0, 0x7fff00, 0xd2691e,
        0xff7f50, 0x6495ed, 0xfff8dc, 0xdc143c, 0x00ffff, 0x00008b, 0x008b8b, 0xb8860b,
        0xa9a9a9, 0x006400, 0xa9a9a9, 0xbdb76b, 0x8b008b, 0x556b2f, 0xff8c00, 0x9932cc,
        0x8b0000, 0xe9967a, 0x8fbc8f, 0x483d8b, 0x2f4f4f, 0x2f4f4f, 0x00ced1, 0x9400d3,
        0xff1493, 0x00bfff, 0x696969, 0x696969, 0x1e90ff, 0xb22222, 0xfffaf0, 0x228b22,
        0xff00ff, 0xdcdcdc, 0xf8f8ff, 0xffd700, 0xdaa520, 0x808080, 0x008000, 0xadff2f,
        0x808080, 0xf0fff0, 0xff69b4, 0xcd5c5c, 0x4b0082, 0xfffff0, 0xf0e68c, 0xe6e6fa,
        0xfff0f5, 0x7cfc00, 0xfffacd, 0xadd8e6, 0xf08080, 0xe0ffff, 0xfafad2, 0xd3d3d3,
        0x90ee90, 0xd3d3d3, 0xffb6c1, 0xffa07a, 0x20b2aa, 0x87cefa, 0x778899, 0x778899,
        0xb0c4de, 0xffffe0, 0x00ff00, 0x32cd32, 0xfaf0e6, 0xff00ff, 0x800000, 0x66cdaa,
        0x0000cd, 0xba55d3, 0x9370db, 0x3cb371, 0x7b68ee, 0x00fa9a, 0x48d1cc, 0xc71585,
        0x191970, 0xf5fffa, 0xffe4e1, 0xffe4b5, 0xffdead, 0x000080, 0xfdf5e6, 0x808000,
        0x6b8e23, 0xffa500, 0xff4500, 0xda70d6, 0xeee8aa, 0x98fb98, 0xafeeee, 0xdb7093,
        0xffefd5, 0xffdab9, 0xcd853f, 0xffc0cb, 0xdda0dd, 0xb0e0e6, 0x800080, 0x663399,
        0xff0000, 0xbc8f8f, 0x4169e1, 0x8b4513, 0xfa8072, 0xf4a460, 0x2e8b57, 0xfff5ee,
        0xa0522d, 0xc0c0c0, 0x87ceeb, 0x6a5acd, 0x708090, 0x708090, 0xfffafa, 0x00ff7f,
        0x4682b4, 0xd2b48c, 0x008080, 0xd8bfd8, 0xff6347, 0x40e0d0, 0xee82ee, 0xf5deb3,
        0xffffff, 0xf5f5f5, 0xffff00, 0x9acd32,
    ]
}

pub fn name_list() -> (v: Vec<&'static str>)
    ensures
        str_views(v@) == color_names(),
{
    let v = vec![
        "aliceblue", "antiquewhite", "aqua", "aquamarine", "azure",
        "beige", "bisque", "black", "blanchedalmond", "blue",
        "blueviolet", "brown", "burlywood", "cadetblue", "chartreuse",
        "chocolate", "coral", "cornflowerblue", "cornsilk", "crimson",
        "cyan", "darkblue", "darkcyan", "darkgoldenrod", "darkgray",
        "darkgreen", "darkgrey", "darkkhaki", "darkmagenta", "darkolivegreen",
        "darkorange", "darkorchid", "darkred", "darksalmon", "darkseagreen",
        "darkslateblue", "darkslategray", "darkslategrey", "darkturquoise", "darkviolet",
        "deeppink", "deepskyblue", "dimgray", "dimgrey", "dodgerblue",
        "firebrick", "floralwhite", "forestgreen", "fuchsia", "gainsboro",
        "ghostwhite", "gold", "goldenrod", "gray", "green",
        "greenyellow", "grey", "honeydew", "hotpink", "indianred",
        "indigo", "ivory", "khaki", "lavender", "lavenderblush",
        "lawngreen", "lemonchiffon", "lightblue", "lightcoral", "lightcyan",
        "lightgoldenrodyellow", "lightgray", "lightgreen", "lightgrey", "lightpink",
        "lightsalmon", "lightseagreen", "lightskyblue", "lightslategray", "lightslategrey",
        "lightsteelblue", "lightyellow", "lime", "limegreen", "linen",
        "magenta", "maroon", "mediumaquamarine", "mediumblue", "mediumorchid",
        "mediumpurple", "mediumseagreen", "mediumslateblue", "mediumspringgreen", "mediumturquoise",
        "mediumvioletred", "midnightblue", "mintcream", "mistyrose", "moccasin",
        "navajowhite", "navy", "oldlace", "olive", "olivedrab",
        "orange", "orangered", "orchid", "palegoldenrod", "palegreen",
        "paleturquoise", "palevioletred", "papayawhip", "peachpuff", "peru",
        "pink", "plum", "powderblue", "purple", "rebeccapurple",
        "red", "rosybrown", "royalblue", "saddlebrown", "salmon",
        "sandybrown", "seagreen", "seashell", "sienna", "silver",
        "skyblue", "slateblue", "slategray", "slategrey", "snow",
        "springgreen", "steelblue", "tan", "teal", "thistle",
        "tomato", "turquoise", "violet", "wheat", "white",
        "whitesmoke", "yellow", "yellowgreen",
    ];
    assert(str_views(v@) =~= color_names());
    v
}

pub fn value_list() -> (v: Vec<u32>)
    ensures
        v@ == color_values(),
{
    let v = vec![
        0xf0f8ff, 0xfaebd7, 0x00ffff, 0x7fffd4, 0xf0ffff, 0xf5f5dc, 0xffe4c4, 0x000000,
        0xffebcd, 0x0000ff, 0x8a2be2, 0xa52a2a, 0xdeb887, 0x5f9ea0, 0x7fff00, 0xd2691e,
        0xff7f50, 0x6495ed, 0xfff8dc, 0xdc143c, 0x00ffff, 0x00008b, 0x008b8b, 0xb8860b,
        0xa9a9a9, 0x006400, 0xa9a9a9, 0xbdb76b, 0x8b008b, 0x556b2f, 0xff8c00, 0x9932cc,
        0x8b0000, 0xe9967a, 0x8fbc8f, 0x483d8b, 0x2f4f4f, 0x2f4f4f, 0x00ced1, 0x9400d3,
        0xff1493, 0x00bfff, 0x696969, 0x696969, 0x1e90ff, 0xb22222, 0xfffaf0, 0x228b22,
        0xff00ff, 0xdcdcdc, 0xf8f8ff, 0xffd700, 0xdaa520, 0x808080, 0x008000, 0xadff2f,
        0x808080, 0xf0fff0, 0xff69b4, 0xcd5c5c, 0x4b0082, 0xfffff0, 0xf0e68c, 0xe6e6fa,
        0xfff0f5, 0x7cfc00, 0xfffacd, 0xadd8e6, 0xf08080, 0xe0ffff, 0xfafad2, 0xd3d3d3,
        0x90ee90, 0xd3d3d3, 0xffb6c1, 0xffa07a, 0x20b2aa, 0x87cefa, 0x778899, 0x778899,
        0xb0c4de, 0xffffe0, 0x00ff00, 0x32cd32, 0xfaf0e6, 0xff00ff, 0x800000, 0x66cdaa,
        0x0000cd, 0xba55d3, 0x9370db, 0x3cb371, 0x7b68ee, 0x00fa9a, 0x48d1cc, 0xc71585,
        0x191970, 0xf5fffa, 0xffe4e1, 0xffe4b5, 0xffdead, 0x000080, 0xfdf5e6, 0x808000,
        0x6b8e23, 0xffa500, 0xff4500, 0xda70d6, 0xeee8aa, 0x98fb98, 0xafeeee, 0xdb7093,
        0xffefd5, 0xffdab9, 0xcd853f, 0xffc0cb, 0xdda0dd, 0xb0e0e6, 0x800080, 0x663399,
        0xff0000, 0xbc8f8f, 0x4169e1, 0x8b4513, 0xfa8072, 0xf4a460, 0x2e8b57, 0xfff5ee,
        0xa0522d, 0xc0c0c0, 0x87ceeb, 0x6a5acd, 0x708090, 0x708090, 0xfffafa, 0x00ff7f,
        0x4682b4, 0xd2b48c, 0x008080, 0xd8bfd8, 0xff6347, 0x40e0d0, 0xee82ee, 0xf5deb3,
        0xffffff, 0xf5f5f5, 0xffff00, 0x9acd32,
    ];
    assert(v@ =~= color_values());
    v
}

} // verus!
