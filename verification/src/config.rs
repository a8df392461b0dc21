//! Settings read from the configuration file: the display and colour
//! options, the colour names, the interface colours with their defaults,
//! and the captions of the two interface languages.
use vstd::prelude::*;
use crate::style::{with_fg, plain, Color, Style};
use crate::text::{chars_eq_str, chars_of, lowercase, to_lowercase};

verus! {

/// The settings of the configuration file; every table may be absent.
pub struct Config {
    pub display: DisplayConfig,
    /// `[keys]`: action name and key name.
    pub keys: Vec<(String, String)>,
    pub colors: ColorsConfig,
    /// `[programs]`: `editor`, `pager`, and a program per file extension.
    pub programs: Vec<(String, String)>,
}

/// The `[display]` table.
pub struct DisplayConfig {
    pub show_hidden: bool,
    /// `en` for English captions; anything else gives Japanese.
    pub lang: String,
}

/// The `[colors]` table; an empty value asks for the default.
pub struct ColorsConfig {
    pub ls_colors: String,
    pub border: String,
    pub title: String,
    pub label: String,
    pub unit: String,
    pub date: String,
    pub clock: String,
}

impl Config {
    /// The settings when there is no configuration file.
    pub fn empty() -> (r: Config)
        ensures
            !r.display.show_hidden,
            r.display.lang@.len() == 0,
            r.keys@.len() == 0,
            r.programs@.len() == 0,
            r.colors.ls_colors@.len() == 0,
            r.colors.border@.len() == 0,
            r.colors.title@.len() == 0,
            r.colors.label@.len() == 0,
            r.colors.unit@.len() == 0,
            r.colors.date@.len() == 0,
            r.colors.clock@.len() == 0,
    {
        Config {
            display: DisplayConfig { show_hidden: false, lang: String::new() },
            keys: Vec::new(),
            colors: ColorsConfig {
                ls_colors: String::new(),
                border: String::new(),
                title: String::new(),
                label: String::new(),
                unit: String::new(),
                date: String::new(),
                clock: String::new(),
            },
            programs: Vec::new(),
        }
    }
}

/// The colour of a lowercased colour name; `Reset` for an unknown name.
pub open spec fn color_named(n: Seq<char>) -> Color {
    if n == "black"@ {
        Color::Black
    } else if n == "red"@ {
        Color::Red
    } else if n == "green"@ {
        Color::Green
    } else if n == "yellow"@ {
        Color::Yellow
    } else if n == "blue"@ {
        Color::Blue
    } else if n == "magenta"@ {
        Color::Magenta
    } else if n == "cyan"@ {
        Color::Cyan
    } else if n == "white"@ {
        Color::White
    } else if n == "darkgray"@ || n == "dark_gray"@ {
        Color::DarkGray
    } else if n == "lightred"@ || n == "light_red"@ {
        Color::LightRed
    } else if n == "lightgreen"@ || n == "light_green"@ {
        Color::LightGreen
    } else if n == "lightyellow"@ || n == "light_yellow"@ {
        Color::LightYellow
    } else if n == "lightblue"@ || n == "light_blue"@ {
        Color::LightBlue
    } else if n == "lightmagenta"@ || n == "light_magenta"@ {
        Color::LightMagenta
    } else if n == "lightcyan"@ || n == "light_cyan"@ {
        Color::LightCyan
    } else if n == "lightgray"@ || n == "light_gray"@ || n == "gray"@ {
        Color::Gray
    } else {
        Color::Reset
    }
}

/// The colour of an already lowercased colour name.
pub fn color_from_lower(n: &[char]) -> (r: Color)
    ensures
        r == color_named(n@),
{
    if chars_eq_str(n, "black") {
        Color::Black
    } else if chars_eq_str(n, "red") {
        Color::Red
    } else if chars_eq_str(n, "green") {
        Color::Green
    } else if chars_eq_str(n, "yellow") {
        Color::Yellow
    } else if chars_eq_str(n, "blue") {
        Color::Blue
    } else if chars_eq_str(n, "magenta") {
        Color::Magenta
    } else if chars_eq_str(n, "cyan") {
        Color::Cyan
    } else if chars_eq_str(n, "white") {
        Color::White
    } else if chars_eq_str(n, "darkgray") || chars_eq_str(n, "dark_gray") {
        Color::DarkGray
    } else if chars_eq_str(n, "lightred") || chars_eq_str(n, "light_red") {
        Color::LightRed
    } else if chars_eq_str(n, "lightgreen") || chars_eq_str(n, "light_green") {
        Color::LightGreen
    } else if chars_eq_str(n, "lightyellow") || chars_eq_str(n, "light_yellow") {
        Color::LightYellow
    } else if chars_eq_str(n, "lightblue") || chars_eq_str(n, "light_blue") {
        Color::LightBlue
    } else if chars_eq_str(n, "lightmagenta") || chars_eq_str(n, "light_magenta") {
        Color::LightMagenta
    } else if chars_eq_str(n, "lightcyan") || chars_eq_str(n, "light_cyan") {
        Color::LightCyan
    } else if chars_eq_str(n, "lightgray") || chars_eq_str(n, "light_gray") || chars_eq_str(n, "gray") {
        Color::Gray
    } else {
        Color::Reset
    }
}

/// The colour named `s`, in any letter case.
pub fn parse_color(s: &str) -> (r: Color)
    ensures
        r == color_named(lowercase(s@)),
{
    let low = to_lowercase(&chars_of(s));
    color_from_lower(&low)
}

/// The colours of the interface parts.
#[derive(Clone, Copy)]
pub struct UiColors {
    pub border: Style,
    pub title: Style,
    pub label: Style,
    pub unit: Style,
    pub date: Style,
    pub clock: Style,
}

/// The style of a colour setting: its colour, or `default` when empty.
pub open spec fn setting_style(s: Seq<char>, default: Color) -> Style {
    if s.len() == 0 {
        with_fg(plain(), default)
    } else {
        with_fg(plain(), color_named(lowercase(s)))
    }
}

fn setting(s: &String, default: Color) -> (r: Style)
    ensures
        r == setting_style(s@, default),
{
    if chars_of(s.as_str()).len() == 0 {
        Style::new().fg(default)
    } else {
        Style::new().fg(parse_color(s.as_str()))
    }
}

/// The interface colours of a `[colors]` table.
pub open spec fn ui_colors_of(c: ColorsConfig) -> UiColors {
    UiColors {
        border: setting_style(c.border@, Color::Cyan),
        title: setting_style(c.title@, Color::Yellow),
        label: setting_style(c.label@, Color::Cyan),
        unit: setting_style(c.unit@, Color::Cyan),
        date: setting_style(c.date@, Color::White),
        clock: setting_style(c.clock@, Color::White),
    }
}

impl UiColors {
    /// The interface colours of the `[colors]` table; the defaults are cyan
    /// borders, labels and units, yellow titles, and white dates and clock.
    pub fn from_config(c: &ColorsConfig) -> (r: UiColors)
        ensures
            r.border == setting_style(c.border@, Color::Cyan),
            r.title == setting_style(c.title@, Color::Yellow),
            r.label == setting_style(c.label@, Color::Cyan),
            r.unit == setting_style(c.unit@, Color::Cyan),
            r.date == setting_style(c.date@, Color::White),
            r.clock == setting_style(c.clock@, Color::White),
            r == ui_colors_of(*c),
    {
        UiColors {
            border: setting(&c.border, Color::Cyan),
            title: setting(&c.title, Color::Yellow),
            label: setting(&c.label, Color::Cyan),
            unit: setting(&c.unit, Color::Cyan),
            date: setting(&c.date, Color::White),
            clock: setting(&c.clock, Color::White),
        }
    }
}

/// The captions of the information panels, in one language.
pub struct Labels {
    pub vol_info: &'static str,
    pub path_lbl: &'static str,
    pub free: &'static str,
    pub file_info: &'static str,
    pub curr: &'static str,
    pub count_unit: &'static str,
    pub file_lbl: &'static str,
    pub total: &'static str,
    pub kind: &'static str,
    pub used: &'static str,
    pub size_lbl: &'static str,
    pub mtime: &'static str,
    pub ctime: &'static str,
    pub usage: &'static str,
    pub perm: &'static str,
    pub own: &'static str,
    pub birth: &'static str,
    pub atime: &'static str,
    pub f1_help: &'static str,
    pub page_unit: &'static str,
}

/// The captions of a set of labels, in field order.
pub open spec fn label_texts(l: Labels) -> Seq<Seq<char>> {
    seq![
        l.vol_info@,
        l.path_lbl@,
        l.free@,
        l.file_info@,
        l.curr@,
        l.count_unit@,
        l.file_lbl@,
        l.total@,
        l.kind@,
        l.used@,
        l.size_lbl@,
        l.mtime@,
        l.ctime@,
        l.usage@,
        l.perm@,
        l.own@,
        l.birth@,
        l.atime@,
        l.f1_help@,
        l.page_unit@,
    ]
}

/// The Japanese captions, in field order.
pub open spec fn ja_label_texts() -> Seq<Seq<char>> {
    seq![
        "ボリューム情報"@,
        "パス"@,
        " 空き:"@,
        "ファイル情報"@,
        " カレント:"@,
        "個"@,
        " ファイル: "@,
        " 合計:"@,
        " 種別: "@,
        " 使用中:"@,
        " サイズ: "@,
        "  修正: "@,
        "  変更: "@,
        " 使用率:"@,
        " 権限: "@,
        "  所有: "@,
        "  作成: "@,
        "  参照: "@,
        "F1:ヘルプ"@,
        "頁"@,
    ]
}

/// The English captions, in field order.
pub open spec fn en_label_texts() -> Seq<Seq<char>> {
    seq![
        "Volume Info"@,
        "Path"@,
        " Free:"@,
        "File Info"@,
        " Curr:"@,
        "Fs"@,
        " File: "@,
        " Total:"@,
        " Type: "@,
        " Used:"@,
        " Size: "@,
        "  Mod: "@,
        "  Chg: "@,
        " Usage:"@,
        " Perm: "@,
        "  Own: "@,
        "  Bth: "@,
        "  Acc: "@,
        "F1:HELP"@,
        "Page"@,
    ]
}

/// The Japanese captions.
pub fn labels_ja() -> (r: Labels)
    ensures
        label_texts(r) == ja_label_texts(),
{
    Labels {
        vol_info: "ボリューム情報",
        path_lbl: "パス",
        free: " 空き:",
        file_info: "ファイル情報",
        curr: " カレント:",
        count_unit: "個",
        file_lbl: " ファイル: ",
        total: " 合計:",
        kind: " 種別: ",
        used: " 使用中:",
        size_lbl: " サイズ: ",
        mtime: "  修正: ",
        ctime: "  変更: ",
        usage: " 使用率:",
        perm: " 権限: ",
        own: "  所有: ",
        birth: "  作成: ",
        atime: "  参照: ",
        f1_help: "F1:ヘルプ",
        page_unit: "頁",
    }
}

/// The English captions.
pub fn labels_en() -> (r: Labels)
    ensures
        label_texts(r) == en_label_texts(),
{
    Labels {
        vol_info: "Volume Info",
        path_lbl: "Path",
        free: " Free:",
        file_info: "File Info",
        curr: " Curr:",
        count_unit: "Fs",
        file_lbl: " File: ",
        total: " Total:",
        kind: " Type: ",
        used: " Used:",
        size_lbl: " Size: ",
        mtime: "  Mod: ",
        ctime: "  Chg: ",
        usage: " Usage:",
        perm: " Perm: ",
        own: "  Own: ",
        birth: "  Bth: ",
        atime: "  Acc: ",
        f1_help: "F1:HELP",
        page_unit: "Page",
    }
}

/// Whether the `lang` setting asks for English.
pub fn is_english(lang: &str) -> (r: bool)
    ensures
        r == (lang@ == "en"@),
{
    chars_eq_str(&chars_of(lang), "en")
}

} // verus!
