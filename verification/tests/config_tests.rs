use f5h::config::{is_english, labels_en, labels_ja, parse_color, ColorsConfig, Config, UiColors};
use f5h::keymap::{
    action_from_str, build_keymap, key_label, lookup_action, menu_actions, parse_key_str, Action,
    KeyCode, KeyMap, KeyModifiers,
};
use f5h::lscolors::{
    ansi_fg, parse_ansi, parse_file_colors, parse_ls_colors, parse_lsc_colors,
    parse_lscolors_color, parse_lscolors_pair,
};
use f5h::style::{Color, Style, BOLD, DIM, REVERSED, UNDERLINED};

#[test]
fn test_parse_ls_colors_extension_rule() {
    let colors = parse_ls_colors("di=01;34:*.rs=01;32");
    assert_eq!(
        colors.get("ext:rs"),
        Some(Style::new().fg(Color::LightGreen).add_modifier(BOLD))
    );
    assert_eq!(
        colors.get("di"),
        Some(Style::new().fg(Color::LightBlue).add_modifier(BOLD))
    );
}

#[test]
fn test_parse_lsc_colors_directory_and_link() {
    let colors = parse_lsc_colors("ExfxcxdxCxegedabagacad");
    assert_eq!(
        colors.get("di"),
        Some(Style::new().fg(Color::LightBlue).add_modifier(BOLD))
    );
    assert_eq!(colors.get("ln"), Some(Style::new().fg(Color::Magenta)));
    assert_eq!(
        colors.get("ex"),
        Some(Style::new().fg(Color::LightGreen).add_modifier(BOLD))
    );
}

#[test]
fn test_parse_file_colors_switches_by_format() {
    assert!(parse_file_colors("di=01;34").contains_key("di"));
    assert!(parse_file_colors("ExfxcxdxCxegedabagacad").contains_key("di"));
}

#[test]
fn test_lookup_action_falls_back_from_shifted_uppercase() {
    let mut keymap = KeyMap::new();
    keymap.insert((KeyCode::Char('G'), KeyModifiers::none()), Action::LastEntry);
    let action = lookup_action(&keymap, KeyCode::Char('G'), KeyModifiers::shift());
    assert_eq!(action, Some(Action::LastEntry));
}

#[test]
fn test_lookup_action_falls_back_from_shifted_symbol() {
    let mut keymap = KeyMap::new();
    keymap.insert((KeyCode::Char('!'), KeyModifiers::none()), Action::ColMode1);
    let action = lookup_action(&keymap, KeyCode::Char('!'), KeyModifiers::shift());
    assert_eq!(action, Some(Action::ColMode1));
}

#[test]
fn lookup_action_shifted_capital_uses_shifted_lowercase_binding() {
    let mut keymap = KeyMap::new();
    keymap.insert((KeyCode::Char('x'), KeyModifiers::shift()), Action::Run);
    assert_eq!(
        lookup_action(&keymap, KeyCode::Char('X'), KeyModifiers::shift()),
        Some(Action::Run)
    );
    assert_eq!(lookup_action(&keymap, KeyCode::Char('X'), KeyModifiers::none()), None);
    assert_eq!(lookup_action(&keymap, KeyCode::Char('y'), KeyModifiers::control()), None);
}

#[test]
fn default_keymap_matches_documented_defaults() {
    let km = build_keymap(&Vec::new());
    let n = KeyModifiers::none();
    let expect = [
        (KeyCode::Char('k'), Action::MoveUp),
        (KeyCode::Char('j'), Action::MoveDown),
        (KeyCode::Char('h'), Action::MoveLeft),
        (KeyCode::Char('l'), Action::MoveRight),
        (KeyCode::Char('g'), Action::FirstEntry),
        (KeyCode::Char('G'), Action::LastEntry),
        (KeyCode::PageUp, Action::PageUp),
        (KeyCode::PageDown, Action::PageDown),
        (KeyCode::Enter, Action::Enter),
        (KeyCode::Backspace, Action::ParentDir),
        (KeyCode::Char('~'), Action::HomeDir),
        (KeyCode::Char(' '), Action::TagMove),
        (KeyCode::Home, Action::TagAll),
        (KeyCode::Char('q'), Action::Quit),
        (KeyCode::Char('!'), Action::ColMode1),
        (KeyCode::Char('@'), Action::ColMode2),
        (KeyCode::Char('#'), Action::ColMode3),
        (KeyCode::Char('%'), Action::ColMode5),
        (KeyCode::Char('K'), Action::Mkdir),
        (KeyCode::Char('J'), Action::DirJump),
        (KeyCode::Tab, Action::TreeToggle),
        (KeyCode::Char('e'), Action::Edit),
        (KeyCode::Char('x'), Action::Run),
        (KeyCode::Char(':'), Action::Func),
        (KeyCode::Char('b'), Action::Git),
        (KeyCode::Char('c'), Action::Copy),
        (KeyCode::Char('m'), Action::Move),
        (KeyCode::Char('d'), Action::Delete),
        (KeyCode::Char('a'), Action::Attr),
        (KeyCode::Char('/'), Action::Search),
        (KeyCode::Char('n'), Action::SearchNext),
        (KeyCode::Char('N'), Action::SearchPrev),
        (KeyCode::Up, Action::MoveUp),
        (KeyCode::Down, Action::MoveDown),
        (KeyCode::Left, Action::MoveLeft),
        (KeyCode::Right, Action::MoveRight),
    ];
    for (code, action) in expect {
        assert_eq!(km.get((code, n)), Some(action));
    }
}

#[test]
fn remapping_moves_the_action_and_arrows_stay() {
    let cfg = vec![
        ("quit".to_string(), "Ctrl+q".to_string()),
        ("move_up".to_string(), "Up".to_string()),
        ("nonsense".to_string(), "z".to_string()),
        ("copy".to_string(), "NoSuchKey".to_string()),
    ];
    let km = build_keymap(&cfg);
    assert_eq!(km.get((KeyCode::Char('q'), KeyModifiers::control())), Some(Action::Quit));
    assert_eq!(km.get((KeyCode::Char('q'), KeyModifiers::none())), None);
    assert_eq!(km.get((KeyCode::Char('k'), KeyModifiers::none())), None);
    assert_eq!(km.get((KeyCode::Up, KeyModifiers::none())), Some(Action::MoveUp));
    assert_eq!(km.get((KeyCode::Char('c'), KeyModifiers::none())), Some(Action::Copy));
    assert_eq!(km.get((KeyCode::Char('z'), KeyModifiers::none())), None);
}

#[test]
fn arrow_keys_cannot_be_taken_over() {
    let cfg = vec![("delete".to_string(), "Down".to_string())];
    let km = build_keymap(&cfg);
    assert_eq!(km.get((KeyCode::Down, KeyModifiers::none())), Some(Action::MoveDown));
    assert_eq!(km.get((KeyCode::Char('d'), KeyModifiers::none())), None);
}

#[test]
fn action_and_key_names() {
    assert_eq!(action_from_str("macro"), Some(Action::Func));
    assert_eq!(action_from_str("search_prev"), Some(Action::SearchPrev));
    assert_eq!(action_from_str("sort"), Some(Action::Sort));
    assert_eq!(action_from_str("frobnicate"), None);
    assert_eq!(parse_key_str("Space"), Some((KeyCode::Char(' '), KeyModifiers::none())));
    assert_eq!(parse_key_str("F12"), Some((KeyCode::F(12), KeyModifiers::none())));
    assert_eq!(parse_key_str("Shift+Tab"), Some((KeyCode::Tab, KeyModifiers::shift())));
    assert_eq!(parse_key_str("Alt+x"), Some((KeyCode::Char('x'), KeyModifiers::alt())));
    assert_eq!(parse_key_str("é"), Some((KeyCode::Char('é'), KeyModifiers::none())));
    assert_eq!(parse_key_str("F13"), None);
    assert_eq!(parse_key_str(""), None);
}

#[test]
fn key_labels_for_menu() {
    let km = build_keymap(&Vec::new());
    assert_eq!(key_label(&km, Action::Edit), "e");
    assert_eq!(key_label(&km, Action::TreeToggle), "TAB");
    assert_eq!(key_label(&km, Action::Rename), "?");
    let cfg = vec![("edit".to_string(), "F4".to_string()), ("quit".to_string(), "Esc".to_string())];
    let km = build_keymap(&cfg);
    assert_eq!(key_label(&km, Action::Edit), "F4");
    assert_eq!(key_label(&km, Action::Quit), "ESC");
    let cfg = vec![("enter".to_string(), "Ctrl+m".to_string())];
    let km = build_keymap(&cfg);
    assert_eq!(key_label(&km, Action::Enter), "?");
    let menu = menu_actions();
    assert_eq!(menu.len(), 14);
    assert_eq!(menu[0], (Action::Edit, "編集", "Edit"));
    assert_eq!(menu[5], (Action::Sort, "ソート", "Sort"));
    assert_eq!(menu[7], (Action::HomeDir, "ホーム", "Home"));
    assert_eq!(menu[13], (Action::Quit, "終了", "Quit"));
    assert_eq!(key_label(&build_keymap(&Vec::new()), Action::Sort), "s");
    assert_eq!(action_from_str("sort"), Some(Action::Sort));
}

#[test]
fn sgr_sequences() {
    assert_eq!(parse_ansi("0"), Style::new());
    assert_eq!(parse_ansi("01;31"), Style::new().add_modifier(BOLD).fg(Color::LightRed));
    assert_eq!(parse_ansi("31;01"), Style::new().fg(Color::LightRed).add_modifier(BOLD));
    assert_eq!(parse_ansi("2;4;7"), Style::new().add_modifier(DIM | UNDERLINED | REVERSED));
    assert_eq!(parse_ansi("44;93"), Style::new().bg(Color::Blue).fg(Color::LightYellow));
    assert_eq!(parse_ansi("97"), Style::new().fg(Color::Gray));
    assert_eq!(parse_ansi("1;34;0;32"), Style::new().fg(Color::Green));
    assert_eq!(parse_ansi(" 32 ;x"), Style::new().fg(Color::Green));
    assert_eq!(ansi_fg(37, false), Color::White);
    assert_eq!(ansi_fg(37, true), Color::Gray);
    assert_eq!(ansi_fg(38, false), Color::Reset);
}

#[test]
fn lscolors_letters_and_pairs() {
    assert_eq!(parse_lscolors_color('e'), (Some(Color::Blue), false));
    assert_eq!(parse_lscolors_color('H'), (Some(Color::White), true));
    assert_eq!(parse_lscolors_color('x'), (None, false));
    assert_eq!(
        parse_lscolors_pair('a', 'G'),
        Style::new().fg(Color::Black).bg(Color::LightCyan).add_modifier(BOLD)
    );
    assert!(parse_lsc_colors("Exfx").get("di").is_none());
}

#[test]
fn later_ls_colors_rules_win_and_extensions_lowercase() {
    let colors = parse_ls_colors("*.TXT=31:*.txt=32:bad:fi=");
    assert_eq!(colors.get("ext:txt"), Some(Style::new().fg(Color::Green)));
    assert_eq!(colors.get("fi"), Some(Style::new()));
    assert!(colors.get("bad").is_none());
}

#[test]
fn colour_names_and_interface_colours() {
    assert_eq!(parse_color("Light_Blue"), Color::LightBlue);
    assert_eq!(parse_color("GRAY"), Color::Gray);
    assert_eq!(parse_color("purple"), Color::Reset);
    let empty = ColorsConfig {
        ls_colors: String::new(),
        border: String::new(),
        title: String::new(),
        label: String::new(),
        unit: String::new(),
        date: String::new(),
        clock: String::new(),
    };
    let ui = UiColors::from_config(&empty);
    assert_eq!(ui.border, Style::new().fg(Color::Cyan));
    assert_eq!(ui.title, Style::new().fg(Color::Yellow));
    assert_eq!(ui.date, Style::new().fg(Color::White));
    assert_eq!(ui.clock, Style::new().fg(Color::White));
    let set = ColorsConfig { title: "red".to_string(), ..empty };
    assert_eq!(UiColors::from_config(&set).title, Style::new().fg(Color::Red));
}

#[test]
fn captions_and_language() {
    assert!(is_english("en"));
    assert!(!is_english("ja"));
    assert!(!is_english(""));
    assert_eq!(labels_en().vol_info, "Volume Info");
    assert_eq!(labels_ja().page_unit, "頁");
    let c = Config::empty();
    assert!(c.keys.is_empty());
}
