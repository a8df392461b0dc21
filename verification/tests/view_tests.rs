use f5h::app::{DialogKind, FileEntry, SortMode};
use f5h::style::{Color, Style, REVERSED, UNDERLINED};
use f5h::view::{
    conflict_dialog_texts, file_dialog_texts, fmt_entry, git_mark_style_of, input_scroll, list_cell_style,
    list_columns, message_lines, sort_dialog_line, fmt_branch, fmt_status, tree_pane_width, usage_percent,
};

fn entry(name: &str, is_dir: bool, date: &str, time: &str) -> FileEntry {
    FileEntry {
        name: name.to_string(),
        is_dir,
        is_link: false,
        size: 49152,
        blocks: 0,
        inode: 0,
        nlink: 1,
        uid: 0,
        gid: 0,
        date: date.to_string(),
        time_str: time.to_string(),
        time_full: String::new(),
        atime_s: String::new(),
        ctime_s: String::new(),
        birth_s: None,
        mode: 0o644,
    }
}

#[test]
fn listing_line_in_two_column_mode() {
    let e = entry("main.rs", false, "2026-03-15", "12:00");
    let s = fmt_entry(&e, 50, 2, "49152");
    assert_eq!(s, format!("{:<20} {:>12} 2026-03-15 12:00", "main.rs", "49152"));
}

#[test]
fn listing_line_for_directories_and_narrow_modes() {
    let d = entry("src", true, "", "");
    assert_eq!(fmt_entry(&d, 40, 3, "0"), format!("{:<27} {:>12}", "src/", "<DIR>"));
    let up = entry("..", true, "", "");
    assert_eq!(fmt_entry(&up, 10, 5, "0"), "..        ");
    let narrow = entry("long_file_name.txt", false, "", "");
    assert_eq!(fmt_entry(&narrow, 10, 1, "7"), format!("lon {:>12}", "7"));
}

#[test]
fn listing_columns_share_the_width() {
    assert_eq!(list_columns(80, 1), vec![(0, 80)]);
    assert_eq!(list_columns(80, 2), vec![(0, 38), (41, 39)]);
    assert_eq!(list_columns(20, 5), vec![(0, 1), (4, 1), (8, 1), (12, 1), (16, 4)]);
}

#[test]
fn cell_and_mark_styles() {
    let base = Style::new().fg(Color::Blue);
    assert_eq!(list_cell_style(base, true, true, true), base.add_modifier(REVERSED));
    assert_eq!(
        list_cell_style(base, false, true, true),
        Style::new().fg(Color::LightGreen).add_modifier(UNDERLINED)
    );
    assert_eq!(list_cell_style(base, false, false, true), Style::new().fg(Color::Yellow));
    assert_eq!(list_cell_style(base, false, false, false), base);
    assert_eq!(git_mark_style_of('M'), Style::new().fg(Color::Yellow));
    assert_eq!(git_mark_style_of('?'), Style::new().fg(Color::Red));
    assert_eq!(git_mark_style_of(' '), Style::new());
}

#[test]
fn input_scrolls_to_keep_cursor_visible() {
    assert_eq!(input_scroll(3, 10), 0);
    assert_eq!(input_scroll(10, 10), 1);
    assert_eq!(input_scroll(25, 10), 16);
}

#[test]
fn message_box_lines() {
    let ls = message_lines("first\n\n  \nsecond\nthird", 10);
    assert_eq!(ls, vec!["first".to_string(), "second".to_string()]);
    assert_eq!(message_lines("a\nb\nc", 0), vec!["a".to_string()]);
    assert!(message_lines("", 40).is_empty());
}

#[test]
fn sort_dialog_lines() {
    assert_eq!(sort_dialog_line(1, true, SortMode::Ext, SortMode::Ext, true), "  X:Ext ▲");
    assert_eq!(sort_dialog_line(0, false, SortMode::Name, SortMode::Name, false), "  N:名前 ▼");
    assert_eq!(sort_dialog_line(4, true, SortMode::Unsorted, SortMode::Unsorted, true), "  U:None  ");
}

#[test]
fn file_dialog_texts_per_kind() {
    let one = vec!["a.txt".to_string()];
    let (t, c, h, input) = file_dialog_texts(DialogKind::DeleteConfirm, &one, true);
    assert_eq!((t.as_str(), c.as_str(), h.as_str(), input), (" Delete [a.txt] ", "\"a.txt\" delete?", "", false));
    let three = vec!["a".to_string(), "b".to_string(), "c".to_string()];
    let (t, c, _, _) = file_dialog_texts(DialogKind::DeleteConfirm, &three, false);
    assert_eq!(t, " ファイルの削除 [3件] ");
    assert_eq!(c, "3件 を削除しますか？");
    let (t, c, h, input) = file_dialog_texts(DialogKind::Attr, &one, true);
    assert_eq!((t.as_str(), c.as_str(), h.as_str(), input), (" Chmod ", "Mode(octal): ", "  Enter:OK  Esc:Cancel", true));
}

#[test]
fn conflict_dialog_texts_for_moves() {
    let (t, e, opts, esc, batch) = conflict_dialog_texts(true, "a.txt", true);
    assert_eq!(t, " Move ");
    assert_eq!(e, " \"a.txt\" already exists");
    assert_eq!(opts, vec!["U:Move if newer", "O:Overwrite & move", "C:Rename then move", "N:Skip move"]);
    assert_eq!(esc, "ESC:Abort");
    assert_eq!(batch, "  SHIFT+:Apply to all");
}

#[test]
fn branch_with_ahead_and_behind() {
    assert_eq!(fmt_branch(&None, 3, 4), "");
    assert_eq!(fmt_branch(&Some("main".to_string()), 0, 0), "  \u{E0A0} main");
    assert_eq!(fmt_branch(&Some("main".to_string()), 2, 1), "  \u{E0A0} main ↑2↓1");
    assert_eq!(fmt_branch(&Some("dev".to_string()), 0, 5), "  \u{E0A0} dev ↓5");
}

#[test]
fn status_line_and_usage() {
    assert_eq!(fmt_status("F1:HELP", SortMode::Name, true, 1, 1, "Page"), "F1:HELP [N▲]    1/1   Page");
    assert_eq!(fmt_status("F1", SortMode::Unsorted, false, 12, 345, "P"), "F1   12/345 P");
    assert_eq!(usage_percent(79, 976), 8);
    assert_eq!(usage_percent(5, 0), 0);
}

#[test]
fn tree_pane_takes_a_fifth() {
    assert_eq!(tree_pane_width(100, 100), 20);
    assert_eq!(tree_pane_width(30, 100), 10);
    assert_eq!(tree_pane_width(400, 400), 40);
    assert_eq!(tree_pane_width(100, 30), 15);
}
