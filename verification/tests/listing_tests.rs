use f5h::app::{App, FileEntry, SortMode};
use f5h::config::Config;
use f5h::fs_utils::{has_visible_subdir, tree_subdirs};
use f5h::ops::{exec_attr, exec_copy_newname, exec_rename, OpError};

fn entry(name: &str, is_dir: bool, size: u64) -> FileEntry {
    FileEntry {
        name: name.to_string(),
        is_dir,
        is_link: false,
        size,
        blocks: 0,
        inode: 0,
        nlink: 1,
        uid: 0,
        gid: 0,
        date: "2024-01-01".to_string(),
        time_str: "00:00".to_string(),
        time_full: "00:00:00".to_string(),
        atime_s: String::new(),
        ctime_s: String::new(),
        birth_s: None,
        mode: 0o644,
    }
}

fn fresh_app() -> App {
    App::new(Config::empty(), "/tmp/work".to_string(), String::new(), None, None, false)
}

/// A listing below the root (so with `..`) of the given entries.
fn app_with(raw: Vec<FileEntry>) -> App {
    let mut app = fresh_app();
    app.load_entries(raw, true, 0o755);
    app
}

fn files(names: &[&str]) -> Vec<FileEntry> {
    names.iter().map(|n| entry(n, false, 0)).collect()
}

fn listed(app: &App) -> Vec<&str> {
    app.entries.iter().map(|e| e.name.as_str()).collect()
}

fn dir_listing(names: &[(&str, bool)]) -> Vec<(String, bool)> {
    names.iter().map(|&(n, d)| (n.to_string(), d)).collect()
}

// ── load_entries ───────────────────────────────────────────────────

#[test]
fn test_load_entries_dirs_before_files() {
    let app = app_with(vec![entry("aaa.txt", false, 0), entry("bbb", true, 0)]);
    assert_eq!(app.entries[0].name, "..");
    assert_eq!(app.entries[1].name, "bbb");
    assert!(app.entries[1].is_dir);
    assert_eq!(app.entries[2].name, "aaa.txt");
}

#[test]
fn test_load_entries_alphabetical_sort() {
    let app = app_with(files(&["charlie.txt", "alpha.txt", "bravo.txt"]));
    let names: Vec<&str> = app.entries.iter().skip(1).map(|e| e.name.as_str()).collect();
    assert_eq!(names, vec!["alpha.txt", "bravo.txt", "charlie.txt"]);
}

#[test]
fn test_load_entries_hides_dotfiles_by_default() {
    let app = app_with(files(&["visible.txt", ".hidden"]));
    let names = listed(&app);
    assert!(names.contains(&"visible.txt"));
    assert!(!names.contains(&".hidden"));
}

#[test]
fn test_load_entries_shows_dotfiles_when_enabled() {
    let mut app = fresh_app();
    app.show_hidden = true;
    app.load_entries(files(&[".hidden"]), true, 0o755);
    assert!(listed(&app).contains(&".hidden"));
}

// ── counts ─────────────────────────────────────────────────────────

#[test]
fn test_file_and_dir_count() {
    let app = app_with(vec![entry("a.txt", false, 0), entry("b.txt", false, 0), entry("mydir", true, 0)]);
    assert_eq!(app.file_count(), 2);
    assert_eq!(app.dir_count(), 1);
}

#[test]
fn test_current_total_bytes() {
    let app = app_with(vec![entry("a.txt", false, 5), entry("b.txt", false, 6)]);
    assert_eq!(app.current_total_bytes(), 11);
}

// ── tags ───────────────────────────────────────────────────────────

#[test]
fn test_tag_toggle() {
    let mut app = app_with(files(&["foo.txt"]));
    app.cursor = 1;
    assert!(!app.tagged[1]);
    app.tag_toggle();
    assert!(app.tagged[1]);
    app.tag_toggle();
    assert!(!app.tagged[1]);
}

#[test]
fn test_tag_all_tags_and_untags() {
    let mut app = app_with(files(&["a.txt", "b.txt"]));
    app.tag_all();
    assert!(!app.tagged[0]);
    assert!(app.tagged[1..].iter().all(|&t| t));
    app.tag_all();
    assert!(app.tagged.iter().all(|&t| !t));
}

#[test]
fn test_tag_toggle_move_advances_cursor() {
    let mut app = app_with(files(&["a.txt", "b.txt"]));
    app.cursor = 0;
    app.tag_toggle_move(10);
    assert!(!app.tagged[0]);
    assert_eq!(app.cursor, 1);
}

#[test]
fn test_tag_toggle_ignores_dotdot() {
    let mut app = app_with(files(&["foo.txt"]));
    app.cursor = 0;
    app.tag_toggle();
    assert!(!app.tagged[0]);
}

// ── cursor movement ────────────────────────────────────────────────

#[test]
fn test_move_down_and_up() {
    let mut app = app_with(files(&["a.txt", "b.txt"]));
    assert_eq!(app.cursor, 0);
    app.move_down(10);
    assert_eq!(app.cursor, 1);
    app.move_down(10);
    assert_eq!(app.cursor, 2);
    app.move_down(10);
    assert_eq!(app.cursor, 2);
    app.move_up(10);
    assert_eq!(app.cursor, 1);
    app.move_up(10);
    assert_eq!(app.cursor, 0);
    app.move_up(10);
    assert_eq!(app.cursor, 0);
}

#[test]
fn test_page_down_and_up() {
    let names: Vec<String> = (0..9).map(|i| format!("{:02}.txt", i)).collect();
    let raw: Vec<FileEntry> = names.iter().map(|n| entry(n, false, 0)).collect();
    let mut app = app_with(raw);
    let lh = 3;
    assert_eq!(app.current_page(lh), 0);
    app.page_down(lh);
    assert_eq!(app.current_page(lh), 1);
    app.page_up(lh);
    assert_eq!(app.current_page(lh), 0);
}

#[test]
fn test_first_and_last_page() {
    let mut app = app_with(files(&["0.txt", "1.txt", "2.txt", "3.txt", "4.txt"]));
    let lh = 2;
    let last = app.entries.len() - 1;
    app.cursor = last;
    assert_eq!(app.current_page(lh), app.total_pages(lh) - 1);
    app.cursor = 0;
    assert_eq!(app.current_page(lh), 0);
}

#[test]
fn test_first_list_entry_index_skips_dotdot() {
    let app = app_with(files(&["a.txt"]));
    assert_eq!(app.first_list_entry_index(), 1);
}

#[test]
fn test_last_list_entry_index_points_to_last_entry() {
    let app = app_with(files(&["a.txt", "b.txt"]));
    assert_eq!(app.last_list_entry_index(), app.entries.len() - 1);
}

// ── operation targets ──────────────────────────────────────────────

#[test]
fn test_collect_op_targets_cursor() {
    let mut app = app_with(files(&["a.txt"]));
    app.cursor = 1;
    assert_eq!(app.collect_op_targets(), vec!["a.txt"]);
}

#[test]
fn test_collect_op_targets_tagged() {
    let mut app = app_with(files(&["a.txt", "b.txt"]));
    app.tagged[2] = true;
    assert_eq!(app.collect_op_targets(), vec!["b.txt"]);
}

// ── the checks before an operation ─────────────────────────────────

#[test]
fn test_exec_rename() {
    let r = exec_rename("new.txt", &vec!["old.txt".to_string()]);
    assert_eq!(r, Ok(Some(("old.txt".to_string(), "new.txt".to_string()))));
}

#[test]
fn test_exec_rename_empty_name_errors() {
    assert!(exec_rename("  ", &vec!["foo.txt".to_string()]).is_err());
}

#[test]
fn test_exec_attr_chmod() {
    let r = exec_attr("644", &vec!["f.txt".to_string()]).unwrap();
    assert_eq!(r.0, 0o644);
    assert_eq!(r.1, vec!["f.txt".to_string()]);
}

#[test]
fn test_exec_attr_invalid_octal_errors() {
    assert!(exec_attr("999", &vec!["f.txt".to_string()]).is_err());
    assert!(exec_attr("xyz", &vec!["f.txt".to_string()]).is_err());
    assert_eq!(exec_attr("999", &vec![]), Err(OpError::InvalidOctal("999".to_string())));
}

#[test]
fn test_exec_copy_newname_basic() {
    let r = exec_copy_newname("copy.txt", &vec!["orig.txt".to_string()]);
    assert_eq!(r, Ok(("orig.txt".to_string(), "copy.txt".to_string())));
}

#[test]
fn test_exec_copy_newname_empty_name_errors() {
    assert_eq!(exec_copy_newname("  ", &vec!["orig.txt".to_string()]), Err(OpError::EmptyName));
}

// ── sorting ────────────────────────────────────────────────────────

fn sorted_app(raw: Vec<FileEntry>, mode: SortMode, asc: bool) -> App {
    let mut app = fresh_app();
    app.sort_mode = mode;
    app.sort_asc = asc;
    app.load_entries(raw, true, 0o755);
    app
}

#[test]
fn test_sort_dotdot_always_first() {
    let app = sorted_app(vec![entry("zzz.txt", false, 0), entry("aaa", true, 0)], SortMode::Name, false);
    assert_eq!(app.entries[0].name, "..");
}

#[test]
fn test_sort_name_ascending() {
    let app = sorted_app(files(&["charlie.txt", "alpha.txt", "bravo.txt"]), SortMode::Name, true);
    let names: Vec<&str> = app.entries.iter().skip(1).map(|e| e.name.as_str()).collect();
    assert_eq!(names, vec!["alpha.txt", "bravo.txt", "charlie.txt"]);
}

#[test]
fn test_sort_name_descending() {
    let app = sorted_app(files(&["charlie.txt", "alpha.txt", "bravo.txt"]), SortMode::Name, false);
    let names: Vec<&str> = app.entries.iter().skip(1).map(|e| e.name.as_str()).collect();
    assert_eq!(names, vec!["charlie.txt", "bravo.txt", "alpha.txt"]);
}

#[test]
fn test_sort_by_extension() {
    let app = sorted_app(files(&["b.rs", "a.txt", "c.md"]), SortMode::Ext, true);
    let names: Vec<&str> = app.entries.iter().skip(1).map(|e| e.name.as_str()).collect();
    assert_eq!(names, vec!["c.md", "b.rs", "a.txt"]);
}

#[test]
fn test_sort_by_size_ascending() {
    let raw = vec![entry("big.txt", false, 15), entry("small.txt", false, 2), entry("mid.txt", false, 5)];
    let app = sorted_app(raw, SortMode::Size, true);
    let names: Vec<&str> = app.entries.iter().skip(1).map(|e| e.name.as_str()).collect();
    assert_eq!(names, vec!["small.txt", "mid.txt", "big.txt"]);
}

#[test]
fn test_sort_dirs_and_files_sorted_independently() {
    let raw = vec![entry("a_file.txt", false, 0), entry("z_dir", true, 0), entry("a_dir", true, 0)];
    let app = sorted_app(raw, SortMode::Name, true);
    assert_eq!(app.entries[0].name, "..");
    assert_eq!(app.entries[1].name, "a_dir");
    assert_eq!(app.entries[2].name, "z_dir");
    assert_eq!(app.entries[3].name, "a_file.txt");
}

// ── the tree's directory listings ──────────────────────────────────

#[test]
fn test_tree_has_children_empty_dir() {
    assert!(!has_visible_subdir(&vec![], false));
}

#[test]
fn test_tree_has_children_files_only() {
    assert!(!has_visible_subdir(&dir_listing(&[("foo.txt", false)]), false));
}

#[test]
fn test_tree_has_children_with_subdir() {
    assert!(has_visible_subdir(&dir_listing(&[("sub", true)]), false));
}

#[test]
fn test_tree_has_children_hidden_subdir_hidden_off() {
    assert!(!has_visible_subdir(&dir_listing(&[(".hidden", true)]), false));
}

#[test]
fn test_tree_has_children_hidden_subdir_hidden_on() {
    assert!(has_visible_subdir(&dir_listing(&[(".hidden", true)]), true));
}

#[test]
fn test_tree_list_subdirs_sorted() {
    let listing = dir_listing(&[("charlie", true), ("alpha", true), ("bravo", true), ("not_a_dir.txt", false)]);
    assert_eq!(tree_subdirs(listing, false), vec!["alpha", "bravo", "charlie"]);
}

#[test]
fn test_tree_list_subdirs_excludes_files() {
    let listing = dir_listing(&[("subdir", true), ("file.txt", false)]);
    assert_eq!(tree_subdirs(listing, false), vec!["subdir"]);
}

#[test]
fn test_tree_list_subdirs_hidden_flag() {
    let listing = dir_listing(&[(".hidden", true), ("visible", true)]);
    assert_eq!(tree_subdirs(listing.clone(), false), vec!["visible"]);
    assert_eq!(tree_subdirs(listing, true), vec![".hidden", "visible"]);
}

#[test]
fn tree_subdirs_ignore_case_when_sorting() {
    let listing = dir_listing(&[("beta", true), ("Alpha", true), ("alpha2", true)]);
    assert_eq!(tree_subdirs(listing, false), vec!["Alpha", "alpha2", "beta"]);
}

// ── moving between directories ─────────────────────────────────────

use f5h::nav::parent_and_name;

#[test]
fn parent_and_name_of_paths() {
    assert_eq!(parent_and_name("/home/user"), Some(("/home".to_string(), "user".to_string())));
    assert_eq!(parent_and_name("/a"), Some(("/".to_string(), "a".to_string())));
    assert_eq!(parent_and_name("/a/b/"), Some(("/a".to_string(), "b".to_string())));
    assert_eq!(parent_and_name("/"), None);
    assert_eq!(parent_and_name(""), None);
}

#[test]
fn test_enter_subdir_resets_cursor() {
    let mut app = app_with(vec![entry("subdir", true, 0)]);
    app.cursor = app.entries.iter().position(|e| e.name == "subdir").unwrap();
    let (dir, came_from) = app.enter_target("subdir").unwrap();
    assert_eq!(dir, "/tmp/work/subdir");
    assert!(came_from.is_none());
    app.show_dir(dir, files(&["file.txt"]), 0o755, came_from);
    assert_eq!(app.current_dir, "/tmp/work/subdir");
    assert_eq!(app.cursor, 0);
    assert!(app.entries.iter().any(|e| e.name == "file.txt"));
}

#[test]
fn test_enter_parent_dir_restores_cursor() {
    let mut app = fresh_app();
    app.show_dir("/tmp/work/child".to_string(), vec![], 0o755, None);
    let (dir, came_from) = app.enter_target("..").unwrap();
    assert_eq!(dir, "/tmp/work");
    assert_eq!(came_from.as_deref(), Some("child"));
    app.show_dir(dir, vec![entry("aaa", true, 0), entry("child", true, 0)], 0o755, came_from);
    assert_eq!(app.current_dir, "/tmp/work");
    assert_eq!(app.entries[app.cursor].name, "child");
}

#[test]
fn no_parent_above_the_root() {
    let mut app = fresh_app();
    app.show_dir("/".to_string(), files(&["etc"]), 0o755, None);
    assert_eq!(app.entries[0].name, "etc");
    assert!(app.enter_target("..").is_none());
}

// ── copy runs ──────────────────────────────────────────────────────

use f5h::app::ConflictChoice;
use f5h::ops::{check_copy_dest, conflict_prompt, copy_plan};

#[test]
fn copy_into_itself_is_refused() {
    let dirs = vec![("sub".to_string(), "/tmp/x/sub".to_string())];
    assert_eq!(check_copy_dest("/tmp/x/sub/inner", &dirs), Err(OpError::IntoItself("sub".to_string())));
    assert_eq!(check_copy_dest("/tmp/x/subway", &dirs), Ok(()));
    assert_eq!(check_copy_dest("/tmp/x/sub", &dirs), Err(OpError::IntoItself("sub".to_string())));
}

#[test]
fn copy_plan_stops_at_first_conflict() {
    let (go, ask) = copy_plan(&vec![false, true, true], &vec![false, false, false], None);
    assert_eq!(go, vec![0]);
    assert_eq!(ask, Some(1));
    let files = vec!["a.txt".to_string(), "b.txt".to_string(), "c.txt".to_string()];
    let p = conflict_prompt("/dst", &files, 1, false);
    assert_eq!(p.conflict, "b.txt");
    assert_eq!(p.todo, vec!["c.txt".to_string()]);
}

#[test]
fn copy_plan_batch_choices() {
    let exists = vec![true, true, false];
    let newer = vec![true, false, false];
    assert_eq!(copy_plan(&exists, &newer, Some(ConflictChoice::Overwrite)), (vec![0, 1, 2], None));
    assert_eq!(copy_plan(&exists, &newer, Some(ConflictChoice::Skip)), (vec![2], None));
    assert_eq!(copy_plan(&exists, &newer, Some(ConflictChoice::IfNewer)), (vec![0, 2], None));
}
