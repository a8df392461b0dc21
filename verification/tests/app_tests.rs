use f5h::dialogs::{next_match_index, prev_match_index};
use f5h::app::{App, DialogKind, FileEntry, GitDialog, GitDialogState, SearchState, SortMode};
use f5h::config::Config;
use f5h::keymap::{KeyCode, KeyModifiers};
use f5h::keys::{FileCommand, GitCommand, git_argv, git_done_message};
use f5h::ops::{
    checked_name, copy_step, exec_attr, exec_copy_newname, exec_delete, exec_mkdir, exec_rename,
    resolve_choice, CopyStep, OpError,
};
use f5h::app::ConflictChoice;
use f5h::tree::tree_build;

fn entry(name: &str, is_dir: bool, size: u64) -> FileEntry {
    FileEntry {
        name: name.to_string(),
        is_dir,
        is_link: false,
        size,
        blocks: 0,
        inode: 0,
        nlink: 1,
        uid: 0,
        gid: 0,
        date: "2024-01-01".to_string(),
        time_str: "00:00".to_string(),
        time_full: "00:00:00".to_string(),
        atime_s: String::new(),
        ctime_s: String::new(),
        birth_s: None,
        mode: 0o644,
    }
}

fn make_app(names: &[(&str, bool)], has_parent: bool) -> App {
    let mut app = App::new(Config::empty(), "/tmp/work".to_string(), String::new(), None, None, false);
    let raw: Vec<FileEntry> = names.iter().map(|&(n, d)| entry(n, d, 0)).collect();
    app.load_entries(raw, has_parent, 0o755);
    app
}

fn names(app: &App) -> Vec<String> {
    app.entries.iter().map(|e| e.name.clone()).collect()
}

fn none() -> KeyModifiers {
    KeyModifiers::none()
}

#[test]
fn test_git_dialog_stash_msg_initial_state() {
    let state = GitDialogState::StashMsg { input: vec![], cursor: 0 };
    if let GitDialogState::StashMsg { input, cursor } = state {
        assert!(input.is_empty());
        assert_eq!(cursor, 0);
    } else {
        panic!("wrong variant");
    }
}

#[test]
fn test_git_dialog_stash_msg_with_content() {
    let chars: Vec<char> = "wip".chars().collect();
    let state = GitDialogState::StashMsg { input: chars.clone(), cursor: 3 };
    if let GitDialogState::StashMsg { input, cursor } = state {
        assert_eq!(input, chars);
        assert_eq!(cursor, 3);
    } else {
        panic!("wrong variant");
    }
}

#[test]
fn test_search_state_initial_not_confirmed() {
    let state = SearchState {
        input: vec!['a'],
        cursor: 1,
        matches: vec![0],
        match_idx: 0,
        origin: 0,
        confirmed: false,
    };
    assert!(!state.confirmed);
}

#[test]
fn test_search_state_confirmed_flag() {
    let mut state = SearchState {
        input: vec!['a'],
        cursor: 1,
        matches: vec![0],
        match_idx: 0,
        origin: 0,
        confirmed: false,
    };
    state.confirmed = true;
    assert!(state.confirmed);
}

#[test]
fn test_load_entries_empty_dir_has_dotdot() {
    let app = make_app(&[], true);
    assert_eq!(names(&app), vec![".."]);
}

#[test]
fn test_cols_and_per_page() {
    let mut app = make_app(&[], true);
    app.col_mode = 1;
    assert_eq!(app.cols(), 1);
    assert_eq!(app.per_page(10), 10);
    app.col_mode = 2;
    assert_eq!(app.cols(), 2);
    assert_eq!(app.per_page(10), 20);
    app.col_mode = 3;
    assert_eq!(app.cols(), 3);
    assert_eq!(app.per_page(10), 30);
    app.col_mode = 5;
    assert_eq!(app.cols(), 5);
    assert_eq!(app.per_page(10), 50);
}

#[test]
fn test_first_list_entry_index_at_root_is_zero() {
    let app = make_app(&[("bin", true)], false);
    assert_eq!(app.first_list_entry_index(), 0);
}

#[test]
fn test_collect_op_targets_excludes_dotdot() {
    let app = make_app(&[], true);
    assert!(app.collect_op_targets().is_empty());
}

#[test]
fn collect_op_targets_cursor_and_tagged() {
    let mut app = make_app(&[("a.txt", false), ("b.txt", false)], true);
    app.cursor = 1;
    assert_eq!(app.collect_op_targets(), vec!["a.txt"]);
    app.tagged[2] = true;
    assert_eq!(app.collect_op_targets(), vec!["b.txt"]);
}

#[test]
fn test_success_msg_none_by_default() {
    let app = make_app(&[], true);
    assert!(app.success_msg.is_none());
}

#[test]
fn test_show_help_false_by_default() {
    let app = make_app(&[], true);
    assert!(!app.show_help);
}

#[test]
fn test_sort_mode_none_by_default() {
    let app = make_app(&[], true);
    assert_eq!(app.sort_mode, SortMode::Unsorted);
    assert!(app.sort_asc);
}

#[test]
fn test_git_dialog_none_by_default() {
    let app = make_app(&[], true);
    assert!(app.git_dialog.is_none());
}

#[test]
fn test_git_dialog_open_sets_menu_state() {
    let mut app = make_app(&[], true);
    app.git_dialog = Some(GitDialog { state: GitDialogState::Menu });
    assert!(matches!(app.git_dialog.as_ref().unwrap().state, GitDialogState::Menu));
}

#[test]
fn test_git_dialog_transition_to_stash_msg() {
    let mut app = make_app(&[], true);
    app.git_dialog = Some(GitDialog { state: GitDialogState::Menu });
    let cmd = app.handle_git_dialog_key(KeyCode::Char('t'), none());
    assert!(matches!(cmd, GitCommand::Nothing));
    assert!(matches!(
        app.git_dialog.as_ref().unwrap().state,
        GitDialogState::StashMsg { .. }
    ));
}

#[test]
fn move_down_and_up_one_column() {
    let mut app = make_app(&[("a.txt", false), ("b.txt", false)], true);
    assert_eq!(app.cursor, 0);
    app.move_down(10);
    assert_eq!(app.cursor, 1);
    app.move_down(10);
    assert_eq!(app.cursor, 2);
    app.move_down(10);
    assert_eq!(app.cursor, 2);
    app.move_up(10);
    assert_eq!(app.cursor, 1);
    app.move_up(10);
    assert_eq!(app.cursor, 0);
    app.move_up(10);
    assert_eq!(app.cursor, 0);
}

#[test]
fn moves_across_columns_and_pages() {
    let files: Vec<String> = (0..9).map(|i| format!("{:02}.txt", i)).collect();
    let list: Vec<(&str, bool)> = files.iter().map(|s| (s.as_str(), false)).collect();
    let mut app = make_app(&list, true);
    let lh = 3;
    assert_eq!(app.per_page(lh), 6);
    assert_eq!(app.total_pages(lh), 2);
    app.cursor = 2;
    app.move_down(lh);
    assert_eq!(app.cursor, 3);
    app.move_up(lh);
    assert_eq!(app.cursor, 2);
    app.cursor = 1;
    app.move_right(lh);
    assert_eq!(app.cursor, 4);
    app.move_right(lh);
    assert_eq!(app.cursor, 6);
    app.move_left(lh);
    assert_eq!(app.cursor, 3);
    app.cursor = 5;
    app.move_down(lh);
    assert_eq!(app.cursor, 6);
    app.move_up(lh);
    assert_eq!(app.cursor, 5);
    assert_eq!(app.current_page(lh), 0);
    app.page_down(lh);
    assert_eq!(app.cursor, 9);
    assert_eq!(app.current_page(lh), 1);
    app.page_up(lh);
    assert_eq!(app.cursor, 3);
    app.cursor = app.last_list_entry_index();
    assert_eq!(app.current_page(lh), app.total_pages(lh) - 1);
}

#[test]
fn tags_skip_dotdot() {
    let mut app = make_app(&[("a", false), ("b", false)], true);
    app.tag_toggle();
    assert_eq!(app.tagged, vec![false, false, false]);
    app.cursor = 1;
    app.tag_toggle_move(10);
    assert_eq!(app.tagged, vec![false, true, false]);
    assert_eq!(app.cursor, 2);
    app.tag_all();
    assert_eq!(app.tagged, vec![false, true, true]);
    app.tag_all();
    assert_eq!(app.tagged, vec![false, false, false]);
}

#[test]
fn counts_and_total_size() {
    let mut app = App::new(Config::empty(), "/w".to_string(), String::new(), None, None, false);
    app.load_entries(vec![entry("d", true, 4096), entry("f", false, 10), entry("g", false, 5)], true, 0);
    assert_eq!(app.dir_count(), 1);
    assert_eq!(app.file_count(), 2);
    assert_eq!(app.current_total_bytes(), 15);
}

#[test]
fn listing_order_by_mode() {
    let raw = || {
        vec![
            entry("zzz.txt", false, 15),
            entry("aaa", true, 0),
            entry("b.rs", false, 2),
            entry(".hidden", false, 1),
            entry("A_file.md", false, 5),
        ]
    };
    let mut app = make_app(&[], true);
    app.sort_mode = SortMode::Name;
    app.sort_asc = true;
    app.load_entries(raw(), true, 0);
    assert_eq!(names(&app), vec!["..", "aaa", "A_file.md", "b.rs", "zzz.txt"]);
    app.sort_asc = false;
    app.load_entries(raw(), true, 0);
    assert_eq!(names(&app), vec!["..", "aaa", "zzz.txt", "b.rs", "A_file.md"]);
    app.sort_mode = SortMode::Ext;
    app.sort_asc = true;
    app.load_entries(raw(), true, 0);
    assert_eq!(names(&app), vec!["..", "aaa", "A_file.md", "b.rs", "zzz.txt"]);
    app.sort_mode = SortMode::Size;
    app.load_entries(raw(), true, 0);
    assert_eq!(names(&app), vec!["..", "aaa", "b.rs", "A_file.md", "zzz.txt"]);
    app.show_hidden = true;
    app.load_entries(raw(), false, 0);
    assert_eq!(names(&app), vec!["aaa", ".hidden", "b.rs", "A_file.md", "zzz.txt"]);
    assert_eq!(app.tagged.len(), 5);
}

#[test]
fn search_matches_regex_or_substring() {
    let mut app = make_app(&[("Alpha.txt", false), ("beta.rs", false), ("gamma(1).txt", false)], true);
    app.sort_mode = SortMode::Name;
    app.load_entries(
        vec![entry("Alpha.txt", false, 0), entry("beta.rs", false, 0), entry("gamma(1).txt", false, 0)],
        true,
        0,
    );
    assert_eq!(app.compute_search_matches("txt$"), vec![1, 3]);
    assert_eq!(app.compute_search_matches("ALPHA"), vec![1]);
    assert_eq!(app.compute_search_matches("a(1"), vec![3]);
    assert_eq!(app.compute_search_matches(""), Vec::<usize>::new());
    assert_eq!(app.compute_search_matches("\\.\\."), Vec::<usize>::new());
}

#[test]
fn jumping_between_matches_wraps() {
    let mut app = make_app(&[("a", false), ("b", false), ("c", false)], true);
    let ms = vec![1, 3];
    app.cursor = 1;
    app.jump_to_match(&ms, true);
    assert_eq!(app.cursor, 3);
    app.jump_to_match(&ms, true);
    assert_eq!(app.cursor, 1);
    app.jump_to_match(&ms, false);
    assert_eq!(app.cursor, 3);
}

#[test]
fn test_tree_build_root_node() {
    let levels = vec![
        vec![("home".to_string(), true), ("tmp".to_string(), true)],
        vec![("user".to_string(), true)],
        vec![("docs".to_string(), false)],
    ];
    let (nodes, cursor) = tree_build("/home/user", &levels, true);
    assert_eq!(nodes[0].name, "/");
    assert_eq!(nodes[0].depth, 0);
    assert_eq!(nodes[cursor].path, "/home/user");
    let paths: Vec<&str> = nodes.iter().map(|n| n.path.as_str()).collect();
    assert_eq!(paths, vec!["/", "/home", "/home/user", "/home/user/docs", "/tmp"]);
    assert!(nodes[1].expanded && nodes[2].expanded && !nodes[4].expanded);
}

#[test]
fn tree_expand_and_collapse() {
    let mut app = make_app(&[], true);
    app.current_dir = "/".to_string();
    app.tree_rebuild(&vec![vec![("a".to_string(), true), ("b".to_string(), false)]], true);
    assert_eq!(app.tree_nodes.len(), 3);
    app.tree_cursor = 1;
    app.tree_expand(vec![("x".to_string(), false), ("y".to_string(), true)]);
    let paths: Vec<&str> = app.tree_nodes.iter().map(|n| n.path.as_str()).collect();
    assert_eq!(paths, vec!["/", "/a", "/a/x", "/a/y", "/b"]);
    assert_eq!(app.tree_nodes[2].depth, 2);
    assert!(!app.tree_collapse(5));
    let paths: Vec<&str> = app.tree_nodes.iter().map(|n| n.path.as_str()).collect();
    assert_eq!(paths, vec!["/", "/a", "/b"]);
    assert!(app.tree_move_down(2));
    assert_eq!(app.current_dir, "/b");
    assert!(app.tree_collapse(2));
    assert_eq!(app.tree_cursor, 0);
    assert_eq!(app.current_dir, "/");
}

#[test]
fn tree_clamp_offset_keeps_cursor_visible() {
    let mut app = make_app(&[], true);
    app.tree_cursor = 10;
    app.tree_offset = 0;
    app.tree_clamp_offset(4);
    assert_eq!(app.tree_offset, 7);
    app.tree_cursor = 2;
    app.tree_clamp_offset(4);
    assert_eq!(app.tree_offset, 2);
}

#[test]
fn test_exec_mkdir() {
    assert_eq!(exec_mkdir("  newdir ").unwrap(), "newdir");
}

#[test]
fn test_exec_mkdir_empty_name_errors() {
    assert_eq!(exec_mkdir("   "), Err(OpError::EmptyName));
}

#[test]
fn test_exec_delete_skips_dotdot() {
    let t = vec!["..".to_string(), "a".to_string()];
    assert_eq!(exec_delete(&t), vec!["a"]);
}

#[test]
fn operation_checks() {
    let t = vec!["old.txt".to_string()];
    assert_eq!(exec_rename(" new.txt ", &t).unwrap(), Some(("old.txt".to_string(), "new.txt".to_string())));
    assert_eq!(exec_rename("", &t), Err(OpError::EmptyName));
    assert_eq!(exec_rename("x", &vec!["..".to_string()]).unwrap(), None);
    assert_eq!(exec_attr(" 755 ", &t).unwrap(), (0o755, vec!["old.txt".to_string()]));
    assert_eq!(exec_attr("abc", &t), Err(OpError::InvalidOctal("abc".to_string())));
    assert_eq!(exec_attr("", &t), Err(OpError::EmptyPerm));
    assert_eq!(exec_attr("9", &t), Err(OpError::InvalidOctal("9".to_string())));
    assert_eq!(exec_copy_newname("copy", &Vec::new()), Err(OpError::NoSource));
    assert_eq!(exec_copy_newname("copy", &t).unwrap(), ("old.txt".to_string(), "copy".to_string()));
    assert_eq!(checked_name(" a b "), Ok("a b".to_string()));
    assert_eq!(OpError::InvalidOctal("9".to_string()).message(), "無効なオクタル値: 9");
    assert_eq!(OpError::Exists("x".to_string()).message(), "\"x\" は既に存在します");
}

#[test]
fn conflict_steps() {
    assert_eq!(copy_step(false, false, None), CopyStep::Transfer);
    assert_eq!(copy_step(true, false, None), CopyStep::Ask);
    assert_eq!(copy_step(true, false, Some(ConflictChoice::Overwrite)), CopyStep::Transfer);
    assert_eq!(copy_step(true, false, Some(ConflictChoice::IfNewer)), CopyStep::Skip);
    assert_eq!(copy_step(true, true, Some(ConflictChoice::IfNewer)), CopyStep::Transfer);
    assert_eq!(copy_step(true, true, Some(ConflictChoice::Skip)), CopyStep::Skip);
    assert!(resolve_choice(ConflictChoice::Overwrite, false));
    assert!(!resolve_choice(ConflictChoice::Skip, true));
}

#[test]
fn resolve_dest_relative_and_absolute() {
    let app = make_app(&[], true);
    assert_eq!(app.resolve_dest("sub"), "/tmp/work/sub");
    assert_eq!(app.resolve_dest("/abs"), "/abs");
}

#[test]
fn file_dialog_flow() {
    let mut app = make_app(&[("a.txt", false)], true);
    app.cursor = 1;
    app.open_file_dialog(DialogKind::Rename);
    {
        let d = app.file_dialog.as_ref().unwrap();
        assert_eq!(d.input.iter().collect::<String>(), "a.txt");
        assert_eq!(d.cursor, 5);
    }
    app.handle_file_dialog_key(KeyCode::Backspace, none());
    app.handle_file_dialog_key(KeyCode::Char('X'), KeyModifiers::shift());
    let cmd = app.handle_file_dialog_key(KeyCode::Enter, none());
    match cmd {
        FileCommand::Submit { kind, input } => {
            assert_eq!(kind, DialogKind::Rename);
            assert_eq!(input, "a.txX");
        }
        _ => panic!("expected submit"),
    }
    assert!(!app.finish_file_op(Err("boom".to_string()), false));
    assert_eq!(app.file_dialog.as_ref().unwrap().error.as_deref(), Some("boom"));
    assert!(app.finish_file_op(Ok(None), false));
    assert!(app.file_dialog.is_none());
    app.open_file_dialog(DialogKind::Attr);
    assert_eq!(app.file_dialog.as_ref().unwrap().input.iter().collect::<String>(), "0644");
    let cmd = app.handle_file_dialog_key(KeyCode::Esc, none());
    assert!(matches!(cmd, FileCommand::Closed));
    app.open_file_dialog(DialogKind::DeleteConfirm);
    app.handle_file_dialog_key(KeyCode::Char('h'), none());
    assert!(matches!(app.handle_file_dialog_key(KeyCode::Enter, none()), FileCommand::Delete));
}

#[test]
fn git_dialog_flow() {
    let mut app = make_app(&[("a.txt", false)], true);
    app.git_dialog = Some(GitDialog { state: GitDialogState::Menu });
    app.handle_git_dialog_key(KeyCode::Char('c'), none());
    app.handle_git_dialog_key(KeyCode::Char('f'), none());
    app.handle_git_dialog_key(KeyCode::Char('x'), none());
    let cmd = app.handle_git_dialog_key(KeyCode::Enter, none());
    match cmd {
        GitCommand::Commit(m) => assert_eq!(m, "fx"),
        _ => panic!("expected commit"),
    }
    assert!(app.git_dialog.is_none());
    app.git_dialog = Some(GitDialog { state: GitDialogState::CommitMsg { input: vec![' '], cursor: 1 } });
    let cmd = app.handle_git_dialog_key(KeyCode::Enter, none());
    assert!(matches!(cmd, GitCommand::Nothing));
    assert_eq!(app.error_msg.as_deref(), Some("コミットメッセージを入力してください"));
    app.git_dialog = Some(GitDialog { state: GitDialogState::Menu });
    app.git_menu_cursor = 0;
    app.cursor = 1;
    let cmd = app.handle_git_dialog_key(KeyCode::Enter, none());
    assert_eq!(git_argv(&cmd), vec!["add", "a.txt"]);
    assert_eq!(git_done_message(&cmd, true), "1 件をステージしました。");
    app.git_dialog = Some(GitDialog { state: GitDialogState::Menu });
    let cmd = app.handle_git_dialog_key(KeyCode::Char('a'), none());
    assert_eq!(git_done_message(&cmd, true), "1 file(s) added.");
    app.git_dialog = Some(GitDialog { state: GitDialogState::Menu });
    app.handle_git_dialog_key(KeyCode::Char('s'), none());
    for c in " dev ".chars() {
        app.handle_git_dialog_key(KeyCode::Char(c), none());
    }
    let cmd = app.handle_git_dialog_key(KeyCode::Enter, none());
    assert_eq!(git_argv(&cmd), vec!["switch", "dev"]);
    assert_eq!(git_done_message(&cmd, false), "ブランチ 'dev' に切り替えました。");
}

#[test]
fn run_args_quote_names() {
    let mut app = make_app(&[("my file", false), ("b", false)], true);
    assert_eq!(names(&app), vec!["..", "b", "my file"]);
    app.cursor = 2;
    assert_eq!(app.run_args(), "'my file'");
    app.tagged[1] = true;
    app.tagged[2] = true;
    assert_eq!(app.run_args(), "b 'my file'");
}

#[test]
fn program_for_extension() {
    let mut cfg = Config::empty();
    cfg.programs = vec![
        ("pager".to_string(), "most".to_string()),
        ("pdf".to_string(), "evince".to_string()),
        ("editor".to_string(), String::new()),
    ];
    let app = App::new(cfg, "/".to_string(), String::new(), None, Some("vi".to_string()), false);
    assert_eq!(app.pager, "most");
    assert_eq!(app.editor, "vi");
    assert_eq!(app.program_for("doc.PDF"), "evince");
    assert_eq!(app.program_for("notes.txt"), "most");
    assert_eq!(app.ext_programs.len(), 1);
}

#[test]
fn next_then_previous_match_comes_back() {
    let ms = vec![2usize, 5, 9];
    for j in 0..ms.len() {
        let k = next_match_index(&ms, ms[j]);
        assert_eq!(prev_match_index(&ms, ms[k]), j);
        let k = prev_match_index(&ms, ms[j]);
        assert_eq!(next_match_index(&ms, ms[k]), j);
    }
}

#[test]
fn same_sort_key_twice_reverses() {
    let mut app = make_app(&[("b", false), ("a", false)], true);
    app.open_sort_dialog();
    app.handle_sort_dialog_key(KeyCode::Char('s'), none());
    assert_eq!((app.sort_mode, app.sort_asc), (SortMode::Size, true));
    app.open_sort_dialog();
    app.handle_sort_dialog_key(KeyCode::Char('s'), none());
    assert_eq!((app.sort_mode, app.sort_asc), (SortMode::Size, false));
}

#[test]
fn git_dialog_keys_keep_the_rest_of_the_state() {
    let mut app = make_app(&[("a.txt", false)], true);
    app.current_dir = "/work".to_string();
    app.success_msg = Some("done".to_string());
    app.git_dialog = Some(GitDialog { state: GitDialogState::StashMsg { input: vec!['a', 'b'], cursor: 1 } });
    assert!(matches!(app.handle_git_dialog_key(KeyCode::Backspace, none()), GitCommand::Nothing));
    match &app.git_dialog {
        Some(GitDialog { state: GitDialogState::StashMsg { input, cursor } }) => {
            assert_eq!(input, &vec!['b']);
            assert_eq!(*cursor, 0);
        }
        _ => panic!("expected the stash message input"),
    }
    assert!(matches!(app.handle_git_dialog_key(KeyCode::Esc, none()), GitCommand::Nothing));
    assert!(matches!(app.git_dialog, Some(GitDialog { state: GitDialogState::Menu })));
    assert_eq!(app.current_dir, "/work");
    assert_eq!(app.success_msg.as_deref(), Some("done"));
    assert!(app.error_msg.is_none());
}

#[test]
fn menu_bar_of_a_new_app() {
    let app = App::new(Config::empty(), "/".to_string(), String::new(), None, None, false);
    assert_eq!(app.menu_items.len(), 14);
    assert_eq!(app.menu_items[0], ("e".to_string(), "編集".to_string()));
    assert_eq!(app.menu_items[4], ("TAB".to_string(), "ツリー".to_string()));
    assert_eq!(app.menu_items[5], ("s".to_string(), "ソート".to_string()));
    assert_eq!(app.menu_items[13].1, "終了");
}
