use f5h::app::{App, DialogKind, DirJumpDialog, FileEntry, FuncDialog, RunDialog, SearchState, SortMode};
use f5h::config::Config;
use f5h::input::{cmd_candidates, func_cmds, split_cmd_line, tree_key_of, FuncCommand, KeyRoute, TreeKey};
use f5h::keymap::{Action, KeyCode, KeyModifiers};

fn entry(name: &str, is_dir: bool) -> FileEntry {
    FileEntry {
        name: name.to_string(),
        is_dir,
        is_link: false,
        size: 0,
        blocks: 0,
        inode: 0,
        nlink: 1,
        uid: 0,
        gid: 0,
        date: "2024-01-01".to_string(),
        time_str: "00:00".to_string(),
        time_full: "00:00:00".to_string(),
        atime_s: String::new(),
        ctime_s: String::new(),
        birth_s: None,
        mode: 0o644,
    }
}

fn app_with(names: &[&str]) -> App {
    let mut app = App::new(Config::empty(), "/tmp/work".to_string(), String::new(), None, None, false);
    app.load_entries(names.iter().map(|n| entry(n, false)).collect(), true, 0o755);
    app
}

fn none() -> KeyModifiers {
    KeyModifiers::none()
}

fn chars(s: &str) -> Vec<char> {
    s.chars().collect()
}

fn palette(app: &mut App, line: &str) -> FuncCommand {
    let input = chars(line);
    let n = input.len();
    app.func_dialog = Some(FuncDialog { input, cursor: n, selected: 0 });
    app.handle_func_dialog_key(KeyCode::Enter, none())
}

// ── sort dialog ────────────────────────────────────────────────────

#[test]
fn sort_dialog_opens_on_current_mode() {
    let mut app = app_with(&[]);
    app.sort_mode = SortMode::Size;
    app.open_sort_dialog();
    assert!(app.show_sort_dialog);
    assert_eq!(app.sort_cursor, 2);
}

#[test]
fn sort_dialog_letter_picks_and_same_mode_reverses() {
    let mut app = app_with(&[]);
    app.open_sort_dialog();
    assert!(app.handle_sort_dialog_key(KeyCode::Char('x'), none()));
    assert_eq!(app.sort_mode, SortMode::Ext);
    assert!(app.sort_asc);
    assert!(!app.show_sort_dialog);
    app.open_sort_dialog();
    assert!(app.handle_sort_dialog_key(KeyCode::Char('X'), none()));
    assert_eq!(app.sort_mode, SortMode::Ext);
    assert!(!app.sort_asc);
}

#[test]
fn sort_dialog_cursor_moves_and_enter_picks() {
    let mut app = app_with(&[]);
    app.sort_mode = SortMode::Name;
    app.open_sort_dialog();
    assert!(!app.handle_sort_dialog_key(KeyCode::Down, none()));
    assert!(!app.handle_sort_dialog_key(KeyCode::Char('j'), none()));
    assert_eq!(app.sort_cursor, 2);
    assert!(!app.handle_sort_dialog_key(KeyCode::Up, none()));
    assert_eq!(app.sort_cursor, 1);
    assert!(app.handle_sort_dialog_key(KeyCode::Enter, none()));
    assert_eq!(app.sort_mode, SortMode::Ext);
}

#[test]
fn sort_dialog_esc_keeps_mode() {
    let mut app = app_with(&[]);
    app.open_sort_dialog();
    assert!(!app.handle_sort_dialog_key(KeyCode::Esc, none()));
    assert!(!app.show_sort_dialog);
    assert_eq!(app.sort_mode, SortMode::Unsorted);
}

// ── command palette ────────────────────────────────────────────────

#[test]
fn palette_commands_and_candidates() {
    let cmds = func_cmds();
    let names: Vec<&str> = cmds.iter().map(|c| c.name).collect();
    assert_eq!(names, vec!["mv", "mkdir", "proc", "q", "help"]);
    assert_eq!(cmd_candidates(&chars("m")), vec!["mv", "mkdir"]);
    assert_eq!(cmd_candidates(&chars("")).len(), 5);
    assert!(cmd_candidates(&chars("z")).is_empty());
}

#[test]
fn palette_line_splits_into_word_and_argument() {
    let (w, a) = split_cmd_line(&chars("  mv   new name  "));
    assert_eq!(w, chars("mv"));
    assert_eq!(a, chars("new name"));
    let (w, a) = split_cmd_line(&chars("q"));
    assert_eq!(w, chars("q"));
    assert!(a.is_empty());
}

#[test]
fn palette_runs_quit_move_and_proc() {
    let mut app = app_with(&["a.txt"]);
    assert_eq!(palette(&mut app, "q"), FuncCommand::Quit);
    assert_eq!(palette(&mut app, "QUIT"), FuncCommand::Quit);
    assert_eq!(palette(&mut app, "proc"), FuncCommand::Proc);
    app.cursor = 1;
    assert_eq!(
        palette(&mut app, "mv b.txt"),
        FuncCommand::Move { from: "a.txt".to_string(), to: "b.txt".to_string() }
    );
    assert!(app.func_dialog.is_none());
}

#[test]
fn palette_mkdir_opens_dialog_with_name() {
    let mut app = app_with(&[]);
    assert_eq!(palette(&mut app, "mkdir newdir"), FuncCommand::Nothing);
    let d = app.file_dialog.as_ref().unwrap();
    assert_eq!(d.kind, DialogKind::Mkdir);
    assert_eq!(d.input, chars("newdir"));
    assert_eq!(d.cursor, 6);
}

#[test]
fn palette_reports_unknown_and_missing_argument() {
    let mut app = app_with(&["a.txt"]);
    assert_eq!(palette(&mut app, "zap"), FuncCommand::Nothing);
    assert_eq!(app.error_msg.as_deref(), Some("不明なコマンド: zap"));
    assert_eq!(palette(&mut app, "mv"), FuncCommand::Nothing);
    assert_eq!(app.error_msg.as_deref(), Some("使い方: mv <新しい名前>"));
}

#[test]
fn palette_prefix_runs_highlighted_candidate() {
    let mut app = app_with(&[]);
    assert_eq!(palette(&mut app, "pr"), FuncCommand::Proc);
}

#[test]
fn palette_tab_completes_and_keys_move_highlight() {
    let mut app = app_with(&[]);
    app.func_dialog = Some(FuncDialog { input: chars("m"), cursor: 1, selected: 0 });
    app.handle_func_dialog_key(KeyCode::Down, none());
    assert_eq!(app.func_dialog.as_ref().unwrap().selected, 1);
    app.handle_func_dialog_key(KeyCode::Down, none());
    assert_eq!(app.func_dialog.as_ref().unwrap().selected, 1);
    app.handle_func_dialog_key(KeyCode::Tab, none());
    let d = app.func_dialog.as_ref().unwrap();
    assert_eq!(d.input, chars("mkdir "));
    assert_eq!(d.cursor, 6);
    assert_eq!(d.selected, 0);
    assert_eq!(app.handle_func_dialog_key(KeyCode::Esc, none()), FuncCommand::Nothing);
    assert!(app.func_dialog.is_none());
}

// ── incremental search ─────────────────────────────────────────────

#[test]
fn search_typing_finds_and_esc_restores() {
    let mut app = app_with(&["Alpha.txt", "beta.txt", "alps.md"]);
    app.cursor = 2;
    app.search = Some(SearchState {
        input: vec![],
        cursor: 0,
        origin: 2,
        matches: vec![],
        match_idx: 0,
        confirmed: false,
    });
    app.handle_search_key(KeyCode::Char('A'), none());
    app.handle_search_key(KeyCode::Char('l'), none());
    let s = app.search.as_ref().unwrap();
    assert_eq!(s.input, chars("Al"));
    let hits: Vec<&str> = s.matches.iter().map(|&i| app.entries[i].name.as_str()).collect();
    assert_eq!(hits, vec!["Alpha.txt", "alps.md"]);
    assert_eq!(app.cursor, s.matches[0]);
    app.handle_search_key(KeyCode::Esc, none());
    assert!(app.search.is_none());
    assert_eq!(app.cursor, 2);
}

#[test]
fn search_enter_confirms_and_keeps_pattern() {
    let mut app = app_with(&["one", "two"]);
    app.search = Some(SearchState { input: vec![], cursor: 0, origin: 0, matches: vec![], match_idx: 0, confirmed: false });
    app.handle_search_key(KeyCode::Char('t'), none());
    app.handle_search_key(KeyCode::Enter, none());
    assert!(app.search.as_ref().unwrap().confirmed);
    assert_eq!(app.last_search, "t");
}

// ── command line and directory jump ────────────────────────────────

#[test]
fn run_dialog_hands_over_line() {
    let mut app = app_with(&[]);
    app.run_dialog = Some(RunDialog { input: vec![], cursor: 0 });
    for c in "ls -l".chars() {
        assert_eq!(app.handle_run_dialog_key(KeyCode::Char(c), none()), None);
    }
    assert_eq!(app.handle_run_dialog_key(KeyCode::Enter, none()), Some("ls -l".to_string()));
    assert!(app.run_dialog.is_none());
    app.run_dialog = Some(RunDialog { input: chars("   "), cursor: 3 });
    assert_eq!(app.handle_run_dialog_key(KeyCode::Enter, none()), None);
    assert!(app.run_dialog.is_none());
}

#[test]
fn dir_jump_expands_home_and_clears_error() {
    let mut app = app_with(&[]);
    app.dir_jump_dialog = Some(DirJumpDialog { input: chars("~/src"), cursor: 5, error: Some("x".to_string()) });
    let r = app.handle_dir_jump_key(KeyCode::Enter, none(), Some("/home/me".to_string()));
    assert_eq!(r, Some("/home/me/src".to_string()));
    assert!(app.dir_jump_dialog.is_some());
    assert_eq!(app.handle_dir_jump_key(KeyCode::Backspace, none(), None), None);
    let d = app.dir_jump_dialog.as_ref().unwrap();
    assert_eq!(d.input, chars("~/sr"));
    assert!(d.error.is_none());
    let r = app.handle_dir_jump_key(KeyCode::Enter, none(), None);
    assert_eq!(r, Some("~/sr".to_string()));
}

// ── tree pane keys ─────────────────────────────────────────────────

#[test]
fn tree_pane_keys() {
    assert_eq!(tree_key_of(KeyCode::Char('j'), none()), TreeKey::Down);
    assert_eq!(tree_key_of(KeyCode::Up, none()), TreeKey::Up);
    assert_eq!(tree_key_of(KeyCode::Char('l'), none()), TreeKey::Expand);
    assert_eq!(tree_key_of(KeyCode::Backspace, none()), TreeKey::Collapse);
    assert_eq!(tree_key_of(KeyCode::Tab, none()), TreeKey::Close);
    assert_eq!(tree_key_of(KeyCode::Enter, none()), TreeKey::Leave);
    assert_eq!(tree_key_of(KeyCode::Char('q'), none()), TreeKey::Quit);
    assert_eq!(tree_key_of(KeyCode::Char('j'), KeyModifiers::shift()), TreeKey::Nothing);
}

#[test]
fn keys_go_to_the_open_dialog_first() {
    let mut app = app_with(&["a.txt"]);
    assert_eq!(app.route_key(KeyCode::F(1), none()), (false, KeyRoute::Help));
    assert_eq!(app.route_key(KeyCode::Char('q'), none()), (false, KeyRoute::Action(Action::Quit)));
    app.run_dialog = Some(RunDialog { input: Vec::new(), cursor: 0 });
    assert_eq!(app.route_key(KeyCode::Char('q'), none()), (false, KeyRoute::RunDialog));
    app.show_sort_dialog = true;
    assert_eq!(app.route_key(KeyCode::Char('q'), none()), (false, KeyRoute::SortDialog));
    app.show_sort_dialog = false;
    app.run_dialog = None;
    app.search = Some(SearchState { input: chars("a"), cursor: 1, origin: 0, matches: vec![0], match_idx: 0, confirmed: true });
    let (close, _) = app.route_key(KeyCode::Esc, none());
    assert!(close);
    app.search = Some(SearchState { input: chars("a"), cursor: 1, origin: 0, matches: vec![0], match_idx: 0, confirmed: false });
    assert_eq!(app.route_key(KeyCode::Esc, none()), (false, KeyRoute::Search));
}

#[test]
fn actions_change_the_app_or_leave_the_rest_to_the_caller() {
    let mut app = app_with(&["a.txt", "b.txt"]);
    assert_eq!(app.apply_action(Action::ColMode3), f5h::dialogs::ActionEffect::Done);
    assert_eq!(app.col_mode, 3);
    assert_eq!(app.apply_action(Action::LastEntry), f5h::dialogs::ActionEffect::Done);
    assert_eq!(app.cursor, app.entries.len() - 1);
    assert_eq!(app.apply_action(Action::MoveDown), f5h::dialogs::ActionEffect::Move);
    assert_eq!(app.apply_action(Action::Enter), f5h::dialogs::ActionEffect::OpenEntry);
    assert_eq!(app.apply_action(Action::TreeToggle), f5h::dialogs::ActionEffect::OpenTree);
    assert!(!app.tree_open);
    assert_eq!(app.apply_action(Action::DirJump), f5h::dialogs::ActionEffect::Done);
    assert_eq!(app.dir_jump_dialog.as_ref().unwrap().input, chars("/tmp/work"));
    app.dir_jump_dialog = None;
    app.last_search = "b".to_string();
    app.cursor = 0;
    assert_eq!(app.apply_action(Action::SearchNext), f5h::dialogs::ActionEffect::Done);
    assert_eq!(app.entries[app.cursor].name, "b.txt");
}
