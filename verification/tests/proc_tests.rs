use f5h::procview::{keep_visible, proc_entry_style, ProcNav, ProcStep};
use f5h::style::{Color, Style};
use f5h::proc::{classify_fd, format_elapsed, signal_item, signal_sent_message, sort_proc_entries, FdType, ProcEntry, ProcSignalMenu, ProcSortMode, SignalMenuAction};
use f5h::keymap::{KeyCode, KeyModifiers};

#[test]
fn test_format_elapsed_seconds() {
    assert_eq!(format_elapsed(45), "00:00:45");
}

#[test]
fn test_format_elapsed_minutes() {
    assert_eq!(format_elapsed(90), "00:01:30");
}

#[test]
fn test_format_elapsed_hours() {
    assert_eq!(format_elapsed(3661), "01:01:01");
}

#[test]
fn test_format_elapsed_days() {
    assert_eq!(format_elapsed(86400 + 3600 + 60 + 1), "1d 01:01:01");
}

#[test]
fn test_proc_sort_mode_label() {
    assert_eq!(ProcSortMode::Cpu.label(), "CPU");
    assert_eq!(ProcSortMode::Mem.label(), "MEM");
    assert_eq!(ProcSortMode::Pid.label(), "PID");
    assert_eq!(ProcSortMode::User.label(), "USER");
    assert_eq!(ProcSortMode::Command.label(), "CMD");
}

#[test]
fn test_proc_sort_mode_default_asc() {
    assert!(!ProcSortMode::Cpu.default_asc());
    assert!(!ProcSortMode::Mem.default_asc());
    assert!(ProcSortMode::Pid.default_asc());
    assert!(ProcSortMode::User.default_asc());
    assert!(ProcSortMode::Command.default_asc());
}

#[test]
fn test_classify_fd_socket() {
    assert_eq!(classify_fd(5, "socket:[12345]"), FdType::Socket);
}

#[test]
fn test_classify_fd_pipe() {
    assert_eq!(classify_fd(5, "pipe:[67890]"), FdType::Pipe);
}

#[test]
fn test_classify_fd_anon() {
    assert_eq!(classify_fd(5, "anon_inode:[eventfd]"), FdType::Anon);
}

#[test]
fn test_classify_fd_stdin() {
    assert_eq!(classify_fd(0, "/dev/pts/0"), FdType::Stdin);
}

#[test]
fn test_classify_fd_stdout() {
    assert_eq!(classify_fd(1, "/dev/pts/0"), FdType::Stdout);
}

#[test]
fn test_classify_fd_stderr() {
    assert_eq!(classify_fd(2, "/dev/pts/0"), FdType::Stderr);
}

#[test]
fn test_classify_fd_file() {
    assert_eq!(classify_fd(5, "/home/user/file.txt"), FdType::File);
}

#[test]
fn test_classify_fd_other() {
    assert_eq!(classify_fd(5, "?"), FdType::Other);
}

#[test]
fn test_fd_type_tag() {
    assert_eq!(FdType::Socket.tag(), "socket");
    assert_eq!(FdType::Pipe.tag(), "pipe  ");
    assert_eq!(FdType::File.tag(), "file  ");
    assert_eq!(FdType::Stdin.tag(), "stdin ");
}

fn make_entries(data: &[(u32, &str, f32, f32)]) -> Vec<ProcEntry> {
    data.iter()
        .map(|&(pid, user, cpu, mem)| ProcEntry {
            pid,
            user: user.to_string(),
            cpu_bits: cpu.to_bits(),
            mem_bits: mem.to_bits(),
            vsz: 0,
            rss: 0,
            stat: "S".to_string(),
            command: user.to_string(),
        })
        .collect()
}

#[test]
fn test_sort_by_cpu_descending() {
    let mut entries = make_entries(&[(1, "a", 1.0, 0.0), (2, "b", 5.0, 0.0), (3, "c", 3.0, 0.0)]);
    sort_proc_entries(&mut entries, ProcSortMode::Cpu, false);
    assert_eq!(entries[0].pid, 2);
    assert_eq!(entries[1].pid, 3);
    assert_eq!(entries[2].pid, 1);
}

#[test]
fn test_sort_by_cpu_ascending() {
    let mut entries = make_entries(&[(1, "a", 1.0, 0.0), (2, "b", 5.0, 0.0), (3, "c", 3.0, 0.0)]);
    sort_proc_entries(&mut entries, ProcSortMode::Cpu, true);
    assert_eq!(entries[0].pid, 1);
    assert_eq!(entries[1].pid, 3);
    assert_eq!(entries[2].pid, 2);
}

#[test]
fn test_sort_by_pid_ascending() {
    let mut entries = make_entries(&[(30, "a", 0.0, 0.0), (10, "b", 0.0, 0.0), (20, "c", 0.0, 0.0)]);
    sort_proc_entries(&mut entries, ProcSortMode::Pid, true);
    assert_eq!(entries[0].pid, 10);
    assert_eq!(entries[1].pid, 20);
    assert_eq!(entries[2].pid, 30);
}

#[test]
fn test_sort_by_pid_descending() {
    let mut entries = make_entries(&[(30, "a", 0.0, 0.0), (10, "b", 0.0, 0.0), (20, "c", 0.0, 0.0)]);
    sort_proc_entries(&mut entries, ProcSortMode::Pid, false);
    assert_eq!(entries[0].pid, 30);
}

#[test]
fn test_sort_by_mem_descending() {
    let mut entries = make_entries(&[(1, "a", 0.0, 2.0), (2, "b", 0.0, 8.0), (3, "c", 0.0, 5.0)]);
    sort_proc_entries(&mut entries, ProcSortMode::Mem, false);
    assert_eq!(entries[0].pid, 2);
}

#[test]
fn test_sort_by_user_ascending() {
    let mut entries = make_entries(&[(1, "zara", 0.0, 0.0), (2, "alice", 0.0, 0.0), (3, "bob", 0.0, 0.0)]);
    sort_proc_entries(&mut entries, ProcSortMode::User, true);
    assert_eq!(entries[0].user, "alice");
    assert_eq!(entries[1].user, "bob");
    assert_eq!(entries[2].user, "zara");
}

#[test]
fn test_sort_by_command_ascending() {
    let mut entries = make_entries(&[(1, "zsh", 0.0, 0.0), (2, "bash", 0.0, 0.0), (3, "cargo", 0.0, 0.0)]);
    sort_proc_entries(&mut entries, ProcSortMode::Command, true);
    assert_eq!(entries[0].command, "bash");
    assert_eq!(entries[1].command, "cargo");
    assert_eq!(entries[2].command, "zsh");
}

#[test]
fn sort_descending_reverses_equal_values_too() {
    let mut entries = make_entries(&[(1, "a", 2.0, 0.0), (2, "b", 2.0, 0.0), (3, "c", 9.5, 0.0)]);
    sort_proc_entries(&mut entries, ProcSortMode::Cpu, false);
    let pids: Vec<u32> = entries.iter().map(|e| e.pid).collect();
    assert_eq!(pids, vec![3, 2, 1]);
    assert_eq!(f32::from_bits(entries[0].cpu_bits), 9.5);
}

fn menu() -> ProcSignalMenu {
    ProcSignalMenu { cursor: 0, pid: 42, proc_name: "vim".to_string() }
}

#[test]
fn signal_menu_items() {
    assert_eq!(signal_item(0), (1, 'h', "SIGHUP  ( 1)", "reload / restart"));
    assert_eq!(signal_item(2), (9, 'k', "SIGKILL ( 9)", "force kill"));
    assert_eq!(signal_item(5), (20, 's', "SIGSTOP (20)", "stop"));
}

#[test]
fn signal_menu_moves_and_sends_highlighted() {
    let mut m = menu();
    let none = KeyModifiers::none();
    assert_eq!(m.handle_key(KeyCode::Up, none), SignalMenuAction::Stay);
    assert_eq!(m.cursor, 0);
    assert_eq!(m.handle_key(KeyCode::Down, none), SignalMenuAction::Stay);
    assert_eq!(m.handle_key(KeyCode::Char('j'), none), SignalMenuAction::Stay);
    assert_eq!(m.cursor, 2);
    assert_eq!(m.handle_key(KeyCode::Enter, none), SignalMenuAction::Send { sig: 9 });
    for _ in 0..10 {
        m.handle_key(KeyCode::Down, none);
    }
    assert_eq!(m.cursor, 5);
    assert_eq!(m.handle_key(KeyCode::Esc, none), SignalMenuAction::Close);
}

#[test]
fn signal_menu_direct_keys() {
    let mut m = menu();
    let none = KeyModifiers::none();
    assert_eq!(m.handle_key(KeyCode::Char('t'), none), SignalMenuAction::Send { sig: 15 });
    assert_eq!(m.handle_key(KeyCode::Char('c'), none), SignalMenuAction::Send { sig: 18 });
    assert_eq!(m.handle_key(KeyCode::Char('z'), none), SignalMenuAction::Stay);
    m.cursor = 3;
    assert_eq!(m.handle_key(KeyCode::Char('k'), none), SignalMenuAction::Stay);
    assert_eq!(m.cursor, 2);
}

#[test]
fn signal_sent_message_text() {
    assert_eq!(signal_sent_message(15, "vim", 4242), "Sent signal 15 to vim (PID 4242)");
}

use f5h::procview::{cycle_sort, list_nav, proc_key_of, track_cursor, ProcKey};

#[test]
fn process_list_movement() {
    let none = KeyModifiers::none();
    assert_eq!(list_nav(0, 5, 3, KeyCode::Up, none), Some(0));
    assert_eq!(list_nav(4, 5, 3, KeyCode::Char('j'), none), Some(4));
    assert_eq!(list_nav(1, 5, 3, KeyCode::PageDown, none), Some(4));
    assert_eq!(list_nav(4, 5, 3, KeyCode::PageUp, none), Some(1));
    assert_eq!(list_nav(3, 5, 3, KeyCode::Char('g'), none), Some(0));
    assert_eq!(list_nav(0, 5, 3, KeyCode::Char('G'), KeyModifiers::shift()), Some(4));
    assert_eq!(list_nav(0, 0, 3, KeyCode::Char('G'), none), Some(0));
    assert_eq!(list_nav(0, 5, 3, KeyCode::Char('z'), none), None);
}

#[test]
fn process_list_keys_and_sort_cycle() {
    let none = KeyModifiers::none();
    assert_eq!(proc_key_of(KeyCode::Char('q'), none), ProcKey::Leave);
    assert_eq!(proc_key_of(KeyCode::Enter, none), ProcKey::Files);
    assert_eq!(proc_key_of(KeyCode::Char('x'), none), ProcKey::Signals);
    assert_eq!(proc_key_of(KeyCode::F(1), none), ProcKey::Help);
    assert_eq!(cycle_sort(ProcSortMode::Cpu), (ProcSortMode::Mem, false));
    assert_eq!(cycle_sort(ProcSortMode::Mem), (ProcSortMode::Pid, true));
    assert_eq!(cycle_sort(ProcSortMode::Command), (ProcSortMode::Cpu, false));
}

#[test]
fn cursor_follows_the_process_after_refresh() {
    let es = make_entries(&[(7, "a", 0.0, 0.0), (3, "b", 0.0, 0.0), (9, "c", 0.0, 0.0)]);
    assert_eq!(track_cursor(&es, Some(9), 0), 2);
    assert_eq!(track_cursor(&es, Some(42), 1), 1);
    assert_eq!(track_cursor(&es, Some(42), 10), 2);
    assert_eq!(track_cursor(&vec![], None, 5), 0);
}

use f5h::proc::{cmdline_text, meminfo_in_range, parse_meminfo};

#[test]
fn command_line_from_nul_separated_arguments() {
    assert_eq!(cmdline_text(b"vim\0-u\0NONE\0"), "vim -u NONE");
    assert_eq!(cmdline_text(b"\0\0a\0\0b"), "a b");
    assert_eq!(cmdline_text(b""), "");
    assert_eq!(cmdline_text(b"caf\xc3\xa9\0x\xff"), "café x\u{FFFD}");
}

#[test]
fn meminfo_summary_in_bytes() {
    let text = "MemTotal:  1000 kB\nMemFree: 10 kB\nMemAvailable:  400 kB\nSwapTotal: 50 kB\nSwapFree: 60 kB\n";
    assert!(meminfo_in_range(text));
    assert_eq!(parse_meminfo(text), (600 * 1024, 1000 * 1024, 0, 50 * 1024));
    assert_eq!(parse_meminfo("SwapTotal: 5 kB\n"), (0, 0, 0, 0));
    assert!(!meminfo_in_range("MemTotal: 18446744073709551615 kB\n"));
}

#[test]
fn process_row_colours() {
    let mut e = make_entries(&[(1, "a", 50.0, 0.0)]).remove(0);
    assert_eq!(proc_entry_style(&e), Style::new().fg(Color::Red));
    e.cpu_bits = 49.9f32.to_bits();
    e.stat = "R".to_string();
    assert_eq!(proc_entry_style(&e), Style::new().fg(Color::Yellow));
    e.stat = "Z".to_string();
    assert_eq!(proc_entry_style(&e), Style::new().fg(Color::Magenta));
    e.stat = String::new();
    assert_eq!(proc_entry_style(&e), Style::new().fg(Color::White));
}

#[test]
fn proc_viewer_opens_sorted_by_cpu_descending() {
    let nav = ProcNav::new();
    assert_eq!(nav.sort, ProcSortMode::Cpu);
    assert!(!nav.sort_asc);
    assert_eq!((nav.cursor, nav.offset, nav.fd_mode), (0, 0, false));
}

#[test]
fn proc_viewer_steps() {
    let none = KeyModifiers::none();
    let mut nav = ProcNav::new();
    // moving down past the visible rows scrolls the list
    for _ in 0..5 {
        assert_eq!(nav.step(10, 0, 3, KeyCode::Down, none), ProcStep::Stay);
    }
    assert_eq!((nav.cursor, nav.offset), (5, 3));
    // `s` sorts by memory, largest first, from the top
    assert_eq!(nav.step(10, 0, 3, KeyCode::Char('s'), none), ProcStep::Resort);
    assert_eq!((nav.sort, nav.sort_asc, nav.cursor, nav.offset), (ProcSortMode::Mem, false, 0, 0));
    assert_eq!(nav.step(10, 0, 3, KeyCode::Char('s'), none), ProcStep::Resort);
    assert_eq!((nav.sort, nav.sort_asc), (ProcSortMode::Pid, true));
    // Enter opens the files of the process at the cursor; Esc goes back
    assert_eq!(nav.step(10, 0, 3, KeyCode::Enter, none), ProcStep::OpenFiles);
    assert!(nav.fd_mode);
    assert_eq!(nav.step(10, 4, 3, KeyCode::Char('G'), none), ProcStep::Stay);
    assert_eq!((nav.fd_cursor, nav.fd_offset), (3, 1));
    assert_eq!(nav.step(10, 4, 3, KeyCode::Char('r'), none), ProcStep::RefreshFiles);
    nav.files_reloaded(2, 3);
    assert_eq!((nav.fd_cursor, nav.fd_offset), (1, 1));
    assert_eq!(nav.step(10, 2, 3, KeyCode::Esc, none), ProcStep::Stay);
    assert!(!nav.fd_mode);
    // with no processes, `x` does nothing; Esc leaves
    let mut empty = ProcNav::new();
    assert_eq!(empty.step(0, 0, 3, KeyCode::Char('x'), none), ProcStep::Stay);
    assert_eq!(empty.step(0, 0, 3, KeyCode::Esc, none), ProcStep::Leave);
}

#[test]
fn keep_visible_follows_the_cursor() {
    assert_eq!(keep_visible(2, 5, 3), 2);
    assert_eq!(keep_visible(9, 0, 3), 7);
    assert_eq!(keep_visible(4, 3, 3), 3);
}

#[test]
fn shares_sort_as_numbers_including_negative_and_zero() {
    let mut entries = make_entries(&[(1, "a", 1.0, 0.0), (2, "b", -1.0, 0.0), (3, "c", -0.0, 0.0), (4, "d", 0.0, 0.0), (5, "e", -2.5, 0.0)]);
    sort_proc_entries(&mut entries, ProcSortMode::Cpu, true);
    let pids: Vec<u32> = entries.iter().map(|e| e.pid).collect();
    // -0.0 and 0.0 are equal and keep their order
    assert_eq!(pids, vec![5, 2, 3, 4, 1]);
    let mut entries = make_entries(&[(1, "a", 0.0, -3.0), (2, "b", 0.0, 2.0)]);
    sort_proc_entries(&mut entries, ProcSortMode::Mem, false);
    assert_eq!(entries[0].pid, 2);
}

#[test]
fn negative_share_is_not_hot() {
    let e = &make_entries(&[(1, "a", -60.0, 0.0)])[0];
    assert_eq!(proc_entry_style(e), Style::new().fg(Color::White));
    let e = &make_entries(&[(1, "a", 50.0, 0.0)])[0];
    assert_eq!(proc_entry_style(e), Style::new().fg(Color::Red));
}
