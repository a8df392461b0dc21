use f5h::fs_utils::{
    branch_from_output, count_from_output, decode_mount_field, git_error_message, git_fetch,
    git_pull, git_push, git_stash_pop, git_stash_push, parse_git_status, parse_mountinfo_line,
    program_argv, shell_quote, split_command_args, tree_subdirs, volume_info, CommandLineError,
    PushError,
};

#[test]
fn test_parse_mountinfo_line() {
    let line = "36 25 0:32 / / rw,relatime - ext4 /dev/sda1 rw";
    let (mount_point, source, fstype) = parse_mountinfo_line(line).unwrap();
    assert_eq!(mount_point, "/");
    assert_eq!(source, "/dev/sda1");
    assert_eq!(fstype, "ext4");
}

#[test]
fn test_parse_mountinfo_line_decodes_escapes() {
    let line = "84 36 0:45 / /tmp/my\\040mount rw,relatime - fuse.portal portal rw";
    let (mount_point, source, fstype) = parse_mountinfo_line(line).unwrap();
    assert_eq!(mount_point, "/tmp/my mount");
    assert_eq!(source, "portal");
    assert_eq!(fstype, "fuse.portal");
}

#[test]
fn test_shell_quote_clean_filename() {
    assert_eq!(shell_quote("foo.txt"), "foo.txt");
    assert_eq!(shell_quote("foo-bar.rs"), "foo-bar.rs");
    assert_eq!(shell_quote("foo_bar"), "foo_bar");
}

#[test]
fn test_shell_quote_space() {
    assert_eq!(shell_quote("foo bar.txt"), "'foo bar.txt'");
    assert_eq!(shell_quote("my file"), "'my file'");
}

#[test]
fn test_shell_quote_special_chars() {
    assert_eq!(shell_quote("foo$bar"), "'foo$bar'");
    assert_eq!(shell_quote("a&b"), "'a&b'");
    assert_eq!(shell_quote("a|b"), "'a|b'");
    assert_eq!(shell_quote("a;b"), "'a;b'");
    assert_eq!(shell_quote("a>b"), "'a>b'");
    assert_eq!(shell_quote("a<b"), "'a<b'");
    assert_eq!(shell_quote("a*b"), "'a*b'");
    assert_eq!(shell_quote("a?b"), "'a?b'");
}

#[test]
fn test_shell_quote_single_quote() {
    assert_eq!(shell_quote("it's"), "'it'\\''s'");
}

#[test]
fn test_shell_quote_tab_and_newline() {
    assert_eq!(shell_quote("a\tb"), "'a\tb'");
    assert_eq!(shell_quote("a\nb"), "'a\nb'");
}

#[test]
fn test_split_command_args_plain() {
    let parts = split_command_args("vim -p").unwrap();
    assert_eq!(parts, vec!["vim", "-p"]);
}

#[test]
fn test_split_command_args_double_quotes() {
    let parts = split_command_args("open -a \"Visual Studio Code\"").unwrap();
    assert_eq!(parts, vec!["open", "-a", "Visual Studio Code"]);
}

#[test]
fn test_split_command_args_single_quotes() {
    let parts = split_command_args("open -a 'Visual Studio Code'").unwrap();
    assert_eq!(parts, vec!["open", "-a", "Visual Studio Code"]);
}

#[test]
fn test_split_command_args_backslash_escape() {
    let parts = split_command_args("open -a Visual\\ Studio\\ Code").unwrap();
    assert_eq!(parts, vec!["open", "-a", "Visual Studio Code"]);
}

#[test]
fn test_split_command_args_unclosed_quote_errors() {
    assert!(split_command_args("open -a \"Visual Studio Code").is_err());
}

#[test]
fn split_then_quote_round_trip() {
    for s in ["plain", "two words", "it's", "a\"b", "back\\slash"] {
        let q = shell_quote(s);
        assert_eq!(split_command_args(&q).unwrap(), vec![s.to_string()]);
    }
}

#[test]
fn program_argv_rejects_empty_and_unbalanced() {
    assert_eq!(program_argv("   "), Err(CommandLineError::EmptyProgram));
    assert_eq!(program_argv("vim 'x"), Err(CommandLineError::UnclosedQuote));
    assert_eq!(program_argv("less -R").unwrap(), vec!["less", "-R"]);
}

#[test]
fn decode_mount_field_octal_escapes() {
    assert_eq!(decode_mount_field("a\\040b\\011c"), "a b\tc");
    assert_eq!(decode_mount_field("no\\escape"), "no\\escape");
    assert_eq!(decode_mount_field("plain"), "plain");
}

#[test]
fn volume_info_picks_deepest_mount() {
    let mi = "1 0 0:1 / / rw - ext4 /dev/sda1 rw\n2 1 0:2 / /home rw - xfs /dev/sdb1 rw\n";
    assert_eq!(volume_info("/home/user/docs", mi), "/dev/sdb1 (xfs)");
    assert_eq!(volume_info("/etc", mi), "/dev/sda1 (ext4)");
    assert_eq!(volume_info("/etc", ""), "");
}

#[test]
fn git_output_helpers() {
    assert_eq!(git_error_message("  fatal: no repo \n"), "fatal: no repo");
    assert_eq!(git_error_message("   "), "git error");
    assert_eq!(branch_from_output("main\n"), Some("main".to_string()));
    assert_eq!(branch_from_output("\n"), None);
    assert_eq!(count_from_output("3\n"), 3);
    assert_eq!(count_from_output("x"), 0);
}

#[test]
fn git_argument_lists() {
    assert_eq!(git_fetch(), vec!["fetch", "origin"]);
    assert_eq!(git_pull(), vec!["pull", "--rebase"]);
    assert_eq!(git_stash_pop(), vec!["stash", "pop"]);
    assert_eq!(git_stash_push(""), vec!["stash", "push"]);
    assert_eq!(git_stash_push("  "), vec!["stash", "push"]);
    assert_eq!(git_stash_push("wip"), vec!["stash", "push", "-m", "wip"]);
    assert_eq!(git_push("main\n").unwrap(), vec!["push", "origin", "main"]);
    assert_eq!(git_push("\n"), Err(PushError::DetachedHead));
}

#[test]
fn git_status_marks_with_prefix() {
    let out = " M src/main.rs\n?? notes.txt\nA  sub/dir/new.rs\n";
    let st = parse_git_status(out, None);
    assert_eq!(st.get("src"), Some('M'));
    assert_eq!(st.get("notes.txt"), Some('?'));
    assert_eq!(st.get("sub"), Some('A'));
    let st2 = parse_git_status(out, Some("sub/"));
    assert_eq!(st2.get("dir"), Some('A'));
}

#[test]
fn tree_subdirs_sorted_and_filtered() {
    let entries = vec![
        ("zeta".to_string(), true),
        ("Alpha".to_string(), true),
        (".hidden".to_string(), true),
        ("file.txt".to_string(), false),
        ("beta".to_string(), true),
    ];
    assert_eq!(tree_subdirs(entries.clone(), false), vec!["Alpha", "beta", "zeta"]);
    assert_eq!(tree_subdirs(entries, true), vec![".hidden", "Alpha", "beta", "zeta"]);
}

#[test]
fn quoted_word_splits_back_into_itself() {
    for w in ["it's a file", "plain", "a$b", "tab\there", "q'\"x", "~home"] {
        let q = f5h::fs_utils::shell_quote(w);
        assert_eq!(f5h::fs_utils::split_command_args(&q), Ok(vec![w.to_string()]));
    }
}

#[test]
fn git_status_cuts_the_path_at_byte_three() {
    // a two-byte letter: byte 3 falls after the second character
    let st = parse_git_status("é name\n  clean\nab\n", None);
    assert_eq!(st.get("name"), Some('é'));
    assert_eq!(st.get("clean"), None);
    assert_eq!(st.get(""), None);
}
