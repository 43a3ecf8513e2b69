use macsweep::usage::shell_history::{
    invokes_folded, parse_all_history, parse_bash_history, parse_fish_history, parse_zsh_history,
    HistoryEntry,
};

#[test]
fn test_parse_zsh_history() {
    let contents = ": 1234567890:0;ls -la\n: 1234567900:0;git status\n: 1234567910:0;brew install wget\n";
    let entries = parse_zsh_history(contents);
    assert_eq!(entries.len(), 3);
    assert_eq!(entries[0].command, "ls -la");
    assert_eq!(entries[1].command, "git status");
    assert_eq!(entries[2].command, "brew install wget");
    assert!(entries[0].timestamp.is_some());
}

#[test]
fn test_invokes_binary() {
    let entry = HistoryEntry { command: "git status".to_string(), timestamp: None };
    assert!(entry.invokes_binary("git"));
    assert!(!entry.invokes_binary("npm"));
    let entry2 = HistoryEntry { command: "sudo npm install".to_string(), timestamp: None };
    assert!(entry2.invokes_binary("npm"));
}

#[test]
fn test_base_command() {
    let entry = HistoryEntry { command: "git status --short".to_string(), timestamp: None };
    assert_eq!(entry.base_command(), Some("git".to_string()));
}

#[test]
fn base_command_of_blank_command() {
    let entry = HistoryEntry { command: "   ".to_string(), timestamp: None };
    assert_eq!(entry.base_command(), None);
}

#[test]
fn zsh_example_two_entries() {
    let entries = parse_zsh_history(": 1000:0;ls -la\n: 1100:0;git status\n");
    assert_eq!(entries.len(), 2);
    assert_eq!(entries[0].command, "ls -la");
    assert_eq!(entries[0].timestamp, Some(1000));
    assert_eq!(entries[1].command, "git status");
    assert_eq!(entries[1].timestamp, Some(1100));
}

#[test]
fn zsh_continuation_lines_join_with_newline() {
    let entries = parse_zsh_history("stray\n: 5:0;echo a \\\nb\n: 6:3;ls\n");
    assert_eq!(entries.len(), 2);
    assert_eq!(entries[0].command, "echo a \\\nb");
    assert_eq!(entries[0].timestamp, Some(5));
    assert_eq!(entries[1].command, "ls");
    assert_eq!(entries[1].timestamp, Some(6));
}

#[test]
fn zsh_out_of_range_epoch_has_no_timestamp() {
    let entries = parse_zsh_history(": 99999999999999999999:0;ls\n: 9000000000000:0;pwd\r\n");
    assert_eq!(entries.len(), 2);
    assert_eq!(entries[0].timestamp, None);
    assert_eq!(entries[1].command, "pwd");
    assert_eq!(entries[1].timestamp, None);
}

#[test]
fn bash_comment_timestamp_applies_to_next_line_only() {
    let entries = parse_bash_history("#1700000000\ngit push\nls\n# not a time\n\n#-5\nnpm i\n");
    assert_eq!(entries.len(), 4);
    assert_eq!(entries[0].command, "git push");
    assert_eq!(entries[0].timestamp, Some(1700000000));
    assert_eq!(entries[1].command, "ls");
    assert_eq!(entries[1].timestamp, None);
    assert_eq!(entries[2].command, "# not a time");
    assert_eq!(entries[2].timestamp, None);
    assert_eq!(entries[3].command, "npm i");
    assert_eq!(entries[3].timestamp, Some(-5));
}

#[test]
fn fish_pairs_and_unpaired_command() {
    let contents = "- cmd: ls -la\n  when: 1234567890\n- cmd: git log\n  when: soon\n- cmd: orphan\n";
    let entries = parse_fish_history(contents);
    assert_eq!(entries.len(), 2);
    assert_eq!(entries[0].command, "ls -la");
    assert_eq!(entries[0].timestamp, Some(1234567890));
    assert_eq!(entries[1].command, "git log");
    assert_eq!(entries[1].timestamp, None);
}

#[test]
fn missing_logs_give_no_entries() {
    assert!(parse_zsh_history("").is_empty());
    assert!(parse_bash_history("").is_empty());
    assert!(parse_fish_history("").is_empty());
}

#[test]
fn merged_history_is_newest_first_untimed_last() {
    let all = parse_all_history(": 10:0;a\n: 30:0;b\n", "c\n#20\nd\n", "- cmd: e\n  when: 30\n");
    let cmds: Vec<&str> = all.iter().map(|e| e.command.as_str()).collect();
    assert_eq!(cmds, vec!["b", "e", "d", "a", "c"]);
}

#[test]
fn invokes_matches_paths_and_case() {
    let e = HistoryEntry { command: "cd /tmp && NPM/bin run".to_string(), timestamp: None };
    assert!(e.invokes_binary("npm"));
    let f = HistoryEntry { command: "gitk".to_string(), timestamp: None };
    assert!(!f.invokes_binary("git"));
    assert!(invokes_folded("sudosudo brew", "brew"));
    assert!(!invokes_folded("sudosudo brewery", "brew"));
    assert!(invokes_folded("x sudosudobrew", "brew"));
    assert!(invokes_folded("sudo", "sudo"));
}

#[test]
fn epoch_range_edges_follow_chrono() {
    let entries = parse_bash_history("#8210266876799\na\n#8210266876800\nb\n#-8334601228800\nc\n#-8334601228801\nd\n");
    assert_eq!(entries[0].timestamp, Some(8210266876799));
    assert_eq!(entries[1].timestamp, None);
    assert_eq!(entries[2].timestamp, Some(-8334601228800));
    assert_eq!(entries[3].timestamp, None);
    assert!(chrono::DateTime::from_timestamp(8210266876799, 0).is_some());
    assert!(chrono::DateTime::from_timestamp(8210266876800, 0).is_none());
}
