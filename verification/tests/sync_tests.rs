use crabsync::sync::{
    next_pty_action, PtyAction, PtyEvent,
    build_args, build_command_display, classify_prompt, command_line, dry_run_outcome,
    files_from_content, is_auth_error, list_args, list_outcome, mentions_auth_failure,
    password_session_result, sync_outcome, PromptKind, SyncError,
};

fn strings(v: &[&str]) -> Vec<String> {
    v.iter().map(|s| s.to_string()).collect()
}

#[test]
fn test_is_auth_error() {
    assert!(is_auth_error("Permission denied (publickey,password)."));
    assert!(is_auth_error("Authentication failed."));
    assert!(is_auth_error("Host key verification failed."));
    assert!(!is_auth_error("No such file or directory"));
    assert!(!is_auth_error("rsync: write error"));
}

#[test]
fn test_build_args_includes_batch_mode() {
    let args = build_args("/local", "/remote", "/tmp/files", false, true);
    assert!(args.contains(&r#"--rsh=ssh -o BatchMode=yes"#.to_string()));
}

#[test]
fn test_build_args_without_batch_mode() {
    let args = build_args("/local", "/remote", "/tmp/files", false, false);
    assert!(!args.iter().any(|a| a.contains("BatchMode")));
}

#[test]
fn build_args_exact_list() {
    let args = build_args("/src", "host:/dst", "/tmp/list", false, true);
    assert_eq!(
        args,
        strings(&[
            "-avz",
            "--relative",
            "--files-from=/tmp/list",
            "--rsh=ssh -o BatchMode=yes",
            "/src/",
            "host:/dst/"
        ])
    );
}

#[test]
fn build_args_dry_run_flag_only_differs() {
    let dry = build_args("/a", "/b", "/f", true, false);
    let real = build_args("/a", "/b", "/f", false, false);
    assert_eq!(dry[0], "-avzn");
    assert_eq!(real[0], "-avz");
    assert_eq!(dry[1..], real[1..]);
}

#[test]
fn build_args_reverse_direction_swaps_ends() {
    let up = build_args("/local", "user@h:/remote", "/f", false, true);
    let down = build_args("user@h:/remote", "/local", "/f", false, true);
    let n = up.len();
    assert_eq!(up[..n - 2], down[..n - 2]);
    assert_eq!(up[n - 2], down[n - 1]);
    assert_eq!(up[n - 1], down[n - 2]);
    assert_eq!(down[n - 2], "user@h:/remote/");
}

#[test]
fn list_args_with_and_without_batch() {
    assert_eq!(
        list_args("h:/d", true),
        strings(&["-r", "--list-only", "--rsh=ssh -o BatchMode=yes", "h:/d/"])
    );
    assert_eq!(list_args("h:/d", false), strings(&["-r", "--list-only", "h:/d/"]));
}

#[test]
fn command_line_joins_with_spaces() {
    let args = strings(&["-r", "--list-only", "x/"]);
    assert_eq!(command_line(&args), "rsync -r --list-only x/");
}

#[test]
fn command_display_lists_files() {
    let files = strings(&["a.txt", "dir/b.txt"]);
    let text = build_command_display("/l", "/r", &files);
    assert_eq!(
        text,
        "rsync -avz --relative --files-from=<file-list> --rsh=ssh -o BatchMode=yes /l/ /r/\n\nFile list:\n  a.txt\n  dir/b.txt"
    );
}

#[test]
fn command_display_without_files() {
    let text = build_command_display("/l", "/r", &Vec::new());
    assert_eq!(
        text,
        "rsync -avz --relative --files-from=<file-list> --rsh=ssh -o BatchMode=yes /l/ /r/"
    );
}

#[test]
fn files_from_content_one_path_per_line() {
    let files = strings(&["a.txt", "b/c.txt"]);
    assert_eq!(files_from_content(&files), "a.txt\nb/c.txt\n");
    assert_eq!(files_from_content(&Vec::new()), "");
}

#[test]
fn dry_run_outcome_prefers_stdout() {
    match dry_run_outcome(true, "out".to_string(), "err".to_string()) {
        Ok(s) => assert_eq!(s, "out"),
        Err(_) => panic!("expected output"),
    }
    match dry_run_outcome(true, String::new(), "err".to_string()) {
        Ok(s) => assert_eq!(s, "err"),
        Err(_) => panic!("expected output"),
    }
}

#[test]
fn dry_run_outcome_errors() {
    match dry_run_outcome(false, String::new(), "PERMISSION DENIED".to_string()) {
        Err(SyncError::AuthRequired) => {}
        _ => panic!("expected an authentication error"),
    }
    match dry_run_outcome(false, String::new(), "rsync: change_dir failed".to_string()) {
        Err(SyncError::Other(m)) => assert_eq!(m, "rsync dry-run failed:\nrsync: change_dir failed"),
        _ => panic!("expected another error"),
    }
}

#[test]
fn list_outcome_error_message() {
    match list_outcome(false, String::new(), "no such dir".to_string()) {
        Err(SyncError::Other(m)) => assert_eq!(m, "rsync --list-only failed:\nno such dir"),
        _ => panic!("expected an error"),
    }
}

#[test]
fn sync_outcome_combines_output() {
    let r = sync_outcome(true, "sent".to_string(), "warn".to_string()).unwrap();
    assert!(r.success);
    assert_eq!(r.output, "sent\nwarn");
    let r = sync_outcome(false, String::new(), "No such file".to_string()).unwrap();
    assert!(!r.success);
    assert_eq!(r.output, "No such file");
    assert!(matches!(
        sync_outcome(false, String::new(), "Auth failed".to_string()),
        Err(SyncError::AuthRequired)
    ));
}

#[test]
fn password_session_result_checks_rejection() {
    let ok = password_session_result("sending incremental file list\nfile1.txt".to_string());
    assert!(ok.success);
    let bad = password_session_result("Permission Denied, please try again.".to_string());
    assert!(!bad.success);
    assert_eq!(bad.output, "Permission Denied, please try again.");
}

#[test]
fn classify_prompt_kinds() {
    assert_eq!(classify_prompt("user@host's PASSWORD:"), PromptKind::Password);
    assert_eq!(
        classify_prompt("Are you sure you want to continue connecting"),
        PromptKind::HostKey
    );
    assert_eq!(classify_prompt("ED25519 key fingerprint is"), PromptKind::HostKey);
}

#[test]
fn auth_markers_on_lowercase_text() {
    assert!(mentions_auth_failure("auth fail"));
    assert!(!mentions_auth_failure("Permission denied"));
    assert!(mentions_auth_failure("permission denied"));
}

#[test]
fn sync_error_messages() {
    assert_eq!(
        SyncError::AuthRequired.message(),
        "authentication required: SSH key not configured"
    );
    assert_eq!(SyncError::Other("boom".to_string()).message(), "boom");
}

#[test]
fn pty_actions() {
    assert!(matches!(next_pty_action(PtyEvent::Prompt("Password:".into()), false), PtyAction::AskPassword));
    assert!(matches!(next_pty_action(PtyEvent::Prompt("Are you sure".into()), true), PtyAction::ConfirmHost));
    assert!(matches!(next_pty_action(PtyEvent::Eof, true), PtyAction::Finish));
    assert!(matches!(next_pty_action(PtyEvent::Timeout, false), PtyAction::Finish));
    assert!(matches!(next_pty_action(PtyEvent::Timeout, true), PtyAction::ReadMore));
    match next_pty_action(PtyEvent::Failed("io".into()), false) {
        PtyAction::Fail(m) => assert_eq!(m, "unexpected rsync output: io"),
        other => panic!("unexpected {:?}", other),
    }
    match next_pty_action(PtyEvent::Failed("io".into()), true) {
        PtyAction::Fail(m) => assert_eq!(m, "error waiting for rsync to finish: io"),
        other => panic!("unexpected {:?}", other),
    }
}
