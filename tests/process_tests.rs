use ww::process::{
    caller_uid_from_status, cmdline_matches, get_ancestors, is_process_running, parent_of, parent_pid_from_stat,
    same_text, uid_from_status, ProcessRecord,
};

fn rec(pid: u32, ppid: u32, uid: &str, cmdline: &str) -> ProcessRecord {
    ProcessRecord {
        pid,
        stat: Some(format!("{} (cmd) S {} {} 0 0", pid, ppid, pid)),
        status: Some(format!("Name:\tcmd\nUmask:\t0022\nUid:\t{}\t{}\t{}\t{}\nGid:\t100\n", uid, uid, uid, uid)),
        cmdline: Some(cmdline.to_string()),
    }
}

fn tree() -> Vec<ProcessRecord> {
    vec![
        rec(1, 0, "0", "/sbin/init\0"),
        rec(900, 1, "1000", "/usr/bin/firefox\0--new-window\0"),
        rec(500, 1, "1000", "bash\0"),
        rec(600, 500, "1000", "ww\0-f\0firefox\0firefox\0"),
        rec(700, 1, "0", "/usr/bin/konsole\0"),
    ]
}

#[test]
fn reads_parent_from_stat() {
    assert_eq!(parent_pid_from_stat("1234 (bash) S 1000 1234 1234 0"), Some(1000));
    assert_eq!(parent_pid_from_stat("77 (a) b) c) R 42 77"), Some(42));
    assert_eq!(parent_pid_from_stat("1 (init) S 0 1 1"), Some(0));
}

#[test]
fn malformed_stat_has_no_parent() {
    assert_eq!(parent_pid_from_stat("no parenthesis here"), None);
    assert_eq!(parent_pid_from_stat("12 (x)"), None);
    assert_eq!(parent_pid_from_stat("12 (x) S"), None);
    assert_eq!(parent_pid_from_stat("12 (x) S abc"), None);
    assert_eq!(parent_pid_from_stat(""), None);
}

#[test]
fn reads_uid_from_status() {
    let st = "Name:\tbash\nState:\tS\nUid:\t1000\t1000\t1000\t1000\nGid:\t1000\n";
    assert_eq!(uid_from_status(st), Some("1000".to_string()));
    assert_eq!(uid_from_status("Name:\tx\n"), None);
    assert_eq!(uid_from_status("Uid:\n"), None);
    assert_eq!(uid_from_status(""), None);
}

#[test]
fn command_line_separators_read_as_spaces() {
    assert!(cmdline_matches("/usr/bin/firefox\0--new-window\0", "firefox --new"));
    assert!(cmdline_matches("konsole\0", "konsole"));
    assert!(!cmdline_matches("konsole\0", "yakuake"));
    assert!(cmdline_matches("x", ""));
}

#[test]
fn compares_texts() {
    assert!(same_text("1000", "1000"));
    assert!(!same_text("1000", "100"));
    assert!(!same_text("1001", "1000"));
}

#[test]
fn looks_up_parents() {
    let t = tree();
    assert_eq!(parent_of(&t, 600), Some(500));
    assert_eq!(parent_of(&t, 4242), None);
}

#[test]
fn ancestors_walk_to_the_root() {
    let t = tree();
    assert_eq!(get_ancestors(600, &t), vec![600, 500, 1]);
    assert_eq!(get_ancestors(4242, &t), vec![4242]);
    assert_eq!(get_ancestors(0, &t), Vec::<u32>::new());
}

#[test]
fn ancestor_walk_stops_on_a_cycle() {
    let t = vec![rec(2, 3, "0", ""), rec(3, 2, "0", "")];
    assert_eq!(get_ancestors(2, &t), vec![2, 3, 2]);
}

#[test]
fn parent_is_never_reported_as_running() {
    // The shell 500 runs the tool 600; a process whose command line names the
    // target is only found when it is neither of them.
    let t = vec![
        rec(1, 0, "0", "/sbin/init\0"),
        rec(500, 1, "1000", "firefox-launcher\0"),
        rec(600, 500, "1000", "ww\0firefox\0"),
    ];
    assert!(!is_process_running(&t, 600, "firefox", None));
    let mut more = t;
    more.push(rec(900, 1, "1000", "/usr/bin/firefox\0"));
    assert!(is_process_running(&more, 600, "firefox", None));
}

#[test]
fn owner_filter_skips_other_users() {
    let t = tree();
    assert!(is_process_running(&t, 600, "konsole", None));
    assert!(!is_process_running(&t, 600, "konsole", Some("1000")));
    assert!(is_process_running(&t, 600, "konsole", Some("0")));
    assert!(is_process_running(&t, 600, "firefox", Some("1000")));
}

#[test]
fn unreadable_entries_do_not_match() {
    let t = vec![
        ProcessRecord { pid: 10, stat: None, status: None, cmdline: None },
        ProcessRecord { pid: 11, stat: None, status: None, cmdline: Some("firefox".to_string()) },
    ];
    assert!(!is_process_running(&t, 99, "firefox", Some("1000")));
    assert!(is_process_running(&t, 99, "firefox", None));
}

#[test]
fn caller_uid_skips_a_uid_line_without_value() {
    assert_eq!(caller_uid_from_status("Uid:\nUid:\t5\n"), Some("5".to_string()));
    assert_eq!(uid_from_status("Uid:\nUid:\t5\n"), None);
    assert_eq!(caller_uid_from_status("Name:\tx\nUid:\t1000\t1000\n"), Some("1000".to_string()));
    assert_eq!(caller_uid_from_status("Name:\tx\n"), None);
}

#[test]
fn unicode_white_space_separates_fields() {
    assert_eq!(uid_from_status("Uid:\u{A0}1000"), Some("1000".to_string()));
    assert_eq!(caller_uid_from_status("Uid:\u{3000}42\u{2009}42"), Some("42".to_string()));
    assert_eq!(parent_pid_from_stat("9 (x) S\u{85}31 9"), Some(31));
    let t = vec![ProcessRecord {
        pid: 8,
        stat: None,
        status: Some("Uid:\u{A0}1000\n".to_string()),
        cmdline: Some("konsole".to_string()),
    }];
    assert!(is_process_running(&t, 99, "konsole", Some("1000")));
}
