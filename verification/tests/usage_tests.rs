use volcengine_status::launch::{script_outcome, INSTALL_SCRIPT, LOGIN_SCRIPT};
use volcengine_status::ark_usage::{
    decode_error, fetch_status, needs_shell_path_retry, plans_with_periods, run_outcome,
    spawn_failure, usage_plan_args, UsageError, Viewer,
};
use volcengine_status::markers::{
    extract_between_markers, path_from_probe_output, path_probe_script, PATH_MARK,
};

#[test]
fn extracts_path_between_markers_amid_noise() {
    // Interactive shells may echo to stdout during init (fortune, nvm
    // notices, etc.); the marker pair isolates the captured PATH.
    let raw = format!(
        "fortune: hello\n{}{}\ntrailing\n",
        "VPATHMARK7c3f/usr/bin:/bin:/opt/homebrew/binVPATHMARK7c3f", ""
    );
    let p = extract_between_markers(&raw, PATH_MARK, PATH_MARK).unwrap();
    assert_eq!(p, "/usr/bin:/bin:/opt/homebrew/bin");
    // Missing markers -> None.
    assert!(extract_between_markers("no markers here", PATH_MARK, PATH_MARK).is_none());
    // Empty between markers -> Some("").
    let empty = format!("{}{}", PATH_MARK, PATH_MARK);
    assert_eq!(
        extract_between_markers(&empty, PATH_MARK, PATH_MARK),
        Some("")
    );
}

#[test]
fn detects_auth_expired_keywords() {
    let err = UsageError::Failed {
        stderr: "token expired, please run arkcli auth login".into(),
        stdout: String::new(),
    };
    assert!(err.is_auth_expired());
    let ok = UsageError::Failed {
        stderr: "network error".into(),
        stdout: String::new(),
    };
    assert!(!ok.is_auth_expired());
}

#[test]
fn auth_expired_is_case_insensitive_and_reads_stdout() {
    let err = UsageError::Failed { stderr: String::new(), stdout: "HTTP 401 Unauthorized".into() };
    assert!(err.is_auth_expired());
    let err = UsageError::Spawn("Not Authenticated".into());
    assert!(err.is_auth_expired());
    assert!(!UsageError::NotFound.is_auth_expired());
    assert!(!UsageError::Decode("expired".into()).is_auth_expired());
}

#[test]
fn auth_phrase_split_across_streams_counts() {
    // stderr and stdout are joined with one space before the search.
    let err = UsageError::Failed { stderr: "please".into(), stdout: "login".into() };
    assert!(err.is_auth_expired());
}

#[test]
fn messages_for_each_error() {
    assert_eq!(UsageError::Spawn("boom".into()).message(), "无法启动 arkcli: boom");
    assert_eq!(UsageError::NotFound.message(), "未找到 arkcli，请先安装并登录。");
    assert_eq!(
        UsageError::Failed { stderr: "  bad token \n".into(), stdout: "x".into() }.message(),
        "bad token"
    );
    assert_eq!(
        UsageError::Failed { stderr: " \n".into(), stdout: "x".into() }.message(),
        "arkcli 调用失败。"
    );
    assert_eq!(UsageError::Decode("eof".into()).message(), "解析 arkcli 输出失败: eof");
}

#[test]
fn fetch_status_reports_banners() {
    let ok: Result<u8, UsageError> = Ok(1);
    let s = fetch_status(&ok);
    assert!(!s.auth_expired && !s.not_installed && s.error.is_none());

    let missing: Result<u8, UsageError> = Err(UsageError::NotFound);
    let s = fetch_status(&missing);
    assert!(s.not_installed && !s.auth_expired && s.error.is_none());

    let expired: Result<u8, UsageError> = Err(UsageError::Failed {
        stderr: "session expired".into(),
        stdout: String::new(),
    });
    let s = fetch_status(&expired);
    assert!(s.auth_expired && !s.not_installed);
    assert_eq!(s.error.as_deref(), Some("session expired"));

    let decode: Result<u8, UsageError> = Err(UsageError::Decode("bad".into()));
    let s = fetch_status(&decode);
    assert!(!s.auth_expired && !s.not_installed);
    assert_eq!(s.error.as_deref(), Some("解析 arkcli 输出失败: bad"));
}

#[test]
fn spawn_failures_and_run_outcomes() {
    assert!(matches!(spawn_failure(true, "x".into()), UsageError::NotFound));
    assert!(matches!(spawn_failure(false, "denied".into()), UsageError::Spawn(m) if m == "denied"));

    assert_eq!(run_outcome(true, b"{\"a\":1}", b"warn").unwrap(), "{\"a\":1}");
    match run_outcome(false, b"out", b"err") {
        Err(UsageError::Failed { stderr, stdout }) => {
            assert_eq!(stderr, "err");
            assert_eq!(stdout, "out");
        }
        other => panic!("unexpected {:?}", other),
    }
    // Invalid UTF-8 is replaced, not refused.
    assert_eq!(run_outcome(true, &[0x61, 0xff], b"").unwrap(), "a\u{fffd}");
}

#[test]
fn decode_error_quotes_start_of_output() {
    match decode_error("expected value at line 1", "oops") {
        UsageError::Decode(m) => assert_eq!(m, "expected value at line 1 (开头: \"oops\")"),
        other => panic!("unexpected {:?}", other),
    }
    let long: String = "x".repeat(200);
    match decode_error("e", &long) {
        UsageError::Decode(m) => assert_eq!(m, format!("e (开头: \"{}\")", "x".repeat(120))),
        other => panic!("unexpected {:?}", other),
    }
}

#[test]
fn retries_only_when_not_found() {
    let nf: Result<(), UsageError> = Err(UsageError::NotFound);
    assert!(needs_shell_path_retry(&nf));
    let other: Result<(), UsageError> = Err(UsageError::Spawn("x".into()));
    assert!(!needs_shell_path_retry(&other));
    let ok: Result<(), UsageError> = Ok(());
    assert!(!needs_shell_path_retry(&ok));
}

#[test]
fn probe_script_and_output() {
    assert_eq!(
        path_probe_script(),
        "printf 'VPATHMARK7c3f%sVPATHMARK7c3f' \"$PATH\""
    );
    let out = b"Welcome!\nVPATHMARK7c3f/usr/bin:/binVPATHMARK7c3f";
    assert_eq!(path_from_probe_output(out).as_deref(), Some("/usr/bin:/bin"));
    assert_eq!(path_from_probe_output(b"VPATHMARK7c3fVPATHMARK7c3f"), None);
    assert_eq!(path_from_probe_output(b"no marker"), None);
}

#[test]
fn end_marker_is_searched_after_start() {
    // The first end marker after the start marker closes the value.
    assert_eq!(extract_between_markers("a[x]y]", "[", "]"), Some("x"));
    assert_eq!(extract_between_markers("]a[b", "[", "]"), None);
    assert_eq!(extract_between_markers("ab", "", ""), Some(""));
}

#[test]
fn default_viewer_is_empty() {
    let v = Viewer::default();
    assert!(v.user_name.is_empty() && v.account_id.is_empty());
    assert!(v.tenant.is_none() && v.region.is_none());
}

#[test]
fn terminal_script_outcomes() {
    assert_eq!(script_outcome(true, b"ignored"), Ok(()));
    assert_eq!(script_outcome(false, b"  execution error\n"), Err("execution error".to_string()));
    assert_eq!(
        LOGIN_SCRIPT,
        "tell application \"Terminal\" to do script \"arkcli auth login volc-sso\""
    );
    assert_eq!(
        INSTALL_SCRIPT,
        "tell application \"Terminal\" to do script \"npm install -g @volcengine/ark-cli && arkcli auth login volc-sso\""
    );
}

#[test]
fn usage_plan_arguments() {
    assert_eq!(usage_plan_args(), vec!["usage".to_string(), "plan".to_string()]);
}

#[test]
fn drops_plans_without_periods() {
    let items = vec![
        ("agent-plan", vec![1, 2]),
        ("empty", vec![]),
        ("coding-plan", vec![3]),
    ];
    let kept = plans_with_periods(items);
    assert_eq!(kept, vec![("agent-plan", vec![1, 2]), ("coding-plan", vec![3])]);
    let none: Vec<(&str, Vec<u8>)> = vec![("x", vec![])];
    assert!(plans_with_periods(none).is_empty());
}

#[test]
fn trims_unicode_white_space() {
    let e = UsageError::Failed { stderr: "\u{3000}\u{a0} denied\u{2003}\n".into(), stdout: String::new() };
    assert_eq!(e.message(), "denied");
    let e = UsageError::Failed { stderr: "\u{2028}\u{85}".into(), stdout: String::new() };
    assert_eq!(e.message(), "arkcli 调用失败。");
}
