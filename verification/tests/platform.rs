use herdr_core::agents::{Agent, AgentProfile, AgentRegistry, LaunchProfile};
use herdr_core::platform::{
    interactive_shell_command, limited_read_progress, limited_read_request, is_pane_shell_process_name,
    is_powershell_process_name, parse_agent_env_hint, parse_agent_env_hint_with_registry,
    quote_posix_arg, quote_powershell_arg, quote_windows_command_line_arg, read_limited_reader,
    ChildExitReason, LimitedRead, LimitedReadProgress, LIMITED_READ_CHUNK,
};
use herdr_core::platform::{available_pane_shell_from_job, ForegroundJob};

#[test]
fn pane_shell_process_names_reject_exec_replacement_programs() {
    for shell in ["bash", "-zsh", "/bin/fish", "pwsh", "powershell.exe"] {
        assert!(is_pane_shell_process_name(shell), "{shell}");
    }
    for program in ["vim", "nvim", "cargo", "test-runner", "opencode"] {
        assert!(!is_pane_shell_process_name(program), "{program}");
    }
}

#[test]
fn parse_agent_env_hint_ignores_missing_or_unknown_agents() {
    assert_eq!(parse_agent_env_hint(b"PATH=/bin\0TERM=xterm\0"), None);
    assert_eq!(parse_agent_env_hint(b"HERDR_AGENT=not-an-agent\0"), None);
}

fn pane_env_registry() -> AgentRegistry {
    AgentRegistry {
        profiles: vec![AgentProfile {
            id: "pane-env-agent".into(),
            agent: Agent::parse("pane-env-agent").unwrap(),
            aliases: vec!["pane-env-agent".into(), "pane-env-alias".into()],
            launch: LaunchProfile { unix: "pane-env-agent".into(), windows: "pane-env-agent".into() },
            process: None,
            integration: None,
            screen_detectable: false,
        }],
    }
}

#[test]
fn parse_agent_env_hint_uses_the_pinned_registry_and_preserves_label_compatibility() {
    let registry = pane_env_registry();
    let agent = Agent::parse("pane-env-agent").unwrap();
    for label in [
        "pane-env-agent",
        " PANE-ENV-ALIAS ",
        r"C:\bin\PANE-ENV-ALIAS.EXE",
        "/opt/bin/pane-env-alias.js",
    ] {
        let environ = format!("PATH=/bin\0HERDR_AGENT={label}\0");
        assert_eq!(
            parse_agent_env_hint_with_registry(&registry, environ.as_bytes()),
            Some(agent.clone())
        );
    }
    assert_eq!(
        parse_agent_env_hint_with_registry(
            &AgentRegistry { profiles: Vec::new() },
            b"HERDR_AGENT=pane-env-agent\0"
        ),
        None
    );
    assert_eq!(parse_agent_env_hint_with_registry(&registry, b"HERDR_AGENT=\xff\0"), None);
}

#[test]
fn env_hint_reads_only_the_first_agent_entry() {
    assert_eq!(parse_agent_env_hint(b"HERDR_AGENT=codex"), Some(Agent::Codex));
    assert_eq!(parse_agent_env_hint(b"XHERDR_AGENT=codex\0HERDR_AGENT=pi\0"), Some(Agent::Pi));
    assert_eq!(parse_agent_env_hint(b"HERDR_AGENT=nope\0HERDR_AGENT=codex\0"), None);
    assert_eq!(parse_agent_env_hint(b""), None);
}

#[test]
fn interactive_shell_command_quotes_for_posix_and_powershell() {
    let argv = vec![
        "pi".into(),
        String::new(),
        "two words".into(),
        "a'b".into(),
        "$HOME".into(),
        "semi;colon".into(),
        "@options".into(),
    ];
    assert_eq!(
        interactive_shell_command(&argv, "bash").as_deref(),
        Some("pi '' 'two words' 'a'\\''b' '$HOME' 'semi;colon' @options")
    );
    assert_eq!(
        interactive_shell_command(&argv, "pwsh").as_deref(),
        Some("pi '' 'two words' 'a''b' '$HOME' 'semi;colon' '@options'")
    );
}

#[test]
fn shell_quoting_edges() {
    assert_eq!(interactive_shell_command(&Vec::new(), "bash"), None);
    assert_eq!(quote_powershell_arg("-flag"), "'-flag'");
    assert_eq!(quote_powershell_arg("a=b:c/d.e+f_g-h"), "a=b:c/d.e+f_g-h");
    assert_eq!(quote_posix_arg("-flag"), "-flag");
    assert_eq!(quote_posix_arg("é"), "'é'");
    assert!(is_powershell_process_name("/usr/bin/PWSH.exe"));
    assert!(!is_powershell_process_name("bash"));
}

#[test]
fn windows_command_line_quoting_follows_argv_rules() {
    assert_eq!(quote_windows_command_line_arg("plain"), "plain");
    assert_eq!(quote_windows_command_line_arg(r"C:\dir\file"), r"C:\dir\file");
    assert_eq!(quote_windows_command_line_arg(""), "\"\"");
    assert_eq!(quote_windows_command_line_arg("two words"), "\"two words\"");
    assert_eq!(quote_windows_command_line_arg("say \"hi\""), r#""say \"hi\"""#);
    assert_eq!(quote_windows_command_line_arg(r"dir\ with\"), r#""dir\ with\\""#);
    assert_eq!(quote_windows_command_line_arg(r#"a\"b c"#), r#""a\\\"b c""#);
}

#[test]
fn only_interruptions_and_handoffs_checkpoint() {
    assert!(ChildExitReason::Interrupted.requires_session_checkpoint());
    assert!(ChildExitReason::Handoff.requires_session_checkpoint());
    assert!(!ChildExitReason::Exited.requires_session_checkpoint());
    assert!(!ChildExitReason::WaitFailed.requires_session_checkpoint());
}

#[test]
fn read_limited_reader_returns_complete_data_under_limit() {
    let input = std::io::Cursor::new(b"image".to_vec());
    assert_eq!(read_limited_reader(input, 16).expect("limited read"), LimitedRead::Complete(b"image".to_vec()));
}

#[test]
fn read_limited_reader_returns_empty_for_empty_input() {
    let input = std::io::Cursor::new(Vec::<u8>::new());
    assert_eq!(read_limited_reader(input, 16).expect("limited read"), LimitedRead::Empty);
}

#[test]
fn read_limited_reader_accepts_data_exactly_at_limit() {
    let input = std::io::Cursor::new(b"four".to_vec());
    assert_eq!(read_limited_reader(input, 4).expect("limited read"), LimitedRead::Complete(b"four".to_vec()));
}

#[test]
fn read_limited_reader_rejects_data_over_limit() {
    let input = std::io::Cursor::new(b"oversized".to_vec());
    assert_eq!(read_limited_reader(input, 4).expect("limited read"), LimitedRead::Oversized);
}

#[test]
fn read_limited_reader_retries_interrupted_reads() {
    struct InterruptedOnce {
        interrupted: bool,
        inner: std::io::Cursor<Vec<u8>>,
    }

    impl std::io::Read for InterruptedOnce {
        fn read(&mut self, buffer: &mut [u8]) -> std::io::Result<usize> {
            if !self.interrupted {
                self.interrupted = true;
                return Err(std::io::ErrorKind::Interrupted.into());
            }
            self.inner.read(buffer)
        }
    }

    let input = InterruptedOnce { interrupted: false, inner: std::io::Cursor::new(b"image".to_vec()) };
    assert_eq!(read_limited_reader(input, 16).expect("limited read"), LimitedRead::Complete(b"image".to_vec()));
}

#[test]
fn limited_read_classification_and_errors() {
    assert_eq!(limited_read_progress(Vec::new(), &Vec::new(), 0), LimitedReadProgress::Done(LimitedRead::Empty));
    assert_eq!(limited_read_progress(Vec::new(), &vec![9], 0), LimitedReadProgress::Done(LimitedRead::Oversized));
    assert_eq!(limited_read_progress(vec![1, 2], &Vec::new(), 2), LimitedReadProgress::Done(LimitedRead::Complete(vec![1, 2])));
    assert_eq!(limited_read_progress(vec![1, 2], &vec![3], 2), LimitedReadProgress::Done(LimitedRead::Oversized));
    assert_eq!(limited_read_progress(vec![1], &vec![2, 3], 4), LimitedReadProgress::Continue(vec![1, 2, 3]));
    assert_eq!(limited_read_request(0, 4), 4);
    assert_eq!(limited_read_request(4, 4), 1);
    assert_eq!(limited_read_request(0, 100_000), LIMITED_READ_CHUNK);
    assert_eq!(limited_read_request(99_000, 100_000), 1_000);
    struct Broken;
    impl std::io::Read for Broken {
        fn read(&mut self, _buffer: &mut [u8]) -> std::io::Result<usize> {
            Err(std::io::ErrorKind::PermissionDenied.into())
        }
    }
    let error = read_limited_reader(Broken, 4).unwrap_err();
    assert_eq!(error.kind(), std::io::ErrorKind::PermissionDenied);
}

#[test]
fn capabilities_follow_the_platform() {
    let unix = herdr_core::platform::capabilities(true, false);
    assert!(unix.live_handoff && unix.direct_terminal_attach && !unix.preserve_legacy_doubled_escape_input);
    let mac = herdr_core::platform::capabilities(true, true);
    assert!(mac.preserve_legacy_doubled_escape_input);
    let windows = herdr_core::platform::capabilities(false, false);
    assert!(!windows.live_handoff && !windows.direct_terminal_attach);
}

#[test]
fn zero_sized_terminal_grid_is_refused() {
    assert_eq!(herdr_core::platform::usable_grid_size(80, 24), Some((80, 24)));
    assert_eq!(herdr_core::platform::usable_grid_size(0, 24), None);
    assert_eq!(herdr_core::platform::usable_grid_size(80, 0), None);
}

fn job_process(pid: u32, name: &str) -> herdr_core::platform::ForegroundProcess {
    herdr_core::platform::ForegroundProcess { pid, name: name.to_string(), argv0: None, argv: None, cmdline: None }
}

#[test]
fn pane_shell_is_the_child_alone_in_its_job() {
    let alone = ForegroundJob { process_group_id: 7, processes: vec![job_process(7, "/bin/zsh")] };
    assert_eq!(available_pane_shell_from_job(7, alone), Some("/bin/zsh".to_string()));
    let other_group = ForegroundJob { process_group_id: 8, processes: vec![job_process(7, "zsh")] };
    assert_eq!(available_pane_shell_from_job(7, other_group), None);
    let running_command = ForegroundJob { process_group_id: 7, processes: vec![job_process(7, "zsh"), job_process(9, "vim")] };
    assert_eq!(available_pane_shell_from_job(7, running_command), None);
    let replaced = ForegroundJob { process_group_id: 7, processes: vec![job_process(7, "vim")] };
    assert_eq!(available_pane_shell_from_job(7, replaced), None);
    let empty = ForegroundJob { process_group_id: 7, processes: vec![] };
    assert_eq!(available_pane_shell_from_job(7, empty), None);
}

#[test]
fn read_limited_reader_reads_past_a_chunk_and_stops_one_byte_over() {
    let input = std::io::Cursor::new(vec![7_u8; 20_000]);
    assert_eq!(read_limited_reader(input, 20_000).expect("limited read"), LimitedRead::Complete(vec![7_u8; 20_000]));
    let input = std::io::Cursor::new(vec![7_u8; 20_001]);
    assert_eq!(read_limited_reader(input, 20_000).expect("limited read"), LimitedRead::Oversized);
}

#[test]
fn parent_pid_is_read_after_the_command_name() {
    let parse = herdr_core::platform::parse_stat_parent_pid;
    assert_eq!(parse("4242 (bash) S 4100 4242 4242 34816 0"), Some(4100));
    assert_eq!(parse("77 (odd) name) R 12 77"), Some(12));
    assert_eq!(parse("9 (tab\tname)\tS\t  3"), Some(3));
    assert_eq!(parse("9 (x) S\t\t3 1"), Some(3));
    assert_eq!(parse("9 (x) S"), None);
    assert_eq!(parse("9 x S 1"), None);
    assert_eq!(parse("9 (x) S notanumber"), None);
}
