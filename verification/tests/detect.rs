use herdr_core::agents::{
    Agent, AgentProfile, AgentRegistry, BundledNodeLayout, LaunchProfile, PackageLayout, ProcessProfile,
};
use herdr_core::builtin_agents::registry;
use herdr_core::detect::{
    agent_label, full_lifecycle_hook_authority, identify_agent, identify_agent_in_job,
    identify_agent_in_job_with_registry, identify_agent_with_registry, interactive_agent_executable,
    parse_agent_label, parse_canonical_agent_label, session_identity_only_integration, ProcessRecognizer,
};
use herdr_core::detect::{detect_agent_with_osc, detect_state, AgentDetection, AgentState};
use herdr_core::platform::{ForegroundJob, ForegroundProcess};

fn foreground_process(pid: u32, name: &str, argv: &[&str]) -> ForegroundProcess {
    ForegroundProcess {
        pid,
        name: name.to_string(),
        argv0: None,
        argv: Some(argv.iter().map(|arg| (*arg).to_string()).collect()),
        cmdline: Some(argv.join(" ")),
    }
}

fn no_resolution() -> Vec<(String, String)> {
    Vec::new()
}

fn job_agent(job: &ForegroundJob) -> Option<(Agent, String)> {
    identify_agent_in_job(&registry(), job, &no_resolution())
}

fn ident(name: &str) -> Option<Agent> {
    identify_agent(&registry(), name)
}

fn parse(label: &str) -> Option<Agent> {
    parse_agent_label(&registry(), label)
}

fn strings(items: &[&str]) -> Vec<String> {
    items.iter().map(|s| s.to_string()).collect()
}

fn novel_process_registry() -> AgentRegistry {
    AgentRegistry {
        profiles: vec![AgentProfile {
            id: "opencode-lab".into(),
            agent: Agent::parse("opencode-lab").unwrap(),
            aliases: strings(&["opencode-lab", "lab-alias"]),
            launch: LaunchProfile { unix: "opencode".into(), windows: "opencode.exe".into() },
            process: Some(ProcessProfile {
                names: strings(&["opencode"]),
                versioned_prefixes: Vec::new(),
                secondary_runtime_argv_fallback: true,
                package_layouts: vec![
                    PackageLayout {
                        exact_suffix: true,
                        components: strings(&["node_modules", "opencode-lab", "dist", "cli.js"]),
                    },
                    PackageLayout {
                        exact_suffix: false,
                        components: strings(&["node_modules", "opencode-lab", "dist", "main"]),
                    },
                ],
                bundled_node: Some(BundledNodeLayout {
                    runtime_basename: "node.exe".into(),
                    entrypoint_basename: "index.js".into(),
                    package_directory: "opencode-lab".into(),
                    versions_directory: "versions".into(),
                }),
            }),
            integration: None,
            screen_detectable: false,
        }],
    }
}

#[test]
fn pinned_process_recognition_uses_novel_process_names_not_identity_aliases() {
    let registry = novel_process_registry();
    let agent = Agent::parse("opencode-lab").unwrap();
    for name in ["opencode", "/usr/bin/OpenCode", r"C:\bin\opencode.exe"] {
        assert_eq!(identify_agent_with_registry(&registry, name), Some(agent.clone()));
    }
    for name in ["opencode-lab", "lab-alias", "codex", "opencode-helper"] {
        assert_eq!(identify_agent_with_registry(&registry, name), None);
        let job = ForegroundJob { process_group_id: 123, processes: vec![foreground_process(123, name, &[name])] };
        assert_eq!(identify_agent_in_job_with_registry(&registry, &job, &no_resolution()), None);
    }
    let empty = AgentRegistry { profiles: Vec::new() };
    assert_eq!(identify_agent_with_registry(&empty, "opencode"), None);
    assert_eq!(identify_agent_with_registry(&registry, "opencode"), Some(agent));
    assert!(!registry.has_full_lifecycle_report_authority("herdr:opencode-lab", "opencode-lab"));
    assert!(!registry.is_session_identity_only_integration("herdr:opencode-lab", "opencode-lab"));
    assert!(registry.profile_by_id("opencode-lab").unwrap().integration.is_none());
}

#[test]
fn pinned_job_recognition_preserves_novel_identity_through_runtime_and_paths() {
    let registry = novel_process_registry();
    let resolved = no_resolution();
    let recognizer = ProcessRecognizer { registry: &registry, resolved: &resolved };
    let agent = Agent::parse("opencode-lab").unwrap();
    assert_eq!(recognizer.agent_name_from_basename("opencode.exe"), Some("opencode-lab".into()));
    for path in ["/opt/node_modules/opencode-lab/dist/cli.js", r"C:\opt\node_modules\opencode-lab\dist\main.js"] {
        assert_eq!(recognizer.agent_name_from_known_package_path(path), Some("opencode-lab".into()));
    }
    for (name, argv) in [
        ("opencode", vec!["opencode"]),
        ("node", vec!["node", "/bin/opencode"]),
        ("bun", vec!["bun", "/bin/opencode"]),
        ("python3", vec!["python3", "/bin/opencode"]),
        ("bash", vec!["bash", "/bin/opencode"]),
        ("cmd.exe", vec!["cmd.exe", "/c", "opencode"]),
        ("pwsh", vec!["pwsh", "-file", "opencode.ps1"]),
        ("MainThread", vec!["node", "/bin/opencode"]),
        ("node", vec!["node", "/opt/node_modules/opencode-lab/dist/cli.js"]),
        ("node", vec!["node", "/opt/node_modules/opencode-lab/dist/main.js"]),
        ("node.exe", vec!["/opt/opencode-lab/versions/1/node.exe", "/opt/opencode-lab/versions/1/index.js"]),
    ] {
        for pid in [123, 124] {
            let job = ForegroundJob { process_group_id: 123, processes: vec![foreground_process(pid, name, &argv)] };
            let expected_name = if name == "opencode" { "opencode" } else { "opencode-lab" };
            assert_eq!(
                identify_agent_in_job_with_registry(&registry, &job, &resolved),
                Some((agent.clone(), expected_name.to_string())),
                "{name} {argv:?} pid={pid}",
            );
        }
    }
}

#[test]
fn identify_known_agents() {
    assert_eq!(ident("pi"), Some(Agent::Pi));
    assert_eq!(ident("codex"), Some(Agent::Codex));
    assert_eq!(ident("gemini"), Some(Agent::Gemini));
    assert_eq!(ident("cursor"), Some(Agent::Cursor));
    assert_eq!(ident("cursor-agent"), Some(Agent::Cursor));
    assert_eq!(ident("devin"), Some(Agent::Devin));
    assert_eq!(ident("devin-cli"), Some(Agent::Devin));
    assert_eq!(ident("agy"), Some(Agent::Antigravity));
    assert_eq!(ident("antigravity-cli"), Some(Agent::Antigravity));
    assert_eq!(ident("cline"), Some(Agent::Cline));
    assert_eq!(ident("omp"), Some(Agent::Omp));
    assert_eq!(ident("mastracode"), Some(Agent::Mastracode));
    assert_eq!(ident("mastra-code"), Some(Agent::Mastracode));
    assert_eq!(ident("opencode"), Some(Agent::OpenCode));
    assert_eq!(ident("opencode.exe"), Some(Agent::OpenCode));
    assert_eq!(ident("opencode2"), Some(Agent::OpenCode));
    assert_eq!(ident("opencode2.exe"), Some(Agent::OpenCode));
    assert_eq!(ident("kimi"), Some(Agent::Kimi));
    assert_eq!(ident("Kimi Code"), Some(Agent::Kimi));
    assert_eq!(ident("kiro"), Some(Agent::Kiro));
    assert_eq!(ident("kiro-cli"), Some(Agent::Kiro));
    assert_eq!(ident("copilot"), Some(Agent::GithubCopilot));
    assert_eq!(ident("ghcs"), Some(Agent::GithubCopilot));
    assert_eq!(ident("grok"), Some(Agent::Grok));
    assert_eq!(ident("grok-build"), Some(Agent::Grok));
    assert_eq!(ident("hermes"), Some(Agent::Hermes));
    assert_eq!(ident("hermes-agent"), Some(Agent::Hermes));
    assert_eq!(ident("kilo"), Some(Agent::Kilo));
    assert_eq!(ident("kilo-code"), Some(Agent::Kilo));
    assert_eq!(ident("qwen"), Some(Agent::Qwen));
    assert_eq!(ident("Qwen Code"), Some(Agent::Qwen));
    assert_eq!(ident("maki"), Some(Agent::Maki));
    assert_eq!(ident("muse"), Some(Agent::Muse));
    assert_eq!(ident("muse-code"), Some(Agent::Muse));
    assert_eq!(ident("muse-cli"), Some(Agent::Muse));
    assert_eq!(ident("muse-bin-0.1.0-R708.1"), Some(Agent::Muse));
    assert_eq!(ident("muse-bin-1.2.3"), Some(Agent::Muse));
    assert_eq!(ident("/home/user/.local/bin/muse-bin-0.2.1-R1215.1"), Some(Agent::Muse));
    assert_eq!(ident(r"C:\Users\user\muse-bin-0.2.1-R1215.1.exe"), Some(Agent::Muse));
}

#[test]
fn parse_known_agent_labels() {
    assert_eq!(parse("pi"), Some(Agent::Pi));
    assert_eq!(parse("cursor-agent"), Some(Agent::Cursor));
    assert_eq!(parse("devin-cli"), Some(Agent::Devin));
    assert_eq!(parse("agy"), Some(Agent::Antigravity));
    assert_eq!(parse("antigravity"), Some(Agent::Antigravity));
    assert_eq!(parse("omp"), Some(Agent::Omp));
    assert_eq!(parse("mastracode"), Some(Agent::Mastracode));
    assert_eq!(parse("mastra code"), Some(Agent::Mastracode));
    assert_eq!(parse("opencode.exe"), Some(Agent::OpenCode));
    assert_eq!(parse("copilot"), Some(Agent::GithubCopilot));
    assert_eq!(parse("kimi-code"), Some(Agent::Kimi));
    assert_eq!(parse("github-copilot"), Some(Agent::GithubCopilot));
    assert_eq!(parse("amp-local"), Some(Agent::Amp));
    assert_eq!(parse("kiro-cli"), Some(Agent::Kiro));
    assert_eq!(parse("grok-build"), Some(Agent::Grok));
    assert_eq!(parse("hermes-agent"), Some(Agent::Hermes));
    assert_eq!(parse("qwen-code"), Some(Agent::Qwen));
    assert_eq!(parse("maki"), Some(Agent::Maki));
    assert_eq!(parse("kilo-code"), Some(Agent::Kilo));
}

#[test]
fn every_agent_label_round_trips_through_canonical_and_alias_parsers() {
    let registry = registry();
    for agent in Agent::all() {
        let label = agent_label(&agent);
        assert_eq!(parse_canonical_agent_label(&registry, label), Some(agent.clone()));
        assert_eq!(parse_agent_label(&registry, label), Some(agent.clone()));
    }
}

#[test]
fn every_agent_has_a_canonical_interactive_executable() {
    let expected = [
        (Agent::Pi, "pi"),
        (Agent::Codex, "codex"),
        (Agent::Gemini, "gemini"),
        (Agent::Cursor, "cursor-agent"),
        (Agent::Devin, "devin"),
        (Agent::Antigravity, "agy"),
        (Agent::Cline, "cline"),
        (Agent::Omp, "omp"),
        (Agent::Mastracode, "mastracode"),
        (Agent::OpenCode, "opencode"),
        (Agent::GithubCopilot, "copilot"),
        (Agent::Kimi, "kimi"),
        (Agent::Kiro, "kiro-cli"),
        (Agent::Droid, "droid"),
        (Agent::Amp, "amp"),
        (Agent::Grok, "grok"),
        (Agent::Hermes, "hermes"),
        (Agent::Kilo, "kilo"),
        (Agent::Qodercli, "qodercli"),
        (Agent::Qwen, "qwen"),
        (Agent::Maki, "maki"),
        (Agent::Muse, "muse"),
    ];
    assert_eq!(expected.len(), Agent::all().len());
    let registry = registry();
    for (agent, executable) in expected {
        assert_eq!(interactive_agent_executable(&registry, agent, false), executable);
    }
}

#[test]
fn canonical_agent_labels_are_strict() {
    let registry = registry();
    assert_eq!(parse_canonical_agent_label(&registry, "Pi"), None);
    assert_eq!(parse_canonical_agent_label(&registry, " pi "), None);
    assert_eq!(parse_canonical_agent_label(&registry, "opencode.exe"), None);
}

#[test]
fn mastracode_is_hook_authority_without_screen_manifest() {
    let registry = registry();
    assert!(full_lifecycle_hook_authority(&registry, "herdr:mastracode", "mastracode"));
    assert!(!registry.screen_detects(&Agent::Mastracode));
}

#[test]
fn session_identity_integrations_leave_state_to_screen_detection() {
    let registry = registry();
    for (source, label, agent) in [
        ("herdr:hermes", "hermes", Agent::Hermes),
        ("herdr:qwen", "qwen", Agent::Qwen),
        ("herdr:antigravity_cli", "agy", Agent::Antigravity),
    ] {
        assert!(!full_lifecycle_hook_authority(&registry, source, label));
        assert!(session_identity_only_integration(&registry, source, label));
        assert!(registry.screen_detects(&agent));
    }
}

#[test]
fn identify_unknown_processes() {
    assert_eq!(ident("bash"), None);
    assert_eq!(ident("zsh"), None);
    assert_eq!(ident("vim"), None);
    assert_eq!(ident("node"), None);
    assert_eq!(ident("museum"), None);
    assert_eq!(ident("muse-helper"), None);
    assert_eq!(ident("muser"), None);
    assert_eq!(ident("musescore"), None);
    assert_eq!(ident("muse-bin"), None);
    assert_eq!(ident("muse-bin-"), None);
    assert_eq!(ident("muse-binary"), None);
}

#[test]
fn identify_case_insensitive() {
    assert_eq!(ident("Pi"), Some(Agent::Pi));
    assert_eq!(ident("Codex"), Some(Agent::Codex));
    assert_eq!(ident("Devin"), Some(Agent::Devin));
}

#[test]
fn identify_agent_in_job_preserves_absolute_argv0_recognition() {
    for (path, expected) in [
        ("/home/user/.local/bin/muse-bin-1.2.3", Agent::Muse),
        (r"C:\Users\user\bin\muse-bin-1.2.3.exe", Agent::Muse),
    ] {
        for pid in [123, 124] {
            let mut process = foreground_process(pid, "worker", &[path]);
            process.argv0 = Some(path.to_string());
            let job = ForegroundJob { process_group_id: 123, processes: vec![process] };
            assert_eq!(job_agent(&job), Some((expected.clone(), path.to_string())), "{path} pid={pid}");
        }
    }
}

#[test]
fn identify_agent_in_job_prefers_wrapped_codex() {
    let job = ForegroundJob {
        process_group_id: 123,
        processes: vec![
            foreground_process(1, "node", &["node", "/path/to/bin/codex"]),
            foreground_process(2, "bash", &["bash"]),
        ],
    };
    assert_eq!(job_agent(&job), Some((Agent::Codex, "codex".to_string())));
}

#[test]
fn identify_agent_in_job_detects_node_wrapped_qwen() {
    for argv in [
        vec!["node", "/home/user/.fnm/bin/qwen"],
        vec!["node.exe", r"C:\Users\user\AppData\Roaming\npm\node_modules\@qwen-code\qwen-code\dist\index.js"],
    ] {
        let job = ForegroundJob { process_group_id: 123, processes: vec![foreground_process(123, "MainThread", &argv)] };
        assert_eq!(job_agent(&job), Some((Agent::Qwen, "qwen".to_string())));
    }
}

#[test]
fn identify_agent_in_job_detects_cline_native_binaries() {
    for (name, executable) in [
        (".cline", "/home/user/.npm/lib/node_modules/cline/bin/.cline"),
        ("cline", "/usr/local/lib/node_modules/@cline/cli-darwin-arm64/bin/cline"),
        ("cline.exe", r"C:\Users\user\AppData\Roaming\npm\node_modules\@cline\cli-windows-x64\bin\cline.exe"),
    ] {
        let job = ForegroundJob { process_group_id: 123, processes: vec![foreground_process(123, name, &[executable, "--tui"])] };
        assert_eq!(job_agent(&job), Some((Agent::Cline, name.to_string())));
    }
}

#[test]
fn identify_agent_in_job_detects_cline_node_wrapper() {
    for (name, argv) in [
        ("MainThread", vec!["node", "/home/user/.fnm/bin/cline", "--tui"]),
        ("node", vec!["node", "/usr/local/lib/node_modules/cline/bin/cline"]),
        ("node.exe", vec![r"C:\Program Files\nodejs\node.exe", r"C:\Users\user\AppData\Roaming\npm\node_modules\cline\bin\cline"]),
    ] {
        let job = ForegroundJob { process_group_id: 123, processes: vec![foreground_process(123, name, &argv)] };
        assert_eq!(job_agent(&job), Some((Agent::Cline, "cline".to_string())));
    }
}

#[test]
fn identify_agent_in_job_rejects_unrelated_cline_mentions() {
    for argv in [
        vec!["node"],
        vec!["node", "/path/to/other.js", "cline"],
        vec!["node", "-e", "cline"],
        vec!["node", "/path/to/cline-helper"],
        vec!["/path/to/.cline-helper"],
        vec!["/path/to/other", "/path/to/cline"],
    ] {
        let job = ForegroundJob { process_group_id: 123, processes: vec![foreground_process(123, "MainThread", &argv)] };
        assert_eq!(job_agent(&job), None);
    }
    assert_eq!(ident("MainThread"), None);
}

#[test]
fn identify_agent_in_job_detects_windows_cursor_install() {
    let job = ForegroundJob {
        process_group_id: 123,
        processes: vec![foreground_process(
            123,
            "node.exe",
            &[
                r"C:\Users\user\AppData\Local\cursor-agent\versions\2026.08.11-e8db854\node.exe",
                r"C:\Users\user\AppData\Local\cursor-agent\versions\2026.08.11-e8db854\index.js",
            ],
        )],
    };
    assert_eq!(job_agent(&job), Some((Agent::Cursor, "cursor".to_string())));
}

#[test]
fn identify_agent_in_job_ignores_invalid_windows_cursor_install_paths() {
    for script in [
        r"C:\Users\user\AppData\Local\cursor-agent\versions\2026.08.11-e8db854\scripts\postinstall.js",
        r"C:\Users\user\AppData\Local\cursor-agent\versions\2026.08.11-e8db854\index",
        r"C:\Users\user\AppData\Local\cursor-agent\versions\2026.08.11-e8db854\index.exe",
    ] {
        let job = ForegroundJob {
            process_group_id: 123,
            processes: vec![foreground_process(
                123,
                "node.exe",
                &[r"C:\Users\user\AppData\Local\cursor-agent\versions\2026.08.11-e8db854\node.exe", script],
            )],
        };
        assert_eq!(job_agent(&job), None, "script: {script}");
    }
    let lookalike = ForegroundJob {
        process_group_id: 123,
        processes: vec![foreground_process(
            123,
            "node.exe",
            &[r"C:\Program Files\nodejs\node.exe", r"C:\workspace\cursor-agent\versions\test\index.js"],
        )],
    };
    assert_eq!(job_agent(&lookalike), None);
}

#[test]
fn identify_agent_in_job_falls_back_when_process_group_leader_is_unrecognized() {
    let job = ForegroundJob {
        process_group_id: 42,
        processes: vec![
            foreground_process(42, "bash", &["bash"]),
            foreground_process(43, "node", &["node", "/tmp/mcp/bin/codex"]),
        ],
    };
    assert_eq!(job_agent(&job), Some((Agent::Codex, "codex".to_string())));
}

#[test]
fn identify_agent_in_job_detects_python_version_wrapped_hermes() {
    let job = ForegroundJob {
        process_group_id: 123,
        processes: vec![foreground_process(
            123,
            "python3.12",
            &["/nix/store/example/bin/python3.12", "/nix/store/example/bin/hermes", "--resume", "session-id"],
        )],
    };
    assert_eq!(job_agent(&job), Some((Agent::Hermes, "hermes".to_string())));
}

#[test]
fn identify_agent_in_job_detects_nix_wrapped_codex_from_cmdline_argv0() {
    let job = ForegroundJob {
        process_group_id: 123,
        processes: vec![foreground_process(1, ".codex-wrapped", &["/etc/profiles/per-user/user/bin/codex", "--model", "gpt-5"])],
    };
    assert_eq!(job_agent(&job), Some((Agent::Codex, "codex".to_string())));
}

#[test]
fn identify_agent_in_job_detects_shell_wrapped_pi() {
    let job = ForegroundJob {
        process_group_id: 123,
        processes: vec![foreground_process(1, "sh", &["/bin/sh", "/tmp/test-bin/pi"])],
    };
    assert_eq!(job_agent(&job), Some((Agent::Pi, "pi".to_string())));
}

#[test]
fn identify_agent_in_job_detects_bun_wrapped_omp() {
    let job = ForegroundJob {
        process_group_id: 123,
        processes: vec![foreground_process(123, "bun", &["bun", "/home/can/.bun/bin/omp"])],
    };
    assert_eq!(job_agent(&job), Some((Agent::Omp, "omp".to_string())));
}

#[test]
fn identify_agent_in_job_detects_node_wrapped_pi_package_cli() {
    let job = ForegroundJob {
        process_group_id: 123,
        processes: vec![foreground_process(
            123,
            "node.exe",
            &["node.exe", "C:\\Users\\herdr\\AppData\\Roaming\\npm\\node_modules\\@earendil-works\\pi-coding-agent\\dist\\cli.js"],
        )],
    };
    assert_eq!(job_agent(&job), Some((Agent::Pi, "pi".to_string())));
}

#[test]
fn identify_agent_in_job_detects_node_wrapped_pi_bundled_cli() {
    let job = ForegroundJob {
        process_group_id: 123,
        processes: vec![foreground_process(
            123,
            "node.exe",
            &[
                r"C:\Users\herdr\AppData\Local\pi-node\current\node.exe",
                r"C:\Users\herdr\AppData\Local\pi-node\current/node_modules/@earendil-works/pi-coding-agent/dist/bundle/cli.js",
            ],
        )],
    };
    assert_eq!(job_agent(&job), Some((Agent::Pi, "pi".to_string())));
}

#[test]
fn identify_agent_in_job_detects_node_wrapped_mastracode_package_cli() {
    let job = ForegroundJob {
        process_group_id: 123,
        processes: vec![foreground_process(
            123,
            "node.exe",
            &["node.exe", "C:\\Users\\herdr\\AppData\\Roaming\\npm\\node_modules\\mastracode\\dist\\cli.js"],
        )],
    };
    assert_eq!(job_agent(&job), Some((Agent::Mastracode, "mastracode".to_string())));
}

#[test]
fn identify_agent_in_job_ignores_non_cli_pi_package_scripts() {
    for script in [
        r"C:\Users\herdr\AppData\Roaming\npm\node_modules\@earendil-works\pi-coding-agent\scripts\build.js",
        r"C:\Users\herdr\AppData\Local\pi-node\current\node_modules\@earendil-works\pi-coding-agent\dist\bundle\update.js",
        r"C:\workspace\dist\bundle\cli.js",
        r"C:\workspace\node_modules\other-package\dist\bundle\cli.js",
        r"C:\workspace\node_modules\@earendil-works\pi-coding-agent\dist\cli.exe",
        r"C:\workspace\node_modules\@earendil-works\pi-coding-agent\dist\cli.js\other.js",
        r"C:\workspace\node_modules\@earendil-works\pi-coding-agent\dist\bundle\cli.exe",
        r"C:\workspace\node_modules\@earendil-works\pi-coding-agent\dist\bundle\cli.js\other.js",
    ] {
        let job = ForegroundJob { process_group_id: 123, processes: vec![foreground_process(123, "node.exe", &["node.exe", script])] };
        assert_eq!(job_agent(&job), None, "script: {script}");
    }
}

#[test]
fn identify_agent_in_job_detects_windows_cmd_wrapped_codex() {
    let job = ForegroundJob {
        process_group_id: 123,
        processes: vec![foreground_process(
            1,
            "cmd.exe",
            &["cmd.exe", "/D", "/S", "/C", "C:\\Users\\herdr\\AppData\\Roaming\\npm\\codex.cmd --model gpt-5"],
        )],
    };
    assert_eq!(job_agent(&job), Some((Agent::Codex, "codex".to_string())));
}

#[test]
fn identify_agent_in_job_detects_opencode2_as_opencode() {
    let job = ForegroundJob {
        process_group_id: 123,
        processes: vec![foreground_process(123, "opencode2", &["opencode2", "--standalone"])],
    };
    assert_eq!(job_agent(&job), Some((Agent::OpenCode, "opencode2".to_string())));
}

#[test]
fn identify_agent_in_job_detects_opencode_exe_from_pnpm_package() {
    let job = ForegroundJob {
        process_group_id: 123,
        processes: vec![foreground_process(
            123,
            "opencode.exe",
            &["/home/user/.local/share/pnpm/global/node_modules/opencode-ai/bin/opencode.exe"],
        )],
    };
    assert_eq!(job_agent(&job), Some((Agent::OpenCode, "opencode.exe".to_string())));
}

#[test]
fn identify_agent_in_job_detects_opencode_exe_from_argv0_path() {
    let job = ForegroundJob {
        process_group_id: 123,
        processes: vec![foreground_process(
            123,
            "MainThread",
            &["/home/user/.local/share/pnpm/global/node_modules/opencode-ai/bin/opencode.exe"],
        )],
    };
    assert_eq!(job_agent(&job), Some((Agent::OpenCode, "opencode".to_string())));
}

#[test]
fn wrapped_agent_name_from_runtime_argv_ignores_plain_shell_flags() {
    let registry = registry();
    let resolved = no_resolution();
    let recognizer = ProcessRecognizer { registry: &registry, resolved: &resolved };
    let argv = vec!["bash".to_string(), "-lc".to_string()];
    assert_eq!(recognizer.wrapped_agent_name_from_runtime_argv("bash", Some(&argv)), None);
}

#[test]
fn identify_agent_in_job_ignores_python_c_argument_named_codex() {
    let job = ForegroundJob {
        process_group_id: 123,
        processes: vec![foreground_process(1, "python3", &["python3", "-c", "import time; time.sleep(60)", "/tmp/codex"])],
    };
    assert_eq!(job_agent(&job), None);
}

#[test]
fn identify_agent_in_job_ignores_node_eval_argument_named_codex() {
    let job = ForegroundJob {
        process_group_id: 123,
        processes: vec![foreground_process(1, "node", &["node", "-e", "setTimeout(() => {}, 60000)", "/tmp/codex"])],
    };
    assert_eq!(job_agent(&job), None);
}

#[test]
fn identify_agent_in_job_ignores_shell_c_argument_named_codex() {
    let job = ForegroundJob {
        process_group_id: 123,
        processes: vec![foreground_process(1, "bash", &["bash", "-c", "sleep 60", "/tmp/codex"])],
    };
    assert_eq!(job_agent(&job), None);
}

#[test]
fn identify_agent_in_job_detects_python_script_named_codex() {
    let job = ForegroundJob {
        process_group_id: 123,
        processes: vec![foreground_process(1, "python3", &["python3", "/tmp/codex", "--model", "gpt-5"])],
    };
    assert_eq!(job_agent(&job), Some((Agent::Codex, "codex".to_string())));
}

#[test]
fn cmdline_argv0_agent_name_canonicalizes_known_aliases() {
    let registry = registry();
    let resolved = no_resolution();
    let recognizer = ProcessRecognizer { registry: &registry, resolved: &resolved };
    assert_eq!(recognizer.cmdline_argv0_agent_name("/nix/store/example/bin/ghcs"), Some("copilot".to_string()));
}

#[test]
fn cmdline_argv0_agent_name_requires_exact_agent_basename() {
    let registry = registry();
    let resolved = no_resolution();
    let recognizer = ProcessRecognizer { registry: &registry, resolved: &resolved };
    assert_eq!(recognizer.cmdline_argv0_agent_name("/tmp/my-codex-helper"), None);
}

#[test]
fn resolved_symlink_basename_identifies_the_agent() {
    let resolved = vec![("/tmp/links/agent".to_string(), "cursor-agent".to_string())];
    let job = ForegroundJob {
        process_group_id: 42,
        processes: vec![foreground_process(42, "MainThread", &["/tmp/links/agent", "--use-system-ca", "/tmp/index.js"])],
    };
    assert_eq!(identify_agent_in_job(&registry(), &job, &resolved), Some((Agent::Cursor, "cursor".to_string())));
}

#[test]
fn recognized_group_leader_is_preferred_over_other_processes() {
    let job = ForegroundJob {
        process_group_id: 42,
        processes: vec![
            foreground_process(42, "gemini", &["gemini"]),
            foreground_process(43, "node", &["node", "/tmp/mcp/bin/codex"]),
        ],
    };
    assert_eq!(job_agent(&job), Some((Agent::Gemini, "gemini".to_string())));
}

#[test]
fn nix_wrapped_aliases_canonicalize_from_argv0() {
    let job = ForegroundJob {
        process_group_id: 123,
        processes: vec![foreground_process(1, ".devin-cli-wrapped", &["/nix/store/example/bin/devin-cli"])],
    };
    assert_eq!(job_agent(&job), Some((Agent::Devin, "devin".to_string())));
}

#[test]
fn powershell_file_wrapped_agent_is_recognized() {
    let job = ForegroundJob {
        process_group_id: 123,
        processes: vec![foreground_process(
            1,
            "powershell.exe",
            &["powershell.exe", "-NoProfile", "-File", "C:\\Users\\herdr\\Documents\\PowerShell\\Scripts\\codex.ps1"],
        )],
    };
    assert_eq!(job_agent(&job), Some((Agent::Codex, "codex".to_string())));
}

#[test]
fn builtin_registry_lists_each_agent_once_in_order() {
    let reg = registry();
    let agents = Agent::all();
    assert_eq!(reg.profiles.len(), agents.len());
    for (profile, agent) in reg.profiles.iter().zip(agents.iter()) {
        assert_eq!(&profile.agent, agent);
        assert_eq!(profile.id, agent.as_str());
    }
    let cursor = &reg.profiles[3];
    assert_eq!(cursor.aliases, strings(&["cursor", "cursor-agent"]));
    assert_eq!(cursor.launch.windows, "cursor-agent.cmd");
    let bundled = cursor.process.as_ref().unwrap().bundled_node.as_ref().unwrap();
    assert_eq!(bundled.runtime_basename, "node.exe");
    let mastra = &reg.profiles[8];
    assert!(!mastra.screen_detectable);
    assert_eq!(
        mastra.process.as_ref().unwrap().package_layouts[0].components,
        strings(&["node_modules", "mastracode", "dist", "cli.js"])
    );
    let muse = reg.profiles[21].process.as_ref().unwrap();
    assert_eq!(muse.versioned_prefixes, strings(&["muse-bin-"]));
    let hermes = reg.profiles[16].integration.as_ref().unwrap();
    assert_eq!(hermes.source, "herdr:hermes");
    assert!(hermes.session_identity_only);
}

fn no_manifest(_: Agent, _: &str, _: &str, _: &str) -> AgentDetection {
    unreachable!("no agent, no manifest")
}

#[test]
fn no_agent_returns_unknown() {
    assert_eq!(detect_state(None, "anything", no_manifest), AgentState::Unknown);
}

#[test]
fn an_agents_screen_is_read_by_its_manifest() {
    let working = |agent: Agent, screen: &str, title: &str, progress: &str| {
        assert_eq!((agent, screen, title, progress), (Agent::Codex, "esc to interrupt", "t", "p"));
        AgentDetection {
            state: AgentState::Working,
            skip_state_update: false,
            visible_idle: false,
            screen_visible_idle: false,
            visible_blocker: false,
            visible_working: true,
        }
    };
    let detection = detect_agent_with_osc(Some(Agent::Codex), "esc to interrupt", "t", "p", working);
    assert_eq!(detection.state, AgentState::Working);
    assert!(detection.visible_working);
    let none = detect_agent_with_osc(None, "esc to interrupt", "t", "p", no_manifest);
    assert_eq!(none.state, AgentState::Unknown);
    assert!(!none.visible_blocker && !none.visible_idle && !none.visible_working);
}
