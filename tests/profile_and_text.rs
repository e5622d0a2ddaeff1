use vs_runner::profile::{
    check_profile_dirs_exist, debug_run_args, join_path, launch_command, resolve_profile_dirs, run,
    run_exit_code, Cli, Failure, RunAction, RunCLI, RunEvent, VSCodeOptions,
};
use vs_runner::text::{join, text_less, truncate_ellipse, truncate_graphemes};

fn cli(profile: Option<&str>, verbose: bool) -> Cli {
    Cli {
        profile: profile.map(|p| p.to_string()),
        executable: Some("/usr/bin/code".to_string()),
        verbose,
        command: None,
    }
}

#[test]
fn named_profile_dirs() {
    let (d, e) = resolve_profile_dirs(Some(&"work".to_string()), "/home/u");
    assert_eq!(d, "/home/u/.vscode_profiles/work/data");
    assert_eq!(e, "/home/u/.vscode_profiles/work/extensions");
}

#[test]
fn default_profile_dirs() {
    let (d, e) = resolve_profile_dirs(None, "/home/u/");
    assert_eq!(d, "/home/u/.config/Code");
    assert_eq!(e, "/home/u/.vscode/extensions");
}

#[test]
fn resolving_twice_gives_the_same_dirs() {
    let p = "work".to_string();
    assert_eq!(
        resolve_profile_dirs(Some(&p), "/home/u"),
        resolve_profile_dirs(Some(&p), "/home/u")
    );
}

#[test]
fn join_path_cases() {
    assert_eq!(join_path("/a", "b"), "/a/b");
    assert_eq!(join_path("/a/", "b"), "/a/b");
    assert_eq!(join_path("", "b"), "b");
    assert_eq!(join_path("/a", "/b"), "/b");
}

#[test]
fn run_with_profile_and_extra_args() {
    let o = VSCodeOptions::from(&cli(Some("work"), true), "/usr/bin/code".to_string(), "/home/u");
    let r = RunCLI {
        work_dir: Some("myproject".to_string()),
        verbose: false,
        extra_args: vec!["--new-window".to_string()],
    };
    let c = launch_command(&r, &o);
    assert_eq!(c.program, "/usr/bin/code");
    assert_eq!(
        c.args,
        vec![
            "--user-data-dir=/home/u/.vscode_profiles/work/data".to_string(),
            "--extensions-dir=/home/u/.vscode_profiles/work/extensions".to_string(),
            "--new-window".to_string(),
            "myproject".to_string(),
        ]
    );
    assert_eq!(
        debug_run_args(&o, &c).unwrap(),
        "Running: /usr/bin/code --user-data-dir=/home/u/.vscode_profiles/work/data \
         --extensions-dir=/home/u/.vscode_profiles/work/extensions --new-window myproject"
    );
}

#[test]
fn quiet_run_echoes_nothing() {
    let o = VSCodeOptions::from(&cli(None, false), "code".to_string(), "/h");
    let c = o.get_command();
    assert_eq!(c.args.len(), 2);
    assert!(debug_run_args(&o, &c).is_none());
}

#[test]
fn exit_status_of_child_is_passed_on() {
    assert_eq!(run_exit_code(Some(3)), 3);
    assert_eq!(run_exit_code(Some(0)), 0);
    assert_eq!(run_exit_code(None), 70);
}

#[test]
fn missing_dirs_is_a_config_error() {
    assert_eq!(check_profile_dirs_exist(true, true), Ok(()));
    assert_eq!(check_profile_dirs_exist(false, true), Err(Failure::Config));
    assert_eq!(check_profile_dirs_exist(true, false), Err(Failure::Config));
    assert_eq!(Failure::Config.exit_code(), 78);
    assert_eq!(Failure::DataErr.exit_code(), 65);
}

#[test]
fn truncate_short_text_is_unchanged() {
    assert_eq!(truncate_ellipse("hello", 5), "hello");
    assert_eq!(truncate_ellipse("hello", 9), "hello");
}

#[test]
fn truncate_long_text_adds_ellipsis() {
    assert_eq!(truncate_ellipse("hello", 3), "hel\u{2026}");
}

#[test]
fn truncate_to_zero_is_empty() {
    assert_eq!(truncate_ellipse("hello", 0), "");
    assert_eq!(truncate_ellipse("", 0), "");
}

#[test]
fn truncate_keeps_grapheme_clusters_whole() {
    // "e" followed by a combining acute accent is one cluster.
    let text = "e\u{301}e\u{301}e\u{301}";
    assert_eq!(truncate_ellipse(text, 3), text);
    assert_eq!(truncate_ellipse(text, 2), "e\u{301}e\u{301}\u{2026}");
}

#[test]
fn truncate_pieces() {
    let gs = vec!["a".to_string(), "bc".to_string(), "d".to_string()];
    assert_eq!(truncate_graphemes(&gs, 2), "abc\u{2026}");
    assert_eq!(truncate_graphemes(&gs, 3), "abcd");
}

#[test]
fn text_order() {
    assert!(text_less("MS.CPP@2.0", "MS.PYTHON@1.0"));
    assert!(!text_less("MS.PYTHON@1.0", "MS.CPP@2.0"));
    assert!(text_less("AB", "ABC"));
    assert!(!text_less("ABC", "ABC"));
}

#[test]
fn join_with_separator() {
    assert_eq!(join(&vec!["a".to_string(), "b".to_string()], ", "), "a, b");
    assert_eq!(join(&vec!["a".to_string()], ", "), "a");
    assert_eq!(join(&Vec::new(), ", "), "");
}

#[test]
fn run_needs_both_dirs() {
    let o = VSCodeOptions::from(&cli(Some("work"), false), "/usr/bin/code".to_string(), "/home/u");
    let r = RunCLI { work_dir: None, verbose: false, extra_args: Vec::new() };
    assert!(matches!(run(&r, &o, RunEvent::DirsChecked(false, true)), RunAction::Exit(78)));
    assert!(matches!(run(&r, &o, RunEvent::DirsChecked(true, false)), RunAction::Exit(78)));
    match run(&r, &o, RunEvent::DirsChecked(true, true)) {
        RunAction::Launch(c, echo) => {
            assert_eq!(c.program, "/usr/bin/code");
            assert_eq!(c.args.len(), 2);
            assert!(echo.is_none());
        }
        RunAction::Exit(_) => panic!("expected a launch"),
    }
}

#[test]
fn run_with_profile_work_launches_and_passes_status_on() {
    let o = VSCodeOptions::from(&cli(Some("work"), true), "/usr/bin/code".to_string(), "/home/u");
    let r = RunCLI {
        work_dir: Some("myproject".to_string()),
        verbose: false,
        extra_args: vec!["--new-window".to_string()],
    };
    match run(&r, &o, RunEvent::DirsChecked(true, true)) {
        RunAction::Launch(c, echo) => {
            assert_eq!(
                c.args,
                vec![
                    "--user-data-dir=/home/u/.vscode_profiles/work/data".to_string(),
                    "--extensions-dir=/home/u/.vscode_profiles/work/extensions".to_string(),
                    "--new-window".to_string(),
                    "myproject".to_string(),
                ]
            );
            assert_eq!(
                echo.unwrap(),
                "Running: /usr/bin/code --user-data-dir=/home/u/.vscode_profiles/work/data \
                 --extensions-dir=/home/u/.vscode_profiles/work/extensions --new-window myproject"
            );
        }
        RunAction::Exit(_) => panic!("expected a launch"),
    }
    assert!(matches!(run(&r, &o, RunEvent::Finished(Some(4))), RunAction::Exit(4)));
    assert!(matches!(run(&r, &o, RunEvent::Finished(Some(0))), RunAction::Exit(0)));
    assert!(matches!(run(&r, &o, RunEvent::Finished(None)), RunAction::Exit(70)));
}
