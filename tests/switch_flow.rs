use naj::error::NajError;
use naj::gitconfig::{Entry, GitOp, LocalConfig};
use naj::session::{run, Event, Request};
use naj::strategy::{NajConfig, Strategies, SwitchStrategy};

const PROFILES: &str = "/home/u/.config/naj/profiles";

/// A stand-in for git and the file system: it keeps the repository's local
/// configuration in memory and records what would have been shown.
struct Host {
    config: LocalConfig,
    repository: bool,
    profile_exists: bool,
    listing: String,
    shown: Vec<String>,
    commands: Vec<Vec<String>>,
    entered: Vec<String>,
}

fn entry(k: &str, v: &str) -> Entry {
    Entry::new(k.to_string(), v.to_string())
}

fn dirty_repo() -> LocalConfig {
    let mut c = LocalConfig::new();
    c.entries.push(entry("core.bare", "false"));
    c.entries.push(entry("user.name", "DirtyUser"));
    c.entries.push(entry("user.email", "dirty@example.com"));
    c.entries.push(entry("user.extra", "StayHere"));
    c
}

fn host(config: LocalConfig, name: &str, email: &str) -> Host {
    Host {
        config,
        repository: true,
        profile_exists: true,
        listing: format!("user.name={}\nuser.email={}\n", name, email),
        shown: Vec::new(),
        commands: Vec::new(),
        entered: Vec::new(),
    }
}

fn settings(strategy: &str) -> NajConfig {
    NajConfig {
        strategies: Strategies {
            clone: "INCLUDE".to_string(),
            switch: SwitchStrategy::from_name(strategy),
        },
        profile_dir: PROFILES.to_string(),
    }
}

fn render(c: &LocalConfig) -> String {
    let mut out = String::new();
    for e in &c.entries {
        let dot = e.key.rfind('.').unwrap();
        out.push_str(&format!("[{}]\n\t{} = {}\n", &e.key[..dot], &e.key[dot + 1..], e.value));
    }
    out
}

impl Host {
    fn has_section(&self, s: &str) -> bool {
        self.config.entries.iter().any(|e| e.key.rfind('.').map(|d| &e.key[..d] == s).unwrap_or(false))
    }

    fn git(&mut self, args: &[String]) -> (i32, String, String) {
        let a: Vec<&str> = args.iter().map(|s| s.as_str()).collect();
        let op = match a.as_slice() {
            ["config", "--local", "--remove-section", s] => {
                if !self.has_section(s) {
                    return (1, String::new(), format!("fatal: no such section: {}", s));
                }
                GitOp::RemoveSection { section: s.to_string() }
            }
            ["config", "--local", "--unset-all", k] => GitOp::UnsetAll { key: k.to_string() },
            ["config", "--local", "--fixed-value", "--unset-all", k, v] => {
                GitOp::UnsetValue { key: k.to_string(), value: v.to_string() }
            }
            ["config", "--local", "--add", k, v] => GitOp::Add { key: k.to_string(), value: v.to_string() },
            ["config", "--local", "--get-all", k] => {
                let vals: Vec<String> = self
                    .config
                    .entries
                    .iter()
                    .filter(|e| e.key == *k)
                    .map(|e| format!("{}\n", e.value))
                    .collect();
                return (if vals.is_empty() { 1 } else { 0 }, vals.concat(), String::new());
            }
            ["config", "-f", _, "--list"] => return (0, self.listing.clone(), String::new()),
            ["config", "--local", k, v] => GitOp::Assign { key: k.to_string(), value: v.to_string() },
            _ => {
                self.commands.push(args.to_vec());
                return (0, String::new(), String::new());
            }
        };
        self.config.apply(&op);
        (0, String::new(), String::new())
    }

    /// Runs a session to its end; returns its outcome and notices.
    fn drive(&mut self, cfg: &NajConfig, id: &str, args: &[&str], force: bool, dry_run: bool) -> (Result<(), NajError>, Vec<String>) {
        let args: Vec<String> = args.iter().map(|s| s.to_string()).collect();
        let mut session = run(cfg, id, &args, force, dry_run);
        let mut event = Event::Start;
        for _ in 0..200 {
            match session.step(event) {
                Request::Finish { outcome, notices } => return (outcome, notices),
                Request::Inspect { .. } => {
                    event = Event::Inspected {
                        repository: self.repository,
                        profile_exists: self.profile_exists,
                        current_dir: Some("/work".to_string()),
                    };
                }
                Request::Git { args, perform, .. } => {
                    if !perform {
                        self.shown.push(format!("[DRY-RUN] git {}", args.join(" ")));
                        self.commands.push(args.clone());
                        event = Event::GitDone { code: Some(0), stdout: String::new(), stderr: String::new() };
                    } else {
                        let (code, stdout, stderr) = self.git(&args);
                        event = Event::GitDone { code: Some(code), stdout, stderr };
                    }
                }
                Request::Enter { path } => {
                    self.entered.push(path);
                    event = Event::Entered { ok: true };
                }
                Request::ReadLocalConfig => {
                    event = Event::LocalConfigRead { content: Some(render(&self.config)) };
                }
            }
        }
        panic!("the session did not finish");
    }

    fn value(&self, key: &str) -> Vec<String> {
        self.config.entries.iter().filter(|e| e.key == key).map(|e| e.value.clone()).collect()
    }
}

#[test]
fn test_strategy_include_lowercase_soft() {
    let mut h = host(dirty_repo(), "Soft", "soft@test.com");
    let (outcome, notices) = h.drive(&settings("include"), "soft_user", &[], false, false);
    assert!(outcome.is_ok());
    let links = h.value("include.path");
    assert_eq!(links, vec![format!("{}/soft_user.gitconfig", PROFILES)]);
    assert_eq!(h.value("user.name"), vec!["DirtyUser".to_string()]);
    assert_eq!(h.value("user.extra"), vec!["StayHere".to_string()]);
    assert_eq!(notices[0], "Switched to profile 'soft_user'");
    assert!(notices.iter().any(|n| n.starts_with("WARNING")));
}

#[test]
fn test_strategy_include_uppercase_hard() {
    let mut h = host(dirty_repo(), "Hard", "hard@test.com");
    let (outcome, _) = h.drive(&settings("INCLUDE"), "hard_user", &[], false, false);
    assert!(outcome.is_ok());
    assert_eq!(h.value("include.path"), vec![format!("{}/hard_user.gitconfig", PROFILES)]);
    assert!(h.value("user.name").is_empty());
    assert!(h.value("user.extra").is_empty());
    assert_eq!(h.value("core.bare"), vec!["false".to_string()]);
}

#[test]
fn test_strategy_override_lowercase_soft() {
    let mut h = host(dirty_repo(), "SoftOver", "so@test.com");
    let (outcome, _) = h.drive(&settings("override"), "soft_over", &[], false, false);
    assert!(outcome.is_ok());
    assert!(h.value("include.path").is_empty());
    assert_eq!(h.value("user.name"), vec!["SoftOver".to_string()]);
    assert_eq!(h.value("user.email"), vec!["so@test.com".to_string()]);
    assert_eq!(h.value("user.extra"), vec!["StayHere".to_string()]);
}

#[test]
fn test_strategy_override_uppercase_hard() {
    let mut h = host(dirty_repo(), "HardOver", "ho@test.com");
    let (outcome, _) = h.drive(&settings("OVERRIDE"), "hard_over", &[], false, false);
    assert!(outcome.is_ok());
    assert!(h.value("include.path").is_empty());
    assert_eq!(h.value("user.name"), vec!["HardOver".to_string()]);
    assert_eq!(h.value("user.email"), vec!["ho@test.com".to_string()]);
    assert!(h.value("user.extra").is_empty());
}

#[test]
fn test_exec_dry_run_injection_strict() {
    let mut h = host(LocalConfig::new(), "Test", "test@e.com");
    let (outcome, _) = h.drive(&settings("include"), "p1", &["commit", "-m", "foo"], false, true);
    assert!(outcome.is_ok());
    let shown = h.shown.join("\n");
    for needle in [
        "user.name=",
        "user.email=",
        "user.signingkey=",
        "core.sshCommand=",
        "commit.gpgsign=false",
        "include.path=",
        "p1.gitconfig",
    ] {
        assert!(shown.contains(needle), "missing {}", needle);
    }
    assert!(h.config.entries.is_empty());
}

#[test]
fn test_switch_mode_persistent() {
    let mut h = host(LocalConfig::new(), "Switch User", "s@e.com");
    let (outcome, _) = h.drive(&settings("include"), "switch_test", &[], false, false);
    assert!(outcome.is_ok());
    assert!(render(&h.config).contains("[include]"));
    assert!(render(&h.config).contains("path = "));
    assert!(render(&h.config).contains("switch_test.gitconfig"));
}

#[test]
fn test_switch_force_mode_sanitization() {
    let mut c = LocalConfig::new();
    c.entries.push(entry("user.name", "OldName"));
    c.entries.push(entry("user.email", "old@example.com"));
    let mut h = host(c, "Force User", "f@e.com");
    let (outcome, _) = h.drive(&settings("include"), "force_test", &[], true, false);
    assert!(outcome.is_ok());
    let text = render(&h.config);
    assert!(!text.contains("[user]"));
    assert!(!text.contains("OldName"));
    assert!(text.contains("[include]"));
    assert!(text.contains("force_test.gitconfig"));
}

#[test]
fn test_setup_mode_local_clone() {
    let mut c = LocalConfig::new();
    c.entries.push(entry("user.name", "Leftover"));
    let mut h = host(c, "CloneUser", "c@e.com");
    let (outcome, _) = h.drive(&settings("include"), "clone_test", &["clone", "/src/source", "dest_repo"], false, false);
    assert!(outcome.is_ok());
    assert_eq!(h.commands[0], vec!["clone".to_string(), "/src/source".to_string(), "dest_repo".to_string()]);
    assert_eq!(h.entered, vec!["dest_repo".to_string()]);
    let text = render(&h.config);
    assert!(text.contains("[include]"));
    assert!(text.contains("clone_test.gitconfig"));
    // the switch after a clone is hard
    assert!(!text.contains("Leftover"));
}

#[test]
fn test_switch_force_mocking() {
    let mut h = host(dirty_repo(), "User", "u@e.com");
    let (outcome, _) = h.drive(&settings("include"), "mock_test", &[], true, true);
    assert!(outcome.is_ok());
    let shown = h.shown.join("\n");
    assert!(shown.contains("config"));
    assert!(shown.contains("--remove-section"));
    assert!(shown.contains("user"));
    assert_eq!(h.value("user.name"), vec!["DirtyUser".to_string()]);
}

#[test]
fn switching_twice_leaves_one_link() {
    for name in ["include", "INCLUDE", "override", "OVERRIDE"] {
        let mut h = host(dirty_repo(), "Work User", "work@x.com");
        h.drive(&settings(name), "work", &[], false, false).0.unwrap();
        let once = render(&h.config);
        h.drive(&settings(name), "work", &[], false, false).0.unwrap();
        assert_eq!(render(&h.config), once, "strategy {}", name);
        assert!(h.value("include.path").len() <= 1);
    }
}

#[test]
fn switching_to_another_profile_drops_the_old_link() {
    let mut h = host(LocalConfig::new(), "A", "a@x.com");
    h.drive(&settings("include"), "first", &[], false, false).0.unwrap();
    h.drive(&settings("include"), "second", &[], false, false).0.unwrap();
    assert_eq!(h.value("include.path"), vec![format!("{}/second.gitconfig", PROFILES)]);
}

#[test]
fn links_outside_the_profiles_stay() {
    let mut c = LocalConfig::new();
    c.entries.push(entry("include.path", "/etc/team.inc"));
    let mut h = host(c, "A", "a@x.com");
    h.drive(&settings("include"), "work", &[], false, false).0.unwrap();
    assert_eq!(h.value("include.path"), vec!["/etc/team.inc".to_string(), format!("{}/work.gitconfig", PROFILES)]);
}

#[test]
fn scenario_soft_include_keeps_old_name_and_warns() {
    let mut c = LocalConfig::new();
    c.entries.push(entry("user.name", "Old"));
    let mut h = host(c, "Work User", "work@x.com");
    let (outcome, notices) = h.drive(&settings("include"), "work", &[], false, false);
    assert!(outcome.is_ok());
    assert!(render(&h.config).contains("name = Old"));
    assert!(h.value("include.path")[0].ends_with("/work.gitconfig"));
    assert_eq!(notices.len(), 2);
}

#[test]
fn scenario_hard_include_removes_user_section() {
    let mut c = LocalConfig::new();
    c.entries.push(entry("user.name", "Old"));
    let mut h = host(c, "Work User", "work@x.com");
    let (outcome, notices) = h.drive(&settings("INCLUDE"), "work", &[], false, false);
    assert!(outcome.is_ok());
    assert!(!render(&h.config).contains("[user]"));
    assert!(h.value("include.path")[0].ends_with("/work.gitconfig"));
    assert_eq!(notices, vec!["Switched to profile 'work'".to_string()]);
}

#[test]
fn scenario_hard_override_writes_values() {
    let mut c = LocalConfig::new();
    c.entries.push(entry("user.name", "Old"));
    c.entries.push(entry("user.signingkey", "ABC"));
    let mut h = host(c, "Work User", "work@x.com");
    h.drive(&settings("OVERRIDE"), "work", &[], false, false).0.unwrap();
    let text = render(&h.config);
    assert!(text.contains("name = Work User"));
    assert!(text.contains("email = work@x.com"));
    assert!(!text.contains("[include]"));
    assert!(!text.contains("signingkey"));
}

#[test]
fn scenario_clone_into_named_directory() {
    let mut h = host(LocalConfig::new(), "Work User", "work@x.com");
    h.drive(&settings("include"), "work", &["clone", "git@host:team/app.git", "mydir"], false, false).0.unwrap();
    assert_eq!(h.entered, vec!["mydir".to_string()]);
    assert!(h.value("include.path")[0].ends_with("/work.gitconfig"));
}

#[test]
fn outside_a_repository_a_switch_fails() {
    let mut h = host(LocalConfig::new(), "A", "a@x.com");
    h.repository = false;
    let (outcome, _) = h.drive(&settings("include"), "work", &[], false, false);
    assert!(matches!(outcome, Err(NajError::NotARepository)));
}

#[test]
fn a_missing_profile_fails() {
    let mut h = host(LocalConfig::new(), "A", "a@x.com");
    h.profile_exists = false;
    let (outcome, _) = h.drive(&settings("include"), "ghost", &[], false, false);
    match outcome {
        Err(NajError::ProfileNotFound { id, path }) => {
            assert_eq!(id, "ghost");
            assert_eq!(path, format!("{}/ghost.gitconfig", PROFILES));
        }
        other => panic!("unexpected {:?}", other),
    }
}

#[test]
fn a_failing_purge_is_reported() {
    let cfg = settings("INCLUDE");
    let mut session = run(&cfg, "work", &Vec::new(), false, false);
    let r = session.step(Event::Start);
    assert!(matches!(r, Request::Inspect { .. }));
    let r = session.step(Event::Inspected { repository: true, profile_exists: true, current_dir: None });
    assert!(matches!(r, Request::Git { .. }));
    let r = session.step(Event::GitDone { code: Some(128), stdout: String::new(), stderr: "fatal: locked\n".to_string() });
    match r {
        Request::Finish { outcome: Err(NajError::ExternalTool { context, code, stderr }), .. } => {
            assert_eq!(context, "git config --local --remove-section user");
            assert_eq!(code, Some(128));
            assert_eq!(stderr, "fatal: locked");
        }
        other => panic!("unexpected {:?}", other),
    }
}

#[test]
fn a_relative_profile_needs_the_working_directory() {
    let cfg = NajConfig {
        strategies: Strategies { clone: String::new(), switch: SwitchStrategy::IncludeSoft },
        profile_dir: "profiles".to_string(),
    };
    let mut session = run(&cfg, "work", &Vec::new(), false, false);
    session.step(Event::Start);
    let r = session.step(Event::Inspected { repository: true, profile_exists: true, current_dir: None });
    assert!(matches!(r, Request::Finish { outcome: Err(NajError::Io { .. }), .. }));
}

#[test]
fn a_failed_clone_stops_the_setup() {
    let cfg = settings("include");
    let args = vec!["clone".to_string(), "url".to_string()];
    let mut session = run(&cfg, "work", &args, false, false);
    match session.step(Event::Start) {
        Request::Git { args, interactive, perform } => {
            assert_eq!(args, vec!["clone".to_string(), "url".to_string()]);
            assert!(interactive);
            assert!(perform);
        }
        other => panic!("unexpected {:?}", other),
    }
    let r = session.step(Event::GitDone { code: Some(128), stdout: String::new(), stderr: String::new() });
    assert!(matches!(r, Request::Finish { outcome: Err(NajError::ExternalTool { .. }), .. }));
}

#[test]
fn exec_leaves_the_configuration_alone() {
    let mut h = host(dirty_repo(), "Work User", "work@x.com");
    let before = render(&h.config);
    let (outcome, _) = h.drive(&settings("OVERRIDE"), "work", &["commit", "-m", "x"], true, false);
    assert!(outcome.is_ok());
    assert_eq!(render(&h.config), before);
    let command = h.commands.last().unwrap();
    assert_eq!(&command[command.len() - 3..], &["commit".to_string(), "-m".to_string(), "x".to_string()][..]);
    assert!(command.contains(&"user.name=Work User".to_string()));
}

#[test]
fn a_missing_clone_directory_ends_quietly() {
    let cfg = settings("include");
    let args = vec!["clone".to_string(), "url".to_string(), "there".to_string()];
    let mut session = run(&cfg, "work", &args, false, false);
    session.step(Event::Start);
    match session.step(Event::GitDone { code: Some(0), stdout: String::new(), stderr: String::new() }) {
        Request::Enter { path } => assert_eq!(path, "there"),
        other => panic!("unexpected {:?}", other),
    }
    let r = session.step(Event::Entered { ok: false });
    assert!(matches!(r, Request::Finish { outcome: Ok(()), .. }));
}

#[test]
fn a_failed_profile_read_stops_an_override() {
    let cfg = settings("override");
    let mut session = run(&cfg, "work", &Vec::new(), false, false);
    session.step(Event::Start);
    let mut r = session.step(Event::Inspected { repository: true, profile_exists: true, current_dir: None });
    // the soft override purges nothing: the links are listed first
    match &r {
        Request::Git { args, .. } => assert_eq!(args, &vec!["config".to_string(), "--local".to_string(), "--get-all".to_string(), "include.path".to_string()]),
        other => panic!("unexpected {:?}", other),
    }
    r = session.step(Event::GitDone { code: Some(1), stdout: String::new(), stderr: String::new() });
    match &r {
        Request::Git { args, .. } => assert_eq!(args[1], "-f"),
        other => panic!("unexpected {:?}", other),
    }
    let r = session.step(Event::GitDone { code: Some(1), stdout: String::new(), stderr: "fatal: bad file".to_string() });
    assert!(matches!(r, Request::Finish { outcome: Err(NajError::ExternalTool { .. }), .. }));
}

#[test]
fn an_answer_out_of_turn_ends_the_run() {
    let cfg = settings("include");
    let mut session = run(&cfg, "work", &Vec::new(), false, false);
    let r = session.step(Event::Entered { ok: true });
    assert!(matches!(r, Request::Finish { outcome: Err(_), .. }));
}

#[test]
fn a_session_edits_as_the_in_memory_switch_does() {
    for name in ["include", "INCLUDE", "override", "OVERRIDE"] {
        let mut start = dirty_repo();
        start.entries.push(entry("include.path", "/old/profiles/home.gitconfig"));
        start.entries.push(entry("include.path", "/etc/team.inc"));
        let mut h = host(LocalConfig::new(), "Work User", "work@x.com");
        h.config.entries = start.entries.iter().map(|e| e.duplicate()).collect();
        h.drive(&settings(name), "work", &[], false, false).0.unwrap();

        let mut model = LocalConfig { entries: start.entries.iter().map(|e| e.duplicate()).collect() };
        let profile = naj::plan::parse_entries(&h.listing);
        let file = format!("{}/work.gitconfig", PROFILES);
        model.switch_to(SwitchStrategy::from_name(name), PROFILES, &file, &profile);
        assert_eq!(render(&h.config), render(&model), "strategy {}", name);
    }
}
