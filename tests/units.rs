use naj::gitconfig::{key_in_section, Entry, GitOp, LocalConfig};
use naj::paths::{absolute, expand_with_home, extract_basename, file_name, join, profile_file};
use naj::plan::{
    classify, exec_args, failed, is_dirty_config, is_stale_include, op_args, parse_entries,
    parse_values, sanitize_ops, setup_dir, stale_include_ops, tolerance, Action, Tolerance,
};
use naj::policy::{blacklist_keys, blacklist_sections, blind_injections};
use naj::strategy::{NajConfig, SwitchStrategy};
use naj::strategy::SwitchStrategy::{IncludeHard, IncludeSoft, OverrideHard, OverrideSoft};
use naj::text::{contains, ends_with, lines, same, split_once, starts_with, trim};

fn strings(v: &[&str]) -> Vec<String> {
    v.iter().map(|s| s.to_string()).collect()
}

#[test]
fn force_escalates_soft_and_keeps_hard() {
    assert_eq!(IncludeSoft.resolve(true), IncludeHard);
    assert_eq!(OverrideSoft.resolve(true), OverrideHard);
    assert_eq!(IncludeHard.resolve(true), IncludeHard);
    assert_eq!(OverrideHard.resolve(true), OverrideHard);
    for s in [IncludeSoft, IncludeHard, OverrideSoft, OverrideHard] {
        assert_eq!(s.resolve(false), s);
    }
    assert!(IncludeHard.should_sanitize() && OverrideHard.should_sanitize());
    assert!(!IncludeSoft.should_sanitize() && !OverrideSoft.should_sanitize());
}

#[test]
fn strategy_names_read_back() {
    for s in [IncludeSoft, IncludeHard, OverrideSoft, OverrideHard] {
        assert_eq!(SwitchStrategy::from_name(s.name()), s);
    }
    assert_eq!(SwitchStrategy::from_name("  OVERRIDE \n"), OverrideHard);
    assert_eq!(SwitchStrategy::from_name("Include"), IncludeSoft);
    assert_eq!(SwitchStrategy::from_name(""), IncludeSoft);
    assert_eq!(IncludeHard.name(), "INCLUDE");
}

#[test]
fn defaults() {
    let c = NajConfig::default();
    assert_eq!(c.profile_dir, "~/.config/naj/profiles");
    assert_eq!(c.strategies.switch, SwitchStrategy::IncludeSoft);
    assert_eq!(SwitchStrategy::default(), SwitchStrategy::IncludeSoft);
}

#[test]
fn actions_from_arguments() {
    assert_eq!(classify(&Vec::new()), Action::Switch);
    assert_eq!(classify(&strings(&["clone", "u"])), Action::Setup);
    assert_eq!(classify(&strings(&["init"])), Action::Setup);
    assert_eq!(classify(&strings(&["commit", "-m", "x"])), Action::Exec);
    assert_eq!(classify(&strings(&["Clone"])), Action::Exec);
}

#[test]
fn clone_directories() {
    assert_eq!(extract_basename("https://h/team/app.git"), "app");
    assert_eq!(extract_basename("https://h/team/app/"), "app");
    assert_eq!(extract_basename("git@host:team/app.git"), "app");
    assert_eq!(extract_basename("app.git/"), "app");
    assert_eq!(extract_basename("///"), "repo");
    assert_eq!(extract_basename(""), "repo");
    assert_eq!(extract_basename("a/."), "a");
    assert_eq!(extract_basename("a/./"), "a");
    assert_eq!(extract_basename("x/a/.git"), "a");
    assert_eq!(extract_basename("a/.."), "repo");
    assert_eq!(extract_basename("."), "repo");
    assert_eq!(setup_dir(&strings(&["clone", "--depth=1", "url", "dir"])), "dir");
    assert_eq!(setup_dir(&strings(&["clone", "git@h:x/y.git", "mydir"])), "mydir");
    assert_eq!(setup_dir(&strings(&["clone", "-q", "https://h/x/y.git"])), "y");
    assert_eq!(setup_dir(&strings(&["clone"])), "repo");
    assert_eq!(setup_dir(&strings(&["init", "x"])), ".");
}

#[test]
fn paths() {
    assert_eq!(join("/a", "b"), "/a/b");
    assert_eq!(join("/a/", "b"), "/a/b");
    assert_eq!(join("/a", "/b"), "/b");
    assert_eq!(join("", "b"), "b");
    assert_eq!(expand_with_home("~", "/home/u"), "/home/u");
    assert_eq!(expand_with_home("~/x/y", "/home/u"), "/home/u/x/y");
    assert_eq!(expand_with_home("~user/x", "/home/u"), "~user/x");
    assert_eq!(expand_with_home("/etc", "/home/u"), "/etc");
    assert_eq!(profile_file("/p", "work"), "/p/work.gitconfig");
    assert_eq!(absolute("/cwd", "p/work.gitconfig"), "/cwd/p/work.gitconfig");
    assert_eq!(absolute("/cwd", "/p/w.gitconfig"), "/p/w.gitconfig");
    assert_eq!(naj::paths::expand_path("/plain").unwrap(), "/plain");
}

#[test]
fn text_operations() {
    assert_eq!(trim(" \t a b \r\n"), "a b");
    assert_eq!(trim("   "), "");
    assert_eq!(split_once("user.name=A=B", '='), Some(("user.name".to_string(), "A=B".to_string())));
    assert_eq!(split_once("novalue", '='), None);
    assert_eq!(lines("a\r\nb\n\nc"), strings(&["a", "b", "", "c"]));
    assert_eq!(lines("a\n"), strings(&["a"]));
    assert!(lines("").is_empty());
    assert!(contains("hello", "ell") && !contains("hello", "elo") && contains("x", ""));
    assert!(starts_with("~/x", "~") && !starts_with("", "~"));
    assert!(ends_with("a.gitconfig", ".gitconfig") && !ends_with("gitconfig", ".gitconfig"));
    assert!(same("é", "é") && !same("a", "ab"));
}

#[test]
fn sections_and_keys() {
    assert!(key_in_section("user.name", "user"));
    assert!(!key_in_section("gpg.ssh.program", "gpg"));
    assert!(key_in_section("gpg.ssh.program", "gpg.ssh"));
    assert!(!key_in_section("username", "user"));
    assert!(!key_in_section("user", "user"));
}

#[test]
fn edits_of_the_model() {
    let mut c = LocalConfig::new();
    c.apply(&GitOp::Add { key: "include.path".into(), value: "a".into() });
    c.apply(&GitOp::Add { key: "include.path".into(), value: "b".into() });
    c.apply(&GitOp::Assign { key: "user.name".into(), value: "X".into() });
    c.apply(&GitOp::Assign { key: "user.name".into(), value: "Y".into() });
    assert_eq!(c.entries.len(), 3);
    assert_eq!(c.entries[2].value, "Y");
    c.apply(&GitOp::UnsetValue { key: "include.path".into(), value: "a".into() });
    assert_eq!(c.include_values(), strings(&["b"]));
    c.apply(&GitOp::RemoveSection { section: "user".into() });
    assert_eq!(c.entries.len(), 1);
    c.apply(&GitOp::UnsetAll { key: "include.path".into() });
    assert!(c.entries.is_empty());
}

#[test]
fn policy_lists() {
    assert_eq!(blacklist_sections(), strings(&["user", "author", "committer", "gpg"]));
    assert_eq!(blacklist_keys().len(), 4);
    assert_eq!(blind_injections().len(), 9);
    assert_eq!(blind_injections()[7], ("commit.gpgsign".to_string(), "false".to_string()));
}

#[test]
fn purge_only_when_hard() {
    assert!(sanitize_ops(SwitchStrategy::IncludeSoft).is_empty());
    let ops = sanitize_ops(SwitchStrategy::OverrideHard);
    assert_eq!(ops.len(), 9);
    assert_eq!(op_args(&ops[0]), strings(&["config", "--local", "--remove-section", "user"]));
    assert_eq!(op_args(&ops[4]), strings(&["config", "--local", "--remove-section", "include"]));
    assert_eq!(op_args(&ops[5]), strings(&["config", "--local", "--unset-all", "core.sshCommand"]));
    assert_eq!(tolerance(&ops[0]), Tolerance::NotFound);
    assert_eq!(tolerance(&ops[4]), Tolerance::Any);
    assert_eq!(tolerance(&ops[5]), Tolerance::Any);
}

#[test]
fn failures_that_count() {
    assert!(!failed(Tolerance::NotFound, Some(1), ""));
    assert!(!failed(Tolerance::NotFound, Some(3), "fatal: no such section: user"));
    assert!(failed(Tolerance::NotFound, Some(128), "fatal: locked"));
    assert!(failed(Tolerance::Strict, None, ""));
    assert!(failed(Tolerance::Strict, Some(1), ""));
    assert!(!failed(Tolerance::Strict, Some(0), ""));
    assert!(!failed(Tolerance::Any, Some(5), "anything"));
}

#[test]
fn stale_links() {
    assert!(is_stale_include("/p/profiles/x.gitconfig", "/p/profiles"));
    assert!(is_stale_include("/elsewhere/x.gitconfig", "/p/profiles"));
    assert!(is_stale_include("/p/profiles/other.inc", "/p/profiles"));
    assert!(!is_stale_include("/etc/team.inc", "/p/profiles"));
    assert!(is_stale_include("a.gitconfig/", "/p/profiles"));
    assert!(is_stale_include("/x/a.gitconfig/.", "/p/profiles"));
    assert!(!is_stale_include("/x/a.gitconfig/..", "/p/profiles"));
    let ops = stale_include_ops(&strings(&["/etc/team.inc", "/p/profiles/a.gitconfig"]), "/p/profiles");
    assert_eq!(ops.len(), 1);
    assert_eq!(
        op_args(&ops[0]),
        strings(&["config", "--local", "--fixed-value", "--unset-all", "include.path", "/p/profiles/a.gitconfig"])
    );
}

#[test]
fn listings() {
    let e = parse_entries("user.name=Work User\nuser.email=work@x.com\nbroken\n");
    assert_eq!(e.len(), 2);
    assert_eq!((e[0].key.as_str(), e[0].value.as_str()), ("user.name", "Work User"));
    assert_eq!(parse_values("  /a/b.gitconfig \n/c\n"), strings(&["/a/b.gitconfig", "/c"]));
}

#[test]
fn one_shot_arguments() {
    let profile = vec![Entry::new("user.name".into(), "W".into())];
    let args = exec_args("/p/w.gitconfig", &profile, &strings(&["commit", "-m", "x"]));
    assert_eq!(args.len(), 18 + 2 + 2 + 3);
    assert_eq!(args[0], "-c");
    assert_eq!(args[1], "user.name=");
    assert_eq!(args[9], "gpg.format=openpgp");
    assert_eq!(args[19], "include.path=/p/w.gitconfig");
    assert_eq!(args[21], "user.name=W");
    assert_eq!(&args[22..], &strings(&["commit", "-m", "x"])[..]);
}

#[test]
fn dirty_configurations() {
    assert!(is_dirty_config("[user]\n\tname = A\n", SwitchStrategy::IncludeSoft));
    assert!(!is_dirty_config("[user]\n\tname = A\n", SwitchStrategy::OverrideSoft));
    assert!(is_dirty_config("[core]\n\tsshCommand = ssh -i k\n", SwitchStrategy::IncludeHard));
    assert!(!is_dirty_config("[core]\n\tsshCommand = ssh -i k\n", SwitchStrategy::OverrideHard));
    assert!(is_dirty_config("[gpg]\n\tformat = ssh\n", SwitchStrategy::IncludeSoft));
    assert!(is_dirty_config("[commit]\n\tgpgsign = true\n", SwitchStrategy::IncludeHard));
    assert!(!is_dirty_config("[core]\n\tbare = false\n", SwitchStrategy::IncludeSoft));
}

#[test]
fn profile_files() {
    assert_eq!(
        naj::profiles::profile_content("Test User", "test@example.com"),
        "[user]\n    name = Test User\n    email = test@example.com\n    # signingkey = \n"
    );
    assert_eq!(naj::profiles::profile_id_of("work.gitconfig"), Some("work".to_string()));
    assert_eq!(naj::profiles::profile_id_of("a.b.gitconfig"), Some("a.b".to_string()));
    assert_eq!(naj::profiles::profile_id_of(".gitconfig"), None);
    assert_eq!(naj::profiles::profile_id_of("notes.txt"), None);
    assert_eq!(naj::profiles::escape_backslashes("C:\\Users\\u"), "C:\\\\Users\\\\u");
    let text = naj::profiles::config_text("C:\\p");
    assert!(text.contains("profile_dir = \"C:\\\\p\""));
    assert!(text.contains("switch = \"include\""));
    let cfg = NajConfig {
        strategies: naj::strategy::Strategies::default(),
        profile_dir: "/cfg/profiles".to_string(),
    };
    assert_eq!(naj::profiles::get_profile_path(&cfg, "work").unwrap(), "/cfg/profiles/work.gitconfig");
    assert_eq!(naj::profiles::get_profile_dir(&cfg).unwrap(), "/cfg/profiles");
}

#[test]
fn test_profile_creation_and_listing() {
    let cfg = NajConfig {
        strategies: naj::strategy::Strategies::default(),
        profile_dir: "/tmp/cfg/profiles".to_string(),
    };
    let path = naj::profiles::get_profile_path(&cfg, "test_user").unwrap();
    assert!(path.ends_with("profiles/test_user.gitconfig"));
    let content = naj::profiles::profile_content("Test User", "test@example.com");
    assert!(content.contains("name = Test User"));
    assert!(content.contains("email = test@example.com"));
    assert_eq!(naj::profiles::profile_id_of("test_user.gitconfig"), Some("test_user".to_string()));
}

#[test]
fn file_names_of_paths() {
    assert_eq!(file_name("/a/b.gitconfig"), "b.gitconfig");
    assert_eq!(file_name("a/b/"), "b");
    assert_eq!(file_name("a/b/."), "b");
    assert_eq!(file_name("/"), "");
    assert_eq!(file_name("a/.."), "");
    assert_eq!(file_name("./a"), "a");
}
