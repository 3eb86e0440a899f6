use oil_cop::sources::adapters::{resolve_from, Adapters, GitAdapter};
use oil_cop::sources::bd::{self, BeadRaw, DependencyRaw};
use oil_cop::sources::gc;
use oil_cop::sources::git;
use oil_cop::sources::mocks::{MockBd, MockGc, MockGit};
use oil_cop::sources::proc::{friendly_error, truncate, ToolErrorEnvelope};

fn argv(inv: &oil_cop::sources::proc::Invocation) -> Vec<&str> {
    inv.args.iter().map(|s| s.as_str()).collect()
}

#[test]
fn friendly_error_surfaces_the_envelope_message_with_the_city_hint() {
    let args = vec!["rig".to_string(), "list".to_string(), "--json".to_string()];
    let envelope = ToolErrorEnvelope {
        code: Some("city_resolve_failed".to_string()),
        message: Some("gc rig list: not in a city directory (no city.toml or .gc/ found)".to_string()),
    };
    let msg = friendly_error("gc", &args, "exit status: 1", "{...}", Some(envelope));
    assert!(msg.contains("not in a city directory"));
    assert!(msg.contains("--city"));
    assert!(msg.contains(".oilcop.toml"));
    assert!(!msg.contains("schema_version"));
    assert!(msg.starts_with("`gc rig list --json`: "));
}

#[test]
fn friendly_error_falls_back_to_status_and_trimmed_stderr() {
    let args = vec!["status".to_string()];
    let msg = friendly_error("gc", &args, "exit status: 1", "  some plain text error\n", None);
    assert_eq!(msg, "`gc status` exited with exit status: 1: some plain text error");
}

#[test]
fn friendly_error_gives_no_hint_for_other_codes_and_falls_back_without_a_message() {
    let args = vec!["status".to_string()];
    let other = ToolErrorEnvelope { code: Some("boom".to_string()), message: Some("it broke".to_string()) };
    assert_eq!(friendly_error("bd", &args, "exit status: 2", "x", Some(other)), "`bd status`: it broke");
    let no_message = ToolErrorEnvelope { code: Some("city_resolve".to_string()), message: None };
    assert_eq!(
        friendly_error("bd", &args, "exit status: 2", "x", Some(no_message)),
        "`bd status` exited with exit status: 2: x"
    );
}

#[test]
fn truncate_keeps_at_most_max_bytes() {
    assert_eq!(truncate("hello world", 5), "hello");
    assert_eq!(truncate("hi", 5), "hi");
    assert_eq!(truncate("", 0), "");
}

#[test]
fn gc_invocations() {
    assert_eq!(argv(&gc::status(None)), vec!["status", "--json"]);
    assert_eq!(gc::status(None).bin, "gc");
    assert_eq!(argv(&gc::status(Some("/c"))), vec!["status", "--json", "--city", "/c"]);
    assert_eq!(argv(&gc::rig_list(None)), vec!["rig", "list", "--json"]);
    assert_eq!(argv(&gc::rig_status(Some("/c"), "lum")), vec!["rig", "status", "--rig", "lum", "--json", "--city", "/c"]);
    assert_eq!(argv(&gc::session_list(None)), vec!["session", "list", "--json"]);
    assert_eq!(argv(&gc::session_peek(None, "cc-1", 6)), vec!["session", "peek", "cc-1", "--lines", "6", "--json"]);
}

#[test]
fn bd_invocations() {
    let s = bd::status("/r");
    assert_eq!(s.bin, "bd");
    assert_eq!(argv(&s), vec!["-C", "/r", "status", "--json", "--no-activity"]);
    assert_eq!(argv(&bd::list("/r", "in_progress")), vec!["-C", "/r", "list", "--json", "--flat", "--status", "in_progress"]);
}

#[test]
fn git_invocations_and_answers() {
    let m = git::is_merged_args("/r", "origin/polecat/x", "origin/master");
    assert_eq!(m.bin, "git");
    assert_eq!(argv(&m), vec!["-C", "/r", "merge-base", "--is-ancestor", "origin/polecat/x", "origin/master"]);
    assert_eq!(git::remote_ref("master"), "origin/master");
    assert_eq!(argv(&git::fetch_args("/r")), vec!["-C", "/r", "fetch", "origin", "--quiet"]);
    assert_eq!(argv(&git::default_branch_args("/r")), vec!["-C", "/r", "symbolic-ref", "--short", "refs/remotes/origin/HEAD"]);
    assert_eq!(argv(&git::remote_branches_args("/r", "polecat/")), vec!["-C", "/r", "for-each-ref", "--format=%(refname:short)", "refs/remotes/origin/polecat/"]);
    assert_eq!(git::parse_default_branch("origin/main\n").as_deref(), Some("main"));
    assert_eq!(git::parse_default_branch("main\n"), None);
    assert_eq!(git::parse_default_branch("origin/"), None);
    assert_eq!(
        git::parse_remote_branches("origin/polecat/a\n  origin/polecat/b  \norigin/other\n\n", "polecat/"),
        vec!["polecat/a".to_string(), "polecat/b".to_string()]
    );
    assert!(git::is_merged_lenient(Ok(true)));
    assert!(!git::is_merged_lenient(Ok(false)));
    assert!(!git::is_merged_lenient(Err("not a git repository".to_string())));
}

fn bead_with(metadata: Vec<(&str, &str)>, deps: Vec<(&str, &str)>) -> BeadRaw {
    BeadRaw {
        id: "b-1".to_string(),
        title: "t".to_string(),
        status: "open".to_string(),
        priority: None,
        assignee: None,
        updated_at: None,
        started_at: None,
        parent: None,
        dependencies: deps
            .into_iter()
            .map(|(id, t)| DependencyRaw { depends_on_id: id.to_string(), dep_type: t.to_string() })
            .collect(),
        metadata: metadata.into_iter().map(|(k, v)| (k.to_string(), v.to_string())).collect(),
    }
}

#[test]
fn bead_metadata_and_blockers() {
    let b = bead_with(
        vec![("branch", "polecat/b-1"), ("gc.work_branch", "master")],
        vec![("p", "parent-child"), ("x", "blocks"), ("y", "blocks")],
    );
    assert_eq!(b.branch().as_deref(), Some("polecat/b-1"));
    assert_eq!(b.work_branch().as_deref(), Some("master"));
    assert_eq!(b.metadata_str("nope"), None);
    assert_eq!(b.blocked_by(), vec!["x".to_string(), "y".to_string()]);
}

fn rig(name: &str) -> gc::RigRaw {
    gc::RigRaw { name: name.to_string(), path: format!("/fake/{name}"), prefix: None, suspended: false, running: Some(true) }
}

#[test]
fn resolving_a_rig_by_name_finds_the_first_registered_one() {
    let listed = gc::RigListResult { rigs: vec![rig("a"), rig("b")] };
    let r = resolve_from("b", false, Ok(listed)).unwrap();
    assert_eq!(r.path, "/fake/b");
    let missing = resolve_from("zzz", false, Ok(gc::RigListResult { rigs: vec![] })).unwrap_err();
    assert_eq!(missing, "no rig named 'zzz' registered with this city, and it isn't a directory either");
    let failed = resolve_from("a", false, Err("gc failed".to_string())).unwrap_err();
    assert_eq!(failed, "gc failed");
    let dir = resolve_from("/some/dir", true, Err(String::new())).unwrap();
    assert_eq!(dir.name, "/some/dir");
    assert_eq!(dir.path, "/some/dir");
    assert_eq!(dir.running, None);
}

#[test]
fn adapters_resolve_rig_through_the_rig_list() {
    let adapters = Adapters {
        gc: MockGc { rig_list: Some(gc::RigListResult { rigs: vec![rig("luminate-test-rig")] }), ..MockGc::default() },
        bd: MockBd::default(),
        git: MockGit::default(),
    };
    let r = adapters.resolve_rig(None, "luminate-test-rig").unwrap();
    assert_eq!(r.path, "/fake/luminate-test-rig");
    assert!(adapters.resolve_rig(None, "not-a-rig-here").is_err());
}

#[test]
fn fetches_are_throttled_per_rig_path() {
    let mut log = git::FetchLog::new();
    assert!(log.due("/r", 1000));
    log.record("/r", 1000);
    assert!(!log.due("/r", 1000));
    assert!(!log.due("/r", 1029));
    assert!(log.due("/r", 1030));
    assert!(log.due("/other", 1000));
    log.record("/other", 1010);
    log.record("/r", 1040);
    assert!(!log.due("/r", 1060));
    assert!(log.due("/other", 1040));
}

#[test]
fn mock_git_answers_from_the_first_matching_entry() {
    let key = |d: &str, b: &str, t: &str| (d.to_string(), b.to_string(), t.to_string());
    let git = MockGit {
        merged: vec![(key("/r", "b", "main"), true), (key("/r", "b", "main"), false), (key("/r", "c", "main"), false)],
        default_branch: vec![],
        remote_branches: vec![
            (("/r".to_string(), "p/".to_string()), vec!["p/1".to_string(), "p/2".to_string()]),
            (("/r".to_string(), "p/".to_string()), vec![]),
        ],
    };
    assert!(git.is_merged("/r", "b", "main"));
    assert!(!git.is_merged("/r", "c", "main"));
    assert!(!git.is_merged("/x", "b", "main"));
    assert_eq!(git.remote_branches("/r", "p/"), vec!["p/1".to_string(), "p/2".to_string()]);
    assert!(git.remote_branches("/r", "q/").is_empty());
}
