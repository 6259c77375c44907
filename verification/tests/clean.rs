use nh::clean::{
    cleanable_generations, classify_gcroot, compute_plan, decide_actions, filter_existing_dirs,
    gen_link_parts, profiles_in_dir, removal_paths, render_report, tag_gcroots, Action, CleanArgs,
    CleanError, DirEntry, GcRootEntry, LinkEntry, Plan, ProfileListing,
};

fn entry(name: &str, lm: u64) -> DirEntry {
    DirEntry { name: name.to_string(), last_modified: Some(lm) }
}

fn ten_generations() -> Vec<DirEntry> {
    let mut v = Vec::new();
    for i in 1..=10u64 {
        v.push(entry(&format!("system-{}-link", i), 1000 + i));
    }
    v
}

fn args(keep: u32, keep_since: u64, dry: bool, ask: bool) -> CleanArgs {
    CleanArgs {
        keep,
        keep_since,
        dry,
        ask,
        no_gc: false,
        no_gcroots: false,
        optimise: false,
        max: None,
    }
}

#[test]
fn keep_three_retains_newest_three() {
    // generations 1..10, keep=3, keep_since=0: 8, 9, 10 stay, 1..7 go
    let gens = ten_generations();
    let tagged = cleanable_generations("/nix/var/nix/profiles/system", 3, 0, 100_000, &gens)
        .unwrap();
    assert_eq!(tagged.entries.len(), 10);
    for (idx, t) in tagged.entries.iter().enumerate() {
        let number = t.generation.number;
        assert_eq!(number, idx as u64 + 1);
        if number >= 8 {
            assert!(!t.remove, "generation {} must be retained", number);
        } else {
            assert!(t.remove, "generation {} must be removed", number);
        }
    }
}

#[test]
fn age_rule_rescues_old_generation() {
    // keep=1 with a 48-hour window: the newest stays by count, and any
    // generation modified within the window stays by age
    let now = 1_000_000u64;
    let window = 48 * 3600u64;
    let mut gens = Vec::new();
    for i in 1..=10u64 {
        let lm = if i == 2 { now - 100 } else { 1000 + i };
        gens.push(entry(&format!("system-{}-link", i), lm));
    }
    let tagged = cleanable_generations("/nix/var/nix/profiles/system", 1, window, now, &gens)
        .unwrap();
    for t in &tagged.entries {
        let number = t.generation.number;
        let expect_kept = number == 10 || number == 2;
        assert_eq!(!t.remove, expect_kept, "generation {}", number);
    }
}

#[test]
fn unknown_or_future_timestamps_are_kept() {
    let now = 10_000u64;
    let gens = vec![
        DirEntry { name: "p-1-link".into(), last_modified: None },
        DirEntry { name: "p-2-link".into(), last_modified: Some(now + 500) },
        DirEntry { name: "p-3-link".into(), last_modified: Some(10) },
    ];
    let tagged = cleanable_generations("/x/p", 0, 0, now, &gens).unwrap();
    assert!(!tagged.entries[0].remove, "unknown timestamp fails safe");
    assert!(!tagged.entries[1].remove, "future timestamp fails safe");
    assert!(tagged.entries[2].remove, "dateable old generation goes");
}

#[test]
fn foreign_and_malformed_entries_are_ignored() {
    let gens = vec![
        entry("system-1-link", 10),
        entry("other-2-link", 10),
        entry("system-x-link", 10),
        entry("system-3-link-stale", 10),
        entry("notalink", 10),
        entry("system-99999999999999999999-link", 10),
    ];
    let tagged = cleanable_generations("/p/system", 0, 0, 100, &gens).unwrap();
    assert_eq!(tagged.entries.len(), 1);
    assert_eq!(tagged.entries[0].generation.number, 1);
    assert_eq!(tagged.entries[0].generation.path, "/p/system-1-link");
}

#[test]
fn empty_profile_name_is_rejected() {
    let gens: Vec<DirEntry> = Vec::new();
    let r = cleanable_generations("/nix/var/nix/profiles/", 1, 0, 100, &gens);
    assert_eq!(r.unwrap_err(), CleanError::EmptyProfileName);
}

#[test]
fn profile_with_no_generations_is_empty_not_an_error() {
    let gens: Vec<DirEntry> = Vec::new();
    let tagged = cleanable_generations("/p/system", 1, 0, 100, &gens).unwrap();
    assert!(tagged.entries.is_empty());
}

#[test]
fn equal_numbers_both_survive_scanning() {
    // two spellings of the same number; the engine keeps both entries
    let gens = vec![entry("p-01-link", 10), entry("p-1-link", 20)];
    let tagged = cleanable_generations("/x/p", 0, 0, 100, &gens).unwrap();
    assert_eq!(tagged.entries.len(), 2);
    assert_eq!(tagged.entries[0].generation.number, 1);
    assert_eq!(tagged.entries[1].generation.number, 1);
}

#[test]
fn gen_link_parts_greedy_stem() {
    assert_eq!(
        gen_link_parts("home-manager-123-link"),
        Some(("home-manager".to_string(), "123".to_string()))
    );
    assert_eq!(gen_link_parts("a-1-link-2-link"), Some(("a-1-link".to_string(), "2".to_string())));
    assert_eq!(gen_link_parts("1-link"), None);
    assert_eq!(gen_link_parts("a-link"), None);
    assert_eq!(gen_link_parts("a-1link"), None);
}

#[test]
fn profiles_in_dir_keeps_generation_links_only() {
    let entries = vec![
        LinkEntry {
            path: "/d/system".into(),
            target: Some("system-42-link".into()),
        },
        LinkEntry {
            path: "/d/readme".into(),
            target: None,
        },
        LinkEntry {
            path: "/d/other".into(),
            target: Some("/store/xyz".into()),
        },
    ];
    assert_eq!(profiles_in_dir(&entries), vec!["/d/system"]);
}

#[test]
fn filter_existing_dirs_drops_missing() {
    let probed = vec![
        ("/a".to_string(), true),
        ("/b".to_string(), false),
        ("/c".to_string(), true),
    ];
    assert_eq!(filter_existing_dirs(&probed), vec!["/a", "/c"]);
}

#[test]
fn tracked_roots_appear_untracked_never_do() {
    // a result link and a per-directory environment cache are classified;
    // an arbitrary system file never appears at all
    assert!(classify_gcroot("/home/u/code/result"));
    assert!(classify_gcroot("/home/u/proj/.direnv/flake-profile"));
    // the cache pattern leaves one character free before its name
    assert!(classify_gcroot("/a/xdirenv/y"));
    assert!(!classify_gcroot("direnv/entry"));
    assert!(!classify_gcroot("/etc/passwd"));

    let now = 1_000_000u64;
    let roots = vec![
        GcRootEntry {
            destination: "/home/u/code/result".into(),
            writable_and_exists: true,
            last_modified: Some(now - 10),
        },
        GcRootEntry {
            destination: "/home/u/old/result-bin".into(),
            writable_and_exists: true,
            last_modified: Some(now - 10_000),
        },
        GcRootEntry {
            destination: "/etc/passwd".into(),
            writable_and_exists: true,
            last_modified: Some(now - 10),
        },
        GcRootEntry {
            destination: "/home/u/stale/result".into(),
            writable_and_exists: false,
            last_modified: Some(now - 10),
        },
    ];
    let tagged = tag_gcroots(&roots, 3600, now);
    assert_eq!(tagged.len(), 2);
    assert_eq!(tagged[0], ("/home/u/code/result".to_string(), false));
    assert_eq!(tagged[1], ("/home/u/old/result-bin".to_string(), true));
}

#[test]
fn second_run_removes_nothing() {
    // idempotence: apply the first run's removals, rescan, and nothing is
    // scheduled any more
    let now = 100_000u64;
    let gens = ten_generations();
    let first = cleanable_generations("/p/system", 3, 0, now, &gens).unwrap();
    let survivors: Vec<DirEntry> = gens
        .iter()
        .filter(|e| {
            first
                .entries
                .iter()
                .any(|t| !t.remove && t.generation.path == format!("/p/{}", e.name))
        })
        .cloned()
        .collect();
    assert_eq!(survivors.len(), 3);
    let second = cleanable_generations("/p/system", 3, 0, now, &survivors).unwrap();
    assert_eq!(second.entries.len(), 3);
    for t in &second.entries {
        assert!(!t.remove, "second run must retain generation {}", t.generation.number);
    }
}

fn small_plan(keep: u32, keep_since: u64) -> Plan {
    let profiles = vec![ProfileListing {
        profile: "/p/system".to_string(),
        entries: vec![entry("system-1-link", 10), entry("system-2-link", 20)],
    }];
    let roots = vec![GcRootEntry {
        destination: "/w/result".into(),
        writable_and_exists: true,
        last_modified: Some(50),
    }];
    compute_plan(&profiles, &roots, true, keep, keep_since, 100_000).unwrap()
}

#[test]
fn dry_run_report_is_identical_and_mutates_nothing() {
    let plan_wet = small_plan(1, 0);
    let plan_dry = small_plan(1, 0);
    let report_wet = render_report(&plan_wet, 1, 0);
    let report_dry = render_report(&plan_dry, 1, 0);
    assert_eq!(report_wet, report_dry);

    let wet = decide_actions(&plan_wet, &args(1, 0, false, false), None).unwrap();
    let dry = decide_actions(&plan_dry, &args(1, 0, true, false), None).unwrap();
    assert!(wet.iter().any(|a| matches!(a, Action::DeletePath { .. })));
    assert!(dry.iter().all(|a| !matches!(a, Action::DeletePath { .. })));
    // the collector still runs in both, told whether this is a dry run
    assert!(matches!(wet.last().unwrap(), Action::CollectGarbage { dry: false, .. }));
    assert!(matches!(dry.last().unwrap(), Action::CollectGarbage { dry: true, .. }));
}

#[test]
fn rejecting_the_plan_aborts_with_no_actions() {
    let plan = small_plan(1, 0);
    let a = args(1, 0, false, true);
    assert_eq!(decide_actions(&plan, &a, Some(false)).unwrap_err(), CleanError::UserRejected);
    assert_eq!(decide_actions(&plan, &a, None).unwrap_err(), CleanError::UserRejected);
    let accepted = decide_actions(&plan, &a, Some(true)).unwrap();
    assert!(!accepted.is_empty());
}

#[test]
fn one_failed_deletion_leaves_the_rest_standing() {
    // the action list is fixed before anything runs: simulate an executor
    // whose first deletion fails and check every other entity is still
    // attempted, and the collector still follows
    let plan = small_plan(0, 0);
    let expected_removals = removal_paths(&plan);
    assert!(expected_removals.len() >= 3);
    let actions = decide_actions(&plan, &args(0, 0, false, false), None).unwrap();

    let mut attempted: Vec<String> = Vec::new();
    let mut collector_ran = false;
    let mut injected_failure = false;
    for action in &actions {
        match action {
            Action::DeletePath { path } => {
                if !injected_failure {
                    // simulated permission denial: log and carry on
                    injected_failure = true;
                }
                attempted.push(path.clone());
            }
            Action::CollectGarbage { .. } => collector_ran = true,
            Action::OptimiseStore { .. } => {}
        }
    }
    assert!(injected_failure);
    assert_eq!(attempted, expected_removals);
    assert!(collector_ran);
}

#[test]
fn removal_order_is_roots_then_generations_newest_first() {
    let plan = small_plan(0, 0);
    let paths = removal_paths(&plan);
    assert_eq!(
        paths,
        vec!["/w/result", "/p/system-2-link", "/p/system-1-link"]
    );
}

#[test]
fn report_lists_every_entity_with_its_tag() {
    let plan = small_plan(1, 0);
    let lines = render_report(&plan, 1, 0);
    let expected: Vec<String> = vec![
        "".into(),
        "Welcome to nh clean".into(),
        "Keeping 1 generation(s)".into(),
        "Keeping paths newer than 0s".into(),
        "".into(),
        "legend:".into(),
        "RE: path regular expression to be matched".into(),
        "OK: path to be kept".into(),
        "DEL: path to be removed".into(),
        "".into(),
        "gcroots (matching the following regex patterns)".into(),
        "- RE  .*/.direnv/.*".into(),
        "- RE  .*result.*".into(),
        "- DEL /w/result".into(),
        "".into(),
        "/p/system".into(),
        "- OK  /p/system-2-link".into(),
        "- DEL /p/system-1-link".into(),
        "".into(),
    ];
    assert_eq!(lines, expected);
}

#[test]
fn suppressed_collector_and_optimiser_flags() {
    let plan = small_plan(1, 0);
    let mut a = args(1, 0, false, false);
    a.no_gc = true;
    a.optimise = true;
    a.max = Some("1G".to_string());
    let actions = decide_actions(&plan, &a, None).unwrap();
    assert!(actions.iter().all(|x| !matches!(x, Action::CollectGarbage { .. })));
    assert!(matches!(actions.last().unwrap(), Action::OptimiseStore { dry: false }));

    let mut b = args(1, 0, false, false);
    b.max = Some("1G".to_string());
    let actions2 = decide_actions(&plan, &b, None).unwrap();
    match actions2.last().unwrap() {
        Action::CollectGarbage { max, dry } => {
            assert_eq!(max.as_deref(), Some("1G"));
            assert!(!dry);
        }
        _ => panic!("collector must come last"),
    }
}
