use heyday::domain::{Event, PackageId, PackageSummary, Progress, SortMode, Source, Stage};
use heyday::reducer::{initial_state, reduce, Action, AppState, MAX_LOG};

fn pkg(name: &str, source: Source, installed: bool, pop: Option<u32>) -> PackageSummary {
    PackageSummary {
        id: PackageId { name: name.to_string(), source },
        version: "1.0".to_string(),
        description: format!("{name} package"),
        installed,
        popular: pop,
        last_updated: None,
    }
}

fn names(s: &AppState) -> Vec<String> {
    s.results.iter().map(|r| r.id.name.clone()).collect()
}

#[test]
fn initial_state_has_both_sources_and_name_order() {
    let s = initial_state();
    assert!(s.filter_repo);
    assert!(s.filter_aur);
    assert!(!s.filter_installed);
    assert!(matches!(s.sort, SortMode::NameAsc));
    assert_eq!(s.query, "");
    assert!(s.results.is_empty());
    assert!(s.selected.is_none());
    assert!(s.error.is_none());
}

#[test]
fn default_state_uses_popularity_order() {
    let s = AppState::default();
    assert!(matches!(s.sort, SortMode::Popularity));
    assert!(!s.filter_repo);
}

#[test]
fn toggle_filter_repo_twice_restores_it() {
    let s = initial_state();
    let before = s.filter_repo;
    let (s, _) = reduce(s, Action::ToggleFilterRepo);
    assert_eq!(s.filter_repo, !before);
    let (s, _) = reduce(s, Action::ToggleFilterRepo);
    assert_eq!(s.filter_repo, before);
}

#[test]
fn search_results_redispatch_is_idempotent() {
    let s = initial_state();
    let items = vec![
        pkg("zlib", Source::Repo, true, Some(5)),
        pkg("firefox", Source::Aur, false, Some(9)),
    ];
    let ev = Event::SearchResults { query: String::new(), items };
    let mk = |e: &Event| match e {
        Event::SearchResults { query, items } => Event::SearchResults {
            query: query.clone(),
            items: items.clone(),
        },
        _ => unreachable!(),
    };
    let (s1, _) = reduce(s, Action::Event(mk(&ev)));
    let first = names(&s1);
    let (s2, _) = reduce(s1, Action::Event(mk(&ev)));
    assert_eq!(names(&s2), first);
}

#[test]
fn filter_pipeline_example_repo_only_name_ascending() {
    let s = initial_state();
    let (s, _) = reduce(s, Action::ToggleFilterAur);
    assert!(!s.filter_aur);
    let items = vec![
        pkg("firefox", Source::Repo, false, None),
        pkg("firefox-esr", Source::Repo, false, None),
        pkg("firefox-nightly", Source::Aur, false, None),
    ];
    let (s, _) = reduce(
        s,
        Action::Event(Event::SearchResults { query: String::new(), items }),
    );
    assert_eq!(names(&s), vec!["firefox".to_string(), "firefox-esr".to_string()]);
}

#[test]
fn query_filter_matches_name_or_description_case_insensitively() {
    let s = initial_state();
    let (s, _) = reduce(s, Action::SetQuery("FIRE".to_string()));
    let items = vec![
        pkg("firefox", Source::Repo, false, None),
        pkg("zlib", Source::Repo, false, None),
        PackageSummary {
            id: PackageId { name: "hotspot".to_string(), source: Source::Repo },
            version: "1".to_string(),
            description: "A Firewall tool".to_string(),
            installed: false,
            popular: None,
            last_updated: None,
        },
    ];
    let (s, _) = reduce(
        s,
        Action::Event(Event::SearchResults { query: String::new(), items }),
    );
    assert_eq!(names(&s), vec!["firefox".to_string(), "hotspot".to_string()]);
}

#[test]
fn installed_filter_keeps_installed_rows_only() {
    let s = initial_state();
    let (s, _) = reduce(s, Action::ToggleFilterInstalled);
    let items = vec![
        pkg("alpha", Source::Repo, true, None),
        pkg("beta", Source::Repo, false, None),
    ];
    let (s, _) = reduce(
        s,
        Action::Event(Event::SearchResults { query: String::new(), items }),
    );
    assert_eq!(names(&s), vec!["alpha".to_string()]);
}

#[test]
fn sort_modes_order_results() {
    let items = || {
        vec![
            pkg("beta", Source::Repo, false, Some(3)),
            pkg("alpha", Source::Repo, false, Some(1)),
            pkg("gamma", Source::Repo, false, Some(7)),
        ]
    };
    let s = initial_state();
    let (s, _) = reduce(s, Action::SetSort(SortMode::NameDesc));
    let (s, _) = reduce(
        s,
        Action::Event(Event::SearchResults { query: String::new(), items: items() }),
    );
    assert_eq!(
        names(&s),
        vec!["gamma".to_string(), "beta".to_string(), "alpha".to_string()]
    );
    let (s, _) = reduce(s, Action::SetSort(SortMode::Popularity));
    let (s, _) = reduce(
        s,
        Action::Event(Event::SearchResults { query: String::new(), items: items() }),
    );
    assert_eq!(
        names(&s),
        vec!["gamma".to_string(), "beta".to_string(), "alpha".to_string()]
    );
}

#[test]
fn popularity_sort_is_stable_for_ties_and_missing_counts_as_zero() {
    let items = vec![
        pkg("first", Source::Repo, false, None),
        pkg("second", Source::Repo, false, Some(0)),
        pkg("top", Source::Repo, false, Some(2)),
    ];
    let s = initial_state();
    let (s, _) = reduce(s, Action::SetSort(SortMode::Popularity));
    let (s, _) = reduce(
        s,
        Action::Event(Event::SearchResults { query: String::new(), items }),
    );
    assert_eq!(
        names(&s),
        vec!["top".to_string(), "first".to_string(), "second".to_string()]
    );
}

#[test]
fn selection_kept_when_still_present() {
    let s = initial_state();
    let id = PackageId { name: "firefox".to_string(), source: Source::Repo };
    let (s, _) = reduce(s, Action::Select(id.clone()));
    let items = vec![pkg("firefox", Source::Repo, false, None)];
    let (s, _) = reduce(
        s,
        Action::Event(Event::SearchResults { query: String::new(), items }),
    );
    assert_eq!(s.selected, Some(id));
}

#[test]
fn selection_cleared_when_excluded() {
    let s = initial_state();
    let id = PackageId { name: "firefox".to_string(), source: Source::Repo };
    let (s, _) = reduce(s, Action::Select(id));
    let items = vec![pkg("zlib", Source::Repo, false, None)];
    let (s, _) = reduce(
        s,
        Action::Event(Event::SearchResults { query: String::new(), items }),
    );
    assert!(s.selected.is_none());
}

#[test]
fn search_action_sends_trimmed_query_job() {
    let s = initial_state();
    let (s, _) = reduce(s, Action::SetQuery("  rust  ".to_string()));
    let (s, req) = reduce(s, Action::Search);
    let req = req.expect("a search job");
    assert!(matches!(req.kind, heyday::domain::JobKind::Search));
    match req.payload {
        heyday::domain::JobPayload::Query(q) => assert_eq!(q, "rust"),
        _ => panic!("expected a query payload"),
    }
    assert!(!s.in_upgrades_view);
}

#[test]
fn empty_search_clears_results_and_selection() {
    let s = initial_state();
    let items = vec![pkg("zlib", Source::Repo, false, None)];
    let (s, _) = reduce(
        s,
        Action::Event(Event::SearchResults { query: String::new(), items }),
    );
    assert_eq!(s.results.len(), 1);
    let (s, req) = reduce(s, Action::Search);
    assert!(req.is_some());
    assert!(s.results.is_empty());
    assert!(s.selected.is_none());
}

#[test]
fn system_changed_in_upgrades_view_requeues_upgrades() {
    let s = initial_state();
    let (s, req) = reduce(s, Action::Upgrades);
    assert!(matches!(
        req.expect("job").kind,
        heyday::domain::JobKind::Upgrades
    ));
    assert!(s.in_upgrades_view);
    let (_, req) = reduce(s, Action::Event(Event::SystemChanged));
    assert!(matches!(
        req.expect("job").kind,
        heyday::domain::JobKind::Upgrades
    ));
}

#[test]
fn system_changed_with_query_requeues_search() {
    let s = initial_state();
    let (s, _) = reduce(s, Action::SetQuery("rust".to_string()));
    let (_, req) = reduce(s, Action::Event(Event::SystemChanged));
    let req = req.expect("job");
    assert!(matches!(req.kind, heyday::domain::JobKind::Search));
    match req.payload {
        heyday::domain::JobPayload::Query(q) => assert_eq!(q, "rust"),
        _ => panic!("expected a query payload"),
    }
}

#[test]
fn system_changed_idle_sends_nothing() {
    let s = initial_state();
    let (_, req) = reduce(s, Action::Event(Event::SystemChanged));
    assert!(req.is_none());
}

#[test]
fn failed_progress_sets_sticky_error() {
    let s = initial_state();
    let p = Progress {
        job_id: 1,
        stage: Stage::Failed,
        percent: Some(100),
        bytes: None,
        log: Some("network: down".to_string()),
        warning: true,
    };
    let (s, _) = reduce(s, Action::Progress(p));
    assert_eq!(s.error.as_deref(), Some("operation failed"));
    // sticky until cleared
    let p2 = Progress {
        job_id: 2,
        stage: Stage::Finished,
        percent: Some(100),
        bytes: None,
        log: None,
        warning: false,
    };
    let (s, _) = reduce(s, Action::Progress(p2));
    assert_eq!(s.error.as_deref(), Some("operation failed"));
    let (s, _) = reduce(s, Action::ClearError);
    assert!(s.error.is_none());
}

#[test]
fn progress_log_appends_line_and_newline() {
    let s = initial_state();
    let p = Progress {
        job_id: 1,
        stage: Stage::Downloading,
        percent: None,
        bytes: None,
        log: Some("hello".to_string()),
        warning: false,
    };
    let (s, _) = reduce(s, Action::Progress(p));
    assert_eq!(s.progress_log, b"hello\n".to_vec());
}

#[test]
fn log_overflow_drops_only_the_oldest_bytes() {
    let mut s = initial_state();
    let a = "a".repeat(200_000);
    let b = "b".repeat(100_000);
    for line in [a, b] {
        let p = Progress {
            job_id: 1,
            stage: Stage::Building,
            percent: None,
            bytes: None,
            log: Some(line),
            warning: false,
        };
        let (next, _) = reduce(s, Action::Progress(p));
        s = next;
    }
    assert_eq!(s.progress_log.len(), MAX_LOG);
    // the most recently appended bytes are intact at the young end
    let tail = &s.progress_log[s.progress_log.len() - 100_001..];
    assert!(tail[..100_000].iter().all(|&c| c == b'b'));
    assert_eq!(tail[100_000], b'\n');
    // what remains of the old content sits at the oldest end, truncated at its start
    assert!(s.progress_log[..10].iter().all(|&c| c == b'a'));
}

#[test]
fn toggle_log_and_clear_selection() {
    let s = initial_state();
    let (s, _) = reduce(s, Action::ToggleLog);
    assert!(s.log_expanded);
    let id = PackageId { name: "x".to_string(), source: Source::Aur };
    let (s, _) = reduce(s, Action::Select(id));
    assert!(s.selected.is_some());
    let (s, _) = reduce(s, Action::ClearSelection);
    assert!(s.selected.is_none());
}

#[test]
fn mutating_intents_mint_jobs() {
    let id = PackageId { name: "zlib".to_string(), source: Source::Repo };
    let s = initial_state();
    let (s, req) = reduce(s, Action::Install(id.clone()));
    assert!(matches!(
        req.expect("job").kind,
        heyday::domain::JobKind::Install
    ));
    let (s, req) = reduce(s, Action::Remove(id.clone()));
    assert!(matches!(
        req.expect("job").kind,
        heyday::domain::JobKind::Remove
    ));
    let (s, req) = reduce(s, Action::Upgrade(id));
    assert!(matches!(
        req.expect("job").kind,
        heyday::domain::JobKind::Upgrade
    ));
    let (_, req) = reduce(s, Action::UpgradeAll);
    assert!(matches!(
        req.expect("job").kind,
        heyday::domain::JobKind::UpgradeAll
    ));
}

#[test]
fn equal_names_keep_their_input_order() {
    let items = vec![
        pkg("firefox", Source::Aur, false, None),
        pkg("firefox", Source::Repo, false, None),
    ];
    let s = initial_state();
    let (s, _) = reduce(
        s,
        Action::Event(Event::SearchResults { query: String::new(), items }),
    );
    assert_eq!(s.results.len(), 2);
    assert!(matches!(s.results[0].id.source, Source::Aur));
    assert!(matches!(s.results[1].id.source, Source::Repo));
}

#[test]
fn upgrades_event_honours_filters_and_keeps_a_surviving_selection() {
    let s = initial_state();
    let id = PackageId { name: "zlib".to_string(), source: Source::Repo };
    let (s, _) = reduce(s, Action::Select(id.clone()));
    let items = vec![
        pkg("zlib", Source::Repo, true, None),
        pkg("brave-bin", Source::Aur, true, None),
    ];
    let (s, _) = reduce(s, Action::Event(Event::Upgrades { items }));
    assert!(s.in_upgrades_view);
    assert_eq!(
        names(&s),
        vec!["brave-bin".to_string(), "zlib".to_string()]
    );
    assert_eq!(s.selected, Some(id));
}
