use std::sync::atomic::{AtomicUsize, Ordering};
use std::sync::Arc;

use heyday::backend::{PackageBackend, ProgressSink};
use heyday::domain::{
    CancelToken, Error, Event, Job, JobKind, JobPayload, PackageDetails, PackageId,
    PackageSummary, Progress, Source, Stage,
};
use heyday::executor::{combine_results, Executor};

fn pkg(name: &str, source: Source) -> PackageSummary {
    PackageSummary {
        id: PackageId { name: name.to_string(), source },
        version: "1.0".to_string(),
        description: String::new(),
        installed: false,
        popular: None,
        last_updated: None,
    }
}

/// A provider stub: canned answers, call counters.
struct MockBackend {
    search_items: Vec<PackageSummary>,
    fail: bool,
    search_calls: Arc<AtomicUsize>,
    mutate_calls: Arc<AtomicUsize>,
    details_calls: Arc<AtomicUsize>,
}

impl MockBackend {
    fn new(search_items: Vec<PackageSummary>, fail: bool) -> MockBackend {
        MockBackend {
            search_items,
            fail,
            search_calls: Arc::new(AtomicUsize::new(0)),
            mutate_calls: Arc::new(AtomicUsize::new(0)),
            details_calls: Arc::new(AtomicUsize::new(0)),
        }
    }

    fn outcome(&self) -> Result<Vec<PackageSummary>, Error> {
        if self.fail {
            Err(Error::Network("down".to_string()))
        } else {
            Ok(self.search_items.clone())
        }
    }
}

impl PackageBackend for MockBackend {
    fn refresh(&self, _sink: &ProgressSink, _cancel: &CancelToken) -> Result<(), Error> {
        Ok(())
    }

    fn search(
        &self,
        _q: &str,
        _sink: &ProgressSink,
        _cancel: &CancelToken,
    ) -> Result<Vec<PackageSummary>, Error> {
        self.search_calls.fetch_add(1, Ordering::SeqCst);
        self.outcome()
    }

    fn details(
        &self,
        id: &PackageId,
        _sink: &ProgressSink,
        _cancel: &CancelToken,
    ) -> Result<PackageDetails, Error> {
        self.details_calls.fetch_add(1, Ordering::SeqCst);
        Ok(PackageDetails {
            summary: pkg(&id.name, id.source),
            depends: vec![],
            opt_depends: vec![],
            homepage: None,
            maintainer: None,
            size_install: None,
            size_download: None,
        })
    }

    fn install(&self, _id: &PackageId, _sink: &ProgressSink, _cancel: &CancelToken) -> Result<(), Error> {
        self.mutate_calls.fetch_add(1, Ordering::SeqCst);
        if self.fail {
            Err(Error::Priv("install exit 1".to_string()))
        } else {
            Ok(())
        }
    }

    fn remove(&self, _id: &PackageId, _sink: &ProgressSink, _cancel: &CancelToken) -> Result<(), Error> {
        self.mutate_calls.fetch_add(1, Ordering::SeqCst);
        Ok(())
    }

    fn upgrades(&self, _sink: &ProgressSink, _cancel: &CancelToken) -> Result<Vec<PackageSummary>, Error> {
        self.outcome()
    }

    fn upgrade(&self, _id: &PackageId, _sink: &ProgressSink, _cancel: &CancelToken) -> Result<(), Error> {
        self.mutate_calls.fetch_add(1, Ordering::SeqCst);
        Ok(())
    }

    fn upgrade_all(&self, _sink: &ProgressSink, _cancel: &CancelToken) -> Result<(), Error> {
        self.mutate_calls.fetch_add(1, Ordering::SeqCst);
        Ok(())
    }
}

struct Run {
    progress: Vec<Progress>,
    events: Vec<Event>,
}

fn run_jobs(repo: MockBackend, aur: MockBackend, jobs: Vec<Job>) -> Run {
    let (tx_jobs, rx_jobs) = crossbeam_channel::unbounded();
    let (tx_prog, rx_prog) = crossbeam_channel::unbounded();
    let (tx_evt, rx_evt) = crossbeam_channel::unbounded();
    let exec = Executor::new(repo, aur, tx_prog, tx_evt, rx_jobs);
    for j in jobs {
        tx_jobs.send(j).unwrap();
    }
    drop(tx_jobs);
    while !exec.step() {}
    Run {
        progress: rx_prog.try_iter().collect(),
        events: rx_evt.try_iter().collect(),
    }
}

fn job(id: u64, kind: JobKind, payload: JobPayload) -> Job {
    Job { id, kind, payload, created_at: 0, cancel: CancelToken::new() }
}

#[test]
fn short_query_skips_all_providers_and_publishes_empty_results() {
    let repo = MockBackend::new(vec![pkg("a", Source::Repo)], false);
    let aur = MockBackend::new(vec![pkg("b", Source::Aur)], false);
    let repo_calls = repo.search_calls.clone();
    let aur_calls = aur.search_calls.clone();
    let out = run_jobs(
        repo,
        aur,
        vec![job(1, JobKind::Search, JobPayload::Query(" a ".to_string()))],
    );
    assert_eq!(repo_calls.load(Ordering::SeqCst), 0);
    assert_eq!(aur_calls.load(Ordering::SeqCst), 0);
    assert_eq!(out.events.len(), 1);
    match &out.events[0] {
        Event::SearchResults { query, items } => {
            assert_eq!(query, "a");
            assert!(items.is_empty());
        },
        _ => panic!("expected search results"),
    }
    // queued, then finished
    assert!(matches!(out.progress.first().unwrap().stage, Stage::Queued));
    let last = out.progress.last().unwrap();
    assert!(matches!(last.stage, Stage::Finished));
    assert_eq!(last.percent, Some(100));
    assert!(!last.warning);
}

#[test]
fn one_failing_provider_degrades_to_a_warning_with_partial_results() {
    let repo = MockBackend::new(vec![], true);
    let aur = MockBackend::new(vec![pkg("beta", Source::Aur), pkg("alpha", Source::Aur)], false);
    let out = run_jobs(
        repo,
        aur,
        vec![job(7, JobKind::Search, JobPayload::Query("term".to_string()))],
    );
    match &out.events[0] {
        Event::SearchResults { items, .. } => {
            let names: Vec<&str> = items.iter().map(|p| p.id.name.as_str()).collect();
            assert_eq!(names, vec!["alpha", "beta"]);
        },
        _ => panic!("expected search results"),
    }
    let warnings: Vec<&Progress> = out.progress.iter().filter(|p| p.warning).collect();
    assert_eq!(warnings.len(), 1);
    assert_eq!(
        warnings[0].log.as_deref(),
        Some("repo search failed: network: down")
    );
    assert!(matches!(out.progress.last().unwrap().stage, Stage::Finished));
}

#[test]
fn all_providers_failing_fails_the_job() {
    let repo = MockBackend::new(vec![], true);
    let aur = MockBackend::new(vec![], true);
    let out = run_jobs(
        repo,
        aur,
        vec![job(9, JobKind::Search, JobPayload::Query("term".to_string()))],
    );
    assert!(out.events.is_empty());
    let last = out.progress.last().unwrap();
    assert!(matches!(last.stage, Stage::Failed));
    assert!(last.warning);
    assert_eq!(last.log.as_deref(), Some("alpm: all backends failed"));
    assert_eq!(last.percent, Some(100));
}

#[test]
fn successful_mutation_publishes_system_changed_before_the_terminal_progress() {
    let repo = MockBackend::new(vec![], false);
    let aur = MockBackend::new(vec![], false);
    let repo_mutations = repo.mutate_calls.clone();
    let id = PackageId { name: "zlib".to_string(), source: Source::Repo };
    let out = run_jobs(
        repo,
        aur,
        vec![job(3, JobKind::Install, JobPayload::Package(id))],
    );
    assert_eq!(repo_mutations.load(Ordering::SeqCst), 1);
    assert!(matches!(out.events[0], Event::SystemChanged));
    assert!(matches!(out.progress.last().unwrap().stage, Stage::Finished));
}

#[test]
fn failed_mutation_publishes_no_system_changed() {
    let repo = MockBackend::new(vec![], true);
    let aur = MockBackend::new(vec![], false);
    let id = PackageId { name: "zlib".to_string(), source: Source::Repo };
    let out = run_jobs(
        repo,
        aur,
        vec![job(3, JobKind::Install, JobPayload::Package(id))],
    );
    assert!(out.events.is_empty());
    let last = out.progress.last().unwrap();
    assert!(matches!(last.stage, Stage::Failed));
    assert_eq!(last.log.as_deref(), Some("privilege: install exit 1"));
}

#[test]
fn details_dispatch_follows_the_payload_source() {
    let repo = MockBackend::new(vec![], false);
    let aur = MockBackend::new(vec![], false);
    let repo_details = repo.details_calls.clone();
    let aur_details = aur.details_calls.clone();
    let id = PackageId { name: "brave-bin".to_string(), source: Source::Aur };
    let out = run_jobs(
        repo,
        aur,
        vec![job(4, JobKind::Details, JobPayload::Package(id))],
    );
    assert_eq!(repo_details.load(Ordering::SeqCst), 0);
    assert_eq!(aur_details.load(Ordering::SeqCst), 1);
    match &out.events[0] {
        Event::Details { item } => assert_eq!(item.summary.id.name, "brave-bin"),
        _ => panic!("expected details"),
    }
}

#[test]
fn upgrades_fan_out_merges_and_sorts_both_providers() {
    let repo = MockBackend::new(vec![pkg("zlib", Source::Repo)], false);
    let aur = MockBackend::new(vec![pkg("brave-bin", Source::Aur)], false);
    let out = run_jobs(repo, aur, vec![job(5, JobKind::Upgrades, JobPayload::Empty)]);
    match &out.events[0] {
        Event::Upgrades { items } => {
            let names: Vec<&str> = items.iter().map(|p| p.id.name.as_str()).collect();
            assert_eq!(names, vec!["brave-bin", "zlib"]);
        },
        _ => panic!("expected upgrades"),
    }
}

#[test]
fn combine_results_prefers_any_success_and_aggregates_total_failure() {
    let ok = combine_results(
        Ok(vec![pkg("b", Source::Repo)]),
        Ok(vec![pkg("a", Source::Aur)]),
    );
    let items = ok.unwrap();
    assert_eq!(items[0].id.name, "a");
    assert_eq!(items[1].id.name, "b");
    let partial = combine_results(Err(Error::Cancelled), Ok(vec![pkg("x", Source::Aur)]));
    assert_eq!(partial.unwrap().len(), 1);
    let failed = combine_results(Err(Error::Cancelled), Err(Error::Network("x".to_string())));
    match failed {
        Err(Error::Alpm(m)) => assert_eq!(m, "all backends failed"),
        _ => panic!("expected the aggregated error"),
    }
}

#[test]
fn cancel_token_is_shared_and_monotone() {
    let t = CancelToken::new();
    assert!(!t.is_cancelled());
    let u = t.clone();
    u.cancel();
    assert!(t.is_cancelled());
    assert!(u.is_cancelled());
    t.cancel();
    assert!(t.is_cancelled());
}

#[test]
fn error_messages_carry_their_taxonomy() {
    assert_eq!(Error::Network("down".to_string()).message(), "network: down");
    assert_eq!(Error::Alpm("x".to_string()).message(), "alpm: x");
    assert_eq!(Error::Aur("x".to_string()).message(), "aur: x");
    assert_eq!(Error::Priv("x".to_string()).message(), "privilege: x");
    assert_eq!(Error::Cancelled.message(), "cancelled");
    assert_eq!(Error::Internal("x".to_string()).message(), "internal: x");
}

#[test]
fn refresh_uses_the_default_provider() {
    let repo = MockBackend::new(vec![], false);
    let aur = MockBackend::new(vec![], false);
    let out = run_jobs(repo, aur, vec![job(11, JobKind::Refresh, JobPayload::Empty)]);
    assert!(out.events.is_empty());
    assert!(matches!(out.progress.last().unwrap().stage, Stage::Finished));
}

#[test]
fn mutating_dispatch_follows_the_payload_source() {
    let repo = MockBackend::new(vec![], false);
    let aur = MockBackend::new(vec![], false);
    let repo_mutations = repo.mutate_calls.clone();
    let aur_mutations = aur.mutate_calls.clone();
    let id = PackageId { name: "brave-bin".to_string(), source: Source::Aur };
    let _ = run_jobs(
        repo,
        aur,
        vec![job(12, JobKind::Upgrade, JobPayload::Package(id))],
    );
    assert_eq!(repo_mutations.load(Ordering::SeqCst), 0);
    assert_eq!(aur_mutations.load(Ordering::SeqCst), 1);
}

#[test]
fn every_job_begins_queued_and_ends_terminal() {
    let repo = MockBackend::new(vec![], false);
    let aur = MockBackend::new(vec![], false);
    let out = run_jobs(
        repo,
        aur,
        vec![
            job(1, JobKind::Refresh, JobPayload::Empty),
            job(2, JobKind::Upgrades, JobPayload::Empty),
        ],
    );
    let queued: Vec<&Progress> = out
        .progress
        .iter()
        .filter(|p| matches!(p.stage, Stage::Queued))
        .collect();
    let terminal: Vec<&Progress> = out
        .progress
        .iter()
        .filter(|p| matches!(p.stage, Stage::Finished | Stage::Failed))
        .collect();
    assert_eq!(queued.len(), 2);
    assert_eq!(terminal.len(), 2);
    assert!(terminal.iter().all(|p| p.percent == Some(100)));
}
