//! The single sequential worker: it drains the job queue in order, fans
//! searches and upgrade queries out to both providers, serializes every
//! mutating call under one write lock, and closes each job with exactly one
//! terminal progress message.

use crate::backend::PackageBackend;
use crate::chanio::{recv_job, send_event, send_progress};
use crate::domain::{
    Error, Event, Job, JobKind, JobPayload, PackageSummary, Progress, SortMode, Source, Stage,
    SummaryV,
};
use crate::sorting::{sort_items, sort_spec};
use vstd::prelude::*;
use vstd::rwlock::RwLock;
use vstd::string::StringExecFns;

verus! {

/// The job kinds that mutate the installed-package store and therefore run
/// under the transaction lock.
pub open spec fn is_mutating(k: JobKind) -> bool {
    k == JobKind::Install || k == JobKind::Remove || k == JobKind::Upgrade || k
        == JobKind::UpgradeAll
}

/// What a fan-out provider call contributed: its rows on success, nothing on
/// failure.
pub open spec fn ok_items(x: Result<Vec<PackageSummary>, Error>) -> Seq<SummaryV> {
    match x {
        Ok(v) => v.deep_view(),
        Err(_) => Seq::empty(),
    }
}

/// The aggregated error a fan-out job fails with when every provider failed.
pub open spec fn is_all_failed_error(e: Error) -> bool {
    match e {
        Error::Alpm(m) => m@ == "all backends failed"@,
        _ => false,
    }
}

fn concat_items(a: Vec<PackageSummary>, b: Vec<PackageSummary>) -> (r: Vec<PackageSummary>)
    ensures
        r.deep_view() == a.deep_view() + b.deep_view(),
{
    let ghost ad = a.deep_view();
    let ghost bd = b.deep_view();
    let ghost a0 = a@;
    let ghost b0 = b@;
    let mut a = a;
    let mut b = b;
    a.append(&mut b);
    proof {
        assert forall|i: int| 0 <= i < a@.len() implies a.deep_view()[i] == (ad + bd)[i] by {
            if i < a0.len() {
                assert(a@[i] == a0[i]);
                assert(ad[i] == a0[i].deep_view());
            } else {
                assert(a@[i] == b0[i - a0.len()]);
                assert(bd[i - a0.len()] == b0[i - a0.len()].deep_view());
            }
        }
        assert(a.deep_view() =~= ad + bd);
    }
    a
}

/// Joins the two providers' answers of one fan-out job: the job succeeds as
/// soon as either provider did, with the union of the successful rows sorted
/// ascending by name (repository rows first among ties); it fails with the
/// aggregated error exactly when both providers failed.
pub fn combine_results(
    ra: Result<Vec<PackageSummary>, Error>,
    rb: Result<Vec<PackageSummary>, Error>,
) -> (r: Result<Vec<PackageSummary>, Error>)
    ensures
        (r is Ok) == ((ra is Ok) || (rb is Ok)),
        r is Ok ==> r->Ok_0.deep_view() == sort_spec(SortMode::NameAsc, ok_items(ra) + ok_items(
            rb,
        )),
        r is Err ==> is_all_failed_error(r->Err_0),
{
    match (ra, rb) {
        (Ok(va), Ok(vb)) => Ok(sort_items(SortMode::NameAsc, concat_items(va, vb))),
        (Ok(va), Err(_)) => {
            proof {
                assert(va.deep_view() + Seq::<SummaryV>::empty() =~= va.deep_view());
            }
            Ok(sort_items(SortMode::NameAsc, va))
        },
        (Err(_), Ok(vb)) => {
            proof {
                assert(Seq::<SummaryV>::empty() + vb.deep_view() =~= vb.deep_view());
            }
            Ok(sort_items(SortMode::NameAsc, vb))
        },
        (Err(_), Err(_)) => Err(Error::Alpm("all backends failed".to_owned())),
    }
}

/// The worker. It owns both providers, the outgoing progress and event
/// channels, the incoming job queue, and the single transaction lock that
/// serializes mutating calls.
pub struct Executor<R: PackageBackend, A: PackageBackend> {
    repo: R,
    aur: A,
    tx_prog: crossbeam_channel::Sender<Progress>,
    tx_evt: crossbeam_channel::Sender<Event>,
    rx_jobs: crossbeam_channel::Receiver<Job>,
    txn: RwLock<(), spec_fn(()) -> bool>,
}

impl<R: PackageBackend, A: PackageBackend> Executor<R, A> {
    pub fn new(
        repo: R,
        aur: A,
        tx_prog: crossbeam_channel::Sender<Progress>,
        tx_evt: crossbeam_channel::Sender<Event>,
        rx_jobs: crossbeam_channel::Receiver<Job>,
    ) -> Executor<R, A> {
        let txn = RwLock::<(), spec_fn(()) -> bool>::new((), Ghost(|v: ()| true));
        Executor { repo, aur, tx_prog, tx_evt, rx_jobs, txn }
    }

    fn send_warning(&self, job_id: u64, stage: Stage, prefix: &str, e: &Error) {
        let mut m = prefix.to_owned();
        m.append(e.message().as_str());
        send_progress(
            &self.tx_prog,
            Progress { job_id, stage, percent: None, bytes: None, log: Some(m), warning: true },
        );
    }

    /// Runs one job to completion, exactly as the dispatch rules say:
    /// `Queued` first, then the kind-specific work, `SystemChanged` after a
    /// successful mutation, and one terminal `Finished` or `Failed` message.
    fn process_job(&self, job: Job) {
        let cancel = &job.cancel;
        send_progress(
            &self.tx_prog,
            Progress {
                job_id: job.id,
                stage: Stage::Queued,
                percent: None,
                bytes: None,
                log: None,
                warning: false,
            },
        );
        let res: Result<(), Error> = match job.kind {
            JobKind::Refresh => {
                match &job.payload {
                    JobPayload::Package(id) => {
                        if id.source == Source::Aur {
                            self.aur.refresh(&self.tx_prog, cancel)
                        } else {
                            self.repo.refresh(&self.tx_prog, cancel)
                        }
                    },
                    _ => self.repo.refresh(&self.tx_prog, cancel),
                }
            },
            JobKind::Search => {
                let q = match &job.payload {
                    JobPayload::Query(q) => crate::strutil::trim_str(q.as_str()),
                    _ => String::new(),
                };
                if q.as_str().len() < 2 {
                    let _ = send_event(
                        &self.tx_evt,
                        Event::SearchResults { query: q, items: Vec::new() },
                    );
                    Ok(())
                } else {
                    let r1 = self.repo.search(q.as_str(), &self.tx_prog, cancel);
                    if let Err(e) = &r1 {
                        self.send_warning(job.id, Stage::Searching, "repo search failed: ", e);
                    }
                    let r2 = self.aur.search(q.as_str(), &self.tx_prog, cancel);
                    if let Err(e) = &r2 {
                        self.send_warning(job.id, Stage::Searching, "AUR search failed: ", e);
                    }
                    match combine_results(r1, r2) {
                        Ok(items) => {
                            match send_event(
                                &self.tx_evt,
                                Event::SearchResults { query: q, items },
                            ) {
                                Ok(_) => Ok(()),
                                Err(m) => Err(Error::Internal(m)),
                            }
                        },
                        Err(e) => Err(e),
                    }
                }
            },
            JobKind::Details => {
                match &job.payload {
                    JobPayload::Package(id) => {
                        let r = if id.source == Source::Aur {
                            self.aur.details(id, &self.tx_prog, cancel)
                        } else {
                            self.repo.details(id, &self.tx_prog, cancel)
                        };
                        match r {
                            Ok(det) => {
                                match send_event(&self.tx_evt, Event::Details { item: det }) {
                                    Ok(_) => Ok(()),
                                    Err(m) => Err(Error::Internal(m)),
                                }
                            },
                            Err(e) => Err(e),
                        }
                    },
                    _ => Ok(()),
                }
            },
            JobKind::Install => {
                let (unit, handle) = self.txn.acquire_write();
                let r = match &job.payload {
                    JobPayload::Package(id) => {
                        if id.source == Source::Aur {
                            self.aur.install(id, &self.tx_prog, cancel)
                        } else {
                            self.repo.install(id, &self.tx_prog, cancel)
                        }
                    },
                    _ => Ok(()),
                };
                handle.release_write(unit);
                r
            },
            JobKind::Remove => {
                let (unit, handle) = self.txn.acquire_write();
                let r = match &job.payload {
                    JobPayload::Package(id) => {
                        if id.source == Source::Aur {
                            self.aur.remove(id, &self.tx_prog, cancel)
                        } else {
                            self.repo.remove(id, &self.tx_prog, cancel)
                        }
                    },
                    _ => Ok(()),
                };
                handle.release_write(unit);
                r
            },
            JobKind::Upgrades => {
                let r1 = self.repo.upgrades(&self.tx_prog, cancel);
                if let Err(e) = &r1 {
                    self.send_warning(job.id, Stage::Verifying, "repo upgrades failed: ", e);
                }
                let r2 = self.aur.upgrades(&self.tx_prog, cancel);
                if let Err(e) = &r2 {
                    self.send_warning(job.id, Stage::Verifying, "AUR upgrades failed: ", e);
                }
                match combine_results(r1, r2) {
                    Ok(items) => {
                        match send_event(&self.tx_evt, Event::Upgrades { items }) {
                            Ok(_) => Ok(()),
                            Err(m) => Err(Error::Internal(m)),
                        }
                    },
                    Err(e) => Err(e),
                }
            },
            JobKind::Upgrade => {
                let (unit, handle) = self.txn.acquire_write();
                let r = match &job.payload {
                    JobPayload::Package(id) => {
                        if id.source == Source::Aur {
                            self.aur.upgrade(id, &self.tx_prog, cancel)
                        } else {
                            self.repo.upgrade(id, &self.tx_prog, cancel)
                        }
                    },
                    _ => Ok(()),
                };
                handle.release_write(unit);
                r
            },
            JobKind::UpgradeAll => {
                let (unit, handle) = self.txn.acquire_write();
                let r = self.repo.upgrade_all(&self.tx_prog, cancel);
                handle.release_write(unit);
                r
            },
        };
        let mutating = matches!(
            job.kind,
            JobKind::Install | JobKind::Remove | JobKind::Upgrade | JobKind::UpgradeAll
        );
        if res.is_ok() && mutating {
            let _ = send_event(&self.tx_evt, Event::SystemChanged);
        }
        let (stage, log, warning) = match &res {
            Ok(_) => (Stage::Finished, None, false),
            Err(e) => (Stage::Failed, Some(e.message()), true),
        };
        send_progress(
            &self.tx_prog,
            Progress {
                job_id: job.id,
                stage,
                percent: Some(100),
                bytes: None,
                log,
                warning,
            },
        );
    }

    /// Takes one job off the queue and runs it. Gives `true` once the queue
    /// is closed and drained; the caller's worker loop then stops.
    pub fn step(&self) -> bool {
        match recv_job(&self.rx_jobs) {
            Some(job) => {
                self.process_job(job);
                false
            },
            None => true,
        }
    }
}

} // verus!
