//! Shared value types of the engine: package identity and summaries, jobs,
//! progress reporting, terminal events, errors, and the cooperative
//! cancellation token.

use vstd::prelude::*;
use vstd::string::StringExecFns;

verus! {

/// Which provider a package comes from.
#[derive(Clone, Copy, Debug, PartialEq, Eq, Hash, Structural)]
pub enum Source {
    Repo,
    Aur,
}

/// Unique key of a package: name together with its source.
#[derive(Clone, Debug, Eq, Hash)]
pub struct PackageId {
    pub name: String,
    pub source: Source,
}

/// Mathematical model of a `PackageId`.
pub ghost struct PackageIdV {
    pub name: Seq<char>,
    pub source: Source,
}

impl View for PackageId {
    type V = PackageIdV;

    open spec fn view(&self) -> PackageIdV {
        PackageIdV { name: self.name@, source: self.source }
    }
}

impl DeepView for PackageId {
    type V = PackageIdV;

    open spec fn deep_view(&self) -> PackageIdV {
        self.view()
    }
}

impl PartialEq for PackageId {
    fn eq(&self, other: &PackageId) -> (r: bool) {
        self.name == other.name && self.source == other.source
    }
}

impl vstd::std_specs::cmp::PartialEqSpecImpl for PackageId {
    open spec fn obeys_eq_spec() -> bool {
        true
    }

    open spec fn eq_spec(&self, other: &PackageId) -> bool {
        self@ == other@
    }
}

/// One search/upgrade row: identity plus display data.
#[derive(Clone, Debug)]
pub struct PackageSummary {
    pub id: PackageId,
    pub version: String,
    pub description: String,
    pub installed: bool,
    pub popular: Option<u32>,
    /// Seconds since the Unix epoch, when the provider reports it.
    pub last_updated: Option<u64>,
}

/// Mathematical model of a `PackageSummary`.
pub ghost struct SummaryV {
    pub id: PackageIdV,
    pub version: Seq<char>,
    pub description: Seq<char>,
    pub installed: bool,
    pub popular: Option<u32>,
    pub last_updated: Option<u64>,
}

impl View for PackageSummary {
    type V = SummaryV;

    open spec fn view(&self) -> SummaryV {
        SummaryV {
            id: self.id@,
            version: self.version@,
            description: self.description@,
            installed: self.installed,
            popular: self.popular,
            last_updated: self.last_updated,
        }
    }
}

impl DeepView for PackageSummary {
    type V = SummaryV;

    open spec fn deep_view(&self) -> SummaryV {
        self.view()
    }
}

/// Full details of one package, on top of its summary.
#[derive(Clone, Debug)]
pub struct PackageDetails {
    pub summary: PackageSummary,
    pub depends: Vec<String>,
    pub opt_depends: Vec<String>,
    pub homepage: Option<String>,
    pub maintainer: Option<String>,
    pub size_install: Option<u64>,
    pub size_download: Option<u64>,
}

/// Mathematical model of a `PackageDetails`.
pub ghost struct DetailsV {
    pub summary: SummaryV,
    pub depends: Seq<Seq<char>>,
    pub opt_depends: Seq<Seq<char>>,
    pub homepage: Option<Seq<char>>,
    pub maintainer: Option<Seq<char>>,
    pub size_install: Option<u64>,
    pub size_download: Option<u64>,
}

impl View for PackageDetails {
    type V = DetailsV;

    open spec fn view(&self) -> DetailsV {
        DetailsV {
            summary: self.summary@,
            depends: self.depends.deep_view(),
            opt_depends: self.opt_depends.deep_view(),
            homepage: match self.homepage {
                Some(ref h) => Some(h@),
                None => None,
            },
            maintainer: match self.maintainer {
                Some(ref m) => Some(m@),
                None => None,
            },
            size_install: self.size_install,
            size_download: self.size_download,
        }
    }
}

impl DeepView for PackageDetails {
    type V = DetailsV;

    open spec fn deep_view(&self) -> DetailsV {
        self.view()
    }
}

/// A point in a job's lifecycle, reported through `Progress`.
#[derive(Clone, Copy, Debug, PartialEq, Eq, Structural)]
pub enum Stage {
    Queued,
    Refreshing,
    Searching,
    Resolving,
    Downloading,
    Building,
    Installing,
    Removing,
    Verifying,
    Cleaning,
    Finished,
    Failed,
}

/// One progress message of a running job. `percent` counts completion in
/// hundredths: `Some(100)` means done.
#[derive(Clone, Debug)]
pub struct Progress {
    pub job_id: u64,
    pub stage: Stage,
    pub percent: Option<u32>,
    pub bytes: Option<(u64, u64)>,
    pub log: Option<String>,
    pub warning: bool,
}

/// Mathematical model of a `Progress`.
pub ghost struct ProgressV {
    pub job_id: u64,
    pub stage: Stage,
    pub percent: Option<u32>,
    pub bytes: Option<(u64, u64)>,
    pub log: Option<Seq<char>>,
    pub warning: bool,
}

impl View for Progress {
    type V = ProgressV;

    open spec fn view(&self) -> ProgressV {
        ProgressV {
            job_id: self.job_id,
            stage: self.stage,
            percent: self.percent,
            bytes: self.bytes,
            log: match self.log {
                Some(ref l) => Some(l@),
                None => None,
            },
            warning: self.warning,
        }
    }
}

/// Terminal output of one job; `SystemChanged` is cross-cutting and signals
/// that the installed-package store is stale.
#[derive(Clone, Debug)]
pub enum Event {
    SearchResults { query: String, items: Vec<PackageSummary> },
    Details { item: PackageDetails },
    Upgrades { items: Vec<PackageSummary> },
    SystemChanged,
}

/// Mathematical model of an `Event`.
pub ghost enum EventV {
    SearchResults { query: Seq<char>, items: Seq<SummaryV> },
    Details { item: DetailsV },
    Upgrades { items: Seq<SummaryV> },
    SystemChanged,
}

impl View for Event {
    type V = EventV;

    open spec fn view(&self) -> EventV {
        match self {
            Event::SearchResults { query, items } => EventV::SearchResults {
                query: query@,
                items: items.deep_view(),
            },
            Event::Details { item } => EventV::Details { item: item@ },
            Event::Upgrades { items } => EventV::Upgrades { items: items.deep_view() },
            Event::SystemChanged => EventV::SystemChanged,
        }
    }
}

/// Error taxonomy of the engine.
#[derive(Clone, Debug)]
pub enum Error {
    /// Remote call failure.
    Network(String),
    /// Local package-database failure.
    Alpm(String),
    /// Community-repository failure.
    Aur(String),
    /// Privileged-operation denial or non-zero mutation exit.
    Priv(String),
    /// Cooperative cancellation observed.
    Cancelled,
    /// Spawn, I/O or serialization failure.
    Internal(String),
}

impl Error {
    /// The user-visible message of this error.
    pub open spec fn spec_message(&self) -> Seq<char> {
        match self {
            Error::Network(s) => "network: "@ + s@,
            Error::Alpm(s) => "alpm: "@ + s@,
            Error::Aur(s) => "aur: "@ + s@,
            Error::Priv(s) => "privilege: "@ + s@,
            Error::Cancelled => "cancelled"@,
            Error::Internal(s) => "internal: "@ + s@,
        }
    }

    pub fn message(&self) -> (r: String)
        ensures
            r@ == self.spec_message(),
    {
        match self {
            Error::Network(s) => {
                let mut m = "network: ".to_owned();
                m.append(s.as_str());
                m
            },
            Error::Alpm(s) => {
                let mut m = "alpm: ".to_owned();
                m.append(s.as_str());
                m
            },
            Error::Aur(s) => {
                let mut m = "aur: ".to_owned();
                m.append(s.as_str());
                m
            },
            Error::Priv(s) => {
                let mut m = "privilege: ".to_owned();
                m.append(s.as_str());
                m
            },
            Error::Cancelled => "cancelled".to_owned(),
            Error::Internal(s) => {
                let mut m = "internal: ".to_owned();
                m.append(s.as_str());
                m
            },
        }
    }
}

/// Shared cancellation flag with a monotone false-to-true transition:
/// many holders may observe it, nobody can unset it.
#[derive(Clone, Debug)]
pub struct CancelToken {
    flag: std::sync::Arc<core::sync::atomic::AtomicBool>,
}

impl CancelToken {
    pub fn new() -> CancelToken {
        CancelToken {
            flag: std::sync::Arc::new(core::sync::atomic::AtomicBool::new(false)),
        }
    }

    /// Requests cancellation; the flag never goes back to false.
    pub fn cancel(&self) {
        self.flag.store(true, core::sync::atomic::Ordering::SeqCst);
    }

    /// Polls the shared flag. Another holder may set it at any moment, so
    /// nothing relates two reads: the result is an arbitrary boolean.
    pub fn is_cancelled(&self) -> bool {
        self.flag.load(core::sync::atomic::Ordering::SeqCst)
    }
}

/// How results are ordered in the UI.
#[derive(Clone, Copy, Debug, PartialEq, Eq, Structural)]
pub enum SortMode {
    NameAsc,
    NameDesc,
    Popularity,
}

impl Default for SortMode {
    fn default() -> (r: SortMode)
        ensures
            r == SortMode::Popularity,
    {
        SortMode::Popularity
    }
}

/// What a job does.
#[derive(Clone, Copy, Debug, PartialEq, Eq, Structural)]
pub enum JobKind {
    Refresh,
    Search,
    Details,
    Install,
    Remove,
    Upgrades,
    Upgrade,
    UpgradeAll,
}

/// The argument a job carries.
#[derive(Clone, Debug)]
pub enum JobPayload {
    Empty,
    Query(String),
    Package(PackageId),
}

/// Mathematical model of a `JobPayload`.
pub ghost enum JobPayloadV {
    Empty,
    Query(Seq<char>),
    Package(PackageIdV),
}

impl View for JobPayload {
    type V = JobPayloadV;

    open spec fn view(&self) -> JobPayloadV {
        match self {
            JobPayload::Empty => JobPayloadV::Empty,
            JobPayload::Query(q) => JobPayloadV::Query(q@),
            JobPayload::Package(id) => JobPayloadV::Package(id@),
        }
    }
}

/// One unit of work, immutable once created. The issuer keeps only the
/// cancellation token; the executor owns the job for its lifetime.
#[derive(Clone, Debug)]
pub struct Job {
    pub id: u64,
    pub kind: JobKind,
    pub payload: JobPayload,
    /// Seconds since the Unix epoch at creation time.
    pub created_at: u64,
    pub cancel: CancelToken,
}

} // verus!
