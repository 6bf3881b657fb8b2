//! The capability contract every package provider implements.

use crate::domain::{CancelToken, Error, PackageDetails, PackageId, PackageSummary, Progress};
use vstd::prelude::*;

verus! {

/// Where providers stream their progress messages.
pub type ProgressSink = crossbeam_channel::Sender<Progress>;

/// One package source. A call may emit any number of progress messages
/// before its terminal return; on observing its cancellation token it must
/// end any long-running external operation and return `Error::Cancelled`;
/// it never retries on its own. Polling granularity is provider-specific: a
/// call that never polls simply cannot be cancelled mid-call.
pub trait PackageBackend: Send + Sync {
    /// Refreshes the provider's package databases.
    fn refresh(&self, sink: &ProgressSink, cancel: &CancelToken) -> Result<(), Error>;

    /// All packages matching `q`, in provider order.
    fn search(&self, q: &str, sink: &ProgressSink, cancel: &CancelToken) -> Result<
        Vec<PackageSummary>,
        Error,
    >;

    /// Full details of one package.
    fn details(&self, id: &PackageId, sink: &ProgressSink, cancel: &CancelToken) -> Result<
        PackageDetails,
        Error,
    >;

    /// Installs one package.
    fn install(&self, id: &PackageId, sink: &ProgressSink, cancel: &CancelToken) -> Result<
        (),
        Error,
    >;

    /// Removes one package.
    fn remove(&self, id: &PackageId, sink: &ProgressSink, cancel: &CancelToken) -> Result<
        (),
        Error,
    >;

    /// The packages an upgrade is available for.
    fn upgrades(&self, sink: &ProgressSink, cancel: &CancelToken) -> Result<
        Vec<PackageSummary>,
        Error,
    >;

    /// Upgrades one package.
    fn upgrade(&self, id: &PackageId, sink: &ProgressSink, cancel: &CancelToken) -> Result<
        (),
        Error,
    >;

    /// Full system upgrade of this provider's packages.
    fn upgrade_all(&self, sink: &ProgressSink, cancel: &CancelToken) -> Result<(), Error>;
}

} // verus!
