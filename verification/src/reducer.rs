//! The pure state reducer: one step turns the current application state and
//! an action into the next state and, for operation-triggering intents, the
//! job the caller must enqueue.

use crate::domain::{
    Event, EventV, JobKind, JobPayload, JobPayloadV, PackageId, PackageIdV, PackageSummary,
    Progress, SortMode, Source, Stage, SummaryV,
};
use crate::sorting::{lemma_sort_spec_sorted, sort_items, sort_spec, sorted_under};
use crate::strutil::{contains_seq, lower_of, lowercase, trim_spec, trim_str};
use vstd::prelude::*;
use vstd::string::StrSliceExecFns;
use vstd::string::StringSliceAdditionalSpecFns;
use vstd::utf8::encode_utf8;

verus! {

/// Byte cap of the rolling progress log.
pub const MAX_LOG: usize = 256 * 1024;

/// One row passes the pipeline: the lowered trimmed query (when one applies)
/// matches name or description, the row's source filter is on, and the
/// installed filter admits it.
pub open spec fn item_passes(
    x: SummaryV,
    lq: Option<Seq<char>>,
    filter_repo: bool,
    filter_aur: bool,
    filter_installed: bool,
) -> bool {
    &&& match lq {
        Some(q) => q.len() == 0 || contains_seq(lower_of(x.id.name), q) || contains_seq(
            lower_of(x.description),
            q,
        ),
        None => true,
    }
    &&& ((filter_repo && x.id.source == Source::Repo) || (filter_aur && x.id.source
        == Source::Aur))
    &&& (!filter_installed || x.installed)
}

/// The rows of `items` that pass the pipeline, in input order.
pub open spec fn filter_spec(
    items: Seq<SummaryV>,
    lq: Option<Seq<char>>,
    filter_repo: bool,
    filter_aur: bool,
    filter_installed: bool,
) -> Seq<SummaryV>
    decreases items.len(),
{
    if items.len() == 0 {
        Seq::empty()
    } else {
        let rest = filter_spec(items.drop_first(), lq, filter_repo, filter_aur, filter_installed);
        if item_passes(items[0], lq, filter_repo, filter_aur, filter_installed) {
            seq![items[0]] + rest
        } else {
            rest
        }
    }
}

fn item_passes_exec(
    x: &PackageSummary,
    lq: Option<&Vec<char>>,
    filter_repo: bool,
    filter_aur: bool,
    filter_installed: bool,
) -> (r: bool)
    ensures
        r == item_passes(
            x@,
            match lq {
                Some(q) => Some(q@),
                None => None,
            },
            filter_repo,
            filter_aur,
            filter_installed,
        ),
{
    let q_ok = match lq {
        Some(q) => {
            if q.len() == 0 {
                true
            } else {
                let name = lowercase(x.id.name.as_str());
                let nv = crate::strutil::chars_of(name.as_str());
                if crate::strutil::contains_chars(&nv, q) {
                    true
                } else {
                    let desc = lowercase(x.description.as_str());
                    let dv = crate::strutil::chars_of(desc.as_str());
                    crate::strutil::contains_chars(&dv, q)
                }
            }
        },
        None => true,
    };
    let src_ok = (filter_repo && matches!(x.id.source, Source::Repo)) || (filter_aur && matches!(
        x.id.source,
        Source::Aur,
    ));
    let inst_ok = !filter_installed || x.installed;
    q_ok && src_ok && inst_ok
}

/// Keeps the rows that pass the pipeline, in input order.
fn filter_items(
    items: Vec<PackageSummary>,
    lq: Option<&Vec<char>>,
    filter_repo: bool,
    filter_aur: bool,
    filter_installed: bool,
) -> (r: Vec<PackageSummary>)
    ensures
        r.deep_view() == filter_spec(
            items.deep_view(),
            match lq {
                Some(q) => Some(q@),
                None => None,
            },
            filter_repo,
            filter_aur,
            filter_installed,
        ),
{
    let ghost all = items.deep_view();
    let ghost lqv: Option<Seq<char>> = match lq {
        Some(q) => Some(q@),
        None => None,
    };
    let mut rest = items;
    let mut out: Vec<PackageSummary> = Vec::new();
    let mut idx: usize = 0;
    let total = rest.len();
    assert(all.len() == total);
    proof {
        assert(all.skip(0) =~= all);
        assert(out.deep_view() =~= Seq::<SummaryV>::empty());
        assert(Seq::<SummaryV>::empty() + filter_spec(
            all,
            lqv,
            filter_repo,
            filter_aur,
            filter_installed,
        ) =~~= filter_spec(all, lqv, filter_repo, filter_aur, filter_installed));
    }
    while rest.len() > 0
        invariant
            idx + rest@.len() == all.len(),
            all.len() <= usize::MAX,
            rest.deep_view() == all.skip(idx as int),
            lqv == (match lq {
                Some(q) => Some(q@),
                None => None,
            }),
            filter_spec(all, lqv, filter_repo, filter_aur, filter_installed) == out.deep_view()
                + filter_spec(all.skip(idx as int), lqv, filter_repo, filter_aur, filter_installed),
        decreases rest@.len(),
    {
        let ghost rest0 = rest@;
        let ghost restd0 = rest.deep_view();
        let ghost out0 = out.deep_view();
        let x = rest.remove(0);
        proof {
            assert(restd0[0] == rest0[0].deep_view());
            assert(x@ == all[idx as int]);
            assert forall|i: int| 0 <= i < rest@.len() implies rest.deep_view()[i] == all.skip(
                idx + 1,
            )[i] by {
                assert(rest@[i] == rest0[i + 1]);
                assert(restd0[i + 1] == rest0[i + 1].deep_view());
                assert(all.skip(idx + 1)[i] == all.skip(idx as int)[i + 1]);
            }
            assert(rest.deep_view() =~= all.skip(idx + 1));
            assert(all.skip(idx as int).drop_first() =~= all.skip(idx + 1));
        }
        let keep = item_passes_exec(&x, lq, filter_repo, filter_aur, filter_installed);
        if keep {
            out.push(x);
            proof {
                assert(out.deep_view() =~~= out0 + seq![all[idx as int]]);
                assert((out0 + seq![all[idx as int]]) + filter_spec(
                    all.skip(idx + 1),
                    lqv,
                    filter_repo,
                    filter_aur,
                    filter_installed,
                ) =~~= out0 + (seq![all[idx as int]] + filter_spec(
                    all.skip(idx + 1),
                    lqv,
                    filter_repo,
                    filter_aur,
                    filter_installed,
                )));
            }
        }
        idx = idx + 1;
    }
    proof {
        assert(out.deep_view() =~~= out.deep_view() + filter_spec(
            all.skip(idx as int),
            lqv,
            filter_repo,
            filter_aur,
            filter_installed,
        ));
    }
    out
}

/// `id` names one of the rows of `rs`.
pub open spec fn id_in_results(id: PackageIdV, rs: Seq<SummaryV>) -> bool {
    exists|k: int| 0 <= k < rs.len() && (#[trigger] rs[k]).id == id
}

fn contains_id(rs: &Vec<PackageSummary>, id: &PackageId) -> (r: bool)
    ensures
        r == id_in_results(id@, rs.deep_view()),
{
    let n = rs.len();
    let mut i: usize = 0;
    while i < n
        invariant
            n == rs@.len(),
            0 <= i <= n,
            forall|k: int| 0 <= k < i ==> (#[trigger] rs.deep_view()[k]).id != id@,
        decreases n - i,
    {
        if rs[i].id == *id {
            assert(rs.deep_view()[i as int].id == id@);
            return true;
        }
        i = i + 1;
    }
    false
}

/// What the selection becomes after the results are replaced by `rs`:
/// kept when still present, cleared when excluded.
pub open spec fn selected_still_in(sel: Option<PackageIdV>, rs: Seq<SummaryV>) -> Option<
    PackageIdV,
> {
    match sel {
        Some(id) => if id_in_results(id, rs) {
            Some(id)
        } else {
            None
        },
        None => None,
    }
}

/// The log buffer after one line arrives: the line's bytes and a newline go
/// on the young end; overflow beyond `MAX_LOG` drops only the oldest bytes.
pub open spec fn append_log_spec(buf: Seq<u8>, line: Seq<char>) -> Seq<u8> {
    let full = buf + encode_utf8(line) + seq![10u8];
    if full.len() > MAX_LOG {
        full.skip(full.len() - MAX_LOG as int)
    } else {
        full
    }
}

/// Appends one log line and a newline, then truncates from the oldest end.
pub fn append_log(buf: &mut Vec<u8>, line: &str)
    ensures
        final(buf)@ == append_log_spec(old(buf)@, line@),
        final(buf)@.len() <= MAX_LOG,
{
    let mut bytes = line.as_bytes_vec();
    proof {
        assert(bytes@ == encode_utf8(line@));
    }
    buf.append(&mut bytes);
    buf.push(10u8);
    let n = buf.len();
    if n > MAX_LOG {
        let cut = n - MAX_LOG;
        let mut tail: Vec<u8> = Vec::new();
        let mut i: usize = cut;
        while i < n
            invariant
                cut <= i <= n,
                n == buf@.len(),
                tail@ == buf@.subrange(cut as int, i as int),
            decreases n - i,
        {
            let b = buf[i];
            tail.push(b);
            proof {
                assert(buf@.subrange(cut as int, i as int).push(buf@[i as int]) =~= buf@.subrange(
                    cut as int,
                    i + 1,
                ));
            }
            i = i + 1;
        }
        proof {
            assert(buf@.subrange(cut as int, n as int) =~= buf@.skip(cut as int));
        }
        *buf = tail;
    }
}

/// A job the reducer asks its caller to enqueue; the caller mints the id,
/// the creation time and a fresh cancellation token.
#[derive(Clone, Debug)]
pub struct JobRequest {
    pub kind: JobKind,
    pub payload: JobPayload,
}

/// Mathematical model of a `JobRequest`.
pub ghost struct JobRequestV {
    pub kind: JobKind,
    pub payload: JobPayloadV,
}

impl View for JobRequest {
    type V = JobRequestV;

    open spec fn view(&self) -> JobRequestV {
        JobRequestV { kind: self.kind, payload: self.payload@ }
    }
}

impl DeepView for JobRequest {
    type V = JobRequestV;

    open spec fn deep_view(&self) -> JobRequestV {
        self.view()
    }
}

/// The whole UI-facing application state; exactly one live instance exists,
/// owned and replaced only through `reduce`.
#[derive(Clone, Debug)]
pub struct AppState {
    pub query: String,
    pub results: Vec<PackageSummary>,
    pub selected: Option<PackageId>,
    pub filter_repo: bool,
    pub filter_aur: bool,
    pub filter_installed: bool,
    pub sort: SortMode,
    /// UTF-8 bytes of the rolling progress log, at most `MAX_LOG` of them.
    pub progress_log: Vec<u8>,
    /// Sticky user-visible error, until an explicit `ClearError`.
    pub error: Option<String>,
    pub log_expanded: bool,
    pub in_upgrades_view: bool,
}

/// Mathematical model of an `AppState`.
pub ghost struct AppStateV {
    pub query: Seq<char>,
    pub results: Seq<SummaryV>,
    pub selected: Option<PackageIdV>,
    pub filter_repo: bool,
    pub filter_aur: bool,
    pub filter_installed: bool,
    pub sort: SortMode,
    pub progress_log: Seq<u8>,
    pub error: Option<Seq<char>>,
    pub log_expanded: bool,
    pub in_upgrades_view: bool,
}

impl View for AppState {
    type V = AppStateV;

    open spec fn view(&self) -> AppStateV {
        AppStateV {
            query: self.query@,
            results: self.results.deep_view(),
            selected: match self.selected {
                Some(ref id) => Some(id@),
                None => None,
            },
            filter_repo: self.filter_repo,
            filter_aur: self.filter_aur,
            filter_installed: self.filter_installed,
            sort: self.sort,
            progress_log: self.progress_log@,
            error: match self.error {
                Some(ref e) => Some(e@),
                None => None,
            },
            log_expanded: self.log_expanded,
            in_upgrades_view: self.in_upgrades_view,
        }
    }
}

/// The all-empty state: empty query and results, no selection, every filter
/// off, popularity order, empty log, no error, both panels off.
pub open spec fn default_state() -> AppStateV {
    AppStateV {
        query: Seq::<char>::empty(),
        results: Seq::<SummaryV>::empty(),
        selected: None,
        filter_repo: false,
        filter_aur: false,
        filter_installed: false,
        sort: SortMode::Popularity,
        progress_log: Seq::<u8>::empty(),
        error: None,
        log_expanded: false,
        in_upgrades_view: false,
    }
}

/// The state a fresh store starts from: as `default_state`, but with both
/// source filters on and names ascending.
pub open spec fn start_state() -> AppStateV {
    AppStateV {
        filter_repo: true,
        filter_aur: true,
        sort: SortMode::NameAsc,
        ..default_state()
    }
}

impl Default for AppState {
    fn default() -> (r: AppState)
        ensures
            r@ == default_state(),
    {
        let r = AppState {
            query: String::new(),
            results: Vec::new(),
            selected: None,
            filter_repo: false,
            filter_aur: false,
            filter_installed: false,
            sort: SortMode::Popularity,
            progress_log: Vec::new(),
            error: None,
            log_expanded: false,
            in_upgrades_view: false,
        };
        proof {
            assert(r.results.deep_view() =~= Seq::<SummaryV>::empty());
        }
        r
    }
}

/// The state a fresh store starts from.
pub fn initial_state() -> (r: AppState)
    ensures
        r@ == start_state(),
{
    let mut r = AppState::default();
    r.filter_repo = true;
    r.filter_aur = true;
    r.sort = SortMode::NameAsc;
    r
}

/// Everything the UI or the engine can ask of the reducer: direct intents,
/// and the two event streams it drains each tick.
#[derive(Clone, Debug)]
pub enum Action {
    SetQuery(String),
    Search,
    Upgrades,
    UpgradeAll,
    Upgrade(PackageId),
    Install(PackageId),
    Remove(PackageId),
    Progress(Progress),
    Event(Event),
    ClearError,
    Select(PackageId),
    ClearSelection,
    ToggleFilterRepo,
    ToggleFilterAur,
    ToggleFilterInstalled,
    SetSort(SortMode),
    ToggleLog,
}

/// Mathematical model of an `Action`.
pub ghost enum ActionV {
    SetQuery(Seq<char>),
    Search,
    Upgrades,
    UpgradeAll,
    Upgrade(PackageIdV),
    Install(PackageIdV),
    Remove(PackageIdV),
    Progress(crate::domain::ProgressV),
    Event(EventV),
    ClearError,
    Select(PackageIdV),
    ClearSelection,
    ToggleFilterRepo,
    ToggleFilterAur,
    ToggleFilterInstalled,
    SetSort(SortMode),
    ToggleLog,
}

impl View for Action {
    type V = ActionV;

    open spec fn view(&self) -> ActionV {
        match self {
            Action::SetQuery(q) => ActionV::SetQuery(q@),
            Action::Search => ActionV::Search,
            Action::Upgrades => ActionV::Upgrades,
            Action::UpgradeAll => ActionV::UpgradeAll,
            Action::Upgrade(id) => ActionV::Upgrade(id@),
            Action::Install(id) => ActionV::Install(id@),
            Action::Remove(id) => ActionV::Remove(id@),
            Action::Progress(p) => ActionV::Progress(p@),
            Action::Event(e) => ActionV::Event(e@),
            Action::ClearError => ActionV::ClearError,
            Action::Select(id) => ActionV::Select(id@),
            Action::ClearSelection => ActionV::ClearSelection,
            Action::ToggleFilterRepo => ActionV::ToggleFilterRepo,
            Action::ToggleFilterAur => ActionV::ToggleFilterAur,
            Action::ToggleFilterInstalled => ActionV::ToggleFilterInstalled,
            Action::SetSort(m) => ActionV::SetSort(*m),
            Action::ToggleLog => ActionV::ToggleLog,
        }
    }
}

/// The results-replacing pipeline of one event: filter, then stable sort.
pub open spec fn pipeline_spec(
    items: Seq<SummaryV>,
    lq: Option<Seq<char>>,
    s: AppStateV,
) -> Seq<SummaryV> {
    sort_spec(s.sort, filter_spec(items, lq, s.filter_repo, s.filter_aur, s.filter_installed))
}

/// What one event does to the state, and the follow-up job it may demand.
pub open spec fn reduce_event_spec(s: AppStateV, e: EventV) -> (AppStateV, Option<JobRequestV>) {
    match e {
        EventV::SearchResults { query: _, items } => {
            let rs = pipeline_spec(items, Some(lower_of(trim_spec(s.query))), s);
            (
                AppStateV {
                    in_upgrades_view: false,
                    results: rs,
                    selected: selected_still_in(s.selected, rs),
                    ..s
                },
                None,
            )
        },
        EventV::Upgrades { items } => {
            let rs = pipeline_spec(items, None, s);
            (
                AppStateV {
                    in_upgrades_view: true,
                    results: rs,
                    selected: selected_still_in(s.selected, rs),
                    ..s
                },
                None,
            )
        },
        EventV::Details { .. } => (s, None),
        EventV::SystemChanged => {
            if s.in_upgrades_view {
                (
                    s,
                    Some(JobRequestV { kind: JobKind::Upgrades, payload: JobPayloadV::Empty }),
                )
            } else if trim_spec(s.query).len() > 0 {
                (
                    s,
                    Some(
                        JobRequestV {
                            kind: JobKind::Search,
                            payload: JobPayloadV::Query(s.query),
                        },
                    ),
                )
            } else {
                (s, None)
            }
        },
    }
}

/// The whole reducer, one action at a time: a pure function from state and
/// action to next state plus the job to enqueue, if any.
pub open spec fn reduce_spec(s: AppStateV, a: ActionV) -> (AppStateV, Option<JobRequestV>) {
    match a {
        ActionV::SetQuery(q) => (AppStateV { query: q, ..s }, None),
        ActionV::Search => {
            let q = trim_spec(s.query);
            let s1 = AppStateV { in_upgrades_view: false, ..s };
            let s2 = if q.len() == 0 {
                AppStateV { results: Seq::empty(), selected: None, ..s1 }
            } else {
                s1
            };
            (
                s2,
                Some(JobRequestV { kind: JobKind::Search, payload: JobPayloadV::Query(q) }),
            )
        },
        ActionV::Upgrades => (
            AppStateV { in_upgrades_view: true, ..s },
            Some(JobRequestV { kind: JobKind::Upgrades, payload: JobPayloadV::Empty }),
        ),
        ActionV::UpgradeAll => (
            s,
            Some(JobRequestV { kind: JobKind::UpgradeAll, payload: JobPayloadV::Empty }),
        ),
        ActionV::Upgrade(id) => (
            s,
            Some(JobRequestV { kind: JobKind::Upgrade, payload: JobPayloadV::Package(id) }),
        ),
        ActionV::Install(id) => (
            s,
            Some(JobRequestV { kind: JobKind::Install, payload: JobPayloadV::Package(id) }),
        ),
        ActionV::Remove(id) => (
            s,
            Some(JobRequestV { kind: JobKind::Remove, payload: JobPayloadV::Package(id) }),
        ),
        ActionV::Progress(p) => {
            let s1 = match p.log {
                Some(l) => AppStateV { progress_log: append_log_spec(s.progress_log, l), ..s },
                None => s,
            };
            let s2 = if p.stage == Stage::Failed && s1.error is None {
                AppStateV { error: Some("operation failed"@), ..s1 }
            } else {
                s1
            };
            (s2, None)
        },
        ActionV::Event(e) => reduce_event_spec(s, e),
        ActionV::ClearError => (AppStateV { error: None, ..s }, None),
        ActionV::Select(id) => (AppStateV { selected: Some(id), ..s }, None),
        ActionV::ClearSelection => (AppStateV { selected: None, ..s }, None),
        ActionV::ToggleFilterRepo => (AppStateV { filter_repo: !s.filter_repo, ..s }, None),
        ActionV::ToggleFilterAur => (AppStateV { filter_aur: !s.filter_aur, ..s }, None),
        ActionV::ToggleFilterInstalled => (
            AppStateV { filter_installed: !s.filter_installed, ..s },
            None,
        ),
        ActionV::SetSort(m) => (AppStateV { sort: m, ..s }, None),
        ActionV::ToggleLog => (AppStateV { log_expanded: !s.log_expanded, ..s }, None),
    }
}

/// One reducer step. The state is replaced, never shared; the returned
/// request, if any, is the job the caller must enqueue.
pub fn reduce(s: AppState, a: Action) -> (r: (AppState, Option<JobRequest>))
    ensures
        r.0@ == reduce_spec(s@, a@).0,
        r.1.deep_view() == reduce_spec(s@, a@).1,
{
    let mut s = s;
    let mut req: Option<JobRequest> = None;
    match a {
        Action::SetQuery(q) => {
            s.query = q;
        },
        Action::Search => {
            s.in_upgrades_view = false;
            let q = trim_str(s.query.as_str());
            let empty = q.as_str().is_empty();
            req = Some(JobRequest { kind: JobKind::Search, payload: JobPayload::Query(q) });
            if empty {
                s.results = Vec::new();
                s.selected = None;
                proof {
                    assert(s.results.deep_view() =~= Seq::<SummaryV>::empty());
                }
            }
        },
        Action::Upgrades => {
            s.in_upgrades_view = true;
            req = Some(JobRequest { kind: JobKind::Upgrades, payload: JobPayload::Empty });
        },
        Action::UpgradeAll => {
            req = Some(JobRequest { kind: JobKind::UpgradeAll, payload: JobPayload::Empty });
        },
        Action::Upgrade(id) => {
            req = Some(JobRequest { kind: JobKind::Upgrade, payload: JobPayload::Package(id) });
        },
        Action::Install(id) => {
            req = Some(JobRequest { kind: JobKind::Install, payload: JobPayload::Package(id) });
        },
        Action::Remove(id) => {
            req = Some(JobRequest { kind: JobKind::Remove, payload: JobPayload::Package(id) });
        },
        Action::Progress(p) => {
            match p.log {
                Some(l) => {
                    append_log(&mut s.progress_log, l.as_str());
                },
                None => {},
            }
            if matches!(p.stage, Stage::Failed) && s.error.is_none() {
                s.error = Some("operation failed".to_owned());
            }
        },
        Action::Event(e) => {
            match e {
                Event::SearchResults { query: _, items } => {
                    s.in_upgrades_view = false;
                    let t = trim_str(s.query.as_str());
                    let lqs = lowercase(t.as_str());
                    let lqv = crate::strutil::chars_of(lqs.as_str());
                    let filtered = filter_items(
                        items,
                        Some(&lqv),
                        s.filter_repo,
                        s.filter_aur,
                        s.filter_installed,
                    );
                    s.results = sort_items(s.sort, filtered);
                    let keep = match &s.selected {
                        Some(sel) => contains_id(&s.results, sel),
                        None => false,
                    };
                    if !keep {
                        s.selected = None;
                    }
                },
                Event::Upgrades { items } => {
                    s.in_upgrades_view = true;
                    let filtered = filter_items(
                        items,
                        None,
                        s.filter_repo,
                        s.filter_aur,
                        s.filter_installed,
                    );
                    s.results = sort_items(s.sort, filtered);
                    let keep = match &s.selected {
                        Some(sel) => contains_id(&s.results, sel),
                        None => false,
                    };
                    if !keep {
                        s.selected = None;
                    }
                },
                Event::Details { .. } => {},
                Event::SystemChanged => {
                    if s.in_upgrades_view {
                        req = Some(
                            JobRequest { kind: JobKind::Upgrades, payload: JobPayload::Empty },
                        );
                    } else {
                        let t = trim_str(s.query.as_str());
                        if !t.as_str().is_empty() {
                            req = Some(
                                JobRequest {
                                    kind: JobKind::Search,
                                    payload: JobPayload::Query(s.query.clone()),
                                },
                            );
                        }
                    }
                },
            }
        },
        Action::ClearError => {
            s.error = None;
        },
        Action::Select(id) => {
            s.selected = Some(id);
        },
        Action::ClearSelection => {
            s.selected = None;
        },
        Action::ToggleFilterRepo => {
            s.filter_repo = !s.filter_repo;
        },
        Action::ToggleFilterAur => {
            s.filter_aur = !s.filter_aur;
        },
        Action::ToggleFilterInstalled => {
            s.filter_installed = !s.filter_installed;
        },
        Action::SetSort(m) => {
            s.sort = m;
        },
        Action::ToggleLog => {
            s.log_expanded = !s.log_expanded;
        },
    }
    (s, req)
}

/// Toggling the repository filter twice returns `filter_repo` to its
/// original value, whatever the state.
pub proof fn lemma_toggle_filter_repo_twice(s: AppStateV)
    ensures
        reduce_spec(
            reduce_spec(s, ActionV::ToggleFilterRepo).0,
            ActionV::ToggleFilterRepo,
        ).0.filter_repo == s.filter_repo,
{
}

/// Dispatching one `SearchResults` event a second time, with query, filters
/// and sort unchanged in between, yields identical results.
pub proof fn lemma_search_results_redispatch(s: AppStateV, e: EventV)
    requires
        (e is SearchResults),
    ensures
        ({
            let s1 = reduce_spec(s, ActionV::Event(e)).0;
            reduce_spec(s1, ActionV::Event(e)).0.results == s1.results
        }),
{
}

/// After any results-replacing event, a previously selected id still present
/// in the new results stays selected; one that is excluded is cleared; and a
/// surviving selection always names a row of the new results.
pub proof fn lemma_selection_after_replacement(s: AppStateV, e: EventV)
    requires
        (e is SearchResults) || (e is Upgrades),
    ensures
        ({
            let s1 = reduce_spec(s, ActionV::Event(e)).0;
            &&& (s.selected is Some && id_in_results(s.selected->0, s1.results) ==> s1.selected
                == s.selected)
            &&& (s.selected is Some && !id_in_results(s.selected->0, s1.results) ==> s1.selected
                is None)
            &&& (s1.selected is Some ==> s1.selected == s.selected && id_in_results(
                s1.selected->0,
                s1.results,
            ))
        }),
{
}

/// The log buffer drops only from its oldest end: what comes out is a suffix
/// of the old buffer plus the new line, it is capped at `MAX_LOG`, and the
/// bytes just appended are never among those dropped (as long as one line
/// fits the cap at all).
pub proof fn lemma_log_drops_oldest_only(buf: Seq<u8>, line: Seq<char>)
    ensures
        ({
            let added = encode_utf8(line) + seq![10u8];
            let full = buf + added;
            let r = append_log_spec(buf, line);
            &&& r == full.skip(full.len() - r.len())
            &&& r.len() == if full.len() > MAX_LOG {
                MAX_LOG as int
            } else {
                full.len() as int
            }
            &&& added.len() <= MAX_LOG ==> r.skip(r.len() - added.len()) == added
        }),
{
    let added = encode_utf8(line) + seq![10u8];
    let full = buf + added;
    let r = append_log_spec(buf, line);
    assert(r =~= full.skip(full.len() - r.len()));
    if added.len() <= MAX_LOG {
        assert(r.skip(r.len() - added.len()) =~= added);
    }
}

/// Whatever results-replacing event arrives, the rows it leaves on screen
/// are ordered under the state's sort mode.
pub proof fn lemma_results_ordered(s: AppStateV, e: EventV)
    requires
        (e is SearchResults) || (e is Upgrades),
    ensures
        sorted_under(s.sort, reduce_spec(s, ActionV::Event(e)).0.results),
{
    match e {
        EventV::SearchResults { query: _, items } => {
            lemma_sort_spec_sorted(
                s.sort,
                filter_spec(
                    items,
                    Some(lower_of(trim_spec(s.query))),
                    s.filter_repo,
                    s.filter_aur,
                    s.filter_installed,
                ),
            );
        },
        EventV::Upgrades { items } => {
            lemma_sort_spec_sorted(
                s.sort,
                filter_spec(items, None, s.filter_repo, s.filter_aur, s.filter_installed),
            );
        },
        _ => {},
    }
}

/// The log-cap invariant survives every action: a state whose progress log
/// respects `MAX_LOG` steps only to states that respect it.
pub proof fn lemma_log_capped(s: AppStateV, a: ActionV)
    requires
        s.progress_log.len() <= MAX_LOG,
    ensures
        reduce_spec(s, a).0.progress_log.len() <= MAX_LOG,
{
}

} // verus!
