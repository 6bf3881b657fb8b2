//! Debounced detector of externally-caused package-store changes: a kind
//! filter, a relevance filter against the watched root, and a cooldown
//! window that coalesces a burst of changes into one signal.

use vstd::prelude::*;

verus! {

/// The shape of one raw file-system notification, reduced to what the
/// relevance rules read.
#[derive(Clone, Copy, Debug, PartialEq, Eq, Structural)]
pub enum ChangeKind {
    CreateDir,
    RemoveDir,
    CreateFile,
    RemoveFile,
    Rename,
    /// Everything else: access, metadata, and other noise.
    Other,
}

/// Only structural changes count; access and metadata noise does not.
pub open spec fn is_meaningful(k: ChangeKind) -> bool {
    k != ChangeKind::Other
}

pub fn meaningful(k: ChangeKind) -> (r: bool)
    ensures
        r == is_meaningful(k),
{
    !matches!(k, ChangeKind::Other)
}

/// One path, given as its components, matters for kind `k`: it must lie
/// under the watched root; an entry created or removed must be a direct
/// child of the root; a file-level signal must be the `desc` file; a rename
/// anywhere under the root counts.
pub open spec fn path_relevant(k: ChangeKind, path: Seq<Seq<char>>, root: Seq<Seq<char>>) -> bool {
    &&& root.len() <= path.len()
    &&& path.take(root.len() as int) == root
    &&& match k {
        ChangeKind::CreateDir | ChangeKind::RemoveDir => path.len() == root.len() + 1,
        ChangeKind::Rename => true,
        ChangeKind::CreateFile | ChangeKind::RemoveFile => path.len() > root.len() && path.last()
            == "desc"@,
        ChangeKind::Other => false,
    }
}

pub fn path_is_relevant(k: ChangeKind, path: &Vec<String>, root: &Vec<String>) -> (r: bool)
    ensures
        r == path_relevant(k, path.deep_view(), root.deep_view()),
{
    let rn = root.len();
    let pn = path.len();
    if rn > pn {
        return false;
    }
    let mut i: usize = 0;
    while i < rn
        invariant
            rn == root@.len(),
            pn == path@.len(),
            rn <= pn,
            0 <= i <= rn,
            forall|j: int| 0 <= j < i ==> path.deep_view()[j] == root.deep_view()[j],
        decreases rn - i,
    {
        if !(path[i] == root[i]) {
            proof {
                assert(path.deep_view().take(rn as int)[i as int] != root.deep_view()[i as int]);
            }
            return false;
        }
        i = i + 1;
    }
    proof {
        assert(path.deep_view().take(rn as int) =~= root.deep_view());
    }
    match k {
        ChangeKind::CreateDir | ChangeKind::RemoveDir => pn - rn == 1,
        ChangeKind::Rename => true,
        ChangeKind::CreateFile | ChangeKind::RemoveFile => {
            if pn > rn {
                let desc = "desc".to_owned();
                let r = path[pn - 1] == desc;
                proof {
                    assert(path.deep_view().last() == path@[pn - 1]@);
                }
                r
            } else {
                false
            }
        },
        ChangeKind::Other => false,
    }
}

/// A raw notification matters when its kind is meaningful and at least one
/// of its paths is relevant.
pub open spec fn event_relevant(
    k: ChangeKind,
    paths: Seq<Seq<Seq<char>>>,
    root: Seq<Seq<char>>,
) -> bool {
    is_meaningful(k) && exists|i: int|
        0 <= i < paths.len() && path_relevant(k, #[trigger] paths[i], root)
}

pub fn event_is_relevant(k: ChangeKind, paths: &Vec<Vec<String>>, root: &Vec<String>) -> (r: bool)
    ensures
        r == event_relevant(k, paths.deep_view(), root.deep_view()),
{
    if !meaningful(k) {
        return false;
    }
    let n = paths.len();
    let mut i: usize = 0;
    while i < n
        invariant
            n == paths@.len(),
            0 <= i <= n,
            forall|j: int|
                0 <= j < i ==> !path_relevant(k, #[trigger] paths.deep_view()[j], root.deep_view()),
        decreases n - i,
    {
        if path_is_relevant(k, &paths[i], root) {
            assert(path_relevant(k, paths.deep_view()[i as int], root.deep_view()));
            return true;
        }
        i = i + 1;
    }
    false
}

/// The debounce state: at most one coalesced signal per cooldown window,
/// timestamped from the qualifying event that fired it.
pub struct Debouncer {
    pub cooldown_ms: u64,
    /// When the last signal fired; `None` before the first one.
    pub last_emit: Option<u64>,
}

impl Debouncer {
    /// A signal fires at `now_ms` exactly when none has fired yet, or the
    /// last one lies a full cooldown in the past.
    pub open spec fn should_emit(self, now_ms: u64) -> bool {
        match self.last_emit {
            None => true,
            Some(t) => now_ms >= t + self.cooldown_ms,
        }
    }

    pub fn new(cooldown_ms: u64) -> (d: Debouncer)
        ensures
            d.cooldown_ms == cooldown_ms,
            d.last_emit is None,
    {
        Debouncer { cooldown_ms, last_emit: None }
    }

    /// Feeds one relevant change, stamped with a monotone clock, and says
    /// whether a coalesced signal fires; a firing signal restarts the
    /// window, a silenced one leaves it untouched.
    pub fn observe(&mut self, now_ms: u64) -> (emit: bool)
        ensures
            emit == old(self).should_emit(now_ms),
            final(self).cooldown_ms == old(self).cooldown_ms,
            final(self).last_emit == if emit {
                Some(now_ms)
            } else {
                old(self).last_emit
            },
    {
        let fire = match self.last_emit {
            None => true,
            Some(t) => now_ms >= t && now_ms - t >= self.cooldown_ms,
        };
        if fire {
            self.last_emit = Some(now_ms);
        }
        fire
    }
}

/// After a signal fires at `t1`, every relevant event strictly inside the
/// cooldown window is silent, and the next signal can come no earlier than
/// one full cooldown later: a burst inside the window yields exactly one
/// signal.
pub proof fn lemma_one_signal_per_window(cooldown_ms: u64, t1: u64, t2: u64)
    ensures
        ({
            let d = Debouncer { cooldown_ms, last_emit: Some(t1) };
            d.should_emit(t2) <==> t2 >= t1 + cooldown_ms
        }),
{
}

} // verus!
