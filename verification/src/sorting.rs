//! Stable sorting of result rows, specified as an insertion sort so that the
//! output is a single deterministic function of the input order and the mode.

use crate::domain::{PackageSummary, SortMode, SummaryV};
use crate::strutil::{chars_of, lex_le, lex_le_chars};
use vstd::multiset::Multiset;
use vstd::prelude::*;

verus! {

/// Missing popularity counts as zero.
pub open spec fn popularity_of(s: SummaryV) -> u32 {
    match s.popular {
        Some(p) => p,
        None => 0,
    }
}

/// `a` may stand at or before `b` under mode `m`: names ascending, names
/// descending, or popularity descending.
pub open spec fn item_le(m: SortMode, a: SummaryV, b: SummaryV) -> bool {
    match m {
        SortMode::NameAsc => lex_le(a.id.name, b.id.name),
        SortMode::NameDesc => lex_le(b.id.name, a.id.name),
        SortMode::Popularity => popularity_of(b) <= popularity_of(a),
    }
}

fn item_le_exec(m: SortMode, a: &PackageSummary, b: &PackageSummary) -> (r: bool)
    ensures
        r == item_le(m, a@, b@),
{
    match m {
        SortMode::NameAsc => {
            let va = chars_of(a.id.name.as_str());
            let vb = chars_of(b.id.name.as_str());
            lex_le_chars(&va, &vb)
        },
        SortMode::NameDesc => {
            let va = chars_of(a.id.name.as_str());
            let vb = chars_of(b.id.name.as_str());
            lex_le_chars(&vb, &va)
        },
        SortMode::Popularity => {
            let pa: u32 = match a.popular {
                Some(p) => p,
                None => 0,
            };
            let pb: u32 = match b.popular {
                Some(p) => p,
                None => 0,
            };
            pb <= pa
        },
    }
}

/// Stable insertion of `x` into `s`: `x` goes after every element that may
/// stand at or before it, so a later arrival never jumps ahead of a tie.
pub open spec fn insert_sorted(m: SortMode, s: Seq<SummaryV>, x: SummaryV) -> Seq<SummaryV>
    decreases s.len(),
{
    if s.len() > 0 && item_le(m, s[0], x) {
        seq![s[0]] + insert_sorted(m, s.drop_first(), x)
    } else {
        seq![x] + s
    }
}

/// The stable sort of `s` under mode `m`, element by element.
pub open spec fn sort_spec(m: SortMode, s: Seq<SummaryV>) -> Seq<SummaryV>
    decreases s.len(),
{
    if s.len() == 0 {
        Seq::empty()
    } else {
        insert_sorted(m, sort_spec(m, s.drop_last()), s.last())
    }
}

proof fn lemma_insert_at(m: SortMode, s: Seq<SummaryV>, x: SummaryV, j: int)
    requires
        0 <= j <= s.len(),
        forall|k: int| 0 <= k < j ==> item_le(m, s[k], x),
        j == s.len() || !item_le(m, s[j], x),
    ensures
        insert_sorted(m, s, x) == s.insert(j, x),
    decreases j,
{
    if j == 0 {
        assert(seq![x] + s =~= s.insert(0, x));
    } else {
        let s1 = s.drop_first();
        assert(forall|k: int| 0 <= k < j - 1 ==> item_le(m, #[trigger] s1[k], x));
        lemma_insert_at(m, s1, x, j - 1);
        assert(seq![s[0]] + s1.insert(j - 1, x) =~= s.insert(j, x));
    }
}

/// Sorts the rows under mode `m`; equal keys keep their input order.
pub fn sort_items(m: SortMode, items: Vec<PackageSummary>) -> (r: Vec<PackageSummary>)
    ensures
        r.deep_view() == sort_spec(m, items.deep_view()),
{
    let ghost all = items.deep_view();
    let mut rest = items;
    let mut out: Vec<PackageSummary> = Vec::new();
    let mut idx: usize = 0;
    let total = rest.len();
    assert(all.len() == total);
    while rest.len() > 0
        invariant
            idx + rest@.len() == all.len(),
            all.len() <= usize::MAX,
            rest.deep_view() == all.skip(idx as int),
            out.deep_view() == sort_spec(m, all.take(idx as int)),
        decreases rest@.len(),
    {
        let ghost rest0 = rest@;
        let ghost restd0 = rest.deep_view();
        let x = rest.remove(0);
        proof {
            assert(restd0[0] == rest0[0].deep_view());
            assert(x@ == all[idx as int]);
            assert forall|i: int| 0 <= i < rest@.len() implies rest.deep_view()[i] == all.skip(
                idx + 1,
            )[i] by {
                assert(rest@[i] == rest0[i + 1]);
                assert(restd0[i + 1] == rest0[i + 1].deep_view());
                assert(all.skip(idx + 1)[i] == all.skip(idx as int)[i + 1]);
            }
            assert(rest.deep_view() =~= all.skip(idx + 1));
        }
        let n = out.len();
        let mut j: usize = 0;
        while j < n && item_le_exec(m, &out[j], &x)
            invariant
                n == out@.len(),
                0 <= j <= n,
                forall|k: int| 0 <= k < j ==> item_le(m, #[trigger] out.deep_view()[k], x@),
            decreases n - j,
        {
            j = j + 1;
        }
        let ghost out0 = out.deep_view();
        proof {
            lemma_insert_at(m, out0, x@, j as int);
        }
        out.insert(j, x);
        proof {
            assert(out.deep_view() =~~= out0.insert(j as int, x@));
            assert(all.take(idx + 1).drop_last() =~= all.take(idx as int));
            assert(all.take(idx + 1).last() == all[idx as int]);
            assert(sort_spec(m, all.take(idx + 1)) == insert_sorted(
                m,
                sort_spec(m, all.take(idx as int)),
                all[idx as int],
            ));
        }
        idx = idx + 1;
    }
    proof {
        assert(all.take(idx as int) =~= all);
    }
    out
}

/// Any two rows can be compared: the order of each mode is total.
pub proof fn lemma_lex_le_total(a: Seq<char>, b: Seq<char>)
    ensures
        lex_le(a, b) || lex_le(b, a),
    decreases a.len(),
{
    if a.len() > 0 && b.len() > 0 {
        if a[0] == b[0] {
            lemma_lex_le_total(a.drop_first(), b.drop_first());
        } else {
            assert((a[0] as u32) != (b[0] as u32)) by {
                vstd::utf8::char_u32_cast(a[0], a[0] as u32);
                vstd::utf8::char_u32_cast(b[0], b[0] as u32);
            }
        }
    }
}

pub proof fn lemma_lex_le_trans(a: Seq<char>, b: Seq<char>, c: Seq<char>)
    requires
        lex_le(a, b),
        lex_le(b, c),
    ensures
        lex_le(a, c),
    decreases a.len(),
{
    if a.len() > 0 && b.len() > 0 && c.len() > 0 && a[0] == b[0] && b[0] == c[0] {
        lemma_lex_le_trans(a.drop_first(), b.drop_first(), c.drop_first());
    }
}

pub proof fn lemma_item_le_total(m: SortMode, a: SummaryV, b: SummaryV)
    ensures
        item_le(m, a, b) || item_le(m, b, a),
{
    match m {
        SortMode::NameAsc => lemma_lex_le_total(a.id.name, b.id.name),
        SortMode::NameDesc => lemma_lex_le_total(b.id.name, a.id.name),
        SortMode::Popularity => {},
    }
}

pub proof fn lemma_item_le_trans(m: SortMode, a: SummaryV, b: SummaryV, c: SummaryV)
    requires
        item_le(m, a, b),
        item_le(m, b, c),
    ensures
        item_le(m, a, c),
{
    match m {
        SortMode::NameAsc => lemma_lex_le_trans(a.id.name, b.id.name, c.id.name),
        SortMode::NameDesc => lemma_lex_le_trans(c.id.name, b.id.name, a.id.name),
        SortMode::Popularity => {},
    }
}

/// Every pair of rows stands in order under `m`.
pub open spec fn sorted_under(m: SortMode, s: Seq<SummaryV>) -> bool {
    forall|i: int, j: int|
        0 <= i < j < s.len() ==> item_le(m, #[trigger] s[i], #[trigger] s[j])
}

/// Where a stable insertion puts the new row: behind every row that may
/// stand at or before it.
pub open spec fn insert_pos(m: SortMode, s: Seq<SummaryV>, x: SummaryV) -> int
    decreases s.len(),
{
    if s.len() > 0 && item_le(m, s[0], x) {
        1 + insert_pos(m, s.drop_first(), x)
    } else {
        0
    }
}

proof fn lemma_insert_sorted_shape(m: SortMode, s: Seq<SummaryV>, x: SummaryV)
    ensures
        0 <= insert_pos(m, s, x) <= s.len(),
        insert_sorted(m, s, x) == s.insert(insert_pos(m, s, x), x),
        forall|k: int| 0 <= k < insert_pos(m, s, x) ==> item_le(m, #[trigger] s[k], x),
        insert_pos(m, s, x) < s.len() ==> !item_le(m, s[insert_pos(m, s, x)], x),
    decreases s.len(),
{
    if s.len() > 0 && item_le(m, s[0], x) {
        let s1 = s.drop_first();
        lemma_insert_sorted_shape(m, s1, x);
        let p1 = insert_pos(m, s1, x);
        assert(seq![s[0]] + s1.insert(p1, x) =~= s.insert(p1 + 1, x));
        assert forall|k: int|
            1 <= k < insert_pos(m, s, x) implies item_le(m, #[trigger] s[k], x) by {
            assert(s1[k - 1] == s[k]);
            assert(item_le(m, s1[k - 1], x));
        }
    } else {
        assert(seq![x] + s =~= s.insert(0, x));
    }
}

proof fn lemma_insert_sorted_ordered(m: SortMode, s: Seq<SummaryV>, x: SummaryV)
    requires
        sorted_under(m, s),
    ensures
        sorted_under(m, insert_sorted(m, s, x)),
{
    lemma_insert_sorted_shape(m, s, x);
    let p = insert_pos(m, s, x);
    let r = s.insert(p, x);
    s.insert_ensures(p, x);
    assert forall|i: int, j: int|
        0 <= i < j < r.len() implies item_le(m, #[trigger] r[i], #[trigger] r[j]) by {
        if i < p && j < p {
            assert(r[i] == s[i] && r[j] == s[j]);
        } else if i < p && j == p {
            assert(r[i] == s[i] && r[j] == x);
        } else if i < p && j > p {
            assert(r[i] == s[i] && r[j] == s[j - 1]);
            if j - 1 == i {
                lemma_item_le_total(m, x, s[p]);
                lemma_item_le_trans(m, s[i], x, s[j - 1]);
            }
        } else if i == p && j > p {
            assert(r[i] == x && r[j] == s[j - 1]);
            lemma_item_le_total(m, x, s[p]);
            if j - 1 > p {
                lemma_item_le_trans(m, x, s[p], s[j - 1]);
            }
        } else {
            assert(i > p && j > p);
            assert(r[i] == s[i - 1] && r[j] == s[j - 1]);
        }
    }
}

proof fn lemma_insert_sorted_multiset(m: SortMode, s: Seq<SummaryV>, x: SummaryV)
    ensures
        insert_sorted(m, s, x).to_multiset() =~= s.to_multiset().insert(x),
    decreases s.len(),
{
    broadcast use vstd::seq_lib::group_to_multiset_ensures;
    broadcast use vstd::multiset::group_multiset_axioms;

    if s.len() > 0 && item_le(m, s[0], x) {
        let s1 = s.drop_first();
        lemma_insert_sorted_multiset(m, s1, x);
        vstd::seq_lib::lemma_multiset_commutative(seq![s[0]], insert_sorted(m, s1, x));
        vstd::seq_lib::lemma_multiset_commutative(seq![s[0]], s1);
        assert(seq![s[0]] + s1 =~= s);
        assert(seq![s[0]].to_multiset() =~= Multiset::<SummaryV>::empty().insert(s[0])) by {
            assert(seq![s[0]] =~= Seq::<SummaryV>::empty().push(s[0]));
            assert(Seq::<SummaryV>::empty().to_multiset() =~= Multiset::<SummaryV>::empty());
        }
    } else {
        vstd::seq_lib::lemma_multiset_commutative(seq![x], s);
        assert(seq![x].to_multiset() =~= Multiset::<SummaryV>::empty().insert(x)) by {
            assert(seq![x] =~= Seq::<SummaryV>::empty().push(x));
            assert(Seq::<SummaryV>::empty().to_multiset() =~= Multiset::<SummaryV>::empty());
        }
    }
}

/// What the stable sort promises of its output shape: the rows are ordered
/// under the mode.
pub proof fn lemma_sort_spec_sorted(m: SortMode, s: Seq<SummaryV>)
    ensures
        sorted_under(m, sort_spec(m, s)),
    decreases s.len(),
{
    if s.len() > 0 {
        lemma_sort_spec_sorted(m, s.drop_last());
        lemma_insert_sorted_ordered(m, sort_spec(m, s.drop_last()), s.last());
    }
}

/// The sort neither invents nor loses a row: its output is a permutation of
/// its input.
pub proof fn lemma_sort_spec_permutes(m: SortMode, s: Seq<SummaryV>)
    ensures
        sort_spec(m, s).to_multiset() =~= s.to_multiset(),
    decreases s.len(),
{
    broadcast use vstd::seq_lib::group_to_multiset_ensures;

    if s.len() > 0 {
        lemma_sort_spec_permutes(m, s.drop_last());
        lemma_insert_sorted_multiset(m, sort_spec(m, s.drop_last()), s.last());
        assert(s.drop_last().push(s.last()) =~= s);
    }
}

pub proof fn lemma_lex_le_antisym(a: Seq<char>, b: Seq<char>)
    requires
        lex_le(a, b),
        lex_le(b, a),
    ensures
        a == b,
    decreases a.len(),
{
    if a.len() > 0 && b.len() > 0 && a[0] == b[0] {
        lemma_lex_le_antisym(a.drop_first(), b.drop_first());
        assert forall|i: int| 0 <= i < a.len() implies a[i] == b[i] by {
            if i > 0 {
                assert(a.drop_first()[i - 1] == b.drop_first()[i - 1]);
            }
        }
        assert(a =~= b);
    } else if a.len() == 0 {
        assert(b.len() == 0);
        assert(a =~= b);
    }
}

} // verus!
