//! Verified character-sequence utilities: trimming, substring search,
//! lexicographic order, and conversion between `str` and `Vec<char>`.

use vstd::prelude::*;
use vstd::std_specs::iter::IteratorSpec;
use vstd::string::StrSliceExecFns;

verus! {

broadcast use vstd::string::axiom_spec_iter, vstd::string::next_postcondition;

/// The characters `str::trim` removes: the Unicode `White_Space` set.
pub open spec fn is_space_spec(c: char) -> bool {
    let u = c as u32;
    (0x09 <= u && u <= 0x0D) || u == 0x20 || u == 0x85 || u == 0xA0 || u == 0x1680 || (0x2000 <= u
        && u <= 0x200A) || u == 0x2028 || u == 0x2029 || u == 0x202F || u == 0x205F || u == 0x3000
}

pub fn is_space(c: char) -> (r: bool)
    ensures
        r == is_space_spec(c),
{
    let u = c as u32;
    (0x09 <= u && u <= 0x0D) || u == 0x20 || u == 0x85 || u == 0xA0 || u == 0x1680 || (0x2000 <= u
        && u <= 0x200A) || u == 0x2028 || u == 0x2029 || u == 0x202F || u == 0x205F || u == 0x3000
}

/// The characters of `s`, in order.
pub fn chars_of(s: &str) -> (v: Vec<char>)
    ensures
        v@ == s@,
{
    let mut it = s.chars();
    let mut v: Vec<char> = Vec::new();
    loop
        invariant
            v@ + it.remaining() == s@,
            it.decrease() is Some,
        ensures
            v@ == s@,
        decreases it.decrease()->0,
    {
        match it.next() {
            Some(c) => {
                v.push(c);
            },
            None => {
                assert(v@ =~= s@);
                break ;
            },
        }
    }
    v
}

pub open spec fn trim_start_spec(s: Seq<char>) -> Seq<char>
    decreases s.len(),
{
    if s.len() > 0 && is_space_spec(s[0]) {
        trim_start_spec(s.drop_first())
    } else {
        s
    }
}

pub open spec fn trim_end_spec(s: Seq<char>) -> Seq<char>
    decreases s.len(),
{
    if s.len() > 0 && is_space_spec(s[s.len() - 1]) {
        trim_end_spec(s.drop_last())
    } else {
        s
    }
}

/// What `str::trim` returns: `s` without leading and trailing white space.
pub open spec fn trim_spec(s: Seq<char>) -> Seq<char> {
    trim_end_spec(trim_start_spec(s))
}

proof fn lemma_trim_start_at(s: Seq<char>, i: int)
    requires
        0 <= i <= s.len(),
        forall|k: int| 0 <= k < i ==> is_space_spec(s[k]),
        i == s.len() || !is_space_spec(s[i]),
    ensures
        trim_start_spec(s) == s.skip(i),
    decreases i,
{
    if i == 0 {
        assert(s.skip(0) =~= s);
    } else {
        let t = s.drop_first();
        assert(forall|k: int| 0 <= k < i - 1 ==> is_space_spec(#[trigger] t[k]));
        lemma_trim_start_at(t, i - 1);
        assert(t.skip(i - 1) =~= s.skip(i));
    }
}

proof fn lemma_trim_end_at(s: Seq<char>, j: int)
    requires
        0 <= j <= s.len(),
        forall|k: int| j <= k < s.len() ==> is_space_spec(s[k]),
        j == 0 || !is_space_spec(s[j - 1]),
    ensures
        trim_end_spec(s) == s.take(j),
    decreases s.len() - j,
{
    if j == s.len() {
        assert(s.take(j) =~= s);
    } else {
        let t = s.drop_last();
        assert(forall|k: int| j <= k < t.len() ==> is_space_spec(#[trigger] t[k]));
        lemma_trim_end_at(t, j);
        assert(t.take(j) =~= s.take(j));
    }
}

/// The bounds of the trimmed middle of `v`: `trim_spec(v@) == v@.subrange(r.0, r.1)`.
pub fn trim_bounds(v: &Vec<char>) -> (r: (usize, usize))
    ensures
        0 <= r.0 <= r.1 <= v@.len(),
        trim_spec(v@) == v@.subrange(r.0 as int, r.1 as int),
{
    let n = v.len();
    let mut start: usize = 0;
    while start < n && is_space(v[start])
        invariant
            0 <= start <= n,
            n == v@.len(),
            forall|k: int| 0 <= k < start ==> is_space_spec(v@[k]),
        decreases n - start,
    {
        start = start + 1;
    }
    let mut end: usize = n;
    while end > start && is_space(v[end - 1])
        invariant
            start <= end <= n,
            n == v@.len(),
            forall|k: int| end <= k < n ==> is_space_spec(v@[k]),
        decreases end,
    {
        end = end - 1;
    }
    proof {
        lemma_trim_start_at(v@, start as int);
        let t = v@.skip(start as int);
        assert(forall|k: int|
            end - start <= k < t.len() ==> is_space_spec(#[trigger] t[k]));
        lemma_trim_end_at(t, end - start);
        assert(t.take(end - start) =~= v@.subrange(start as int, end as int));
    }
    (start, end)
}

/// What `str::trim` returns, as an owned string.
pub fn trim_str(s: &str) -> (t: String)
    ensures
        t@ == trim_spec(s@),
{
    let v = chars_of(s);
    let (start, end) = trim_bounds(&v);
    let sub = s.substring_char(start, end);
    sub.to_owned()
}

/// `needle` occurs contiguously somewhere in `hay`.
pub open spec fn contains_seq(hay: Seq<char>, needle: Seq<char>) -> bool {
    exists|i: int|
        0 <= i && i + needle.len() <= hay.len() && #[trigger] hay.subrange(i, i + needle.len())
            == needle
}

pub fn contains_chars(hay: &Vec<char>, needle: &Vec<char>) -> (r: bool)
    ensures
        r == contains_seq(hay@, needle@),
{
    let hn = hay.len();
    let nn = needle.len();
    if nn > hn {
        assert(!contains_seq(hay@, needle@));
        return false;
    }
    if nn == 0 {
        proof {
            assert(hay@.subrange(0, 0 + needle@.len() as int) =~= needle@);
        }
        return true;
    }
    let mut i: usize = 0;
    while i <= hn - nn
        invariant
            1 <= nn <= hn,
            hn == hay@.len(),
            nn == needle@.len(),
            0 <= i <= hn - nn + 1,
            forall|p: int|
                0 <= p < i ==> #[trigger] hay@.subrange(p, p + needle@.len()) != needle@,
        decreases hn - nn - i + 1,
    {
        let mut j: usize = 0;
        let mut matched = true;
        while j < nn
            invariant
                nn == needle@.len(),
                hn == hay@.len(),
                i + nn <= hn,
                0 <= j <= nn,
                matched ==> forall|k: int| 0 <= k < j ==> hay@[i + k] == needle@[k],
                !matched ==> hay@.subrange(i as int, i + needle@.len()) != needle@,
            decreases nn - j,
        {
            if hay[i + j] != needle[j] {
                proof {
                    assert(hay@.subrange(i as int, i + needle@.len())[j as int] != needle@[j as int]);
                }
                matched = false;
                j = nn;
            } else {
                j = j + 1;
            }
        }
        if matched {
            proof {
                assert(hay@.subrange(i as int, i + needle@.len()) =~= needle@);
            }
            return true;
        }
        i = i + 1;
    }
    assert(forall|p: int|
        0 <= p && p + needle@.len() <= hay@.len() ==> #[trigger] hay@.subrange(p, p
            + needle@.len()) != needle@);
    false
}

/// Lexicographic order on character sequences by Unicode code point; ties of
/// a common prefix fall to the shorter sequence. This is the order `str`
/// comparison gives.
pub open spec fn lex_le(a: Seq<char>, b: Seq<char>) -> bool
    decreases a.len(),
{
    if a.len() == 0 {
        true
    } else if b.len() == 0 {
        false
    } else if a[0] != b[0] {
        (a[0] as u32) < (b[0] as u32)
    } else {
        lex_le(a.drop_first(), b.drop_first())
    }
}

proof fn lemma_lex_skip(a: Seq<char>, b: Seq<char>, i: int)
    requires
        0 <= i <= a.len(),
        i <= b.len(),
        forall|k: int| 0 <= k < i ==> a[k] == b[k],
    ensures
        lex_le(a, b) == lex_le(a.skip(i), b.skip(i)),
    decreases i,
{
    if i == 0 {
        assert(a.skip(0) =~= a);
        assert(b.skip(0) =~= b);
    } else {
        assert(a.len() > 0 && b.len() > 0 && a[0] == b[0]);
        let a1 = a.drop_first();
        let b1 = b.drop_first();
        assert(forall|k: int| 0 <= k < i - 1 ==> #[trigger] a1[k] == b1[k]);
        lemma_lex_skip(a1, b1, i - 1);
        assert(a1.skip(i - 1) =~= a.skip(i));
        assert(b1.skip(i - 1) =~= b.skip(i));
    }
}

pub fn lex_le_chars(a: &Vec<char>, b: &Vec<char>) -> (r: bool)
    ensures
        r == lex_le(a@, b@),
{
    let an = a.len();
    let bn = b.len();
    let mut i: usize = 0;
    loop
        invariant
            an == a@.len(),
            bn == b@.len(),
            0 <= i <= an,
            i <= bn,
            forall|k: int| 0 <= k < i ==> a@[k] == b@[k],
        decreases an - i,
    {
        proof {
            lemma_lex_skip(a@, b@, i as int);
        }
        if i == an {
            return true;
        }
        if i == bn {
            return false;
        }
        let ca = a[i];
        let cb = b[i];
        if ca != cb {
            proof {
                assert(a@.skip(i as int)[0] == ca);
                assert(b@.skip(i as int)[0] == cb);
            }
            return (ca as u32) < (cb as u32);
        }
        i = i + 1;
    }
}

/// The order `str` comparison gives, on two strings.
pub fn lex_le_str(a: &String, b: &String) -> (r: bool)
    ensures
        r == lex_le(a@, b@),
{
    let va = chars_of(a.as_str());
    let vb = chars_of(b.as_str());
    lex_le_chars(&va, &vb)
}

/// `p` is a prefix of `s`.
pub open spec fn has_prefix(s: Seq<char>, p: Seq<char>) -> bool {
    p.len() <= s.len() && s.take(p.len() as int) == p
}

pub fn starts_with_chars(v: &Vec<char>, p: &Vec<char>) -> (r: bool)
    ensures
        r == has_prefix(v@, p@),
{
    let pn = p.len();
    if pn > v.len() {
        return false;
    }
    let mut i: usize = 0;
    while i < pn
        invariant
            pn == p@.len(),
            pn <= v@.len(),
            0 <= i <= pn,
            forall|k: int| 0 <= k < i ==> v@[k] == p@[k],
        decreases pn - i,
    {
        if v[i] != p[i] {
            proof {
                assert(v@.take(p@.len() as int)[i as int] != p@[i as int]);
            }
            return false;
        }
        i = i + 1;
    }
    proof {
        assert(v@.take(p@.len() as int) =~= p@);
    }
    true
}

pub fn eq_chars(a: &Vec<char>, b: &Vec<char>) -> (r: bool)
    ensures
        r == (a@ == b@),
{
    let an = a.len();
    if an != b.len() {
        return false;
    }
    let mut i: usize = 0;
    while i < an
        invariant
            an == a@.len() == b@.len(),
            0 <= i <= an,
            forall|k: int| 0 <= k < i ==> a@[k] == b@[k],
        decreases an - i,
    {
        if a[i] != b[i] {
            return false;
        }
        i = i + 1;
    }
    proof {
        assert(a@ =~= b@);
    }
    true
}

/// Relies on `String::push`: appends exactly one character.
#[verifier::external_body]
pub(crate) fn push_char(s: &mut String, c: char)
    ensures
        final(s)@ == old(s)@.push(c),
{
    s.push(c);
}

/// The characters `v[a..b]`, as an owned string.
pub fn string_of_range(v: &Vec<char>, a: usize, b: usize) -> (r: String)
    requires
        a <= b <= v@.len(),
    ensures
        r@ == v@.subrange(a as int, b as int),
{
    let mut r = String::new();
    let mut i: usize = a;
    while i < b
        invariant
            a <= i <= b <= v@.len(),
            r@ == v@.subrange(a as int, i as int),
        decreases b - i,
    {
        push_char(&mut r, v[i]);
        proof {
            assert(v@.subrange(a as int, i as int).push(v@[i as int]) =~= v@.subrange(
                a as int,
                i + 1,
            ));
        }
        i = i + 1;
    }
    r
}

/// Accumulator-style model of `str::split_whitespace`: `cur` is the token
/// being read when position `i` is reached.
pub open spec fn split_ws_from(s: Seq<char>, i: int, cur: Seq<char>) -> Seq<Seq<char>>
    decreases s.len() - i,
{
    if i < 0 || i >= s.len() {
        if cur.len() > 0 {
            seq![cur]
        } else {
            Seq::empty()
        }
    } else if is_space_spec(s[i]) {
        (if cur.len() > 0 {
            seq![cur]
        } else {
            Seq::empty()
        }) + split_ws_from(s, i + 1, Seq::empty())
    } else {
        split_ws_from(s, i + 1, cur.push(s[i]))
    }
}

/// What `str::split_whitespace` returns: the maximal runs of non-white-space.
pub open spec fn split_ws_spec(s: Seq<char>) -> Seq<Seq<char>> {
    split_ws_from(s, 0, Seq::empty())
}

/// The white-space-separated tokens of `v`.
pub fn split_ws(v: &Vec<char>) -> (r: Vec<String>)
    ensures
        r.deep_view() == split_ws_spec(v@),
{
    let n = v.len();
    let mut r: Vec<String> = Vec::new();
    let mut cur = String::new();
    let mut i: usize = 0;
    while i < n
        invariant
            n == v@.len(),
            0 <= i <= n,
            split_ws_spec(v@) == r.deep_view() + split_ws_from(v@, i as int, cur@),
        decreases n - i,
    {
        let ghost r0 = r.deep_view();
        let ghost cur0 = cur@;
        let c = v[i];
        if is_space(c) {
            if !cur.as_str().is_empty() {
                r.push(cur);
                cur = String::new();
                proof {
                    assert(cur0.len() > 0);
                    assert(split_ws_from(v@, i as int, cur0) == seq![cur0] + split_ws_from(
                        v@,
                        i + 1,
                        Seq::<char>::empty(),
                    ));
                    assert(r.deep_view() =~~= r0 + seq![cur0]);
                    assert((r0 + seq![cur0]) + split_ws_from(v@, i + 1, Seq::<char>::empty())
                        =~~= r0 + (seq![cur0] + split_ws_from(v@, i + 1, Seq::<char>::empty())));
                    assert(split_ws_spec(v@) == r.deep_view() + split_ws_from(
                        v@,
                        i + 1,
                        Seq::<char>::empty(),
                    ));
                }
            } else {
                proof {
                    assert(cur0 =~= Seq::<char>::empty());
                    assert(Seq::<Seq<char>>::empty() + split_ws_from(
                        v@,
                        i + 1,
                        Seq::<char>::empty(),
                    ) =~~= split_ws_from(v@, i + 1, Seq::<char>::empty()));
                }
            }
        } else {
            push_char(&mut cur, c);
        }
        i = i + 1;
    }
    let ghost r0 = r.deep_view();
    let ghost cur0 = cur@;
    if !cur.as_str().is_empty() {
        r.push(cur);
        proof {
            assert(r.deep_view() =~~= r0 + seq![cur0]);
        }
    } else {
        proof {
            assert(r.deep_view() =~~= r0 + Seq::<Seq<char>>::empty());
        }
    }
    r
}

/// What `str::lines` strips from a line it cut at a newline: one trailing
/// carriage return.
pub open spec fn chop_cr(l: Seq<char>) -> Seq<char> {
    if l.len() > 0 && l[l.len() - 1] == '\r' {
        l.drop_last()
    } else {
        l
    }
}

/// Accumulator-style model of `str::lines`: `cur` is the line being read
/// when position `i` is reached.
pub open spec fn lines_from(s: Seq<char>, i: int, cur: Seq<char>) -> Seq<Seq<char>>
    decreases s.len() - i,
{
    if i < 0 || i >= s.len() {
        if cur.len() > 0 {
            seq![cur]
        } else {
            Seq::empty()
        }
    } else if s[i] == '\n' {
        seq![chop_cr(cur)] + lines_from(s, i + 1, Seq::empty())
    } else {
        lines_from(s, i + 1, cur.push(s[i]))
    }
}

/// What `str::lines` returns: lines split at `\n`, each without a trailing
/// `\r`; a final line end is optional.
pub open spec fn lines_spec(s: Seq<char>) -> Seq<Seq<char>> {
    lines_from(s, 0, Seq::empty())
}

/// The lines of `v`, as `str::lines` cuts them.
pub fn split_lines(v: &Vec<char>) -> (r: Vec<String>)
    ensures
        r.deep_view() == lines_spec(v@),
{
    let n = v.len();
    let mut r: Vec<String> = Vec::new();
    let mut cur = String::new();
    let mut i: usize = 0;
    while i < n
        invariant
            n == v@.len(),
            0 <= i <= n,
            lines_spec(v@) == r.deep_view() + lines_from(v@, i as int, cur@),
        decreases n - i,
    {
        let ghost r0 = r.deep_view();
        let ghost cur0 = cur@;
        let c = v[i];
        if c == '\n' {
            let cv = chars_of(cur.as_str());
            let line = if cv.len() > 0 && cv[cv.len() - 1] == '\r' {
                proof {
                    assert(cv@.subrange(0, cv@.len() - 1) =~= cv@.drop_last());
                }
                string_of_range(&cv, 0, cv.len() - 1)
            } else {
                cur
            };
            assert(line@ == chop_cr(cur0));
            r.push(line);
            cur = String::new();
            proof {
                assert(r.deep_view() =~~= r0 + seq![chop_cr(cur0)]);
                assert((r0 + seq![chop_cr(cur0)]) + lines_from(v@, i + 1, Seq::<char>::empty())
                    =~~= r0 + (seq![chop_cr(cur0)] + lines_from(v@, i + 1, Seq::<char>::empty())));
            }
        } else {
            push_char(&mut cur, c);
        }
        i = i + 1;
    }
    let ghost r0 = r.deep_view();
    let ghost cur0 = cur@;
    if !cur.as_str().is_empty() {
        r.push(cur);
        proof {
            assert(r.deep_view() =~~= r0 + seq![cur0]);
        }
    } else {
        proof {
            assert(r.deep_view() =~~= r0 + Seq::<Seq<char>>::empty());
        }
    }
    r
}

/// A name for what `str::to_lowercase` returns; the result depends on the
/// characters alone.
pub uninterp spec fn lower_of(s: Seq<char>) -> Seq<char>;

/// Relies on `str::to_lowercase`: lowercases per the Unicode tables, a pure
/// function of the character sequence.
#[verifier::external_body]
pub(crate) fn lowercase(s: &str) -> (r: String)
    ensures
        r@ == lower_of(s@),
{
    s.to_lowercase()
}

/// The first position at or after `i` that holds white space, or the end.
pub open spec fn find_space(s: Seq<char>, i: int) -> int
    decreases s.len() - i,
{
    if i < 0 || i >= s.len() {
        s.len() as int
    } else if is_space_spec(s[i]) {
        i
    } else {
        find_space(s, i + 1)
    }
}

/// The first position at or after `i` that holds anything but white space,
/// or the end.
pub open spec fn find_non_space(s: Seq<char>, i: int) -> int
    decreases s.len() - i,
{
    if i < 0 || i >= s.len() {
        s.len() as int
    } else if !is_space_spec(s[i]) {
        i
    } else {
        find_non_space(s, i + 1)
    }
}

/// The first position at or after `i` that holds `c`, or the end.
pub open spec fn find_char_spec(s: Seq<char>, c: char, i: int) -> int
    decreases s.len() - i,
{
    if i < 0 || i >= s.len() {
        s.len() as int
    } else if s[i] == c {
        i
    } else {
        find_char_spec(s, c, i + 1)
    }
}

/// The last position strictly before `i` that holds `c`, or `-1`.
pub open spec fn rfind_before(s: Seq<char>, c: char, i: int) -> int
    decreases i,
{
    if i <= 0 || i > s.len() {
        -1
    } else if s[i - 1] == c {
        i - 1
    } else {
        rfind_before(s, c, i - 1)
    }
}

proof fn lemma_find_space_at(s: Seq<char>, i: int, j: int)
    requires
        0 <= i <= j <= s.len(),
        forall|k: int| i <= k < j ==> !is_space_spec(s[k]),
        j == s.len() || is_space_spec(s[j]),
    ensures
        find_space(s, i) == j,
    decreases j - i,
{
    if i < j {
        lemma_find_space_at(s, i + 1, j);
    }
}

proof fn lemma_find_non_space_at(s: Seq<char>, i: int, j: int)
    requires
        0 <= i <= j <= s.len(),
        forall|k: int| i <= k < j ==> is_space_spec(s[k]),
        j == s.len() || !is_space_spec(s[j]),
    ensures
        find_non_space(s, i) == j,
    decreases j - i,
{
    if i < j {
        lemma_find_non_space_at(s, i + 1, j);
    }
}

proof fn lemma_find_char_at(s: Seq<char>, c: char, i: int, j: int)
    requires
        0 <= i <= j <= s.len(),
        forall|k: int| i <= k < j ==> s[k] != c,
        j == s.len() || s[j] == c,
    ensures
        find_char_spec(s, c, i) == j,
    decreases j - i,
{
    if i < j {
        lemma_find_char_at(s, c, i + 1, j);
    }
}

proof fn lemma_rfind_at(s: Seq<char>, c: char, i: int, j: int)
    requires
        0 <= j < i <= s.len(),
        forall|k: int| j < k < i ==> s[k] != c,
        s[j] == c,
    ensures
        rfind_before(s, c, i) == j,
    decreases i - j,
{
    if j < i - 1 {
        lemma_rfind_at(s, c, i - 1, j);
    }
}

proof fn lemma_rfind_none(s: Seq<char>, c: char, i: int)
    requires
        0 <= i <= s.len(),
        forall|k: int| 0 <= k < i ==> s[k] != c,
    ensures
        rfind_before(s, c, i) == -1,
    decreases i,
{
    if i > 0 {
        lemma_rfind_none(s, c, i - 1);
    }
}

pub fn find_space_at(v: &Vec<char>, i: usize) -> (r: usize)
    requires
        i <= v@.len(),
    ensures
        r == find_space(v@, i as int),
        i <= r <= v@.len(),
{
    let n = v.len();
    let mut j: usize = i;
    while j < n && !is_space(v[j])
        invariant
            i <= j <= n,
            n == v@.len(),
            forall|k: int| i <= k < j ==> !is_space_spec(v@[k]),
        decreases n - j,
    {
        j = j + 1;
    }
    proof {
        lemma_find_space_at(v@, i as int, j as int);
    }
    j
}

pub fn find_non_space_at(v: &Vec<char>, i: usize) -> (r: usize)
    requires
        i <= v@.len(),
    ensures
        r == find_non_space(v@, i as int),
        i <= r <= v@.len(),
{
    let n = v.len();
    let mut j: usize = i;
    while j < n && is_space(v[j])
        invariant
            i <= j <= n,
            n == v@.len(),
            forall|k: int| i <= k < j ==> is_space_spec(v@[k]),
        decreases n - j,
    {
        j = j + 1;
    }
    proof {
        lemma_find_non_space_at(v@, i as int, j as int);
    }
    j
}

pub fn find_char_at(v: &Vec<char>, c: char, i: usize) -> (r: usize)
    requires
        i <= v@.len(),
    ensures
        r == find_char_spec(v@, c, i as int),
        i <= r <= v@.len(),
{
    let n = v.len();
    let mut j: usize = i;
    while j < n && v[j] != c
        invariant
            i <= j <= n,
            n == v@.len(),
            forall|k: int| i <= k < j ==> v@[k] != c,
        decreases n - j,
    {
        j = j + 1;
    }
    proof {
        lemma_find_char_at(v@, c, i as int, j as int);
    }
    j
}

pub fn rfind_char_before(v: &Vec<char>, c: char, i: usize) -> (r: Option<usize>)
    requires
        i <= v@.len(),
    ensures
        match r {
            Some(k) => k == rfind_before(v@, c, i as int) && k < i,
            None => rfind_before(v@, c, i as int) == -1,
        },
{
    let mut j: usize = i;
    while j > 0
        invariant
            0 <= j <= i <= v@.len(),
            forall|k: int| j <= k < i ==> v@[k] != c,
        decreases j,
    {
        if v[j - 1] == c {
            proof {
                lemma_rfind_at(v@, c, i as int, j - 1);
            }
            return Some(j - 1);
        }
        j = j - 1;
    }
    proof {
        lemma_rfind_none(v@, c, i as int);
    }
    None
}

/// Where the trailing white space of `v` begins: `trim_end_spec(v@)` is
/// exactly `v@.take(r)`.
pub fn end_non_space(v: &Vec<char>) -> (r: usize)
    ensures
        r <= v@.len(),
        trim_end_spec(v@) == v@.take(r as int),
{
    let n = v.len();
    let mut end: usize = n;
    while end > 0 && is_space(v[end - 1])
        invariant
            0 <= end <= n,
            n == v@.len(),
            forall|k: int| end <= k < n ==> is_space_spec(v@[k]),
        decreases end,
    {
        end = end - 1;
    }
    proof {
        lemma_trim_end_at(v@, end as int);
    }
    end
}

/// `p` occurs in `v` starting exactly at `i`.
pub fn has_prefix_at(v: &Vec<char>, i: usize, p: &Vec<char>) -> (r: bool)
    requires
        i <= v@.len(),
    ensures
        r == has_prefix(v@.skip(i as int), p@),
{
    let n = v.len();
    let pn = p.len();
    if pn > n - i {
        return false;
    }
    let mut j: usize = 0;
    while j < pn
        invariant
            i + pn <= n,
            n == v@.len(),
            pn == p@.len(),
            0 <= j <= pn,
            forall|k: int| 0 <= k < j ==> v@[i + k] == p@[k],
        decreases pn - j,
    {
        if v[i + j] != p[j] {
            proof {
                assert(v@.skip(i as int).take(p@.len() as int)[j as int] != p@[j as int]);
            }
            return false;
        }
        j = j + 1;
    }
    proof {
        assert(v@.skip(i as int).take(p@.len() as int) =~= p@);
    }
    true
}

} // verus!
