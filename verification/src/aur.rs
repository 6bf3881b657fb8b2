//! The community-repository provider: the pure parts of its pipeline. The
//! engine's verified share is the build-file dependency parser, the package
//! artifact check, the query URLs and the summary assembly; the HTTP, git
//! and build-tool calls around them live with the caller.

use crate::domain::{PackageId, PackageIdV, PackageSummary, Source, SummaryV};
use crate::strutil::{
    chars_of, eq_chars, has_prefix, lex_le, lex_le_str, lines_spec, rfind_before, split_lines,
    starts_with_chars, string_of_range, trim_spec, trim_str,
};
use vstd::prelude::*;
use vstd::string::StringExecFns;

verus! {

/// The community-repository provider handle.
pub struct AurBackend;

impl AurBackend {
    pub fn new() -> AurBackend {
        AurBackend
    }
}

/// The first position at or after `i` holding a version delimiter.
pub open spec fn find_delim(s: Seq<char>, i: int) -> int
    decreases s.len() - i,
{
    if i < 0 || i >= s.len() {
        s.len() as int
    } else if s[i] == '<' || s[i] == '>' || s[i] == '=' {
        i
    } else {
        find_delim(s, i + 1)
    }
}

proof fn lemma_find_delim_at(s: Seq<char>, i: int, j: int)
    requires
        0 <= i <= j <= s.len(),
        forall|k: int| i <= k < j ==> s[k] != '<' && s[k] != '>' && s[k] != '=',
        j == s.len() || s[j] == '<' || s[j] == '>' || s[j] == '=',
    ensures
        find_delim(s, i) == j,
    decreases j - i,
{
    if i < j {
        lemma_find_delim_at(s, i + 1, j);
    }
}

/// What `strip_ver` returns: the name before any version constraint,
/// trimmed.
pub open spec fn strip_ver_spec(s: Seq<char>) -> Seq<char> {
    trim_spec(s.take(find_delim(s, 0)))
}

/// Cuts a dependency token such as `glibc>=2.39` down to its bare name.
pub fn strip_ver(s: &str) -> (r: String)
    ensures
        r@ == strip_ver_spec(s@),
{
    let v = chars_of(s);
    let n = v.len();
    let mut j: usize = 0;
    while j < n && v[j] != '<' && v[j] != '>' && v[j] != '='
        invariant
            0 <= j <= n,
            n == v@.len(),
            forall|k: int| 0 <= k < j ==> v@[k] != '<' && v@[k] != '>' && (#[trigger] v@[k]) != '=',
        decreases n - j,
    {
        j = j + 1;
    }
    proof {
        lemma_find_delim_at(v@, 0, j as int);
    }
    let head = string_of_range(&v, 0, j);
    proof {
        assert(v@.subrange(0, j as int) =~= v@.take(j as int));
    }
    trim_str(head.as_str())
}

/// The dependency names a build file's lines declare, in file order.
pub open spec fn collect_deps(lines: Seq<Seq<char>>) -> Seq<Seq<char>>
    decreases lines.len(),
{
    if lines.len() == 0 {
        Seq::empty()
    } else {
        let t = trim_spec(lines[0]);
        let rest = collect_deps(lines.drop_first());
        if has_prefix(t, "depends = "@) {
            seq![strip_ver_spec(t.skip("depends = "@.len() as int))] + rest
        } else if has_prefix(t, "makedepends = "@) {
            seq![strip_ver_spec(t.skip("makedepends = "@.len() as int))] + rest
        } else {
            rest
        }
    }
}

/// Stable insertion of one name into a sorted list of names.
pub open spec fn insert_sorted_str(s: Seq<Seq<char>>, x: Seq<char>) -> Seq<Seq<char>>
    decreases s.len(),
{
    if s.len() > 0 && lex_le(s[0], x) {
        seq![s[0]] + insert_sorted_str(s.drop_first(), x)
    } else {
        seq![x] + s
    }
}

/// The stable sort of a list of names.
pub open spec fn sort_strs_spec(s: Seq<Seq<char>>) -> Seq<Seq<char>>
    decreases s.len(),
{
    if s.len() == 0 {
        Seq::empty()
    } else {
        insert_sorted_str(sort_strs_spec(s.drop_last()), s.last())
    }
}

/// Removal of consecutive duplicates, as `Vec::dedup` does it.
pub open spec fn dedup_spec(s: Seq<Seq<char>>) -> Seq<Seq<char>>
    decreases s.len(),
{
    if s.len() <= 1 {
        s
    } else if s.last() == s[s.len() - 2] {
        dedup_spec(s.drop_last())
    } else {
        dedup_spec(s.drop_last()).push(s.last())
    }
}

proof fn lemma_insert_str_at(s: Seq<Seq<char>>, x: Seq<char>, j: int)
    requires
        0 <= j <= s.len(),
        forall|k: int| 0 <= k < j ==> lex_le(#[trigger] s[k], x),
        j == s.len() || !lex_le(s[j], x),
    ensures
        insert_sorted_str(s, x) == s.insert(j, x),
    decreases j,
{
    if j == 0 {
        assert(seq![x] + s =~= s.insert(0, x));
    } else {
        let s1 = s.drop_first();
        assert(forall|k: int| 0 <= k < j - 1 ==> lex_le(#[trigger] s1[k], x));
        lemma_insert_str_at(s1, x, j - 1);
        assert(seq![s[0]] + s1.insert(j - 1, x) =~= s.insert(j, x));
    }
}

fn sort_strs(items: Vec<String>) -> (r: Vec<String>)
    ensures
        r.deep_view() == sort_strs_spec(items.deep_view()),
{
    let ghost all = items.deep_view();
    let mut rest = items;
    let mut out: Vec<String> = Vec::new();
    let mut idx: usize = 0;
    let total = rest.len();
    assert(all.len() == total);
    while rest.len() > 0
        invariant
            idx + rest@.len() == all.len(),
            all.len() <= usize::MAX,
            rest.deep_view() == all.skip(idx as int),
            out.deep_view() == sort_strs_spec(all.take(idx as int)),
        decreases rest@.len(),
    {
        let ghost rest0 = rest@;
        let ghost restd0 = rest.deep_view();
        let x = rest.remove(0);
        proof {
            assert(restd0[0] == rest0[0]@);
            assert(x@ == all[idx as int]);
            assert forall|i: int| 0 <= i < rest@.len() implies rest.deep_view()[i] == all.skip(
                idx + 1,
            )[i] by {
                assert(rest@[i] == rest0[i + 1]);
                assert(restd0[i + 1] == rest0[i + 1]@);
                assert(all.skip(idx + 1)[i] == all.skip(idx as int)[i + 1]);
            }
            assert(rest.deep_view() =~= all.skip(idx + 1));
        }
        let n = out.len();
        let mut j: usize = 0;
        while j < n && lex_le_str(&out[j], &x)
            invariant
                n == out@.len(),
                0 <= j <= n,
                forall|k: int| 0 <= k < j ==> lex_le(#[trigger] out.deep_view()[k], x@),
            decreases n - j,
        {
            j = j + 1;
        }
        let ghost out0 = out.deep_view();
        proof {
            lemma_insert_str_at(out0, x@, j as int);
        }
        out.insert(j, x);
        proof {
            assert(out.deep_view() =~~= out0.insert(j as int, x@));
            assert(all.take(idx + 1).drop_last() =~= all.take(idx as int));
            assert(all.take(idx + 1).last() == all[idx as int]);
        }
        idx = idx + 1;
    }
    proof {
        assert(all.take(idx as int) =~= all);
    }
    out
}

fn dedup_strs(items: Vec<String>) -> (r: Vec<String>)
    ensures
        r.deep_view() == dedup_spec(items.deep_view()),
{
    let ghost all = items.deep_view();
    let n = items.len();
    let mut out: Vec<String> = Vec::new();
    let mut i: usize = 0;
    proof {
        assert(all.take(0) =~= Seq::<Seq<char>>::empty());
    }
    while i < n
        invariant
            n == items@.len(),
            all == items.deep_view(),
            0 <= i <= n,
            out.deep_view() == dedup_spec(all.take(i as int)),
        decreases n - i,
    {
        let ghost out0 = out.deep_view();
        let keep = if i == 0 {
            true
        } else {
            !(items[i] == items[i - 1])
        };
        proof {
            assert(all.take(i + 1).drop_last() =~= all.take(i as int));
            assert(all.take(i + 1).last() == all[i as int]);
            assert(all[i as int] == items@[i as int]@);
            if i > 0 {
                assert(all.take(i + 1)[i - 1] == all[i - 1]);
                assert(all[i - 1] == items@[i - 1]@);
            }
        }
        if keep {
            let x = items[i].clone();
            out.push(x);
            proof {
                assert(out.deep_view() =~~= out0.push(all[i as int]));
            }
        }
        i = i + 1;
    }
    proof {
        assert(all.take(n as int) =~= all);
    }
    out
}

/// The dependency names of a build file: every `depends = ` and
/// `makedepends = ` entry, version constraints cut away, sorted with
/// duplicates removed.
pub fn parse_srcinfo_deps(srcinfo: &str) -> (r: Vec<String>)
    ensures
        r.deep_view() == dedup_spec(sort_strs_spec(collect_deps(lines_spec(srcinfo@)))),
{
    let ov = chars_of(srcinfo);
    let lines = split_lines(&ov);
    let ghost ld = lines.deep_view();
    let n = lines.len();
    let mut names: Vec<String> = Vec::new();
    let mut i: usize = 0;
    proof {
        assert(ld.skip(0) =~= ld);
        assert(names.deep_view() =~= Seq::<Seq<char>>::empty());
        assert(Seq::<Seq<char>>::empty() + collect_deps(ld) =~= collect_deps(ld));
    }
    while i < n
        invariant
            n == lines@.len(),
            ld == lines.deep_view(),
            0 <= i <= n,
            collect_deps(ld) == names.deep_view() + collect_deps(ld.skip(i as int)),
        decreases n - i,
    {
        let ghost n0 = names.deep_view();
        let t = trim_str(lines[i].as_str());
        proof {
            assert(lines@[i as int]@ == ld[i as int]);
            assert(ld.skip(i as int).drop_first() =~= ld.skip(i + 1));
        }
        let tv = chars_of(t.as_str());
        let p_dep = chars_of("depends = ");
        let p_mk = chars_of("makedepends = ");
        if starts_with_chars(&tv, &p_dep) {
            let v = string_of_range(&tv, p_dep.len(), tv.len());
            proof {
                assert(tv@.subrange(p_dep@.len() as int, tv@.len() as int) =~= tv@.skip(
                    "depends = "@.len() as int,
                ));
            }
            let name = strip_ver(v.as_str());
            let ghost nv = name@;
            names.push(name);
            proof {
                assert(names.deep_view() =~~= n0 + seq![nv]);
                assert((n0 + seq![nv]) + collect_deps(ld.skip(i + 1)) =~~= n0 + (seq![nv]
                    + collect_deps(ld.skip(i + 1))));
            }
        } else if starts_with_chars(&tv, &p_mk) {
            let v = string_of_range(&tv, p_mk.len(), tv.len());
            proof {
                assert(tv@.subrange(p_mk@.len() as int, tv@.len() as int) =~= tv@.skip(
                    "makedepends = "@.len() as int,
                ));
            }
            let name = strip_ver(v.as_str());
            let ghost nv = name@;
            names.push(name);
            proof {
                assert(names.deep_view() =~~= n0 + seq![nv]);
                assert((n0 + seq![nv]) + collect_deps(ld.skip(i + 1)) =~~= n0 + (seq![nv]
                    + collect_deps(ld.skip(i + 1))));
            }
        }
        i = i + 1;
    }
    proof {
        assert(names.deep_view() =~~= names.deep_view() + collect_deps(ld.skip(i as int)));
    }
    let sorted = sort_strs(names);
    dedup_strs(sorted)
}

/// The path names a zst package artifact: the extension of its file name,
/// read as the standard library reads one, is `zst`.
pub open spec fn has_zst_ext(p: Seq<char>) -> bool {
    let f = p.skip(rfind_before(p, '/', p.len() as int) + 1);
    let d = rfind_before(f, '.', f.len() as int);
    d >= 1 && f.skip(d + 1) == "zst"@
}

/// Checks that a built package artifact's path carries the `zst`
/// extension. Whether the path names a real file stays with the caller,
/// beside its other file-system work.
pub fn validate_pkg_path(p: &str) -> (r: bool)
    ensures
        r == has_zst_ext(p@),
{
    let v = chars_of(p);
    let n = v.len();
    let fstart = match crate::strutil::rfind_char_before(&v, '/', n) {
        Some(k) => k + 1,
        None => 0,
    };
    let fs = string_of_range(&v, fstart, n);
    let f = chars_of(fs.as_str());
    proof {
        assert(v@.subrange(fstart as int, n as int) =~= v@.skip(
            rfind_before(v@, '/', n as int) + 1,
        ));
    }
    let fn_len = f.len();
    let d = match crate::strutil::rfind_char_before(&f, '.', fn_len) {
        Some(k) => k,
        None => {
            return false;
        },
    };
    if d < 1 {
        return false;
    }
    let ext = string_of_range(&f, d + 1, fn_len);
    let ev = chars_of(ext.as_str());
    let zst = chars_of("zst");
    proof {
        assert(f@.subrange(d + 1, fn_len as int) =~= f@.skip(d + 1));
    }
    eq_chars(&ev, &zst)
}

/// The names of the installed packages, as the query tool lists them: one
/// trimmed, non-blank name per line.
pub open spec fn installed_names_spec(lines: Seq<Seq<char>>) -> Seq<Seq<char>>
    decreases lines.len(),
{
    if lines.len() == 0 {
        Seq::empty()
    } else {
        let t = trim_spec(lines[0]);
        let rest = installed_names_spec(lines.drop_first());
        if t.len() > 0 {
            seq![t] + rest
        } else {
            rest
        }
    }
}

/// Parses the installed-package listing into its names.
pub fn parse_installed_names(out: &str) -> (r: Vec<String>)
    ensures
        r.deep_view() == installed_names_spec(lines_spec(out@)),
{
    let ov = chars_of(out);
    let lines = split_lines(&ov);
    let ghost ld = lines.deep_view();
    let n = lines.len();
    let mut r: Vec<String> = Vec::new();
    let mut i: usize = 0;
    proof {
        assert(ld.skip(0) =~= ld);
        assert(r.deep_view() =~= Seq::<Seq<char>>::empty());
        assert(Seq::<Seq<char>>::empty() + installed_names_spec(ld) =~= installed_names_spec(ld));
    }
    while i < n
        invariant
            n == lines@.len(),
            ld == lines.deep_view(),
            0 <= i <= n,
            installed_names_spec(ld) == r.deep_view() + installed_names_spec(ld.skip(i as int)),
        decreases n - i,
    {
        let ghost r0 = r.deep_view();
        let t = trim_str(lines[i].as_str());
        proof {
            assert(lines@[i as int]@ == ld[i as int]);
            assert(ld.skip(i as int).drop_first() =~= ld.skip(i + 1));
        }
        if !t.as_str().is_empty() {
            let ghost tv = t@;
            r.push(t);
            proof {
                assert(r.deep_view() =~~= r0 + seq![tv]);
                assert((r0 + seq![tv]) + installed_names_spec(ld.skip(i + 1)) =~~= r0 + (seq![tv]
                    + installed_names_spec(ld.skip(i + 1))));
            }
        }
        i = i + 1;
    }
    proof {
        assert(r.deep_view() =~~= r.deep_view() + installed_names_spec(ld.skip(i as int)));
    }
    r
}

/// `name` is one of the listed names.
pub fn installed_contains(names: &Vec<String>, name: &String) -> (r: bool)
    ensures
        r == names.deep_view().contains(name@),
{
    let n = names.len();
    let mut i: usize = 0;
    while i < n
        invariant
            n == names@.len(),
            0 <= i <= n,
            forall|k: int| 0 <= k < i ==> names.deep_view()[k] != name@,
        decreases n - i,
    {
        if names[i] == *name {
            assert(names.deep_view()[i as int] == name@);
            return true;
        }
        i = i + 1;
    }
    assert(!names.deep_view().contains(name@));
    false
}

/// Builds one community-repository row out of the raw answer fields.
pub fn aur_summary(
    name: String,
    version: String,
    description: Option<String>,
    votes: Option<u32>,
    last_modified: Option<u64>,
    installed: bool,
) -> (r: PackageSummary)
    ensures
        r@ == (SummaryV {
            id: PackageIdV { name: name@, source: Source::Aur },
            version: version@,
            description: match description {
                Some(d) => d@,
                None => Seq::empty(),
            },
            installed: installed,
            popular: votes,
            last_updated: last_modified,
        }),
{
    let desc = match description {
        Some(d) => d,
        None => String::new(),
    };
    PackageSummary {
        id: PackageId { name, source: Source::Aur },
        version,
        description: desc,
        installed,
        popular: votes,
        last_updated: last_modified,
    }
}

/// A name for what `urlencoding::encode` returns; the result depends on the
/// string alone.
pub uninterp spec fn url_encoded(s: Seq<char>) -> Seq<char>;

/// Relies on `urlencoding::encode`: percent-encodes every byte except the
/// unreserved ones, a pure function of its input.
#[verifier::external_body]
fn url_encode(s: &str) -> (r: String)
    ensures
        r@ == url_encoded(s@),
{
    urlencoding::encode(s).into_owned()
}

/// The community repository's search endpoint for a query.
pub fn aur_search_url(q: &str) -> (r: String)
    ensures
        r@ == "https://aur.archlinux.org/rpc/?v=5&type=search&by=name-desc&arg="@ + url_encoded(
            q@,
        ),
{
    let mut u = "https://aur.archlinux.org/rpc/?v=5&type=search&by=name-desc&arg=".to_owned();
    u.append(url_encode(q).as_str());
    u
}

/// The community repository's info endpoint for one package name.
pub fn aur_info_url(name: &str) -> (r: String)
    ensures
        r@ == "https://aur.archlinux.org/rpc/?v=5&type=info&arg[]="@ + url_encoded(name@),
{
    let mut u = "https://aur.archlinux.org/rpc/?v=5&type=info&arg[]=".to_owned();
    u.append(url_encode(name).as_str());
    u
}

/// The clone URL of one package's build recipe.
pub fn aur_git_url(name: &str) -> (r: String)
    ensures
        r@ == "https://aur.archlinux.org/"@ + name@ + ".git"@,
{
    let mut u = "https://aur.archlinux.org/".to_owned();
    u.append(name);
    u.append(".git");
    u
}

/// Names stand in lexicographic order, pairwise.
pub open spec fn sorted_lex(s: Seq<Seq<char>>) -> bool {
    forall|i: int, j: int| 0 <= i < j < s.len() ==> lex_le(#[trigger] s[i], #[trigger] s[j])
}

/// Where the stable insertion puts a name.
pub open spec fn insert_pos_str(s: Seq<Seq<char>>, x: Seq<char>) -> int
    decreases s.len(),
{
    if s.len() > 0 && lex_le(s[0], x) {
        1 + insert_pos_str(s.drop_first(), x)
    } else {
        0
    }
}

proof fn lemma_insert_str_shape(s: Seq<Seq<char>>, x: Seq<char>)
    ensures
        0 <= insert_pos_str(s, x) <= s.len(),
        insert_sorted_str(s, x) == s.insert(insert_pos_str(s, x), x),
        forall|k: int| 0 <= k < insert_pos_str(s, x) ==> lex_le(#[trigger] s[k], x),
        insert_pos_str(s, x) < s.len() ==> !lex_le(s[insert_pos_str(s, x)], x),
    decreases s.len(),
{
    if s.len() > 0 && lex_le(s[0], x) {
        let s1 = s.drop_first();
        lemma_insert_str_shape(s1, x);
        let p1 = insert_pos_str(s1, x);
        assert(seq![s[0]] + s1.insert(p1, x) =~= s.insert(p1 + 1, x));
        assert forall|k: int|
            1 <= k < insert_pos_str(s, x) implies lex_le(#[trigger] s[k], x) by {
            assert(s1[k - 1] == s[k]);
            assert(lex_le(s1[k - 1], x));
        }
    } else {
        assert(seq![x] + s =~= s.insert(0, x));
    }
}

proof fn lemma_insert_str_ordered(s: Seq<Seq<char>>, x: Seq<char>)
    requires
        sorted_lex(s),
    ensures
        sorted_lex(insert_sorted_str(s, x)),
{
    lemma_insert_str_shape(s, x);
    let p = insert_pos_str(s, x);
    let r = s.insert(p, x);
    s.insert_ensures(p, x);
    assert forall|i: int, j: int|
        0 <= i < j < r.len() implies lex_le(#[trigger] r[i], #[trigger] r[j]) by {
        if i < p && j < p {
            assert(r[i] == s[i] && r[j] == s[j]);
        } else if i < p && j == p {
            assert(r[i] == s[i] && r[j] == x);
        } else if i < p && j > p {
            assert(r[i] == s[i] && r[j] == s[j - 1]);
            if j - 1 == i {
                crate::sorting::lemma_lex_le_total(x, s[p]);
                crate::sorting::lemma_lex_le_trans(s[i], x, s[j - 1]);
            }
        } else if i == p && j > p {
            assert(r[i] == x && r[j] == s[j - 1]);
            crate::sorting::lemma_lex_le_total(x, s[p]);
            if j - 1 > p {
                crate::sorting::lemma_lex_le_trans(x, s[p], s[j - 1]);
            }
        } else {
            assert(i > p && j > p);
            assert(r[i] == s[i - 1] && r[j] == s[j - 1]);
        }
    }
}

proof fn lemma_sort_strs_sorted(s: Seq<Seq<char>>)
    ensures
        sorted_lex(sort_strs_spec(s)),
    decreases s.len(),
{
    if s.len() > 0 {
        lemma_sort_strs_sorted(s.drop_last());
        lemma_insert_str_ordered(sort_strs_spec(s.drop_last()), s.last());
    }
}

proof fn lemma_dedup_strict(s: Seq<Seq<char>>)
    requires
        sorted_lex(s),
    ensures
        s.len() > 0 ==> dedup_spec(s).len() > 0 && dedup_spec(s).last() == s.last(),
        forall|i: int|
            0 <= i < dedup_spec(s).len() - 1 ==> lex_le(
                #[trigger] dedup_spec(s)[i],
                dedup_spec(s)[i + 1],
            ) && dedup_spec(s)[i] != dedup_spec(s)[i + 1],
    decreases s.len(),
{
    if s.len() > 1 {
        let t = s.drop_last();
        assert(sorted_lex(t)) by {
            assert(forall|i: int, j: int|
                0 <= i < j < t.len() ==> lex_le(#[trigger] t[i], #[trigger] t[j]));
        }
        lemma_dedup_strict(t);
        if s.last() == s[s.len() - 2] {
        } else {
            let r0 = dedup_spec(t);
            let r = r0.push(s.last());
            assert forall|i: int|
                0 <= i < r.len() - 1 implies lex_le(#[trigger] r[i], r[i + 1]) && r[i] != r[i
                + 1] by {
                if i < r0.len() - 1 {
                    assert(r[i] == r0[i] && r[i + 1] == r0[i + 1]);
                } else {
                    assert(r[i] == r0.last() && r[i + 1] == s.last());
                    assert(r0.last() == t.last());
                    assert(lex_le(t.last(), s.last()));
                }
            }
        }
    }
}

/// The dependency list that comes out of the build-file parser is
/// canonical: each name is strictly below its successor, so the list is
/// ordered and holds no name twice in a row.
pub proof fn lemma_deps_canonical(s: Seq<Seq<char>>)
    ensures
        ({
            let r = dedup_spec(sort_strs_spec(s));
            forall|i: int|
                0 <= i < r.len() - 1 ==> lex_le(#[trigger] r[i], r[i + 1]) && r[i] != r[i + 1]
        }),
{
    lemma_sort_strs_sorted(s);
    lemma_dedup_strict(sort_strs_spec(s));
}

} // verus!
