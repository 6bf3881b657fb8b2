//! The provider that drives the system package manager's command-line
//! tools. The engine's verified share is the parsing of that tool's output:
//! upgrade listings, search results, package details and size figures. The
//! process handling around these parsers lives with the caller.

use crate::domain::{PackageDetails, PackageId, PackageIdV, PackageSummary, Source, SummaryV};
use crate::strutil::{chars_of, is_space, is_space_spec, lines_spec, split_lines, split_ws,
    split_ws_spec};
use vstd::prelude::*;
use vstd::string::StrSliceExecFns;

verus! {

/// The command-line provider handle.
pub struct PacmanCli;

impl PacmanCli {
    pub fn new() -> PacmanCli {
        PacmanCli
    }
}

/// An upgrade listing line: `name oldver -> newver`, whitespace separated,
/// with the name flush at the start of the line.
pub open spec fn upgrade_line_ok(l: Seq<char>) -> bool {
    let toks = split_ws_spec(l);
    l.len() > 0 && !is_space_spec(l[0]) && toks.len() >= 4 && toks[2] == "->"@
}

/// The row one upgrade line denotes: the name, the new version, installed.
pub open spec fn upgrade_model(l: Seq<char>) -> SummaryV {
    let toks = split_ws_spec(l);
    SummaryV {
        id: PackageIdV { name: toks[0], source: Source::Repo },
        version: toks[3],
        description: Seq::empty(),
        installed: true,
        popular: None,
        last_updated: None,
    }
}

/// Every row of an upgrade listing, in listing order.
pub open spec fn upgrades_spec(lines: Seq<Seq<char>>) -> Seq<SummaryV>
    decreases lines.len(),
{
    if lines.len() == 0 {
        Seq::empty()
    } else {
        let rest = upgrades_spec(lines.drop_first());
        if upgrade_line_ok(lines[0]) {
            seq![upgrade_model(lines[0])] + rest
        } else {
            rest
        }
    }
}

fn parse_upgrade_line(lv: &Vec<char>) -> (r: Option<PackageSummary>)
    ensures
        (r is Some) == upgrade_line_ok(lv@),
        r is Some ==> r->0@ == upgrade_model(lv@),
{
    if lv.len() == 0 || is_space(lv[0]) {
        return None;
    }
    let toks = split_ws(lv);
    if toks.len() < 4 {
        return None;
    }
    let arrow = "->".to_owned();
    if !(toks[2] == arrow) {
        proof {
            assert(toks.deep_view()[2] == toks@[2]@);
        }
        return None;
    }
    proof {
        assert(toks.deep_view()[2] == toks@[2]@);
        assert(toks.deep_view()[0] == toks@[0]@);
        assert(toks.deep_view()[3] == toks@[3]@);
    }
    let s = PackageSummary {
        id: PackageId { name: toks[0].clone(), source: Source::Repo },
        version: toks[3].clone(),
        description: String::new(),
        installed: true,
        popular: None,
        last_updated: None,
    };
    Some(s)
}

impl PacmanCli {
    /// Parses the upgrade listing, one `name oldver -> newver` row per
    /// matching line; every other line is passed over.
    pub fn parse_upgrades(out: &str) -> (r: Vec<PackageSummary>)
        ensures
            r.deep_view() == upgrades_spec(lines_spec(out@)),
    {
        let ov = chars_of(out);
        let lines = split_lines(&ov);
        let ghost ld = lines.deep_view();
        let n = lines.len();
        let mut r: Vec<PackageSummary> = Vec::new();
        let mut i: usize = 0;
        proof {
            assert(ld.skip(0) =~= ld);
            assert(r.deep_view() =~= Seq::<SummaryV>::empty());
            assert(Seq::<SummaryV>::empty() + upgrades_spec(ld) =~= upgrades_spec(ld));
        }
        while i < n
            invariant
                n == lines@.len(),
                ld == lines.deep_view(),
                0 <= i <= n,
                upgrades_spec(ld) == r.deep_view() + upgrades_spec(ld.skip(i as int)),
            decreases n - i,
        {
            let ghost r0 = r.deep_view();
            let lv = chars_of(lines[i].as_str());
            proof {
                assert(lv@ == ld[i as int]);
                assert(ld.skip(i as int).drop_first() =~= ld.skip(i + 1));
            }
            match parse_upgrade_line(&lv) {
                Some(s) => {
                    r.push(s);
                    proof {
                        assert(r.deep_view() =~~= r0 + seq![upgrade_model(ld[i as int])]);
                        assert((r0 + seq![upgrade_model(ld[i as int])]) + upgrades_spec(
                            ld.skip(i + 1),
                        ) =~~= r0 + (seq![upgrade_model(ld[i as int])] + upgrades_spec(
                            ld.skip(i + 1),
                        )));
                    }
                },
                None => {},
            }
            i = i + 1;
        }
        proof {
            assert(r.deep_view() =~~= r.deep_view() + upgrades_spec(ld.skip(i as int)));
        }
        r
    }
}

/// `c` is a decimal digit.
pub open spec fn is_digit(c: char) -> bool {
    48 <= c as u32 && c as u32 <= 57
}

pub open spec fn all_digits(s: Seq<char>) -> bool {
    forall|i: int| 0 <= i < s.len() ==> is_digit(#[trigger] s[i])
}

/// The value of a digit string, most significant first.
pub open spec fn digits_val(s: Seq<char>) -> int
    decreases s.len(),
{
    if s.len() == 0 {
        0
    } else {
        digits_val(s.drop_last()) * 10 + (s.last() as u32 - 48)
    }
}

pub open spec fn pow10(d: nat) -> int
    decreases d,
{
    if d == 0 {
        1
    } else {
        10 * pow10((d - 1) as nat)
    }
}

/// The byte multiplier of a size unit; an unknown unit counts as bytes.
pub open spec fn size_mult(unit: Seq<char>) -> int {
    if unit == "KiB"@ {
        1024
    } else if unit == "MiB"@ {
        1048576
    } else if unit == "GiB"@ {
        1073741824
    } else {
        1
    }
}

proof fn lemma_dv_zeros(s: Seq<char>)
    requires
        forall|k: int| 0 <= k < s.len() ==> (#[trigger] s[k]) as u32 == 48,
    ensures
        digits_val(s) == 0,
    decreases s.len(),
{
    if s.len() > 0 {
        lemma_dv_zeros(s.drop_last());
    }
}

proof fn lemma_dv_skip_zeros(s: Seq<char>, p: int)
    requires
        0 <= p <= s.len(),
        forall|k: int| 0 <= k < p ==> (#[trigger] s[k]) as u32 == 48,
    ensures
        digits_val(s) == digits_val(s.skip(p)),
    decreases s.len(),
{
    if p == 0 {
        assert(s.skip(0) =~= s);
    } else if p == s.len() {
        lemma_dv_zeros(s);
        assert(s.skip(p) =~= Seq::<char>::empty());
    } else {
        let t = s.drop_last();
        lemma_dv_skip_zeros(t, p);
        assert(s.skip(p).drop_last() =~= t.skip(p));
        assert(s.skip(p).last() == s.last());
    }
}

proof fn lemma_dv_upper(s: Seq<char>)
    requires
        all_digits(s),
    ensures
        0 <= digits_val(s) < pow10(s.len() as nat),
    decreases s.len(),
{
    if s.len() > 0 {
        assert(all_digits(s.drop_last())) by {
            assert(forall|i: int|
                0 <= i < s.len() - 1 ==> is_digit(#[trigger] s.drop_last()[i]));
        }
        lemma_dv_upper(s.drop_last());
    }
}

proof fn lemma_dv_lower(s: Seq<char>)
    requires
        all_digits(s),
        s.len() > 0,
        s[0] as u32 != 48,
    ensures
        digits_val(s) >= pow10((s.len() - 1) as nat),
    decreases s.len(),
{
    assert(is_digit(s[0]));
    if s.len() == 1 {
        assert(s.drop_last() =~= Seq::<char>::empty());
        assert(s.last() == s[0]);
        assert(s.last() as u32 - 48 >= 1);
        assert(pow10(0) == 1);
        assert(digits_val(s) == digits_val(Seq::<char>::empty()) * 10 + (s.last() as u32 - 48));
    } else {
        let t = s.drop_last();
        assert(all_digits(t)) by {
            assert(forall|i: int| 0 <= i < t.len() ==> is_digit(#[trigger] t[i]));
        }
        assert(t[0] == s[0]);
        lemma_dv_lower(t);
        assert(is_digit(s.last()));
        assert(s.last() as u32 - 48 >= 0);
        assert(digits_val(s) == digits_val(t) * 10 + (s.last() as u32 - 48));
        assert(digits_val(t) >= pow10((s.len() - 2) as nat));
        assert(digits_val(t) * 10 >= pow10((s.len() - 2) as nat) * 10);
        assert(pow10((s.len() - 1) as nat) == 10 * pow10((s.len() - 2) as nat));
        assert(digits_val(s) >= pow10((s.len() - 1) as nat));
    }
}

proof fn lemma_pow10_20()
    ensures
        pow10(20) == 0x56BC75E2D63100000,
        pow10(12) == 1000000000000,
{
    reveal_with_fuel(pow10, 21);
}

/// What `parse_size` reads out of `6.5 MiB` and the like: a digit string
/// with an optional fractional part, of which the first twelve digits
/// count, scaled by the unit, rounded down, saturating at `u64::MAX`. A
/// first token that is not such a number counts as zero.
pub open spec fn parse_size_spec(s: Seq<char>) -> u64 {
    let toks = split_ws_spec(s);
    if toks.len() == 0 {
        0u64
    } else {
        let num = toks[0];
        let unit = if toks.len() >= 2 {
            toks[1]
        } else {
            "B"@
        };
        let k = crate::strutil::find_char_spec(num, '.', 0);
        let ip = num.take(k);
        let fp = if k == num.len() {
            Seq::<char>::empty()
        } else {
            num.skip(k + 1)
        };
        if all_digits(ip) && all_digits(fp) && ip.len() + fp.len() > 0 {
            let fpu = if fp.len() > 12 {
                fp.take(12)
            } else {
                fp
            };
            let v = digits_val(ip) * size_mult(unit) + (digits_val(fpu) * size_mult(unit)) / pow10(
                fpu.len() as nat,
            );
            if v > u64::MAX {
                u64::MAX
            } else {
                v as u64
            }
        } else {
            0u64
        }
    }
}

/// Reads the digits of `v[from..to]` into a number, having already skipped
/// the region's leading zeros.
fn digits_value(v: &Vec<char>, from: usize, to: usize) -> (r: u128)
    requires
        from <= to <= v@.len(),
        all_digits(v@.subrange(from as int, to as int)),
        to - from <= 20,
    ensures
        r == digits_val(v@.subrange(from as int, to as int)),
        r < pow10((to - from) as nat),
{
    let ghost whole = v@.subrange(from as int, to as int);
    let mut r: u128 = 0;
    let mut j: usize = from;
    proof {
        lemma_pow10_20();
        assert(whole.take(0) =~= Seq::<char>::empty());
    }
    while j < to
        invariant
            from <= j <= to <= v@.len(),
            to - from <= 20,
            whole == v@.subrange(from as int, to as int),
            all_digits(whole),
            r == digits_val(whole.take(j - from)),
            r < pow10((j - from) as nat),
            pow10(20) == 0x56BC75E2D63100000,
        decreases to - j,
    {
        let c = v[j];
        proof {
            assert(whole[j - from] == v@[j as int]);
            assert(is_digit(whole[j - from]));
            assert(pow10((j - from) as nat) <= pow10(20)) by {
                lemma_pow10_mono((j - from) as nat, 20);
            }
        }
        let d = (c as u32) - 48;
        r = r * 10 + (d as u128);
        proof {
            assert(whole.take(j - from + 1).drop_last() =~= whole.take(j - from));
            assert(whole.take(j - from + 1).last() == whole[j - from]);
        }
        j = j + 1;
    }
    proof {
        assert(whole.take(to - from) =~= whole);
    }
    r
}

proof fn lemma_pow10_pos(d: nat)
    ensures
        pow10(d) >= 1,
    decreases d,
{
    if d > 0 {
        lemma_pow10_pos((d - 1) as nat);
    }
}

proof fn lemma_pow10_mono(a: nat, b: nat)
    requires
        a <= b,
    ensures
        pow10(a) <= pow10(b),
        pow10(a) >= 1,
    decreases b,
{
    lemma_pow10_pos(a);
    if b > 0 && a < b {
        lemma_pow10_mono(a, (b - 1) as nat);
        lemma_pow10_pos((b - 1) as nat);
    }
}

/// Checks that `v[from..to]` is all digits.
fn check_digits(v: &Vec<char>, from: usize, to: usize) -> (r: bool)
    requires
        from <= to <= v@.len(),
    ensures
        r == all_digits(v@.subrange(from as int, to as int)),
{
    let mut j: usize = from;
    while j < to
        invariant
            from <= j <= to <= v@.len(),
            forall|k: int| from <= k < j ==> is_digit(#[trigger] v@[k]),
        decreases to - j,
    {
        let c = v[j];
        let u = c as u32;
        if !(48 <= u && u <= 57) {
            proof {
                assert(v@.subrange(from as int, to as int)[j - from] == v@[j as int]);
            }
            return false;
        }
        j = j + 1;
    }
    proof {
        assert forall|i: int|
            0 <= i < v@.subrange(from as int, to as int).len() implies is_digit(
            #[trigger] v@.subrange(from as int, to as int)[i],
        ) by {
            assert(v@.subrange(from as int, to as int)[i] == v@[from + i]);
        }
    }
    true
}

/// Turns a human-readable size such as `6.5 MiB` into bytes.
pub fn parse_size(s: &str) -> (r: u64)
    ensures
        r == parse_size_spec(s@),
{
    let sv = chars_of(s);
    let toks = split_ws(&sv);
    if toks.len() == 0 {
        return 0;
    }
    let num = chars_of(toks[0].as_str());
    proof {
        assert(toks.deep_view()[0] == toks@[0]@);
        assert(num@ == split_ws_spec(sv@)[0]);
    }
    let ghost unit: Seq<char> = if split_ws_spec(sv@).len() >= 2 {
        split_ws_spec(sv@)[1]
    } else {
        "B"@
    };
    let mult: u64 = if toks.len() >= 2 {
        proof {
            assert(toks.deep_view()[1] == toks@[1]@);
            assert(unit == toks@[1]@);
        }
        let kib = "KiB".to_owned();
        let mib = "MiB".to_owned();
        let gib = "GiB".to_owned();
        if toks[1] == kib {
            1024
        } else if toks[1] == mib {
            1048576
        } else if toks[1] == gib {
            1073741824
        } else {
            1
        }
    } else {
        proof {
            reveal_strlit("B");
            reveal_strlit("KiB");
            reveal_strlit("MiB");
            reveal_strlit("GiB");
            assert("B"@.len() == 1);
            assert("KiB"@.len() == 3);
            assert("MiB"@.len() == 3);
            assert("GiB"@.len() == 3);
            assert(size_mult("B"@) == 1);
        }
        1
    };
    proof {
        assert(mult == size_mult(unit));
    }
    let n = num.len();
    let k = crate::strutil::find_char_at(&num, '.', 0);
    let fp_from = if k == n {
        n
    } else {
        k + 1
    };
    let ghost ip = num@.take(k as int);
    let ghost fp = if k == n {
        Seq::<char>::empty()
    } else {
        num@.skip(k as int + 1)
    };
    proof {
        assert(num@.subrange(0, k as int) =~= ip);
        assert(num@.subrange(fp_from as int, n as int) =~= fp);
    }
    if !check_digits(&num, 0, k) {
        return 0;
    }
    if !check_digits(&num, fp_from, n) {
        return 0;
    }
    if k == 0 && fp_from == n {
        return 0;
    }
    // integer part: skip leading zeros, cap the significant digits
    let mut z: usize = 0;
    while z < k && (num[z] as u32) == 48
        invariant
            0 <= z <= k,
            k <= num@.len(),
            forall|j: int| 0 <= j < z ==> (#[trigger] num@[j]) as u32 == 48,
        decreases k - z,
    {
        z = z + 1;
    }
    proof {
        lemma_dv_skip_zeros(ip, z as int);
        assert(ip.skip(z as int) =~= num@.subrange(z as int, k as int));
    }
    if k - z > 20 {
        proof {
            lemma_pow10_20();
            lemma_dv_lower(num@.subrange(z as int, k as int));
            lemma_pow10_mono(20, (k - z - 1) as nat);
            assert(digits_val(ip) >= pow10(20));
            assert(digits_val(ip) * size_mult(unit) >= digits_val(ip)) by (nonlinear_arith)
                requires
                    size_mult(unit) >= 1,
                    digits_val(ip) >= 0,
            ;
            lemma_dv_upper(fp);
            if fp.len() > 12 {
                assert(all_digits(fp.take(12))) by {
                    assert(forall|i: int|
                        0 <= i < 12 ==> is_digit(#[trigger] fp.take(12)[i]));
                }
                lemma_dv_upper(fp.take(12));
            }
            assert((digits_val(if fp.len() > 12 {
                fp.take(12)
            } else {
                fp
            }) * size_mult(unit)) / pow10((if fp.len() > 12 {
                fp.take(12)
            } else {
                fp
            }).len() as nat) >= 0) by (nonlinear_arith)
                requires
                    digits_val(if fp.len() > 12 {
                        fp.take(12)
                    } else {
                        fp
                    }) >= 0,
                    size_mult(unit) >= 1,
                    pow10((if fp.len() > 12 {
                        fp.take(12)
                    } else {
                        fp
                    }).len() as nat) >= 1,
            ;
        }
        return u64::MAX;
    }
    let iv = digits_value(&num, z, k);
    proof {
        assert(iv == digits_val(ip));
    }
    let fpu_to = if n - fp_from > 12 {
        fp_from + 12
    } else {
        n
    };
    proof {
        assert(num@.subrange(fp_from as int, fpu_to as int) =~= (if fp.len() > 12 {
            fp.take(12)
        } else {
            fp
        }));
        assert(all_digits(num@.subrange(fp_from as int, fpu_to as int))) by {
            assert(forall|i: int|
                0 <= i < fpu_to - fp_from ==> is_digit(
                    #[trigger] num@.subrange(fp_from as int, fpu_to as int)[i],
                ));
        }
    }
    let fv = digits_value(&num, fp_from, fpu_to);
    let mut p10: u128 = 1;
    let mut j: usize = 0;
    let d = fpu_to - fp_from;
    proof {
        lemma_pow10_20();
    }
    while j < d
        invariant
            0 <= j <= d <= 12,
            p10 == pow10(j as nat),
            pow10(12) == 1000000000000,
        decreases d - j,
    {
        proof {
            lemma_pow10_mono(j as nat, 12);
        }
        p10 = p10 * 10;
        j = j + 1;
    }
    let ghost fpu = num@.subrange(fp_from as int, fpu_to as int);
    proof {
        lemma_pow10_20();
        lemma_pow10_pos(d as nat);
        lemma_pow10_mono(d as nat, 12);
        lemma_pow10_mono((k - z) as nat, 20);
        assert(fv < pow10(d as nat));
        assert(fv <= 1000000000000u128);
        assert(iv < pow10((k - z) as nat));
        assert(iv <= 0x56BC75E2D63100000u128);
        assert(mult as u128 <= 1073741824u128);
        assert(fv * (mult as u128) <= 1000000000000u128 * 1073741824u128) by (nonlinear_arith)
            requires
                fv <= 1000000000000u128,
                mult as u128 <= 1073741824u128,
        ;
        assert(iv * (mult as u128) <= 0x56BC75E2D63100000u128 * 1073741824u128)
            by (nonlinear_arith)
            requires
                iv <= 0x56BC75E2D63100000u128,
                mult as u128 <= 1073741824u128,
        ;
    }
    let fm = fv * (mult as u128);
    let frac_part = fm / p10;
    let im = iv * (mult as u128);
    let total = im + frac_part;
    proof {
        assert(total == digits_val(ip) * size_mult(unit) + (digits_val(fpu) * size_mult(unit))
            / pow10(fpu.len() as nat));
    }
    if total > 0xFFFF_FFFF_FFFF_FFFFu128 {
        u64::MAX
    } else {
        total as u64
    }
}

/// Positions of the pieces of a search head line `repo/name version
/// [installed...]`: end of the first token, its last slash, and the bounds
/// of the version token.
pub open spec fn head_name_end(l: Seq<char>) -> int {
    crate::strutil::find_space(l, 0)
}

pub open spec fn head_slash(l: Seq<char>) -> int {
    crate::strutil::rfind_before(l, '/', head_name_end(l))
}

pub open spec fn head_ver_start(l: Seq<char>) -> int {
    crate::strutil::find_non_space(l, head_name_end(l))
}

pub open spec fn head_ver_end(l: Seq<char>) -> int {
    crate::strutil::find_space(l, head_ver_start(l))
}

pub open spec fn head_rest_start(l: Seq<char>) -> int {
    crate::strutil::find_non_space(l, head_ver_end(l))
}

/// A head line of the search output: `repo/name version`, starting flush at
/// the line start, optionally followed by an `[installed...]` marker and
/// trailing white space.
pub open spec fn head_line_ok(l: Seq<char>) -> bool {
    let e0 = head_name_end(l);
    let sl = head_slash(l);
    let b1 = head_ver_start(l);
    let b2 = head_rest_start(l);
    let j = crate::strutil::trim_end_spec(l).len() as int;
    &&& l.len() > 0
    &&& !is_space_spec(l[0])
    &&& 1 <= sl
    &&& sl <= e0 - 2
    &&& b1 < l.len()
    &&& (b2 == l.len() || {
        &&& crate::strutil::has_prefix(l.skip(b2), "[installed"@)
        &&& j - 1 >= b2 + 10
        &&& l[j - 1] == ']'
    })
}

/// The row a head line denotes: name after the slash, the version token,
/// and whether the line carries the installed marker.
pub open spec fn head_model(l: Seq<char>) -> SummaryV {
    SummaryV {
        id: PackageIdV {
            name: l.subrange(head_slash(l) + 1, head_name_end(l)),
            source: Source::Repo,
        },
        version: l.subrange(head_ver_start(l), head_ver_end(l)),
        description: Seq::empty(),
        installed: crate::strutil::contains_seq(l, "[installed"@),
        popular: None,
        last_updated: None,
    }
}

/// A description line: indented under its head line.
pub open spec fn is_desc_line(l: Seq<char>) -> bool {
    l.len() > 0 && (l[0] == ' ' || l[0] == '\t')
}

/// The fold state while reading search output: finished rows, and a head
/// row still waiting for its description line.
pub ghost struct SearchAcc {
    pub done: Seq<SummaryV>,
    pub pending: Option<SummaryV>,
}

/// One line of search output: a head line starts a fresh pending row
/// (dropping an unfinished one), a description line completes the pending
/// row, anything else changes nothing.
pub open spec fn search_step(acc: SearchAcc, l: Seq<char>) -> SearchAcc {
    if head_line_ok(l) {
        SearchAcc { done: acc.done, pending: Some(head_model(l)) }
    } else if is_desc_line(l) {
        match acc.pending {
            Some(p) => SearchAcc {
                done: acc.done + seq![
                    SummaryV { description: crate::strutil::trim_spec(l), ..p },
                ],
                pending: None,
            },
            None => acc,
        }
    } else {
        acc
    }
}

pub open spec fn search_fold(lines: Seq<Seq<char>>, acc: SearchAcc) -> SearchAcc
    decreases lines.len(),
{
    if lines.len() == 0 {
        acc
    } else {
        search_fold(lines.drop_first(), search_step(acc, lines[0]))
    }
}

/// All rows of the search output: the fold over its lines, with a pending
/// head line at the end kept, description-less.
pub open spec fn parse_search_spec(out: Seq<char>) -> Seq<SummaryV> {
    let acc = search_fold(lines_spec(out), SearchAcc { done: Seq::empty(), pending: None });
    match acc.pending {
        Some(p) => acc.done + seq![p],
        None => acc.done,
    }
}

fn parse_head_line(lv: &Vec<char>) -> (r: Option<PackageSummary>)
    ensures
        (r is Some) == head_line_ok(lv@),
        r is Some ==> r->0@ == head_model(lv@),
{
    let n = lv.len();
    if n == 0 || is_space(lv[0]) {
        return None;
    }
    let e0 = crate::strutil::find_space_at(lv, 0);
    let sl = match crate::strutil::rfind_char_before(lv, '/', e0) {
        Some(k) => k,
        None => {
            return None;
        },
    };
    if !(1 <= sl && e0 - sl >= 2) {
        return None;
    }
    let b1 = crate::strutil::find_non_space_at(lv, e0);
    if b1 == n {
        return None;
    }
    let e1 = crate::strutil::find_space_at(lv, b1);
    let b2 = crate::strutil::find_non_space_at(lv, e1);
    let marker = chars_of("[installed");
    proof {
        reveal_strlit("[installed");
        assert(marker@.len() == 10);
    }
    if b2 < n {
        let j = crate::strutil::end_non_space(lv);
        if !(crate::strutil::has_prefix_at(lv, b2, &marker) && j >= 11 && j - 11 >= b2) {
            return None;
        }
        let cl = lv[j - 1];
        if cl != ']' {
            proof {
                assert(crate::strutil::trim_end_spec(lv@)[j - 1] == lv@[j - 1]);
            }
            return None;
        }
        proof {
            assert(crate::strutil::trim_end_spec(lv@)[j - 1] == lv@[j - 1]);
        }
    }
    let inst = crate::strutil::contains_chars(lv, &marker);
    let name = crate::strutil::string_of_range(lv, sl + 1, e0);
    let ver = crate::strutil::string_of_range(lv, b1, e1);
    Some(
        PackageSummary {
            id: PackageId { name, source: Source::Repo },
            version: ver,
            description: String::new(),
            installed: inst,
            popular: None,
            last_updated: None,
        },
    )
}

/// Parses the search output: head lines paired with the indented
/// description line that follows each.
pub fn parse_pacman_search(out: &str) -> (r: Vec<PackageSummary>)
    ensures
        r.deep_view() == parse_search_spec(out@),
{
    let ov = chars_of(out);
    let lines = split_lines(&ov);
    let ghost ld = lines.deep_view();
    let ghost init = SearchAcc { done: Seq::empty(), pending: None };
    let n = lines.len();
    let mut done: Vec<PackageSummary> = Vec::new();
    let mut pending: Option<PackageSummary> = None;
    let mut i: usize = 0;
    proof {
        assert(ld.skip(0) =~= ld);
        assert(done.deep_view() =~= Seq::<SummaryV>::empty());
    }
    while i < n
        invariant
            n == lines@.len(),
            ld == lines.deep_view(),
            0 <= i <= n,
            search_fold(ld, init) == search_fold(
                ld.skip(i as int),
                SearchAcc { done: done.deep_view(), pending: pending.deep_view() },
            ),
        decreases n - i,
    {
        let ghost acc0 = SearchAcc { done: done.deep_view(), pending: pending.deep_view() };
        let lv = chars_of(lines[i].as_str());
        proof {
            assert(lv@ == ld[i as int]);
            assert(ld.skip(i as int).drop_first() =~= ld.skip(i + 1));
        }
        match parse_head_line(&lv) {
            Some(s) => {
                pending = Some(s);
            },
            None => {
                if lv.len() > 0 && (lv[0] == ' ' || lv[0] == '\t') {
                    let taken = pending;
                    pending = None;
                    match taken {
                        Some(mut p) => {
                            let ghost p0 = p@;
                            let ghost d0 = done.deep_view();
                            p.description = crate::strutil::trim_str(lines[i].as_str());
                            assert(p@ == (SummaryV {
                                description: crate::strutil::trim_spec(ld[i as int]),
                                ..p0
                            }));
                            done.push(p);
                            proof {
                                assert(done.deep_view() =~~= d0 + seq![
                                    SummaryV {
                                        description: crate::strutil::trim_spec(ld[i as int]),
                                        ..p0
                                    },
                                ]);
                            }
                        },
                        None => {},
                    }
                }
            },
        }
        i = i + 1;
    }
    match pending {
        Some(p) => {
            let ghost d0 = done.deep_view();
            let ghost pv = p@;
            done.push(p);
            proof {
                assert(done.deep_view() =~~= d0 + seq![pv]);
            }
        },
        None => {},
    }
    done
}

/// The starting state of a details read: the given summary and nothing else.
pub open spec fn init_details(s: SummaryV) -> crate::domain::DetailsV {
    crate::domain::DetailsV {
        summary: s,
        depends: Seq::empty(),
        opt_depends: Seq::empty(),
        homepage: None,
        maintainer: None,
        size_install: None,
        size_download: None,
    }
}

/// One line of `pacman -Si` output, matched against the labelled fields the
/// engine reads; the line loses its trailing white space first.
pub open spec fn details_step(d: crate::domain::DetailsV, lraw: Seq<char>) -> crate::domain::DetailsV {
    let l = crate::strutil::trim_end_spec(lraw);
    if crate::strutil::has_prefix(l, "Depends On      :"@) {
        let v = l.skip("Depends On      :"@.len() as int);
        if crate::strutil::trim_spec(v) != "None"@ {
            crate::domain::DetailsV { depends: split_ws_spec(v), ..d }
        } else {
            d
        }
    } else if crate::strutil::has_prefix(l, "Optional Deps   :"@) {
        let v = l.skip("Optional Deps   :"@.len() as int);
        let name = crate::strutil::trim_spec(
            v.take(crate::strutil::find_char_spec(v, ':', 0)),
        );
        if name.len() > 0 {
            crate::domain::DetailsV { opt_depends: d.opt_depends.push(name), ..d }
        } else {
            d
        }
    } else if crate::strutil::has_prefix(l, "URL             :"@) {
        let v = l.skip("URL             :"@.len() as int);
        crate::domain::DetailsV { homepage: Some(crate::strutil::trim_spec(v)), ..d }
    } else if crate::strutil::has_prefix(l, "Installed Size  :"@) {
        let v = l.skip("Installed Size  :"@.len() as int);
        crate::domain::DetailsV {
            size_install: Some(parse_size_spec(crate::strutil::trim_spec(v))),
            ..d
        }
    } else if crate::strutil::has_prefix(l, "Download Size   :"@) {
        let v = l.skip("Download Size   :"@.len() as int);
        crate::domain::DetailsV {
            size_download: Some(parse_size_spec(crate::strutil::trim_spec(v))),
            ..d
        }
    } else if crate::strutil::has_prefix(l, "Packager        :"@) {
        let v = l.skip("Packager        :"@.len() as int);
        crate::domain::DetailsV { maintainer: Some(crate::strutil::trim_spec(v)), ..d }
    } else if crate::strutil::has_prefix(l, "Description     :"@) {
        let v = l.skip("Description     :"@.len() as int);
        if d.summary.description.len() == 0 {
            crate::domain::DetailsV {
                summary: SummaryV {
                    description: crate::strutil::trim_spec(v),
                    ..d.summary
                },
                ..d
            }
        } else {
            d
        }
    } else if crate::strutil::has_prefix(l, "Version         :"@) {
        let v = l.skip("Version         :"@.len() as int);
        if d.summary.version.len() == 0 {
            crate::domain::DetailsV {
                summary: SummaryV { version: crate::strutil::trim_spec(v), ..d.summary },
                ..d
            }
        } else {
            d
        }
    } else {
        d
    }
}

pub open spec fn details_fold(
    lines: Seq<Seq<char>>,
    d: crate::domain::DetailsV,
) -> crate::domain::DetailsV
    decreases lines.len(),
{
    if lines.len() == 0 {
        d
    } else {
        details_fold(lines.drop_first(), details_step(d, lines[0]))
    }
}

fn details_value(ltv: &Vec<char>, pl: usize) -> (r: Vec<char>)
    requires
        pl <= ltv@.len(),
    ensures
        r@ == ltv@.skip(pl as int),
{
    let s = crate::strutil::string_of_range(ltv, pl, ltv.len());
    let r = chars_of(s.as_str());
    proof {
        assert(ltv@.subrange(pl as int, ltv@.len() as int) =~= ltv@.skip(pl as int));
    }
    r
}

fn apply_details_line(det: &mut PackageDetails, lraw: &Vec<char>)
    ensures
        final(det)@ == details_step(old(det)@, lraw@),
{
    let j = crate::strutil::end_non_space(lraw);
    let lt = crate::strutil::string_of_range(lraw, 0, j);
    let ltv = chars_of(lt.as_str());
    proof {
        assert(ltv@ == crate::strutil::trim_end_spec(lraw@));
    }
    let p_dep = chars_of("Depends On      :");
    let p_opt = chars_of("Optional Deps   :");
    let p_url = chars_of("URL             :");
    let p_isz = chars_of("Installed Size  :");
    let p_dsz = chars_of("Download Size   :");
    let p_pkg = chars_of("Packager        :");
    let p_dsc = chars_of("Description     :");
    let p_ver = chars_of("Version         :");
    if crate::strutil::starts_with_chars(&ltv, &p_dep) {
        let v = details_value(&ltv, p_dep.len());
        let tv = crate::strutil::string_of_range(&v, 0, v.len());
        proof {
            assert(v@.subrange(0, v@.len() as int) =~= v@);
        }
        let t = crate::strutil::trim_str(tv.as_str());
        let none_lit = "None".to_owned();
        if !(t == none_lit) {
            det.depends = split_ws(&v);
        }
    } else if crate::strutil::starts_with_chars(&ltv, &p_opt) {
        let v = details_value(&ltv, p_opt.len());
        let k = crate::strutil::find_char_at(&v, ':', 0);
        let head = crate::strutil::string_of_range(&v, 0, k);
        proof {
            assert(v@.subrange(0, k as int) =~= v@.take(k as int));
        }
        let name = crate::strutil::trim_str(head.as_str());
        if !name.as_str().is_empty() {
            let ghost o0 = det.opt_depends.deep_view();
            let ghost nv = name@;
            det.opt_depends.push(name);
            proof {
                assert(det.opt_depends.deep_view() =~~= o0.push(nv));
            }
        }
    } else if crate::strutil::starts_with_chars(&ltv, &p_url) {
        let v = details_value(&ltv, p_url.len());
        let vs = crate::strutil::string_of_range(&v, 0, v.len());
        proof {
            assert(v@.subrange(0, v@.len() as int) =~= v@);
        }
        det.homepage = Some(crate::strutil::trim_str(vs.as_str()));
    } else if crate::strutil::starts_with_chars(&ltv, &p_isz) {
        let v = details_value(&ltv, p_isz.len());
        let vs = crate::strutil::string_of_range(&v, 0, v.len());
        proof {
            assert(v@.subrange(0, v@.len() as int) =~= v@);
        }
        let t = crate::strutil::trim_str(vs.as_str());
        det.size_install = Some(parse_size(t.as_str()));
    } else if crate::strutil::starts_with_chars(&ltv, &p_dsz) {
        let v = details_value(&ltv, p_dsz.len());
        let vs = crate::strutil::string_of_range(&v, 0, v.len());
        proof {
            assert(v@.subrange(0, v@.len() as int) =~= v@);
        }
        let t = crate::strutil::trim_str(vs.as_str());
        det.size_download = Some(parse_size(t.as_str()));
    } else if crate::strutil::starts_with_chars(&ltv, &p_pkg) {
        let v = details_value(&ltv, p_pkg.len());
        let vs = crate::strutil::string_of_range(&v, 0, v.len());
        proof {
            assert(v@.subrange(0, v@.len() as int) =~= v@);
        }
        det.maintainer = Some(crate::strutil::trim_str(vs.as_str()));
    } else if crate::strutil::starts_with_chars(&ltv, &p_dsc) {
        if det.summary.description.as_str().is_empty() {
            let v = details_value(&ltv, p_dsc.len());
            let vs = crate::strutil::string_of_range(&v, 0, v.len());
            proof {
                assert(v@.subrange(0, v@.len() as int) =~= v@);
            }
            det.summary.description = crate::strutil::trim_str(vs.as_str());
        }
    } else if crate::strutil::starts_with_chars(&ltv, &p_ver) {
        if det.summary.version.as_str().is_empty() {
            let v = details_value(&ltv, p_ver.len());
            let vs = crate::strutil::string_of_range(&v, 0, v.len());
            proof {
                assert(v@.subrange(0, v@.len() as int) =~= v@);
            }
            det.summary.version = crate::strutil::trim_str(vs.as_str());
        }
    }
}

/// Parses the labelled details output onto a starting summary.
pub fn parse_pacman_details(out: &str, summary: PackageSummary) -> (r: PackageDetails)
    ensures
        r@ == details_fold(lines_spec(out@), init_details(summary@)),
{
    let ghost s0 = summary@;
    let mut det = PackageDetails {
        summary,
        depends: Vec::new(),
        opt_depends: Vec::new(),
        homepage: None,
        maintainer: None,
        size_install: None,
        size_download: None,
    };
    proof {
        assert(det.depends.deep_view() =~= Seq::<Seq<char>>::empty());
        assert(det.opt_depends.deep_view() =~= Seq::<Seq<char>>::empty());
        assert(det@ == init_details(s0));
    }
    let ov = chars_of(out);
    let lines = split_lines(&ov);
    let ghost ld = lines.deep_view();
    let n = lines.len();
    let mut i: usize = 0;
    proof {
        assert(ld.skip(0) =~= ld);
    }
    while i < n
        invariant
            n == lines@.len(),
            ld == lines.deep_view(),
            0 <= i <= n,
            details_fold(ld, init_details(s0)) == details_fold(ld.skip(i as int), det@),
        decreases n - i,
    {
        let lv = chars_of(lines[i].as_str());
        proof {
            assert(lv@ == ld[i as int]);
            assert(ld.skip(i as int).drop_first() =~= ld.skip(i + 1));
        }
        apply_details_line(&mut det, &lv);
        i = i + 1;
    }
    det
}

/// How many rows a name-only fallback listing may contribute.
pub const FALLBACK_LIMIT: usize = 500;

/// The row a bare name denotes.
pub open spec fn name_model(t: Seq<char>) -> SummaryV {
    SummaryV {
        id: PackageIdV { name: t, source: Source::Repo },
        version: Seq::empty(),
        description: Seq::empty(),
        installed: false,
        popular: None,
        last_updated: None,
    }
}

/// The rows of a name-only listing: trimmed non-empty lines, at most `room`
/// of them.
pub open spec fn fallback_spec(lines: Seq<Seq<char>>, room: nat) -> Seq<SummaryV>
    decreases lines.len(),
{
    if lines.len() == 0 || room == 0 {
        Seq::empty()
    } else {
        let t = crate::strutil::trim_spec(lines[0]);
        if t.len() > 0 {
            seq![name_model(t)] + fallback_spec(lines.drop_first(), (room - 1) as nat)
        } else {
            fallback_spec(lines.drop_first(), room)
        }
    }
}

impl PacmanCli {
    /// Parses the name-only fallback listing: one row per non-blank line,
    /// capped so a huge listing cannot flood the view.
    pub fn parse_fallback_names(out: &str) -> (r: Vec<PackageSummary>)
        ensures
            r.deep_view() == fallback_spec(lines_spec(out@), FALLBACK_LIMIT as nat),
    {
        let ov = chars_of(out);
        let lines = split_lines(&ov);
        let ghost ld = lines.deep_view();
        let n = lines.len();
        let mut r: Vec<PackageSummary> = Vec::new();
        let mut room: usize = FALLBACK_LIMIT;
        let mut i: usize = 0;
        proof {
            assert(ld.skip(0) =~= ld);
            assert(r.deep_view() =~= Seq::<SummaryV>::empty());
            assert(Seq::<SummaryV>::empty() + fallback_spec(ld, FALLBACK_LIMIT as nat)
                =~= fallback_spec(ld, FALLBACK_LIMIT as nat));
        }
        while i < n && room > 0
            invariant
                n == lines@.len(),
                ld == lines.deep_view(),
                0 <= i <= n,
                room <= FALLBACK_LIMIT,
                fallback_spec(ld, FALLBACK_LIMIT as nat) == r.deep_view() + fallback_spec(
                    ld.skip(i as int),
                    room as nat,
                ),
            decreases n - i,
        {
            let ghost r0 = r.deep_view();
            let t = crate::strutil::trim_str(lines[i].as_str());
            proof {
                assert(lines@[i as int]@ == ld[i as int]);
                assert(ld.skip(i as int).drop_first() =~= ld.skip(i + 1));
            }
            if !t.as_str().is_empty() {
                let ghost tv = t@;
                let s = PackageSummary {
                    id: PackageId { name: t, source: Source::Repo },
                    version: String::new(),
                    description: String::new(),
                    installed: false,
                    popular: None,
                    last_updated: None,
                };
                r.push(s);
                room = room - 1;
                proof {
                    assert(r.deep_view() =~~= r0 + seq![name_model(tv)]);
                    assert((r0 + seq![name_model(tv)]) + fallback_spec(
                        ld.skip(i + 1),
                        room as nat,
                    ) =~~= r0 + (seq![name_model(tv)] + fallback_spec(ld.skip(i + 1), room as nat)));
                }
            }
            i = i + 1;
        }
        proof {
            if i < n {
                assert(room == 0);
                assert(fallback_spec(ld.skip(i as int), 0) =~= Seq::<SummaryV>::empty());
            }
            assert(r.deep_view() =~~= r.deep_view() + fallback_spec(ld.skip(i as int), room as nat));
        }
        r
    }
}

} // verus!
