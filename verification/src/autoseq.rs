//! Auto-sequence mode: plot filenames and the directory scan that picks
//! the next start nonce.
//!
//! A plot file is named `<id>_<start_nonce>_<nonces>` in decimal. The
//! scan parses every name with the right id prefix, takes the largest
//! `start_nonce + nonces` as the next start, and remembers the nonce
//! count of that file; reading the directory itself is the host's part.

use vstd::prelude::*;

verus! {

/// The decimal digits of `x`, most significant first, no sign, no
/// leading zeros.
pub open spec fn spec_decimal(x: u64) -> Seq<u8>
    decreases x,
{
    if x < 10 {
        seq![(0x30 + x) as u8]
    } else {
        spec_decimal(x / 10) + seq![(0x30 + x % 10) as u8]
    }
}

/// A non-empty run of ASCII digits.
pub open spec fn spec_is_digits(s: Seq<u8>) -> bool {
    s.len() > 0 && forall|i: int| 0 <= i < s.len() ==> 0x30 <= #[trigger] s[i] <= 0x39
}

/// The number a digit run denotes.
pub open spec fn spec_digits_value(s: Seq<u8>) -> int
    decreases s.len(),
{
    if s.len() == 0 {
        0
    } else {
        spec_digits_value(s.drop_last()) * 10 + (s.last() - 0x30)
    }
}

/// Decimal digits are digits and denote the number itself.
pub proof fn lemma_decimal_value(x: u64)
    ensures
        spec_is_digits(spec_decimal(x)),
        spec_digits_value(spec_decimal(x)) == x,
        spec_decimal(x).len() >= 1,
    decreases x,
{
    let d = spec_decimal(x);
    if x < 10 {
        assert(d =~= seq![(0x30 + x) as u8]);
        assert(d.drop_last() =~= Seq::<u8>::empty());
        assert(spec_digits_value(Seq::<u8>::empty()) == 0);
        assert(spec_digits_value(d) == 0 * 10 + ((0x30 + x) as u8 - 0x30));
    } else {
        lemma_decimal_value(x / 10);
        assert(d.drop_last() =~= spec_decimal(x / 10));
        assert(d.last() == (0x30 + x % 10) as u8);
        vstd::arithmetic::div_mod::lemma_fundamental_div_mod(x as int, 10);
        assert forall|i: int| 0 <= i < d.len() implies 0x30 <= #[trigger] d[i] <= 0x39 by {
            if i < d.len() - 1 {
                assert(d[i] == spec_decimal(x / 10)[i]);
            }
        }
    }
}

/// A run of digits denotes a number, never something negative.
pub proof fn lemma_digits_value_nonneg(s: Seq<u8>)
    requires
        forall|i: int| 0 <= i < s.len() ==> 0x30 <= #[trigger] s[i] <= 0x39,
    ensures
        spec_digits_value(s) >= 0,
    decreases s.len(),
{
    if s.len() > 0 {
        assert forall|i: int| 0 <= i < s.drop_last().len() implies 0x30 <= #[trigger] s.drop_last()[i]
            <= 0x39 by {
            assert(s.drop_last()[i] == s[i]);
        }
        lemma_digits_value_nonneg(s.drop_last());
    }
}

/// A digit run's value does not go down when more digits follow.
pub proof fn lemma_digits_value_grows(s: Seq<u8>, j: int)
    requires
        forall|i: int| 0 <= i < s.len() ==> 0x30 <= #[trigger] s[i] <= 0x39,
        0 <= j <= s.len(),
    ensures
        spec_digits_value(s.take(j)) >= 0,
        spec_digits_value(s) >= spec_digits_value(s.take(j)),
    decreases s.len() - j,
{
    assert forall|i: int| 0 <= i < s.take(j).len() implies 0x30 <= #[trigger] s.take(j)[i]
        <= 0x39 by {
        assert(s.take(j)[i] == s[i]);
    }
    lemma_digits_value_nonneg(s.take(j));
    if j < s.len() {
        lemma_digits_value_grows(s, j + 1);
        assert(s.take(j + 1).drop_last() =~= s.take(j));
        assert(s.take(j + 1).last() == s[j]);
        assert(spec_digits_value(s.take(j + 1)) == spec_digits_value(s.take(j)) * 10 + (s[j]
            - 0x30));
    } else {
        assert(s.take(j) =~= s);
    }
}

/// Writes `x` in decimal.
pub fn u64_to_decimal(x: u64) -> (r: Vec<u8>)
    ensures
        r@ == spec_decimal(x),
    decreases x,
{
    if x < 10 {
        let mut r: Vec<u8> = Vec::new();
        r.push(0x30 + (x as u8));
        proof {
            assert(r@ =~= spec_decimal(x));
        }
        r
    } else {
        let mut r = u64_to_decimal(x / 10);
        r.push(0x30 + ((x % 10) as u8));
        proof {
            assert(r@ =~= spec_decimal(x));
        }
        r
    }
}

/// Parses `name[start..end]` as a decimal `u64`: returns the value
/// exactly when the range is a non-empty digit run whose value fits.
pub fn parse_u64_range(name: &Vec<u8>, start: usize, end: usize) -> (r: Option<u64>)
    requires
        start <= end <= name@.len(),
    ensures
        r is Some <==> spec_is_digits(name@.subrange(start as int, end as int))
            && spec_digits_value(name@.subrange(start as int, end as int)) <= u64::MAX,
        r matches Some(v) ==> v == spec_digits_value(name@.subrange(start as int, end as int)),
{
    let ghost sub = name@.subrange(start as int, end as int);
    if start == end {
        return None;
    }
    let mut acc: u64 = 0;
    let mut i: usize = start;
    while i < end
        invariant
            start <= i <= end <= name@.len(),
            sub == name@.subrange(start as int, end as int),
            sub.len() == end - start,
            forall|j: int| 0 <= j < i - start ==> 0x30 <= #[trigger] sub[j] <= 0x39,
            acc == spec_digits_value(sub.take(i - start)),
        decreases end - i,
    {
        let c = name[i];
        proof {
            assert(sub[i - start] == name@[i as int]);
        }
        if c < 0x30 || c > 0x39 {
            return None;
        }
        let d: u64 = (c - 0x30) as u64;
        proof {
            assert(sub.take(i + 1 - start).drop_last() =~= sub.take(i - start));
            assert(sub.take(i + 1 - start).last() == sub[i - start]);
            lemma_digits_value_grows(sub.take(i + 1 - start), i + 1 - start);
        }
        if acc > (u64::MAX - d) / 10 {
            proof {
                let q = ((u64::MAX - d) / 10) as int;
                vstd::arithmetic::div_mod::lemma_fundamental_div_mod(u64::MAX - d, 10);
                assert(acc * 10 + d > u64::MAX) by (nonlinear_arith)
                    requires
                        acc >= q + 1,
                        u64::MAX - d == 10 * q + (u64::MAX - d) % 10,
                        0 <= (u64::MAX - d) % 10 < 10,
                ;
                assert(spec_digits_value(sub.take(i + 1 - start)) == acc * 10 + d);
                if spec_is_digits(sub) {
                    lemma_digits_value_grows(sub, i + 1 - start);
                }
            }
            return None;
        }
        proof {
            assert(acc * 10 + d <= u64::MAX);
        }
        acc = acc * 10 + d;
        i = i + 1;
    }
    proof {
        assert(sub.take(end - start) =~= sub);
    }
    Some(acc)
}

/// The filename of a plot: `<id>_<start_nonce>_<nonces>` in decimal. The
/// count in the name is the one the task was asked for.
pub open spec fn spec_plot_name(numeric_id: u64, start_nonce: u64, nonces: u64) -> Seq<u8> {
    spec_decimal(numeric_id) + seq![0x5Fu8] + spec_decimal(start_nonce) + seq![0x5Fu8]
        + spec_decimal(nonces)
}

/// Builds the filename of a plot file.
pub fn plot_filename(numeric_id: u64, start_nonce: u64, nonces: u64) -> (r: Vec<u8>)
    ensures
        r@ == spec_plot_name(numeric_id, start_nonce, nonces),
{
    let mut r = u64_to_decimal(numeric_id);
    r.push(0x5F);
    let mut sn = u64_to_decimal(start_nonce);
    r.append(&mut sn);
    r.push(0x5F);
    let mut cnt = u64_to_decimal(nonces);
    r.append(&mut cnt);
    proof {
        assert(r@ =~= spec_plot_name(numeric_id, start_nonce, nonces));
    }
    r
}

/// The first `_` in `name` at or after `from`, or the length if none.
fn find_underscore(name: &Vec<u8>, from: usize) -> (r: usize)
    requires
        from <= name@.len(),
    ensures
        from <= r <= name@.len(),
        r < name@.len() ==> name@[r as int] == 0x5F,
        forall|j: int| from <= j < r ==> name@[j] != 0x5F,
{
    let n = name.len();
    let mut i: usize = from;
    while i < n
        invariant
            from <= i <= n,
            n == name@.len(),
            forall|j: int| from <= j < i ==> name@[j] != 0x5F,
        decreases n - i,
    {
        if name[i] == 0x5F {
            return i;
        }
        i = i + 1;
    }
    n
}

/// Whether `name[start..end]` equals `pat`.
fn range_eq(name: &Vec<u8>, start: usize, end: usize, pat: &Vec<u8>) -> (r: bool)
    requires
        start <= end <= name@.len(),
    ensures
        r <==> name@.subrange(start as int, end as int) == pat@,
{
    if end - start != pat.len() {
        proof {
            assert(name@.subrange(start as int, end as int).len() == end - start);
        }
        return false;
    }
    let mut i: usize = 0;
    while i < pat.len()
        invariant
            0 <= i <= pat@.len(),
            start <= end <= name@.len(),
            end - start == pat@.len(),
            forall|j: int| 0 <= j < i ==> name@[start + j] == pat@[j],
        decreases pat@.len() - i,
    {
        if name[start + i] != pat[i] {
            proof {
                assert(name@.subrange(start as int, end as int)[i as int] == name@[start + i]);
            }
            return false;
        }
        i = i + 1;
    }
    proof {
        assert(name@.subrange(start as int, end as int) =~= pat@);
    }
    true
}

/// Where the pieces of a canonical plot filename sit: the id digits, an
/// underscore, the start-nonce digits, an underscore, the count digits —
/// and no underscore anywhere else.
pub proof fn lemma_plot_name_shape(numeric_id: u64, start_nonce: u64, nonces: u64)
    ensures
        ({
            let did = spec_decimal(numeric_id);
            let dsn = spec_decimal(start_nonce);
            let dcnt = spec_decimal(nonces);
            let nm = spec_plot_name(numeric_id, start_nonce, nonces);
            let li = did.len() as int;
            let ls = dsn.len() as int;
            &&& nm.len() == did.len() + dsn.len() + dcnt.len() + 2
            &&& did.len() >= 1 && dsn.len() >= 1 && dcnt.len() >= 1
            &&& nm.subrange(0, li) == did
            &&& nm[li] == 0x5Fu8
            &&& nm.subrange(li + 1, li + 1 + ls) == dsn
            &&& nm[li + 1 + ls] == 0x5Fu8
            &&& nm.subrange(li + ls + 2, nm.len() as int) == dcnt
            &&& forall|j: int| 0 <= j < li ==> #[trigger] nm[j] != 0x5Fu8
            &&& forall|j: int| li + 1 <= j < li + 1 + ls ==> #[trigger] nm[j] != 0x5Fu8
            &&& forall|j: int| li + ls + 2 <= j < nm.len() ==> #[trigger] nm[j] != 0x5Fu8
        }),
{
    let did = spec_decimal(numeric_id);
    let dsn = spec_decimal(start_nonce);
    let dcnt = spec_decimal(nonces);
    let nm = spec_plot_name(numeric_id, start_nonce, nonces);
    let li = did.len() as int;
    let ls = dsn.len() as int;
    lemma_decimal_value(numeric_id);
    lemma_decimal_value(start_nonce);
    lemma_decimal_value(nonces);
    assert(nm.subrange(0, li) =~= did);
    assert(nm.subrange(li + 1, li + 1 + ls) =~= dsn);
    assert(nm.subrange(li + ls + 2, nm.len() as int) =~= dcnt);
    assert forall|j: int| 0 <= j < li implies #[trigger] nm[j] != 0x5Fu8 by {
        assert(nm[j] == did[j]);
    }
    assert forall|j: int| li + 1 <= j < li + 1 + ls implies #[trigger] nm[j] != 0x5Fu8 by {
        assert(nm[j] == dsn[j - (li + 1)]);
    }
    assert forall|j: int| li + ls + 2 <= j < nm.len() implies #[trigger] nm[j] != 0x5Fu8 by {
        assert(nm[j] == dcnt[j - (li + ls + 2)]);
    }
}

/// Parses a directory entry as a plot filename of the given account:
/// the name must start with the id's digits and an underscore, and the
/// next two underscore-separated fields must be decimal numbers — then
/// they are returned as `(start_nonce, nonces)`. A name the plotter
/// itself produced always parses back to the numbers it was built from.
pub fn parse_plot_filename(name: &Vec<u8>, numeric_id: u64) -> (r: Option<(u64, u64)>)
    ensures
        r is Some ==> {
            let did = spec_decimal(numeric_id);
            name@.len() > did.len() && name@.subrange(0, did.len() as int + 1) == did + seq![
                0x5Fu8,
            ]
        },
        forall|sn: u64, cnt: u64|
            name@ == spec_plot_name(numeric_id, sn, cnt) ==> r == Some((sn, cnt)),
{
    let idd = u64_to_decimal(numeric_id);
    let n = name.len();
    let p1 = find_underscore(name, 0);
    if p1 == n || p1 != idd.len() || !range_eq(name, 0, p1, &idd) {
        proof {
            assert forall|sn: u64, cnt: u64|
                name@ == spec_plot_name(numeric_id, sn, cnt) implies false by {
                lemma_plot_name_shape(numeric_id, sn, cnt);
                let did = spec_decimal(numeric_id);
                assert(p1 == did.len());
                assert(name@.subrange(0, p1 as int) == did);
            }
        }
        return None;
    }
    let p2 = find_underscore(name, p1 + 1);
    if p2 == n {
        proof {
            assert forall|sn: u64, cnt: u64|
                name@ == spec_plot_name(numeric_id, sn, cnt) implies false by {
                lemma_plot_name_shape(numeric_id, sn, cnt);
                let did = spec_decimal(numeric_id);
                let dsn = spec_decimal(sn);
                assert(name@[did.len() as int + 1 + dsn.len() as int] == 0x5Fu8);
            }
        }
        return None;
    }
    let p3 = find_underscore(name, p2 + 1);
    let sn_parsed = parse_u64_range(name, p1 + 1, p2);
    let cnt_parsed = parse_u64_range(name, p2 + 1, p3);
    proof {
        assert forall|sn: u64, cnt: u64|
            name@ == spec_plot_name(numeric_id, sn, cnt) implies sn_parsed == Some(sn)
            && cnt_parsed == Some(cnt) by {
            lemma_plot_name_shape(numeric_id, sn, cnt);
            lemma_decimal_value(sn);
            lemma_decimal_value(cnt);
            let did = spec_decimal(numeric_id);
            let dsn = spec_decimal(sn);
            let dcnt = spec_decimal(cnt);
            let li = did.len() as int;
            let ls = dsn.len() as int;
            assert(p1 == did.len());
            assert(p2 == li + 1 + ls) by {
                if p2 < li + 1 + ls {
                    assert(name@[p2 as int] == 0x5Fu8);
                } else if p2 > li + 1 + ls {
                    assert(name@[li + 1 + ls] != 0x5Fu8);
                }
            }
            assert(p3 == name@.len()) by {
                if p3 < name@.len() {
                    assert(name@[p3 as int] == 0x5Fu8);
                }
            }
            assert(name@.subrange(p1 + 1, p2 as int) == dsn);
            assert(name@.subrange(p2 + 1, p3 as int) == dcnt);
            assert(spec_digits_value(dsn) == sn && sn <= u64::MAX);
            assert(spec_digits_value(dcnt) == cnt && cnt <= u64::MAX);
        }
    }
    let sn_v = match sn_parsed {
        Some(v) => v,
        None => {
            return None;
        },
    };
    let cnt_v = match cnt_parsed {
        Some(v) => v,
        None => {
            return None;
        },
    };
    proof {
        assert(name@.subrange(0, p1 + 1) =~= name@.subrange(0, p1 as int) + seq![0x5Fu8]);
    }
    Some((sn_v, cnt_v))
}

/// The scan's fold over the parsed `(start_nonce, nonces)` entries,
/// from entry `i` on: an entry whose end `sn + cnt` tops the running
/// maximum replaces both the maximum and the remembered count; an entry
/// whose end does not fit a `u64` is ignored.
pub open spec fn spec_scan(entries: Seq<(u64, u64)>, i: nat, max_end: u64, cnt: u64) -> (u64, u64)
    decreases entries.len() - i,
{
    if i >= entries.len() {
        (max_end, cnt)
    } else {
        let e = entries[i as int];
        if e.0 + e.1 <= u64::MAX && e.0 + e.1 > max_end {
            spec_scan(entries, i + 1, (e.0 + e.1) as u64, e.1)
        } else {
            spec_scan(entries, i + 1, max_end, cnt)
        }
    }
}

/// Scans the parsed directory entries: returns the next start nonce —
/// the largest `sn + cnt`, or 0 with no entries — and the nonce count of
/// the first file reaching it, or `fallback_nonces` with no entries.
pub fn scan_next_start(entries: &Vec<(u64, u64)>, fallback_nonces: u64) -> (r: (u64, u64))
    ensures
        r == spec_scan(entries@, 0, 0, fallback_nonces),
{
    let mut max_end: u64 = 0;
    let mut cnt: u64 = fallback_nonces;
    let mut i: usize = 0;
    while i < entries.len()
        invariant
            i <= entries@.len(),
            spec_scan(entries@, 0, 0, fallback_nonces) == spec_scan(
                entries@,
                i as nat,
                max_end,
                cnt,
            ),
        decreases entries@.len() - i,
    {
        let (sn, c) = entries[i];
        match sn.checked_add(c) {
            Some(end) => {
                if end > max_end {
                    max_end = end;
                    cnt = c;
                }
            },
            None => {},
        }
        i = i + 1;
    }
    (max_end, cnt)
}

/// The scan's result tops every entry it saw: no existing plot file
/// reaches past the start nonce the scan hands to the next run.
pub proof fn lemma_scan_is_max(entries: Seq<(u64, u64)>, i: nat, max_end: u64, cnt: u64)
    requires
        i <= entries.len(),
    ensures
        spec_scan(entries, i, max_end, cnt).0 >= max_end,
        forall|j: int|
            i <= j < entries.len() && (#[trigger] entries[j]).0 + entries[j].1 <= u64::MAX
                ==> entries[j].0 + entries[j].1 <= spec_scan(entries, i, max_end, cnt).0,
    decreases entries.len() - i,
{
    if i < entries.len() {
        let e = entries[i as int];
        if e.0 + e.1 <= u64::MAX && e.0 + e.1 > max_end {
            lemma_scan_is_max(entries, i + 1, (e.0 + e.1) as u64, e.1);
        } else {
            lemma_scan_is_max(entries, i + 1, max_end, cnt);
        }
    }
}

/// The chain of filename entries that `k` auto-sequence runs produce
/// when they start at `s` and each plots `per` nonces.
pub open spec fn spec_chain(s: u64, per: u64, k: nat) -> Seq<(u64, u64)> {
    Seq::new(k, |i: int| (((s + i * per) as u64), per))
}

/// Auto-sequence contiguity: the files of a chain leave no gap — each
/// starts where the previous one ends — and a scan of the chain hands
/// the next run exactly the chain's end and the per-file count, so a
/// later invocation continues the chain.
pub proof fn lemma_auto_sequence_contiguity(s: u64, per: u64, k: nat, fallback: u64)
    requires
        per >= 1,
        s + k * per <= u64::MAX,
        k >= 1,
    ensures
        forall|i: int|
            0 <= i < k - 1 ==> (#[trigger] spec_chain(s, per, k)[i + 1]).0 == spec_chain(
                s,
                per,
                k,
            )[i].0 + spec_chain(s, per, k)[i].1,
        spec_scan(spec_chain(s, per, k), 0, 0, fallback) == ((s + k * per) as u64, per),
{
    let ch = spec_chain(s, per, k);
    assert forall|i: int| 0 <= i < k - 1 implies (#[trigger] ch[i + 1]).0 == ch[i].0 + ch[i].1 by {
        assert(i * per + per == (i + 1) * per) by (nonlinear_arith);
        assert(s + i * per + per <= s + k * per) by (nonlinear_arith)
            requires
                i + 1 <= k,
                per >= 1,
        ;
    }
    lemma_scan_chain_from(s, per, k, 0, 0, fallback);
}

/// Helper induction for the chain scan: from entry `i` on, with a
/// running maximum at or below the chain so far, the scan ends at the
/// chain's end.
proof fn lemma_scan_chain_from(s: u64, per: u64, k: nat, i: nat, max_end: u64, cnt: u64)
    requires
        per >= 1,
        s + k * per <= u64::MAX,
        i < k,
        max_end <= s + i * per,
    ensures
        spec_scan(spec_chain(s, per, k), i, max_end, cnt) == ((s + k * per) as u64, per),
    decreases k - i,
{
    let ch = spec_chain(s, per, k);
    let e = ch[i as int];
    assert(i * per + per == (i + 1) * per) by (nonlinear_arith);
    assert((i + 1) * per <= k * per) by (nonlinear_arith)
        requires
            i + 1 <= k,
            per >= 1,
    ;
    assert(e.0 + e.1 == s + (i + 1) * per);
    assert(e.0 + e.1 > max_end);
    if i + 1 < k {
        lemma_scan_chain_from(s, per, k, i + 1, (e.0 + e.1) as u64, e.1);
    } else {
        assert(spec_scan(ch, i + 1, (e.0 + e.1) as u64, e.1) == ((e.0 + e.1) as u64, e.1));
    }
}

} // verus!
