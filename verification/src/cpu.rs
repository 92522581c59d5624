//! Host CPU lists: the `0-3,8` notation that libvirt and the kernel use to name host
//! CPUs, read into sorted CPU numbers and written back in its shortest form.
use crate::text::{
    all_digits, chars_of, copy_range, dec, digit_val, digits_value, find, find_from, find_str,
    find_str_from, first_sep, fmt_u64, is_digit, is_ws, lines_view, parse_unsigned,
    parse_unsigned_range, skip_ws, skip_ws_back, split_on, split_on_chars, string_of, trim,
    trim_bounds, unsigned_body,
};
use crate::vm::VmService;
use vstd::prelude::*;

verus! {

/// The CPUs `a..=b` in ascending order; none when `a > b`.
pub open spec fn span(a: nat, b: nat) -> Seq<u32> {
    if a <= b {
        Seq::new((b + 1 - a) as nat, |i: int| (a + i) as u32)
    } else {
        Seq::empty()
    }
}

/// The CPUs named by one item of a CPU list: a number, or a range `first-last`.
/// An item that is neither names no CPU.
pub open spec fn item_cpus(item: Seq<char>) -> Seq<u32> {
    let t = trim(item);
    if t.contains('-') {
        let bounds = split_on(t, '-', '-');
        if bounds.len() == 2 {
            match (parse_unsigned(bounds[0], u32::MAX as nat), parse_unsigned(bounds[1], u32::MAX as nat)) {
                (Some(a), Some(b)) => span(a, b),
                _ => Seq::empty(),
            }
        } else {
            Seq::empty()
        }
    } else {
        match parse_unsigned(t, u32::MAX as nat) {
            Some(v) => seq![v as u32],
            None => Seq::empty(),
        }
    }
}

/// The CPUs named by a sequence of items, in the order written.
pub open spec fn items_cpus(items: Seq<Seq<char>>) -> Seq<u32>
    decreases items.len(),
{
    if items.len() == 0 {
        Seq::empty()
    } else {
        items_cpus(items.drop_last()) + item_cpus(items.last())
    }
}

/// The CPUs that a comma-separated list such as `0-3,8` names, in the order written.
pub open spec fn cpu_list(s: Seq<char>) -> Seq<u32> {
    items_cpus(split_on(s, ',', ','))
}

/// Every number is smaller than the ones after it.
pub open spec fn increasing(u: Seq<u32>) -> bool {
    forall|i: int, j: int| 0 <= i < j < u.len() ==> u[i] < u[j]
}

/// `x` put into its place in the ascending `u`, unless `u` already holds it.
pub open spec fn insert_sorted(u: Seq<u32>, x: u32) -> Seq<u32>
    decreases u.len(),
{
    if u.len() == 0 {
        seq![x]
    } else if x < u[0] {
        seq![x] + u
    } else if x == u[0] {
        u
    } else {
        seq![u[0]] + insert_sorted(u.drop_first(), x)
    }
}

/// The numbers of `s` in ascending order, each once.
pub open spec fn sort_dedup(s: Seq<u32>) -> Seq<u32>
    decreases s.len(),
{
    if s.len() == 0 {
        Seq::empty()
    } else {
        insert_sorted(sort_dedup(s.drop_last()), s.last())
    }
}

pub proof fn lemma_insert_sorted(u: Seq<u32>, x: u32)
    requires
        increasing(u),
    ensures
        increasing(insert_sorted(u, x)),
        forall|y: u32| #[trigger] insert_sorted(u, x).contains(y) <==> (u.contains(y) || y == x),
    decreases u.len(),
{
    let r = insert_sorted(u, x);
    if u.len() == 0 {
        assert(r =~= seq![x]);
        assert forall|y: u32| #[trigger] r.contains(y) <==> (u.contains(y) || y == x) by {
            if r.contains(y) {
                let k = choose|k: int| 0 <= k < r.len() && r[k] == y;
            }
            if y == x {
                assert(r[0] == x);
            }
        }
    } else if x < u[0] {
        assert forall|i: int, j: int| 0 <= i < j < r.len() implies r[i] < r[j] by {
            if i > 0 {
                assert(r[i] == u[i - 1] && r[j] == u[j - 1]);
            } else {
                assert(r[j] == u[j - 1]);
                assert(u[0] <= u[j - 1]);
            }
        }
        assert forall|y: u32| #[trigger] r.contains(y) <==> (u.contains(y) || y == x) by {
            if r.contains(y) {
                let k = choose|k: int| 0 <= k < r.len() && r[k] == y;
                if k > 0 {
                    assert(u[k - 1] == y);
                }
            }
            if u.contains(y) {
                let k = choose|k: int| 0 <= k < u.len() && u[k] == y;
                assert(r[k + 1] == y);
            }
            if y == x {
                assert(r[0] == x);
            }
        }
    } else if x == u[0] {
        assert forall|y: u32| #[trigger] r.contains(y) <==> (u.contains(y) || y == x) by {
            if y == x {
                assert(u[0] == x);
            }
        }
    } else {
        let t = u.drop_first();
        assert(increasing(t)) by {
            assert forall|i: int, j: int| 0 <= i < j < t.len() implies t[i] < t[j] by {
                assert(t[i] == u[i + 1] && t[j] == u[j + 1]);
            }
        }
        lemma_insert_sorted(t, x);
        let it = insert_sorted(t, x);
        assert(r == seq![u[0]] + it);
        assert forall|k: int| 0 <= k < it.len() implies u[0] < #[trigger] it[k] by {
            assert(it.contains(it[k]));
            if it[k] != x {
                let m = choose|m: int| 0 <= m < t.len() && t[m] == it[k];
                assert(u[m + 1] == it[k]);
            }
        }
        assert forall|i: int, j: int| 0 <= i < j < r.len() implies r[i] < r[j] by {
            if i > 0 {
                assert(r[i] == it[i - 1] && r[j] == it[j - 1]);
            } else {
                assert(r[j] == it[j - 1]);
            }
        }
        assert forall|y: u32| #[trigger] r.contains(y) <==> (u.contains(y) || y == x) by {
            if r.contains(y) {
                let k = choose|k: int| 0 <= k < r.len() && r[k] == y;
                if k > 0 {
                    assert(it[k - 1] == y);
                    assert(it.contains(y));
                    if y != x {
                        let m = choose|m: int| 0 <= m < t.len() && t[m] == y;
                        assert(u[m + 1] == y);
                    }
                } else {
                    assert(u[0] == y);
                }
            }
            if u.contains(y) {
                let k = choose|k: int| 0 <= k < u.len() && u[k] == y;
                if k > 0 {
                    assert(t[k - 1] == y);
                    assert(t.contains(y));
                    assert(it.contains(y));
                    let m = choose|m: int| 0 <= m < it.len() && it[m] == y;
                    assert(r[m + 1] == y);
                } else {
                    assert(r[0] == y);
                }
            }
            if y == x {
                assert(it.contains(x));
                let m = choose|m: int| 0 <= m < it.len() && it[m] == x;
                assert(r[m + 1] == x);
            }
        }
    }
}

/// The place of `x` in the ascending `u` is `p`: the result is `u` when it holds `x`
/// there, else `u` with `x` put in at `p`.
proof fn lemma_insert_at(u: Seq<u32>, x: u32, p: int)
    requires
        increasing(u),
        0 <= p <= u.len(),
        forall|i: int| 0 <= i < p ==> u[i] < x,
        p < u.len() ==> u[p] >= x,
    ensures
        insert_sorted(u, x) == (if p < u.len() && u[p] == x {
            u
        } else {
            u.insert(p, x)
        }),
    decreases u.len(),
{
    if u.len() == 0 {
        assert(u.insert(p, x) =~= seq![x]);
    } else if p == 0 {
        if x < u[0] {
            assert(u.insert(0, x) =~= seq![x] + u);
        }
    } else {
        let t = u.drop_first();
        assert(increasing(t)) by {
            assert forall|i: int, j: int| 0 <= i < j < t.len() implies t[i] < t[j] by {
                assert(t[i] == u[i + 1] && t[j] == u[j + 1]);
            }
        }
        assert(u[0] < x);
        assert forall|i: int| 0 <= i < p - 1 implies t[i] < x by {
            assert(t[i] == u[i + 1]);
        }
        lemma_insert_at(t, x, p - 1);
        if p < u.len() && u[p] == x {
            assert(seq![u[0]] + t =~= u);
        } else {
            assert(seq![u[0]] + t.insert(p - 1, x) =~= u.insert(p, x));
        }
    }
}

pub proof fn lemma_sort_dedup(s: Seq<u32>)
    ensures
        increasing(sort_dedup(s)),
        forall|y: u32| #[trigger] sort_dedup(s).contains(y) <==> s.contains(y),
    decreases s.len(),
{
    if s.len() > 0 {
        let init = s.drop_last();
        lemma_sort_dedup(init);
        lemma_insert_sorted(sort_dedup(init), s.last());
        assert forall|y: u32| #[trigger] sort_dedup(s).contains(y) <==> s.contains(y) by {
            if init.contains(y) {
                let k = choose|k: int| 0 <= k < init.len() && init[k] == y;
                assert(s[k] == y);
            }
            if s.contains(y) {
                let k = choose|k: int| 0 <= k < s.len() && s[k] == y;
                if k < s.len() - 1 {
                    assert(init[k] == y);
                }
            }
        }
    } else {
        assert(sort_dedup(s) =~= Seq::<u32>::empty());
    }
}


/// The maximal runs of consecutive numbers in `u`, as `(first, last)` pairs, built from
/// the left: a number one above the end of the last run extends it.
pub open spec fn runs(u: Seq<u32>) -> Seq<(u32, u32)>
    decreases u.len(),
{
    if u.len() == 0 {
        Seq::empty()
    } else {
        let r = runs(u.drop_last());
        let x = u.last();
        if r.len() > 0 && r.last().1 + 1 == x {
            r.drop_last().push((r.last().0, x))
        } else {
            r.push((x, x))
        }
    }
}

/// One run written out: `n` alone, or `first-last`.
pub open spec fn run_text(r: (u32, u32)) -> Seq<char> {
    if r.0 == r.1 {
        dec(r.0 as nat)
    } else {
        dec(r.0 as nat) + seq!['-'] + dec(r.1 as nat)
    }
}

/// The runs written out and joined by commas.
pub open spec fn runs_text(rs: Seq<(u32, u32)>) -> Seq<char>
    decreases rs.len(),
{
    if rs.len() == 0 {
        Seq::empty()
    } else if rs.len() == 1 {
        run_text(rs[0])
    } else {
        runs_text(rs.drop_last()) + seq![','] + run_text(rs.last())
    }
}

/// The shortest cpuset text for the CPUs of `v`: ascending runs, such as `0-3,5,7-9`.
pub open spec fn cpuset_text(v: Seq<u32>) -> Seq<char> {
    runs_text(runs(sort_dedup(v)))
}


/// The CPUs of a sequence of runs, run after run.
pub open spec fn runs_cpus(rs: Seq<(u32, u32)>) -> Seq<u32>
    decreases rs.len(),
{
    if rs.len() == 0 {
        Seq::empty()
    } else {
        runs_cpus(rs.drop_last()) + span(rs.last().0 as nat, rs.last().1 as nat)
    }
}

proof fn lemma_runs_cover(u: Seq<u32>)
    ensures
        runs_cpus(runs(u)) == u,
        forall|k: int| 0 <= k < runs(u).len() ==> (#[trigger] runs(u)[k]).0 <= runs(u)[k].1,
        u.len() > 0 ==> runs(u).len() > 0 && runs(u).last().1 == u.last(),
    decreases u.len(),
{
    if u.len() > 0 {
        let init = u.drop_last();
        lemma_runs_cover(init);
        let r = runs(init);
        let x = u.last();
        if r.len() > 0 && r.last().1 + 1 == x {
            let a = r.last().0;
            let nr = r.drop_last().push((a, x));
            assert(nr.drop_last() =~= r.drop_last());
            assert(r.last().0 <= r.last().1);
            assert(span(a as nat, x as nat) =~= span(a as nat, r.last().1 as nat).push(x));
            assert(runs_cpus(r) == runs_cpus(r.drop_last()) + span(a as nat, r.last().1 as nat));
            assert(nr.last() == (a, x));
            assert(runs_cpus(nr) == runs_cpus(r.drop_last()) + span(a as nat, x as nat));
            assert(init.push(x) =~= u);
            assert(runs_cpus(nr) =~= u);
            assert forall|k: int| 0 <= k < nr.len() implies (#[trigger] nr[k]).0 <= nr[k].1 by {
                if k < nr.len() - 1 {
                    assert(nr[k] == r[k]);
                }
            }
        } else {
            let nr = r.push((x, x));
            assert(nr.drop_last() =~= r);
            assert(span(x as nat, x as nat) =~= seq![x]);
            assert(runs_cpus(nr) == runs_cpus(r) + span(x as nat, x as nat));
            assert(init + seq![x] =~= u);
            assert forall|k: int| 0 <= k < nr.len() implies (#[trigger] nr[k]).0 <= nr[k].1 by {
                if k < nr.len() - 1 {
                    assert(nr[k] == r[k]);
                }
            }
        }
    } else {
        assert(runs_cpus(runs(u)) =~= u);
    }
}

proof fn lemma_dec(n: nat)
    ensures
        dec(n).len() > 0,
        all_digits(dec(n)),
        digits_value(dec(n)) == n,
    decreases n,
{
    if n >= 10 {
        lemma_dec(n / 10);
        let d = dec(n / 10);
        let c = (('0' as u32) + (n % 10)) as char;
        assert(dec(n) == d.push(c));
        assert(dec(n).drop_last() =~= d);
        assert(digit_val(c) == n % 10);
        assert(digits_value(dec(n)) == digits_value(d) * 10 + digit_val(c));
        assert((n / 10) * 10 + n % 10 == n);
        assert forall|i: int| 0 <= i < dec(n).len() implies is_digit(#[trigger] dec(n)[i]) by {
            if i < d.len() {
                assert(dec(n)[i] == d[i]);
            }
        }
    } else {
        let c = (('0' as u32) + n) as char;
        assert(dec(n) == seq![c]);
        assert(dec(n).drop_last() =~= Seq::<char>::empty());
        assert(digit_val(c) == n);
        assert(digits_value(Seq::<char>::empty()) == 0);
        assert(digits_value(dec(n)) == digits_value(Seq::<char>::empty()) * 10 + digit_val(c));
        assert(is_digit(dec(n)[0]));
    }
}

/// A text of digits only is its own trim, and holds neither `-` nor `,`.
proof fn lemma_digits_plain(t: Seq<char>)
    requires
        all_digits(t),
    ensures
        !t.contains('-'),
        !t.contains(','),
        forall|i: int| 0 <= i < t.len() ==> !is_ws(#[trigger] t[i]),
{
    assert forall|i: int| 0 <= i < t.len() implies !is_ws(#[trigger] t[i]) by {
        assert(is_digit(t[i]));
    }
    if t.contains('-') {
        let k = choose|k: int| 0 <= k < t.len() && t[k] == '-';
        assert(is_digit(t[k]));
    }
    if t.contains(',') {
        let k = choose|k: int| 0 <= k < t.len() && t[k] == ',';
        assert(is_digit(t[k]));
    }
}

proof fn lemma_trim_plain(t: Seq<char>)
    requires
        forall|i: int| 0 <= i < t.len() ==> !is_ws(#[trigger] t[i]),
    ensures
        trim(t) == t,
{
    assert(skip_ws(t, 0) == 0);
    assert(skip_ws_back(t, 0, t.len() as int) == t.len());
    assert(t.subrange(0, t.len() as int) =~= t);
}

proof fn lemma_parse_dec(n: nat)
    requires
        n <= u32::MAX,
    ensures
        parse_unsigned(dec(n), u32::MAX as nat) == Some(n),
        !dec(n).contains('-'),
        !dec(n).contains(','),
        forall|i: int| 0 <= i < dec(n).len() ==> !is_ws(#[trigger] dec(n)[i]),
{
    lemma_dec(n);
    lemma_digits_plain(dec(n));
    assert(is_digit(dec(n)[0]));
    assert(unsigned_body(dec(n)) == dec(n));
}

proof fn lemma_first_sep_none(s: Seq<char>, c: char, i: int)
    requires
        0 <= i,
        !s.contains(c),
    ensures
        first_sep(s, c, c, i) is None,
    decreases s.len() - i,
{
    if i < s.len() {
        assert(s[i] != c);
        lemma_first_sep_none(s, c, i + 1);
    }
}

/// A text without `c` splits on `c` into itself alone.
proof fn lemma_split_plain(s: Seq<char>, c: char)
    requires
        !s.contains(c),
    ensures
        split_on(s, c, c) == seq![s],
{
    lemma_first_sep_none(s, c, 0);
}

proof fn lemma_first_sep_concat(x: Seq<char>, z: Seq<char>, c: char, j: int)
    requires
        0 <= j <= x.len(),
    ensures
        first_sep(x + z, c, c, j) == match first_sep(x, c, c, j) {
            Some(i) => Some(i),
            None => first_sep(x + z, c, c, x.len() as int),
        },
    decreases x.len() - j,
{
    if j < x.len() {
        assert((x + z)[j] == x[j]);
        if x[j] != c {
            lemma_first_sep_concat(x, z, c, j + 1);
        }
    }
}

/// Splitting on `c` turns a `c` between two texts into the break between their pieces.
proof fn lemma_split_join(x: Seq<char>, y: Seq<char>, c: char)
    ensures
        split_on(x + seq![c] + y, c, c) == split_on(x, c, c) + split_on(y, c, c),
    decreases x.len(),
{
    let s = x + seq![c] + y;
    lemma_first_sep_concat(x, seq![c] + y, c, 0);
    assert(x + (seq![c] + y) =~= s);
    assert(s[x.len() as int] == c);
    match first_sep(x, c, c, 0) {
        Some(i) => {
            crate::cpu::lemma_first_sep_found(x, c, 0);
            let rest = x.subrange(i + 1, x.len() as int);
            assert(s.subrange(0, i) =~= x.subrange(0, i));
            assert(s.subrange(i + 1, s.len() as int) =~= rest + seq![c] + y);
            lemma_split_join(rest, y, c);
            assert(split_on(x, c, c) == seq![x.subrange(0, i)] + split_on(rest, c, c));
        },
        None => {
            assert(first_sep(s, c, c, x.len() as int) == Some(x.len() as int));
            assert(s.subrange(0, x.len() as int) =~= x);
            assert(s.subrange(x.len() as int + 1, s.len() as int) =~= y);
            assert(split_on(x, c, c) == seq![x]);
        },
    }
}

proof fn lemma_first_sep_found(s: Seq<char>, c: char, j: int)
    requires
        0 <= j,
    ensures
        first_sep(s, c, c, j) matches Some(i) ==> j <= i < s.len() && s[i] == c,
    decreases s.len() - j,
{
    if 0 <= j < s.len() && s[j] != c {
        lemma_first_sep_found(s, c, j + 1);
    }
}

proof fn lemma_item_run(r: (u32, u32))
    requires
        r.0 <= r.1,
    ensures
        item_cpus(run_text(r)) == span(r.0 as nat, r.1 as nat),
        !run_text(r).contains(','),
{
    let (a, b) = r;
    lemma_parse_dec(a as nat);
    lemma_parse_dec(b as nat);
    let da = dec(a as nat);
    let db = dec(b as nat);
    if a == b {
        lemma_trim_plain(da);
        assert(span(a as nat, b as nat) =~= seq![a]);
    } else {
        let t = da + seq!['-'] + db;
        assert forall|i: int| 0 <= i < t.len() implies !is_ws(#[trigger] t[i]) by {
            if i < da.len() {
                assert(t[i] == da[i]);
            } else if i > da.len() {
                assert(t[i] == db[i - da.len() - 1]);
            }
        }
        lemma_trim_plain(t);
        assert(t[da.len() as int] == '-');
        assert(t.contains('-'));
        lemma_split_join(da, db, '-');
        lemma_split_plain(da, '-');
        lemma_split_plain(db, '-');
        let bounds = split_on(t, '-', '-');
        assert(bounds =~= seq![da, db]);
        if t.contains(',') {
            let k = choose|k: int| 0 <= k < t.len() && t[k] == ',';
            if k < da.len() {
                assert(da[k] == ',');
            } else if k > da.len() {
                assert(db[k - da.len() - 1] == ',');
            }
        }
    }
}

proof fn lemma_split_runs(rs: Seq<(u32, u32)>)
    requires
        rs.len() > 0,
        forall|k: int| 0 <= k < rs.len() ==> (#[trigger] rs[k]).0 <= rs[k].1,
    ensures
        split_on(runs_text(rs), ',', ',') == rs.map_values(|r: (u32, u32)| run_text(r)),
    decreases rs.len(),
{
    if rs.len() == 1 {
        lemma_item_run(rs[0]);
        lemma_split_plain(run_text(rs[0]), ',');
        assert(rs.map_values(|r: (u32, u32)| run_text(r)) =~= seq![run_text(rs[0])]);
    } else {
        let init = rs.drop_last();
        assert forall|k: int| 0 <= k < init.len() implies (#[trigger] init[k]).0 <= init[k].1 by {
            assert(init[k] == rs[k]);
        }
        lemma_split_runs(init);
        lemma_item_run(rs.last());
        lemma_split_join(runs_text(init), run_text(rs.last()), ',');
        lemma_split_plain(run_text(rs.last()), ',');
        assert(init.map_values(|r: (u32, u32)| run_text(r)) + seq![run_text(rs.last())]
            =~= rs.map_values(|r: (u32, u32)| run_text(r)));
    }
}

proof fn lemma_items_runs(rs: Seq<(u32, u32)>)
    requires
        forall|k: int| 0 <= k < rs.len() ==> (#[trigger] rs[k]).0 <= rs[k].1,
    ensures
        items_cpus(rs.map_values(|r: (u32, u32)| run_text(r))) == runs_cpus(rs),
    decreases rs.len(),
{
    if rs.len() > 0 {
        let init = rs.drop_last();
        assert forall|k: int| 0 <= k < init.len() implies (#[trigger] init[k]).0 <= init[k].1 by {
            assert(init[k] == rs[k]);
        }
        lemma_items_runs(init);
        lemma_item_run(rs.last());
        let m = rs.map_values(|r: (u32, u32)| run_text(r));
        assert(m.drop_last() =~= init.map_values(|r: (u32, u32)| run_text(r)));
    } else {
        assert(rs.map_values(|r: (u32, u32)| run_text(r)) =~= Seq::<Seq<char>>::empty());
    }
}

proof fn lemma_insert_last(u: Seq<u32>, x: u32)
    requires
        forall|i: int| 0 <= i < u.len() ==> u[i] < x,
    ensures
        insert_sorted(u, x) == u.push(x),
    decreases u.len(),
{
    if u.len() > 0 {
        let t = u.drop_first();
        assert forall|i: int| 0 <= i < t.len() implies t[i] < x by {
            assert(t[i] == u[i + 1]);
        }
        lemma_insert_last(t, x);
        assert(seq![u[0]] + t.push(x) =~= u.push(x));
    } else {
        assert(seq![x] =~= u.push(x));
    }
}

proof fn lemma_sort_dedup_sorted(u: Seq<u32>)
    requires
        increasing(u),
    ensures
        sort_dedup(u) == u,
    decreases u.len(),
{
    if u.len() > 0 {
        let init = u.drop_last();
        assert(increasing(init)) by {
            assert forall|i: int, j: int| 0 <= i < j < init.len() implies init[i] < init[j] by {
                assert(init[i] == u[i] && init[j] == u[j]);
            }
        }
        lemma_sort_dedup_sorted(init);
        assert forall|i: int| 0 <= i < init.len() implies init[i] < u.last() by {
            assert(init[i] == u[i]);
        }
        lemma_insert_last(init, u.last());
        assert(init.push(u.last()) =~= u);
    } else {
        assert(sort_dedup(u) =~= u);
    }
}

/// Writing CPUs as cpuset text and reading the text back gives the CPUs in ascending
/// order, each once: the list read from `format_cpuset(v)` is exactly `sorted_unique(v)`,
/// so `parse_cpuset` undoes `format_cpuset` up to order and repetition.
pub proof fn law_cpuset_text_reads_back(v: Seq<u32>)
    ensures
        cpu_list(cpuset_text(v)) == sort_dedup(v),
        sort_dedup(cpu_list(cpuset_text(v))) == sort_dedup(v),
{
    let u = sort_dedup(v);
    lemma_sort_dedup(v);
    lemma_runs_cover(u);
    let rs = runs(u);
    if rs.len() > 0 {
        lemma_split_runs(rs);
        lemma_items_runs(rs);
    } else {
        assert(runs_text(rs) =~= Seq::<char>::empty());
        lemma_split_plain(Seq::<char>::empty(), ',');
        let e = Seq::<char>::empty();
        assert(seq![e].drop_last() =~= Seq::<Seq<char>>::empty());
        assert(trim(e) =~= e);
        assert(!e.contains('-'));
        assert(parse_unsigned(e, u32::MAX as nat) is None);
        assert(item_cpus(e) =~= Seq::<u32>::empty());
        assert(seq![e].last() == e);
        assert(items_cpus(seq![e]) == items_cpus(Seq::<Seq<char>>::empty()) + item_cpus(e));
        assert(cpu_list(runs_text(rs)) =~= Seq::<u32>::empty());
    }
    lemma_sort_dedup_sorted(u);
}


/// The vCPU and the cpuset text of one `<vcpupin vcpu='N' cpuset='...'` element: the
/// quoted values after the first `vcpu='` and the first `cpuset='`.
pub open spec fn pin_of(e: Seq<char>) -> Option<(u32, Seq<char>)> {
    match find(e, "vcpu='"@) {
        Some(v) => match find_from(e, "'"@, v + 6) {
            Some(ve) => match parse_unsigned(e.subrange(v + 6, ve), u32::MAX as nat) {
                Some(n) => match find(e, "cpuset='"@) {
                    Some(c) => match find_from(e, "'"@, c + 8) {
                        Some(ce) => Some((n as u32, e.subrange(c + 8, ce))),
                        None => None,
                    },
                    None => None,
                },
                None => None,
            },
            None => None,
        },
        None => None,
    }
}

/// The pins of the `<vcpupin .../>` elements of `sec` from `start` on, in order; an
/// element whose values cannot be read is passed over, and an element with no `/>`
/// ends the scan.
pub open spec fn pins_from(sec: Seq<char>, start: int) -> Seq<(u32, Seq<char>)>
    decreases sec.len() - start,
{
    if start < 0 || start > sec.len() {
        Seq::empty()
    } else {
        match find_from(sec, "<vcpupin"@, start) {
            Some(p) => match find_from(sec, "/>"@, p) {
                Some(e) => if start <= p <= e && e + 2 <= sec.len() {
                    let rest = pins_from(sec, e + 2);
                    match pin_of(sec.subrange(p, e)) {
                        Some(x) => seq![x] + rest,
                        None => rest,
                    }
                } else {
                    Seq::empty()
                },
                None => Seq::empty(),
            },
            None => Seq::empty(),
        }
    }
}

/// The text from the first `<cputune>` up to the `</cputune>` after it.
pub open spec fn cputune_section(xml: Seq<char>) -> Option<Seq<char>> {
    match find(xml, "<cputune>"@) {
        Some(cs) => match find_from(xml, "</cputune>"@, cs) {
            Some(ce) => Some(xml.subrange(cs, ce)),
            None => None,
        },
        None => None,
    }
}

/// A pin with its cpuset read into ascending CPU numbers.
pub open spec fn pin_cpus(x: (u32, Seq<char>)) -> (u32, Seq<u32>) {
    (x.0, sort_dedup(cpu_list(x.1)))
}

/// The vCPU pinning that a domain definition states, vCPU by vCPU in document order.
pub open spec fn cpu_pinning(xml: Seq<char>) -> Seq<(u32, Seq<u32>)> {
    match cputune_section(xml) {
        Some(sec) => pins_from(sec, 0).map_values(|x: (u32, Seq<char>)| pin_cpus(x)),
        None => Seq::empty(),
    }
}

pub open spec fn pinning_view(v: Seq<(u32, Vec<u32>)>) -> Seq<(u32, Seq<u32>)> {
    v.map_values(|x: (u32, Vec<u32>)| (x.0, x.1@))
}

fn pin_of_exec(e: &Vec<char>) -> (r: Option<(u32, String)>)
    ensures
        match r {
            Some(x) => pin_of(e@) == Some((x.0, x.1@)),
            None => pin_of(e@) is None,
        },
{
    proof {
        reveal_strlit("vcpu='");
        reveal_strlit("cpuset='");
        reveal_strlit("'");
    }
    let len = e.len();
    let v = match find_str(e.as_slice(), "vcpu='") {
        Some(v) => v,
        None => return None,
    };
    assert(v + 6 <= len);
    let ve = match find_str_from(e.as_slice(), "'", v + 6) {
        Some(x) => x,
        None => return None,
    };
    let n = match parse_unsigned_range(e.as_slice(), v + 6, ve, 4294967295) {
        Some(n) => n,
        None => return None,
    };
    let c = match find_str(e.as_slice(), "cpuset='") {
        Some(c) => c,
        None => return None,
    };
    assert(c + 8 <= len);
    let ce = match find_str_from(e.as_slice(), "'", c + 8) {
        Some(x) => x,
        None => return None,
    };
    Some((n as u32, string_of(e.as_slice(), c + 8, ce)))
}

/// Appends the CPUs `a..=b` to `out`.
fn push_span(out: &mut Vec<u32>, a: u32, b: u32)
    ensures
        final(out)@ == old(out)@ + span(a as nat, b as nat),
{
    let ghost start = out@;
    if a > b {
        proof {
            assert(start + span(a as nat, b as nat) =~= start);
        }
        return;
    }
    let mut i: u64 = a as u64;
    while i <= b as u64
        invariant
            a <= i <= b as u64 + 1,
            a <= b,
            out@ == start + Seq::new((i - a) as nat, |k: int| (a + k) as u32),
        decreases b as u64 + 1 - i,
    {
        out.push(i as u32);
        proof {
            assert(start + Seq::new((i + 1 - a) as nat, |k: int| (a + k) as u32) =~= (start + Seq::new(
                (i - a) as nat,
                |k: int| (a + k) as u32,
            )).push(i as u32));
        }
        i = i + 1;
    }
    proof {
        assert(Seq::new((i - a) as nat, |k: int| (a + k) as u32) =~= span(a as nat, b as nat));
    }
}

/// `c` occurs in `s`.
fn has_char(s: &Vec<char>, c: char) -> (r: bool)
    ensures
        r == s@.contains(c),
{
    let mut i: usize = 0;
    while i < s.len()
        invariant
            i <= s@.len(),
            forall|k: int| 0 <= k < i ==> s@[k] != c,
        decreases s@.len() - i,
    {
        if s[i] == c {
            return true;
        }
        i = i + 1;
    }
    false
}

fn parse_u32_chars(s: &Vec<char>) -> (r: Option<u32>)
    ensures
        match r {
            Some(v) => parse_unsigned(s@, u32::MAX as nat) == Some(v as nat),
            None => parse_unsigned(s@, u32::MAX as nat) is None,
        },
{
    let r = parse_unsigned_range(s.as_slice(), 0, s.len(), 4294967295);
    proof {
        assert(s@.subrange(0, s@.len() as int) =~= s@);
    }
    match r {
        Some(v) => Some(v as u32),
        None => None,
    }
}

/// Appends the CPUs named by one list item to `out`.
fn push_item_cpus(out: &mut Vec<u32>, item: &Vec<char>)
    ensures
        final(out)@ == old(out)@ + item_cpus(item@),
{
    let (a, b) = trim_bounds(item.as_slice(), 0, item.len());
    proof {
        assert(item@.subrange(0, item@.len() as int) =~= item@);
    }
    let t = copy_range(item.as_slice(), a, b);
    if has_char(&t, '-') {
        let bounds = split_on_chars(t.as_slice(), '-', '-');
        if bounds.len() == 2 {
            proof {
                assert(lines_view(bounds@)[0] == bounds@[0]@);
                assert(lines_view(bounds@)[1] == bounds@[1]@);
            }
            let lo = parse_u32_chars(&bounds[0]);
            let hi = parse_u32_chars(&bounds[1]);
            match (lo, hi) {
                (Some(x), Some(y)) => {
                    push_span(out, x, y);
                },
                _ => {
                    proof {
                        assert(old(out)@ + item_cpus(item@) =~= old(out)@);
                    }
                },
            }
        } else {
            proof {
                assert(old(out)@ + item_cpus(item@) =~= old(out)@);
            }
        }
    } else {
        match parse_u32_chars(&t) {
            Some(v) => {
                out.push(v);
                proof {
                    assert(old(out)@ + item_cpus(item@) =~= old(out)@.push(v));
                }
            },
            None => {
                proof {
                    assert(old(out)@ + item_cpus(item@) =~= old(out)@);
                }
            },
        }
    }
}

/// Puts `x` into the ascending `out` unless it is there already.
fn insert_unique(out: &mut Vec<u32>, x: u32)
    requires
        increasing(old(out)@),
    ensures
        final(out)@ == insert_sorted(old(out)@, x),
{
    let mut p: usize = 0;
    while p < out.len() && out[p] < x
        invariant
            p <= out@.len(),
            forall|i: int| 0 <= i < p ==> out@[i] < x,
        decreases out@.len() - p,
    {
        p = p + 1;
    }
    proof {
        lemma_insert_at(out@, x, p as int);
    }
    if p < out.len() && out[p] == x {
        return;
    }
    out.insert(p, x);
}

/// The numbers of `v` in ascending order, each once (`sort` then `dedup`).
pub fn sorted_unique(v: &[u32]) -> (r: Vec<u32>)
    ensures
        r@ == sort_dedup(v@),
        increasing(r@),
        forall|y: u32| #[trigger] r@.contains(y) <==> v@.contains(y),
{
    let mut out: Vec<u32> = Vec::new();
    let mut k: usize = 0;
    while k < v.len()
        invariant
            k <= v@.len(),
            out@ == sort_dedup(v@.take(k as int)),
        decreases v@.len() - k,
    {
        proof {
            lemma_sort_dedup(v@.take(k as int));
        }
        insert_unique(&mut out, v[k]);
        proof {
            assert(v@.take(k + 1).drop_last() =~= v@.take(k as int));
        }
        k = k + 1;
    }
    proof {
        assert(v@.take(v@.len() as int) =~= v@);
        lemma_sort_dedup(v@);
    }
    out
}

impl VmService {
    /// The CPUs a list such as `0-3,8-11` names, in the order written. Items that are
    /// not a number or a `first-last` range are skipped.
    pub fn parse_cpu_list(cpulist: &str) -> (r: Vec<u32>)
        ensures
            r@ == cpu_list(cpulist@),
    {
        let s = chars_of(cpulist);
        let items = split_on_chars(s.as_slice(), ',', ',');
        let ghost all = lines_view(items@);
        let mut out: Vec<u32> = Vec::new();
        let mut k: usize = 0;
        while k < items.len()
            invariant
                k <= items@.len(),
                all == lines_view(items@),
                all == split_on(cpulist@, ',', ','),
                out@ == items_cpus(all.take(k as int)),
            decreases items@.len() - k,
        {
            push_item_cpus(&mut out, &items[k]);
            proof {
                assert(all.take(k + 1).drop_last() =~= all.take(k as int));
                assert(all.take(k + 1).last() == items@[k as int]@);
            }
            k = k + 1;
        }
        proof {
            assert(all.take(items@.len() as int) =~= all);
        }
        out
    }

    /// The CPUs a cpuset such as `0-3,5,7-9` names, in ascending order and each once.
    pub fn parse_cpuset(cpuset: &str) -> (r: Vec<u32>)
        ensures
            r@ == sort_dedup(cpu_list(cpuset@)),
            increasing(r@),
            forall|y: u32| #[trigger] r@.contains(y) <==> cpu_list(cpuset@).contains(y),
    {
        let all = Self::parse_cpu_list(cpuset);
        sorted_unique(all.as_slice())
    }

    /// The vCPU pinning a domain definition states: for each readable `<vcpupin>` inside
    /// its `<cputune>`, the vCPU and its host CPUs in ascending order.
    pub fn get_cpu_pinning(xml: &str) -> (r: Vec<(u32, Vec<u32>)>)
        ensures
            pinning_view(r@) == cpu_pinning(xml@),
    {
        let v = chars_of(xml);
        let mut out: Vec<(u32, Vec<u32>)> = Vec::new();
        proof {
            reveal_strlit("<cputune>");
            reveal_strlit("</cputune>");
            reveal_strlit("<vcpupin");
            reveal_strlit("/>");
        }
        let cs = match find_str(v.as_slice(), "<cputune>") {
            Some(i) => i,
            None => {
                proof {
                    assert(pinning_view(out@) =~= cpu_pinning(xml@));
                }
                return out;
            },
        };
        let ce = match find_str_from(v.as_slice(), "</cputune>", cs) {
            Some(i) => i,
            None => {
                proof {
                    assert(pinning_view(out@) =~= cpu_pinning(xml@));
                }
                return out;
            },
        };
        let sec = copy_range(v.as_slice(), cs, ce);
        let ghost all = pins_from(sec@, 0);
        let ghost mut done: Seq<(u32, Seq<char>)> = Seq::empty();
        assert(cputune_section(xml@) == Some(sec@));
        let mut start: usize = 0;
        while start <= sec.len()
            invariant
                start <= sec@.len() + 1,
                cputune_section(xml@) == Some(sec@),
                all == pins_from(sec@, 0),
                start <= sec@.len() ==> done + pins_from(sec@, start as int) == all,
                start > sec@.len() ==> done == all,
                pinning_view(out@) == done.map_values(|x: (u32, Seq<char>)| pin_cpus(x)),
            decreases sec@.len() + 1 - start,
        {
            proof {
                reveal_strlit("<vcpupin");
                reveal_strlit("/>");
            }
            let p = match find_str_from(sec.as_slice(), "<vcpupin", start) {
                Some(p) => p,
                None => {
                    proof {
                        assert(done + Seq::<(u32, Seq<char>)>::empty() =~= done);
                    }
                    return out;
                },
            };
            let e = match find_str_from(sec.as_slice(), "/>", p) {
                Some(e) => e,
                None => {
                    proof {
                        assert(done + Seq::<(u32, Seq<char>)>::empty() =~= done);
                    }
                    return out;
                },
            };
            let elem = copy_range(sec.as_slice(), p, e);
            let ghost rest = pins_from(sec@, e + 2);
            match pin_of_exec(&elem) {
                Some((n, text)) => {
                    let cpus = Self::parse_cpuset(text.as_str());
                    let ghost before = out@;
                    let ghost cv = cpus@;
                    out.push((n, cpus));
                    proof {
                        assert(pins_from(sec@, start as int) == seq![(n, text@)] + rest);
                        assert(done.push((n, text@)) + rest =~= done + (seq![(n, text@)] + rest));
                        assert(cv == pin_cpus((n, text@)).1);
                        assert(pinning_view(out@) =~= pinning_view(before).push((n, cv)));
                        assert(done.push((n, text@)).map_values(|x: (u32, Seq<char>)| pin_cpus(x))
                            =~= done.map_values(|x: (u32, Seq<char>)| pin_cpus(x)).push(pin_cpus((n, text@))));
                        assert(pinning_view(out@) =~= done.push((n, text@)).map_values(
                            |x: (u32, Seq<char>)| pin_cpus(x),
                        ));
                        done = done.push((n, text@));
                    }
                },
                None => {
                    proof {
                        assert(pins_from(sec@, start as int) == rest);
                    }
                },
            }
            start = e + 2;
        }
        out
    }

    /// The shortest cpuset text for `cpus`: the CPUs sorted, duplicates dropped and
    /// consecutive numbers written as a range, such as `0-3,5,7-9`; empty for no CPUs.
    pub fn format_cpuset(cpus: &[u32]) -> (r: String)
        ensures
            r@ == cpuset_text(cpus@),
    {
        let u = sorted_unique(cpus);
        let mut rs: Vec<(u32, u32)> = Vec::new();
        let mut i: usize = 0;
        while i < u.len()
            invariant
                i <= u@.len(),
                increasing(u@),
                rs@ == runs(u@.take(i as int)),
                i > 0 ==> rs@.len() > 0 && rs@.last().1 == u@[i - 1],
            decreases u@.len() - i,
        {
            let x = u[i];
            let n = rs.len();
            proof {
                assert(u@.take(i + 1).drop_last() =~= u@.take(i as int));
                assert(u@.take(i + 1).last() == x);
                if i > 0 {
                    assert(u@[i - 1] < u@[i as int]);
                }
            }
            if n > 0 && rs[n - 1].1 + 1 == x {
                let a = rs[n - 1].0;
                rs.set(n - 1, (a, x));
                proof {
                    assert(rs@ =~= runs(u@.take(i as int)).drop_last().push((a, x)));
                }
            } else {
                rs.push((x, x));
            }
            i = i + 1;
        }
        proof {
            assert(u@.take(u@.len() as int) =~= u@);
        }
        let mut out = String::new();
        let mut j: usize = 0;
        while j < rs.len()
            invariant
                j <= rs@.len(),
                out@ == runs_text(rs@.take(j as int)),
            decreases rs@.len() - j,
        {
            let (a, b) = rs[j];
            proof {
                assert(rs@.take(j + 1).drop_last() =~= rs@.take(j as int));
                assert(rs@.take(j + 1).last() == (a, b));
                if j == 0 {
                    assert(rs@.take(1)[0] == (a, b));
                }
            }
            if j > 0 {
                out.append(",");
            }
            out.append(fmt_u64(a as u64).as_str());
            if a != b {
                out.append("-");
                out.append(fmt_u64(b as u64).as_str());
            }
            proof {
                reveal_strlit(",");
                reveal_strlit("-");
                assert(out@ =~= runs_text(rs@.take(j + 1)));
            }
            j = j + 1;
        }
        proof {
            assert(rs@.take(rs@.len() as int) =~= rs@);
        }
        out
    }
}

} // verus!
