//! Usage figures of a running VM as `virsh` reports them: disk bytes read and written,
//! memory in use, and bytes received and sent on each interface.
use crate::text::{
    is_ws, lemma_skip_ws_back_bounds, lemma_skip_ws_bounds, lemma_word_end_bounds, lines, skip_ws, word_end, lines_view, parse_unsigned, parse_unsigned_range, split_lines, split_on, split_on_chars,
    split_whitespace, starts_with, starts_with_str, str_eq, string_of_all, trim, trim_bounds, words_from,
};
use crate::vm::VmService;
use vstd::prelude::*;

verus! {

/// A counter as `virsh` prints it: the number, or zero when there is none.
pub open spec fn counter(s: Seq<char>) -> nat {
    match parse_unsigned(s, u64::MAX as nat) {
        Some(n) => n,
        None => 0,
    }
}

/// Bytes read and written after one line of `virsh domblkstat --human`: the value after
/// the first colon of a `number of bytes read:` or `number of bytes written:` line.
pub open spec fn blkstat_line(acc: (nat, nat), line: Seq<char>) -> (nat, nat) {
    let t = trim(line);
    let parts = split_on(t, ':', ':');
    if starts_with(t, "number of bytes read:"@) {
        if parts.len() >= 2 {
            (counter(trim(parts[1])), acc.1)
        } else {
            acc
        }
    } else if starts_with(t, "number of bytes written:"@) {
        if parts.len() >= 2 {
            (acc.0, counter(trim(parts[1])))
        } else {
            acc
        }
    } else {
        acc
    }
}

/// Bytes read and written, as the lines of `virsh domblkstat --human` state them last.
pub open spec fn blkstat_of(ls: Seq<Seq<char>>) -> (nat, nat)
    decreases ls.len(),
{
    if ls.len() == 0 {
        (0, 0)
    } else {
        blkstat_line(blkstat_of(ls.drop_last()), ls.last())
    }
}

/// The `actual`, `available` and `usable` values (KiB) after one line of
/// `virsh dommemstat`.
pub open spec fn memstat_line(acc: (nat, nat, nat), line: Seq<char>) -> (nat, nat, nat) {
    let w = words_from(line, 0);
    if w.len() >= 2 {
        if w[0] == "actual"@ {
            (counter(w[1]), acc.1, acc.2)
        } else if w[0] == "available"@ {
            (acc.0, counter(w[1]), acc.2)
        } else if w[0] == "usable"@ {
            (acc.0, acc.1, counter(w[1]))
        } else {
            acc
        }
    } else {
        acc
    }
}

pub open spec fn memstat_of(ls: Seq<Seq<char>>) -> (nat, nat, nat)
    decreases ls.len(),
{
    if ls.len() == 0 {
        (0, 0, 0)
    } else {
        memstat_line(memstat_of(ls.drop_last()), ls.last())
    }
}

/// Memory used and memory seen by the guest, in MiB: the available memory less the
/// usable memory; the balloon's actual size for both when no available memory is
/// reported.
pub open spec fn memory_usage(text: Seq<char>) -> (nat, nat) {
    let m = memstat_of(lines(text));
    let total = m.1 / 1024;
    let usable = m.2 / 1024;
    if total == 0 {
        (m.0 / 1024, m.0 / 1024)
    } else {
        (if total >= usable {
            (total - usable) as nat
        } else {
            0
        }, total)
    }
}

/// Every character is `-`.
pub open spec fn all_dashes(s: Seq<char>) -> bool {
    forall|i: int| 0 <= i < s.len() ==> s[i] == '-'
}

/// The interface names of the lines of a `virsh domiflist` table below its header: the
/// first field of every line that is not blank and not a rule of dashes.
pub open spec fn iflist_names(ls: Seq<Seq<char>>) -> Seq<Seq<char>>
    decreases ls.len(),
{
    if ls.len() == 0 {
        Seq::empty()
    } else {
        let rest = iflist_names(ls.drop_last());
        let l = ls.last();
        if trim(l).len() == 0 {
            rest
        } else {
            let first = words_from(l, 0)[0];
            if all_dashes(first) {
                rest
            } else {
                rest.push(first)
            }
        }
    }
}

/// The interfaces listed by `virsh domiflist`, skipping its two header lines; `vnet0`
/// when the command failed.
pub open spec fn domiflist_names(success: bool, text: Seq<char>) -> Seq<Seq<char>> {
    if !success {
        seq!["vnet0"@]
    } else {
        let ls = lines(text);
        if ls.len() <= 2 {
            Seq::empty()
        } else {
            iflist_names(ls.subrange(2, ls.len() as int))
        }
    }
}

/// Bytes received and sent after one line of `virsh domifstat`: the third field of an
/// `rx_bytes` or `tx_bytes` line, added.
pub open spec fn ifstat_line(acc: (nat, nat), line: Seq<char>) -> (nat, nat) {
    let w = words_from(line, 0);
    if w.len() >= 3 {
        if w[1] == "rx_bytes"@ {
            (acc.0 + counter(w[2]), acc.1)
        } else if w[1] == "tx_bytes"@ {
            (acc.0, acc.1 + counter(w[2]))
        } else {
            acc
        }
    } else {
        acc
    }
}

pub open spec fn ifstat_from(acc: (nat, nat), ls: Seq<Seq<char>>) -> (nat, nat)
    decreases ls.len(),
{
    if ls.len() == 0 {
        acc
    } else {
        ifstat_line(ifstat_from(acc, ls.drop_last()), ls.last())
    }
}

/// Bytes received and sent over all the `virsh domifstat` outputs, one per interface.
pub open spec fn network_totals(outputs: Seq<Seq<char>>) -> (nat, nat)
    decreases outputs.len(),
{
    if outputs.len() == 0 {
        (0, 0)
    } else {
        ifstat_from(network_totals(outputs.drop_last()), lines(outputs.last()))
    }
}

proof fn lemma_ifstat_grows(acc: (nat, nat), ls: Seq<Seq<char>>, k: int)
    requires
        0 <= k <= ls.len(),
    ensures
        ifstat_from(acc, ls.take(k)).0 <= ifstat_from(acc, ls).0,
        ifstat_from(acc, ls.take(k)).1 <= ifstat_from(acc, ls).1,
        acc.0 <= ifstat_from(acc, ls).0,
        acc.1 <= ifstat_from(acc, ls).1,
    decreases ls.len(),
{
    if ls.len() == 0 {
        assert(ls.take(k) =~= ls);
    } else if k == ls.len() {
        assert(ls.take(k) =~= ls);
        lemma_ifstat_grows(acc, ls.drop_last(), 0);
    } else {
        assert(ls.take(k) =~= ls.drop_last().take(k));
        lemma_ifstat_grows(acc, ls.drop_last(), k);
    }
}

proof fn lemma_network_grows(outputs: Seq<Seq<char>>, k: int)
    requires
        0 <= k <= outputs.len(),
    ensures
        network_totals(outputs.take(k)).0 <= network_totals(outputs).0,
        network_totals(outputs.take(k)).1 <= network_totals(outputs).1,
    decreases outputs.len(),
{
    if k == outputs.len() {
        assert(outputs.take(k) =~= outputs);
    } else {
        assert(outputs.take(k) =~= outputs.drop_last().take(k));
        lemma_network_grows(outputs.drop_last(), k);
        lemma_ifstat_grows(network_totals(outputs.drop_last()), lines(outputs.last()), 0);
    }
}

fn counter_of(s: &[char], from: usize, to: usize) -> (r: u64)
    requires
        from <= to <= s@.len(),
    ensures
        r == counter(s@.subrange(from as int, to as int)),
{
    match parse_unsigned_range(s, from, to, u64::MAX) {
        Some(v) => v,
        None => 0,
    }
}

fn counter_of_vec(s: &Vec<char>) -> (r: u64)
    ensures
        r == counter(s@),
{
    proof {
        assert(s@.subrange(0, s@.len() as int) =~= s@);
    }
    counter_of(s.as_slice(), 0, s.len())
}

fn is_word(w: &Vec<char>, p: &str) -> (r: bool)
    ensures
        r == (w@ == p@),
{
    let s = string_of_all(w.as_slice());
    str_eq(s.as_str(), p)
}

impl VmService {
    /// Bytes read and written by a VM's disks, from `virsh domblkstat --human`.
    pub fn domblkstat_bytes(text: &str) -> (r: (u64, u64))
        ensures
            (r.0 as nat, r.1 as nat) == blkstat_of(lines(text@)),
    {
        let ls = split_lines(text);
        let ghost all = lines_view(ls@);
        let mut read: u64 = 0;
        let mut written: u64 = 0;
        let mut k: usize = 0;
        while k < ls.len()
            invariant
                k <= ls@.len(),
                all == lines_view(ls@),
                all == lines(text@),
                (read as nat, written as nat) == blkstat_of(all.take(k as int)),
            decreases ls@.len() - k,
        {
            let line = &ls[k];
            proof {
                assert(all.take(k + 1).drop_last() =~= all.take(k as int));
                assert(all.take(k + 1).last() == line@);
                assert(line@.subrange(0, line@.len() as int) =~= line@);
            }
            let (a, b) = trim_bounds(line.as_slice(), 0, line.len());
            let t = crate::text::copy_range(line.as_slice(), a, b);
            let is_read = starts_with_str(t.as_slice(), "number of bytes read:");
            let is_written = starts_with_str(t.as_slice(), "number of bytes written:");
            if is_read || is_written {
                let parts = split_on_chars(t.as_slice(), ':', ':');
                if parts.len() >= 2 {
                    let p = &parts[1];
                    proof {
                        assert(lines_view(parts@)[1] == p@);
                        assert(p@.subrange(0, p@.len() as int) =~= p@);
                    }
                    let (c, d) = trim_bounds(p.as_slice(), 0, p.len());
                    let v = counter_of(p.as_slice(), c, d);
                    if is_read {
                        read = v;
                    } else {
                        written = v;
                    }
                }
            }
            k = k + 1;
        }
        proof {
            assert(all.take(ls@.len() as int) =~= all);
        }
        (read, written)
    }

    /// Memory in use and memory seen by a running VM, in MiB, from `virsh dommemstat`.
    pub fn dommemstat_usage(text: &str) -> (r: (u64, u64))
        ensures
            (r.0 as nat, r.1 as nat) == memory_usage(text@),
    {
        let ls = split_lines(text);
        let ghost all = lines_view(ls@);
        let mut actual: u64 = 0;
        let mut available: u64 = 0;
        let mut usable: u64 = 0;
        let mut k: usize = 0;
        while k < ls.len()
            invariant
                k <= ls@.len(),
                all == lines_view(ls@),
                all == lines(text@),
                (actual as nat, available as nat, usable as nat) == memstat_of(all.take(k as int)),
            decreases ls@.len() - k,
        {
            let line = &ls[k];
            proof {
                assert(all.take(k + 1).drop_last() =~= all.take(k as int));
                assert(all.take(k + 1).last() == line@);
            }
            let w = split_whitespace(line.as_slice());
            if w.len() >= 2 {
                proof {
                    assert(lines_view(w@)[0] == w@[0]@);
                    assert(lines_view(w@)[1] == w@[1]@);
                }
                let v = counter_of_vec(&w[1]);
                if is_word(&w[0], "actual") {
                    actual = v;
                } else if is_word(&w[0], "available") {
                    available = v;
                } else if is_word(&w[0], "usable") {
                    usable = v;
                }
            }
            k = k + 1;
        }
        proof {
            assert(all.take(ls@.len() as int) =~= all);
        }
        let total = available / 1024;
        let usable_mb = usable / 1024;
        if total == 0 {
            (actual / 1024, actual / 1024)
        } else {
            (total.saturating_sub(usable_mb), total)
        }
    }

    /// The interfaces of a VM as `virsh domiflist` lists them; `vnet0` when the command
    /// failed.
    pub fn domiflist_interfaces(success: bool, text: &str) -> (r: Vec<String>)
        ensures
            r@.map_values(|s: String| s@) == domiflist_names(success, text@),
    {
        let mut out: Vec<String> = Vec::new();
        if !success {
            out.push(String::from_str("vnet0"));
            proof {
                assert(out@.map_values(|s: String| s@) =~= seq!["vnet0"@]);
            }
            return out;
        }
        let ls = split_lines(text);
        let ghost all = lines_view(ls@);
        if ls.len() <= 2 {
            proof {
                assert(out@.map_values(|s: String| s@) =~= Seq::<Seq<char>>::empty());
            }
            return out;
        }
        let ghost body = all.subrange(2, all.len() as int);
        let mut k: usize = 2;
        while k < ls.len()
            invariant
                2 <= k <= ls@.len(),
                all == lines_view(ls@),
                all == lines(text@),
                body == all.subrange(2, all.len() as int),
                out@.map_values(|s: String| s@) == iflist_names(body.take(k - 2)),
            decreases ls@.len() - k,
        {
            let line = &ls[k];
            proof {
                assert(body.take(k - 1).drop_last() =~= body.take(k - 2));
                assert(body.take(k - 1).last() == line@);
                assert(line@.subrange(0, line@.len() as int) =~= line@);
            }
            let (a, b) = trim_bounds(line.as_slice(), 0, line.len());
            if a < b {
                let w = split_whitespace(line.as_slice());
                proof {
                    lemma_first_word(line@);
                }
                let first = &w[0];
                proof {
                    assert(lines_view(w@)[0] == first@);
                }
                let mut dashes = true;
                let mut i: usize = 0;
                while i < first.len()
                    invariant
                        i <= first@.len(),
                        dashes == (forall|j: int| 0 <= j < i ==> first@[j] == '-'),
                    decreases first@.len() - i,
                {
                    if first[i] != '-' {
                        dashes = false;
                    }
                    i = i + 1;
                }
                if !dashes {
                    let ghost before = out@;
                    out.push(string_of_all(first.as_slice()));
                    proof {
                        assert(out@.map_values(|s: String| s@) =~= before.map_values(|s: String| s@).push(first@));
                    }
                }
            }
            k = k + 1;
        }
        proof {
            assert(body.take(ls@.len() - 2) =~= body);
        }
        out
    }

    /// Bytes received and sent over all of a VM's interfaces, from the `virsh domifstat`
    /// output of each; `None` when a total does not fit in 64 bits.
    pub fn domifstat_bytes(outputs: &Vec<String>) -> (r: Option<(u64, u64)>)
        ensures
            match r {
                Some(t) => (t.0 as nat, t.1 as nat) == network_totals(outputs@.map_values(|s: String| s@)),
                None => network_totals(outputs@.map_values(|s: String| s@)).0 > u64::MAX
                    || network_totals(outputs@.map_values(|s: String| s@)).1 > u64::MAX,
            },
    {
        let ghost os = outputs@.map_values(|s: String| s@);
        let mut rx: u64 = 0;
        let mut tx: u64 = 0;
        let mut o: usize = 0;
        while o < outputs.len()
            invariant
                o <= outputs@.len(),
                os == outputs@.map_values(|s: String| s@),
                (rx as nat, tx as nat) == network_totals(os.take(o as int)),
            decreases outputs@.len() - o,
        {
            let ls = split_lines(outputs[o].as_str());
            let ghost all = lines_view(ls@);
            let ghost base = network_totals(os.take(o as int));
            proof {
                assert(os.take(o + 1).drop_last() =~= os.take(o as int));
                assert(os.take(o + 1).last() == outputs@[o as int]@);
                assert(all.take(0) =~= Seq::<Seq<char>>::empty());
            }
            let mut k: usize = 0;
            while k < ls.len()
                invariant
                    k <= ls@.len(),
                    o < outputs@.len(),
                    os == outputs@.map_values(|s: String| s@),
                    all == lines_view(ls@),
                    all == lines(os[o as int]),
                    base == network_totals(os.take(o as int)),
                    network_totals(os.take(o + 1)) == ifstat_from(base, all),
                    (rx as nat, tx as nat) == ifstat_from(base, all.take(k as int)),
                decreases ls@.len() - k,
            {
                let line = &ls[k];
                proof {
                    assert(all.take(k + 1).drop_last() =~= all.take(k as int));
                    assert(all.take(k + 1).last() == line@);
                }
                let w = split_whitespace(line.as_slice());
                if w.len() >= 3 {
                    proof {
                        assert(lines_view(w@)[1] == w@[1]@);
                        assert(lines_view(w@)[2] == w@[2]@);
                    }
                    let v = counter_of_vec(&w[2]);
                    let is_rx = is_word(&w[1], "rx_bytes");
                    let is_tx = is_word(&w[1], "tx_bytes");
                    if is_rx || is_tx {
                        let cur = if is_rx { rx } else { tx };
                        match cur.checked_add(v) {
                            Some(x) => {
                                if is_rx {
                                    rx = x;
                                } else {
                                    tx = x;
                                }
                            },
                            None => {
                                proof {
                                    lemma_ifstat_grows(base, all, k + 1);
                                    lemma_network_grows(os, o + 1);
                                }
                                return None;
                            },
                        }
                    }
                }
                k = k + 1;
            }
            proof {
                assert(all.take(ls@.len() as int) =~= all);
            }
            o = o + 1;
        }
        proof {
            assert(os.take(outputs@.len() as int) =~= os);
        }
        Some((rx, tx))
    }
}

proof fn lemma_skip_ws_stops(s: Seq<char>, i: int)
    requires
        0 <= i <= s.len(),
    ensures
        skip_ws(s, i) < s.len() ==> !is_ws(s[skip_ws(s, i)]),
    decreases s.len() - i,
{
    if 0 <= i < s.len() && is_ws(s[i]) {
        lemma_skip_ws_stops(s, i + 1);
    }
}

/// A line that is not blank has a first word.
proof fn lemma_first_word(l: Seq<char>)
    requires
        trim(l).len() > 0,
    ensures
        words_from(l, 0).len() > 0,
{
    let a = skip_ws(l, 0);
    lemma_skip_ws_bounds(l, 0);
    lemma_skip_ws_back_bounds(l, a, l.len() as int);
    lemma_skip_ws_stops(l, 0);
    lemma_word_end_bounds(l, a + 1);
    assert(word_end(l, a) == word_end(l, a + 1));
}

} // verus!
