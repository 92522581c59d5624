//! What giving a definition fresh MAC addresses keeps: every interface still has exactly
//! one address, and each is, in order, the QEMU address of the next suffix.
use crate::clone_xml::{mac_close, mac_count, mac_open, macs_from, qemu_mac};
use crate::text::{find_from, lemma_find_from_props, lemma_find_from_shift, lemma_find_from_suffix, occurs_at};
use crate::vm::{hex_char, hex_fixed};
use vstd::prelude::*;

verus! {

/// The MAC address values `s` holds from `pos` on, in order.
pub open spec fn mac_values(s: Seq<char>, pos: int) -> Seq<Seq<char>>
    decreases s.len() - pos,
{
    if pos < 0 || pos > s.len() {
        Seq::empty()
    } else {
        match find_from(s, mac_open(), pos) {
            None => Seq::empty(),
            Some(i) => match find_from(s, mac_close(), i + mac_open().len()) {
                None => Seq::empty(),
                Some(e) => {
                    proof {
                        reveal_strlit("<mac address='");
                        lemma_find_from_props(s, mac_open(), pos);
                        lemma_find_from_props(s, mac_close(), i + mac_open().len());
                    }
                    seq![s.subrange(i + mac_open().len(), e)] + mac_values(s, e)
                },
            },
        }
    }
}

proof fn lemma_hex_fixed_plain(v: nat, w: nat)
    ensures
        hex_fixed(v, w).len() == w,
        forall|k: int| 0 <= k < w ==> #[trigger] hex_fixed(v, w)[k] != '\'',
    decreases w,
{
    if w > 0 {
        let h = hex_fixed(v / 16, (w - 1) as nat);
        lemma_hex_fixed_plain(v / 16, (w - 1) as nat);
        assert(hex_char(v % 16) != '\'');
        assert forall|k: int| 0 <= k < w implies #[trigger] hex_fixed(v, w)[k] != '\'' by {
            if k < w - 1 {
                assert(hex_fixed(v, w)[k] == h[k]);
            }
        }
    }
}

/// A QEMU address is seventeen characters, none of them a quote.
proof fn lemma_qemu_mac_plain(t: (u8, u8, u8))
    ensures
        qemu_mac(t).len() == 17,
        forall|k: int| 0 <= k < 17 ==> #[trigger] qemu_mac(t)[k] != '\'',
{
    reveal_strlit("52:54:00:");
    reveal_strlit(":");
    lemma_hex_fixed_plain(t.0 as nat, 2);
    lemma_hex_fixed_plain(t.1 as nat, 2);
    lemma_hex_fixed_plain(t.2 as nat, 2);
    let a = "52:54:00:"@;
    let c = ":"@;
    let h0 = hex_fixed(t.0 as nat, 2);
    let h1 = hex_fixed(t.1 as nat, 2);
    let h2 = hex_fixed(t.2 as nat, 2);
    let q = qemu_mac(t);
    assert(q == a + h0 + c + h1 + c + h2);
    assert forall|k: int| 0 <= k < 17 implies #[trigger] qemu_mac(t)[k] != '\'' by {
        if k < 9 {
            assert(q[k] == a[k]);
        } else if k < 11 {
            assert(q[k] == h0[k - 9]);
        } else if k < 12 {
            assert(q[k] == c[0]);
        } else if k < 14 {
            assert(q[k] == h1[k - 12]);
        } else if k < 15 {
            assert(q[k] == c[0]);
        } else {
            assert(q[k] == h2[k - 15]);
        }
    }
}

/// Counting and reading the addresses of a suffix is counting and reading them from
/// where the suffix starts.
proof fn lemma_macs_of_suffix(s: Seq<char>, pos: int, k: int)
    requires
        0 <= pos <= s.len(),
        0 <= k,
    ensures
        mac_count(s.subrange(pos, s.len() as int), k) == mac_count(s, pos + k),
        mac_values(s.subrange(pos, s.len() as int), k) == mac_values(s, pos + k),
    decreases s.len() - pos - k,
{
    reveal_strlit("<mac address='");
    let t = s.subrange(pos, s.len() as int);
    if k <= t.len() {
        lemma_find_from_suffix(s, mac_open(), pos, k);
        lemma_find_from_props(s, mac_open(), pos + k);
        if let Some(i) = find_from(s, mac_open(), pos + k) {
            lemma_find_from_suffix(s, mac_close(), pos, i - pos + 14);
            lemma_find_from_props(s, mac_close(), i + 14);
            if let Some(e) = find_from(s, mac_close(), i + 14) {
                assert(t.subrange(i - pos + 14, e - pos) =~= s.subrange(i + 14, e));
                lemma_macs_of_suffix(s, pos, e - pos);
            }
        }
    }
}

/// As many values as addresses.
proof fn lemma_mac_values_len(s: Seq<char>, pos: int)
    ensures
        mac_values(s, pos).len() == mac_count(s, pos),
    decreases s.len() - pos,
{
    reveal_strlit("<mac address='");
    if 0 <= pos <= s.len() {
        lemma_find_from_props(s, mac_open(), pos);
        if let Some(i) = find_from(s, mac_open(), pos) {
            lemma_find_from_props(s, mac_close(), i + 14);
            if let Some(e) = find_from(s, mac_close(), i + 14) {
                lemma_mac_values_len(s, e);
            }
        }
    }
}

/// What follows a replaced address still opens with the end of its element.
proof fn lemma_rest_starts_closed(y: Seq<char>, e: int, sufs: Seq<(u8, u8, u8)>)
    requires
        0 <= e,
        occurs_at(y, mac_close(), e),
    ensures
        macs_from(y, e, sufs).len() >= 3,
        macs_from(y, e, sufs).subrange(0, 3) == mac_close(),
{
    reveal_strlit("<mac address='");
    reveal_strlit("'/>");
    let c = mac_close();
    assert(y[e] == c[0] && y[e + 1] == c[1] && y[e + 2] == c[2]) by {
        assert(y.subrange(e, e + 3) == c);
        assert(y.subrange(e, e + 3)[0] == y[e]);
        assert(y.subrange(e, e + 3)[1] == y[e + 1]);
        assert(y.subrange(e, e + 3)[2] == y[e + 2]);
    }
    let r = macs_from(y, e, sufs);
    if sufs.len() > 0 {
        lemma_find_from_props(y, mac_open(), e);
        if let Some(i) = find_from(y, mac_open(), e) {
            assert(y[i] == '<') by {
                assert(y.subrange(i, i + 14)[0] == y[i]);
            }
            assert(i >= e + 3);
            if let Some(f) = find_from(y, mac_close(), i + 14) {
                let a = y.subrange(e, i + 14);
                assert(r == a + qemu_mac(sufs[0]) + macs_from(y, f, sufs.drop_first()));
                assert(r.subrange(0, 3) =~= y.subrange(e, e + 3));
                return;
            }
        }
    }
    assert(r.subrange(0, 3) =~= y.subrange(e, e + 3));
}

/// The addresses of a definition from `pos` on, once replaced with enough suffixes, are
/// as many as before and are the QEMU addresses of the suffixes in order.
proof fn lemma_replaced_macs(y: Seq<char>, p: int, sufs: Seq<(u8, u8, u8)>)
    requires
        0 <= p <= y.len(),
        sufs.len() >= mac_count(y, p),
    ensures
        mac_count(macs_from(y, p, sufs), 0) == mac_count(y, p),
        mac_values(macs_from(y, p, sufs), 0) == Seq::new(mac_count(y, p), |k: int| qemu_mac(sufs[k])),
    decreases sufs.len(),
{
    reveal_strlit("<mac address='");
    reveal_strlit("'/>");
    lemma_find_from_props(y, mac_open(), p);
    let found = match find_from(y, mac_open(), p) {
        Some(i) => match find_from(y, mac_close(), i + 14) {
            Some(e) => Some((i, e)),
            None => None,
        },
        None => None,
    };
    if sufs.len() == 0 || found is None {
        lemma_macs_of_suffix(y, p, 0);
        lemma_mac_values_len(y, p);
        assert(mac_values(y, p) =~= Seq::new(mac_count(y, p), |k: int| qemu_mac(sufs[k])));
    } else {
        let (i, e) = found->0;
        lemma_find_from_props(y, mac_close(), i + 14);
        let q = qemu_mac(sufs[0]);
        let rest = sufs.drop_first();
        let t = macs_from(y, e, rest);
        let a = y.subrange(p, i + 14);
        let r = a + q + t;
        assert(macs_from(y, p, sufs) == r);
        assert(mac_count(y, p) == 1 + mac_count(y, e));
        lemma_replaced_macs(y, e, rest);
        lemma_qemu_mac_plain(sufs[0]);
        lemma_rest_starts_closed(y, e, rest);
        let n = i - p;
        assert forall|j: int| 0 <= j < n implies !occurs_at(r, mac_open(), j) by {
            if occurs_at(r, mac_open(), j) {
                assert(r.subrange(j, j + 14) =~= y.subrange(p + j, p + j + 14));
                assert(occurs_at(y, mac_open(), p + j));
                assert(p <= p + j < i);
                assert(false);
            }
        }
        lemma_find_from_shift(r, mac_open(), 0, n);
        assert(r.subrange(n, n + 14) =~= y.subrange(i, i + 14));
        let m = n + 14 + 17;
        assert forall|j: int| n + 14 <= j < m implies !occurs_at(r, mac_close(), j) by {
            if occurs_at(r, mac_close(), j) {
                assert(r.subrange(j, j + 3)[0] == r[j]);
                assert(r[j] == q[j - n - 14]);
            }
        }
        lemma_find_from_shift(r, mac_close(), n + 14, m);
        assert(r.subrange(m, m + 3) =~= t.subrange(0, 3));
        assert(r.subrange(n + 14, m) =~= q);
        assert(r.subrange(m, r.len() as int) =~= t);
        lemma_macs_of_suffix(r, m, 0);
        assert(mac_values(r, 0) == seq![q] + mac_values(r, m));
        assert(mac_values(r, 0) =~= Seq::new(mac_count(y, p), |k: int| qemu_mac(sufs[k])));
    }
}

/// Giving the MAC addresses of a definition new values, with at least as many suffixes
/// as it has addresses, keeps their number: every interface still has exactly one.
pub proof fn law_replaced_macs_keep_their_count(xml: Seq<char>, sufs: Seq<(u8, u8, u8)>)
    requires
        sufs.len() >= mac_count(xml, 0),
    ensures
        mac_count(macs_from(xml, 0, sufs), 0) == mac_count(xml, 0),
{
    lemma_replaced_macs(xml, 0, sufs);
}

/// The addresses of a definition given new values are, in order, the QEMU addresses
/// (`52:54:00:…`) of the suffixes, one for each address it had.
pub proof fn law_replaced_macs_are_qemu_macs(xml: Seq<char>, sufs: Seq<(u8, u8, u8)>)
    requires
        sufs.len() >= mac_count(xml, 0),
    ensures
        mac_values(macs_from(xml, 0, sufs), 0) == Seq::new(mac_count(xml, 0), |k: int| qemu_mac(sufs[k])),
{
    lemma_replaced_macs(xml, 0, sufs);
}

} // verus!
