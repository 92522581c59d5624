//! The order in which host resources are listed to the user: interfaces with physical
//! ones first, input devices by kind, huge-page sizes and NUMA nodes ascending. Each
//! order is a stable sort, written as an insertion sort.
use crate::vm::{EvdevDevice, HugepageInfo, VmService};
use vstd::prelude::*;

verus! {

/// A network interface of the host that a VM can be attached to directly.
#[derive(Debug)]
pub struct HostNetworkInterface {
    pub name: String,
    pub mac_address: String,
    pub state: String,
    pub speed: Option<u32>,
    pub mtu: Option<u32>,
    pub is_physical: bool,
    pub driver: Option<String>,
}

/// A NUMA node of the host: its CPUs and memory in MiB.
#[derive(Debug)]
pub struct HostNumaNode {
    pub id: u32,
    pub cpus: Vec<u32>,
    pub memory_mb: u64,
}

/// `a` sorts before `b` as strings: compared character by character (the order of
/// their UTF-8 bytes), a proper prefix first.
pub open spec fn text_less(a: Seq<char>, b: Seq<char>) -> bool
    decreases a.len(),
{
    if a.len() == 0 {
        b.len() > 0
    } else if b.len() == 0 {
        false
    } else if a[0] != b[0] {
        (a[0] as u32) < (b[0] as u32)
    } else {
        text_less(a.drop_first(), b.drop_first())
    }
}

/// Interface `x` is listed before `y`: physical interfaces first, then by name.
pub open spec fn iface_before(x: HostNetworkInterface, y: HostNetworkInterface) -> bool {
    if x.is_physical != y.is_physical {
        x.is_physical
    } else {
        text_less(x.name@, y.name@)
    }
}

/// Input device `x` is listed before `y`: by kind, then by name.
pub open spec fn evdev_before(x: EvdevDevice, y: EvdevDevice) -> bool {
    if x.device_type@ != y.device_type@ {
        text_less(x.device_type@, y.device_type@)
    } else {
        text_less(x.name@, y.name@)
    }
}

/// `x` put into `u` after every element it does not sort before.
pub open spec fn iface_insert(u: Seq<HostNetworkInterface>, x: HostNetworkInterface) -> Seq<HostNetworkInterface>
    decreases u.len(),
{
    if u.len() == 0 {
        seq![x]
    } else if iface_before(x, u[0]) {
        seq![x] + u
    } else {
        seq![u[0]] + iface_insert(u.drop_first(), x)
    }
}

/// The interfaces in listing order; interfaces that compare equal keep their order.
pub open spec fn iface_sorted(s: Seq<HostNetworkInterface>) -> Seq<HostNetworkInterface>
    decreases s.len(),
{
    if s.len() == 0 {
        Seq::empty()
    } else {
        iface_insert(iface_sorted(s.drop_last()), s.last())
    }
}

pub open spec fn evdev_insert(u: Seq<EvdevDevice>, x: EvdevDevice) -> Seq<EvdevDevice>
    decreases u.len(),
{
    if u.len() == 0 {
        seq![x]
    } else if evdev_before(x, u[0]) {
        seq![x] + u
    } else {
        seq![u[0]] + evdev_insert(u.drop_first(), x)
    }
}

/// The input devices in listing order; devices that compare equal keep their order.
pub open spec fn evdev_sorted(s: Seq<EvdevDevice>) -> Seq<EvdevDevice>
    decreases s.len(),
{
    if s.len() == 0 {
        Seq::empty()
    } else {
        evdev_insert(evdev_sorted(s.drop_last()), s.last())
    }
}

pub open spec fn hugepage_insert(u: Seq<HugepageInfo>, x: HugepageInfo) -> Seq<HugepageInfo>
    decreases u.len(),
{
    if u.len() == 0 {
        seq![x]
    } else if x.size_kb < u[0].size_kb {
        seq![x] + u
    } else {
        seq![u[0]] + hugepage_insert(u.drop_first(), x)
    }
}

/// The huge-page sizes by ascending size; equal sizes keep their order.
pub open spec fn hugepage_sorted(s: Seq<HugepageInfo>) -> Seq<HugepageInfo>
    decreases s.len(),
{
    if s.len() == 0 {
        Seq::empty()
    } else {
        hugepage_insert(hugepage_sorted(s.drop_last()), s.last())
    }
}

pub open spec fn node_insert(u: Seq<HostNumaNode>, x: HostNumaNode) -> Seq<HostNumaNode>
    decreases u.len(),
{
    if u.len() == 0 {
        seq![x]
    } else if x.id < u[0].id {
        seq![x] + u
    } else {
        seq![u[0]] + node_insert(u.drop_first(), x)
    }
}

/// The NUMA nodes by ascending id; equal ids keep their order.
pub open spec fn node_sorted(s: Seq<HostNumaNode>) -> Seq<HostNumaNode>
    decreases s.len(),
{
    if s.len() == 0 {
        Seq::empty()
    } else {
        node_insert(node_sorted(s.drop_last()), s.last())
    }
}

/// Whether `a` sorts before `b` as strings.
pub fn text_less_exec(a: &str, b: &str) -> (r: bool)
    ensures
        r == text_less(a@, b@),
{
    let av = crate::text::chars_of(a);
    let bv = crate::text::chars_of(b);
    let mut i: usize = 0;
    proof {
        assert(av@.skip(0) =~= av@);
        assert(bv@.skip(0) =~= bv@);
    }
    while i < av.len() && i < bv.len() && av[i] == bv[i]
        invariant
            i <= av@.len(),
            i <= bv@.len(),
            text_less(a@, b@) == text_less(av@.skip(i as int), bv@.skip(i as int)),
            av@ == a@,
            bv@ == b@,
        decreases av@.len() - i,
    {
        proof {
            assert(av@.skip(i as int).drop_first() =~= av@.skip(i + 1));
            assert(bv@.skip(i as int).drop_first() =~= bv@.skip(i + 1));
        }
        i = i + 1;
    }
    proof {
        if i < av.len() {
            assert(av@.skip(i as int)[0] == av@[i as int]);
        }
        if i < bv.len() {
            assert(bv@.skip(i as int)[0] == bv@[i as int]);
        }
    }
    if i == av.len() {
        i < bv.len()
    } else if i == bv.len() {
        false
    } else {
        (av[i] as u32) < (bv[i] as u32)
    }
}

/// Places the elements of `u` that `x` does not sort before ahead of it.
proof fn lemma_iface_insert_at(u: Seq<HostNetworkInterface>, x: HostNetworkInterface, p: int)
    requires
        0 <= p <= u.len(),
        forall|i: int| 0 <= i < p ==> !iface_before(x, #[trigger] u[i]),
        p < u.len() ==> iface_before(x, u[p]),
    ensures
        iface_insert(u, x) == u.insert(p, x),
    decreases u.len(),
{
    if u.len() == 0 {
        assert(u.insert(p, x) =~= seq![x]);
    } else if p == 0 {
        assert(u.insert(0, x) =~= seq![x] + u);
    } else {
        let t = u.drop_first();
        assert(!iface_before(x, u[0]));
        assert forall|i: int| 0 <= i < p - 1 implies !iface_before(x, #[trigger] t[i]) by {
            assert(t[i] == u[i + 1]);
        }
        lemma_iface_insert_at(t, x, p - 1);
        assert(seq![u[0]] + t.insert(p - 1, x) =~= u.insert(p, x));
    }
}

proof fn lemma_evdev_insert_at(u: Seq<EvdevDevice>, x: EvdevDevice, p: int)
    requires
        0 <= p <= u.len(),
        forall|i: int| 0 <= i < p ==> !evdev_before(x, #[trigger] u[i]),
        p < u.len() ==> evdev_before(x, u[p]),
    ensures
        evdev_insert(u, x) == u.insert(p, x),
    decreases u.len(),
{
    if u.len() == 0 {
        assert(u.insert(p, x) =~= seq![x]);
    } else if p == 0 {
        assert(u.insert(0, x) =~= seq![x] + u);
    } else {
        let t = u.drop_first();
        assert(!evdev_before(x, u[0]));
        assert forall|i: int| 0 <= i < p - 1 implies !evdev_before(x, #[trigger] t[i]) by {
            assert(t[i] == u[i + 1]);
        }
        lemma_evdev_insert_at(t, x, p - 1);
        assert(seq![u[0]] + t.insert(p - 1, x) =~= u.insert(p, x));
    }
}

proof fn lemma_hugepage_insert_at(u: Seq<HugepageInfo>, x: HugepageInfo, p: int)
    requires
        0 <= p <= u.len(),
        forall|i: int| 0 <= i < p ==> !(x.size_kb < (#[trigger] u[i]).size_kb),
        p < u.len() ==> x.size_kb < u[p].size_kb,
    ensures
        hugepage_insert(u, x) == u.insert(p, x),
    decreases u.len(),
{
    if u.len() == 0 {
        assert(u.insert(p, x) =~= seq![x]);
    } else if p == 0 {
        assert(u.insert(0, x) =~= seq![x] + u);
    } else {
        let t = u.drop_first();
        assert(!(x.size_kb < u[0].size_kb));
        assert forall|i: int| 0 <= i < p - 1 implies !(x.size_kb < (#[trigger] t[i]).size_kb) by {
            assert(t[i] == u[i + 1]);
        }
        lemma_hugepage_insert_at(t, x, p - 1);
        assert(seq![u[0]] + t.insert(p - 1, x) =~= u.insert(p, x));
    }
}

proof fn lemma_node_insert_at(u: Seq<HostNumaNode>, x: HostNumaNode, p: int)
    requires
        0 <= p <= u.len(),
        forall|i: int| 0 <= i < p ==> !(x.id < (#[trigger] u[i]).id),
        p < u.len() ==> x.id < u[p].id,
    ensures
        node_insert(u, x) == u.insert(p, x),
    decreases u.len(),
{
    if u.len() == 0 {
        assert(u.insert(p, x) =~= seq![x]);
    } else if p == 0 {
        assert(u.insert(0, x) =~= seq![x] + u);
    } else {
        let t = u.drop_first();
        assert(!(x.id < u[0].id));
        assert forall|i: int| 0 <= i < p - 1 implies !(x.id < (#[trigger] t[i]).id) by {
            assert(t[i] == u[i + 1]);
        }
        lemma_node_insert_at(t, x, p - 1);
        assert(seq![u[0]] + t.insert(p - 1, x) =~= u.insert(p, x));
    }
}

/// No element of `s` sorts, by `lt`, before an element that comes ahead of it.
pub open spec fn ordered_by<A>(s: Seq<A>, lt: spec_fn(A, A) -> bool) -> bool {
    forall|i: int, j: int| 0 <= i < j < s.len() ==> !lt(s[j], s[i])
}

/// `lt` is a strict order: irreflexive and transitive.
pub open spec fn strict_order<A>(lt: spec_fn(A, A) -> bool) -> bool {
    &&& forall|a: A| !#[trigger] lt(a, a)
    &&& forall|a: A, b: A, c: A| #[trigger] lt(a, b) && #[trigger] lt(b, c) ==> lt(a, c)
}

/// Inserting `x` ahead of the first element it sorts before keeps an ordered sequence
/// ordered.
proof fn lemma_insert_keeps_order<A>(u: Seq<A>, x: A, p: int, lt: spec_fn(A, A) -> bool)
    requires
        strict_order(lt),
        ordered_by(u, lt),
        0 <= p <= u.len(),
        forall|i: int| 0 <= i < p ==> !lt(x, #[trigger] u[i]),
        p < u.len() ==> lt(x, u[p]),
    ensures
        ordered_by(u.insert(p, x), lt),
{
    let w = u.insert(p, x);
    assert forall|i: int, j: int| 0 <= i < j < w.len() implies !lt(w[j], w[i]) by {
        if j < p {
            assert(w[i] == u[i] && w[j] == u[j]);
        } else if j == p {
            assert(w[i] == u[i]);
        } else if i == p {
            assert(w[j] == u[j - 1]);
            if lt(u[j - 1], x) {
                if j - 1 == p {
                    assert(lt(u[p], u[p]));
                } else {
                    assert(lt(u[j - 1], u[p]));
                }
            }
        } else if i < p {
            assert(w[i] == u[i] && w[j] == u[j - 1]);
        } else {
            assert(w[i] == u[i - 1] && w[j] == u[j - 1]);
        }
    }
}

pub(crate) proof fn lemma_text_less_irreflexive(a: Seq<char>)
    ensures
        !text_less(a, a),
    decreases a.len(),
{
    if a.len() > 0 {
        lemma_text_less_irreflexive(a.drop_first());
    }
}

pub(crate) proof fn lemma_text_less_transitive(a: Seq<char>, b: Seq<char>, c: Seq<char>)
    requires
        text_less(a, b),
        text_less(b, c),
    ensures
        text_less(a, c),
    decreases a.len(),
{
    if a.len() > 0 && a[0] == b[0] && b[0] == c[0] {
        lemma_text_less_transitive(a.drop_first(), b.drop_first(), c.drop_first());
    }
}

proof fn lemma_iface_before_strict()
    ensures
        strict_order(|a: HostNetworkInterface, b: HostNetworkInterface| iface_before(a, b)),
{
    let lt = |a: HostNetworkInterface, b: HostNetworkInterface| iface_before(a, b);
    assert forall|a: HostNetworkInterface| !#[trigger] lt(a, a) by {
        lemma_text_less_irreflexive(a.name@);
    }
    assert forall|a: HostNetworkInterface, b: HostNetworkInterface, c: HostNetworkInterface|
        #[trigger] lt(a, b) && #[trigger] lt(b, c) implies lt(a, c) by {
        if a.is_physical == b.is_physical && b.is_physical == c.is_physical {
            lemma_text_less_transitive(a.name@, b.name@, c.name@);
        }
    }
}

proof fn lemma_evdev_before_strict()
    ensures
        strict_order(|a: EvdevDevice, b: EvdevDevice| evdev_before(a, b)),
{
    let lt = |a: EvdevDevice, b: EvdevDevice| evdev_before(a, b);
    assert forall|a: EvdevDevice| !#[trigger] lt(a, a) by {
        lemma_text_less_irreflexive(a.name@);
    }
    assert forall|a: EvdevDevice, b: EvdevDevice, c: EvdevDevice|
        #[trigger] lt(a, b) && #[trigger] lt(b, c) implies lt(a, c) by {
        let (ta, tb, tc) = (a.device_type@, b.device_type@, c.device_type@);
        if ta == tb && tb == tc {
            lemma_text_less_transitive(a.name@, b.name@, c.name@);
        } else if ta != tb && tb != tc {
            lemma_text_less_transitive(ta, tb, tc);
            if ta == tc {
                lemma_text_less_irreflexive(ta);
            }
        }
    }
}

/// Of two different strings one sorts before the other.
pub(crate) proof fn lemma_text_less_total(a: Seq<char>, b: Seq<char>)
    requires
        a != b,
    ensures
        text_less(a, b) || text_less(b, a),
    decreases a.len(),
{
    if a.len() > 0 && b.len() > 0 && a[0] == b[0] {
        if a.drop_first() == b.drop_first() {
            assert(a =~= seq![a[0]] + a.drop_first());
            assert(b =~= seq![b[0]] + b.drop_first());
        }
        lemma_text_less_total(a.drop_first(), b.drop_first());
    } else if a.len() > 0 && b.len() > 0 {
        if (a[0] as u32) == (b[0] as u32) {
            vstd::utf8::char_u32_cast(a[0], a[0] as u32);
            vstd::utf8::char_u32_cast(b[0], b[0] as u32);
        }
    } else if a.len() == 0 && b.len() == 0 {
        assert(a =~= b);
    }
}

/// Where `iface_insert` puts `x`: ahead of the first element it sorts before.
proof fn iface_insert_pos(u: Seq<HostNetworkInterface>, x: HostNetworkInterface) -> (p: int)
    ensures
        0 <= p <= u.len(),
        forall|i: int| 0 <= i < p ==> !iface_before(x, #[trigger] u[i]),
        p < u.len() ==> iface_before(x, u[p]),
    decreases u.len(),
{
    if u.len() == 0 || iface_before(x, u[0]) {
        0
    } else {
        let q = iface_insert_pos(u.drop_first(), x);
        assert forall|i: int| 0 <= i < q + 1 implies !iface_before(x, #[trigger] u[i]) by {
            if i > 0 {
                assert(u[i] == u.drop_first()[i - 1]);
            }
        }
        q + 1
    }
}

proof fn evdev_insert_pos(u: Seq<EvdevDevice>, x: EvdevDevice) -> (p: int)
    ensures
        0 <= p <= u.len(),
        forall|i: int| 0 <= i < p ==> !evdev_before(x, #[trigger] u[i]),
        p < u.len() ==> evdev_before(x, u[p]),
    decreases u.len(),
{
    if u.len() == 0 || evdev_before(x, u[0]) {
        0
    } else {
        let q = evdev_insert_pos(u.drop_first(), x);
        assert forall|i: int| 0 <= i < q + 1 implies !evdev_before(x, #[trigger] u[i]) by {
            if i > 0 {
                assert(u[i] == u.drop_first()[i - 1]);
            }
        }
        q + 1
    }
}

proof fn hugepage_insert_pos(u: Seq<HugepageInfo>, x: HugepageInfo) -> (p: int)
    ensures
        0 <= p <= u.len(),
        forall|i: int| 0 <= i < p ==> !(x.size_kb < (#[trigger] u[i]).size_kb),
        p < u.len() ==> x.size_kb < u[p].size_kb,
    decreases u.len(),
{
    if u.len() == 0 || x.size_kb < u[0].size_kb {
        0
    } else {
        let q = hugepage_insert_pos(u.drop_first(), x);
        assert forall|i: int| 0 <= i < q + 1 implies !(x.size_kb < (#[trigger] u[i]).size_kb) by {
            if i > 0 {
                assert(u[i] == u.drop_first()[i - 1]);
            }
        }
        q + 1
    }
}

proof fn node_insert_pos(u: Seq<HostNumaNode>, x: HostNumaNode) -> (p: int)
    ensures
        0 <= p <= u.len(),
        forall|i: int| 0 <= i < p ==> !(x.id < (#[trigger] u[i]).id),
        p < u.len() ==> x.id < u[p].id,
    decreases u.len(),
{
    if u.len() == 0 || x.id < u[0].id {
        0
    } else {
        let q = node_insert_pos(u.drop_first(), x);
        assert forall|i: int| 0 <= i < q + 1 implies !(x.id < (#[trigger] u[i]).id) by {
            if i > 0 {
                assert(u[i] == u.drop_first()[i - 1]);
            }
        }
        q + 1
    }
}

/// Host interfaces are listed physical ones first and each group by name: no interface
/// is listed after one that it sorts before, and the listing holds every interface
/// given, as often as it was given.
pub proof fn law_host_interfaces_listing_order(s: Seq<HostNetworkInterface>)
    ensures
        ordered_by(iface_sorted(s), |a: HostNetworkInterface, b: HostNetworkInterface| iface_before(a, b)),
        iface_sorted(s).to_multiset() == s.to_multiset(),
    decreases s.len(),
{
    if s.len() == 0 {
        assert(s =~= Seq::empty());
    }
    if s.len() > 0 {
        let u = iface_sorted(s.drop_last());
        let x = s.last();
        law_host_interfaces_listing_order(s.drop_last());
        let p = iface_insert_pos(u, x);
        lemma_iface_insert_at(u, x, p);
        lemma_iface_before_strict();
        lemma_insert_keeps_order(u, x, p, |a: HostNetworkInterface, b: HostNetworkInterface| iface_before(a, b));
        vstd::seq_lib::to_multiset_insert(u, p, x);
        vstd::seq_lib::to_multiset_build(s.drop_last(), x);
        assert(s.drop_last().push(x) =~= s);
        assert(iface_sorted(s).to_multiset() == u.insert(p, x).to_multiset());
        assert(iface_sorted(s).to_multiset() == s.to_multiset());
    }
}

/// Input devices are listed by kind, then by name: no device is listed after one that it
/// sorts before, and the listing holds every device given, as often as it was given.
pub proof fn law_evdev_devices_listing_order(s: Seq<EvdevDevice>)
    ensures
        ordered_by(evdev_sorted(s), |a: EvdevDevice, b: EvdevDevice| evdev_before(a, b)),
        evdev_sorted(s).to_multiset() == s.to_multiset(),
    decreases s.len(),
{
    if s.len() == 0 {
        assert(s =~= Seq::empty());
    }
    if s.len() > 0 {
        let u = evdev_sorted(s.drop_last());
        let x = s.last();
        law_evdev_devices_listing_order(s.drop_last());
        let p = evdev_insert_pos(u, x);
        lemma_evdev_insert_at(u, x, p);
        lemma_evdev_before_strict();
        lemma_insert_keeps_order(u, x, p, |a: EvdevDevice, b: EvdevDevice| evdev_before(a, b));
        vstd::seq_lib::to_multiset_insert(u, p, x);
        vstd::seq_lib::to_multiset_build(s.drop_last(), x);
        assert(s.drop_last().push(x) =~= s);
        assert(evdev_sorted(s).to_multiset() == u.insert(p, x).to_multiset());
        assert(evdev_sorted(s).to_multiset() == s.to_multiset());
    }
}

/// Huge-page sizes are listed in ascending order of size, each one given as often as it
/// was given.
pub proof fn law_hugepage_sizes_listing_order(s: Seq<HugepageInfo>)
    ensures
        forall|i: int, j: int| 0 <= i < j < s.len() ==>
            (#[trigger] hugepage_sorted(s)[i]).size_kb <= (#[trigger] hugepage_sorted(s)[j]).size_kb,
        hugepage_sorted(s).to_multiset() == s.to_multiset(),
    decreases s.len(),
{
    let lt = |a: HugepageInfo, b: HugepageInfo| a.size_kb < b.size_kb;
    if s.len() == 0 {
        assert(s =~= Seq::empty());
    }
    if s.len() > 0 {
        let u = hugepage_sorted(s.drop_last());
        let x = s.last();
        law_hugepage_sizes_listing_order(s.drop_last());
        let p = hugepage_insert_pos(u, x);
        lemma_hugepage_insert_at(u, x, p);
        vstd::seq_lib::to_multiset_insert(u, p, x);
        vstd::seq_lib::to_multiset_build(s.drop_last(), x);
        assert(s.drop_last().push(x) =~= s);
        assert(hugepage_sorted(s).to_multiset() == u.insert(p, x).to_multiset());
        assert(hugepage_sorted(s).to_multiset() == s.to_multiset());
        vstd::seq_lib::to_multiset_len(u);
        vstd::seq_lib::to_multiset_len(s.drop_last());
        assert(ordered_by(u, lt));
        lemma_insert_keeps_order(u, x, p, lt);
        let w = hugepage_sorted(s);
        vstd::seq_lib::to_multiset_len(w);
        vstd::seq_lib::to_multiset_len(s);
        assert forall|i: int, j: int| 0 <= i < j < s.len() implies
            (#[trigger] w[i]).size_kb <= (#[trigger] w[j]).size_kb by {
            assert(!lt(w[j], w[i]));
        }
    }
}

/// NUMA nodes are listed in ascending order of id, each one given as often as it was
/// given.
pub proof fn law_numa_nodes_listing_order(s: Seq<HostNumaNode>)
    ensures
        forall|i: int, j: int| 0 <= i < j < s.len() ==>
            (#[trigger] node_sorted(s)[i]).id <= (#[trigger] node_sorted(s)[j]).id,
        node_sorted(s).to_multiset() == s.to_multiset(),
    decreases s.len(),
{
    let lt = |a: HostNumaNode, b: HostNumaNode| a.id < b.id;
    if s.len() == 0 {
        assert(s =~= Seq::empty());
    }
    if s.len() > 0 {
        let u = node_sorted(s.drop_last());
        let x = s.last();
        law_numa_nodes_listing_order(s.drop_last());
        let p = node_insert_pos(u, x);
        lemma_node_insert_at(u, x, p);
        vstd::seq_lib::to_multiset_insert(u, p, x);
        vstd::seq_lib::to_multiset_build(s.drop_last(), x);
        assert(s.drop_last().push(x) =~= s);
        assert(node_sorted(s).to_multiset() == u.insert(p, x).to_multiset());
        assert(node_sorted(s).to_multiset() == s.to_multiset());
        vstd::seq_lib::to_multiset_len(u);
        vstd::seq_lib::to_multiset_len(s.drop_last());
        assert(ordered_by(u, lt));
        lemma_insert_keeps_order(u, x, p, lt);
        let w = node_sorted(s);
        vstd::seq_lib::to_multiset_len(w);
        vstd::seq_lib::to_multiset_len(s);
        assert forall|i: int, j: int| 0 <= i < j < s.len() implies
            (#[trigger] w[i]).id <= (#[trigger] w[j]).id by {
            assert(!lt(w[j], w[i]));
        }
    }
}

fn iface_before_exec(x: &HostNetworkInterface, y: &HostNetworkInterface) -> (r: bool)
    ensures
        r == iface_before(*x, *y),
{
    if x.is_physical != y.is_physical {
        x.is_physical
    } else {
        text_less_exec(x.name.as_str(), y.name.as_str())
    }
}

fn evdev_before_exec(x: &EvdevDevice, y: &EvdevDevice) -> (r: bool)
    ensures
        r == evdev_before(*x, *y),
{
    if !crate::text::str_eq(x.device_type.as_str(), y.device_type.as_str()) {
        text_less_exec(x.device_type.as_str(), y.device_type.as_str())
    } else {
        text_less_exec(x.name.as_str(), y.name.as_str())
    }
}

impl VmService {
    /// Host interfaces in listing order: physical ones first, each group by name.
    pub fn order_host_interfaces(v: Vec<HostNetworkInterface>) -> (r: Vec<HostNetworkInterface>)
        ensures
            r@ == iface_sorted(v@),
    {
        let ghost s = v@;
        let mut rest = v;
        let mut out: Vec<HostNetworkInterface> = Vec::new();
        let mut k: usize = 0;
        let n = rest.len();
        // Take the elements from the back so each can be moved out, then insert them in
        // their original order.
        let mut items: Vec<HostNetworkInterface> = Vec::new();
        while rest.len() > 0
            invariant
                rest@.len() + items@.len() == n,
                n == s.len(),
                forall|i: int| 0 <= i < rest@.len() ==> rest@[i] == s[i],
                forall|i: int| 0 <= i < items@.len() ==> items@[i] == s[n - 1 - i],
            decreases rest@.len(),
        {
            let x = rest.pop().unwrap();
            items.push(x);
        }
        while k < n
            invariant
                k <= n,
                n == s.len(),
                items@.len() == n - k,
                forall|i: int| 0 <= i < items@.len() ==> items@[i] == s[n - 1 - i],
                out@ == iface_sorted(s.take(k as int)),
            decreases n - k,
        {
            let x = items.pop().unwrap();
            let mut p: usize = 0;
            while p < out.len() && !iface_before_exec(&x, &out[p])
                invariant
                    p <= out@.len(),
                    forall|i: int| 0 <= i < p ==> !iface_before(x, #[trigger] out@[i]),
                decreases out@.len() - p,
            {
                p = p + 1;
            }
            proof {
                lemma_iface_insert_at(out@, x, p as int);
                assert(s.take(k + 1).drop_last() =~= s.take(k as int));
                assert(s.take(k + 1).last() == x);
            }
            out.insert(p, x);
            k = k + 1;
        }
        proof {
            assert(s.take(n as int) =~= s);
        }
        out
    }

    /// Host input devices in listing order: by kind, then by name.
    pub fn order_evdev_devices(v: Vec<EvdevDevice>) -> (r: Vec<EvdevDevice>)
        ensures
            r@ == evdev_sorted(v@),
    {
        let ghost s = v@;
        let mut rest = v;
        let mut out: Vec<EvdevDevice> = Vec::new();
        let mut k: usize = 0;
        let n = rest.len();
        let mut items: Vec<EvdevDevice> = Vec::new();
        while rest.len() > 0
            invariant
                rest@.len() + items@.len() == n,
                n == s.len(),
                forall|i: int| 0 <= i < rest@.len() ==> rest@[i] == s[i],
                forall|i: int| 0 <= i < items@.len() ==> items@[i] == s[n - 1 - i],
            decreases rest@.len(),
        {
            let x = rest.pop().unwrap();
            items.push(x);
        }
        while k < n
            invariant
                k <= n,
                n == s.len(),
                items@.len() == n - k,
                forall|i: int| 0 <= i < items@.len() ==> items@[i] == s[n - 1 - i],
                out@ == evdev_sorted(s.take(k as int)),
            decreases n - k,
        {
            let x = items.pop().unwrap();
            let mut p: usize = 0;
            while p < out.len() && !evdev_before_exec(&x, &out[p])
                invariant
                    p <= out@.len(),
                    forall|i: int| 0 <= i < p ==> !evdev_before(x, #[trigger] out@[i]),
                decreases out@.len() - p,
            {
                p = p + 1;
            }
            proof {
                lemma_evdev_insert_at(out@, x, p as int);
                assert(s.take(k + 1).drop_last() =~= s.take(k as int));
                assert(s.take(k + 1).last() == x);
            }
            out.insert(p, x);
            k = k + 1;
        }
        proof {
            assert(s.take(n as int) =~= s);
        }
        out
    }

    /// Huge-page sizes of the host in ascending order of size.
    pub fn order_hugepage_info(v: Vec<HugepageInfo>) -> (r: Vec<HugepageInfo>)
        ensures
            r@ == hugepage_sorted(v@),
    {
        let ghost s = v@;
        let mut rest = v;
        let mut out: Vec<HugepageInfo> = Vec::new();
        let mut k: usize = 0;
        let n = rest.len();
        let mut items: Vec<HugepageInfo> = Vec::new();
        while rest.len() > 0
            invariant
                rest@.len() + items@.len() == n,
                n == s.len(),
                forall|i: int| 0 <= i < rest@.len() ==> rest@[i] == s[i],
                forall|i: int| 0 <= i < items@.len() ==> items@[i] == s[n - 1 - i],
            decreases rest@.len(),
        {
            let x = rest.pop().unwrap();
            items.push(x);
        }
        while k < n
            invariant
                k <= n,
                n == s.len(),
                items@.len() == n - k,
                forall|i: int| 0 <= i < items@.len() ==> items@[i] == s[n - 1 - i],
                out@ == hugepage_sorted(s.take(k as int)),
            decreases n - k,
        {
            let x = items.pop().unwrap();
            let mut p: usize = 0;
            while p < out.len() && !(x.size_kb < out[p].size_kb)
                invariant
                    p <= out@.len(),
                    forall|i: int| 0 <= i < p ==> !(x.size_kb < (#[trigger] out@[i]).size_kb),
                decreases out@.len() - p,
            {
                p = p + 1;
            }
            proof {
                lemma_hugepage_insert_at(out@, x, p as int);
                assert(s.take(k + 1).drop_last() =~= s.take(k as int));
                assert(s.take(k + 1).last() == x);
            }
            out.insert(p, x);
            k = k + 1;
        }
        proof {
            assert(s.take(n as int) =~= s);
        }
        out
    }

    /// NUMA nodes of the host in ascending order of id.
    pub fn order_numa_nodes(v: Vec<HostNumaNode>) -> (r: Vec<HostNumaNode>)
        ensures
            r@ == node_sorted(v@),
    {
        let ghost s = v@;
        let mut rest = v;
        let mut out: Vec<HostNumaNode> = Vec::new();
        let mut k: usize = 0;
        let n = rest.len();
        let mut items: Vec<HostNumaNode> = Vec::new();
        while rest.len() > 0
            invariant
                rest@.len() + items@.len() == n,
                n == s.len(),
                forall|i: int| 0 <= i < rest@.len() ==> rest@[i] == s[i],
                forall|i: int| 0 <= i < items@.len() ==> items@[i] == s[n - 1 - i],
            decreases rest@.len(),
        {
            let x = rest.pop().unwrap();
            items.push(x);
        }
        while k < n
            invariant
                k <= n,
                n == s.len(),
                items@.len() == n - k,
                forall|i: int| 0 <= i < items@.len() ==> items@[i] == s[n - 1 - i],
                out@ == node_sorted(s.take(k as int)),
            decreases n - k,
        {
            let x = items.pop().unwrap();
            let mut p: usize = 0;
            while p < out.len() && !(x.id < out[p].id)
                invariant
                    p <= out@.len(),
                    forall|i: int| 0 <= i < p ==> !(x.id < (#[trigger] out@[i]).id),
                decreases out@.len() - p,
            {
                p = p + 1;
            }
            proof {
                lemma_node_insert_at(out@, x, p as int);
                assert(s.take(k + 1).drop_last() =~= s.take(k as int));
                assert(s.take(k + 1).last() == x);
            }
            out.insert(p, x);
            k = k + 1;
        }
        proof {
            assert(s.take(n as int) =~= s);
        }
        out
    }
}

} // verus!
