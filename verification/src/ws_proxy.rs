//! The registry of WebSocket proxies that carry a VM's VNC or SPICE display to the
//! desktop: which local port serves which VM, which display port it forwards to, and
//! which ports a new proxy may take.
use crate::error::AppError;
use crate::text::str_eq;
use vstd::prelude::*;

verus! {

/// A running proxy: the VM, the local WebSocket port and the display port it forwards to.
#[derive(Debug)]
pub struct ProxyEntry {
    pub vm_id: String,
    pub ws_port: u16,
    pub vnc_port: u16,
}

/// The proxies that run, at most one per VM.
#[derive(Debug)]
pub struct WsProxyService {
    proxies: Vec<ProxyEntry>,
    base_port: u16,
}

/// The first local port a proxy may take.
pub const PROXY_BASE_PORT: u16 = 6080;

/// How many ports from the first one proxies may take.
pub const PROXY_PORT_COUNT: u16 = 100;

pub open spec fn entry_view(e: ProxyEntry) -> (Seq<char>, u16, u16) {
    (e.vm_id@, e.ws_port, e.vnc_port)
}

/// The proxy of `vm_id`.
pub open spec fn proxy_of(s: Seq<(Seq<char>, u16, u16)>, vm_id: Seq<char>) -> Option<(u16, u16)>
    decreases s.len(),
{
    if s.len() == 0 {
        None
    } else if s[0].0 == vm_id {
        Some((s[0].1, s[0].2))
    } else {
        proxy_of(s.drop_first(), vm_id)
    }
}

/// The ports from `from` below `to` that no proxy holds, in ascending order.
pub open spec fn free_ports(used: Seq<(Seq<char>, u16, u16)>, from: int, to: int) -> Seq<u16>
    decreases to - from,
{
    if from >= to {
        Seq::empty()
    } else {
        let rest = free_ports(used, from + 1, to);
        if exists|i: int| 0 <= i < used.len() && used[i].1 == from {
            rest
        } else {
            seq![from as u16] + rest
        }
    }
}

proof fn lemma_proxy_first(s: Seq<(Seq<char>, u16, u16)>, vm_id: Seq<char>, i: int)
    requires
        0 <= i < s.len(),
        s[i].0 == vm_id,
        forall|k: int| 0 <= k < i ==> s[k].0 != vm_id,
    ensures
        proxy_of(s, vm_id) == Some((s[i].1, s[i].2)),
    decreases s.len(),
{
    if i > 0 {
        assert forall|k: int| 0 <= k < i - 1 implies s.drop_first()[k].0 != vm_id by {
            assert(s.drop_first()[k] == s[k + 1]);
        }
        lemma_proxy_first(s.drop_first(), vm_id, i - 1);
    }
}

proof fn lemma_proxy_none(s: Seq<(Seq<char>, u16, u16)>, vm_id: Seq<char>)
    requires
        forall|k: int| 0 <= k < s.len() ==> s[k].0 != vm_id,
    ensures
        proxy_of(s, vm_id) is None,
    decreases s.len(),
{
    if s.len() > 0 {
        lemma_proxy_none(s.drop_first(), vm_id);
    }
}

proof fn lemma_free_ports_step(used: Seq<(Seq<char>, u16, u16)>, from: int, mid: int, to: int)
    requires
        from <= mid < to,
    ensures
        free_ports(used, from, to) == free_ports(used, from, mid) + (if exists|i: int|
            0 <= i < used.len() && used[i].1 == mid {
            Seq::<u16>::empty()
        } else {
            seq![mid as u16]
        }) + free_ports(used, mid + 1, to),
    decreases mid - from,
{
    if from < mid {
        lemma_free_ports_step(used, from + 1, mid, to);
        assert(free_ports(used, from, mid) == (if exists|i: int| 0 <= i < used.len() && used[i].1 == from {
            Seq::<u16>::empty()
        } else {
            seq![from as u16]
        }) + free_ports(used, from + 1, mid));
        assert(free_ports(used, from, to) == (if exists|i: int| 0 <= i < used.len() && used[i].1 == from {
            Seq::<u16>::empty()
        } else {
            seq![from as u16]
        }) + free_ports(used, from + 1, to));
        let a = if exists|i: int| 0 <= i < used.len() && used[i].1 == from {
            Seq::<u16>::empty()
        } else {
            seq![from as u16]
        };
        let b = if exists|i: int| 0 <= i < used.len() && used[i].1 == mid {
            Seq::<u16>::empty()
        } else {
            seq![mid as u16]
        };
        assert(a + (free_ports(used, from + 1, mid) + b + free_ports(used, mid + 1, to)) =~= a + free_ports(
            used,
            from + 1,
            mid,
        ) + b + free_ports(used, mid + 1, to));
    } else {
        assert(free_ports(used, from, from) =~= Seq::<u16>::empty());
        assert(free_ports(used, from, to) =~= Seq::<u16>::empty() + (if exists|i: int|
            0 <= i < used.len() && used[i].1 == from {
            Seq::<u16>::empty()
        } else {
            seq![from as u16]
        }) + free_ports(used, from + 1, to));
    }
}

impl WsProxyService {
    /// The running proxies.
    pub closed spec fn entries(&self) -> Seq<(Seq<char>, u16, u16)> {
        self.proxies@.map_values(|e: ProxyEntry| entry_view(e))
    }

    pub closed spec fn base(&self) -> u16 {
        self.base_port
    }

    /// At most one proxy per VM, and the port range fits below 65536.
    pub closed spec fn wf(&self) -> bool {
        &&& forall|a: int, b: int| 0 <= a < b < self.proxies@.len() ==> self.proxies@[a].vm_id@ != self.proxies@[b].vm_id@
        &&& self.base_port + PROXY_PORT_COUNT <= u16::MAX
    }

    /// No proxy runs; new ones take ports from 6080 on.
    pub fn new() -> (r: Self)
        ensures
            r.wf(),
            r.entries().len() == 0,
            r.base() == PROXY_BASE_PORT,
    {
        let r = WsProxyService { proxies: Vec::new(), base_port: PROXY_BASE_PORT };
        proof {
            assert(r.entries() =~= Seq::<(Seq<char>, u16, u16)>::empty());
        }
        r
    }

    fn find(&self, vm_id: &str) -> (r: Option<usize>)
        ensures
            match r {
                Some(i) => i < self.proxies@.len() && self.proxies@[i as int].vm_id@ == vm_id@ && forall|k: int|
                    0 <= k < i ==> self.proxies@[k].vm_id@ != vm_id@,
                None => forall|k: int| 0 <= k < self.proxies@.len() ==> self.proxies@[k].vm_id@ != vm_id@,
            },
    {
        let mut i: usize = 0;
        while i < self.proxies.len()
            invariant
                i <= self.proxies@.len(),
                forall|k: int| 0 <= k < i ==> self.proxies@[k].vm_id@ != vm_id@,
            decreases self.proxies@.len() - i,
        {
            if str_eq(self.proxies[i].vm_id.as_str(), vm_id) {
                return Some(i);
            }
            i = i + 1;
        }
        None
    }

    /// The WebSocket port of the proxy of `vm_id`, when one runs.
    pub fn get_proxy_port(&self, vm_id: &str) -> (r: Option<u16>)
        ensures
            r == (match proxy_of(self.entries(), vm_id@) {
                Some(p) => Some(p.0),
                None => None,
            }),
    {
        match self.find(vm_id) {
            Some(i) => {
                proof {
                    lemma_proxy_first(self.entries(), vm_id@, i as int);
                }
                Some(self.proxies[i].ws_port)
            },
            None => {
                proof {
                    lemma_proxy_none(self.entries(), vm_id@);
                }
                None
            },
        }
    }

    /// The port of the proxy of `vm_id` when it already forwards to `vnc_port`, so it can
    /// be reused.
    pub fn reusable_port(&self, vm_id: &str, vnc_port: u16) -> (r: Option<u16>)
        ensures
            r == (match proxy_of(self.entries(), vm_id@) {
                Some(p) => if p.1 == vnc_port {
                    Some(p.0)
                } else {
                    None
                },
                None => None,
            }),
    {
        match self.find(vm_id) {
            Some(i) => {
                proof {
                    lemma_proxy_first(self.entries(), vm_id@, i as int);
                }
                if self.proxies[i].vnc_port == vnc_port {
                    Some(self.proxies[i].ws_port)
                } else {
                    None
                }
            },
            None => {
                proof {
                    lemma_proxy_none(self.entries(), vm_id@);
                }
                None
            },
        }
    }

    /// The ports a new proxy may take, in the order to try them: every port of the range
    /// that no running proxy holds.
    pub fn candidate_ports(&self) -> (r: Vec<u16>)
        requires
            self.wf(),
        ensures
            r@ == free_ports(self.entries(), self.base() as int, self.base() + PROXY_PORT_COUNT),
    {
        let ghost used = self.entries();
        let end: u16 = self.base_port + PROXY_PORT_COUNT;
        let mut out: Vec<u16> = Vec::new();
        let mut port: u16 = self.base_port;
        proof {
            assert(free_ports(used, self.base_port as int, self.base_port as int) =~= Seq::<u16>::empty());
        }
        while port < end
            invariant
                self.base_port <= port <= end,
                end == self.base_port + PROXY_PORT_COUNT,
                used == self.entries(),
                out@ == free_ports(used, self.base_port as int, port as int),
            decreases end - port,
        {
            let mut taken = false;
            let mut i: usize = 0;
            while i < self.proxies.len()
                invariant
                    i <= self.proxies@.len(),
                    used == self.entries(),
                    taken == (exists|k: int| 0 <= k < i && used[k].1 == port),
                decreases self.proxies@.len() - i,
            {
                proof {
                    assert(used[i as int] == entry_view(self.proxies@[i as int]));
                }
                if self.proxies[i].ws_port == port {
                    taken = true;
                }
                i = i + 1;
            }
            proof {
                assert(used.len() == self.proxies@.len());
                lemma_free_ports_step(used, self.base_port as int, port as int, port as int + 1);
                assert(free_ports(used, port as int + 1, port as int + 1) =~= Seq::<u16>::empty());
            }
            if !taken {
                out.push(port);
            }
            proof {
                let b = if exists|k: int| 0 <= k < used.len() && used[k].1 == port {
                    Seq::<u16>::empty()
                } else {
                    seq![port]
                };
                assert(free_ports(used, self.base_port as int, port as int + 1) =~= free_ports(
                    used,
                    self.base_port as int,
                    port as int,
                ) + b);
            }
            port = port + 1;
        }
        out
    }

    /// Records the proxy of `vm_id` on `ws_port`, forwarding to `vnc_port`, in place of an
    /// earlier one.
    pub fn register(&mut self, vm_id: &str, ws_port: u16, vnc_port: u16)
        requires
            old(self).wf(),
        ensures
            final(self).wf(),
            final(self).base() == old(self).base(),
            proxy_of(final(self).entries(), vm_id@) == Some((ws_port, vnc_port)),
            forall|other: Seq<char>| other != vm_id@ ==> proxy_of(final(self).entries(), other) == proxy_of(
                old(self).entries(),
                other,
            ),
    {
        let _ = self.stop_proxy(vm_id);
        let ghost before = self.entries();
        self.proxies.push(ProxyEntry { vm_id: String::from_str(vm_id), ws_port, vnc_port });
        proof {
            let after = self.entries();
            assert(after =~= before.push((vm_id@, ws_port, vnc_port)));
            assert forall|k: int| 0 <= k < before.len() implies after[k].0 != vm_id@ by {
                assert(after[k] == before[k]);
                assert(before[k] == entry_view(self.proxies@[k]));
            }
            lemma_proxy_first(after, vm_id@, before.len() as int);
            assert forall|other: Seq<char>| other != vm_id@ implies proxy_of(after, other) == proxy_of(before, other) by {
                lemma_proxy_push(before, (vm_id@, ws_port, vnc_port), other);
            }
            assert forall|a: int, b: int| 0 <= a < b < self.proxies@.len() implies self.proxies@[a].vm_id@
                != self.proxies@[b].vm_id@ by {
                assert(after[a] == entry_view(self.proxies@[a]));
                assert(after[b] == entry_view(self.proxies@[b]));
            }
        }
    }

    /// Forgets the proxy of `vm_id`; whether one ran is returned so that its task can be
    /// told to stop.
    pub fn stop_proxy(&mut self, vm_id: &str) -> (r: Result<bool, AppError>)
        requires
            old(self).wf(),
        ensures
            final(self).wf(),
            final(self).base() == old(self).base(),
            r == Ok::<bool, AppError>(proxy_of(old(self).entries(), vm_id@) is Some),
            proxy_of(final(self).entries(), vm_id@) is None,
            forall|other: Seq<char>| other != vm_id@ ==> proxy_of(final(self).entries(), other) == proxy_of(
                old(self).entries(),
                other,
            ),
            forall|k: int| 0 <= k < final(self).entries().len() ==> final(self).entries()[k].0 != vm_id@,
    {
        let ghost before = self.entries();
        match self.find(vm_id) {
            Some(i) => {
                proof {
                    lemma_proxy_first(before, vm_id@, i as int);
                }
                let _ = self.proxies.remove(i);
                proof {
                    let after = self.entries();
                    assert(after =~= before.remove(i as int));
                    assert forall|k: int| 0 <= k < after.len() implies after[k].0 != vm_id@ by {
                        if k < i {
                            assert(after[k] == before[k]);
                            assert(before[k] == entry_view(old(self).proxies@[k]));
                        } else {
                            assert(after[k] == before[k + 1]);
                            assert(before[k + 1] == entry_view(old(self).proxies@[k + 1]));
                            assert(old(self).proxies@[i as int].vm_id@ != old(self).proxies@[k + 1].vm_id@);
                        }
                    }
                    lemma_proxy_none(after, vm_id@);
                    assert forall|other: Seq<char>| other != vm_id@ implies proxy_of(after, other) == proxy_of(
                        before,
                        other,
                    ) by {
                        lemma_proxy_remove(before, i as int, other);
                    }
                }
                Ok(true)
            },
            None => {
                proof {
                    lemma_proxy_none(before, vm_id@);
                    assert forall|k: int| 0 <= k < before.len() implies before[k].0 != vm_id@ by {
                        assert(before[k] == entry_view(self.proxies@[k]));
                    }
                }
                Ok(false)
            },
        }
    }

    /// Forgets every proxy; the VMs whose proxies ran are returned.
    pub fn stop_all(&mut self) -> (r: Vec<String>)
        requires
            old(self).wf(),
        ensures
            final(self).wf(),
            final(self).base() == old(self).base(),
            final(self).entries().len() == 0,
            r@.map_values(|s: String| s@) == old(self).entries().map_values(|e: (Seq<char>, u16, u16)| e.0),
    {
        let ghost before = self.entries();
        let mut ids: Vec<String> = Vec::new();
        let mut i: usize = 0;
        while i < self.proxies.len()
            invariant
                i <= self.proxies@.len(),
                before == self.entries(),
                ids@.map_values(|s: String| s@) == before.take(i as int).map_values(|e: (Seq<char>, u16, u16)| e.0),
            decreases self.proxies@.len() - i,
        {
            let ghost prev = ids@;
            ids.push(self.proxies[i].vm_id.clone());
            proof {
                assert(before[i as int] == entry_view(self.proxies@[i as int]));
                assert(ids@.map_values(|s: String| s@) =~= prev.map_values(|s: String| s@).push(before[i as int].0));
                assert(before.take(i + 1).map_values(|e: (Seq<char>, u16, u16)| e.0) =~= before.take(i as int).map_values(
                    |e: (Seq<char>, u16, u16)| e.0,
                ).push(before[i as int].0));
            }
            i = i + 1;
        }
        proof {
            assert(before.take(before.len() as int) =~= before);
        }
        self.proxies = Vec::new();
        proof {
            assert(self.entries() =~= Seq::<(Seq<char>, u16, u16)>::empty());
        }
        ids
    }
}

proof fn lemma_proxy_push(s: Seq<(Seq<char>, u16, u16)>, x: (Seq<char>, u16, u16), id: Seq<char>)
    requires
        id != x.0,
    ensures
        proxy_of(s.push(x), id) == proxy_of(s, id),
    decreases s.len(),
{
    if s.len() == 0 {
        assert(s.push(x).drop_first() =~= s);
    } else {
        assert(s.push(x)[0] == s[0]);
        assert(s.push(x).drop_first() =~= s.drop_first().push(x));
        lemma_proxy_push(s.drop_first(), x, id);
    }
}

proof fn lemma_proxy_remove(s: Seq<(Seq<char>, u16, u16)>, i: int, id: Seq<char>)
    requires
        0 <= i < s.len(),
        id != s[i].0,
    ensures
        proxy_of(s.remove(i), id) == proxy_of(s, id),
    decreases s.len(),
{
    if i == 0 {
        assert(s.remove(0) =~= s.drop_first());
    } else {
        assert(s.remove(i)[0] == s[0]);
        assert(s.remove(i).drop_first() =~= s.drop_first().remove(i - 1));
        lemma_proxy_remove(s.drop_first(), i - 1, id);
    }
}

/// A proxy that was registered is found again with its ports.
pub proof fn law_registered_proxy_is_found(entries: Seq<(Seq<char>, u16, u16)>, vm_id: Seq<char>, ws_port: u16, vnc_port: u16)
    requires
        forall|k: int| 0 <= k < entries.len() ==> entries[k].0 != vm_id,
    ensures
        proxy_of(entries.push((vm_id, ws_port, vnc_port)), vm_id) == Some((ws_port, vnc_port)),
{
    let s = entries.push((vm_id, ws_port, vnc_port));
    assert forall|k: int| 0 <= k < entries.len() implies s[k].0 != vm_id by {
        assert(s[k] == entries[k]);
    }
    lemma_proxy_first(s, vm_id, entries.len() as int);
}

/// A free port is within the range and held by no running proxy.
pub proof fn law_free_ports_are_unused(used: Seq<(Seq<char>, u16, u16)>, from: int, to: int, k: int)
    requires
        0 <= from,
        to <= u16::MAX + 1,
        0 <= k < free_ports(used, from, to).len(),
    ensures
        from <= free_ports(used, from, to)[k] < to,
        forall|i: int| 0 <= i < used.len() ==> used[i].1 != free_ports(used, from, to)[k],
    decreases to - from,
{
    if from < to {
        let rest = free_ports(used, from + 1, to);
        if exists|i: int| 0 <= i < used.len() && used[i].1 == from {
            law_free_ports_are_unused(used, from + 1, to, k);
        } else if k == 0 {
            assert(free_ports(used, from, to)[0] == from as u16);
        } else {
            assert(free_ports(used, from, to)[k] == rest[k - 1]);
            law_free_ports_are_unused(used, from + 1, to, k - 1);
        }
    }
}

} // verus!
