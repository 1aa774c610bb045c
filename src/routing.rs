//! The routing decision: run a request locally, hand it to a directly
//! reachable peer's worker, or broadcast it to the swarm.
use vstd::prelude::*;

use crate::registry::{PeerView, Scheduler};

verus! {

/// `e` ends the first `/`-separated segment of `t`.
pub open spec fn segment_end(t: Seq<char>, e: int) -> bool {
    &&& 0 <= e <= t.len()
    &&& forall|k: int| 0 <= k < e ==> t[k] != '/'
    &&& (e == t.len() || t[e] == '/')
}

pub open spec fn ip4_prefix() -> Seq<char> {
    seq!['/', 'i', 'p', '4', '/']
}

/// The host of an address written `/ip4/<host>/...`: the text between the
/// prefix and the next `/`; `None` for any other address.
pub open spec fn ip4_host(a: Seq<char>) -> Option<Seq<char>> {
    if a.len() >= 5 && a.subrange(0, 5) == ip4_prefix() {
        let t = a.subrange(5, a.len() as int);
        Some(t.subrange(0, choose|e: int| segment_end(t, e)))
    } else {
        None
    }
}

/// A host in 127.0.0.0/8.
pub open spec fn is_loopback(h: Seq<char>) -> bool {
    h.len() >= 4 && h.subrange(0, 4) == seq!['1', '2', '7', '.']
}

/// The host a worker can be reached at through address `a`: a non-empty,
/// non-loopback IPv4 host.
pub open spec fn direct_host(a: Seq<char>) -> Option<Seq<char>> {
    match ip4_host(a) {
        Some(h) => if h.len() > 0 && !is_loopback(h) {
            Some(h)
        } else {
            None
        },
        None => None,
    }
}

/// The first address of `addrs`, in order, with a direct host; its host.
pub open spec fn first_direct_host(addrs: Seq<Seq<char>>) -> Option<Seq<char>>
    decreases addrs.len(),
{
    if addrs.len() == 0 {
        None
    } else {
        match direct_host(addrs[0]) {
            Some(h) => Some(h),
            None => first_direct_host(addrs.drop_first()),
        }
    }
}

/// The first peer, in registry order, with an address that has a direct
/// host: its id and that host.
pub open spec fn first_reachable(s: Seq<PeerView>) -> Option<(Seq<char>, Seq<char>)>
    decreases s.len(),
{
    if s.len() == 0 {
        None
    } else {
        match first_direct_host(s[0].addresses) {
            Some(h) => Some((s[0].id, h)),
            None => first_reachable(s.drop_first()),
        }
    }
}

/// The worker endpoint on a host: the well-known worker port.
pub open spec fn worker_endpoint(h: Seq<char>) -> Seq<char> {
    h + ":50052"@
}

proof fn lemma_segment_end_unique(t: Seq<char>, e: int)
    requires
        segment_end(t, e),
    ensures
        (choose|f: int| segment_end(t, f)) == e,
{
    let f = choose|f: int| segment_end(t, f);
    assert(segment_end(t, f));
    if f < e {
        assert(t[f] != '/');
    } else if e < f {
        assert(t[e] != '/');
    }
}

/// The host `addr` offers for direct execution, if any.
pub fn direct_host_of(addr: &String) -> (r: Option<String>)
    ensures
        match r {
            Some(h) => direct_host(addr@) == Some(h@),
            None => direct_host(addr@) is None,
        },
{
    let s = addr.as_str();
    let n = s.unicode_len();
    if n < 5 || s.get_char(0) != '/' || s.get_char(1) != 'i' || s.get_char(2) != 'p' || s.get_char(3)
        != '4' || s.get_char(4) != '/' {
        proof {
            if s@.len() >= 5 {
                assert(s@.subrange(0, 5)[0] == s@[0]);
                assert(s@.subrange(0, 5)[1] == s@[1]);
                assert(s@.subrange(0, 5)[2] == s@[2]);
                assert(s@.subrange(0, 5)[3] == s@[3]);
                assert(s@.subrange(0, 5)[4] == s@[4]);
            }
        }
        return None;
    }
    assert(s@.subrange(0, 5) =~= ip4_prefix());
    let ghost t = s@.subrange(5, n as int);
    let mut j: usize = 5;
    while j < n && s.get_char(j) != '/'
        invariant
            n == s@.len(),
            5 <= j <= n,
            t == s@.subrange(5, n as int),
            forall|k: int| 5 <= k < j ==> s@[k] != '/',
        decreases n - j,
    {
        j = j + 1;
    }
    proof {
        assert(segment_end(t, j - 5));
        lemma_segment_end_unique(t, j - 5);
    }
    let host = s.substring_char(5, j);
    assert(host@ =~= t.subrange(0, j - 5));
    if j == 5 {
        return None;
    }
    if j - 5 >= 4 && host.get_char(0) == '1' && host.get_char(1) == '2' && host.get_char(2) == '7'
        && host.get_char(3) == '.' {
        assert(host@.subrange(0, 4) =~= seq!['1', '2', '7', '.']);
        return None;
    }
    proof {
        if host@.len() >= 4 {
            assert(host@.subrange(0, 4)[0] == host@[0]);
            assert(host@.subrange(0, 4)[1] == host@[1]);
            assert(host@.subrange(0, 4)[2] == host@[2]);
            assert(host@.subrange(0, 4)[3] == host@[3]);
        }
    }
    Some(host.to_owned())
}

/// The host of the first address in `addrs` that offers one.
fn first_direct_host_of(addrs: &Vec<String>) -> (r: Option<String>)
    ensures
        match r {
            Some(h) => first_direct_host(crate::registry::texts(addrs@)) == Some(h@),
            None => first_direct_host(crate::registry::texts(addrs@)) is None,
        },
{
    let ghost all = crate::registry::texts(addrs@);
    let n = addrs.len();
    let mut i: usize = 0;
    assert(all.skip(0) =~= all);
    while i < n
        invariant
            n == addrs@.len(),
            i <= n,
            all == crate::registry::texts(addrs@),
            first_direct_host(all) == first_direct_host(all.skip(i as int)),
        decreases n - i,
    {
        assert(all.skip(i as int)[0] == addrs@[i as int]@);
        assert(all.skip(i as int).drop_first() =~= all.skip(i + 1));
        match direct_host_of(&addrs[i]) {
            Some(h) => {
                return Some(h);
            },
            None => {},
        }
        i = i + 1;
    }
    assert(all.skip(n as int).len() == 0);
    None
}

impl Scheduler {
    /// The first peer, in registry order, with an address that has a direct
    /// host: its id and that host.
    pub fn first_reachable_peer(&self) -> (r: Option<(String, String)>)
        ensures
            match r {
                Some((id, h)) => first_reachable(self@) == Some((id@, h@)),
                None => first_reachable(self@) is None,
            },
    {
        let peers = self.peers();
        let ghost all = self@;
        let n = peers.len();
        let mut i: usize = 0;
        assert(all.skip(0) =~= all);
        while i < n
            invariant
                n == peers@.len(),
                i <= n,
                all == peers@.map_values(|p: crate::registry::PeerInfo| p@),
                all == self@,
                first_reachable(all) == first_reachable(all.skip(i as int)),
            decreases n - i,
        {
            assert(all.skip(i as int)[0] == peers@[i as int]@);
            assert(all.skip(i as int)[0].addresses == crate::registry::texts(peers@[i as int].address@));
            assert(all.skip(i as int).drop_first() =~= all.skip(i + 1));
            match first_direct_host_of(&peers[i].address) {
                Some(h) => {
                    let id = peers[i].id.clone();
                    assert(first_reachable(all.skip(i as int)) == Some((id@, h@)));
                    return Some((id, h));
                },
                None => {},
            }
            i = i + 1;
        }
        assert(all.skip(n as int).len() == 0);
        None
    }
}

/// Address `(i2, j2)` comes before address `(i, j)` in scan order: peers in
/// registry order, addresses of a peer in discovery order.
pub open spec fn scanned_before(i2: int, j2: int, i: int, j: int) -> bool {
    i2 < i || (i2 == i && j2 < j)
}

impl Scheduler {
    /// Scans the addresses in registry order, each peer's in discovery
    /// order, and returns the first peer for which `pick` yields a host,
    /// with that host. Every address scanned before it yielded nothing; with
    /// `None`, no address yielded anything.
    pub fn first_peer_where<F: Fn(&String) -> Option<String>>(&self, pick: F) -> (r: Option<(String, String)>)
        requires
            forall|a: &String| pick.requires((a,)),
        ensures
            match r {
                Some((id, h)) => exists|i: int, j: int|
                    0 <= i < self.records().len() && 0 <= j < self.records()[i].address@.len()
                        && id@ == self.records()[i].id@
                        && pick.ensures((&self.records()[i].address@[j],), Some(h))
                        && forall|i2: int, j2: int|
                        0 <= i2 && 0 <= j2 < self.records()[i2].address@.len() && scanned_before(i2, j2, i, j)
                            ==> pick.ensures((&#[trigger] self.records()[i2].address@[j2],), None::<String>),
                None => forall|i2: int, j2: int|
                    0 <= i2 < self.records().len() && 0 <= j2 < self.records()[i2].address@.len()
                        ==> pick.ensures((&#[trigger] self.records()[i2].address@[j2],), None::<String>),
            },
    {
        let peers = self.peers();
        let n = peers.len();
        let mut i: usize = 0;
        while i < n
            invariant
                n == peers@.len(),
                peers@ == self.records(),
                i <= n,
                forall|a: &String| pick.requires((a,)),
                forall|i2: int, j2: int|
                    0 <= i2 < i && 0 <= j2 < self.records()[i2].address@.len()
                        ==> pick.ensures((&#[trigger] self.records()[i2].address@[j2],), None::<String>),
            decreases n - i,
        {
            let addrs = &peers[i].address;
            let m = addrs.len();
            let mut j: usize = 0;
            while j < m
                invariant
                    n == peers@.len(),
                    peers@ == self.records(),
                    i < n,
                    addrs@ == self.records()[i as int].address@,
                    m == addrs@.len(),
                    j <= m,
                    forall|a: &String| pick.requires((a,)),
                    forall|i2: int, j2: int|
                        0 <= i2 < i && 0 <= j2 < self.records()[i2].address@.len()
                            ==> pick.ensures((&#[trigger] self.records()[i2].address@[j2],), None::<String>),
                    forall|j2: int|
                        0 <= j2 < j ==> pick.ensures((&#[trigger] self.records()[i as int].address@[j2],), None::<String>),
                decreases m - j,
            {
                match pick(&addrs[j]) {
                    Some(h) => {
                        let id = peers[i].id.clone();
                        assert forall|i2: int, j2: int|
                            0 <= i2 && 0 <= j2 < self.records()[i2].address@.len() && scanned_before(i2, j2, i as int, j as int)
                            implies pick.ensures((&#[trigger] self.records()[i2].address@[j2],), None::<String>) by {
                        }
                        return Some((id, h));
                    },
                    None => {},
                }
                j = j + 1;
            }
            i = i + 1;
        }
        None
    }
}

/// Where a request runs.
#[derive(Debug, Clone, PartialEq, Eq)]
pub enum Route {
    /// On this node's own engine.
    Local,
    /// On the worker of a discovered peer, at this endpoint (`host:port`).
    Direct { worker: String },
    /// Broadcast to the swarm, waiting for a correlated response.
    Broadcast,
}

/// The worker endpoint on `host`.
pub fn worker_address(host: &String) -> (r: String)
    ensures
        r@ == worker_endpoint(host@),
{
    let mut r = host.clone();
    r.append(":50052");
    r
}

/// Chooses where a request runs: the worker of the first directly reachable
/// peer if there is one; otherwise the swarm when broadcast is enabled, else
/// this node.
pub fn route(registry: &Scheduler, broadcast_enabled: bool) -> (r: Route)
    ensures
        match first_reachable(registry@) {
            Some((_, h)) => r matches Route::Direct { worker } && worker@ == worker_endpoint(h),
            None => if broadcast_enabled {
                r is Broadcast
            } else {
                r is Local
            },
        },
{
    match registry.first_reachable_peer() {
        Some((_, host)) => Route::Direct { worker: worker_address(&host) },
        None => if broadcast_enabled {
            Route::Broadcast
        } else {
            Route::Local
        },
    }
}

/// With no known peer there is nobody to hand work to: the request runs
/// here unless broadcast is enabled.
pub proof fn lemma_empty_registry_routes_here(s: Seq<PeerView>)
    requires
        s.len() == 0,
    ensures
        first_reachable(s) is None,
{
}

} // verus!
