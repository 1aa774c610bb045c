//! Bookkeeping of the peers found on the local network, and the choice of a
//! directly reachable one.
use vstd::prelude::*;

verus! {

/// What a peer is doing.
#[derive(PartialEq, Eq, Structural, Clone, Copy, Debug)]
pub enum PeerStatus {
    Active,
    Busy,
}

impl PeerStatus {
    /// The status as the dashboard shows it.
    pub fn as_str(&self) -> (r: &'static str)
        ensures
            r@ == status_text(*self),
    {
        match self {
            PeerStatus::Active => "active",
            PeerStatus::Busy => "busy",
        }
    }
}

pub open spec fn status_text(s: PeerStatus) -> Seq<char> {
    match s {
        PeerStatus::Active => "active"@,
        PeerStatus::Busy => "busy"@,
    }
}

/// A peer as the registry knows it: its id (textual form) and the addresses
/// it was discovered at, in discovery order.
#[derive(Debug, Clone, PartialEq, Eq)]
pub struct PeerInfo {
    pub id: String,
    pub address: Vec<String>,
    pub status: PeerStatus,
}

/// The mathematical content of a [`PeerInfo`].
pub struct PeerView {
    pub id: Seq<char>,
    pub addresses: Seq<Seq<char>>,
    pub status: PeerStatus,
}

pub open spec fn texts(v: Seq<String>) -> Seq<Seq<char>> {
    v.map_values(|a: String| a@)
}

impl View for PeerInfo {
    type V = PeerView;

    open spec fn view(&self) -> PeerView {
        PeerView { id: self.id@, addresses: texts(self.address@), status: self.status }
    }
}

/// Copies a list of strings.
fn copy_texts(v: &Vec<String>) -> (r: Vec<String>)
    ensures
        texts(r@) == texts(v@),
{
    let mut r: Vec<String> = Vec::new();
    let n = v.len();
    let mut i: usize = 0;
    while i < n
        invariant
            n == v@.len(),
            i <= n,
            texts(r@) =~= texts(v@.subrange(0, i as int)),
        decreases n - i,
    {
        let ghost prev = r@;
        r.push(v[i].clone());
        assert(r@ =~= prev.push(v@[i as int]));
        assert(v@.subrange(0, i + 1) =~= v@.subrange(0, i as int).push(v@[i as int]));
        assert(texts(r@) =~= texts(prev).push(v@[i as int]@));
        assert(texts(v@.subrange(0, i + 1)) =~= texts(v@.subrange(0, i as int)).push(v@[i as int]@));
        i = i + 1;
    }
    assert(v@.subrange(0, n as int) =~= v@);
    r
}

impl PeerInfo {
    /// An independent copy of this record.
    pub fn snapshot(&self) -> (r: PeerInfo)
        ensures
            r@ == self@,
    {
        PeerInfo { id: self.id.clone(), address: copy_texts(&self.address), status: self.status }
    }
}

/// Ids are distinct, and no record lists an address twice.
pub open spec fn registry_wf(s: Seq<PeerView>) -> bool {
    &&& forall|i: int, j: int|
        0 <= i < s.len() && 0 <= j < s.len() && i != j ==> #[trigger] s[i].id != #[trigger] s[j].id
    &&& forall|i: int| 0 <= i < s.len() ==> (#[trigger] s[i]).addresses.no_duplicates()
}

pub open spec fn has_peer(s: Seq<PeerView>, id: Seq<char>) -> bool {
    exists|i: int| 0 <= i < s.len() && s[i].id == id
}

/// Where the record of `id` stands (meaningful when [`has_peer`] holds).
pub open spec fn peer_index(s: Seq<PeerView>, id: Seq<char>) -> int {
    choose|i: int| 0 <= i < s.len() && s[i].id == id
}

/// `p` with `a` appended to its addresses, unless it lists `a` already.
pub open spec fn with_address(p: PeerView, a: Seq<char>) -> PeerView {
    if p.addresses.contains(a) {
        p
    } else {
        PeerView { addresses: p.addresses.push(a), ..p }
    }
}

/// The registry after `id` was discovered at `a`.
pub open spec fn added(s: Seq<PeerView>, id: Seq<char>, a: Seq<char>) -> Seq<PeerView> {
    if has_peer(s, id) {
        s.update(peer_index(s, id), with_address(s[peer_index(s, id)], a))
    } else {
        s.push(PeerView { id, addresses: seq![a], status: PeerStatus::Active })
    }
}

/// The registry after `id` expired.
pub open spec fn removed(s: Seq<PeerView>, id: Seq<char>) -> Seq<PeerView> {
    if has_peer(s, id) {
        s.remove(peer_index(s, id))
    } else {
        s
    }
}

/// A discovery event, as the registry sees it.
pub enum RegistryEvent {
    Discovered(Seq<char>, Seq<char>),
    Expired(Seq<char>),
}

/// The registry after `events`, in order, starting from `s`.
pub open spec fn replay(s: Seq<PeerView>, events: Seq<RegistryEvent>) -> Seq<PeerView>
    decreases events.len(),
{
    if events.len() == 0 {
        s
    } else {
        let prev = replay(s, events.drop_last());
        match events.last() {
            RegistryEvent::Discovered(id, a) => added(prev, id, a),
            RegistryEvent::Expired(id) => removed(prev, id),
        }
    }
}

/// Discovering a peer keeps the registry well formed.
pub proof fn lemma_added_wf(s: Seq<PeerView>, id: Seq<char>, a: Seq<char>)
    requires
        registry_wf(s),
    ensures
        registry_wf(added(s, id, a)),
        has_peer(added(s, id, a), id),
        added(s, id, a)[peer_index(added(s, id, a), id)].addresses.contains(a),
{
    let r = added(s, id, a);
    if has_peer(s, id) {
        let k = peer_index(s, id);
        let p = s[k];
        assert forall|i: int| 0 <= i < r.len() implies (#[trigger] r[i]).addresses.no_duplicates() by {
            if i == k && !p.addresses.contains(a) {
                assert forall|x: int, y: int|
                    0 <= x < r[i].addresses.len() && 0 <= y < r[i].addresses.len() && x != y
                    implies r[i].addresses[x] != r[i].addresses[y] by {
                    if x == p.addresses.len() {
                        assert(p.addresses.contains(r[i].addresses[y]));
                    } else if y == p.addresses.len() {
                        assert(p.addresses.contains(r[i].addresses[x]));
                    }
                }
            }
        }
        assert(r[k].id == id);
        assert(peer_index(r, id) == k);
        if !p.addresses.contains(a) {
            assert(r[k].addresses[p.addresses.len() as int] == a);
        }
    } else {
        let n = s.len() as int;
        assert(r[n].id == id);
        assert(peer_index(r, id) == n);
        assert(r[n].addresses[0] == a);
    }
}

/// An expiry keeps the registry well formed and forgets the peer.
pub proof fn lemma_removed_wf(s: Seq<PeerView>, id: Seq<char>)
    requires
        registry_wf(s),
    ensures
        registry_wf(removed(s, id)),
        !has_peer(removed(s, id), id),
{
    let r = removed(s, id);
    if has_peer(s, id) {
        let k = peer_index(s, id);
        assert forall|i: int| 0 <= i < r.len() implies #[trigger] r[i].id != id by {
            if i < k {
                assert(r[i] == s[i]);
            } else {
                assert(r[i] == s[i + 1]);
            }
        }
        assert forall|i: int, j: int|
            0 <= i < r.len() && 0 <= j < r.len() && i != j implies #[trigger] r[i].id
            != #[trigger] r[j].id by {
            let si = if i < k { i } else { i + 1 };
            let sj = if j < k { j } else { j + 1 };
            assert(r[i] == s[si]);
            assert(r[j] == s[sj]);
        }
        assert forall|i: int| 0 <= i < r.len() implies (#[trigger] r[i]).addresses.no_duplicates() by {
            if i < k {
                assert(r[i] == s[i]);
            } else {
                assert(r[i] == s[i + 1]);
            }
        }
    }
}

/// Whatever discoveries and expiries happen, in whatever order, no record
/// holds an address twice and ids stay distinct; and right after a peer
/// expires it is no longer known.
pub proof fn lemma_registry_events(events: Seq<RegistryEvent>)
    ensures
        registry_wf(replay(Seq::empty(), events)),
        events.len() > 0 ==> (events.last() matches RegistryEvent::Expired(id) ==> !has_peer(
            replay(Seq::empty(), events),
            id,
        )),
    decreases events.len(),
{
    if events.len() > 0 {
        lemma_registry_events(events.drop_last());
        let prev = replay(Seq::empty(), events.drop_last());
        match events.last() {
            RegistryEvent::Discovered(id, a) => lemma_added_wf(prev, id, a),
            RegistryEvent::Expired(id) => lemma_removed_wf(prev, id),
        }
    }
}


/// Whether `v` lists `a`.
fn contains_text(v: &Vec<String>, a: &String) -> (r: bool)
    ensures
        r == texts(v@).contains(a@),
{
    let n = v.len();
    let mut i: usize = 0;
    while i < n
        invariant
            n == v@.len(),
            i <= n,
            forall|j: int| 0 <= j < i ==> v@[j]@ != a@,
        decreases n - i,
    {
        if v[i] == *a {
            assert(texts(v@)[i as int] == a@);
            return true;
        }
        i = i + 1;
    }
    assert forall|j: int| 0 <= j < texts(v@).len() implies texts(v@)[j] != a@ by {
        assert(texts(v@)[j] == v@[j]@);
    }
    false
}

/// The peers known to this node, by id, in the order they were first seen.
pub struct Scheduler {
    peers: Vec<PeerInfo>,
}

impl View for Scheduler {
    type V = Seq<PeerView>;

    closed spec fn view(&self) -> Seq<PeerView> {
        self.peers@.map_values(|p: PeerInfo| p@)
    }
}

impl Scheduler {
    pub open spec fn wf(&self) -> bool {
        registry_wf(self@)
    }

    /// An empty registry.
    pub fn new() -> (r: Scheduler)
        ensures
            r.wf(),
            r@ == Seq::<PeerView>::empty(),
    {
        let r = Scheduler { peers: Vec::new() };
        assert(r@ =~= Seq::<PeerView>::empty());
        r
    }

    /// The number of known peers.
    pub fn len(&self) -> (r: usize)
        ensures
            r == self@.len(),
    {
        self.peers.len()
    }

    /// Where the record of `id` stands.
    fn find(&self, id: &String) -> (r: Option<usize>)
        requires
            self.wf(),
        ensures
            match r {
                Some(i) => i < self@.len() && self@[i as int].id == id@ && peer_index(self@, id@)
                    == i && has_peer(self@, id@),
                None => !has_peer(self@, id@),
            },
    {
        let n = self.peers.len();
        let mut i: usize = 0;
        while i < n
            invariant
                self.wf(),
                n == self@.len(),
                n == self.peers@.len(),
                i <= n,
                forall|j: int| 0 <= j < i ==> self@[j].id != id@,
            decreases n - i,
        {
            assert(self@[i as int] == self.peers@[i as int]@);
            if self.peers[i].id == *id {
                assert(self@[i as int].id == id@);
                assert(has_peer(self@, id@));
                let ghost j = peer_index(self@, id@);
                assert(self@[j].id == id@);
                assert(j == i);
                return Some(i);
            }
            i = i + 1;
        }
        None
    }

    /// Records that `peer_id` was discovered at `addr`: a new record for an
    /// unknown peer, otherwise `addr` is appended to its addresses unless
    /// already listed.
    pub fn add_peer(&mut self, peer_id: String, addr: String)
        requires
            old(self).wf(),
        ensures
            final(self).wf(),
            final(self)@ == added(old(self)@, peer_id@, addr@),
    {
        let ghost s = self@;
        proof { lemma_added_wf(s, peer_id@, addr@); }
        match self.find(&peer_id) {
            Some(i) => {
                let ghost old_peers = self.peers@;
                let mut p = self.peers.remove(i);
                assert(p@ == s[i as int]);
                if !contains_text(&p.address, &addr) {
                    let ghost prev = p.address@;
                    p.address.push(addr);
                    assert(texts(p.address@) =~= texts(prev).push(addr@));
                }
                assert(p@ == with_address(s[i as int], addr@));
                self.peers.insert(i, p);
                assert(self.peers@ =~= old_peers.update(i as int, p));
                assert(self@ =~= s.update(i as int, with_address(s[i as int], addr@)));
            },
            None => {
                let mut address: Vec<String> = Vec::new();
                address.push(addr);
                assert(texts(address@) =~= seq![addr@]);
                let ghost old_peers = self.peers@;
                self.peers.push(PeerInfo { id: peer_id, address, status: PeerStatus::Active });
                assert(self@ =~= s.push(
                    PeerView { id: peer_id@, addresses: seq![addr@], status: PeerStatus::Active },
                ));
            },
        }
    }

    /// Forgets `peer_id`; nothing happens for an unknown peer.
    pub fn remove_peer(&mut self, peer_id: &String)
        requires
            old(self).wf(),
        ensures
            final(self).wf(),
            final(self)@ == removed(old(self)@, peer_id@),
            !has_peer(final(self)@, peer_id@),
    {
        let ghost s = self@;
        proof { lemma_removed_wf(s, peer_id@); }
        match self.find(peer_id) {
            Some(i) => {
                let ghost old_peers = self.peers@;
                self.peers.remove(i);
                assert(self@ =~= s.remove(i as int));
            },
            None => {},
        }
    }

    /// Some known peer (the earliest discovered), or `None` when there is none.
    pub fn get_available_peer(&self) -> (r: Option<String>)
        ensures
            match r {
                Some(id) => self@.len() > 0 && id@ == self@[0].id,
                None => self@.len() == 0,
            },
    {
        if self.peers.len() == 0 {
            None
        } else {
            assert(self@[0] == self.peers@[0]@);
            Some(self.peers[0].id.clone())
        }
    }

    /// A copy of the record of `peer_id`, or `None` for an unknown peer.
    pub fn peer(&self, peer_id: &String) -> (r: Option<PeerInfo>)
        requires
            self.wf(),
        ensures
            match r {
                Some(p) => has_peer(self@, peer_id@) && p@ == self@[peer_index(self@, peer_id@)],
                None => !has_peer(self@, peer_id@),
            },
    {
        match self.find(peer_id) {
            Some(i) => {
                assert(self@[i as int] == self.peers@[i as int]@);
                Some(self.peers[i].snapshot())
            },
            None => None,
        }
    }

    /// A copy of all records, in registry order; later changes to the
    /// registry do not show in it.
    pub fn list_peers(&self) -> (r: Vec<PeerInfo>)
        ensures
            r@.map_values(|p: PeerInfo| p@) == self@,
    {
        let mut r: Vec<PeerInfo> = Vec::new();
        let n = self.peers.len();
        let mut i: usize = 0;
        while i < n
            invariant
                n == self.peers@.len(),
                n == self@.len(),
                i <= n,
                r@.map_values(|p: PeerInfo| p@) =~= self@.subrange(0, i as int),
            decreases n - i,
        {
            let ghost prev = r@;
            r.push(self.peers[i].snapshot());
            assert(r@.map_values(|p: PeerInfo| p@) =~= prev.map_values(|p: PeerInfo| p@).push(
                self@[i as int],
            ));
            assert(self@.subrange(0, i + 1) =~= self@.subrange(0, i as int).push(self@[i as int]));
            i = i + 1;
        }
        assert(self@.subrange(0, n as int) =~= self@);
        r
    }

    /// The records themselves, in registry order.
    pub closed spec fn records(&self) -> Seq<PeerInfo> {
        self.peers@
    }

    /// The records in registry order, for reading.
    pub fn peers(&self) -> (r: &Vec<PeerInfo>)
        ensures
            r@.map_values(|p: PeerInfo| p@) == self@,
            r@ == self.records(),
    {
        &self.peers
    }
}

} // verus!
