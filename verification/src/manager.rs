//! The connection registry: a keyed collection of transports, one per
//! caller-chosen identifier.
//!
//! The registry serializes structural mutation and per-entry operations when
//! it is shared behind one lock by the embedding; the methods here are the
//! critical sections.  Its mathematical content is a finite map from
//! identifier to [`ClientView`]; every operation's effect is defined by a
//! spec function over that map, and the executable methods are proved
//! against them.

use vstd::prelude::*;

use crate::client;
use crate::client::{ClientView, ConfigView, TcpClient, TcpClientConfig};
use crate::errors::TransportError;
use crate::events::{ConnectEvent, ProbeEvent, ReceiveEvent, SendEvent};

verus! {

/// Effect of `create_connection`: a present identifier is refused untouched,
/// a fresh one gains an unconnected transport with the given configuration.
pub open spec fn create_step(
    m: Map<Seq<char>, ClientView>,
    id: Seq<char>,
    config: ConfigView,
) -> (Map<Seq<char>, ClientView>, Result<(), TransportError>) {
    if m.contains_key(id) {
        (m, Err(TransportError::AlreadyExists))
    } else {
        (m.insert(id, ClientView { config, connected: false }), Ok(()))
    }
}

/// Effect of `connect` on the registry: unknown identifiers are refused, a
/// known one moves by [`client::connect_step`].
pub open spec fn connect_step(
    m: Map<Seq<char>, ClientView>,
    id: Seq<char>,
    ev: ConnectEvent,
) -> (Map<Seq<char>, ClientView>, Result<(), TransportError>) {
    if !m.contains_key(id) {
        (m, Err(TransportError::NotFound))
    } else {
        let (c, r) = client::connect_step(m[id], ev);
        (m.insert(id, c), r)
    }
}

/// Whether a send or receive may run on `id` right now: the exact error
/// otherwise.
pub open spec fn transfer_ready(m: Map<Seq<char>, ClientView>, id: Seq<char>) -> Result<
    (),
    TransportError,
> {
    if !m.contains_key(id) {
        Err(TransportError::NotFound)
    } else if !m[id].connected {
        Err(TransportError::NotConnected)
    } else {
        Ok(())
    }
}

/// Result of `send`; the registry map never changes under a send.
pub open spec fn send_step(
    m: Map<Seq<char>, ClientView>,
    id: Seq<char>,
    ev: SendEvent,
) -> Result<(), TransportError> {
    if !m.contains_key(id) {
        Err(TransportError::NotFound)
    } else {
        client::send_result(m[id], ev)
    }
}

/// Result of `receive`; the registry map never changes under a receive.
pub open spec fn receive_step(
    m: Map<Seq<char>, ClientView>,
    id: Seq<char>,
    ev: ReceiveEvent,
) -> Result<Seq<u8>, TransportError> {
    if !m.contains_key(id) {
        Err(TransportError::NotFound)
    } else {
        client::receive_result(m[id], ev)
    }
}

/// Result of the send-then-receive composite.
pub open spec fn send_and_receive_step(
    m: Map<Seq<char>, ClientView>,
    id: Seq<char>,
    sev: SendEvent,
    rev: Option<ReceiveEvent>,
) -> Result<Seq<u8>, TransportError> {
    if !m.contains_key(id) {
        Err(TransportError::NotFound)
    } else {
        client::send_and_receive_result(m[id], sev, rev)
    }
}

/// Effect of `disconnect`: unknown identifiers are refused; a known one ends
/// unconnected and the call succeeds, already-unconnected included.
pub open spec fn disconnect_step(m: Map<Seq<char>, ClientView>, id: Seq<char>) -> (
    Map<Seq<char>, ClientView>,
    Result<(), TransportError>,
) {
    if !m.contains_key(id) {
        (m, Err(TransportError::NotFound))
    } else {
        (m.insert(id, client::disconnect_step(m[id])), Ok(()))
    }
}

/// Result of `is_connected`.
pub open spec fn is_connected_step(m: Map<Seq<char>, ClientView>, id: Seq<char>) -> Result<
    bool,
    TransportError,
> {
    if !m.contains_key(id) {
        Err(TransportError::NotFound)
    } else {
        Ok(m[id].connected)
    }
}

/// Effect of `remove_connection`: the identifier is gone afterwards, whether
/// or not it was present; the call always succeeds.
pub open spec fn remove_step(m: Map<Seq<char>, ClientView>, id: Seq<char>) -> Map<
    Seq<char>,
    ClientView,
> {
    m.remove(id)
}

/// Effect of `check_connection`: unknown identifiers are refused, a known
/// one moves by [`client::probe_step`].
pub open spec fn check_step(
    m: Map<Seq<char>, ClientView>,
    id: Seq<char>,
    ev: Option<ProbeEvent>,
) -> (Map<Seq<char>, ClientView>, Result<bool, TransportError>) {
    if !m.contains_key(id) {
        (m, Err(TransportError::NotFound))
    } else {
        let (c, alive) = client::probe_step(m[id], ev);
        (m.insert(id, c), Ok(alive))
    }
}

/// One registry slot: the identifier and the transport it exclusively owns.
struct ConnEntry {
    id: String,
    client: TcpClient,
}

/// No identifier names two slots.
spec fn unique_ids(s: Seq<ConnEntry>) -> bool {
    forall|i: int, j: int| 0 <= i < j < s.len() ==> s[i].id@ != s[j].id@
}

/// The map a slot sequence denotes.
spec fn entries_map(s: Seq<ConnEntry>) -> Map<Seq<char>, ClientView>
    decreases s.len(),
{
    if s.len() == 0 {
        Map::empty()
    } else {
        entries_map(s.drop_last()).insert(s.last().id@, s.last().client@)
    }
}

proof fn lemma_map_contains(s: Seq<ConnEntry>, k: Seq<char>)
    ensures
        entries_map(s).contains_key(k) <==> exists|i: int|
            0 <= i < s.len() && #[trigger] s[i].id@ == k,
    decreases s.len(),
{
    if s.len() > 0 {
        lemma_map_contains(s.drop_last(), k);
        if s.last().id@ == k {
            assert(s[s.len() - 1].id@ == k);
        } else {
            if exists|i: int| 0 <= i < s.len() && #[trigger] s[i].id@ == k {
                let i = choose|i: int| 0 <= i < s.len() && #[trigger] s[i].id@ == k;
                assert(s.drop_last()[i].id@ == k);
            }
            if entries_map(s).contains_key(k) {
                let i = choose|i: int|
                    0 <= i < s.drop_last().len() && #[trigger] s.drop_last()[i].id@ == k;
                assert(s[i].id@ == k);
            }
        }
    }
}

proof fn lemma_map_index(s: Seq<ConnEntry>, i: int)
    requires
        unique_ids(s),
        0 <= i < s.len(),
    ensures
        entries_map(s).contains_key(s[i].id@),
        entries_map(s)[s[i].id@] == s[i].client@,
    decreases s.len(),
{
    if i < s.len() - 1 {
        assert(unique_ids(s.drop_last()));
        lemma_map_index(s.drop_last(), i);
        assert(s.last().id@ != s[i].id@);
    }
}

proof fn lemma_map_update(s: Seq<ConnEntry>, i: int, e: ConnEntry)
    requires
        unique_ids(s),
        0 <= i < s.len(),
        e.id@ == s[i].id@,
    ensures
        entries_map(s.update(i, e)) =~= entries_map(s).insert(e.id@, e.client@),
        unique_ids(s.update(i, e)),
    decreases s.len(),
{
    let t = s.update(i, e);
    assert(unique_ids(t));
    if i == s.len() - 1 {
        assert(t.drop_last() =~= s.drop_last());
        assert(t.last() == e);
    } else {
        assert(t.drop_last() =~= s.drop_last().update(i, e));
        assert(t.last() == s.last());
        assert(unique_ids(s.drop_last()));
        lemma_map_update(s.drop_last(), i, e);
        assert(s.last().id@ != e.id@);
    }
}

proof fn lemma_map_push(s: Seq<ConnEntry>, e: ConnEntry)
    ensures
        entries_map(s.push(e)) =~= entries_map(s).insert(e.id@, e.client@),
    decreases s.len(),
{
    assert(s.push(e).drop_last() =~= s);
    assert(s.push(e).last() == e);
}

proof fn lemma_map_remove(s: Seq<ConnEntry>, i: int)
    requires
        unique_ids(s),
        0 <= i < s.len(),
    ensures
        entries_map(s.remove(i)) =~= entries_map(s).remove(s[i].id@),
        unique_ids(s.remove(i)),
    decreases s.len(),
{
    let t = s.remove(i);
    assert(unique_ids(t));
    if i == s.len() - 1 {
        assert(t =~= s.drop_last());
        lemma_map_contains(s.drop_last(), s[i].id@);
        assert(forall|j: int| 0 <= j < s.len() - 1 ==> #[trigger] s.drop_last()[j].id@ != s[i].id@);
        assert(!entries_map(s.drop_last()).contains_key(s[i].id@));
        assert(entries_map(t) =~= entries_map(s).remove(s[i].id@));
    } else {
        assert(t.drop_last() =~= s.drop_last().remove(i));
        assert(t.last() == s.last());
        assert(unique_ids(s.drop_last()));
        lemma_map_remove(s.drop_last(), i);
        assert(s.last().id@ != s[i].id@);
        assert(entries_map(t) =~= entries_map(s).remove(s[i].id@));
    }
}

proof fn lemma_map_dom_len(s: Seq<ConnEntry>)
    requires
        unique_ids(s),
    ensures
        entries_map(s).dom().finite(),
        entries_map(s).dom().len() == s.len(),
    decreases s.len(),
{
    if s.len() > 0 {
        assert(unique_ids(s.drop_last()));
        lemma_map_dom_len(s.drop_last());
        lemma_map_contains(s.drop_last(), s.last().id@);
        assert(forall|j: int|
            0 <= j < s.len() - 1 ==> #[trigger] s.drop_last()[j].id@ != s.last().id@);
        assert(!entries_map(s.drop_last()).contains_key(s.last().id@));
        assert(entries_map(s).dom() =~= entries_map(s.drop_last()).dom().insert(s.last().id@));
    }
}

/// The registry.  Intended to be shared behind one lock by the embedding;
/// operations on distinct identifiers carry no ordering relationship, while
/// operations on one identifier are serialized by that exclusivity.
pub struct ConnectionManager {
    entries: Vec<ConnEntry>,
}

impl View for ConnectionManager {
    type V = Map<Seq<char>, ClientView>;

    closed spec fn view(&self) -> Map<Seq<char>, ClientView> {
        entries_map(self.entries@)
    }
}

impl ConnectionManager {
    /// Well-formedness: no identifier names two slots.  Established by
    /// [`Self::new`] and preserved by every method.
    pub closed spec fn wf(&self) -> bool {
        unique_ids(self.entries@)
    }

    /// The empty registry.
    pub fn new() -> (r: ConnectionManager)
        ensures
            r.wf(),
            r@ == Map::<Seq<char>, ClientView>::empty(),
    {
        ConnectionManager { entries: Vec::new() }
    }

    /// The slot index holding `id`, if any.
    fn find_index(&self, id: &String) -> (r: Option<usize>)
        ensures
            match r {
                Some(i) => i < self.entries@.len() && self.entries@[i as int].id@ == id@,
                None => forall|i: int|
                    0 <= i < self.entries@.len() ==> #[trigger] self.entries@[i].id@ != id@,
            },
    {
        let mut i: usize = 0;
        while i < self.entries.len()
            invariant
                i <= self.entries@.len(),
                forall|j: int| 0 <= j < i ==> #[trigger] self.entries@[j].id@ != id@,
            decreases self.entries@.len() - i,
        {
            if self.entries[i].id == *id {
                return Some(i);
            }
            i += 1;
        }
        None
    }

    /// Insert a fresh, unconnected transport under `id`; refuse an
    /// identifier that is already present, leaving the registry unchanged.
    /// Does not connect.
    pub fn create_connection(&mut self, id: String, config: TcpClientConfig) -> (r: Result<
        (),
        TransportError,
    >)
        requires
            old(self).wf(),
        ensures
            final(self).wf(),
            final(self)@ == create_step(old(self)@, id@, config@).0,
            r == create_step(old(self)@, id@, config@).1,
    {
        match self.find_index(&id) {
            Some(i) => {
                proof {
                    lemma_map_index(self.entries@, i as int);
                }
                Err(TransportError::AlreadyExists)
            },
            None => {
                let ghost s0 = self.entries@;
                proof {
                    lemma_map_contains(s0, id@);
                }
                let entry = ConnEntry { id, client: TcpClient::new(config) };
                proof {
                    lemma_map_push(s0, entry);
                    assert(unique_ids(s0.push(entry)));
                }
                self.entries.push(entry);
                Ok(())
            },
        }
    }

    /// The configuration a connect attempt on `id` must use; `NotFound` when
    /// the identifier is unknown.  The registry itself does not change.
    pub fn prepare_connect(&self, id: &String) -> (r: Result<TcpClientConfig, TransportError>)
        requires
            self.wf(),
        ensures
            match r {
                Ok(config) => self@.contains_key(id@) && config@ == self@[id@].config,
                Err(e) => e == TransportError::NotFound && !self@.contains_key(id@),
            },
    {
        match self.find_index(id) {
            None => {
                proof {
                    lemma_map_contains(self.entries@, id@);
                }
                Err(TransportError::NotFound)
            },
            Some(i) => {
                proof {
                    lemma_map_index(self.entries@, i as int);
                }
                Ok(self.entries[i].client.config().duplicate())
            },
        }
    }

    /// Apply the outcome of a connect attempt on `id`.
    pub fn connect(&mut self, id: &String, ev: ConnectEvent) -> (r: Result<(), TransportError>)
        requires
            old(self).wf(),
        ensures
            final(self).wf(),
            final(self)@ == connect_step(old(self)@, id@, ev).0,
            r == connect_step(old(self)@, id@, ev).1,
    {
        match self.find_index(id) {
            None => {
                proof {
                    lemma_map_contains(self.entries@, id@);
                }
                Err(TransportError::NotFound)
            },
            Some(i) => {
                let ghost s0 = self.entries@;
                let entry = &mut self.entries[i];
                let res = entry.client.connect(ev);
                proof {
                    lemma_map_index(s0, i as int);
                    lemma_map_update(s0, i as int, self.entries@[i as int]);
                }
                res
            },
        }
    }

    /// Whether a send or receive may run on `id` right now: `NotFound` for
    /// an unknown identifier, `NotConnected` for one without a live socket.
    pub fn prepare_transfer(&self, id: &String) -> (r: Result<(), TransportError>)
        requires
            self.wf(),
        ensures
            r == transfer_ready(self@, id@),
    {
        match self.find_index(id) {
            None => {
                proof {
                    lemma_map_contains(self.entries@, id@);
                }
                Err(TransportError::NotFound)
            },
            Some(i) => {
                proof {
                    lemma_map_index(self.entries@, i as int);
                }
                if self.entries[i].client.is_connected() {
                    Ok(())
                } else {
                    Err(TransportError::NotConnected)
                }
            },
        }
    }

    /// Apply the outcome of a send on `id`.  The registry map is unchanged:
    /// a failed write leaves the socket where it was.
    pub fn send(&mut self, id: &String, ev: SendEvent) -> (r: Result<(), TransportError>)
        requires
            old(self).wf(),
        ensures
            final(self).wf(),
            final(self)@ == old(self)@,
            r == send_step(old(self)@, id@, ev),
    {
        match self.find_index(id) {
            None => {
                proof {
                    lemma_map_contains(self.entries@, id@);
                }
                Err(TransportError::NotFound)
            },
            Some(i) => {
                let ghost s0 = self.entries@;
                let entry = &mut self.entries[i];
                let res = entry.client.send(ev);
                proof {
                    lemma_map_index(s0, i as int);
                    lemma_map_update(s0, i as int, self.entries@[i as int]);
                    assert(entries_map(self.entries@) =~= entries_map(s0));
                }
                res
            },
        }
    }

    /// Apply the outcome of a receive on `id`, handing back exactly the
    /// bytes that arrived.
    pub fn receive(&mut self, id: &String, ev: ReceiveEvent) -> (r: Result<Vec<u8>, TransportError>)
        requires
            old(self).wf(),
        ensures
            final(self).wf(),
            final(self)@ == old(self)@,
            client::bytes_result_view(r) == receive_step(old(self)@, id@, ev),
    {
        match self.find_index(id) {
            None => {
                proof {
                    lemma_map_contains(self.entries@, id@);
                }
                Err(TransportError::NotFound)
            },
            Some(i) => {
                let ghost s0 = self.entries@;
                let entry = &mut self.entries[i];
                let res = entry.client.receive(ev);
                proof {
                    lemma_map_index(s0, i as int);
                    lemma_map_update(s0, i as int, self.entries@[i as int]);
                    assert(entries_map(self.entries@) =~= entries_map(s0));
                }
                res
            },
        }
    }

    /// The send-then-receive composite on `id`.  A receive outcome is owed
    /// exactly when the write went through.
    pub fn send_and_receive(
        &mut self,
        id: &String,
        sev: SendEvent,
        rev: Option<ReceiveEvent>,
    ) -> (r: Result<Vec<u8>, TransportError>)
        requires
            old(self).wf(),
            sev is Sent ==> rev is Some,
        ensures
            final(self).wf(),
            final(self)@ == old(self)@,
            client::bytes_result_view(r) == send_and_receive_step(old(self)@, id@, sev, rev),
    {
        match self.find_index(id) {
            None => {
                proof {
                    lemma_map_contains(self.entries@, id@);
                }
                Err(TransportError::NotFound)
            },
            Some(i) => {
                let ghost s0 = self.entries@;
                let entry = &mut self.entries[i];
                let res = entry.client.send_and_receive(sev, rev);
                proof {
                    lemma_map_index(s0, i as int);
                    lemma_map_update(s0, i as int, self.entries@[i as int]);
                    assert(entries_map(self.entries@) =~= entries_map(s0));
                }
                res
            },
        }
    }

    /// Disconnect `id`: afterwards it holds no socket, whatever the
    /// embedding's shutdown reported.  `NotFound` for an unknown identifier;
    /// never fails on a known one, already-unconnected included.
    pub fn disconnect(&mut self, id: &String) -> (r: Result<(), TransportError>)
        requires
            old(self).wf(),
        ensures
            final(self).wf(),
            final(self)@ == disconnect_step(old(self)@, id@).0,
            r == disconnect_step(old(self)@, id@).1,
    {
        match self.find_index(id) {
            None => {
                proof {
                    lemma_map_contains(self.entries@, id@);
                }
                Err(TransportError::NotFound)
            },
            Some(i) => {
                let ghost s0 = self.entries@;
                let entry = &mut self.entries[i];
                let _ = entry.client.disconnect();
                proof {
                    lemma_map_index(s0, i as int);
                    lemma_map_update(s0, i as int, self.entries@[i as int]);
                }
                Ok(())
            },
        }
    }

    /// The transport's lifecycle state, without touching the network.
    pub fn is_connected(&self, id: &String) -> (r: Result<bool, TransportError>)
        requires
            self.wf(),
        ensures
            r == is_connected_step(self@, id@),
    {
        match self.find_index(id) {
            None => {
                proof {
                    lemma_map_contains(self.entries@, id@);
                }
                Err(TransportError::NotFound)
            },
            Some(i) => {
                proof {
                    lemma_map_index(self.entries@, i as int);
                }
                Ok(self.entries[i].client.is_connected())
            },
        }
    }

    /// Apply the outcome of the short liveness probe on `id`; the embedding
    /// owes a probe outcome exactly when the transport was connected.
    pub fn check_connection(&mut self, id: &String, ev: Option<ProbeEvent>) -> (r: Result<
        bool,
        TransportError,
    >)
        requires
            old(self).wf(),
            old(self)@.contains_key(id@) && old(self)@[id@].connected ==> ev is Some,
        ensures
            final(self).wf(),
            final(self)@ == check_step(old(self)@, id@, ev).0,
            r == check_step(old(self)@, id@, ev).1,
    {
        match self.find_index(id) {
            None => {
                proof {
                    lemma_map_contains(self.entries@, id@);
                }
                Err(TransportError::NotFound)
            },
            Some(i) => {
                let ghost s0 = self.entries@;
                proof {
                    lemma_map_index(s0, i as int);
                }
                let entry = &mut self.entries[i];
                let alive = entry.client.check_connection(ev);
                proof {
                    lemma_map_update(s0, i as int, self.entries@[i as int]);
                }
                Ok(alive)
            },
        }
    }

    /// Drop `id` from the registry.  Always succeeds: a present entry is
    /// deleted (the embedding tears its socket down best-effort first), an
    /// absent one is a no-op.
    pub fn remove_connection(&mut self, id: &String) -> (r: Result<(), TransportError>)
        requires
            old(self).wf(),
        ensures
            final(self).wf(),
            final(self)@ == remove_step(old(self)@, id@),
            r is Ok,
    {
        match self.find_index(id) {
            None => {
                proof {
                    lemma_map_contains(self.entries@, id@);
                    assert(old(self)@.remove(id@) =~= old(self)@);
                }
                Ok(())
            },
            Some(i) => {
                let ghost s0 = self.entries@;
                proof {
                    lemma_map_remove(s0, i as int);
                }
                self.entries.remove(i);
                Ok(())
            },
        }
    }

    /// A snapshot of the identifiers now present: one entry per registered
    /// connection, in no guaranteed order.
    pub fn list_connections(&self) -> (r: Vec<String>)
        requires
            self.wf(),
        ensures
            self@.dom().finite(),
            r@.len() == self@.dom().len(),
            forall|j: int| 0 <= j < r@.len() ==> self@.contains_key(#[trigger] r@[j]@),
            forall|k: Seq<char>|
                self@.contains_key(k) ==> exists|j: int| 0 <= j < r@.len() && #[trigger] r@[j]@ == k,
            forall|j1: int, j2: int| 0 <= j1 < j2 < r@.len() ==> r@[j1]@ != r@[j2]@,
    {
        let mut out: Vec<String> = Vec::new();
        let mut i: usize = 0;
        while i < self.entries.len()
            invariant
                i <= self.entries@.len(),
                out@.len() == i,
                forall|j: int| 0 <= j < i ==> #[trigger] out@[j]@ == self.entries@[j].id@,
            decreases self.entries@.len() - i,
        {
            out.push(self.entries[i].id.clone());
            i += 1;
        }
        proof {
            lemma_map_dom_len(self.entries@);
            assert forall|j: int| 0 <= j < out@.len() implies self@.contains_key(
                #[trigger] out@[j]@,
            ) by {
                lemma_map_index(self.entries@, j);
            }
            assert forall|k: Seq<char>| self@.contains_key(k) implies exists|j: int|
                0 <= j < out@.len() && #[trigger] out@[j]@ == k by {
                lemma_map_contains(self.entries@, k);
                let j = choose|j: int|
                    0 <= j < self.entries@.len() && #[trigger] self.entries@[j].id@ == k;
                assert(out@[j]@ == k);
            }
        }
        out
    }

    /// Best-effort bulk teardown at shutdown: every transport ends
    /// unconnected and every entry stays registered; never fails the caller.
    pub fn disconnect_all(&mut self)
        requires
            old(self).wf(),
        ensures
            final(self).wf(),
            final(self)@.dom() =~= old(self)@.dom(),
            forall|k: Seq<char>|
                old(self)@.contains_key(k) ==> final(self)@[k] == client::disconnect_step(
                    old(self)@[k],
                ),
    {
        let ghost s0 = self.entries@;
        let mut i: usize = 0;
        while i < self.entries.len()
            invariant
                i <= self.entries@.len(),
                self.entries@.len() == s0.len(),
                unique_ids(s0),
                forall|j: int| 0 <= j < s0.len() ==> #[trigger] self.entries@[j].id@ == s0[j].id@,
                forall|j: int|
                    0 <= j < i ==> #[trigger] self.entries@[j].client@ == client::disconnect_step(
                        s0[j].client@,
                    ),
                forall|j: int|
                    i <= j < s0.len() ==> #[trigger] self.entries@[j].client@ == s0[j].client@,
            decreases self.entries@.len() - i,
        {
            let entry = &mut self.entries[i];
            let _ = entry.client.disconnect();
            i += 1;
        }
        proof {
            let s1 = self.entries@;
            assert(unique_ids(s1));
            assert forall|k: Seq<char>| entries_map(s1).contains_key(k) <==> entries_map(
                s0,
            ).contains_key(k) by {
                lemma_map_contains(s0, k);
                lemma_map_contains(s1, k);
                if entries_map(s1).contains_key(k) {
                    let j = choose|j: int| 0 <= j < s1.len() && #[trigger] s1[j].id@ == k;
                    assert(s0[j].id@ == k);
                }
                if entries_map(s0).contains_key(k) {
                    let j = choose|j: int| 0 <= j < s0.len() && #[trigger] s0[j].id@ == k;
                    assert(s1[j].id@ == k);
                }
            }
            assert(entries_map(s1).dom() =~= entries_map(s0).dom());
            assert forall|k: Seq<char>| entries_map(s0).contains_key(k) implies entries_map(s1)[k]
                == client::disconnect_step(entries_map(s0)[k]) by {
                lemma_map_contains(s0, k);
                let j = choose|j: int| 0 <= j < s0.len() && #[trigger] s0[j].id@ == k;
                lemma_map_index(s0, j);
                lemma_map_index(s1, j);
            }
        }
    }
}

impl Default for ConnectionManager {
    /// Same as [`ConnectionManager::new`].
    fn default() -> (r: ConnectionManager)
        ensures
            r.wf(),
            r@ == Map::<Seq<char>, ClientView>::empty(),
    {
        ConnectionManager::new()
    }
}

} // verus!
