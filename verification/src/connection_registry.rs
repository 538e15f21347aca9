//! The live connections: at most one for each device.

use std::collections::HashMap;
use vstd::prelude::*;

use crate::text::str_eq;

verus! {

/// A live connection. Its token tells it from every other connection that was
/// registered; its transport, if it has one, can carry streams of other
/// features.
pub struct ActiveConnection<T> {
    pub token: u64,
    pub transport: Option<T>,
    pub negotiated_features: HashMap<i32, u32>,
}

/// True when exactly this version of a feature was agreed on.
pub open spec fn supports(features: Map<i32, u32>, feature: i32, version: u32) -> bool {
    features.contains_key(feature) && features[feature] == version
}

impl<T> ActiveConnection<T> {
    /// Tells whether exactly this version of a feature was agreed on.
    pub fn supports_feature(&self, feature: i32, version: u32) -> (r: bool)
        ensures
            r == supports(self.negotiated_features@, feature, version),
    {
        broadcast use vstd::std_specs::hash::group_hash_axioms;

        match self.negotiated_features.get(&feature) {
            Some(found) => *found == version,
            None => false,
        }
    }
}

/// A registered connection as a mathematical value.
pub struct ConnectionView<T> {
    pub device_id: Seq<char>,
    pub token: u64,
    pub transport: Option<T>,
    pub features: Map<i32, u32>,
}

/// The registry as a mathematical value: the connections in the order in which
/// their devices first came, and the token of the next one.
pub struct RegistryView<T> {
    pub connections: Seq<ConnectionView<T>>,
    pub next_token: u64,
}

struct Registered<T> {
    device_id: String,
    connection: ActiveConnection<T>,
}

impl<T> Registered<T> {
    spec fn view(&self) -> ConnectionView<T> {
        ConnectionView {
            device_id: self.device_id@,
            token: self.connection.token,
            transport: self.connection.transport,
            features: self.connection.negotiated_features@,
        }
    }
}

/// What a registration gave.
#[derive(Debug, Clone, Copy, PartialEq, Eq, Structural)]
pub struct Registration {
    /// The token of the new connection.
    pub token: u64,
    /// The token of the connection that it replaced, which is to be told to
    /// end.
    pub replaced: Option<u64>,
}

/// Tracks the live connections, so that the user can end one and other features
/// can use its transport.
pub struct ConnectionRegistry<T> {
    entries: Vec<Registered<T>>,
    next_token: u64,
}

/// True when a device is connected.
pub open spec fn connected<T>(connections: Seq<ConnectionView<T>>, device_id: Seq<char>) -> bool {
    exists|i: int| 0 <= i < connections.len() && (#[trigger] connections[i]).device_id == device_id
}

/// Where the connection of a device stands.
pub open spec fn place<T>(connections: Seq<ConnectionView<T>>, device_id: Seq<char>) -> int {
    choose|i: int| 0 <= i < connections.len() && (#[trigger] connections[i]).device_id == device_id
}

/// What holds of every registry: no device has two connections, and every token
/// is below the next one and stands for one connection.
pub open spec fn valid<T>(s: RegistryView<T>) -> bool {
    &&& forall|i: int, j: int|
        0 <= i < s.connections.len() && 0 <= j < s.connections.len() && i != j ==> (
        #[trigger] s.connections[i]).device_id != (#[trigger] s.connections[j]).device_id
            && s.connections[i].token != s.connections[j].token
    &&& forall|i: int|
        0 <= i < s.connections.len() ==> (#[trigger] s.connections[i]).token < s.next_token
}

/// The registry after a device connected.
pub open spec fn registered<T>(
    s: RegistryView<T>,
    device_id: Seq<char>,
    transport: Option<T>,
    features: Map<i32, u32>,
) -> RegistryView<T> {
    let c = ConnectionView { device_id, token: s.next_token, transport, features };
    RegistryView {
        connections: if connected(s.connections, device_id) {
            s.connections.update(place(s.connections, device_id), c)
        } else {
            s.connections.push(c)
        },
        next_token: (s.next_token + 1) as u64,
    }
}

/// The registry after a connection ended: it is taken out if it is still the
/// connection of its device.
pub open spec fn unregistered<T>(s: RegistryView<T>, device_id: Seq<char>, token: u64)
    -> RegistryView<T> {
    let i = place(s.connections, device_id);
    if connected(s.connections, device_id) && s.connections[i].token == token {
        RegistryView { connections: s.connections.remove(i), ..s }
    } else {
        s
    }
}

/// The devices that are connected.
pub open spec fn devices<T>(connections: Seq<ConnectionView<T>>) -> Seq<Seq<char>> {
    connections.map_values(|c: ConnectionView<T>| c.device_id)
}

/// True when a connection has a transport and exactly this version of a feature
/// was agreed on.
pub open spec fn carries<T>(c: ConnectionView<T>, feature: i32, version: u32) -> bool {
    c.transport is Some && supports(c.features, feature, version)
}

/// The connections on which exactly this version of a feature was agreed on and
/// that have a transport.
pub open spec fn carrying<T>(connections: Seq<ConnectionView<T>>, feature: i32, version: u32)
    -> Seq<ConnectionView<T>>
    decreases connections.len(),
{
    if connections.len() == 0 {
        Seq::empty()
    } else if carries(connections.last(), feature, version) {
        carrying(connections.drop_last(), feature, version).push(connections.last())
    } else {
        carrying(connections.drop_last(), feature, version)
    }
}

proof fn lemma_place<T>(s: RegistryView<T>, i: int)
    requires
        valid(s),
        0 <= i < s.connections.len(),
    ensures
        connected(s.connections, s.connections[i].device_id),
        place(s.connections, s.connections[i].device_id) == i,
{
    let id = s.connections[i].device_id;
    let j = place(s.connections, id);
    assert(s.connections[i].device_id == id);
    assert(0 <= j < s.connections.len() && s.connections[j].device_id == id);
}

/// A replaced connection cannot end the one that replaced it: whatever token was
/// given out before, a look after the replacement finds the new connection.
pub proof fn lemma_replacement_stays<T>(
    s: RegistryView<T>,
    device_id: Seq<char>,
    transport: Option<T>,
    features: Map<i32, u32>,
    earlier: u64,
)
    requires
        valid(s),
        s.next_token < u64::MAX,
        earlier < s.next_token,
    ensures
        unregistered(registered(s, device_id, transport, features), device_id, earlier)
            == registered(s, device_id, transport, features),
        connected(registered(s, device_id, transport, features).connections, device_id),
{
    let after = registered(s, device_id, transport, features);
    lemma_registered(s, device_id, transport, features);
}

/// A device has one connection, the last that it registered, under a token that
/// no other ever had.
pub proof fn lemma_registered<T>(
    s: RegistryView<T>,
    device_id: Seq<char>,
    transport: Option<T>,
    features: Map<i32, u32>,
)
    requires
        valid(s),
        s.next_token < u64::MAX,
    ensures
        valid(registered(s, device_id, transport, features)),
        ({
            let after = registered(s, device_id, transport, features);
            let i = place(after.connections, device_id);
            &&& connected(after.connections, device_id)
            &&& 0 <= i < after.connections.len()
            &&& after.connections[i] == (ConnectionView {
                device_id,
                token: s.next_token,
                transport,
                features,
            })
        }),
{
    let after = registered(s, device_id, transport, features);
    let c = ConnectionView { device_id, token: s.next_token, transport, features };
    let i = if connected(s.connections, device_id) {
        place(s.connections, device_id)
    } else {
        s.connections.len() as int
    };
    assert(after.connections[i] == c);
    assert forall|j: int, k: int|
        0 <= j < after.connections.len() && 0 <= k < after.connections.len() && j != k implies (
    #[trigger] after.connections[j]).device_id != (#[trigger] after.connections[k]).device_id
        && after.connections[j].token != after.connections[k].token by {
        if j != i {
            assert(after.connections[j] == s.connections[j]);
        }
        if k != i {
            assert(after.connections[k] == s.connections[k]);
        }
        if connected(s.connections, device_id) {
            assert(s.connections[i].device_id == device_id);
        }
    }
    assert forall|j: int| 0 <= j < after.connections.len() implies (
    #[trigger] after.connections[j]).token < after.next_token by {
        if j != i {
            assert(after.connections[j] == s.connections[j]);
        }
    }
    lemma_place(after, i);
}

impl<T> Default for ConnectionRegistry<T> {
    fn default() -> (r: ConnectionRegistry<T>)
        ensures
            r.wf(),
            r@ == (RegistryView::<T> { connections: Seq::empty(), next_token: 0 }),
    {
        ConnectionRegistry::new()
    }
}

impl<T> ConnectionRegistry<T> {
    spec fn views(&self) -> Seq<ConnectionView<T>> {
        self.entries@.map_values(|e: Registered<T>| e@)
    }

    pub closed spec fn view(&self) -> RegistryView<T> {
        RegistryView { connections: self.views(), next_token: self.next_token }
    }

    /// What holds of every registry.
    pub open spec fn wf(&self) -> bool {
        valid(self@)
    }

    /// A registry without connections.
    pub fn new() -> (r: ConnectionRegistry<T>)
        ensures
            r.wf(),
            r@ == (RegistryView::<T> { connections: Seq::empty(), next_token: 0 }),
    {
        let r = ConnectionRegistry { entries: Vec::new(), next_token: 0 };
        assert(r.views() =~= Seq::<ConnectionView<T>>::empty());
        r
    }

    fn position(&self, device_id: &str) -> (r: Option<usize>)
        requires
            self.wf(),
        ensures
            match r {
                Some(i) => {
                    &&& i < self@.connections.len()
                    &&& i < self.entries@.len()
                    &&& self@.connections[i as int] == self.entries@[i as int]@
                    &&& connected(self@.connections, device_id@)
                    &&& place(self@.connections, device_id@) == i
                    &&& self@.connections[i as int].device_id == device_id@
                },
                None => !connected(self@.connections, device_id@),
            },
    {
        let mut i: usize = 0;
        while i < self.entries.len()
            invariant
                i <= self.entries@.len(),
                self.wf(),
                forall|k: int|
                    0 <= k < i ==> (#[trigger] self@.connections[k]).device_id != device_id@,
            decreases self.entries@.len() - i,
        {
            assert(self@.connections[i as int] == self.entries@[i as int]@);
            if str_eq(self.entries[i].device_id.as_str(), device_id) {
                proof {
                    lemma_place(self@, i as int);
                }
                return Some(i);
            }
            i += 1;
        }
        assert(self@.connections.len() == self.entries@.len());
        None
    }

    fn register_inner(
        &mut self,
        device_id: &str,
        transport: Option<T>,
        negotiated_features: HashMap<i32, u32>,
    ) -> (r: Registration)
        requires
            old(self).wf(),
            old(self)@.next_token < u64::MAX,
        ensures
            final(self).wf(),
            final(self)@ == registered(
                old(self)@,
                device_id@,
                transport,
                negotiated_features@,
            ),
            r.token == old(self)@.next_token,
            r.replaced == if connected(old(self)@.connections, device_id@) {
                Some(old(self)@.connections[place(old(self)@.connections, device_id@)].token)
            } else {
                None
            },
    {
        let ghost s = self@;
        proof {
            lemma_registered(s, device_id@, transport, negotiated_features@);
        }
        let token: u64 = self.next_token;
        let connection = ActiveConnection { token, transport, negotiated_features };
        let at = self.position(device_id);
        self.next_token = token + 1;
        match at {
            Some(i) => {
                let replaced: u64 = self.entries[i].connection.token;
                let entry = Registered { device_id: device_id.to_owned(), connection };
                let ghost shown = entry@;
                self.entries.set(i, entry);
                assert(self.views() =~= s.connections.update(i as int, shown));
                Registration { token, replaced: Some(replaced) }
            },
            None => {
                let entry = Registered { device_id: device_id.to_owned(), connection };
                let ghost shown = entry@;
                self.entries.push(entry);
                assert(self.views() =~= s.connections.push(shown));
                Registration { token, replaced: None }
            },
        }
    }

    /// Registers the one live connection of a device. One that it replaces is to
    /// be told to end.
    pub fn register(&mut self, device_id: &str) -> (r: Registration)
        requires
            old(self).wf(),
            old(self)@.next_token < u64::MAX,
        ensures
            final(self).wf(),
            final(self)@ == registered(
                old(self)@,
                device_id@,
                None,
                Map::<i32, u32>::empty(),
            ),
            r.token == old(self)@.next_token,
            r.replaced == if connected(old(self)@.connections, device_id@) {
                Some(old(self)@.connections[place(old(self)@.connections, device_id@)].token)
            } else {
                None
            },
    {
        self.register_inner(device_id, None, HashMap::new())
    }

    /// Registers a live connection together with its transport.
    pub fn register_transport(&mut self, device_id: &str, transport: T) -> (r: Registration)
        requires
            old(self).wf(),
            old(self)@.next_token < u64::MAX,
        ensures
            final(self).wf(),
            final(self)@ == registered(
                old(self)@,
                device_id@,
                Some(transport),
                Map::<i32, u32>::empty(),
            ),
            r.token == old(self)@.next_token,
            r.replaced == if connected(old(self)@.connections, device_id@) {
                Some(old(self)@.connections[place(old(self)@.connections, device_id@)].token)
            } else {
                None
            },
    {
        self.register_inner(device_id, Some(transport), HashMap::new())
    }

    /// Registers a live connection together with its transport and with the
    /// version of each feature that was agreed on.
    pub fn register_transport_with_features(
        &mut self,
        device_id: &str,
        transport: T,
        negotiated_features: HashMap<i32, u32>,
    ) -> (r: Registration)
        requires
            old(self).wf(),
            old(self)@.next_token < u64::MAX,
        ensures
            final(self).wf(),
            final(self)@ == registered(
                old(self)@,
                device_id@,
                Some(transport),
                negotiated_features@,
            ),
            r.token == old(self)@.next_token,
            r.replaced == if connected(old(self)@.connections, device_id@) {
                Some(old(self)@.connections[place(old(self)@.connections, device_id@)].token)
            } else {
                None
            },
    {
        self.register_inner(device_id, Some(transport), negotiated_features)
    }

    /// Takes out a connection that ended, if its device has no newer one.
    pub fn unregister(&mut self, device_id: &str, token: u64)
        requires
            old(self).wf(),
        ensures
            final(self).wf(),
            final(self)@ == unregistered(old(self)@, device_id@, token),
    {
        let ghost s = self@;
        if let Some(i) = self.position(device_id) {
            if self.entries[i].connection.token == token {
                self.entries.remove(i);
                proof {
                    let after = self.views();
                    assert(after =~= s.connections.remove(i as int));
                    assert forall|j: int| 0 <= j < after.len() implies after[j]
                        == s.connections[if j < i {
                        j
                    } else {
                        j + 1
                    }] by {}
                }
            }
        }
    }

    /// The token of the connection of a device, which is to be told to end, if
    /// there is one.
    pub fn disconnect(&self, device_id: &str) -> (r: Option<u64>)
        requires
            self.wf(),
        ensures
            r == if connected(self@.connections, device_id@) {
                Some(self@.connections[place(self@.connections, device_id@)].token)
            } else {
                None
            },
    {
        match self.position(device_id) {
            Some(i) => Some(self.entries[i].connection.token),
            None => None,
        }
    }

    /// The transport of a connected device.
    pub fn transport(&self, device_id: &str) -> (r: Option<&T>)
        requires
            self.wf(),
        ensures
            ({
                let c = self@.connections[place(self@.connections, device_id@)];
                if connected(self@.connections, device_id@) && c.transport is Some {
                    r == Some(&c.transport->0)
                } else {
                    r is None
                }
            }),
    {
        match self.position(device_id) {
            Some(i) => match &self.entries[i].connection.transport {
                Some(transport) => Some(transport),
                None => None,
            },
            None => None,
        }
    }

    /// The transport of a connected device, if exactly this version of a feature
    /// was agreed on.
    pub fn transport_for_feature(&self, device_id: &str, feature: i32, version: u32) -> (r: Option<
        &T,
    >)
        requires
            self.wf(),
        ensures
            ({
                let c = self@.connections[place(self@.connections, device_id@)];
                if connected(self@.connections, device_id@) && carries(c, feature, version) {
                    r == Some(&c.transport->0)
                } else {
                    r is None
                }
            }),
    {
        match self.position(device_id) {
            Some(i) => {
                if !self.entries[i].connection.supports_feature(feature, version) {
                    return None;
                }
                match &self.entries[i].connection.transport {
                    Some(transport) => Some(transport),
                    None => None,
                }
            },
            None => None,
        }
    }

    /// The devices that are connected.
    pub fn list_connected(&self) -> (r: Vec<String>)
        ensures
            crate::text::texts(r@) == devices(self@.connections),
    {
        let mut out: Vec<String> = Vec::new();
        let mut i: usize = 0;
        while i < self.entries.len()
            invariant
                i <= self.entries@.len(),
                crate::text::texts(out@) == devices(self@.connections.take(i as int)),
            decreases self.entries@.len() - i,
        {
            let ghost before = out@;
            let id = self.entries[i].device_id.clone();
            assert(self@.connections[i as int] == self.entries@[i as int]@);
            out.push(id);
            proof {
                let all = self@.connections;
                assert(crate::text::texts(out@) =~= crate::text::texts(before).push(id@));
                assert(devices(all.take(i as int + 1)) =~= devices(all.take(i as int)).push(id@));
            }
            i += 1;
        }
        assert(self@.connections.take(i as int) =~= self@.connections);
        out
    }

    /// The devices whose connection has a transport and exactly this version of
    /// a feature.
    pub fn list_connected_with_feature(&self, feature: i32, version: u32) -> (r: Vec<String>)
        ensures
            crate::text::texts(r@) == devices(carrying(self@.connections, feature, version)),
    {
        let mut out: Vec<String> = Vec::new();
        let mut i: usize = 0;
        assert(crate::text::texts(out@) =~= devices(carrying(self@.connections.take(0), feature, version)));
        while i < self.entries.len()
            invariant
                i <= self.entries@.len(),
                crate::text::texts(out@) == devices(
                    carrying(self@.connections.take(i as int), feature, version),
                ),
            decreases self.entries@.len() - i,
        {
            let ghost before = out@;
            proof {
                let all = self@.connections;
                assert(all[i as int] == self.entries@[i as int]@);
                assert(all.take(i as int + 1).drop_last() =~= all.take(i as int));
                assert(all.take(i as int + 1).last() == all[i as int]);
            }
            let entry = &self.entries[i];
            if entry.connection.transport.is_some() && entry.connection.supports_feature(
                feature,
                version,
            ) {
                let id = entry.device_id.clone();
                out.push(id);
                proof {
                    let kept = carrying(self@.connections.take(i as int), feature, version);
                    assert(crate::text::texts(out@) =~= crate::text::texts(before).push(id@));
                    assert(devices(kept.push(self@.connections[i as int])) =~= devices(kept).push(
                        id@,
                    ));
                }
            }
            i += 1;
        }
        assert(self@.connections.take(i as int) =~= self@.connections);
        out
    }
}

/// The connections that carry a feature are those with a transport on which exactly
/// this version of it was agreed on.
pub proof fn lemma_which_connections_carry<T>(
    connections: Seq<ConnectionView<T>>,
    feature: i32,
    version: u32,
    c: ConnectionView<T>,
)
    ensures
        carrying(connections, feature, version).contains(c) <==> connections.contains(c)
            && c.transport is Some && c.features.contains_key(feature) && c.features[feature]
            == version,
        carrying(connections, feature, version).len() <= connections.len(),
    decreases connections.len(),
{
    if connections.len() > 0 {
        let before = connections.drop_last();
        let last = connections.last();
        lemma_which_connections_carry(before, feature, version, c);
        assert(connections =~= before.push(last));
        crate::keyed::lemma_push_contains(before, last, c);
        crate::keyed::lemma_push_contains(carrying(before, feature, version), last, c);
    }
}

/// The devices that are told to be connected are those that are.
pub proof fn lemma_devices_are_those_connected<T>(
    connections: Seq<ConnectionView<T>>,
    device_id: Seq<char>,
)
    ensures
        devices(connections).len() == connections.len(),
        devices(connections).contains(device_id) <==> exists|i: int|
            0 <= i < connections.len() && (#[trigger] connections[i]).device_id == device_id,
{
    let list = devices(connections);
    if list.contains(device_id) {
        let i = choose|i: int| 0 <= i < list.len() && list[i] == device_id;
        assert(connections[i].device_id == device_id);
    }
    if connected(connections, device_id) {
        let i = place(connections, device_id);
        assert(list[i] == device_id);
    }
}

/// A connection that ends is gone, and every other one stays.
pub proof fn lemma_ended_connections_are_gone<T>(
    s: RegistryView<T>,
    i: int,
    other: ConnectionView<T>,
)
    requires
        valid(s),
        0 <= i < s.connections.len(),
    ensures
        ({
            let c = s.connections[i];
            let after = unregistered(s, c.device_id, c.token);
            &&& !connected(after.connections, c.device_id)
            &&& after.next_token == s.next_token
            &&& after.connections.len() == s.connections.len() - 1
            &&& other != c && s.connections.contains(other) ==> after.connections.contains(other)
        }),
        forall|token: u64|
            token != s.connections[i].token ==> #[trigger] unregistered(
                s,
                s.connections[i].device_id,
                token,
            ) == s,
{
    let c = s.connections[i];
    lemma_place(s, i);
    let after = unregistered(s, c.device_id, c.token);
    if connected(after.connections, c.device_id) {
        let j = place(after.connections, c.device_id);
        let k = if j < i {
            j
        } else {
            j + 1
        };
        assert(s.connections[k].device_id == c.device_id);
    }
    if other != c && s.connections.contains(other) {
        let j = choose|j: int| 0 <= j < s.connections.len() && s.connections[j] == other;
        assert(after.connections[if j < i {
            j
        } else {
            j - 1
        }] == other);
    }
}

} // verus!
