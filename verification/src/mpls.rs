//! MPLS provider networks: label stack entries, label switched paths with
//! their label stacks, and provider circuits, kept by id.
use vstd::prelude::*;
use crate::ids;

verus! {

/// MPLS service classes offered by a provider network.
#[derive(PartialEq, Eq, Structural, Clone, Copy, Debug)]
pub enum MplsServiceClass {
    RealTime,
    Business,
    BestEffort,
}

impl MplsServiceClass {
    pub open spec fn spec_priority(self) -> u8 {
        match self {
            MplsServiceClass::RealTime => 1,
            MplsServiceClass::Business => 2,
            MplsServiceClass::BestEffort => 3,
        }
    }

    /// Forwarding priority of the class (1 is the most urgent).
    pub fn priority(&self) -> (p: u8)
        ensures
            p == self.spec_priority(),
    {
        match self {
            MplsServiceClass::RealTime => 1,
            MplsServiceClass::Business => 2,
            MplsServiceClass::BestEffort => 3,
        }
    }
}

/// An MPLS label stack entry: a 20-bit label, a 3-bit traffic class and a TTL.
#[derive(PartialEq, Eq, Structural, Clone, Copy, Debug)]
pub struct MplsLabel {
    pub label: u32,
    pub exp: u8,
    pub ttl: u8,
}

impl MplsLabel {
    /// A label entry; the label keeps its low 20 bits and the traffic class
    /// its low 3 bits.
    pub fn new(label: u32, exp: u8, ttl: u8) -> (l: MplsLabel)
        ensures
            l.label == label % 0x100000,
            l.exp == exp % 8,
            l.ttl == ttl,
    {
        let masked_label = label & 0xFFFFF;
        let masked_exp = exp & 0x7;
        assert(label & 0xFFFFF == label % 0x100000) by (bit_vector);
        assert(exp & 0x7 == exp % 8) by (bit_vector);
        MplsLabel { label: masked_label, exp: masked_exp, ttl }
    }
}

/// Masking is idempotent: building a label entry from the fields of another
/// one keeps them unchanged.
pub proof fn lemma_label_masking_idempotent(label: u32, exp: u8)
    ensures
        (label % 0x100000) % 0x100000 == label % 0x100000,
        (exp % 8) % 8 == exp % 8,
{
}

/// A path through the provider network, with its label stack.  The
/// bandwidth is of the caller's type `B`; the paths are looked up, turned
/// on and off and labelled without reading it.
#[derive(Debug)]
pub struct LabelSwitchedPath<B> {
    pub id: u128,
    pub name: String,
    pub ingress_router: String,
    pub egress_router: String,
    pub labels: Vec<MplsLabel>,
    pub bandwidth_mbps: B,
    pub service_class: MplsServiceClass,
    pub active: bool,
}

fn copy_labels(v: &Vec<MplsLabel>) -> (r: Vec<MplsLabel>)
    ensures
        r@ == v@,
{
    let mut out: Vec<MplsLabel> = Vec::new();
    let mut i: usize = 0;
    while i < v.len()
        invariant
            0 <= i <= v@.len(),
            out@ == v@.take(i as int),
        decreases v.len() - i,
    {
        out.push(v[i]);
        proof {
            assert(v@.take(i + 1) =~= v@.take(i as int).push(v@[i as int]));
        }
        i = i + 1;
    }
    proof {
        assert(v@.take(v@.len() as int) =~= v@);
    }
    out
}

impl<B> LabelSwitchedPath<B> {
    /// An inactive path with no labels and a fresh id.
    pub fn new(name: String, ingress: String, egress: String, bandwidth_mbps: B, service_class: MplsServiceClass) -> (r:
        LabelSwitchedPath<B>)
        ensures
            r.name == name,
            r.ingress_router == ingress,
            r.egress_router == egress,
            r.labels@ == Seq::<MplsLabel>::empty(),
            r.bandwidth_mbps == bandwidth_mbps,
            r.service_class == service_class,
            !r.active,
    {
        LabelSwitchedPath {
            id: ids::new_v4(),
            name,
            ingress_router: ingress,
            egress_router: egress,
            labels: Vec::new(),
            bandwidth_mbps,
            service_class,
            active: false,
        }
    }
}

impl<B: Copy> LabelSwitchedPath<B> {
    /// A copy of the path.
    pub fn copy(&self) -> (r: LabelSwitchedPath<B>)
        ensures
            r.id == self.id,
            r.name == self.name,
            r.ingress_router == self.ingress_router,
            r.egress_router == self.egress_router,
            r.labels@ == self.labels@,
            r.bandwidth_mbps == self.bandwidth_mbps,
            r.service_class == self.service_class,
            r.active == self.active,
    {
        LabelSwitchedPath {
            id: self.id,
            name: self.name.clone(),
            ingress_router: self.ingress_router.clone(),
            egress_router: self.egress_router.clone(),
            labels: copy_labels(&self.labels),
            bandwidth_mbps: self.bandwidth_mbps,
            service_class: self.service_class,
            active: self.active,
        }
    }
}

impl<B> LabelSwitchedPath<B> {
    /// Everything but the label stack agrees.
    pub open spec fn same_but_labels(self, other: LabelSwitchedPath<B>) -> bool {
        &&& self.id == other.id
        &&& self.name == other.name
        &&& self.ingress_router == other.ingress_router
        &&& self.egress_router == other.egress_router
        &&& self.bandwidth_mbps == other.bandwidth_mbps
        &&& self.service_class == other.service_class
        &&& self.active == other.active
    }

    /// Pushes a label on top of the stack.
    pub fn push_label(&mut self, label: MplsLabel)
        ensures
            final(self).labels@ == old(self).labels@.push(label),
            final(self).same_but_labels(*old(self)),
    {
        self.labels.push(label);
    }

    /// Pops the top label, if there is one.
    pub fn pop_label(&mut self) -> (r: Option<MplsLabel>)
        ensures
            final(self).same_but_labels(*old(self)),
            old(self).labels@.len() == 0 ==> r is None && final(self).labels@ == old(self).labels@,
            old(self).labels@.len() > 0 ==> r == Some(old(self).labels@.last()) && final(self).labels@
                == old(self).labels@.drop_last(),
    {
        self.labels.pop()
    }
}

/// A circuit to a provider.  The bandwidth is of the caller's type `B`.
#[derive(Debug)]
pub struct ProviderConnection<B> {
    pub id: u128,
    pub provider_name: String,
    pub circuit_id: String,
    pub bandwidth_mbps: B,
    pub ipv4_address: String,
    pub ipv6_address: Option<String>,
    pub vlan_id: Option<u16>,
    pub connected: bool,
}

impl<B> ProviderConnection<B> {
    /// A disconnected circuit without IPv6 or VLAN, with a fresh id.
    pub fn new(provider: String, circuit_id: String, bandwidth: B, ipv4: String) -> (r: ProviderConnection<B>)
        ensures
            r.provider_name == provider,
            r.circuit_id == circuit_id,
            r.bandwidth_mbps == bandwidth,
            r.ipv4_address == ipv4,
            r.ipv6_address is None,
            r.vlan_id is None,
            !r.connected,
    {
        ProviderConnection {
            id: ids::new_v4(),
            provider_name: provider,
            circuit_id,
            bandwidth_mbps: bandwidth,
            ipv4_address: ipv4,
            ipv6_address: None,
            vlan_id: None,
            connected: false,
        }
    }
}

impl<B: Copy> ProviderConnection<B> {
    /// A copy of the circuit.
    pub fn copy(&self) -> (r: ProviderConnection<B>)
        ensures
            r == *self,
    {
        ProviderConnection {
            id: self.id,
            provider_name: self.provider_name.clone(),
            circuit_id: self.circuit_id.clone(),
            bandwidth_mbps: self.bandwidth_mbps,
            ipv4_address: self.ipv4_address.clone(),
            ipv6_address: match &self.ipv6_address {
                Some(a) => Some(a.clone()),
                None => None,
            },
            vlan_id: self.vlan_id,
            connected: self.connected,
        }
    }
}

/// The entry with that key: the last one with it.
pub open spec fn keyed<T>(s: Seq<T>, key: spec_fn(T) -> u128, id: u128) -> Option<T>
    decreases s.len(),
{
    if s.len() == 0 {
        None
    } else if key(s.last()) == id {
        Some(s.last())
    } else {
        keyed(s.drop_last(), key, id)
    }
}

/// No two entries share a key.
pub open spec fn keys_distinct<T>(s: Seq<T>, key: spec_fn(T) -> u128) -> bool {
    forall|i: int, j: int| 0 <= i < j < s.len() ==> key(#[trigger] s[i]) != key(#[trigger] s[j])
}

/// The key of a path: its id.
pub open spec fn path_key<B>() -> spec_fn(LabelSwitchedPath<B>) -> u128 {
    |l: LabelSwitchedPath<B>| l.id
}

/// The key of a circuit: its id.
pub open spec fn circuit_key<B>() -> spec_fn(ProviderConnection<B>) -> u128 {
    |c: ProviderConnection<B>| c.id
}

proof fn lemma_keyed<T>(s: Seq<T>, key: spec_fn(T) -> u128, id: u128)
    ensures
        match keyed(s, key, id) {
            Some(t) => exists|k: int| 0 <= k < s.len() && s[k] == t && key(t) == id,
            None => forall|j: int| 0 <= j < s.len() ==> key(#[trigger] s[j]) != id,
        },
    decreases s.len(),
{
    if s.len() > 0 {
        lemma_keyed(s.drop_last(), key, id);
        if key(s.last()) != id {
            match keyed(s.drop_last(), key, id) {
                Some(t) => {
                    let k = choose|k: int| 0 <= k < s.drop_last().len() && s.drop_last()[k] == t && key(t) == id;
                    assert(s[k] == s.drop_last()[k]);
                },
                None => {
                    assert forall|j: int| 0 <= j < s.len() implies key(#[trigger] s[j]) != id by {
                        if j < s.len() - 1 {
                            assert(s[j] == s.drop_last()[j]);
                        }
                    }
                },
            }
        } else {
            assert(s[s.len() - 1] == s.last());
        }
    }
}

proof fn lemma_keyed_at<T>(s: Seq<T>, key: spec_fn(T) -> u128, k: int)
    requires
        keys_distinct(s, key),
        0 <= k < s.len(),
    ensures
        keyed(s, key, key(s[k])) == Some(s[k]),
    decreases s.len(),
{
    if k < s.len() - 1 {
        assert(s.last() == s[s.len() - 1]);
        assert(s.drop_last()[k] == s[k]);
        assert(keys_distinct(s.drop_last(), key)) by {
            assert forall|i: int, j: int| 0 <= i < j < s.drop_last().len() implies key(#[trigger] s.drop_last()[i])
                != key(#[trigger] s.drop_last()[j]) by {
                assert(s.drop_last()[i] == s[i]);
                assert(s.drop_last()[j] == s[j]);
            }
        }
        lemma_keyed_at(s.drop_last(), key, k);
    }
}

proof fn lemma_keyed_update<T>(s: Seq<T>, key: spec_fn(T) -> u128, k: int, t: T, other: u128)
    requires
        0 <= k < s.len(),
        key(t) == key(s[k]),
        other != key(t),
    ensures
        keyed(s.update(k, t), key, other) == keyed(s, key, other),
    decreases s.len(),
{
    let u = s.update(k, t);
    if k == s.len() - 1 {
        assert(u.drop_last() =~= s.drop_last());
    } else {
        assert(u.drop_last() =~= s.drop_last().update(k, t));
        assert(u.last() == s.last());
        lemma_keyed_update(s.drop_last(), key, k, t, other);
    }
}

proof fn lemma_distinct_update<T>(s: Seq<T>, key: spec_fn(T) -> u128, k: int, t: T)
    requires
        keys_distinct(s, key),
        0 <= k < s.len(),
        key(t) == key(s[k]),
    ensures
        keys_distinct(s.update(k, t), key),
{
    let u = s.update(k, t);
    assert forall|i: int, j: int| 0 <= i < j < u.len() implies key(#[trigger] u[i]) != key(#[trigger] u[j]) by {
        assert(key(u[i]) == key(s[i]));
        assert(key(u[j]) == key(s[j]));
    }
}

proof fn lemma_push_new_key<T>(s: Seq<T>, key: spec_fn(T) -> u128, t: T)
    requires
        keys_distinct(s, key),
        keyed(s, key, key(t)) is None,
    ensures
        keys_distinct(s.push(t), key),
        keyed(s.push(t), key, key(t)) == Some(t),
        forall|other: u128| other != key(t) ==> #[trigger] keyed(s.push(t), key, other) == keyed(s, key, other),
{
    lemma_keyed(s, key, key(t));
    let u = s.push(t);
    assert(u.drop_last() =~= s);
    assert forall|i: int, j: int| 0 <= i < j < u.len() implies key(#[trigger] u[i]) != key(#[trigger] u[j]) by {
        assert(u[i] == s[i]);
        if j < s.len() {
            assert(u[j] == s[j]);
        }
    }
}

/// Replacing the entry at `k`, keeping its key, leaves every key finding
/// what it found, but that one, which finds the new entry.
proof fn lemma_replace_at<T>(s: Seq<T>, key: spec_fn(T) -> u128, k: int, t: T)
    requires
        keys_distinct(s, key),
        0 <= k < s.len(),
        key(t) == key(s[k]),
    ensures
        keys_distinct(s.update(k, t), key),
        keyed(s.update(k, t), key, key(t)) == Some(t),
        forall|other: u128| other != key(t) ==> #[trigger] keyed(s.update(k, t), key, other) == keyed(s, key, other),
{
    lemma_distinct_update(s, key, k, t);
    assert(s.update(k, t)[k] == t);
    lemma_keyed_at(s.update(k, t), key, k);
    assert forall|other: u128| other != key(t) implies #[trigger] keyed(s.update(k, t), key, other) == keyed(s, key, other) by {
        lemma_keyed_update(s, key, k, t, other);
    }
}

/// The active paths, in order.
pub open spec fn active_paths<B>(s: Seq<LabelSwitchedPath<B>>) -> Seq<LabelSwitchedPath<B>>
    decreases s.len(),
{
    if s.len() == 0 {
        Seq::empty()
    } else if s.last().active {
        active_paths(s.drop_last()).push(s.last())
    } else {
        active_paths(s.drop_last())
    }
}

/// The paths of a service class, in order.
pub open spec fn paths_of_class<B>(s: Seq<LabelSwitchedPath<B>>, class: MplsServiceClass) -> Seq<LabelSwitchedPath<B>>
    decreases s.len(),
{
    if s.len() == 0 {
        Seq::empty()
    } else if s.last().service_class == class {
        paths_of_class(s.drop_last(), class).push(s.last())
    } else {
        paths_of_class(s.drop_last(), class)
    }
}

/// The connected circuits, in order.
pub open spec fn connected_circuits<B>(s: Seq<ProviderConnection<B>>) -> Seq<ProviderConnection<B>>
    decreases s.len(),
{
    if s.len() == 0 {
        Seq::empty()
    } else if s.last().connected {
        connected_circuits(s.drop_last()).push(s.last())
    } else {
        connected_circuits(s.drop_last())
    }
}

/// Two paths that agree in every field, the label stack by its contents.
pub open spec fn same_path<B>(a: LabelSwitchedPath<B>, b: LabelSwitchedPath<B>) -> bool {
    a.same_but_labels(b) && a.labels@ == b.labels@
}

/// The label switched paths and provider circuits, by id.
pub struct MplsManager<B> {
    lsps: Vec<LabelSwitchedPath<B>>,
    connections: Vec<ProviderConnection<B>>,
}

impl<B> MplsManager<B> {
    pub closed spec fn paths_view(&self) -> Seq<LabelSwitchedPath<B>> {
        self.lsps@
    }

    pub closed spec fn circuits_view(&self) -> Seq<ProviderConnection<B>> {
        self.connections@
    }

    /// No two paths, and no two circuits, share an id.
    pub open spec fn wf(&self) -> bool {
        &&& keys_distinct(self.paths_view(), path_key::<B>())
        &&& keys_distinct(self.circuits_view(), circuit_key::<B>())
    }

    /// The path with that id.
    pub open spec fn path(&self, id: u128) -> Option<LabelSwitchedPath<B>> {
        keyed(self.paths_view(), path_key::<B>(), id)
    }

    /// The circuit with that id.
    pub open spec fn circuit(&self, id: u128) -> Option<ProviderConnection<B>> {
        keyed(self.circuits_view(), circuit_key::<B>(), id)
    }

    /// No paths and no circuits.
    pub fn new() -> (m: MplsManager<B>)
        ensures
            m.wf(),
            m.paths_view().len() == 0,
            m.circuits_view().len() == 0,
    {
        MplsManager { lsps: Vec::new(), connections: Vec::new() }
    }

    fn find_path(&self, id: u128) -> (r: Option<usize>)
        requires
            self.wf(),
        ensures
            match r {
                Some(k) => k < self.lsps@.len() && self.lsps@[k as int].id == id && self.path(id) == Some(self.lsps@[k as int]),
                None => self.path(id) is None,
            },
    {
        let ghost key = path_key::<B>();
        proof {
            lemma_keyed(self.lsps@, key, id);
        }
        let mut i: usize = 0;
        while i < self.lsps.len()
            invariant
                0 <= i <= self.lsps@.len(),
                self.wf(),
                key == path_key::<B>(),
                forall|j: int| 0 <= j < i ==> (#[trigger] self.lsps@[j]).id != id,
            decreases self.lsps.len() - i,
        {
            if self.lsps[i].id == id {
                proof {
                    lemma_keyed_at(self.lsps@, key, i as int);
                }
                return Some(i);
            }
            i = i + 1;
        }
        proof {
            assert forall|j: int| 0 <= j < self.lsps@.len() implies key(#[trigger] self.lsps@[j]) != id by {}
            if keyed(self.lsps@, key, id) is Some {
                let t = keyed(self.lsps@, key, id).unwrap();
                let k = choose|k: int| 0 <= k < self.lsps@.len() && self.lsps@[k] == t && key(t) == id;
                assert(key(self.lsps@[k]) != id);
            }
        }
        None
    }

    fn find_circuit(&self, id: u128) -> (r: Option<usize>)
        requires
            self.wf(),
        ensures
            match r {
                Some(k) => k < self.connections@.len() && self.connections@[k as int].id == id && self.circuit(id) == Some(
                    self.connections@[k as int],
                ),
                None => self.circuit(id) is None,
            },
    {
        let ghost key = circuit_key::<B>();
        proof {
            lemma_keyed(self.connections@, key, id);
        }
        let mut i: usize = 0;
        while i < self.connections.len()
            invariant
                0 <= i <= self.connections@.len(),
                self.wf(),
                key == circuit_key::<B>(),
                forall|j: int| 0 <= j < i ==> (#[trigger] self.connections@[j]).id != id,
            decreases self.connections.len() - i,
        {
            if self.connections[i].id == id {
                proof {
                    lemma_keyed_at(self.connections@, key, i as int);
                }
                return Some(i);
            }
            i = i + 1;
        }
        proof {
            if keyed(self.connections@, key, id) is Some {
                let t = keyed(self.connections@, key, id).unwrap();
                let k = choose|k: int| 0 <= k < self.connections@.len() && self.connections@[k] == t && key(t) == id;
                assert(key(self.connections@[k]) != id);
            }
        }
        None
    }
}

impl<B> MplsManager<B> {
    /// Adds the path, or replaces the path of its id.
    fn insert_path(&mut self, lsp: LabelSwitchedPath<B>)
        requires
            old(self).wf(),
        ensures
            final(self).wf(),
            final(self).path(lsp.id) == Some(lsp),
            forall|other: u128| other != lsp.id ==> #[trigger] final(self).path(other) == old(self).path(other),
            final(self).circuits_view() == old(self).circuits_view(),
    {
        let ghost l = lsp;
        let ghost before = self.lsps@;
        match self.find_path(lsp.id) {
            Some(k) => {
                self.lsps.remove(k);
                self.lsps.insert(k, lsp);
                proof {
                    assert(self.lsps@ =~= before.update(k as int, l));
                    lemma_replace_at(before, path_key::<B>(), k as int, l);
                }
            },
            None => {
                self.lsps.push(lsp);
                proof {
                    lemma_push_new_key(before, path_key::<B>(), l);
                }
            },
        }
    }

    /// Puts the changed path `lsp` back at position `k`, where its id was.
    fn put_path_back(&mut self, k: usize, lsp: LabelSwitchedPath<B>, Ghost(before): Ghost<Seq<LabelSwitchedPath<B>>>)
        requires
            keys_distinct(before, path_key::<B>()),
            keys_distinct(old(self).connections@, circuit_key::<B>()),
            k < before.len(),
            old(self).lsps@ == before.remove(k as int),
            lsp.id == before[k as int].id,
        ensures
            final(self).wf(),
            final(self).lsps@ == before.update(k as int, lsp),
            keyed(final(self).lsps@, path_key::<B>(), lsp.id) == Some(lsp),
            forall|other: u128| other != lsp.id ==> #[trigger] keyed(final(self).lsps@, path_key::<B>(), other) == keyed(
                before,
                path_key::<B>(),
                other,
            ),
            final(self).connections@ == old(self).connections@,
    {
        let ghost l = lsp;
        self.lsps.insert(k, lsp);
        proof {
            assert(self.lsps@ =~= before.update(k as int, l));
            lemma_replace_at(before, path_key::<B>(), k as int, l);
        }
    }

    /// Creates an inactive path with no labels and a fresh id, and hands
    /// back the id.
    pub fn create_lsp(&mut self, name: String, ingress: String, egress: String, bandwidth: B, service_class: MplsServiceClass) -> (r: u128)
        requires
            old(self).wf(),
        ensures
            final(self).wf(),
            final(self).path(r) matches Some(l) && l.id == r && l.name == name && l.ingress_router == ingress
                && l.egress_router == egress && l.labels@.len() == 0 && l.bandwidth_mbps == bandwidth
                && l.service_class == service_class && !l.active,
            forall|other: u128| other != r ==> #[trigger] final(self).path(other) == old(self).path(other),
            final(self).circuits_view() == old(self).circuits_view(),
    {
        let lsp = LabelSwitchedPath::new(name, ingress, egress, bandwidth, service_class);
        let id = lsp.id;
        self.insert_path(lsp);
        id
    }

    /// The path with that id.
    pub fn get_lsp(&self, id: &u128) -> (r: Option<&LabelSwitchedPath<B>>)
        requires
            self.wf(),
        ensures
            match self.path(*id) {
                Some(l) => r == Some(&l),
                None => r is None,
            },
    {
        match self.find_path(*id) {
            Some(k) => Some(&self.lsps[k]),
            None => None,
        }
    }

    fn set_active(&mut self, id: &u128, active: bool) -> (r: bool)
        requires
            old(self).wf(),
        ensures
            final(self).wf(),
            final(self).circuits_view() == old(self).circuits_view(),
            match old(self).path(*id) {
                None => !r && final(self).paths_view() == old(self).paths_view(),
                Some(l) => r && final(self).path(*id) == Some(LabelSwitchedPath { active, ..l }) && forall|other: u128|
                    other != *id ==> #[trigger] final(self).path(other) == old(self).path(other),
            },
    {
        match self.find_path(*id) {
            Some(k) => {
                let ghost before = self.lsps@;
                let mut lsp = self.lsps.remove(k);
                lsp.active = active;
                self.put_path_back(k, lsp, Ghost(before));
                true
            },
            None => false,
        }
    }

    /// Turns a path on; says whether there was one of that id.
    pub fn activate_lsp(&mut self, id: &u128) -> (r: bool)
        requires
            old(self).wf(),
        ensures
            final(self).wf(),
            final(self).circuits_view() == old(self).circuits_view(),
            match old(self).path(*id) {
                None => !r && final(self).paths_view() == old(self).paths_view(),
                Some(l) => r && final(self).path(*id) == Some(LabelSwitchedPath { active: true, ..l }) && forall|
                    other: u128,
                | other != *id ==> #[trigger] final(self).path(other) == old(self).path(other),
            },
    {
        self.set_active(id, true)
    }

    /// Turns a path off; says whether there was one of that id.
    pub fn deactivate_lsp(&mut self, id: &u128) -> (r: bool)
        requires
            old(self).wf(),
        ensures
            final(self).wf(),
            final(self).circuits_view() == old(self).circuits_view(),
            match old(self).path(*id) {
                None => !r && final(self).paths_view() == old(self).paths_view(),
                Some(l) => r && final(self).path(*id) == Some(LabelSwitchedPath { active: false, ..l }) && forall|
                    other: u128,
                | other != *id ==> #[trigger] final(self).path(other) == old(self).path(other),
            },
    {
        self.set_active(id, false)
    }

    /// Pushes a label on a path's stack; says whether there was a path of
    /// that id.
    pub fn add_label_to_lsp(&mut self, lsp_id: &u128, label: MplsLabel) -> (r: bool)
        requires
            old(self).wf(),
        ensures
            final(self).wf(),
            final(self).circuits_view() == old(self).circuits_view(),
            match old(self).path(*lsp_id) {
                None => !r && final(self).paths_view() == old(self).paths_view(),
                Some(l) => r && (final(self).path(*lsp_id) matches Some(n) && n.same_but_labels(l) && n.labels@
                    == l.labels@.push(label)) && forall|other: u128|
                    other != *lsp_id ==> #[trigger] final(self).path(other) == old(self).path(other),
            },
    {
        match self.find_path(*lsp_id) {
            Some(k) => {
                let ghost before = self.lsps@;
                let mut lsp = self.lsps.remove(k);
                lsp.push_label(label);
                self.put_path_back(k, lsp, Ghost(before));
                true
            },
            None => false,
        }
    }
}

impl<B> MplsManager<B> {
    /// Adds a circuit, replacing one of its id, and hands back its id.
    pub fn register_provider_connection(&mut self, connection: ProviderConnection<B>) -> (r: u128)
        requires
            old(self).wf(),
        ensures
            final(self).wf(),
            r == connection.id,
            final(self).circuit(r) == Some(connection),
            forall|other: u128| other != r ==> #[trigger] final(self).circuit(other) == old(self).circuit(other),
            final(self).paths_view() == old(self).paths_view(),
    {
        let id = connection.id;
        let ghost c = connection;
        let ghost before = self.connections@;
        match self.find_circuit(id) {
            Some(k) => {
                self.connections.remove(k);
                self.connections.insert(k, connection);
                proof {
                    assert(self.connections@ =~= before.update(k as int, c));
                    lemma_replace_at(before, circuit_key::<B>(), k as int, c);
                }
            },
            None => {
                self.connections.push(connection);
                proof {
                    lemma_push_new_key(before, circuit_key::<B>(), c);
                }
            },
        }
        id
    }

    /// The circuit with that id.
    pub fn get_connection(&self, id: &u128) -> (r: Option<&ProviderConnection<B>>)
        requires
            self.wf(),
        ensures
            match self.circuit(*id) {
                Some(c) => r == Some(&c),
                None => r is None,
            },
    {
        match self.find_circuit(*id) {
            Some(k) => Some(&self.connections[k]),
            None => None,
        }
    }

    fn set_connected(&mut self, id: &u128, connected: bool) -> (r: bool)
        requires
            old(self).wf(),
        ensures
            final(self).wf(),
            final(self).paths_view() == old(self).paths_view(),
            match old(self).circuit(*id) {
                None => !r && final(self).circuits_view() == old(self).circuits_view(),
                Some(c) => r && final(self).circuit(*id) == Some(ProviderConnection { connected, ..c }) && forall|
                    other: u128,
                | other != *id ==> #[trigger] final(self).circuit(other) == old(self).circuit(other),
            },
    {
        match self.find_circuit(*id) {
            Some(k) => {
                let ghost before = self.connections@;
                let mut c = self.connections.remove(k);
                c.connected = connected;
                let ghost cc = c;
                self.connections.insert(k, c);
                proof {
                    assert(self.connections@ =~= before.update(k as int, cc));
                    lemma_replace_at(before, circuit_key::<B>(), k as int, cc);
                }
                true
            },
            None => false,
        }
    }

    /// Marks a circuit connected; says whether there was one of that id.
    pub fn connect_provider(&mut self, id: &u128) -> (r: bool)
        requires
            old(self).wf(),
        ensures
            final(self).wf(),
            final(self).paths_view() == old(self).paths_view(),
            match old(self).circuit(*id) {
                None => !r && final(self).circuits_view() == old(self).circuits_view(),
                Some(c) => r && final(self).circuit(*id) == Some(ProviderConnection { connected: true, ..c })
                    && forall|other: u128| other != *id ==> #[trigger] final(self).circuit(other) == old(self).circuit(other),
            },
    {
        self.set_connected(id, true)
    }

    /// Marks a circuit disconnected; says whether there was one of that id.
    pub fn disconnect_provider(&mut self, id: &u128) -> (r: bool)
        requires
            old(self).wf(),
        ensures
            final(self).wf(),
            final(self).paths_view() == old(self).paths_view(),
            match old(self).circuit(*id) {
                None => !r && final(self).circuits_view() == old(self).circuits_view(),
                Some(c) => r && final(self).circuit(*id) == Some(ProviderConnection { connected: false, ..c })
                    && forall|other: u128| other != *id ==> #[trigger] final(self).circuit(other) == old(self).circuit(other),
            },
    {
        self.set_connected(id, false)
    }
}

impl<B: Copy> MplsManager<B> {
    /// Copies of the active paths, in order of creation.
    pub fn list_active_lsps(&self) -> (r: Vec<LabelSwitchedPath<B>>)
        ensures
            r@.len() == active_paths(self.paths_view()).len(),
            forall|i: int| 0 <= i < r@.len() ==> same_path(#[trigger] r@[i], active_paths(self.paths_view())[i]),
    {
        let mut out: Vec<LabelSwitchedPath<B>> = Vec::new();
        let mut i: usize = 0;
        while i < self.lsps.len()
            invariant
                0 <= i <= self.lsps@.len(),
                out@.len() == active_paths(self.lsps@.take(i as int)).len(),
                forall|j: int| 0 <= j < out@.len() ==> same_path(#[trigger] out@[j], active_paths(self.lsps@.take(i as int))[j]),
            decreases self.lsps.len() - i,
        {
            proof {
                assert(self.lsps@.take(i + 1).drop_last() =~= self.lsps@.take(i as int));
            }
            if self.lsps[i].active {
                out.push(self.lsps[i].copy());
            }
            i = i + 1;
        }
        proof {
            assert(self.lsps@.take(self.lsps@.len() as int) =~= self.lsps@);
        }
        out
    }

    /// Copies of the paths of a service class, in order of creation.
    pub fn get_lsps_by_service_class(&self, class: &MplsServiceClass) -> (r: Vec<LabelSwitchedPath<B>>)
        ensures
            r@.len() == paths_of_class(self.paths_view(), *class).len(),
            forall|i: int| 0 <= i < r@.len() ==> same_path(#[trigger] r@[i], paths_of_class(self.paths_view(), *class)[i]),
    {
        let mut out: Vec<LabelSwitchedPath<B>> = Vec::new();
        let mut i: usize = 0;
        while i < self.lsps.len()
            invariant
                0 <= i <= self.lsps@.len(),
                out@.len() == paths_of_class(self.lsps@.take(i as int), *class).len(),
                forall|j: int| 0 <= j < out@.len() ==> same_path(#[trigger] out@[j], paths_of_class(self.lsps@.take(i as int), *class)[j]),
            decreases self.lsps.len() - i,
        {
            proof {
                assert(self.lsps@.take(i + 1).drop_last() =~= self.lsps@.take(i as int));
            }
            if self.lsps[i].service_class == *class {
                out.push(self.lsps[i].copy());
            }
            i = i + 1;
        }
        proof {
            assert(self.lsps@.take(self.lsps@.len() as int) =~= self.lsps@);
        }
        out
    }

    /// Copies of the connected circuits, in order of registration.
    pub fn list_connected_providers(&self) -> (r: Vec<ProviderConnection<B>>)
        ensures
            r@ == connected_circuits(self.circuits_view()),
    {
        let mut out: Vec<ProviderConnection<B>> = Vec::new();
        let mut i: usize = 0;
        while i < self.connections.len()
            invariant
                0 <= i <= self.connections@.len(),
                out@ == connected_circuits(self.connections@.take(i as int)),
            decreases self.connections.len() - i,
        {
            proof {
                assert(self.connections@.take(i + 1).drop_last() =~= self.connections@.take(i as int));
            }
            if self.connections[i].connected {
                out.push(self.connections[i].copy());
            }
            i = i + 1;
        }
        proof {
            assert(self.connections@.take(self.connections@.len() as int) =~= self.connections@);
        }
        out
    }
}

impl<B> Default for MplsManager<B> {
    fn default() -> (m: MplsManager<B>)
        ensures
            m.wf(),
            m.paths_view().len() == 0,
            m.circuits_view().len() == 0,
    {
        MplsManager::new()
    }
}

/// Deactivating undoes activating: a path that was off is, after both, the
/// path it was.
pub proof fn lemma_activation_round_trip<B>(l: LabelSwitchedPath<B>)
    requires
        !l.active,
    ensures
        (LabelSwitchedPath { active: false, ..(LabelSwitchedPath { active: true, ..l }) }) == l,
{
}

} // verus!
