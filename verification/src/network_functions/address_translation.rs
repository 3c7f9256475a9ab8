//! Network address translation: source NAT, destination NAT, port
//! forwarding and 1:1 NAT, with per-flow sessions.
use vstd::prelude::*;
use crate::clock;
use crate::ids::new_v4;
use crate::net::{ip_text, ip_to_string, IpAddress};
use crate::text::{owned, starts_with};

verus! {

/// The kind of translation a rule performs.
#[derive(PartialEq, Eq, Structural, Clone, Copy, Debug)]
pub enum NatType {
    Snat,
    Dnat,
    PortForward,
    OneToOne,
}

/// A translation rule with its match criteria and counters.
#[derive(Debug)]
pub struct NatRule {
    pub id: u128,
    pub name: String,
    pub nat_type: NatType,
    pub enabled: bool,
    /// Prefix of the packet's source address text.
    pub src_address: Option<String>,
    /// Prefix of the packet's destination address text.
    pub dst_address: Option<String>,
    pub src_port: Option<u16>,
    pub dst_port: Option<u16>,
    pub protocol: Option<String>,
    pub interface: Option<String>,
    pub translated_address: IpAddress,
    pub translated_port: Option<u16>,
    pub packet_count: u64,
    pub byte_count: u64,
    /// Creation time, in seconds since the Unix epoch.
    pub created_at: i64,
    /// Time of the last match, in seconds since the Unix epoch.
    pub last_matched: Option<i64>,
}

/// The header fields a rule is matched against.
#[derive(Debug)]
pub struct PacketInfo {
    pub src_addr: IpAddress,
    pub dst_addr: IpAddress,
    pub src_port: u16,
    pub dst_port: u16,
    pub protocol: String,
    pub interface: String,
}

/// A translated flow.
#[derive(PartialEq, Eq, Structural, Clone, Copy, Debug)]
pub struct NatSession {
    pub id: u128,
    pub rule_id: u128,
    pub original_src: IpAddress,
    pub original_dst: IpAddress,
    pub translated_src: IpAddress,
    pub translated_dst: IpAddress,
    pub created_at: i64,
    pub last_activity: i64,
    pub packet_count: u64,
    pub byte_count: u64,
}

/// Counters over rules and sessions.
#[derive(PartialEq, Eq, Structural, Clone, Copy, Debug)]
pub struct NatStats {
    pub total_rules: usize,
    pub active_sessions: usize,
    pub total_packets: u64,
    pub total_bytes: u64,
}

/// Why a NAT request was refused.
#[derive(PartialEq, Eq, Structural, Clone, Copy, Debug)]
pub enum NatError {
    RuleNotFound,
}

/// Whether an optional address prefix admits an address.
pub open spec fn prefix_admits(prefix: Option<String>, addr: IpAddress) -> bool {
    match prefix {
        Some(p) => p@.is_prefix_of(ip_text(addr)),
        None => true,
    }
}

/// Whether a rule matches a packet: the rule is enabled, the address
/// prefixes admit the packet's addresses, and the destination port and
/// protocol, when set, are the packet's.
pub open spec fn rule_matches(rule: NatRule, p: PacketInfo) -> bool {
    &&& rule.enabled
    &&& prefix_admits(rule.src_address, p.src_addr)
    &&& prefix_admits(rule.dst_address, p.dst_addr)
    &&& match rule.dst_port {
        Some(port) => p.dst_port == port,
        None => true,
    }
    &&& match rule.protocol {
        Some(proto) => p.protocol@ == proto@,
        None => true,
    }
}

impl NatRule {
    /// An enabled rule without match criteria, created now, with a fresh
    /// random id.
    pub fn new(name: &str, nat_type: NatType, translated_address: IpAddress) -> (r: NatRule)
        ensures
            r.name@ == name@,
            r.nat_type == nat_type,
            r.enabled,
            r.src_address is None,
            r.dst_address is None,
            r.src_port is None,
            r.dst_port is None,
            r.protocol is None,
            r.interface is None,
            r.translated_address == translated_address,
            r.translated_port is None,
            r.packet_count == 0,
            r.byte_count == 0,
            r.last_matched is None,
    {
        NatRule {
            id: new_v4(),
            name: owned(name),
            nat_type,
            enabled: true,
            src_address: None,
            dst_address: None,
            src_port: None,
            dst_port: None,
            protocol: None,
            interface: None,
            translated_address,
            translated_port: None,
            packet_count: 0,
            byte_count: 0,
            created_at: clock::now(),
            last_matched: None,
        }
    }

    /// Matches source addresses whose text starts with `addr`.
    pub fn with_src_address(self, addr: &str) -> (r: NatRule)
        ensures
            r.src_address matches Some(a) && a@ == addr@,
            r == (NatRule { src_address: r.src_address, ..self }),
    {
        let mut s = self;
        s.src_address = Some(owned(addr));
        s
    }

    /// Matches destination addresses whose text starts with `addr`.
    pub fn with_dst_address(self, addr: &str) -> (r: NatRule)
        ensures
            r.dst_address matches Some(a) && a@ == addr@,
            r == (NatRule { dst_address: r.dst_address, ..self }),
    {
        let mut s = self;
        s.dst_address = Some(owned(addr));
        s
    }

    /// Matches one destination port.
    pub fn with_dst_port(self, port: u16) -> (r: NatRule)
        ensures
            r == (NatRule { dst_port: Some(port), ..self }),
    {
        let mut s = self;
        s.dst_port = Some(port);
        s
    }

    /// Translates to one port.
    pub fn with_translated_port(self, port: u16) -> (r: NatRule)
        ensures
            r == (NatRule { translated_port: Some(port), ..self }),
    {
        let mut s = self;
        s.translated_port = Some(port);
        s
    }

    /// Matches one protocol.
    pub fn with_protocol(self, proto: &str) -> (r: NatRule)
        ensures
            r.protocol matches Some(p) && p@ == proto@,
            r == (NatRule { protocol: r.protocol, ..self }),
    {
        let mut s = self;
        s.protocol = Some(owned(proto));
        s
    }

    /// Records the interface the rule applies to.
    pub fn with_interface(self, iface: &str) -> (r: NatRule)
        ensures
            r.interface matches Some(i) && i@ == iface@,
            r == (NatRule { interface: r.interface, ..self }),
    {
        let mut s = self;
        s.interface = Some(owned(iface));
        s
    }

    /// Whether the rule matches the packet.
    pub fn matches(&self, packet_info: &PacketInfo) -> (b: bool)
        ensures
            b == rule_matches(*self, *packet_info),
    {
        if !self.enabled {
            return false;
        }
        match &self.src_address {
            Some(src) => {
                let text = ip_to_string(packet_info.src_addr);
                if !starts_with(text.as_str(), src.as_str()) {
                    return false;
                }
            },
            None => {},
        }
        match &self.dst_address {
            Some(dst) => {
                let text = ip_to_string(packet_info.dst_addr);
                if !starts_with(text.as_str(), dst.as_str()) {
                    return false;
                }
            },
            None => {},
        }
        match self.dst_port {
            Some(port) => {
                if packet_info.dst_port != port {
                    return false;
                }
            },
            None => {},
        }
        match &self.protocol {
            Some(proto) => {
                if packet_info.protocol != *proto {
                    return false;
                }
            },
            None => {},
        }
        true
    }

    /// A copy of the rule.
    pub fn copy(&self) -> (r: NatRule)
        ensures
            r == *self,
    {
        NatRule {
            id: self.id,
            name: self.name.clone(),
            nat_type: self.nat_type,
            enabled: self.enabled,
            src_address: self.src_address.clone(),
            dst_address: self.dst_address.clone(),
            src_port: self.src_port,
            dst_port: self.dst_port,
            protocol: self.protocol.clone(),
            interface: self.interface.clone(),
            translated_address: self.translated_address,
            translated_port: self.translated_port,
            packet_count: self.packet_count,
            byte_count: self.byte_count,
            created_at: self.created_at,
            last_matched: self.last_matched,
        }
    }
}

/// Index of the first rule that matches the packet.
pub open spec fn first_match(rules: Seq<NatRule>, p: PacketInfo, k: int) -> bool {
    &&& 0 <= k < rules.len()
    &&& rule_matches(rules[k], p)
    &&& forall|j: int| 0 <= j < k ==> !rule_matches(#[trigger] rules[j], p)
}

/// Whether a session is still fresh at `now`.
pub open spec fn session_fresh(s: NatSession, now: i64, timeout: i64) -> bool {
    now - s.last_activity < timeout
}

/// The sessions that are still fresh, in order.
pub open spec fn fresh_sessions(ss: Seq<NatSession>, now: i64, timeout: i64) -> Seq<NatSession>
    decreases ss.len(),
{
    if ss.len() == 0 {
        Seq::empty()
    } else {
        let rest = fresh_sessions(ss.drop_last(), now, timeout);
        if session_fresh(ss.last(), now, timeout) {
            rest.push(ss.last())
        } else {
            rest
        }
    }
}

pub open spec fn packet_sum(rules: Seq<NatRule>) -> int
    decreases rules.len(),
{
    if rules.len() == 0 {
        0
    } else {
        packet_sum(rules.drop_last()) + rules.last().packet_count
    }
}

pub open spec fn byte_sum(rules: Seq<NatRule>) -> int
    decreases rules.len(),
{
    if rules.len() == 0 {
        0
    } else {
        byte_sum(rules.drop_last()) + rules.last().byte_count
    }
}

/// Rule ids are unique.
pub open spec fn rule_ids_unique(rules: Seq<NatRule>) -> bool {
    forall|i: int, j: int|
        0 <= i < rules.len() && 0 <= j < rules.len() && i != j ==> (#[trigger] rules[i]).id != (#[trigger] rules[j]).id
}

/// The rules, in order of addition, and the sessions they created.
pub struct NatManager {
    rules: Vec<NatRule>,
    sessions: Vec<NatSession>,
}

impl NatManager {
    pub closed spec fn rules_view(&self) -> Seq<NatRule> {
        self.rules@
    }

    pub closed spec fn sessions_view(&self) -> Seq<NatSession> {
        self.sessions@
    }

    pub closed spec fn wf(&self) -> bool {
        rule_ids_unique(self.rules@)
    }

    /// No rules and no sessions.
    pub fn new() -> (m: NatManager)
        ensures
            m.wf(),
            m.rules_view() == Seq::<NatRule>::empty(),
            m.sessions_view() == Seq::<NatSession>::empty(),
    {
        NatManager { rules: Vec::new(), sessions: Vec::new() }
    }

    fn find(&self, id: &u128) -> (r: Option<usize>)
        ensures
            r matches Some(i) ==> i < self.rules@.len() && self.rules@[i as int].id == *id,
            r is None ==> forall|i: int| 0 <= i < self.rules@.len() ==> (#[trigger] self.rules@[i]).id != *id,
    {
        let mut i: usize = 0;
        while i < self.rules.len()
            invariant
                0 <= i <= self.rules.len(),
                forall|k: int| 0 <= k < i ==> (#[trigger] self.rules@[k]).id != *id,
            decreases self.rules.len() - i,
        {
            if self.rules[i].id == *id {
                return Some(i);
            }
            i = i + 1;
        }
        None
    }

    /// Adds a rule, replacing one with the same id in its place.
    pub fn add_rule(&mut self, rule: NatRule) -> (id: u128)
        requires
            old(self).wf(),
        ensures
            final(self).wf(),
            id == rule.id,
            (exists|i: int| 0 <= i < old(self).rules_view().len() && old(self).rules_view()[i].id == rule.id)
                ==> (exists|i: int| 0 <= i < old(self).rules_view().len() && old(self).rules_view()[i].id == rule.id
                && final(self).rules_view() == old(self).rules_view().update(i, rule)),
            (forall|i: int| 0 <= i < old(self).rules_view().len() ==> old(self).rules_view()[i].id != rule.id)
                ==> final(self).rules_view() == old(self).rules_view().push(rule),
            final(self).sessions_view() == old(self).sessions_view(),
    {
        let id = rule.id;
        let ghost old_rules = self.rules@;
        match self.find(&id) {
            Some(i) => {
                self.rules.set(i, rule);
                proof {
                    assert forall|a: int, b: int|
                        0 <= a < self.rules@.len() && 0 <= b < self.rules@.len() && a != b implies (
                        #[trigger] self.rules@[a]).id != (#[trigger] self.rules@[b]).id by {
                        if a != i {
                            assert(self.rules@[a] == old_rules[a]);
                        }
                        if b != i {
                            assert(self.rules@[b] == old_rules[b]);
                        }
                    }
                }
            },
            None => {
                self.rules.push(rule);
                proof {
                    assert forall|a: int, b: int|
                        0 <= a < self.rules@.len() && 0 <= b < self.rules@.len() && a != b implies (
                        #[trigger] self.rules@[a]).id != (#[trigger] self.rules@[b]).id by {
                        if a < old_rules.len() {
                            assert(self.rules@[a] == old_rules[a]);
                        }
                        if b < old_rules.len() {
                            assert(self.rules@[b] == old_rules[b]);
                        }
                    }
                }
            },
        }
        id
    }

    /// Removes the rule with that id.
    pub fn remove_rule(&mut self, id: &u128) -> (r: Result<(), NatError>)
        requires
            old(self).wf(),
        ensures
            final(self).wf(),
            (forall|i: int| 0 <= i < old(self).rules_view().len() ==> old(self).rules_view()[i].id != *id)
                ==> r == Err::<(), NatError>(NatError::RuleNotFound) && final(self).rules_view()
                == old(self).rules_view(),
            (exists|i: int| 0 <= i < old(self).rules_view().len() && old(self).rules_view()[i].id == *id)
                ==> r is Ok && exists|i: int|
                0 <= i < old(self).rules_view().len() && old(self).rules_view()[i].id == *id
                    && final(self).rules_view() == old(self).rules_view().remove(i),
            final(self).sessions_view() == old(self).sessions_view(),
    {
        match self.find(id) {
            None => Err(NatError::RuleNotFound),
            Some(i) => {
                let ghost old_rules = self.rules@;
                self.rules.remove(i);
                proof {
                    assert forall|a: int, b: int|
                        0 <= a < self.rules@.len() && 0 <= b < self.rules@.len() && a != b implies (
                        #[trigger] self.rules@[a]).id != (#[trigger] self.rules@[b]).id by {
                        let oa = if a < i { a } else { a + 1 };
                        let ob = if b < i { b } else { b + 1 };
                        assert(self.rules@[a] == old_rules[oa]);
                        assert(self.rules@[b] == old_rules[ob]);
                    }
                }
                Ok(())
            },
        }
    }

    /// A copy of the rule with that id.
    pub fn get_rule(&self, id: &u128) -> (r: Option<NatRule>)
        ensures
            r matches Some(x) ==> exists|i: int| 0 <= i < self.rules_view().len() && self.rules_view()[i] == x && x.id == *id,
            r is None ==> forall|i: int| 0 <= i < self.rules_view().len() ==> self.rules_view()[i].id != *id,
    {
        match self.find(id) {
            Some(i) => Some(self.rules[i].copy()),
            None => None,
        }
    }

    /// Copies of all rules.
    pub fn list_rules(&self) -> (rs: Vec<NatRule>)
        ensures
            rs@ == self.rules_view(),
    {
        let mut out: Vec<NatRule> = Vec::new();
        let mut i: usize = 0;
        while i < self.rules.len()
            invariant
                0 <= i <= self.rules.len(),
                out@ == self.rules@.subrange(0, i as int),
            decreases self.rules.len() - i,
        {
            out.push(self.rules[i].copy());
            proof {
                assert(out@ =~= self.rules@.subrange(0, i + 1));
            }
            i = i + 1;
        }
        proof {
            assert(self.rules@.subrange(0, self.rules@.len() as int) == self.rules@);
        }
        out
    }

    #[verifier::loop_isolation(false)]
    /// Translates a packet by the first matching rule: counts the match on
    /// the rule, opens a session for the flow, and gives the translated
    /// address and port.  `None`, with nothing changed, when no rule matches.
    pub fn apply_nat(&mut self, packet: &PacketInfo) -> (r: Option<(IpAddress, Option<u16>)>)
        requires
            old(self).wf(),
            forall|i: int| 0 <= i < old(self).rules_view().len() ==> (#[trigger] old(self).rules_view()[i]).packet_count < u64::MAX,
        ensures
            final(self).wf(),
            (forall|k: int| 0 <= k < old(self).rules_view().len() ==> !rule_matches(#[trigger] old(self).rules_view()[k], *packet))
                ==> r is None && final(self).rules_view() == old(self).rules_view()
                && final(self).sessions_view() == old(self).sessions_view(),
            forall|k: int| first_match(old(self).rules_view(), *packet, k) ==> {
                let o = old(self).rules_view()[k];
                let n = final(self).rules_view()[k];
                &&& r == Some((o.translated_address, o.translated_port))
                &&& final(self).rules_view().len() == old(self).rules_view().len()
                &&& forall|j: int| 0 <= j < old(self).rules_view().len() && j != k ==> final(self).rules_view()[j] == old(self).rules_view()[j]
                &&& n == (NatRule { packet_count: (o.packet_count + 1) as u64, last_matched: n.last_matched, ..o })
                &&& n.last_matched is Some
                &&& final(self).sessions_view().len() == old(self).sessions_view().len() + 1
                &&& final(self).sessions_view().drop_last() == old(self).sessions_view()
                &&& {
                    let s = final(self).sessions_view().last();
                    &&& s.rule_id == o.id
                    &&& s.original_src == packet.src_addr
                    &&& s.original_dst == packet.dst_addr
                    &&& s.translated_src == o.translated_address
                    &&& s.translated_dst == packet.dst_addr
                    &&& s.created_at == s.last_activity
                    &&& s.packet_count == 1
                    &&& s.byte_count == 0
                }
            },
    {
        let mut i: usize = 0;
        while i < self.rules.len()
            invariant
                0 <= i <= self.rules.len(),
                self.rules@ == old(self).rules@,
                self.sessions@ == old(self).sessions@,
                forall|j: int| 0 <= j < i ==> !rule_matches(#[trigger] self.rules@[j], *packet),
            decreases self.rules.len() - i,
        {
            if self.rules[i].matches(packet) {
                let ghost old_rules = self.rules@;
                let mut rule = self.rules.remove(i);
                rule.packet_count = rule.packet_count + 1;
                rule.last_matched = Some(clock::now());
                let rule_id = rule.id;
                let translated_address = rule.translated_address;
                let translated_port = rule.translated_port;
                self.rules.insert(i, rule);
                let now = clock::now();
                let session = NatSession {
                    id: new_v4(),
                    rule_id,
                    original_src: packet.src_addr,
                    original_dst: packet.dst_addr,
                    translated_src: translated_address,
                    translated_dst: packet.dst_addr,
                    created_at: now,
                    last_activity: now,
                    packet_count: 1,
                    byte_count: 0,
                };
                self.sessions.push(session);
                proof {
                    assert forall|j: int| 0 <= j < old_rules.len() && j != i implies self.rules@[j] == old_rules[j] by {}
                    assert forall|a: int, b: int|
                        0 <= a < self.rules@.len() && 0 <= b < self.rules@.len() && a != b implies (
                        #[trigger] self.rules@[a]).id != (#[trigger] self.rules@[b]).id by {
                        assert(self.rules@[a].id == old_rules[a].id);
                        assert(self.rules@[b].id == old_rules[b].id);
                    }
                    assert(first_match(old_rules, *packet, i as int));
                    assert forall|k: int| first_match(old_rules, *packet, k) implies k == i by {
                        if k < i {
                            assert(!rule_matches(old_rules[k], *packet));
                        }
                        if k > i {
                            assert(!rule_matches(old_rules[i as int], *packet));
                        }
                    }
                    assert(self.sessions@.drop_last() == old(self).sessions@);
                }
                return Some((translated_address, translated_port));
            }
            i = i + 1;
        }
        None
    }

    /// Copies of all sessions.
    pub fn get_sessions(&self) -> (ss: Vec<NatSession>)
        ensures
            ss@ == self.sessions_view(),
    {
        let mut out: Vec<NatSession> = Vec::new();
        let mut i: usize = 0;
        while i < self.sessions.len()
            invariant
                0 <= i <= self.sessions.len(),
                out@ == self.sessions@.subrange(0, i as int),
            decreases self.sessions.len() - i,
        {
            out.push(self.sessions[i]);
            proof {
                assert(out@ =~= self.sessions@.subrange(0, i + 1));
            }
            i = i + 1;
        }
        proof {
            assert(self.sessions@.subrange(0, self.sessions@.len() as int) == self.sessions@);
        }
        out
    }

    /// Drops the sessions idle for `timeout_seconds` or longer at time `now`.
    pub fn cleanup_sessions_at(&mut self, now: i64, timeout_seconds: i64)
        ensures
            final(self).sessions_view() == fresh_sessions(old(self).sessions_view(), now, timeout_seconds),
            final(self).rules_view() == old(self).rules_view(),
    {
        let mut kept: Vec<NatSession> = Vec::new();
        let mut i: usize = 0;
        while i < self.sessions.len()
            invariant
                0 <= i <= self.sessions.len(),
                kept@ == fresh_sessions(self.sessions@.subrange(0, i as int), now, timeout_seconds),
            decreases self.sessions.len() - i,
        {
            proof {
                assert(self.sessions@.subrange(0, i + 1).drop_last() == self.sessions@.subrange(0, i as int));
            }
            let s = self.sessions[i];
            let elapsed: i128 = (now as i128) - (s.last_activity as i128);
            if elapsed < timeout_seconds as i128 {
                kept.push(s);
            }
            i = i + 1;
        }
        proof {
            assert(self.sessions@.subrange(0, self.sessions@.len() as int) == self.sessions@);
        }
        self.sessions = kept;
    }

    /// Drops the sessions idle for `timeout_seconds` or longer now.
    pub fn cleanup_stale_sessions(&mut self, timeout_seconds: i64)
        ensures
            exists|now: i64| final(self).sessions_view() == fresh_sessions(old(self).sessions_view(), now, timeout_seconds),
            final(self).rules_view() == old(self).rules_view(),
    {
        let now = clock::now();
        self.cleanup_sessions_at(now, timeout_seconds);
    }

    /// Counts over rules and sessions.
    pub fn get_stats(&self) -> (s: NatStats)
        requires
            packet_sum(self.rules_view()) <= u64::MAX,
            byte_sum(self.rules_view()) <= u64::MAX,
        ensures
            s.total_rules == self.rules_view().len(),
            s.active_sessions == self.sessions_view().len(),
            s.total_packets == packet_sum(self.rules_view()),
            s.total_bytes == byte_sum(self.rules_view()),
    {
        let mut packets: u64 = 0;
        let mut bytes: u64 = 0;
        let mut i: usize = 0;
        while i < self.rules.len()
            invariant
                0 <= i <= self.rules.len(),
                packet_sum(self.rules@) <= u64::MAX,
                byte_sum(self.rules@) <= u64::MAX,
                packets == packet_sum(self.rules@.subrange(0, i as int)),
                bytes == byte_sum(self.rules@.subrange(0, i as int)),
            decreases self.rules.len() - i,
        {
            proof {
                assert(self.rules@.subrange(0, i + 1).drop_last() == self.rules@.subrange(0, i as int));
                lemma_rule_sums_prefix(self.rules@, i + 1);
            }
            packets = packets + self.rules[i].packet_count;
            bytes = bytes + self.rules[i].byte_count;
            i = i + 1;
        }
        proof {
            assert(self.rules@.subrange(0, self.rules@.len() as int) == self.rules@);
        }
        NatStats { total_rules: self.rules.len(), active_sessions: self.sessions.len(), total_packets: packets, total_bytes: bytes }
    }
}

proof fn lemma_rule_sums_prefix(rules: Seq<NatRule>, n: int)
    requires
        0 <= n <= rules.len(),
    ensures
        packet_sum(rules.subrange(0, n)) <= packet_sum(rules),
        byte_sum(rules.subrange(0, n)) <= byte_sum(rules),
        packet_sum(rules) >= 0,
        byte_sum(rules) >= 0,
    decreases rules.len(),
{
    if rules.len() > 0 {
        if n == rules.len() {
            assert(rules.subrange(0, n) == rules);
            lemma_rule_sums_prefix(rules.drop_last(), 0);
        } else {
            assert(rules.drop_last().subrange(0, n) == rules.subrange(0, n));
            lemma_rule_sums_prefix(rules.drop_last(), n);
        }
    }
}

impl Default for NatManager {
    fn default() -> (m: NatManager)
        ensures
            m.wf(),
            m.rules_view() == Seq::<NatRule>::empty(),
            m.sessions_view() == Seq::<NatSession>::empty(),
    {
        NatManager::new()
    }
}

/// A disabled rule matches no packet, and a rule without criteria matches
/// every packet while it is enabled.
pub proof fn lemma_rule_criteria(rule: NatRule, p: PacketInfo)
    ensures
        !rule.enabled ==> !rule_matches(rule, p),
        rule.enabled && rule.src_address is None && rule.dst_address is None && rule.dst_port is None
            && rule.protocol is None ==> rule_matches(rule, p),
{
}

/// Cleaning up never adds sessions: every kept session was there before and
/// is fresh.
pub proof fn lemma_cleanup_keeps_only_fresh(ss: Seq<NatSession>, now: i64, timeout: i64)
    ensures
        fresh_sessions(ss, now, timeout).len() <= ss.len(),
        forall|k: int|
            0 <= k < fresh_sessions(ss, now, timeout).len() ==> session_fresh(
                #[trigger] fresh_sessions(ss, now, timeout)[k],
                now,
                timeout,
            ) && ss.contains(fresh_sessions(ss, now, timeout)[k]),
    decreases ss.len(),
{
    if ss.len() > 0 {
        lemma_cleanup_keeps_only_fresh(ss.drop_last(), now, timeout);
        let rest = fresh_sessions(ss.drop_last(), now, timeout);
        assert forall|k: int| 0 <= k < fresh_sessions(ss, now, timeout).len() implies session_fresh(
            #[trigger] fresh_sessions(ss, now, timeout)[k],
            now,
            timeout,
        ) && ss.contains(fresh_sessions(ss, now, timeout)[k]) by {
            if k < rest.len() {
                assert(fresh_sessions(ss, now, timeout)[k] == rest[k]);
                let w = choose|w: int| 0 <= w < ss.drop_last().len() && ss.drop_last()[w] == rest[k];
                assert(ss[w] == rest[k]);
            } else {
                assert(ss[ss.len() - 1] == ss.last());
            }
        }
    }
}

/// A rule that names a protocol never matches a packet of another
/// protocol, and one that names a destination port never matches a packet
/// to another port.
pub proof fn lemma_protocol_and_port_must_agree(rule: NatRule, p: PacketInfo)
    ensures
        rule.protocol matches Some(proto) && p.protocol@ != proto@ ==> !rule_matches(rule, p),
        rule.dst_port matches Some(port) && p.dst_port != port ==> !rule_matches(rule, p),
        rule_matches(rule, p) && rule.protocol is Some ==> p.protocol@ == rule.protocol->0@,
{
}

} // verus!
