//! Web application firewall: regular-expression rules over the URL, the
//! headers and the body of HTTP requests, evaluated by priority.
use vstd::prelude::*;
use vstd::multiset::Multiset;
use crate::clock;
use crate::ids::new_v4;
use crate::text::{copy, owned};

verus! {

/// What the `regex` crate answers for a pattern and a text: `None` when the
/// pattern does not compile, else whether it matches somewhere in the text.
pub uninterp spec fn regex_outcome(pattern: Seq<char>, text: Seq<char>) -> Option<bool>;

/// Compiles `pattern` with `regex::Regex::new` and, when it compiles, asks
/// `Regex::is_match` about `text`.  The answer depends on the two texts only;
/// it is named, not described.
#[verifier::external_body]
fn regex_is_match(pattern: &str, text: &str) -> (r: Option<bool>)
    ensures
        r == regex_outcome(pattern@, text@),
{
    match regex::Regex::new(pattern) {
        Ok(re) => Some(re.is_match(text)),
        Err(_) => None,
    }
}

/// The attack class a rule is for.
#[derive(PartialEq, Eq, Structural, Clone, Copy, Debug)]
pub enum WafRuleType {
    SqlInjection,
    CrossSiteScripting,
    PathTraversal,
    CommandInjection,
    RemoteFileInclusion,
    Custom,
}

/// What happens to a request that a rule matches.
#[derive(PartialEq, Eq, Structural, Clone, Copy, Debug)]
pub enum WafAction {
    Block,
    Alert,
    Log,
    Challenge,
}

/// A rule: a regular expression, an action and a priority.
#[derive(Debug)]
pub struct WafRule {
    pub id: u128,
    pub name: String,
    pub rule_type: WafRuleType,
    pub enabled: bool,
    pub pattern: String,
    pub action: WafAction,
    pub priority: u32,
    pub match_count: u64,
    pub block_count: u64,
    /// Creation time, in seconds since the Unix epoch.
    pub created_at: i64,
    /// Time of the last match, in seconds since the Unix epoch.
    pub last_matched: Option<i64>,
}

/// The parts of an HTTP request the rules look at.
#[derive(Debug)]
pub struct HttpRequest {
    pub method: String,
    pub url: String,
    /// Header names and values.
    pub headers: Vec<(String, String)>,
    pub body: Option<String>,
    pub client_ip: String,
}

/// A recorded rule match.
#[derive(Debug)]
pub struct WafEvent {
    pub id: u128,
    pub rule_id: u128,
    pub rule_name: String,
    pub action: WafAction,
    pub client_ip: String,
    pub url: String,
    pub matched_pattern: String,
    /// In seconds since the Unix epoch.
    pub timestamp: i64,
}

/// The verdict on a request.
#[derive(Debug)]
pub struct WafDecision {
    pub allowed: bool,
    pub action: WafAction,
    pub rule_id: Option<u128>,
    pub rule_name: Option<String>,
}

/// Counters over rules and events.
#[derive(PartialEq, Eq, Structural, Clone, Copy, Debug)]
pub struct WafStats {
    pub total_rules: usize,
    pub enabled_rules: usize,
    pub total_matches: u64,
    pub total_blocks: u64,
    pub recent_events: usize,
}

/// Why a WAF request was refused.
#[derive(PartialEq, Eq, Structural, Clone, Copy, Debug)]
pub enum WafError {
    RuleNotFound,
}

/// Whether the pattern compiles and matches the text.
pub open spec fn hits(pattern: Seq<char>, text: Seq<char>) -> bool {
    regex_outcome(pattern, text) == Some(true)
}

/// Whether an enabled rule's pattern compiles and matches the URL, a header
/// value or the body.
pub open spec fn rule_matches(rule: WafRule, req: HttpRequest) -> bool {
    rule.enabled && regex_outcome(rule.pattern@, req.url@) is Some && (hits(rule.pattern@, req.url@)
        || header_hit(rule.pattern@, req) || body_hit(rule.pattern@, req))
}

/// Whether the pattern matches some header value.
pub open spec fn header_hit(pattern: Seq<char>, req: HttpRequest) -> bool {
    exists|j: int| 0 <= j < req.headers@.len() && hits(pattern, (#[trigger] req.headers@[j]).1@)
}

/// Whether there is a body and the pattern matches it.
pub open spec fn body_hit(pattern: Seq<char>, req: HttpRequest) -> bool {
    match req.body {
        Some(b) => hits(pattern, b@),
        None => false,
    }
}

fn pattern_hits(pattern: &str, text: &str) -> (b: bool)
    ensures
        b == hits(pattern@, text@),
{
    match regex_is_match(pattern, text) {
        Some(b) => b,
        None => false,
    }
}

impl WafRule {
    /// An enabled rule of priority 100, created now, with a fresh random id.
    pub fn new(name: &str, rule_type: WafRuleType, pattern: &str, action: WafAction) -> (r: WafRule)
        ensures
            r.name@ == name@,
            r.rule_type == rule_type,
            r.enabled,
            r.pattern@ == pattern@,
            r.action == action,
            r.priority == 100,
            r.match_count == 0,
            r.block_count == 0,
            r.last_matched is None,
    {
        WafRule {
            id: new_v4(),
            name: owned(name),
            rule_type,
            enabled: true,
            pattern: owned(pattern),
            action,
            priority: 100,
            match_count: 0,
            block_count: 0,
            created_at: clock::now(),
            last_matched: None,
        }
    }

    /// The same rule with another priority.
    pub fn with_priority(self, priority: u32) -> (r: WafRule)
        ensures
            r == (WafRule { priority, ..self }),
    {
        let mut s = self;
        s.priority = priority;
        s
    }

    /// Whether the rule is enabled, its pattern compiles, and it matches the
    /// URL, a header value or the body.
    pub fn matches(&self, request: &HttpRequest) -> (b: bool)
        ensures
            b == rule_matches(*self, *request),
    {
        if !self.enabled {
            return false;
        }
        match regex_is_match(self.pattern.as_str(), request.url.as_str()) {
            None => {
                return false;
            },
            Some(b) => {
                if b {
                    return true;
                }
            },
        }
        let mut j: usize = 0;
        while j < request.headers.len()
            invariant
                0 <= j <= request.headers.len(),
                self.enabled,
                regex_outcome(self.pattern@, request.url@) == Some(false),
                forall|k: int| 0 <= k < j ==> !hits(self.pattern@, (#[trigger] request.headers@[k]).1@),
            decreases request.headers.len() - j,
        {
            if pattern_hits(self.pattern.as_str(), request.headers[j].1.as_str()) {
                return true;
            }
            j = j + 1;
        }
        match &request.body {
            Some(body) => pattern_hits(self.pattern.as_str(), body.as_str()),
            None => false,
        }
    }

    /// A copy of the rule.
    pub fn copy(&self) -> (r: WafRule)
        ensures
            r == *self,
    {
        WafRule {
            id: self.id,
            name: self.name.clone(),
            rule_type: self.rule_type,
            enabled: self.enabled,
            pattern: self.pattern.clone(),
            action: self.action,
            priority: self.priority,
            match_count: self.match_count,
            block_count: self.block_count,
            created_at: self.created_at,
            last_matched: self.last_matched,
        }
    }
}

impl WafEvent {
    /// A copy of the event.
    pub fn copy(&self) -> (e: WafEvent)
        ensures
            e == *self,
    {
        WafEvent {
            id: self.id,
            rule_id: self.rule_id,
            rule_name: self.rule_name.clone(),
            action: self.action,
            client_ip: self.client_ip.clone(),
            url: self.url.clone(),
            matched_pattern: self.matched_pattern.clone(),
            timestamp: self.timestamp,
        }
    }
}

/// Rule `k` is the one evaluation settles on: it matches, and no rule of
/// higher priority, nor an earlier one of the same priority, matches.
pub open spec fn decisive_rule(rules: Seq<WafRule>, req: HttpRequest, k: int) -> bool {
    &&& 0 <= k < rules.len()
    &&& rule_matches(rules[k], req)
    &&& forall|j: int|
        0 <= j < rules.len() && rule_matches(#[trigger] rules[j], req) ==> rules[j].priority < rules[k].priority
            || (rules[j].priority == rules[k].priority && k <= j)
}

/// The event log after appending `e` and keeping the newest `max` events.
pub open spec fn log_after(events: Seq<WafEvent>, e: WafEvent, max: usize) -> Seq<WafEvent> {
    let all = events.push(e);
    if all.len() > max {
        all.subrange(all.len() - max, all.len() as int)
    } else {
        all
    }
}

/// Non-increasing priorities.
pub open spec fn by_priority(rs: Seq<WafRule>) -> bool {
    forall|a: int, b: int| 0 <= a < b < rs.len() ==> (#[trigger] rs[a]).priority >= (#[trigger] rs[b]).priority
}

pub open spec fn match_sum(rules: Seq<WafRule>) -> int
    decreases rules.len(),
{
    if rules.len() == 0 {
        0
    } else {
        match_sum(rules.drop_last()) + rules.last().match_count
    }
}

pub open spec fn block_sum(rules: Seq<WafRule>) -> int
    decreases rules.len(),
{
    if rules.len() == 0 {
        0
    } else {
        block_sum(rules.drop_last()) + rules.last().block_count
    }
}

pub open spec fn enabled_count(rules: Seq<WafRule>) -> int
    decreases rules.len(),
{
    if rules.len() == 0 {
        0
    } else {
        enabled_count(rules.drop_last()) + if rules.last().enabled { 1int } else { 0 }
    }
}

/// Rule ids are unique.
pub open spec fn waf_ids_unique(rules: Seq<WafRule>) -> bool {
    forall|i: int, j: int|
        0 <= i < rules.len() && 0 <= j < rules.len() && i != j ==> (#[trigger] rules[i]).id != (#[trigger] rules[j]).id
}

/// The rules once `r` is added: it replaces the rule of its id, or comes
/// last.
pub open spec fn with_rule(rs: Seq<WafRule>, r: WafRule) -> Seq<WafRule> {
    if exists|i: int| 0 <= i < rs.len() && rs[i].id == r.id {
        rs.update(choose|i: int| 0 <= i < rs.len() && rs[i].id == r.id, r)
    } else {
        rs.push(r)
    }
}

/// A new rule with these settings: enabled, never matched.
pub open spec fn fresh_rule(
    r: WafRule,
    name: Seq<char>,
    rule_type: WafRuleType,
    pattern: Seq<char>,
    action: WafAction,
    priority: u32,
) -> bool {
    &&& r.name@ == name
    &&& r.rule_type == rule_type
    &&& r.enabled
    &&& r.pattern@ == pattern
    &&& r.action == action
    &&& r.priority == priority
    &&& r.match_count == 0
    &&& r.block_count == 0
    &&& r.last_matched is None
}

/// The default rules, in the order they are added.
pub open spec fn default_rules(a: WafRule, b: WafRule, c: WafRule, d: WafRule, e: WafRule) -> bool {
    &&& fresh_rule(
        a,
        "SQL Injection Detection"@,
        WafRuleType::SqlInjection,
        "(?i)(union.*select|select.*from|insert.*into|delete.*from|update.*set|drop.*table|exec\\s*\\(|script|javascript|onload)"@,
        WafAction::Block,
        200,
    )
    &&& fresh_rule(
        b,
        "Cross-Site Scripting (XSS)"@,
        WafRuleType::CrossSiteScripting,
        "(?i)(<script|javascript:|onerror=|onload=|onclick=|<iframe|<object|<embed)"@,
        WafAction::Block,
        200,
    )
    &&& fresh_rule(c, "Path Traversal Detection"@, WafRuleType::PathTraversal, "(\\.\\./|\\.\\\\.)"@, WafAction::Block, 180)
    &&& fresh_rule(
        d,
        "Command Injection Detection"@,
        WafRuleType::CommandInjection,
        "(?i)(;|\\||&|`|\\$\\(|>\\s*/|\\bcat\\b|\\bls\\b|\\bwhoami\\b|\\bpwd\\b)"@,
        WafAction::Block,
        180,
    )
    &&& fresh_rule(
        e,
        "Remote File Inclusion"@,
        WafRuleType::RemoteFileInclusion,
        "(?i)(http://|https://|ftp://|file://|php://)"@,
        WafAction::Alert,
        150,
    )
}

/// The rules, in order of addition, and a bounded log of recent matches.
pub struct WafManager {
    rules: Vec<WafRule>,
    events: Vec<WafEvent>,
    max_events: usize,
}

impl WafManager {
    pub closed spec fn rules_view(&self) -> Seq<WafRule> {
        self.rules@
    }

    pub closed spec fn events_view(&self) -> Seq<WafEvent> {
        self.events@
    }

    pub closed spec fn max_events_view(&self) -> usize {
        self.max_events
    }

    pub closed spec fn wf(&self) -> bool {
        waf_ids_unique(self.rules@)
    }

    /// No rules, no events, and a log of at most 10000 events.
    pub fn new() -> (m: WafManager)
        ensures
            m.wf(),
            m.rules_view() == Seq::<WafRule>::empty(),
            m.events_view() == Seq::<WafEvent>::empty(),
            m.max_events_view() == 10000,
    {
        WafManager { rules: Vec::new(), events: Vec::new(), max_events: 10000 }
    }

    /// The same manager with another bound on the event log.
    pub fn with_max_events(self, max: usize) -> (m: WafManager)
        requires
            self.wf(),
        ensures
            m.wf(),
            m.rules_view() == self.rules_view(),
            m.events_view() == self.events_view(),
            m.max_events_view() == max,
    {
        let mut s = self;
        s.max_events = max;
        s
    }

    fn find(&self, id: &u128) -> (r: Option<usize>)
        ensures
            r matches Some(i) ==> i < self.rules@.len() && self.rules@[i as int].id == *id,
            r is None ==> forall|i: int| 0 <= i < self.rules@.len() ==> (#[trigger] self.rules@[i]).id != *id,
    {
        let mut i: usize = 0;
        while i < self.rules.len()
            invariant
                0 <= i <= self.rules.len(),
                forall|k: int| 0 <= k < i ==> (#[trigger] self.rules@[k]).id != *id,
            decreases self.rules.len() - i,
        {
            if self.rules[i].id == *id {
                return Some(i);
            }
            i = i + 1;
        }
        None
    }

    /// Adds a rule, replacing one with the same id in its place.
    pub fn add_rule(&mut self, rule: WafRule) -> (id: u128)
        requires
            old(self).wf(),
        ensures
            final(self).wf(),
            id == rule.id,
            (exists|i: int| 0 <= i < old(self).rules_view().len() && old(self).rules_view()[i].id == rule.id)
                ==> (exists|i: int| 0 <= i < old(self).rules_view().len() && old(self).rules_view()[i].id == rule.id
                && final(self).rules_view() == old(self).rules_view().update(i, rule)),
            (forall|i: int| 0 <= i < old(self).rules_view().len() ==> old(self).rules_view()[i].id != rule.id)
                ==> final(self).rules_view() == old(self).rules_view().push(rule),
            final(self).rules_view() == with_rule(old(self).rules_view(), rule),
            final(self).events_view() == old(self).events_view(),
            final(self).max_events_view() == old(self).max_events_view(),
    {
        let id = rule.id;
        let ghost old_rules = self.rules@;
        let ghost g_rule = rule;
        match self.find(&id) {
            Some(i) => {
                self.rules.set(i, rule);
                proof {
                    let c = choose|j: int| 0 <= j < old_rules.len() && old_rules[j].id == g_rule.id;
                    assert(0 <= c < old_rules.len() && old_rules[c].id == g_rule.id);
                    if c != i {
                        assert(old_rules[c].id != old_rules[i as int].id);
                    }
                    assert forall|a: int, b: int|
                        0 <= a < self.rules@.len() && 0 <= b < self.rules@.len() && a != b implies (
                        #[trigger] self.rules@[a]).id != (#[trigger] self.rules@[b]).id by {
                        if a != i {
                            assert(self.rules@[a] == old_rules[a]);
                        }
                        if b != i {
                            assert(self.rules@[b] == old_rules[b]);
                        }
                    }
                }
            },
            None => {
                self.rules.push(rule);
                proof {
                    assert forall|a: int, b: int|
                        0 <= a < self.rules@.len() && 0 <= b < self.rules@.len() && a != b implies (
                        #[trigger] self.rules@[a]).id != (#[trigger] self.rules@[b]).id by {
                        if a < old_rules.len() {
                            assert(self.rules@[a] == old_rules[a]);
                        }
                        if b < old_rules.len() {
                            assert(self.rules@[b] == old_rules[b]);
                        }
                    }
                }
            },
        }
        id
    }

    /// Removes the rule with that id.
    pub fn remove_rule(&mut self, id: &u128) -> (r: Result<(), WafError>)
        requires
            old(self).wf(),
        ensures
            final(self).wf(),
            (forall|i: int| 0 <= i < old(self).rules_view().len() ==> old(self).rules_view()[i].id != *id)
                ==> r == Err::<(), WafError>(WafError::RuleNotFound) && final(self).rules_view()
                == old(self).rules_view(),
            (exists|i: int| 0 <= i < old(self).rules_view().len() && old(self).rules_view()[i].id == *id)
                ==> r is Ok && exists|i: int|
                0 <= i < old(self).rules_view().len() && old(self).rules_view()[i].id == *id
                    && final(self).rules_view() == old(self).rules_view().remove(i),
            final(self).events_view() == old(self).events_view(),
            final(self).max_events_view() == old(self).max_events_view(),
    {
        match self.find(id) {
            None => Err(WafError::RuleNotFound),
            Some(i) => {
                let ghost old_rules = self.rules@;
                self.rules.remove(i);
                proof {
                    assert forall|a: int, b: int|
                        0 <= a < self.rules@.len() && 0 <= b < self.rules@.len() && a != b implies (
                        #[trigger] self.rules@[a]).id != (#[trigger] self.rules@[b]).id by {
                        let oa = if a < i { a } else { a + 1 };
                        let ob = if b < i { b } else { b + 1 };
                        assert(self.rules@[a] == old_rules[oa]);
                        assert(self.rules@[b] == old_rules[ob]);
                    }
                }
                Ok(())
            },
        }
    }

    /// A copy of the rule with that id.
    pub fn get_rule(&self, id: &u128) -> (r: Option<WafRule>)
        ensures
            r matches Some(x) ==> exists|i: int| 0 <= i < self.rules_view().len() && self.rules_view()[i] == x && x.id == *id,
            r is None ==> forall|i: int| 0 <= i < self.rules_view().len() ==> self.rules_view()[i].id != *id,
    {
        match self.find(id) {
            Some(i) => Some(self.rules[i].copy()),
            None => None,
        }
    }

    /// Copies of all rules, highest priority first.
    pub fn list_rules(&self) -> (rs: Vec<WafRule>)
        ensures
            rs@.to_multiset() == self.rules_view().to_multiset(),
            by_priority(rs@),
    {
        broadcast use vstd::seq_lib::group_to_multiset_ensures;
        let mut rest: Vec<WafRule> = Vec::new();
        let mut i: usize = 0;
        while i < self.rules.len()
            invariant
                0 <= i <= self.rules.len(),
                rest@ == self.rules@.subrange(0, i as int),
            decreases self.rules.len() - i,
        {
            rest.push(self.rules[i].copy());
            proof {
                assert(rest@ =~= self.rules@.subrange(0, i + 1));
            }
            i = i + 1;
        }
        proof {
            assert(self.rules@.subrange(0, self.rules@.len() as int) == self.rules@);
        }
        let mut out: Vec<WafRule> = Vec::new();
        while rest.len() > 0
            invariant
                out@.to_multiset().add(rest@.to_multiset()) == self.rules@.to_multiset(),
                by_priority(out@),
                forall|a: int, b: int| 0 <= a < out@.len() && 0 <= b < rest@.len() ==> (#[trigger] out@[a]).priority >= (#[trigger] rest@[b]).priority,
            decreases rest.len(),
        {
            let mut best: usize = 0;
            let mut k: usize = 1;
            while k < rest.len()
                invariant
                    1 <= k <= rest.len(),
                    0 <= best < k,
                    forall|j: int| 0 <= j < k ==> rest@[best as int].priority >= (#[trigger] rest@[j]).priority,
                decreases rest.len() - k,
            {
                if rest[k].priority > rest[best].priority {
                    best = k;
                }
                k = k + 1;
            }
            let ghost old_rest = rest@;
            let ghost old_out = out@;
            let r = rest.remove(best);
            out.push(r);
            proof {
                old_rest.to_multiset_ensures();
                old_out.to_multiset_ensures();
                assert(rest@ == old_rest.remove(best as int));
                assert(out@ == old_out.push(r));
                assert(old_rest.remove(best as int).to_multiset() == old_rest.to_multiset().remove(old_rest[best as int]));
                assert(out@.to_multiset() == old_out.to_multiset().insert(r));
                assert(out@.to_multiset().add(rest@.to_multiset()) =~= old_out.to_multiset().add(
                    old_rest.to_multiset(),
                ));
                assert forall|a: int, b: int| 0 <= a < b < out@.len() implies (#[trigger] out@[a]).priority
                    >= (#[trigger] out@[b]).priority by {
                    if b == old_out.len() {
                        assert(out@[a] == old_out[a]);
                    } else {
                        assert(out@[a] == old_out[a] && out@[b] == old_out[b]);
                    }
                }
                assert forall|a: int, b: int| 0 <= a < out@.len() && 0 <= b < rest@.len() implies (
                    #[trigger] out@[a]).priority >= (#[trigger] rest@[b]).priority by {
                    let ob = if b < best { b } else { b + 1 };
                    assert(rest@[b] == old_rest[ob]);
                    if a < old_out.len() {
                        assert(out@[a] == old_out[a]);
                    }
                }
            }
        }
        proof {
            assert(rest@.to_multiset() =~= Multiset::empty());
            assert(out@.to_multiset().add(Multiset::empty()) =~= out@.to_multiset());
        }
        out
    }

    fn record_event(&mut self, event: WafEvent)
        ensures
            final(self).events_view() == log_after(old(self).events_view(), event, old(self).max_events),
            final(self).rules_view() == old(self).rules_view(),
            final(self).max_events_view() == old(self).max_events_view(),
    {
        let ghost all = self.events@.push(event);
        self.events.push(event);
        if self.events.len() > self.max_events {
            let drop = self.events.len() - self.max_events;
            let mut kept: Vec<WafEvent> = Vec::new();
            let mut i: usize = drop;
            let ghost start = drop as int;
            while i < self.events.len()
                invariant
                    drop <= i <= self.events.len(),
                    self.events@ == all,
                    start == drop,
                    kept@ == all.subrange(start, i as int),
                decreases self.events.len() - i,
            {
                kept.push(self.events[i].copy());
                proof {
                    assert(kept@ =~= all.subrange(start, i + 1));
                }
                i = i + 1;
            }
            self.events = kept;
        }
    }

    /// Evaluates a request against the rules, highest priority first: the
    /// first matching rule counts the match (and the block, for a blocking
    /// rule), logs an event and decides; a request that no rule matches is
    /// allowed with the action `Log`.
    pub fn evaluate_request(&mut self, request: &HttpRequest) -> (d: WafDecision)
        requires
            old(self).wf(),
            forall|i: int|
                0 <= i < old(self).rules_view().len() ==> (#[trigger] old(self).rules_view()[i]).match_count
                    < u64::MAX && old(self).rules_view()[i].block_count < u64::MAX,
        ensures
            final(self).wf(),
            final(self).max_events_view() == old(self).max_events_view(),
            (forall|k: int| 0 <= k < old(self).rules_view().len() ==> !rule_matches(#[trigger] old(self).rules_view()[k], *request))
                ==> d.allowed && d.action == WafAction::Log && d.rule_id is None && d.rule_name is None
                && final(self).rules_view() == old(self).rules_view() && final(self).events_view()
                == old(self).events_view(),
            forall|k: int| decisive_rule(old(self).rules_view(), *request, k) ==> {
                let o = old(self).rules_view()[k];
                let n = final(self).rules_view()[k];
                &&& d.allowed == (o.action != WafAction::Block)
                &&& d.action == o.action
                &&& d.rule_id == Some(o.id)
                &&& d.rule_name matches Some(nm) && nm@ == o.name@
                &&& final(self).rules_view().len() == old(self).rules_view().len()
                &&& forall|j: int| 0 <= j < old(self).rules_view().len() && j != k ==> final(self).rules_view()[j] == old(self).rules_view()[j]
                &&& n == (WafRule {
                    match_count: (o.match_count + 1) as u64,
                    block_count: if o.action == WafAction::Block { (o.block_count + 1) as u64 } else { o.block_count },
                    last_matched: n.last_matched,
                    ..o
                })
                &&& n.last_matched is Some
                &&& exists|e: WafEvent| {
                    &&& e.rule_id == o.id
                    &&& e.rule_name@ == o.name@
                    &&& e.action == o.action
                    &&& e.client_ip@ == request.client_ip@
                    &&& e.url@ == request.url@
                    &&& e.matched_pattern@ == o.pattern@
                    &&& final(self).events_view() == log_after(old(self).events_view(), e, old(self).max_events_view())
                }
            },
    {
        let n = self.rules.len();
        let mut best: Option<usize> = None;
        let mut i: usize = 0;
        while i < n
            invariant
                0 <= i <= n == self.rules@.len(),
                best matches Some(b) ==> b < i && rule_matches(self.rules@[b as int], *request)
                    && forall|j: int| 0 <= j < i && rule_matches(#[trigger] self.rules@[j], *request)
                    ==> self.rules@[j].priority < self.rules@[b as int].priority
                    || (self.rules@[j].priority == self.rules@[b as int].priority && b <= j),
                best is None ==> forall|j: int| 0 <= j < i ==> !rule_matches(#[trigger] self.rules@[j], *request),
            decreases n - i,
        {
            if self.rules[i].matches(request) {
                match best {
                    None => {
                        best = Some(i);
                    },
                    Some(b) => {
                        if self.rules[i].priority > self.rules[b].priority {
                            best = Some(i);
                        }
                    },
                }
            }
            i = i + 1;
        }
        match best {
            None => WafDecision { allowed: true, action: WafAction::Log, rule_id: None, rule_name: None },
            Some(k) => {
                let ghost old_rules = self.rules@;
                proof {
                    assert(decisive_rule(old_rules, *request, k as int));
                    assert forall|k2: int| decisive_rule(old_rules, *request, k2) implies k2 == k by {
                        assert(rule_matches(old_rules[k as int], *request));
                        assert(rule_matches(old_rules[k2], *request));
                    }
                }
                let mut rule = self.rules.remove(k);
                rule.match_count = rule.match_count + 1;
                rule.last_matched = Some(clock::now());
                let action = rule.action;
                if action == WafAction::Block {
                    rule.block_count = rule.block_count + 1;
                }
                let rule_id = rule.id;
                let rule_name = copy(&rule.name);
                let matched_pattern = copy(&rule.pattern);
                self.rules.insert(k, rule);
                proof {
                    assert forall|j: int| 0 <= j < old_rules.len() && j != k implies self.rules@[j] == old_rules[j] by {}
                    assert forall|a: int, b: int|
                        0 <= a < self.rules@.len() && 0 <= b < self.rules@.len() && a != b implies (
                        #[trigger] self.rules@[a]).id != (#[trigger] self.rules@[b]).id by {
                        assert(self.rules@[a].id == old_rules[a].id);
                        assert(self.rules@[b].id == old_rules[b].id);
                    }
                }
                let event = WafEvent {
                    id: new_v4(),
                    rule_id,
                    rule_name: copy(&rule_name),
                    action,
                    client_ip: copy(&request.client_ip),
                    url: copy(&request.url),
                    matched_pattern,
                    timestamp: clock::now(),
                };
                let ghost ev = event;
                self.record_event(event);
                proof {
                    assert(final(self).events_view() == log_after(old(self).events_view(), ev, old(self).max_events_view()));
                }
                WafDecision {
                    allowed: action != WafAction::Block,
                    action,
                    rule_id: Some(rule_id),
                    rule_name: Some(rule_name),
                }
            },
        }
    }

    /// The newest events first, at most `limit` of them (100 when no limit is
    /// given).
    pub fn get_events(&self, limit: Option<usize>) -> (es: Vec<WafEvent>)
        ensures
            ({
                let lim = match limit {
                    Some(l) => l,
                    None => 100usize,
                };
                let n = if lim < self.events_view().len() { lim as int } else { self.events_view().len() as int };
                &&& es@.len() == n
                &&& forall|k: int| 0 <= k < n ==> #[trigger] es@[k] == self.events_view()[self.events_view().len() - 1 - k]
            }),
    {
        let lim = match limit {
            Some(l) => l,
            None => 100,
        };
        let len = self.events.len();
        let n = if lim < len { lim } else { len };
        let mut out: Vec<WafEvent> = Vec::new();
        let mut k: usize = 0;
        while k < n
            invariant
                0 <= k <= n <= len == self.events@.len(),
                out@.len() == k,
                forall|j: int| 0 <= j < k ==> #[trigger] out@[j] == self.events@[len - 1 - j],
            decreases n - k,
        {
            out.push(self.events[len - 1 - k].copy());
            k = k + 1;
        }
        out
    }

    /// Counters over rules and events.
    pub fn get_stats(&self) -> (s: WafStats)
        requires
            match_sum(self.rules_view()) <= u64::MAX,
            block_sum(self.rules_view()) <= u64::MAX,
        ensures
            s.total_rules == self.rules_view().len(),
            s.enabled_rules == enabled_count(self.rules_view()),
            s.total_matches == match_sum(self.rules_view()),
            s.total_blocks == block_sum(self.rules_view()),
            s.recent_events == self.events_view().len(),
    {
        let mut matches: u64 = 0;
        let mut blocks: u64 = 0;
        let mut enabled: usize = 0;
        let mut i: usize = 0;
        while i < self.rules.len()
            invariant
                0 <= i <= self.rules.len(),
                match_sum(self.rules@) <= u64::MAX,
                block_sum(self.rules@) <= u64::MAX,
                matches == match_sum(self.rules@.subrange(0, i as int)),
                blocks == block_sum(self.rules@.subrange(0, i as int)),
                enabled == enabled_count(self.rules@.subrange(0, i as int)),
                enabled <= i,
            decreases self.rules.len() - i,
        {
            proof {
                assert(self.rules@.subrange(0, i + 1).drop_last() == self.rules@.subrange(0, i as int));
                lemma_waf_sums_prefix(self.rules@, i + 1);
            }
            matches = matches + self.rules[i].match_count;
            blocks = blocks + self.rules[i].block_count;
            if self.rules[i].enabled {
                enabled = enabled + 1;
            }
            i = i + 1;
        }
        proof {
            assert(self.rules@.subrange(0, self.rules@.len() as int) == self.rules@);
        }
        WafStats {
            total_rules: self.rules.len(),
            enabled_rules: enabled,
            total_matches: matches,
            total_blocks: blocks,
            recent_events: self.events.len(),
        }
    }

    /// Adds the default rules: SQL injection and cross-site scripting
    /// (blocking, priority 200), path traversal and command injection
    /// (blocking, priority 180), remote file inclusion (alerting, priority
    /// 150).
    pub fn load_default_rules(&mut self)
        requires
            old(self).wf(),
        ensures
            final(self).wf(),
            exists|a: WafRule, b: WafRule, c: WafRule, d: WafRule, e: WafRule|
                #![trigger default_rules(a, b, c, d, e)]
                default_rules(a, b, c, d, e) && final(self).rules_view() == with_rule(
                    with_rule(with_rule(with_rule(with_rule(old(self).rules_view(), a), b), c), d),
                    e,
                ),
            final(self).events_view() == old(self).events_view(),
            final(self).max_events_view() == old(self).max_events_view(),
    {
        let sql_injection = WafRule::new(
            "SQL Injection Detection",
            WafRuleType::SqlInjection,
            "(?i)(union.*select|select.*from|insert.*into|delete.*from|update.*set|drop.*table|exec\\s*\\(|script|javascript|onload)",
            WafAction::Block,
        ).with_priority(200);
        let xss = WafRule::new(
            "Cross-Site Scripting (XSS)",
            WafRuleType::CrossSiteScripting,
            "(?i)(<script|javascript:|onerror=|onload=|onclick=|<iframe|<object|<embed)",
            WafAction::Block,
        ).with_priority(200);
        let path_traversal = WafRule::new(
            "Path Traversal Detection",
            WafRuleType::PathTraversal,
            "(\\.\\./|\\.\\\\.)",
            WafAction::Block,
        ).with_priority(180);
        let cmd_injection = WafRule::new(
            "Command Injection Detection",
            WafRuleType::CommandInjection,
            "(?i)(;|\\||&|`|\\$\\(|>\\s*/|\\bcat\\b|\\bls\\b|\\bwhoami\\b|\\bpwd\\b)",
            WafAction::Block,
        ).with_priority(180);
        let rfi = WafRule::new(
            "Remote File Inclusion",
            WafRuleType::RemoteFileInclusion,
            "(?i)(http://|https://|ftp://|file://|php://)",
            WafAction::Alert,
        ).with_priority(150);
        let ghost (a, b, c, d, e) = (sql_injection, xss, path_traversal, cmd_injection, rfi);
        self.add_rule(sql_injection);
        self.add_rule(xss);
        self.add_rule(path_traversal);
        self.add_rule(cmd_injection);
        self.add_rule(rfi);
        proof {
            assert(default_rules(a, b, c, d, e));
        }
    }
}

proof fn lemma_waf_sums_prefix(rules: Seq<WafRule>, n: int)
    requires
        0 <= n <= rules.len(),
    ensures
        match_sum(rules.subrange(0, n)) <= match_sum(rules),
        block_sum(rules.subrange(0, n)) <= block_sum(rules),
        match_sum(rules) >= 0,
        block_sum(rules) >= 0,
    decreases rules.len(),
{
    if rules.len() > 0 {
        if n == rules.len() {
            assert(rules.subrange(0, n) == rules);
            lemma_waf_sums_prefix(rules.drop_last(), 0);
        } else {
            assert(rules.drop_last().subrange(0, n) == rules.subrange(0, n));
            lemma_waf_sums_prefix(rules.drop_last(), n);
        }
    }
}

impl Default for WafManager {
    fn default() -> (m: WafManager)
        ensures
            m.wf(),
            m.rules_view() == Seq::<WafRule>::empty(),
            m.events_view() == Seq::<WafEvent>::empty(),
            m.max_events_view() == 10000,
    {
        WafManager::new()
    }
}

/// The event log never holds more than its bound: after recording an event
/// into a log of at most `max` events, at most `max` remain, the newest last.
pub proof fn lemma_event_log_bounded(events: Seq<WafEvent>, e: WafEvent, max: usize)
    requires
        events.len() <= max,
        max > 0,
    ensures
        log_after(events, e, max).len() <= max,
        log_after(events, e, max).last() == e,
{
}

/// The event log never grows beyond its bound, whatever it held before.
pub proof fn lemma_event_log_never_exceeds(events: Seq<WafEvent>, e: WafEvent, max: usize)
    ensures
        log_after(events, e, max).len() <= max || log_after(events, e, max).len() == events.len() + 1
            && events.len() + 1 <= max,
        log_after(events, e, max).len() <= max,
{
}

/// A request is allowed exactly when its decisive rule does not block.
pub proof fn lemma_block_iff_decisive_block(rules: Seq<WafRule>, req: HttpRequest, k: int, k2: int)
    requires
        decisive_rule(rules, req, k),
        decisive_rule(rules, req, k2),
    ensures
        k == k2,
{
    assert(rule_matches(rules[k], req));
    assert(rule_matches(rules[k2], req));
}

/// An enabled rule whose pattern compiles matches a request as soon as the
/// pattern matches one of the request's header values, whatever the URL
/// and the body; and it matches nothing when the pattern matches neither
/// the URL, nor a header value, nor the body.
pub proof fn lemma_header_value_match_matches(rule: WafRule, req: HttpRequest, j: int)
    requires
        rule.enabled,
        regex_outcome(rule.pattern@, req.url@) is Some,
        0 <= j < req.headers@.len(),
        regex_outcome(rule.pattern@, req.headers@[j].1@) == Some(true),
    ensures
        rule_matches(rule, req),
{
    assert(hits(rule.pattern@, req.headers@[j].1@));
}

/// A rule matches only what its pattern matches: the URL, a header value
/// or the body.
pub proof fn lemma_match_needs_a_hit(rule: WafRule, req: HttpRequest)
    requires
        regex_outcome(rule.pattern@, req.url@) != Some(true),
        forall|j: int| 0 <= j < req.headers@.len() ==> regex_outcome(rule.pattern@, (#[trigger] req.headers@[j]).1@) != Some(true),
        match req.body {
            Some(b) => regex_outcome(rule.pattern@, b@) != Some(true),
            None => true,
        },
    ensures
        !rule_matches(rule, req),
{
}

/// An enabled rule whose pattern matches the URL matches the request.
pub proof fn lemma_url_match_matches(rule: WafRule, req: HttpRequest)
    requires
        rule.enabled,
        regex_outcome(rule.pattern@, req.url@) == Some(true),
    ensures
        rule_matches(rule, req),
{
}

/// An enabled rule whose pattern compiles and matches the body matches the
/// request.
pub proof fn lemma_body_match_matches(rule: WafRule, req: HttpRequest, b: String)
    requires
        rule.enabled,
        regex_outcome(rule.pattern@, req.url@) is Some,
        req.body == Some(b),
        regex_outcome(rule.pattern@, b@) == Some(true),
    ensures
        rule_matches(rule, req),
{
}

} // verus!
