//! Alerting: rules, the set of alerts that are firing, and what each
//! evaluation of a rule does to it; the texts and codes that notifications
//! carry; and the readings of system state that conditions are decided on.
use vstd::prelude::*;
use std::collections::HashMap;
use crate::text::{chars_of, copy, owned, parse_unsigned_range, parse_unsigned_spec, str_eq, trim, trim_end_range,
    trim_start_range};

verus! {

#[derive(PartialEq, Eq, Structural, Clone, Copy, Debug)]
pub enum AlertSeverity {
    Critical,
    Warning,
    Info,
}

/// A rule: a named condition, how serious it is, and for how long the
/// condition has to hold.  The condition itself is of the caller's type
/// `C`: deciding it reads the system and compares measurements.
#[derive(Clone, Debug)]
pub struct AlertRule<C> {
    pub name: String,
    pub severity: AlertSeverity,
    pub description: String,
    pub condition: C,
    /// In seconds.
    pub duration_secs: u64,
    pub enabled: bool,
}

/// Where notifications go.
#[derive(Clone, Debug)]
pub enum NotificationChannel {
    Email { to: Vec<String>, smtp_server: String, from: String },
    Slack { webhook_url: String, channel: String },
    Discord { webhook_url: String },
    PagerDuty { integration_key: String },
    Telegram { bot_token: String, chat_id: String },
    Webhook { url: String, method: String, headers: HashMap<String, String> },
    Syslog { server: String, facility: String },
}

/// An alert that is firing.
#[derive(Debug)]
pub struct FiredAlert {
    pub rule_name: String,
    pub severity: AlertSeverity,
    pub description: String,
    /// In seconds since the Unix epoch.
    pub fired_at: i64,
    pub details: HashMap<String, String>,
}

/// A fired alert as plain values; its details are always empty.
pub struct FiredModel {
    pub rule_name: Seq<char>,
    pub severity: AlertSeverity,
    pub description: Seq<char>,
    pub fired_at: i64,
}

impl View for FiredAlert {
    type V = FiredModel;

    open spec fn view(&self) -> FiredModel {
        FiredModel {
            rule_name: self.rule_name@,
            severity: self.severity,
            description: self.description@,
            fired_at: self.fired_at,
        }
    }
}

/// The alert that a rule fires at time `now`.
pub open spec fn alert_of<C>(rule: AlertRule<C>, now: i64) -> FiredModel {
    FiredModel { rule_name: rule.name@, severity: rule.severity, description: rule.description@, fired_at: now }
}

/// Whether an alert of that rule name is firing.
pub open spec fn is_firing(active: Seq<FiredModel>, name: Seq<char>) -> bool {
    exists|k: int| 0 <= k < active.len() && (#[trigger] active[k]).rule_name == name
}

/// No two firing alerts have the same rule name.
pub open spec fn names_unique(active: Seq<FiredModel>) -> bool {
    forall|a: int, b: int|
        0 <= a < active.len() && 0 <= b < active.len() && a != b ==> (#[trigger] active[a]).rule_name
            != (#[trigger] active[b]).rule_name
}

/// The position of the firing alert of a rule name, if any.
pub open spec fn firing_index(active: Seq<FiredModel>, name: Seq<char>) -> Option<int>
    decreases active.len(),
{
    if active.len() == 0 {
        None
    } else if active.last().rule_name == name {
        Some(active.len() - 1)
    } else {
        firing_index(active.drop_last(), name)
    }
}

/// Firing a rule's alert: nothing changes while one of that name fires;
/// else the alert joins the firing ones.
pub open spec fn fire_spec(active: Seq<FiredModel>, alert: FiredModel) -> Seq<FiredModel> {
    if is_firing(active, alert.rule_name) {
        active
    } else {
        active.push(alert)
    }
}

/// Resolving a rule's alert: the firing alert of that name leaves and is
/// handed back; without one nothing changes.
pub open spec fn resolve_spec(active: Seq<FiredModel>, name: Seq<char>) -> (Seq<FiredModel>, Option<FiredModel>) {
    match firing_index(active, name) {
        Some(k) => (active.remove(k), Some(active[k])),
        None => (active, None),
    }
}

proof fn lemma_firing_index(active: Seq<FiredModel>, name: Seq<char>)
    ensures
        match firing_index(active, name) {
            Some(k) => 0 <= k < active.len() && active[k].rule_name == name,
            None => !is_firing(active, name),
        },
    decreases active.len(),
{
    if active.len() > 0 {
        lemma_firing_index(active.drop_last(), name);
        if active.last().rule_name != name {
            if is_firing(active, name) {
                let k = choose|k: int| 0 <= k < active.len() && (#[trigger] active[k]).rule_name == name;
                assert(active.drop_last()[k] == active[k]);
            }
        }
    }
}

/// The rules, the notification channels, and the alerts that are firing.
pub struct AlertManager<C> {
    rules: Vec<AlertRule<C>>,
    channels: Vec<NotificationChannel>,
    active_alerts: Vec<FiredAlert>,
}

impl<C> AlertManager<C> {
    pub closed spec fn rules_view(&self) -> Seq<AlertRule<C>> {
        self.rules@
    }

    pub closed spec fn channels_view(&self) -> Seq<NotificationChannel> {
        self.channels@
    }

    /// The firing alerts.
    pub closed spec fn active_view(&self) -> Seq<FiredModel> {
        self.active_alerts@.map_values(|a: FiredAlert| a@)
    }

    /// At most one alert fires per rule name, and none carries details.
    pub closed spec fn wf(&self) -> bool {
        &&& names_unique(self.active_view())
        &&& forall|k: int|
            0 <= k < self.active_alerts@.len() ==> (#[trigger] self.active_alerts@[k]).details@
                == Map::<String, String>::empty()
    }

    /// No rules, no channels, nothing firing.
    pub fn new() -> (m: AlertManager<C>)
        ensures
            m.wf(),
            m.rules_view().len() == 0,
            m.channels_view().len() == 0,
            m.active_view().len() == 0,
    {
        let m = AlertManager { rules: Vec::new(), channels: Vec::new(), active_alerts: Vec::new() };
        proof {
            assert(m.active_view() =~= Seq::<FiredModel>::empty());
        }
        m
    }

    /// Adds a rule after the others.
    pub fn add_rule(&mut self, rule: AlertRule<C>)
        requires
            old(self).wf(),
        ensures
            final(self).wf(),
            final(self).rules_view() == old(self).rules_view().push(rule),
            final(self).channels_view() == old(self).channels_view(),
            final(self).active_view() == old(self).active_view(),
    {
        self.rules.push(rule);
    }

    /// Adds a notification channel after the others.
    pub fn add_channel(&mut self, channel: NotificationChannel)
        requires
            old(self).wf(),
        ensures
            final(self).wf(),
            final(self).channels_view() == old(self).channels_view().push(channel),
            final(self).rules_view() == old(self).rules_view(),
            final(self).active_view() == old(self).active_view(),
    {
        self.channels.push(channel);
    }

    /// The rules, in order.
    pub fn rules(&self) -> (r: &Vec<AlertRule<C>>)
        ensures
            r@ == self.rules_view(),
    {
        &self.rules
    }

    /// The notification channels, in order.
    pub fn channels(&self) -> (r: &Vec<NotificationChannel>)
        ensures
            r@ == self.channels_view(),
    {
        &self.channels
    }

    /// The positions of the enabled rules, in order: the rules that an
    /// evaluation checks.
    pub fn rules_to_check(&self) -> (r: Vec<usize>)
        ensures
            forall|k: int| 0 <= k < r@.len() ==> r@[k] < self.rules_view().len() && (#[trigger] self.rules_view()[r@[k] as int]).enabled,
            forall|a: int, b: int| 0 <= a < b < r@.len() ==> r@[a] < r@[b],
            forall|j: int| 0 <= j < self.rules_view().len() && (#[trigger] self.rules_view()[j]).enabled ==> r@.contains(j as usize),
    {
        let mut out: Vec<usize> = Vec::new();
        let mut i: usize = 0;
        while i < self.rules.len()
            invariant
                0 <= i <= self.rules@.len(),
                forall|k: int| 0 <= k < out@.len() ==> #[trigger] out@[k] < i && self.rules@[out@[k] as int].enabled,
                forall|a: int, b: int| 0 <= a < b < out@.len() ==> out@[a] < out@[b],
                forall|j: int| 0 <= j < i && (#[trigger] self.rules@[j]).enabled ==> out@.contains(j as usize),
            decreases self.rules.len() - i,
        {
            if self.rules[i].enabled {
                let ghost before = out@;
                out.push(i);
                proof {
                    assert forall|a: int, b: int| 0 <= a < b < out@.len() implies out@[a] < out@[b] by {
                        if b < before.len() {
                            assert(out@[a] == before[a] && out@[b] == before[b]);
                        } else {
                            assert(out@[a] == before[a]);
                        }
                    }
                    assert forall|j: int| 0 <= j < i + 1 && (#[trigger] self.rules@[j]).enabled implies out@.contains(
                        j as usize,
                    ) by {
                        if j < i {
                            let w = choose|w: int| 0 <= w < before.len() && before[w] == j as usize;
                            assert(out@[w] == j as usize);
                        } else {
                            assert(out@[out@.len() - 1] == j as usize);
                        }
                    }
                }
            }
            i = i + 1;
        }
        out
    }

    fn find_active(&self, name: &str) -> (r: Option<usize>)
        ensures
            match r {
                Some(k) => firing_index(self.active_view(), name@) == Some(k as int),
                None => firing_index(self.active_view(), name@) is None,
            },
    {
        let ghost act = self.active_view();
        let mut i: usize = self.active_alerts.len();
        proof {
            assert(act.take(i as int) =~= act);
        }
        while i > 0
            invariant
                0 <= i <= act.len(),
                act == self.active_view(),
                act.len() == self.active_alerts@.len(),
                firing_index(act, name@) == firing_index(act.take(i as int), name@),
            decreases i,
        {
            proof {
                assert(act.take(i as int).last() == act[i - 1]);
                assert(act.take(i as int).drop_last() =~= act.take(i - 1));
                assert(act[i - 1] == self.active_alerts@[i - 1]@);
            }
            if str_eq(self.active_alerts[i - 1].rule_name.as_str(), name) {
                return Some(i - 1);
            }
            i = i - 1;
        }
        None
    }

    /// Fires the alert of rule `index` at time `now` unless one of that
    /// name is firing already; hands back the new alert, to be sent to the
    /// channels.
    pub fn fire(&mut self, index: usize, now: i64) -> (r: Option<FiredAlert>)
        requires
            old(self).wf(),
            index < old(self).rules_view().len(),
        ensures
            final(self).wf(),
            final(self).active_view() == fire_spec(
                old(self).active_view(),
                alert_of(old(self).rules_view()[index as int], now),
            ),
            is_firing(old(self).active_view(), old(self).rules_view()[index as int].name@) <==> r is None,
            r matches Some(a) ==> a@ == alert_of(old(self).rules_view()[index as int], now) && a.details@
                == Map::<String, String>::empty(),
            final(self).rules_view() == old(self).rules_view(),
            final(self).channels_view() == old(self).channels_view(),
    {
        let ghost rule = self.rules@[index as int];
        proof {
            lemma_firing_index(self.active_view(), rule.name@);
        }
        match self.find_active(self.rules[index].name.as_str()) {
            Some(_) => None,
            None => {
                let rule_ref = &self.rules[index];
                let kept = FiredAlert {
                    rule_name: copy(&rule_ref.name),
                    severity: rule_ref.severity,
                    description: copy(&rule_ref.description),
                    fired_at: now,
                    details: HashMap::new(),
                };
                let handed = FiredAlert {
                    rule_name: copy(&rule_ref.name),
                    severity: rule_ref.severity,
                    description: copy(&rule_ref.description),
                    fired_at: now,
                    details: HashMap::new(),
                };
                let ghost before = self.active_view();
                self.active_alerts.push(kept);
                proof {
                    assert(self.active_view() =~= before.push(alert_of(rule, now)));
                    assert forall|a: int, b: int|
                        0 <= a < self.active_view().len() && 0 <= b < self.active_view().len() && a != b implies (
                    #[trigger] self.active_view()[a]).rule_name != (#[trigger] self.active_view()[b]).rule_name by {
                        if a == before.len() as int && b < before.len() {
                            assert(before[b] == self.active_view()[b]);
                        } else if b == before.len() as int && a < before.len() {
                            assert(before[a] == self.active_view()[a]);
                        } else {
                            assert(before[a] == self.active_view()[a]);
                            assert(before[b] == self.active_view()[b]);
                        }
                    }
                }
                Some(handed)
            },
        }
    }

    /// Resolves the firing alert of that rule name, if any, and hands it
    /// back, to be reported as resolved to the channels.
    pub fn resolve(&mut self, rule_name: &str) -> (r: Option<FiredAlert>)
        requires
            old(self).wf(),
        ensures
            final(self).wf(),
            (final(self).active_view(), match r {
                Some(a) => Some(a@),
                None => None,
            }) == resolve_spec(old(self).active_view(), rule_name@),
            final(self).rules_view() == old(self).rules_view(),
            final(self).channels_view() == old(self).channels_view(),
    {
        proof {
            lemma_firing_index(self.active_view(), rule_name@);
        }
        match self.find_active(rule_name) {
            None => None,
            Some(k) => {
                let ghost before = self.active_view();
                let ghost alerts = self.active_alerts@;
                let a = self.active_alerts.remove(k);
                proof {
                    assert(self.active_alerts@ == alerts.remove(k as int));
                    assert(self.active_view() =~= before.remove(k as int));
                    assert(a@ == before[k as int]);
                    assert forall|x: int, y: int|
                        0 <= x < self.active_view().len() && 0 <= y < self.active_view().len() && x != y implies (
                    #[trigger] self.active_view()[x]).rule_name != (#[trigger] self.active_view()[y]).rule_name by {
                        let x0 = if x < k { x } else { x + 1 };
                        let y0 = if y < k { y } else { y + 1 };
                        assert(self.active_view()[x] == before[x0]);
                        assert(self.active_view()[y] == before[y0]);
                    }
                    assert forall|j: int| 0 <= j < self.active_alerts@.len() implies (
                    #[trigger] self.active_alerts@[j]).details@ == Map::<String, String>::empty() by {
                        let j0 = if j < k { j } else { j + 1 };
                        assert(self.active_alerts@[j] == alerts[j0]);
                    }
                }
                Some(a)
            },
        }
    }

    /// Whether the alert of that rule name is firing.
    pub fn is_active(&self, rule_name: &str) -> (b: bool)
        ensures
            b == is_firing(self.active_view(), rule_name@),
    {
        proof {
            lemma_firing_index(self.active_view(), rule_name@);
        }
        self.find_active(rule_name).is_some()
    }
}

/// An alert that fires and then resolves leaves the firing alerts as they
/// were, and the resolution hands back the alert that fired.
pub proof fn lemma_fire_then_resolve(active: Seq<FiredModel>, alert: FiredModel)
    requires
        !is_firing(active, alert.rule_name),
    ensures
        resolve_spec(fire_spec(active, alert), alert.rule_name) == (active, Some(alert)),
{
    let f = active.push(alert);
    assert(f.last().rule_name == alert.rule_name);
    assert(firing_index(f, alert.rule_name) == Some(active.len() as int));
    assert(f.remove(active.len() as int) =~= active);
}

/// Firing again while the alert fires changes nothing.
pub proof fn lemma_fire_idempotent(active: Seq<FiredModel>, alert: FiredModel, later: FiredModel)
    requires
        later.rule_name == alert.rule_name,
    ensures
        fire_spec(fire_spec(active, alert), later) == fire_spec(active, alert),
{
    let f = fire_spec(active, alert);
    if !is_firing(active, alert.rule_name) {
        assert(f[active.len() as int].rule_name == later.rule_name);
    } else {
        let k = choose|k: int| 0 <= k < active.len() && (#[trigger] active[k]).rule_name == alert.rule_name;
        assert(f[k].rule_name == later.rule_name);
    }
}

/// The name of a severity, as `{:?}` writes it.
pub open spec fn severity_name_spec(s: AlertSeverity) -> Seq<char> {
    match s {
        AlertSeverity::Critical => "Critical"@,
        AlertSeverity::Warning => "Warning"@,
        AlertSeverity::Info => "Info"@,
    }
}

/// The attachment colour that Slack shows for a severity.
pub open spec fn slack_color_spec(s: AlertSeverity) -> Seq<char> {
    match s {
        AlertSeverity::Critical => "danger"@,
        AlertSeverity::Warning => "warning"@,
        AlertSeverity::Info => "good"@,
    }
}

/// The symbol before the rule name in Slack messages.
pub open spec fn severity_emoji_spec(s: AlertSeverity) -> Seq<char> {
    match s {
        AlertSeverity::Critical => "🔴"@,
        AlertSeverity::Warning => "⚠️"@,
        AlertSeverity::Info => "ℹ️"@,
    }
}

/// The severity as PagerDuty names it.
pub open spec fn pagerduty_severity_spec(s: AlertSeverity) -> Seq<char> {
    match s {
        AlertSeverity::Critical => "critical"@,
        AlertSeverity::Warning => "warning"@,
        AlertSeverity::Info => "info"@,
    }
}

impl AlertSeverity {
    /// The name of the severity, as `{:?}` writes it.
    pub fn name(&self) -> (r: String)
        ensures
            r@ == severity_name_spec(*self),
    {
        match self {
            AlertSeverity::Critical => owned("Critical"),
            AlertSeverity::Warning => owned("Warning"),
            AlertSeverity::Info => owned("Info"),
        }
    }

    /// The attachment colour that Slack shows.
    pub fn slack_color(&self) -> (r: &'static str)
        ensures
            r@ == slack_color_spec(*self),
    {
        match self {
            AlertSeverity::Critical => "danger",
            AlertSeverity::Warning => "warning",
            AlertSeverity::Info => "good",
        }
    }

    /// The symbol before the rule name in Slack messages.
    pub fn emoji(&self) -> (r: &'static str)
        ensures
            r@ == severity_emoji_spec(*self),
    {
        match self {
            AlertSeverity::Critical => "🔴",
            AlertSeverity::Warning => "⚠️",
            AlertSeverity::Info => "ℹ️",
        }
    }

    /// The embed colour of Discord messages: red, orange or green.
    pub fn discord_color(&self) -> (r: u32)
        ensures
            r == (match *self {
                AlertSeverity::Critical => 0xFF0000u32,
                AlertSeverity::Warning => 0xFFA500u32,
                AlertSeverity::Info => 0x00FF00u32,
            }),
    {
        match self {
            AlertSeverity::Critical => 0xFF0000,
            AlertSeverity::Warning => 0xFFA500,
            AlertSeverity::Info => 0x00FF00,
        }
    }

    /// The severity as PagerDuty names it.
    pub fn pagerduty_severity(&self) -> (r: &'static str)
        ensures
            r@ == pagerduty_severity_spec(*self),
    {
        match self {
            AlertSeverity::Critical => "critical",
            AlertSeverity::Warning => "warning",
            AlertSeverity::Info => "info",
        }
    }
}

/// The title of a Slack alert: the severity's symbol, a space, the rule name.
pub fn slack_title(alert: &FiredAlert) -> (r: String)
    ensures
        r@ == severity_emoji_spec(alert.severity) + " "@ + alert.rule_name@,
{
    let mut r = owned(alert.severity.emoji());
    r.append(" ");
    r.append(alert.rule_name.as_str());
    r
}

/// The title of a Discord alert.
pub fn discord_title(alert: &FiredAlert) -> (r: String)
    ensures
        r@ == "🛡️ Patronus Alert: "@ + alert.rule_name@,
{
    let mut r = owned("🛡️ Patronus Alert: ");
    r.append(alert.rule_name.as_str());
    r
}

/// The summary of a PagerDuty event: rule name and description.
pub fn pagerduty_summary(alert: &FiredAlert) -> (r: String)
    ensures
        r@ == alert.rule_name@ + ": "@ + alert.description@,
{
    let mut r = copy(&alert.rule_name);
    r.append(": ");
    r.append(alert.description.as_str());
    r
}

/// The title of a resolution message.
pub fn resolved_title(alert: &FiredAlert) -> (r: String)
    ensures
        r@ == "✅ RESOLVED: "@ + alert.rule_name@,
{
    let mut r = owned("✅ RESOLVED: ");
    r.append(alert.rule_name.as_str());
    r
}

/// The text of a resolution message.
pub fn resolved_text(alert: &FiredAlert) -> (r: String)
    ensures
        r@ == "Alert '"@ + alert.description@ + "' has been resolved"@,
{
    let mut r = owned("Alert '");
    r.append(alert.description.as_str());
    r.append("' has been resolved");
    r
}

/// Whether `c` is the ASCII letter whose capital is `upper`.
pub open spec fn letter_is(c: char, upper: char, lower: char) -> bool {
    c == upper || c == lower
}

/// Whether a webhook method, in upper case, is `PUT`; every other method
/// sends a `POST`.  No character outside ASCII has an upper case among `P`,
/// `U` and `T` alone, so the ASCII letters decide it.
pub open spec fn webhook_put(method: Seq<char>) -> bool {
    method.len() == 3 && letter_is(method[0], 'P', 'p') && letter_is(method[1], 'U', 'u') && letter_is(
        method[2],
        'T',
        't',
    )
}

/// Whether a webhook is called with `PUT` rather than `POST`.
pub fn webhook_uses_put(method: &str) -> (b: bool)
    ensures
        b == webhook_put(method@),
{
    let v = chars_of(method);
    if v.len() != 3 {
        return false;
    }
    (v[0] == 'P' || v[0] == 'p') && (v[1] == 'U' || v[1] == 'u') && (v[2] == 'T' || v[2] == 't')
}

/// `s` trimmed equals `lit`.
fn trimmed_is(s: &str, lit: &str) -> (b: bool)
    ensures
        b == (trim(s@) == lit@),
{
    let v = chars_of(s);
    let n = v.len();
    let a = trim_start_range(&v, 0, n);
    let e = trim_end_range(&v, a, n);
    proof {
        assert(v@.subrange(0, n as int) =~= s@);
    }
    crate::text::eq_at(&v, a, e, lit)
}

/// Whether a link counts as down: its operational state, read from
/// `/sys/class/net/<name>/operstate`, is other than `up`, or could not be
/// read.
pub fn link_down(operstate: Option<&str>) -> (b: bool)
    ensures
        b == (match operstate {
            Some(s) => trim(s@) != "up"@,
            None => true,
        }),
{
    match operstate {
        Some(s) => !trimmed_is(s, "up"),
        None => true,
    }
}

/// Whether a service counts as down: `systemctl is-active` answered other
/// than `active`.  Without an answer it does not count as down.
pub fn service_down(is_active_output: Option<&str>) -> (b: bool)
    ensures
        b == (match is_active_output {
            Some(s) => trim(s@) != "active"@,
            None => false,
        }),
{
    match is_active_output {
        Some(s) => !trimmed_is(s, "active"),
        None => false,
    }
}

/// Whether the number of tracked connections, as read from
/// `nf_conntrack_count`, is above the threshold; unreadable or not a number,
/// it is not.
pub fn connections_above(count_text: Option<&str>, threshold: u64) -> (b: bool)
    ensures
        b == (match count_text {
            Some(s) => parse_unsigned_spec(trim(s@), u64::MAX as nat) matches Some(n) && n > threshold,
            None => false,
        }),
{
    match count_text {
        Some(s) => {
            let v = chars_of(s);
            let n = v.len();
            let a = trim_start_range(&v, 0, n);
            let e = trim_end_range(&v, a, n);
            proof {
                assert(v@.subrange(0, n as int) =~= s@);
            }
            match parse_unsigned_range(&v, a, e, u64::MAX) {
                Some(c) => c > threshold,
                None => false,
            }
        },
        None => false,
    }
}

/// Whether a disk is one that a disk rule looks at: its mount point is the
/// rule's, or the rule names `*`.
pub fn disk_selected(mount_point: &str, mount: &str) -> (b: bool)
    ensures
        b == (mount_point@ == mount@ || mount@ == "*"@),
{
    str_eq(mount_point, mount) || str_eq(mount, "*")
}

/// The file that holds the operational state of a link.
pub fn operstate_path(interface: &str) -> (p: String)
    ensures
        p@ == "/sys/class/net/"@ + interface@ + "/operstate"@,
{
    let mut p = owned("/sys/class/net/");
    p.append(interface);
    p.append("/operstate");
    p
}

} // verus!
