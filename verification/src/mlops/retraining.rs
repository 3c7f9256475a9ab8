//! When a model is retrained: on a schedule, when its performance degrades,
//! or when its data drifts.  Schedules are decided here; the thresholds of
//! the other triggers are of the caller's type `T`, and whether a
//! measurement crosses them is decided by the caller.
use vstd::prelude::*;
use crate::clock;
use crate::ids;
use crate::text::{copy, owned, str_eq};
use crate::mlops::registry::{ids_of, lemma_ids_of_update};

verus! {

#[derive(PartialEq, Eq, Structural, Clone, Copy, Debug)]
pub enum TriggerType {
    TimeBasedSchedule,
    PerformanceDegradation,
    DataDrift,
    ManualTrigger,
}

/// A trigger of a model's retraining.  Times are in seconds since the Unix
/// epoch.
#[derive(Clone, Debug)]
pub struct RetrainingTrigger<T> {
    pub id: u128,
    pub model_name: String,
    pub trigger_type: TriggerType,
    pub enabled: bool,
    /// For a schedule: the days between retrainings.
    pub schedule_interval_days: Option<u32>,
    /// For a performance or drift trigger: the thresholds.
    pub thresholds: Option<T>,
    pub last_triggered: Option<i64>,
    pub trigger_count: u32,
}

/// Seconds in a day.
pub const SECONDS_PER_DAY: i64 = 86400;

/// Whether a schedule is due at `now`: enabled, with an interval, and never
/// fired or fired at least that many days before.
pub open spec fn due<T>(t: RetrainingTrigger<T>, now: i64) -> bool {
    &&& t.enabled
    &&& t.trigger_type == TriggerType::TimeBasedSchedule
    &&& t.schedule_interval_days is Some
    &&& match t.last_triggered {
        Some(last) => now - last >= t.schedule_interval_days.unwrap() * SECONDS_PER_DAY,
        None => true,
    }
}

/// The trigger once fired at `now`.
pub open spec fn fired<T>(t: RetrainingTrigger<T>, now: i64) -> RetrainingTrigger<T> {
    RetrainingTrigger {
        id: t.id,
        model_name: t.model_name,
        trigger_type: t.trigger_type,
        enabled: t.enabled,
        schedule_interval_days: t.schedule_interval_days,
        thresholds: t.thresholds,
        last_triggered: Some(now),
        trigger_count: (t.trigger_count + 1) as u32,
    }
}

impl<T> RetrainingTrigger<T> {
    fn of(model_name: &str, trigger_type: TriggerType, days: Option<u32>, thresholds: Option<T>) -> (r:
        RetrainingTrigger<T>)
        ensures
            r.model_name@ == model_name@,
            r.trigger_type == trigger_type,
            r.enabled,
            r.schedule_interval_days == days,
            r.thresholds == thresholds,
            r.last_triggered is None,
            r.trigger_count == 0,
    {
        RetrainingTrigger {
            id: ids::new_v4(),
            model_name: owned(model_name),
            trigger_type,
            enabled: true,
            schedule_interval_days: days,
            thresholds,
            last_triggered: None,
            trigger_count: 0,
        }
    }

    /// An enabled schedule of every `interval_days` days, never fired.
    pub fn time_based(model_name: &str, interval_days: u32) -> (r: RetrainingTrigger<T>)
        ensures
            r.model_name@ == model_name@,
            r.trigger_type == TriggerType::TimeBasedSchedule,
            r.enabled,
            r.schedule_interval_days == Some(interval_days),
            r.thresholds is None,
            r.last_triggered is None,
            r.trigger_count == 0,
    {
        RetrainingTrigger::of(model_name, TriggerType::TimeBasedSchedule, Some(interval_days), None)
    }

    /// An enabled performance trigger with these thresholds, never fired.
    pub fn performance_based(model_name: &str, thresholds: T) -> (r: RetrainingTrigger<T>)
        ensures
            r.model_name@ == model_name@,
            r.trigger_type == TriggerType::PerformanceDegradation,
            r.enabled,
            r.schedule_interval_days is None,
            r.thresholds == Some(thresholds),
            r.last_triggered is None,
            r.trigger_count == 0,
    {
        RetrainingTrigger::of(model_name, TriggerType::PerformanceDegradation, None, Some(thresholds))
    }

    /// An enabled drift trigger with this threshold, never fired.
    pub fn data_drift(model_name: &str, threshold: T) -> (r: RetrainingTrigger<T>)
        ensures
            r.model_name@ == model_name@,
            r.trigger_type == TriggerType::DataDrift,
            r.enabled,
            r.schedule_interval_days is None,
            r.thresholds == Some(threshold),
            r.last_triggered is None,
            r.trigger_count == 0,
    {
        RetrainingTrigger::of(model_name, TriggerType::DataDrift, None, Some(threshold))
    }

    /// Whether the schedule is due at `now`.
    pub fn should_trigger_time_based_at(&self, now: i64) -> (b: bool)
        ensures
            b == due(*self, now),
    {
        if !self.enabled || self.trigger_type != TriggerType::TimeBasedSchedule {
            return false;
        }
        let days = match self.schedule_interval_days {
            Some(d) => d,
            None => {
                return false;
            },
        };
        match self.last_triggered {
            Some(last) => (now as i128) - (last as i128) >= (days as i128) * (SECONDS_PER_DAY as i128),
            None => true,
        }
    }

    /// Whether the schedule is due now.
    pub fn should_trigger_time_based(&self) -> (b: bool)
        ensures
            !self.enabled || self.trigger_type != TriggerType::TimeBasedSchedule
                || self.schedule_interval_days is None ==> !b,
            self.enabled && self.trigger_type == TriggerType::TimeBasedSchedule && self.schedule_interval_days
                is Some && self.last_triggered is None ==> b,
    {
        self.should_trigger_time_based_at(clock::now())
    }

    /// Fires the trigger at `now`: it records the time and counts one more
    /// firing.
    pub fn trigger_at(&mut self, now: i64)
        requires
            old(self).trigger_count < u32::MAX,
        ensures
            *final(self) == fired(*old(self), now),
    {
        self.last_triggered = Some(now);
        self.trigger_count = self.trigger_count + 1;
    }

    /// Fires the trigger now.
    pub fn trigger(&mut self)
        requires
            old(self).trigger_count < u32::MAX,
        ensures
            final(self).last_triggered matches Some(t) && *final(self) == fired(*old(self), t),
    {
        self.trigger_at(clock::now());
    }
}

/// The trigger with that id: the last one with it.
pub open spec fn trigger_in<T>(ts: Seq<RetrainingTrigger<T>>, id: u128) -> Option<RetrainingTrigger<T>>
    decreases ts.len(),
{
    if ts.len() == 0 {
        None
    } else if ts.last().id == id {
        Some(ts.last())
    } else {
        trigger_in(ts.drop_last(), id)
    }
}

/// No two triggers share an id.
pub open spec fn ids_distinct<T>(ts: Seq<RetrainingTrigger<T>>) -> bool {
    forall|i: int, j: int| 0 <= i < j < ts.len() ==> (#[trigger] ts[i]).id != (#[trigger] ts[j]).id
}

/// The triggers with these ids that exist, in the order of the ids.
pub open spec fn triggers_of<T>(ts: Seq<RetrainingTrigger<T>>, ids: Seq<u128>) -> Seq<RetrainingTrigger<T>>
    decreases ids.len(),
{
    if ids.len() == 0 {
        Seq::empty()
    } else {
        let r = triggers_of(ts, ids.drop_last());
        match trigger_in(ts, ids.last()) {
            Some(t) => r.push(t),
            None => r,
        }
    }
}

/// The ids other than `id`, in order.
pub open spec fn without(ids: Seq<u128>, id: u128) -> Seq<u128>
    decreases ids.len(),
{
    if ids.len() == 0 {
        Seq::empty()
    } else if ids.last() == id {
        without(ids.drop_last(), id)
    } else {
        without(ids.drop_last(), id).push(ids.last())
    }
}

/// The model names of the due schedules, in order.
pub open spec fn due_names<T>(ts: Seq<RetrainingTrigger<T>>, now: i64) -> Seq<Seq<char>>
    decreases ts.len(),
{
    if ts.len() == 0 {
        Seq::empty()
    } else if due(ts.last(), now) {
        due_names(ts.drop_last(), now).push(ts.last().model_name@)
    } else {
        due_names(ts.drop_last(), now)
    }
}

/// Each trigger after a check of the schedules at `now`: fired if due.
pub open spec fn after_check<T>(t: RetrainingTrigger<T>, now: i64) -> RetrainingTrigger<T> {
    if due(t, now) {
        fired(t, now)
    } else {
        t
    }
}

/// The first id, in order, that is among `matching` and names a trigger.
pub open spec fn first_match<T>(ids: Seq<u128>, matching: Seq<u128>, ts: Seq<RetrainingTrigger<T>>) -> Option<u128>
    decreases ids.len(),
{
    if ids.len() == 0 {
        None
    } else if matching.contains(ids[0]) && trigger_in(ts, ids[0]) is Some {
        Some(ids[0])
    } else {
        first_match(ids.drop_first(), matching, ts)
    }
}

proof fn lemma_trigger_in<T>(ts: Seq<RetrainingTrigger<T>>, id: u128)
    ensures
        match trigger_in(ts, id) {
            Some(t) => exists|k: int| 0 <= k < ts.len() && ts[k] == t && t.id == id,
            None => forall|j: int| 0 <= j < ts.len() ==> (#[trigger] ts[j]).id != id,
        },
    decreases ts.len(),
{
    if ts.len() > 0 {
        lemma_trigger_in(ts.drop_last(), id);
        if ts.last().id != id {
            match trigger_in(ts.drop_last(), id) {
                Some(t) => {
                    let k = choose|k: int| 0 <= k < ts.drop_last().len() && ts.drop_last()[k] == t && t.id == id;
                    assert(ts[k] == ts.drop_last()[k]);
                },
                None => {
                    assert forall|j: int| 0 <= j < ts.len() implies (#[trigger] ts[j]).id != id by {
                        if j < ts.len() - 1 {
                            assert(ts[j] == ts.drop_last()[j]);
                        }
                    }
                },
            }
        } else {
            assert(ts[ts.len() - 1] == ts.last());
        }
    }
}

/// With distinct ids, the trigger at a position is the one found by its id.
proof fn lemma_trigger_in_at<T>(ts: Seq<RetrainingTrigger<T>>, k: int)
    requires
        ids_distinct(ts),
        0 <= k < ts.len(),
    ensures
        trigger_in(ts, ts[k].id) == Some(ts[k]),
    decreases ts.len(),
{
    if k < ts.len() - 1 {
        assert(ts.last() == ts[ts.len() - 1]);
        assert(ts.drop_last()[k] == ts[k]);
        assert(ids_distinct(ts.drop_last())) by {
            assert forall|i: int, j: int| 0 <= i < j < ts.drop_last().len() implies (#[trigger] ts.drop_last()[i]).id
                != (#[trigger] ts.drop_last()[j]).id by {
                assert(ts.drop_last()[i] == ts[i]);
                assert(ts.drop_last()[j] == ts[j]);
            }
        }
        lemma_trigger_in_at(ts.drop_last(), k);
    }
}

/// Changing the trigger at a position, keeping its id, changes only what
/// that id finds.
proof fn lemma_trigger_in_update<T>(ts: Seq<RetrainingTrigger<T>>, k: int, t: RetrainingTrigger<T>, other: u128)
    requires
        0 <= k < ts.len(),
        t.id == ts[k].id,
        other != t.id,
    ensures
        trigger_in(ts.update(k, t), other) == trigger_in(ts, other),
    decreases ts.len(),
{
    let u = ts.update(k, t);
    if k == ts.len() - 1 {
        assert(u.drop_last() =~= ts.drop_last());
    } else {
        assert(u.drop_last() =~= ts.drop_last().update(k, t));
        assert(u.last() == ts.last());
        lemma_trigger_in_update(ts.drop_last(), k, t, other);
    }
}

/// Removing the trigger at a position changes only what its id finds.
proof fn lemma_trigger_in_remove<T>(ts: Seq<RetrainingTrigger<T>>, k: int, other: u128)
    requires
        0 <= k < ts.len(),
        other != ts[k].id,
    ensures
        trigger_in(ts.remove(k), other) == trigger_in(ts, other),
    decreases ts.len(),
{
    let u = ts.remove(k);
    if k == ts.len() - 1 {
        assert(u =~= ts.drop_last());
    } else {
        assert(u.drop_last() =~= ts.drop_last().remove(k));
        assert(u.last() == ts.last());
        lemma_trigger_in_remove(ts.drop_last(), k, other);
    }
}

fn find_name_in(names: &Vec<(String, Vec<u128>)>, name: &str) -> (r: Option<usize>)
    ensures
        match r {
            Some(k) => k < names@.len() && names@[k as int].0@ == name@ && ids_of(names@, name@) == names@[k as int].1@
                && forall|j: int| k < j < names@.len() ==> (#[trigger] names@[j]).0@ != name@,
            None => ids_of(names@, name@) == Seq::<u128>::empty(),
        },
{
    let mut i: usize = names.len();
    proof {
        assert(names@.take(i as int) =~= names@);
    }
    while i > 0
        invariant
            0 <= i <= names@.len(),
            ids_of(names@, name@) == ids_of(names@.take(i as int), name@),
            forall|j: int| i <= j < names@.len() ==> (#[trigger] names@[j]).0@ != name@,
        decreases i,
    {
        proof {
            assert(names@.take(i as int).drop_last() =~= names@.take(i - 1));
        }
        if str_eq(names[i - 1].0.as_str(), name) {
            return Some(i - 1);
        }
        i = i - 1;
    }
    None
}

/// The triggers, by id, and the ids of each model's triggers in the order
/// they were added.
pub struct RetrainingManager<T> {
    triggers: Vec<RetrainingTrigger<T>>,
    model_triggers: Vec<(String, Vec<u128>)>,
}

impl<T> RetrainingManager<T> {
    pub closed spec fn triggers_view(&self) -> Seq<RetrainingTrigger<T>> {
        self.triggers@
    }

    pub closed spec fn names_view(&self) -> Seq<(String, Vec<u128>)> {
        self.model_triggers@
    }

    /// No two triggers share an id.
    pub closed spec fn wf(&self) -> bool {
        ids_distinct(self.triggers@)
    }

    /// The trigger with that id.
    pub open spec fn trigger_with(&self, id: u128) -> Option<RetrainingTrigger<T>> {
        trigger_in(self.triggers_view(), id)
    }

    /// The ids of a model's triggers, in the order they were added.
    pub open spec fn model_ids(&self, name: Seq<char>) -> Seq<u128> {
        ids_of(self.names_view(), name)
    }

    /// No triggers.
    pub fn new() -> (m: RetrainingManager<T>)
        ensures
            m.wf(),
            m.triggers_view().len() == 0,
            m.names_view().len() == 0,
    {
        RetrainingManager { triggers: Vec::new(), model_triggers: Vec::new() }
    }

    fn find_trigger(&self, id: u128) -> (r: Option<usize>)
        requires
            self.wf(),
        ensures
            match r {
                Some(k) => k < self.triggers@.len() && self.triggers@[k as int].id == id && trigger_in(self.triggers@, id)
                    == Some(self.triggers@[k as int]),
                None => trigger_in(self.triggers@, id) is None,
            },
    {
        proof {
            lemma_trigger_in(self.triggers@, id);
        }
        let mut i: usize = 0;
        while i < self.triggers.len()
            invariant
                0 <= i <= self.triggers@.len(),
                ids_distinct(self.triggers@),
                forall|j: int| 0 <= j < i ==> (#[trigger] self.triggers@[j]).id != id,
            decreases self.triggers.len() - i,
        {
            if self.triggers[i].id == id {
                proof {
                    lemma_trigger_in_at(self.triggers@, i as int);
                }
                return Some(i);
            }
            i = i + 1;
        }
        None
    }

    /// Whether every trigger can be fired once more.
    pub fn counts_below_max(&self) -> (b: bool)
        ensures
            b == forall|k: int| 0 <= k < self.triggers_view().len() ==> (#[trigger] self.triggers_view()[k]).trigger_count
                < u32::MAX,
    {
        let mut i: usize = 0;
        while i < self.triggers.len()
            invariant
                0 <= i <= self.triggers@.len(),
                forall|k: int| 0 <= k < i ==> (#[trigger] self.triggers@[k]).trigger_count < u32::MAX,
            decreases self.triggers.len() - i,
        {
            if self.triggers[i].trigger_count == u32::MAX {
                return false;
            }
            i = i + 1;
        }
        true
    }

    /// Adds a trigger, replacing one of its id, and lists its id last among
    /// its model's triggers; hands back the id.
    pub fn add_trigger(&mut self, trigger: RetrainingTrigger<T>) -> (r: u128)
        requires
            old(self).wf(),
        ensures
            final(self).wf(),
            r == trigger.id,
            final(self).trigger_with(r) == Some(trigger),
            forall|other: u128| other != r ==> #[trigger] final(self).trigger_with(other) == old(self).trigger_with(other),
            final(self).model_ids(trigger.model_name@) == old(self).model_ids(trigger.model_name@).push(r),
            forall|n: Seq<char>| n != trigger.model_name@ ==> #[trigger] final(self).model_ids(n) == old(self).model_ids(n),
    {
        let id = trigger.id;
        match find_name_in(&self.model_triggers, trigger.model_name.as_str()) {
            Some(k) => {
                let ghost before = self.model_triggers@;
                let (n, mut ids) = self.model_triggers.remove(k);
                ids.push(id);
                self.model_triggers.insert(k, (n, ids));
                proof {
                    assert(self.model_triggers@ =~= before.update(k as int, self.model_triggers@[k as int]));
                    lemma_ids_of_update(before, k as int, self.model_triggers@[k as int]);
                }
            },
            None => {
                let mut ids: Vec<u128> = Vec::new();
                ids.push(id);
                let ghost before = self.model_triggers@;
                self.model_triggers.push((copy(&trigger.model_name), ids));
                proof {
                    assert(self.model_triggers@.drop_last() =~= before);
                    assert(ids_of(self.model_triggers@, trigger.model_name@) =~= Seq::<u128>::empty().push(id));
                }
            },
        }
        match self.find_trigger(id) {
            Some(k) => {
                let ghost before = self.triggers@;
                self.triggers.remove(k);
                self.triggers.insert(k, trigger);
                proof {
                    let t = self.triggers@[k as int];
                    assert(self.triggers@ =~= before.update(k as int, t));
                    assert(ids_distinct(self.triggers@)) by {
                        assert forall|i: int, j: int| 0 <= i < j < self.triggers@.len() implies (
                        #[trigger] self.triggers@[i]).id != (#[trigger] self.triggers@[j]).id by {
                            assert(before[i].id == self.triggers@[i].id);
                            assert(before[j].id == self.triggers@[j].id);
                        }
                    }
                    lemma_trigger_in_at(self.triggers@, k as int);
                    assert forall|other: u128| other != id implies #[trigger] trigger_in(self.triggers@, other) == trigger_in(
                        before,
                        other,
                    ) by {
                        lemma_trigger_in_update(before, k as int, t, other);
                    }
                }
            },
            None => {
                let ghost before = self.triggers@;
                proof {
                    lemma_trigger_in(before, id);
                }
                self.triggers.push(trigger);
                proof {
                    assert(self.triggers@.drop_last() =~= before);
                    assert(ids_distinct(self.triggers@)) by {
                        assert forall|i: int, j: int| 0 <= i < j < self.triggers@.len() implies (
                        #[trigger] self.triggers@[i]).id != (#[trigger] self.triggers@[j]).id by {
                            if j == self.triggers@.len() - 1 {
                                assert(before[i] == self.triggers@[i]);
                            } else {
                                assert(before[i] == self.triggers@[i]);
                                assert(before[j] == self.triggers@[j]);
                            }
                        }
                    }
                }
            },
        }
        id
    }
}

/// Why a request about a trigger was refused.
#[derive(PartialEq, Eq, Structural, Clone, Copy, Debug)]
pub enum RetrainingError {
    TriggerNotFound,
}

impl RetrainingError {
    /// The message of the error.
    pub fn message(&self) -> (s: String)
        ensures
            s@ == "Trigger not found"@,
    {
        owned("Trigger not found")
    }
}

fn contains_id(v: &Vec<u128>, x: u128) -> (b: bool)
    ensures
        b == v@.contains(x),
{
    let mut i: usize = 0;
    while i < v.len()
        invariant
            0 <= i <= v@.len(),
            forall|j: int| 0 <= j < i ==> v@[j] != x,
        decreases v.len() - i,
    {
        if v[i] == x {
            return true;
        }
        i = i + 1;
    }
    false
}

fn ids_without(ids: &Vec<u128>, id: u128) -> (r: Vec<u128>)
    ensures
        r@ == without(ids@, id),
{
    let mut out: Vec<u128> = Vec::new();
    let mut i: usize = 0;
    while i < ids.len()
        invariant
            0 <= i <= ids@.len(),
            out@ == without(ids@.take(i as int), id),
        decreases ids.len() - i,
    {
        proof {
            assert(ids@.take(i + 1).drop_last() =~= ids@.take(i as int));
        }
        if ids[i] != id {
            out.push(ids[i]);
        }
        i = i + 1;
    }
    proof {
        assert(ids@.take(ids@.len() as int) =~= ids@);
    }
    out
}

proof fn lemma_distinct_remove<T>(ts: Seq<RetrainingTrigger<T>>, k: int)
    requires
        ids_distinct(ts),
        0 <= k < ts.len(),
    ensures
        ids_distinct(ts.remove(k)),
        forall|j: int| 0 <= j < ts.remove(k).len() ==> (#[trigger] ts.remove(k)[j]).id != ts[k].id,
{
    let u = ts.remove(k);
    assert forall|j: int| 0 <= j < u.len() implies (#[trigger] u[j]).id != ts[k].id by {
        if j < k {
            assert(u[j] == ts[j]);
        } else {
            assert(u[j] == ts[j + 1]);
        }
    }
    assert forall|i: int, j: int| 0 <= i < j < u.len() implies (#[trigger] u[i]).id != (#[trigger] u[j]).id by {
        let i2 = if i < k { i } else { i + 1 };
        let j2 = if j < k { j } else { j + 1 };
        assert(u[i] == ts[i2]);
        assert(u[j] == ts[j2]);
    }
}

proof fn lemma_distinct_update<T>(ts: Seq<RetrainingTrigger<T>>, k: int, t: RetrainingTrigger<T>)
    requires
        ids_distinct(ts),
        0 <= k < ts.len(),
        t.id == ts[k].id,
    ensures
        ids_distinct(ts.update(k, t)),
{
    let u = ts.update(k, t);
    assert forall|i: int, j: int| 0 <= i < j < u.len() implies (#[trigger] u[i]).id != (#[trigger] u[j]).id by {
        assert(u[i].id == ts[i].id);
        assert(u[j].id == ts[j].id);
    }
}

proof fn lemma_first_match_step<T>(ids: Seq<u128>, matching: Seq<u128>, ts: Seq<RetrainingTrigger<T>>, j: int)
    requires
        0 <= j < ids.len(),
    ensures
        ids.skip(j).drop_first() =~= ids.skip(j + 1),
        ids.skip(j)[0] == ids[j],
        ids.skip(j).len() > 0,
{
}

impl<T> RetrainingManager<T> {
    /// Removes a trigger and its id from its model's list.
    pub fn remove_trigger(&mut self, trigger_id: &u128) -> (r: Result<(), RetrainingError>)
        requires
            old(self).wf(),
        ensures
            final(self).wf(),
            match old(self).trigger_with(*trigger_id) {
                None => r == Err::<(), RetrainingError>(RetrainingError::TriggerNotFound) && final(self).triggers_view()
                    == old(self).triggers_view() && final(self).names_view() == old(self).names_view(),
                Some(t) => {
                    &&& r is Ok
                    &&& final(self).trigger_with(*trigger_id) is None
                    &&& forall|other: u128| other != *trigger_id ==> #[trigger] final(self).trigger_with(other) == old(
                        self,
                    ).trigger_with(other)
                    &&& final(self).model_ids(t.model_name@) == without(old(self).model_ids(t.model_name@), *trigger_id)
                    &&& forall|n: Seq<char>| n != t.model_name@ ==> #[trigger] final(self).model_ids(n) == old(self).model_ids(n)
                },
            },
    {
        let id = *trigger_id;
        let k = match self.find_trigger(id) {
            Some(k) => k,
            None => {
                return Err(RetrainingError::TriggerNotFound);
            },
        };
        let ghost before = self.triggers@;
        let t = self.triggers.remove(k);
        proof {
            lemma_distinct_remove(before, k as int);
            lemma_trigger_in(self.triggers@, id);
            assert forall|other: u128| other != id implies #[trigger] trigger_in(self.triggers@, other) == trigger_in(
                before,
                other,
            ) by {
                lemma_trigger_in_remove(before, k as int, other);
            }
        }
        match find_name_in(&self.model_triggers, t.model_name.as_str()) {
            Some(j) => {
                let ghost names = self.model_triggers@;
                let (n, ids) = self.model_triggers.remove(j);
                let kept = ids_without(&ids, id);
                self.model_triggers.insert(j, (n, kept));
                proof {
                    assert(self.model_triggers@ =~= names.update(j as int, self.model_triggers@[j as int]));
                    lemma_ids_of_update(names, j as int, self.model_triggers@[j as int]);
                }
            },
            None => {
                proof {
                    assert(without(Seq::<u128>::empty(), id) =~= Seq::<u128>::empty());
                }
            },
        }
        Ok(())
    }

    /// Turns a trigger on or off.
    fn set_enabled(&mut self, trigger_id: &u128, enabled: bool) -> (r: Result<(), RetrainingError>)
        requires
            old(self).wf(),
        ensures
            final(self).wf(),
            final(self).names_view() == old(self).names_view(),
            match old(self).trigger_with(*trigger_id) {
                None => r == Err::<(), RetrainingError>(RetrainingError::TriggerNotFound) && final(self).triggers_view()
                    == old(self).triggers_view(),
                Some(t) => r is Ok && final(self).trigger_with(*trigger_id) == Some(
                    RetrainingTrigger { enabled, ..t },
                ) && forall|other: u128| other != *trigger_id ==> #[trigger] final(self).trigger_with(other) == old(
                    self,
                ).trigger_with(other),
            },
    {
        let id = *trigger_id;
        let k = match self.find_trigger(id) {
            Some(k) => k,
            None => {
                return Err(RetrainingError::TriggerNotFound);
            },
        };
        let ghost before = self.triggers@;
        let mut t = self.triggers.remove(k);
        t.enabled = enabled;
        self.triggers.insert(k, t);
        proof {
            let u = self.triggers@[k as int];
            assert(self.triggers@ =~= before.update(k as int, u));
            lemma_distinct_update(before, k as int, u);
            lemma_trigger_in_at(self.triggers@, k as int);
            assert forall|other: u128| other != id implies #[trigger] trigger_in(self.triggers@, other) == trigger_in(
                before,
                other,
            ) by {
                lemma_trigger_in_update(before, k as int, u, other);
            }
        }
        Ok(())
    }

    /// Turns a trigger on.
    pub fn enable_trigger(&mut self, trigger_id: &u128) -> (r: Result<(), RetrainingError>)
        requires
            old(self).wf(),
        ensures
            final(self).wf(),
            final(self).names_view() == old(self).names_view(),
            match old(self).trigger_with(*trigger_id) {
                None => r == Err::<(), RetrainingError>(RetrainingError::TriggerNotFound) && final(self).triggers_view()
                    == old(self).triggers_view(),
                Some(t) => r is Ok && final(self).trigger_with(*trigger_id) == Some(
                    RetrainingTrigger { enabled: true, ..t },
                ) && forall|other: u128| other != *trigger_id ==> #[trigger] final(self).trigger_with(other) == old(
                    self,
                ).trigger_with(other),
            },
    {
        self.set_enabled(trigger_id, true)
    }

    /// Turns a trigger off.
    pub fn disable_trigger(&mut self, trigger_id: &u128) -> (r: Result<(), RetrainingError>)
        requires
            old(self).wf(),
        ensures
            final(self).wf(),
            final(self).names_view() == old(self).names_view(),
            match old(self).trigger_with(*trigger_id) {
                None => r == Err::<(), RetrainingError>(RetrainingError::TriggerNotFound) && final(self).triggers_view()
                    == old(self).triggers_view(),
                Some(t) => r is Ok && final(self).trigger_with(*trigger_id) == Some(
                    RetrainingTrigger { enabled: false, ..t },
                ) && forall|other: u128| other != *trigger_id ==> #[trigger] final(self).trigger_with(other) == old(
                    self,
                ).trigger_with(other),
            },
    {
        self.set_enabled(trigger_id, false)
    }

    /// Fires every schedule that is due at `now`, and names their models,
    /// in order.
    pub fn check_time_based_triggers_at(&mut self, now: i64) -> (r: Vec<String>)
        requires
            old(self).wf(),
            forall|k: int|
                0 <= k < old(self).triggers_view().len() && due(#[trigger] old(self).triggers_view()[k], now)
                    ==> old(self).triggers_view()[k].trigger_count < u32::MAX,
        ensures
            final(self).wf(),
            final(self).names_view() == old(self).names_view(),
            final(self).triggers_view() == old(self).triggers_view().map_values(|t: RetrainingTrigger<T>| after_check(t, now)),
            r@.map_values(|s: String| s@) == due_names(old(self).triggers_view(), now),
    {
        let ghost orig = self.triggers@;
        let mut names: Vec<String> = Vec::new();
        let mut i: usize = 0;
        while i < self.triggers.len()
            invariant
                0 <= i <= self.triggers@.len(),
                self.triggers@.len() == orig.len(),
                forall|j: int| 0 <= j < i ==> #[trigger] self.triggers@[j] == after_check(orig[j], now),
                forall|j: int| i <= j < orig.len() ==> #[trigger] self.triggers@[j] == orig[j],
                forall|k: int| 0 <= k < orig.len() && due(#[trigger] orig[k], now) ==> orig[k].trigger_count < u32::MAX,
                names@.map_values(|s: String| s@) == due_names(orig.take(i as int), now),
                self.model_triggers@ == old(self).model_triggers@,
            decreases self.triggers.len() - i,
        {
            proof {
                assert(orig.take(i + 1).drop_last() =~= orig.take(i as int));
            }
            let ghost before = self.triggers@;
            let mut t = self.triggers.remove(i);
            if t.should_trigger_time_based_at(now) {
                let ghost prev = names@.map_values(|s: String| s@);
                names.push(copy(&t.model_name));
                proof {
                    assert(names@.map_values(|s: String| s@) =~= prev.push(orig[i as int].model_name@));
                }
                t.trigger_at(now);
            }
            self.triggers.insert(i, t);
            proof {
                assert(self.triggers@ =~= before.update(i as int, after_check(orig[i as int], now)));
            }
            i = i + 1;
        }
        proof {
            assert(orig.take(orig.len() as int) =~= orig);
            assert(self.triggers@ =~= orig.map_values(|t: RetrainingTrigger<T>| after_check(t, now)));
            assert forall|a: int, b: int| 0 <= a < b < self.triggers@.len() implies (#[trigger] self.triggers@[a]).id
                != (#[trigger] self.triggers@[b]).id by {
                assert(self.triggers@[a].id == orig[a].id);
                assert(self.triggers@[b].id == orig[b].id);
            }
        }
        names
    }

    /// Fires every schedule that is due now, and names their models.
    pub fn check_time_based_triggers(&mut self) -> (r: Vec<String>)
        requires
            old(self).wf(),
            forall|k: int| 0 <= k < old(self).triggers_view().len() ==> (#[trigger] old(self).triggers_view()[k]).trigger_count
                < u32::MAX,
        ensures
            final(self).wf(),
            final(self).names_view() == old(self).names_view(),
            exists|now: i64|
                final(self).triggers_view() == old(self).triggers_view().map_values(
                    |t: RetrainingTrigger<T>| after_check(t, now),
                ) && r@.map_values(|s: String| s@) == due_names(old(self).triggers_view(), now),
    {
        let now = clock::now();
        self.check_time_based_triggers_at(now)
    }

    /// Fires, at `now`, the first of a model's triggers, in the order they
    /// were added, whose id is among `matching`: those whose thresholds the
    /// caller found crossed.  Says whether one fired.
    pub fn fire_first_matching_at(&mut self, model_name: &str, matching: &Vec<u128>, now: i64) -> (r: bool)
        requires
            old(self).wf(),
            forall|k: int| 0 <= k < old(self).triggers_view().len() ==> (#[trigger] old(self).triggers_view()[k]).trigger_count
                < u32::MAX,
        ensures
            final(self).wf(),
            final(self).names_view() == old(self).names_view(),
            match first_match(old(self).model_ids(model_name@), matching@, old(self).triggers_view()) {
                Some(id) => r && final(self).trigger_with(id) == Some(fired(old(self).trigger_with(id).unwrap(), now))
                    && forall|other: u128| other != id ==> #[trigger] final(self).trigger_with(other) == old(
                        self,
                    ).trigger_with(other),
                None => !r && final(self).triggers_view() == old(self).triggers_view(),
            },
    {
        let ids = match find_name_in(&self.model_triggers, model_name) {
            Some(k) => self.model_triggers[k].1.clone(),
            None => Vec::new(),
        };
        proof {
            assert(ids@ == old(self).model_ids(model_name@));
            assert(ids@.skip(0) =~= ids@);
        }
        let mut j: usize = 0;
        while j < ids.len()
            invariant
                0 <= j <= ids@.len(),
                ids@ == old(self).model_ids(model_name@),
                *self == *old(self),
                ids_distinct(self.triggers@),
                forall|k: int| 0 <= k < self.triggers@.len() ==> (#[trigger] self.triggers@[k]).trigger_count < u32::MAX,
                first_match(ids@, matching@, self.triggers@) == first_match(ids@.skip(j as int), matching@, self.triggers@),
            decreases ids.len() - j,
        {
            proof {
                lemma_first_match_step(ids@, matching@, self.triggers@, j as int);
            }
            let x = ids[j];
            if contains_id(matching, x) {
                match self.find_trigger(x) {
                    Some(k) => {
                        let ghost before = self.triggers@;
                        let mut t = self.triggers.remove(k);
                        t.trigger_at(now);
                        self.triggers.insert(k, t);
                        proof {
                            let u = self.triggers@[k as int];
                            assert(self.triggers@ =~= before.update(k as int, u));
                            lemma_distinct_update(before, k as int, u);
                            lemma_trigger_in_at(self.triggers@, k as int);
                            assert forall|other: u128| other != x implies #[trigger] trigger_in(self.triggers@, other)
                                == trigger_in(before, other) by {
                                lemma_trigger_in_update(before, k as int, u, other);
                            }
                        }
                        return true;
                    },
                    None => {},
                }
            }
            j = j + 1;
        }
        proof {
            assert(ids@.skip(ids@.len() as int) =~= Seq::<u128>::empty());
        }
        false
    }

    /// The trigger with that id.
    pub fn get_trigger(&self, trigger_id: &u128) -> (r: Option<&RetrainingTrigger<T>>)
        requires
            self.wf(),
        ensures
            match self.trigger_with(*trigger_id) {
                Some(t) => r == Some(&t),
                None => r is None,
            },
    {
        match self.find_trigger(*trigger_id) {
            Some(k) => Some(&self.triggers[k]),
            None => None,
        }
    }

    /// A model's triggers that exist, in the order they were added.
    pub fn list_triggers_for_model(&self, model_name: &str) -> (r: Vec<&RetrainingTrigger<T>>)
        requires
            self.wf(),
        ensures
            r@.map_values(|t: &RetrainingTrigger<T>| *t) == triggers_of(self.triggers_view(), self.model_ids(model_name@)),
    {
        let mut out: Vec<&RetrainingTrigger<T>> = Vec::new();
        let ids = match find_name_in(&self.model_triggers, model_name) {
            Some(k) => &self.model_triggers[k].1,
            None => {
                proof {
                    assert(out@.map_values(|t: &RetrainingTrigger<T>| *t) =~= Seq::<RetrainingTrigger<T>>::empty());
                }
                return out;
            },
        };
        let mut i: usize = 0;
        while i < ids.len()
            invariant
                0 <= i <= ids@.len(),
                ids@ == ids_of(self.model_triggers@, model_name@),
                ids_distinct(self.triggers@),
                out@.map_values(|t: &RetrainingTrigger<T>| *t) == triggers_of(self.triggers@, ids@.take(i as int)),
            decreases ids.len() - i,
        {
            proof {
                assert(ids@.take(i + 1).drop_last() =~= ids@.take(i as int));
            }
            let ghost prev = out@.map_values(|t: &RetrainingTrigger<T>| *t);
            match self.find_trigger(ids[i]) {
                Some(k) => {
                    out.push(&self.triggers[k]);
                    proof {
                        assert(out@.map_values(|t: &RetrainingTrigger<T>| *t) =~= prev.push(self.triggers@[k as int]));
                    }
                },
                None => {},
            }
            i = i + 1;
        }
        proof {
            assert(ids@.take(ids@.len() as int) =~= ids@);
        }
        out
    }
}

impl<T> Default for RetrainingManager<T> {
    fn default() -> (m: RetrainingManager<T>)
        ensures
            m.wf(),
            m.triggers_view().len() == 0,
            m.names_view().len() == 0,
    {
        RetrainingManager::new()
    }
}

/// A schedule that fires is due again exactly once its interval has passed
/// since then.
pub proof fn lemma_fired_schedule_waits_its_interval<T>(t: RetrainingTrigger<T>, now: i64, later: i64)
    requires
        t.enabled,
        t.trigger_type == TriggerType::TimeBasedSchedule,
        t.schedule_interval_days is Some,
    ensures
        due(fired(t, now), later) <==> later - now >= t.schedule_interval_days.unwrap() * SECONDS_PER_DAY,
{
}

/// A schedule that never fired is due at once.
pub proof fn lemma_new_schedule_is_due<T>(t: RetrainingTrigger<T>, now: i64)
    requires
        t.enabled,
        t.trigger_type == TriggerType::TimeBasedSchedule,
        t.schedule_interval_days is Some,
        t.last_triggered is None,
    ensures
        due(t, now),
{
}

} // verus!
