//! The logical contents of the shared data store, and the evaluator policy
//! over them: classification, the gating condition, and the debounced,
//! conditionally-appended alert log.
//!
//! The store itself is external; this model states exactly what each
//! read-modify-write against it does, so the debounce guarantees can be
//! proved once and hold for any store that serializes the operations.

use vstd::prelude::*;

use crate::datetime::DateTimeUtc;
use crate::email::AlertLevel;
use crate::weather::Weather;

verus! {

/// Minimum elapsed time, in seconds, between two notifications.
pub const COOLDOWN_SECONDS: i64 = 10800;

/// The persisted singleton holding the latest geomagnetic reading.
/// The activity magnitude is in milli-units; `last_polled` is epoch seconds.
#[derive(Clone, Copy, Debug, PartialEq, Eq, Structural)]
pub struct CurrentActivityRecord {
    pub activity_id: u32,
    pub geomagnetic_activity_milli: i64,
    pub updated_at: DateTimeUtc,
    pub last_polled: i64,
}

/// One appended alert-log row: the activity magnitude that triggered the
/// notification and the dispatch instant in epoch seconds.
#[derive(Clone, Copy, Debug, PartialEq, Eq, Structural)]
pub struct AlertEntry {
    pub activity_level_milli: i64,
    pub sent_at: i64,
}

/// No two weather records share a location key.
pub open spec fn spec_unique_locations(ws: Seq<Weather>) -> bool {
    forall|i: int, j: int| 0 <= i < j < ws.len() ==> ws[i].location_id != ws[j].location_id
}

/// Some record already carries the location key.
pub open spec fn spec_contains_location(ws: Seq<Weather>, id: u32) -> bool {
    exists|i: int| 0 <= i < ws.len() && #[trigger] ws[i].location_id == id
}

/// The weather records as a map keyed by location.
pub open spec fn spec_weather_map(ws: Seq<Weather>) -> Map<u32, Weather>
    decreases ws.len()
{
    if ws.len() == 0 {
        Map::empty()
    } else {
        spec_weather_map(ws.drop_last()).insert(ws.last().location_id, ws.last())
    }
}

/// Greatest dispatch instant in a non-empty alert log.
pub open spec fn spec_max_sent(log: Seq<AlertEntry>) -> int
    recommends
        log.len() > 0,
    decreases log.len()
{
    if log.len() <= 1 {
        if log.len() == 1 {
            log[0].sent_at as int
        } else {
            0
        }
    } else {
        let rest = spec_max_sent(log.drop_last());
        if log.last().sent_at > rest {
            log.last().sent_at as int
        } else {
            rest
        }
    }
}

/// Dispatch instant of the most recent notification, if any was ever sent.
pub open spec fn spec_latest_sent(log: Seq<AlertEntry>) -> Option<int> {
    if log.len() == 0 {
        None
    } else {
        Some(spec_max_sent(log))
    }
}

/// The cooldown window has elapsed: no notification was ever sent, or the
/// most recent one is strictly more than the cooldown ago.
pub open spec fn spec_due(log: Seq<AlertEntry>, now: i64) -> bool {
    log.len() == 0 || now - spec_max_sent(log) > COOLDOWN_SECONDS
}

/// The configured gating condition: the level has reached the threshold.
pub open spec fn spec_gate(level: AlertLevel, threshold: AlertLevel) -> bool {
    level.rank() >= threshold.rank()
}

/// The evaluator's dispatch decision: notify, with the classified level,
/// if and only if the gating condition holds and the cooldown has elapsed.
pub open spec fn spec_decide(
    activity_milli: i64,
    threshold: AlertLevel,
    log: Seq<AlertEntry>,
    now: i64,
) -> Option<AlertLevel> {
    let level = AlertLevel::spec_from_milli(activity_milli);
    if spec_gate(level, threshold) && spec_due(log, now) {
        Some(level)
    } else {
        None
    }
}

/// The alert log after one evaluator cycle: one conditionally appended
/// entry when the decision is to notify, otherwise unchanged.
pub open spec fn spec_cycle_log(
    log: Seq<AlertEntry>,
    activity_milli: i64,
    threshold: AlertLevel,
    now: i64,
) -> Seq<AlertEntry> {
    if spec_decide(activity_milli, threshold, log, now) is Some {
        log.push(AlertEntry { activity_level_milli: activity_milli, sent_at: now })
    } else {
        log
    }
}

/// The alert log after a sequence of evaluator cycles at the given instants.
pub open spec fn spec_apply_cycles(
    log: Seq<AlertEntry>,
    activity_milli: i64,
    threshold: AlertLevel,
    times: Seq<i64>,
) -> Seq<AlertEntry>
    decreases times.len()
{
    if times.len() == 0 {
        log
    } else {
        spec_apply_cycles(
            spec_cycle_log(log, activity_milli, threshold, times[0]),
            activity_milli,
            threshold,
            times.skip(1),
        )
    }
}

/// The cooldown window, seen through the most recent dispatch instant.
pub open spec fn spec_due_at(last_sent: Option<i64>, now: i64) -> bool {
    match last_sent {
        None => true,
        Some(t) => now - t > COOLDOWN_SECONDS,
    }
}

/// The evaluator's dispatch decision from the values a store read yields:
/// the current activity magnitude and the most recent dispatch instant.
pub fn decide(
    activity_milli: i64,
    threshold: AlertLevel,
    last_sent: Option<i64>,
    now: i64,
) -> (r: Option<AlertLevel>)
    requires
        now >= 0,
        last_sent matches Some(t) ==> t >= 0,
    ensures
        r == (if spec_gate(AlertLevel::spec_from_milli(activity_milli), threshold)
            && spec_due_at(last_sent, now) {
            Some(AlertLevel::spec_from_milli(activity_milli))
        } else {
            Option::<AlertLevel>::None
        }),
{
    let level = AlertLevel::from_milli(activity_milli);
    let gate = level.severity() >= threshold.severity();
    let due = match last_sent {
        None => true,
        Some(t) => now - t > COOLDOWN_SECONDS,
    };
    if gate && due {
        Some(level)
    } else {
        None
    }
}

/// The logical contents of the store: the activity singleton, one weather
/// record per location, and the append-only alert log.
pub struct Store {
    pub current: CurrentActivityRecord,
    pub weather: Vec<Weather>,
    pub alerts: Vec<AlertEntry>,
}

impl Store {
    /// Weather keys are unique and dispatch instants are non-negative.
    pub open spec fn wf(self) -> bool {
        &&& spec_unique_locations(self.weather@)
        &&& forall|i: int| 0 <= i < self.alerts@.len() ==> #[trigger] self.alerts@[i].sent_at
            >= 0
    }

    /// A store as first seeded: a zero reading and nothing else.
    pub fn init(updated_at: DateTimeUtc) -> (r: Store)
        ensures
            r.wf(),
            r.current == (CurrentActivityRecord {
                activity_id: 1,
                geomagnetic_activity_milli: 0,
                updated_at,
                last_polled: 0,
            }),
            r.weather@ == Seq::<Weather>::empty(),
            r.alerts@ == Seq::<AlertEntry>::empty(),
    {
        Store {
            current: CurrentActivityRecord {
                activity_id: 1,
                geomagnetic_activity_milli: 0,
                updated_at,
                last_polled: 0,
            },
            weather: Vec::new(),
            alerts: Vec::new(),
        }
    }

    /// Overwrite the activity singleton in place: an idempotent update,
    /// never an append, leaving every other table untouched.
    pub fn update_current_activity(
        &mut self,
        value_milli: i64,
        updated_at: DateTimeUtc,
        polled_at: i64,
    )
        requires
            old(self).wf(),
        ensures
            final(self).wf(),
            final(self).current == (CurrentActivityRecord {
                activity_id: old(self).current.activity_id,
                geomagnetic_activity_milli: value_milli,
                updated_at,
                last_polled: polled_at,
            }),
            final(self).weather@ == old(self).weather@,
            final(self).alerts@ == old(self).alerts@,
    {
        self.current = CurrentActivityRecord {
            activity_id: self.current.activity_id,
            geomagnetic_activity_milli: value_milli,
            updated_at,
            last_polled: polled_at,
        };
    }

    /// Write a weather record through by key: overwrite the record of the
    /// same location, or add the first one for it.
    pub fn upsert_weather(&mut self, w: Weather)
        requires
            old(self).wf(),
        ensures
            final(self).wf(),
            final(self).current == old(self).current,
            final(self).alerts@ == old(self).alerts@,
            spec_weather_map(final(self).weather@) == spec_weather_map(old(self).weather@).insert(
                w.location_id,
                w,
            ),
            final(self).weather@.len() == old(self).weather@.len() + (
            if spec_contains_location(old(self).weather@, w.location_id) {
                0int
            } else {
                1int
            }),
    {
        let ghost w0 = self.weather@;
        let mut i: usize = 0;
        while i < self.weather.len()
            invariant
                old(self).wf(),
                self.current == old(self).current,
                self.alerts@ == old(self).alerts@,
                self.weather@ == old(self).weather@,
                i <= self.weather@.len(),
                forall|k: int| 0 <= k < i ==> self.weather@[k].location_id != w.location_id,
            decreases self.weather@.len() - i,
        {
            if self.weather[i].location_id == w.location_id {
                let ghost ws = self.weather@;
                self.weather[i] = w;
                proof {
                    assert(self.weather@ == ws.update(i as int, w));
                    lemma_weather_map_update(ws, i as int, w);
                    assert(spec_unique_locations(self.weather@)) by {
                        assert(forall|p: int, q: int|
                            0 <= p < q < self.weather@.len() ==> self.weather@[p].location_id
                                != self.weather@[q].location_id) by {
                            assert(forall|p: int|
                                0 <= p < ws.len() && p != i ==> self.weather@[p] == ws[p]);
                        }
                    }
                }
                return;
            }
            i += 1;
        }
        let ghost ws = self.weather@;
        self.weather.push(w);
        proof {
            assert(ws.push(w).drop_last() =~= ws);
            assert(spec_weather_map(self.weather@) == spec_weather_map(ws).insert(
                w.location_id,
                w,
            ));
            assert(spec_unique_locations(self.weather@)) by {
                assert(forall|p: int| 0 <= p < ws.len() ==> self.weather@[p] == ws[p]);
                assert(self.weather@.last() == w);
            }
        }
    }

    /// Append one alert-log row: the record of a dispatched notification.
    pub fn append_alert(&mut self, activity_level_milli: i64, sent_at: i64)
        requires
            old(self).wf(),
            sent_at >= 0,
        ensures
            final(self).wf(),
            final(self).alerts@ == old(self).alerts@.push(
                AlertEntry { activity_level_milli, sent_at },
            ),
            final(self).current == old(self).current,
            final(self).weather@ == old(self).weather@,
    {
        self.alerts.push(AlertEntry { activity_level_milli, sent_at });
    }

    /// Dispatch instant of the most recent alert-log entry, if any.
    pub fn latest_sent_at(&self) -> (r: Option<i64>)
        ensures
            match r {
                Some(t) => spec_latest_sent(self.alerts@) == Some(t as int),
                None => spec_latest_sent(self.alerts@) is None,
            },
    {
        if self.alerts.len() == 0 {
            return None;
        }
        let mut m: i64 = self.alerts[0].sent_at;
        let mut i: usize = 1;
        while i < self.alerts.len()
            invariant
                1 <= i <= self.alerts@.len(),
                m as int == spec_max_sent(self.alerts@.subrange(0, i as int)),
            decreases self.alerts@.len() - i,
        {
            proof {
                assert(self.alerts@.subrange(0, i + 1).drop_last() =~= self.alerts@.subrange(
                    0,
                    i as int,
                ));
                assert(self.alerts@.subrange(0, i + 1).last() == self.alerts@[i as int]);
            }
            if self.alerts[i].sent_at > m {
                m = self.alerts[i].sent_at;
            }
            i += 1;
        }
        proof {
            assert(self.alerts@.subrange(0, self.alerts@.len() as int) =~= self.alerts@);
        }
        Some(m)
    }

    /// One evaluator cycle at instant `now`: read the current reading,
    /// classify it, and notify if and only if the gating condition holds and the
    /// cooldown has elapsed, appending the log entry in the same step.
    /// Returns the level to notify about, or nothing.
    pub fn evaluator_cycle(&mut self, threshold: AlertLevel, now: i64) -> (d: Option<AlertLevel>)
        requires
            old(self).wf(),
            now >= 0,
        ensures
            final(self).wf(),
            d == spec_decide(
                old(self).current.geomagnetic_activity_milli,
                threshold,
                old(self).alerts@,
                now,
            ),
            final(self).alerts@ == spec_cycle_log(
                old(self).alerts@,
                old(self).current.geomagnetic_activity_milli,
                threshold,
                now,
            ),
            final(self).current == old(self).current,
            final(self).weather@ == old(self).weather@,
            d is None ==> final(self).alerts@ == old(self).alerts@,
    {
        let activity_milli = self.current.geomagnetic_activity_milli;
        let last = self.latest_sent_at();
        proof {
            if old(self).alerts@.len() > 0 {
                lemma_max_sent_in_range(old(self).alerts@);
            }
        }
        let d = decide(activity_milli, threshold, last, now);
        if let Some(level) = d {
            self.alerts.push(AlertEntry { activity_level_milli: activity_milli, sent_at: now });
        }
        d
    }
}

/// The greatest dispatch instant is one of the log's entries, and bounds
/// them all.
pub proof fn lemma_max_sent_in_range(log: Seq<AlertEntry>)
    requires
        log.len() > 0,
    ensures
        exists|i: int| 0 <= i < log.len() && (#[trigger] log[i]).sent_at == spec_max_sent(log),
        forall|i: int| 0 <= i < log.len() ==> (#[trigger] log[i]).sent_at <= spec_max_sent(log),
    decreases log.len()
{
    if log.len() == 1 {
        assert(log[0].sent_at == spec_max_sent(log));
    } else {
        lemma_max_sent_in_range(log.drop_last());
        assert(forall|i: int|
            0 <= i < log.len() - 1 ==> #[trigger] log[i] == log.drop_last()[i]);
        assert(log[log.len() - 1] == log.last());
        if log.last().sent_at > spec_max_sent(log.drop_last()) {
            assert(log[log.len() - 1].sent_at == spec_max_sent(log));
        } else {
            let i = choose|i: int|
                0 <= i < log.drop_last().len() && (#[trigger] log.drop_last()[i]).sent_at
                    == spec_max_sent(log.drop_last());
            assert(log[i].sent_at == spec_max_sent(log));
        }
    }
}

/// Replacing the record that already carries a key is, on the map view,
/// the same insertion as any other write of that key.
pub proof fn lemma_weather_map_update(ws: Seq<Weather>, i: int, w: Weather)
    requires
        spec_unique_locations(ws),
        0 <= i < ws.len(),
        ws[i].location_id == w.location_id,
    ensures
        spec_weather_map(ws.update(i, w)) == spec_weather_map(ws).insert(w.location_id, w),
    decreases ws.len()
{
    let wsu = ws.update(i, w);
    if i == ws.len() - 1 {
        assert(wsu.drop_last() =~= ws.drop_last());
        assert(wsu.last() == w);
        assert(spec_weather_map(ws.drop_last()).insert(w.location_id, ws.last()).insert(
            w.location_id,
            w,
        ) =~= spec_weather_map(ws.drop_last()).insert(w.location_id, w));
    } else {
        assert(wsu.drop_last() =~= ws.drop_last().update(i, w));
        assert(wsu.last() == ws.last());
        assert(spec_unique_locations(ws.drop_last())) by {
            assert(forall|p: int|
                0 <= p < ws.len() - 1 ==> ws.drop_last()[p] == #[trigger] ws[p]);
        }
        assert(ws.drop_last()[i] == ws[i]);
        lemma_weather_map_update(ws.drop_last(), i, w);
        assert(ws.last().location_id != w.location_id);
        assert(spec_weather_map(ws.drop_last()).insert(w.location_id, w).insert(
            ws.last().location_id,
            ws.last(),
        ) =~= spec_weather_map(ws.drop_last()).insert(ws.last().location_id, ws.last()).insert(
            w.location_id,
            w,
        ));
    }
}

/// On an evaluator cycle with an empty alert log and the gating condition
/// satisfied, a notification is dispatched at once: there is no artificial
/// initial delay.
pub proof fn lemma_first_alert_sends(activity_milli: i64, threshold: AlertLevel, now: i64)
    requires
        spec_gate(AlertLevel::spec_from_milli(activity_milli), threshold),
    ensures
        spec_decide(activity_milli, threshold, Seq::<AlertEntry>::empty(), now) == Some(
            AlertLevel::spec_from_milli(activity_milli),
        ),
{
}

/// Debounce idempotence: once a notification stands in the log, any
/// sequence of evaluator cycles within the cooldown window after the most
/// recent dispatch leaves the log exactly as it is — no growth, no send.
pub proof fn lemma_debounce_idempotent(
    log: Seq<AlertEntry>,
    activity_milli: i64,
    threshold: AlertLevel,
    times: Seq<i64>,
)
    requires
        log.len() > 0,
        forall|k: int| 0 <= k < times.len() ==> #[trigger] times[k] as int <= spec_max_sent(log)
            + COOLDOWN_SECONDS,
    ensures
        spec_apply_cycles(log, activity_milli, threshold, times) == log,
        forall|k: int| 0 <= k < times.len() ==> spec_decide(
            activity_milli,
            threshold,
            log,
            #[trigger] times[k],
        ) is None,
    decreases times.len()
{
    assert(forall|k: int| 0 <= k < times.len() ==> !spec_due(log, #[trigger] times[k]));
    if times.len() > 0 {
        assert(!spec_due(log, times[0]));
        assert(spec_cycle_log(log, activity_milli, threshold, times[0]) == log);
        assert(forall|k: int|
            0 <= k < times.skip(1).len() ==> #[trigger] times.skip(1)[k] as int <= spec_max_sent(
                log,
            ) + COOLDOWN_SECONDS) by {
            assert(forall|k: int|
                0 <= k < times.len() - 1 ==> times.skip(1)[k] == #[trigger] times[k + 1]);
        }
        lemma_debounce_idempotent(log, activity_milli, threshold, times.skip(1));
    }
}

/// Once strictly more than the cooldown has elapsed since the most recent
/// dispatch, a cycle with the gating condition satisfied sends exactly one
/// more notification.
pub proof fn lemma_cooldown_elapsed_sends(
    log: Seq<AlertEntry>,
    activity_milli: i64,
    threshold: AlertLevel,
    now: i64,
)
    requires
        log.len() > 0,
        spec_gate(AlertLevel::spec_from_milli(activity_milli), threshold),
        now as int > spec_max_sent(log) + COOLDOWN_SECONDS,
    ensures
        spec_decide(activity_milli, threshold, log, now) is Some,
        spec_cycle_log(log, activity_milli, threshold, now) == log.push(
            AlertEntry { activity_level_milli: activity_milli, sent_at: now },
        ),
{
}

/// The concurrent-evaluator race: two cycles against the same store state,
/// both with the gating condition holding and no prior entry, yield exactly one log
/// entry and one dispatch — the store's conditional append makes whichever
/// cycle runs second a no-op.
pub proof fn lemma_concurrent_cycles_send_once(
    activity_milli: i64,
    threshold: AlertLevel,
    now: i64,
)
    requires
        now >= 0,
        spec_gate(AlertLevel::spec_from_milli(activity_milli), threshold),
    ensures
        spec_decide(activity_milli, threshold, Seq::<AlertEntry>::empty(), now) is Some,
        ({
            let once = spec_cycle_log(Seq::<AlertEntry>::empty(), activity_milli, threshold, now);
            &&& spec_decide(activity_milli, threshold, once, now) is None
            &&& spec_cycle_log(once, activity_milli, threshold, now) == once
            &&& once.len() == 1
        }),
{
    let empty = Seq::<AlertEntry>::empty();
    let once = spec_cycle_log(empty, activity_milli, threshold, now);
    assert(once.len() == 1);
    assert(once[0].sent_at == now);
    assert(spec_max_sent(once) == now as int);
    assert(!spec_due(once, now));
}

} // verus!
