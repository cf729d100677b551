//! Alert levels, the classification of geomagnetic activity, and the
//! assembly of the notification a positive evaluator decision dispatches.
//!
//! Activity magnitudes are carried as fixed-point integers counting
//! thousandths of a unit ("milli-units"), so that threshold boundaries
//! such as 49.999 versus 50.0 are represented exactly.

use vstd::prelude::*;
use vstd::string::*;

use crate::RenderError;
use crate::datetime::now_epoch_seconds;
use crate::store::{Store, decide, spec_cycle_log, spec_decide};
use crate::templates::Template;

verus! {

/// An enumeration of the four different aurora alert levels,
/// totally ordered by activity magnitude: Green < Yellow < Amber < Red.
#[derive(Clone, Copy, Debug, PartialEq, Eq, Structural)]
pub enum AlertLevel {
    Green,
    Yellow,
    Amber,
    Red,
}

impl AlertLevel {
    /// Position of this level in the Green < Yellow < Amber < Red order.
    pub open spec fn rank(self) -> int {
        match self {
            AlertLevel::Green => 0,
            AlertLevel::Yellow => 1,
            AlertLevel::Amber => 2,
            AlertLevel::Red => 3,
        }
    }

    /// Executable counterpart of `rank`.
    pub fn severity(self) -> (r: u8)
        ensures
            r as int == self.rank(),
    {
        match self {
            AlertLevel::Green => 0,
            AlertLevel::Yellow => 1,
            AlertLevel::Amber => 2,
            AlertLevel::Red => 3,
        }
    }

    /// Classification of an activity magnitude, in milli-units, into a level.
    /// Bands are half-open with the lower bound inclusive:
    /// [0, 50) Green, [50, 100) Yellow, [100, 200) Amber, [200, oo) Red;
    /// negative magnitudes fall in the Green band.
    pub open spec fn spec_from_milli(activity_milli: i64) -> AlertLevel {
        if activity_milli < 50_000 {
            AlertLevel::Green
        } else if activity_milli < 100_000 {
            AlertLevel::Yellow
        } else if activity_milli < 200_000 {
            AlertLevel::Amber
        } else {
            AlertLevel::Red
        }
    }

    /// Classify an activity magnitude given in milli-units.
    pub fn from_milli(activity_milli: i64) -> (r: AlertLevel)
        ensures
            r == AlertLevel::spec_from_milli(activity_milli),
    {
        if activity_milli < 50_000 {
            AlertLevel::Green
        } else if activity_milli < 100_000 {
            AlertLevel::Yellow
        } else if activity_milli < 200_000 {
            AlertLevel::Amber
        } else {
            AlertLevel::Red
        }
    }

    /// The level's display name, as it appears in an alert subject line.
    pub fn name(self) -> (r: &'static str)
        ensures
            r@ == spec_level_name(self),
    {
        match self {
            AlertLevel::Green => "Green",
            AlertLevel::Yellow => "Yellow",
            AlertLevel::Amber => "Amber",
            AlertLevel::Red => "Red",
        }
    }

    /// The level's lower-case name, as the body template reads it.
    pub fn lower_name(self) -> (r: &'static str)
        ensures
            r@ == spec_level_lower_name(self),
    {
        match self {
            AlertLevel::Green => "green",
            AlertLevel::Yellow => "yellow",
            AlertLevel::Amber => "amber",
            AlertLevel::Red => "red",
        }
    }
}

/// The level's display name.
pub open spec fn spec_level_name(level: AlertLevel) -> Seq<char> {
    match level {
        AlertLevel::Green => "Green"@,
        AlertLevel::Yellow => "Yellow"@,
        AlertLevel::Amber => "Amber"@,
        AlertLevel::Red => "Red"@,
    }
}

/// The level's lower-case name.
pub open spec fn spec_level_lower_name(level: AlertLevel) -> Seq<char> {
    match level {
        AlertLevel::Green => "green"@,
        AlertLevel::Yellow => "yellow"@,
        AlertLevel::Amber => "amber"@,
        AlertLevel::Red => "red"@,
    }
}

/// The subject line of an alert notification for the given level.
pub open spec fn spec_alert_subject(level: AlertLevel) -> Seq<char> {
    "Aurora alert level is now "@ + spec_level_name(level)
}

/// Build the subject line of an alert notification.
pub fn alert_subject(level: AlertLevel) -> (r: String)
    ensures
        r@ == spec_alert_subject(level),
{
    let mut s = String::from_str("Aurora alert level is now ");
    s.append(level.name());
    s
}

/// A rendered notification, ready to be handed to the mail transport:
/// recipient, subject line and HTML body.
#[derive(Debug)]
pub struct RenderedEmailBuilder {
    pub to_address: String,
    pub subject: String,
    pub body: String,
}

/// Render the alert template for `level` and assemble the notification
/// for the given recipient. The subject interpolates the level's name;
/// the body is whatever the engine rendered. A render failure is
/// reported, never papered over.
pub fn build_alert_email(engine: &tera::Tera, to_address: &str, level: AlertLevel) -> (r: Result<
    RenderedEmailBuilder,
    RenderError,
>)
    ensures
        r matches Ok(b) ==> b.to_address@ == to_address@ && b.subject@ == spec_alert_subject(
            level,
        ),
        r matches Err(e) ==> e == RenderError::TemplateFailure,
{
    let body = match Template::Alert.render(level.lower_name(), engine) {
        Ok(body) => body,
        Err(e) => {
            return Err(e);
        },
    };
    Ok(RenderedEmailBuilder { to_address: to_address.to_owned(), subject: alert_subject(level), body })
}

/// One full evaluator cycle at instant `now`, as the evaluator loop runs
/// it: read the current reading, decide per the gating condition and the
/// cooldown, and when a notification is owed, render it and append the
/// log entry. A render failure is fatal to the cycle and leaves the log
/// untouched — the entry records only what was actually handed to the
/// transport.
pub fn run_alert_cycle(
    store: &mut Store,
    threshold: AlertLevel,
    engine: &tera::Tera,
    to_address: &str,
    now: i64,
) -> (r: Result<Option<RenderedEmailBuilder>, RenderError>)
    requires
        old(store).wf(),
        now >= 0,
    ensures
        final(store).wf(),
        final(store).current == old(store).current,
        final(store).weather@ == old(store).weather@,
        ({
            let d = spec_decide(
                old(store).current.geomagnetic_activity_milli,
                threshold,
                old(store).alerts@,
                now,
            );
            match r {
                Ok(out) => {
                    &&& (match (out, d) {
                        (Some(b), Some(level)) => b.subject@ == spec_alert_subject(level)
                            && b.to_address@ == to_address@,
                        (None, None) => true,
                        _ => false,
                    })
                    &&& final(store).alerts@ == spec_cycle_log(
                        old(store).alerts@,
                        old(store).current.geomagnetic_activity_milli,
                        threshold,
                        now,
                    )
                },
                Err(e) => {
                    &&& e == RenderError::TemplateFailure
                    &&& d is Some
                    &&& final(store).alerts@ == old(store).alerts@
                },
            }
        }),
{
    let activity_milli = store.current.geomagnetic_activity_milli;
    let last = store.latest_sent_at();
    proof {
        if old(store).alerts@.len() > 0 {
            crate::store::lemma_max_sent_in_range(old(store).alerts@);
        }
    }
    let level = match decide(activity_milli, threshold, last, now) {
        Some(level) => level,
        None => {
            return Ok(None);
        },
    };
    let rendered = match build_alert_email(engine, to_address, level) {
        Ok(rendered) => rendered,
        Err(e) => {
            return Err(e);
        },
    };
    store.append_alert(activity_milli, now);
    Ok(Some(rendered))
}

/// One evaluator pass at the current wall-clock instant: read the store,
/// classify, and conditionally append to the alert log. Returns the
/// instant used and the dispatch decision taken at it.
pub fn evaluate_once(store: &mut Store, threshold: AlertLevel) -> (r: (i64, Option<AlertLevel>))
    requires
        old(store).wf(),
    ensures
        final(store).wf(),
        r.0 >= 0,
        r.1 == spec_decide(
            old(store).current.geomagnetic_activity_milli,
            threshold,
            old(store).alerts@,
            r.0,
        ),
        final(store).alerts@ == spec_cycle_log(
            old(store).alerts@,
            old(store).current.geomagnetic_activity_milli,
            threshold,
            r.0,
        ),
        final(store).current == old(store).current,
        final(store).weather@ == old(store).weather@,
{
    let t = now_epoch_seconds();
    let now: i64 = if t < 0 {
        0
    } else {
        t
    };
    let d = store.evaluator_cycle(threshold, now);
    (now, d)
}

} // verus!
