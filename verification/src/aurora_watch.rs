//! The geomagnetic-activity feed: the document's typed form, its parser,
//! and the projection into the reading that is persisted.
//!
//! The feed is an XML document holding 24 hourly samples and a
//! document-level `updated` timestamp. The parser scans the byte text for
//! the relevant markup; its result is pinned, byte for byte, by the
//! spec-level grammar functions below.

use vstd::prelude::*;

use crate::ParseError;
use crate::datetime::{DateTimeUtc, now_epoch_seconds, parse_datetime, spec_parse_datetime};
use crate::parse::{find_sub, lemma_find_props, parse_decimal_milli, spec_decimal_milli, spec_find};

verus! {

/// One hourly activity sample: its instant and its magnitude in
/// milli-units.
#[derive(Clone, Copy, Debug, PartialEq, Eq, Structural)]
pub struct Activity {
    pub datetime: DateTimeUtc,
    pub value_milli: i64,
}

/// The typed form of one activity document.
#[derive(Debug)]
pub struct SiteActivity {
    pub updated: DateTimeUtc,
    pub activity: Vec<Activity>,
}

/// The transient reading one poll of the feed produces.
#[derive(Clone, Copy, Debug, PartialEq, Eq, Structural)]
pub struct CurrentActivity {
    pub updated_at: DateTimeUtc,
    pub polled_at: i64,
    pub value_milli: i64,
}

impl SiteActivity {
    /// The document holds exactly its 24 hourly samples.
    pub open spec fn wf(self) -> bool {
        self.activity@.len() == 24
    }

    /// The magnitude of the last of the 24 samples, in chronological
    /// order: the feed's most recent data point.
    pub fn latest_activity(&self) -> (r: i64)
        requires
            self.wf(),
        ensures
            r == self.activity@[23].value_milli,
    {
        self.activity[23].value_milli
    }
}

/// Project a parsed document into the reading to persist: the last
/// sample's magnitude and the document's updated instant, stamped with
/// the poll instant.
pub fn current_activity_from(site: &SiteActivity, polled_at: i64) -> (r: CurrentActivity)
    requires
        site.wf(),
    ensures
        r == (CurrentActivity {
            updated_at: site.updated,
            polled_at,
            value_milli: site.activity@[23].value_milli,
        }),
{
    CurrentActivity { updated_at: site.updated, polled_at, value_milli: site.latest_activity() }
}

/// Project a parsed document into the reading to persist, stamped with
/// the current wall-clock instant.
pub fn current_activity_now(site: &SiteActivity) -> (r: CurrentActivity)
    requires
        site.wf(),
    ensures
        r.updated_at == site.updated,
        r.value_milli == site.activity@[23].value_milli,
        r.polled_at >= 0,
{
    let t = now_epoch_seconds();
    let now: i64 = if t < 0 {
        0
    } else {
        t
    };
    current_activity_from(site, now)
}

/// The bytes of `<updated>`.
pub open spec fn tag_updated() -> Seq<u8> {
    seq![60u8, 117u8, 112u8, 100u8, 97u8, 116u8, 101u8, 100u8, 62u8]
}

/// The bytes of `<datetime>`.
pub open spec fn tag_datetime() -> Seq<u8> {
    seq![60u8, 100u8, 97u8, 116u8, 101u8, 116u8, 105u8, 109u8, 101u8, 62u8]
}

/// The bytes of `<value>`.
pub open spec fn tag_value() -> Seq<u8> {
    seq![60u8, 118u8, 97u8, 108u8, 117u8, 101u8, 62u8]
}

/// The bytes of `<activity`, the opening of a sample element.
pub open spec fn tag_activity_open() -> Seq<u8> {
    seq![60u8, 97u8, 99u8, 116u8, 105u8, 118u8, 105u8, 116u8, 121u8]
}

/// A single `<`, which ends any text region.
pub open spec fn tag_lt() -> Seq<u8> {
    seq![60u8]
}

fn needle_updated() -> (r: Vec<u8>)
    ensures
        r@ == tag_updated(),
{
    let mut v: Vec<u8> = Vec::new();
    v.push(60);
    v.push(117);
    v.push(112);
    v.push(100);
    v.push(97);
    v.push(116);
    v.push(101);
    v.push(100);
    v.push(62);
    proof {
        assert(v@ =~= tag_updated());
    }
    v
}

fn needle_datetime() -> (r: Vec<u8>)
    ensures
        r@ == tag_datetime(),
{
    let mut v: Vec<u8> = Vec::new();
    v.push(60);
    v.push(100);
    v.push(97);
    v.push(116);
    v.push(101);
    v.push(116);
    v.push(105);
    v.push(109);
    v.push(101);
    v.push(62);
    proof {
        assert(v@ =~= tag_datetime());
    }
    v
}

fn needle_value() -> (r: Vec<u8>)
    ensures
        r@ == tag_value(),
{
    let mut v: Vec<u8> = Vec::new();
    v.push(60);
    v.push(118);
    v.push(97);
    v.push(108);
    v.push(117);
    v.push(101);
    v.push(62);
    proof {
        assert(v@ =~= tag_value());
    }
    v
}

fn needle_activity_open() -> (r: Vec<u8>)
    ensures
        r@ == tag_activity_open(),
{
    let mut v: Vec<u8> = Vec::new();
    v.push(60);
    v.push(97);
    v.push(99);
    v.push(116);
    v.push(105);
    v.push(118);
    v.push(105);
    v.push(116);
    v.push(121);
    proof {
        assert(v@ =~= tag_activity_open());
    }
    v
}

fn needle_lt() -> (r: Vec<u8>)
    ensures
        r@ == tag_lt(),
{
    let mut v: Vec<u8> = Vec::new();
    v.push(60);
    proof {
        assert(v@ =~= tag_lt());
    }
    v
}

/// The text region that follows the first occurrence of `tag` at or after
/// `from`: it starts right after the tag and runs to the next `<`.
pub open spec fn spec_text_after(s: Seq<u8>, tag: Seq<u8>, from: int) -> Option<(int, int)> {
    match spec_find(s, tag, from) {
        None => None,
        Some(i) => {
            match spec_find(s, tag_lt(), i + tag.len()) {
                None => None,
                Some(te) => Some((i + tag.len() as int, te)),
            }
        },
    }
}

fn text_after(v: &Vec<u8>, tag: &Vec<u8>, lt: &Vec<u8>, from: usize) -> (r: Option<(usize, usize)>)
    requires
        tag@.len() > 0,
        lt@ == tag_lt(),
    ensures
        match r {
            Some(p) => spec_text_after(v@, tag@, from as int) == Some((p.0 as int, p.1 as int))
                && from <= p.0 <= p.1 <= v@.len(),
            None => spec_text_after(v@, tag@, from as int) is None,
        },
{
    match find_sub(v, tag, from) {
        None => None,
        Some(i) => {
            proof {
                lemma_find_props(v@, tag@, from as int);
            }
            let vlen = v.len();
            let ts = i + tag.len();
            match find_sub(v, lt, ts) {
                None => None,
                Some(te) => {
                    proof {
                        lemma_find_props(v@, tag_lt(), ts as int);
                    }
                    Some((ts, te))
                },
            }
        },
    }
}

/// The document-level updated instant: the `<datetime>` text inside the
/// first `<updated>` element.
pub open spec fn spec_parse_updated(s: Seq<u8>) -> Option<DateTimeUtc> {
    match spec_find(s, tag_updated(), 0) {
        None => None,
        Some(u) => match spec_text_after(s, tag_datetime(), u + tag_updated().len()) {
            None => None,
            Some(p) => spec_parse_datetime(s.subrange(p.0, p.1)),
        },
    }
}

/// One sample, scanned from `from`: the next `<activity` element's
/// `<datetime>` and `<value>` texts, and the position right after the
/// value text.
pub open spec fn spec_parse_sample(s: Seq<u8>, from: int) -> Option<(Activity, int)> {
    match spec_find(s, tag_activity_open(), from) {
        None => None,
        Some(a) => match spec_text_after(s, tag_datetime(), a + tag_activity_open().len()) {
            None => None,
            Some(dp) => match spec_parse_datetime(s.subrange(dp.0, dp.1)) {
                None => None,
                Some(dt) => match spec_text_after(s, tag_value(), dp.1) {
                    None => None,
                    Some(vp) => match spec_decimal_milli(s.subrange(vp.0, vp.1)) {
                        None => None,
                        Some(x) => Some(
                            (Activity { datetime: dt, value_milli: x as i64 }, vp.1),
                        ),
                    },
                },
            },
        },
    }
}

/// `count` consecutive samples scanned from `from`, with the position the
/// scan ends at.
pub open spec fn spec_parse_samples(s: Seq<u8>, from: int, count: nat) -> Option<
    (Seq<Activity>, int),
>
    decreases count
{
    if count == 0 {
        Some((Seq::empty(), from))
    } else {
        match spec_parse_sample(s, from) {
            None => None,
            Some(p) => match spec_parse_samples(s, p.1, (count - 1) as nat) {
                None => None,
                Some(q) => Some((seq![p.0] + q.0, q.1)),
            },
        }
    }
}

/// The whole document: its updated instant and exactly 24 samples — a
/// document with a 25th sample element is rejected.
pub open spec fn spec_parse_site_activity(s: Seq<u8>) -> Option<(DateTimeUtc, Seq<Activity>)> {
    match spec_parse_updated(s) {
        None => None,
        Some(upd) => match spec_parse_samples(s, 0, 24) {
            None => None,
            Some(p) => if spec_find(s, tag_activity_open(), p.1) is None {
                Some((upd, p.0))
            } else {
                None
            },
        },
    }
}

/// The error a rejected sample scan reports: a missing `<activity`
/// element is a sample-count failure, a bad timestamp or number names the
/// field, and any other missing markup is a malformed document.
pub open spec fn spec_sample_error(s: Seq<u8>, from: int) -> ParseError {
    match spec_find(s, tag_activity_open(), from) {
        None => ParseError::WrongSampleCount,
        Some(a) => match spec_text_after(s, tag_datetime(), a + tag_activity_open().len()) {
            None => ParseError::MalformedActivityDocument,
            Some(dp) => match spec_parse_datetime(s.subrange(dp.0, dp.1)) {
                None => ParseError::InvalidTimestamp,
                Some(_) => match spec_text_after(s, tag_value(), dp.1) {
                    None => ParseError::MalformedActivityDocument,
                    Some(_) => ParseError::InvalidNumber,
                },
            },
        },
    }
}

/// The error a rejected scan of `count` samples reports: the error of the
/// first sample that fails, or a sample-count failure when one more
/// element follows the last expected sample.
pub open spec fn spec_samples_error(s: Seq<u8>, from: int, count: nat) -> ParseError
    decreases count
{
    if count == 0 {
        ParseError::WrongSampleCount
    } else {
        match spec_parse_sample(s, from) {
            None => spec_sample_error(s, from),
            Some(p) => spec_samples_error(s, p.1, (count - 1) as nat),
        }
    }
}

/// The error a rejected document reports.
pub open spec fn spec_site_activity_error(s: Seq<u8>) -> ParseError {
    match spec_find(s, tag_updated(), 0) {
        None => ParseError::MalformedActivityDocument,
        Some(u) => match spec_text_after(s, tag_datetime(), u + tag_updated().len()) {
            None => ParseError::MalformedActivityDocument,
            Some(p) => match spec_parse_datetime(s.subrange(p.0, p.1)) {
                None => ParseError::InvalidTimestamp,
                Some(_) => spec_samples_error(s, 0, 24),
            },
        },
    }
}

fn parse_one_sample(
    v: &Vec<u8>,
    n_act: &Vec<u8>,
    n_dt: &Vec<u8>,
    n_val: &Vec<u8>,
    n_lt: &Vec<u8>,
    from: usize,
) -> (r: Result<(Activity, usize), ParseError>)
    requires
        n_act@ == tag_activity_open(),
        n_dt@ == tag_datetime(),
        n_val@ == tag_value(),
        n_lt@ == tag_lt(),
    ensures
        match r {
            Ok(p) => spec_parse_sample(v@, from as int) == Some((p.0, p.1 as int)) && p.1
                <= v@.len(),
            Err(e) => spec_parse_sample(v@, from as int) is None && e == spec_sample_error(
                v@,
                from as int,
            ),
        },
{
    let a = match find_sub(v, n_act, from) {
        Some(a) => a,
        None => {
            return Err(ParseError::WrongSampleCount);
        },
    };
    proof {
        lemma_find_props(v@, tag_activity_open(), from as int);
    }
    let vlen = v.len();
    let dp = match text_after(v, n_dt, n_lt, a + 9) {
        Some(dp) => dp,
        None => {
            return Err(ParseError::MalformedActivityDocument);
        },
    };
    let dt = match parse_datetime(v, dp.0, dp.1) {
        Some(dt) => dt,
        None => {
            return Err(ParseError::InvalidTimestamp);
        },
    };
    let vp = match text_after(v, n_val, n_lt, dp.1) {
        Some(vp) => vp,
        None => {
            return Err(ParseError::MalformedActivityDocument);
        },
    };
    let x = match parse_decimal_milli(v, vp.0, vp.1) {
        Some(x) => x,
        None => {
            return Err(ParseError::InvalidNumber);
        },
    };
    Ok((Activity { datetime: dt, value_milli: x }, vp.1))
}

/// Parse the byte text of one activity document. Succeeds exactly on the
/// documents the spec-level grammar accepts, returning exactly the
/// instant and samples the grammar names; a rejected document reports
/// exactly the error the grammar assigns it.
pub fn parse_site_activity(xml: &Vec<u8>) -> (r: Result<SiteActivity, ParseError>)
    ensures
        match r {
            Ok(sa) => spec_parse_site_activity(xml@) == Some((sa.updated, sa.activity@))
                && sa.wf(),
            Err(e) => spec_parse_site_activity(xml@) is None && e == spec_site_activity_error(
                xml@,
            ),
        },
{
    let n_upd = needle_updated();
    let n_dt = needle_datetime();
    let n_val = needle_value();
    let n_act = needle_activity_open();
    let n_lt = needle_lt();

    let u = match find_sub(xml, &n_upd, 0) {
        Some(u) => u,
        None => {
            return Err(ParseError::MalformedActivityDocument);
        },
    };
    proof {
        lemma_find_props(xml@, tag_updated(), 0);
    }
    let xlen = xml.len();
    let up = match text_after(xml, &n_dt, &n_lt, u + 9) {
        Some(up) => up,
        None => {
            return Err(ParseError::MalformedActivityDocument);
        },
    };
    let updated = match parse_datetime(xml, up.0, up.1) {
        Some(dt) => dt,
        None => {
            return Err(ParseError::InvalidTimestamp);
        },
    };

    let mut acts: Vec<Activity> = Vec::new();
    let mut pos: usize = 0;
    let mut k: usize = 0;
    while k < 24
        invariant
            k <= 24,
            acts@.len() == k,
            pos <= xml@.len(),
            n_act@ == tag_activity_open(),
            n_dt@ == tag_datetime(),
            n_val@ == tag_value(),
            n_lt@ == tag_lt(),
            spec_parse_samples(xml@, 0, 24) == (match spec_parse_samples(
                xml@,
                pos as int,
                (24 - k) as nat,
            ) {
                None => None::<(Seq<Activity>, int)>,
                Some(q) => Some((acts@ + q.0, q.1)),
            }),
            spec_samples_error(xml@, 0, 24) == spec_samples_error(xml@, pos as int, (24 - k) as nat),
            spec_site_activity_error(xml@) == spec_samples_error(xml@, 0, 24),
        decreases 24 - k,
    {
        let ghost pos0 = pos as int;
        let ghost acts0 = acts@;
        match parse_one_sample(xml, &n_act, &n_dt, &n_val, &n_lt, pos) {
            Ok(p) => {
                acts.push(p.0);
                pos = p.1;
                k += 1;
                proof {
                    let c = (24 - k) as nat;
                    assert(spec_parse_samples(xml@, pos0, (c + 1) as nat) == (
                    match spec_parse_samples(xml@, pos as int, c) {
                        None => None::<(Seq<Activity>, int)>,
                        Some(q) => Some((seq![p.0] + q.0, q.1)),
                    }));
                    if spec_parse_samples(xml@, pos as int, c) is Some {
                        let q = spec_parse_samples(xml@, pos as int, c).unwrap();
                        assert(acts0 + (seq![p.0] + q.0) =~= acts@ + q.0);
                    }
                }
            },
            Err(e) => {
                proof {
                    assert(spec_parse_samples(xml@, pos0, (24 - k) as nat) is None);
                    assert(spec_samples_error(xml@, pos0, (24 - k) as nat) == spec_sample_error(
                        xml@,
                        pos0,
                    ));
                    assert(e == spec_site_activity_error(xml@));
                }
                return Err(e);
            },
        }
    }
    match find_sub(xml, &n_act, pos) {
        Some(_) => Err(ParseError::WrongSampleCount),
        None => {
            proof {
                assert(spec_parse_samples(xml@, pos as int, 0) == Some(
                    (Seq::<Activity>::empty(), pos as int),
                ));
                assert(acts@ + Seq::<Activity>::empty() =~= acts@);
            }
            Ok(SiteActivity { updated, activity: acts })
        },
    }
}

} // verus!
