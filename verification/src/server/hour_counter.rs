//! Counting by the hour.
use chrono::Timelike;
use vstd::prelude::*;

verus! {

/// A point in time: seconds since the epoch, and nanoseconds behind them.
#[derive(Debug, Clone, Copy, PartialEq, Eq, Structural)]
pub struct Moment {
    pub secs: i64,
    pub nanos: u32,
}

/// Nanoseconds in an hour.
pub const NANOS_PER_HOUR: i128 = 3_600_000_000_000;

impl Moment {
    /// Nanoseconds since the epoch.
    pub open spec fn nanos(self) -> int {
        self.secs * 1_000_000_000 + self.nanos
    }
}

/// A moment and how the clocks of a place stand then: that many seconds ahead of
/// universal time.
#[derive(Debug, Clone, Copy, PartialEq, Eq, Structural)]
pub struct LocalMoment {
    pub at: Moment,
    pub offset: i32,
}

impl LocalMoment {
    /// What the clocks show, in seconds; their day, hour and minute change with every
    /// multiple of a day, an hour and a minute.
    pub open spec fn wall(self) -> int {
        self.at.secs + self.offset
    }

    /// The clocks are less than a day off.
    pub open spec fn fits(self) -> bool {
        -86_400 < self.offset < 86_400
    }
}

/// Calls `chrono::Local::now`: the present, with less than a second in nanoseconds, and
/// how the clocks of this machine's time zone stand, less than a day off. Which moment
/// that is, is up to the clock; one that stands before the epoch makes the call panic.
#[verifier::external_body]
fn local_now() -> (r: LocalMoment)
    ensures
        r.at.nanos < 1_000_000_000,
        r.fits(),
{
    let t = chrono::Local::now();
    let at = Moment { secs: t.timestamp(), nanos: t.timestamp_subsec_nanos() };
    LocalMoment { at, offset: t.offset().local_minus_utc() }
}

/// Calls `chrono::Timelike::with_minute` on a moment in the time zone of this
/// machine. At the moment that is found the clocks show this minute of the same hour,
/// and the same second; the nanoseconds are kept. How the clocks stand then, and
/// whether they show that time exactly once, is up to the time zone.
#[verifier::external_body]
fn local_with_minute(t: LocalMoment, minute: u32) -> (r: Option<LocalMoment>)
    ensures
        r matches Some(m) ==> {
            &&& minute < 60
            &&& m.wall() == t.wall() - t.wall() % 3600 + 60 * minute + t.wall() % 60
            &&& m.at.nanos == t.at.nanos
            &&& m.fits()
        },
{
    let utc = chrono::DateTime::from_timestamp(t.at.secs, t.at.nanos)?.naive_utc();
    let offset = chrono::FixedOffset::east_opt(t.offset)?;
    let from = chrono::DateTime::<chrono::Local>::from_naive_utc_and_offset(utc, offset);
    let moved = from.with_minute(minute)?;
    let at = Moment { secs: moved.timestamp(), nanos: moved.timestamp_subsec_nanos() };
    Some(LocalMoment { at, offset: moved.offset().local_minus_utc() })
}

/// Calls `chrono::Timelike::with_second` on a moment in the time zone of this
/// machine. At the moment that is found the clocks show this second of the same
/// minute; the nanoseconds are kept. How the clocks stand then, and whether they show
/// that time exactly once, is up to the time zone.
#[verifier::external_body]
fn local_with_second(t: LocalMoment, second: u32) -> (r: Option<LocalMoment>)
    ensures
        r matches Some(m) ==> {
            &&& second < 60
            &&& m.wall() == t.wall() - t.wall() % 60 + second
            &&& m.at.nanos == t.at.nanos
            &&& m.fits()
        },
{
    let utc = chrono::DateTime::from_timestamp(t.at.secs, t.at.nanos)?.naive_utc();
    let offset = chrono::FixedOffset::east_opt(t.offset)?;
    let from = chrono::DateTime::<chrono::Local>::from_naive_utc_and_offset(utc, offset);
    let moved = from.with_second(second)?;
    let at = Moment { secs: moved.timestamp(), nanos: moved.timestamp_subsec_nanos() };
    Some(LocalMoment { at, offset: moved.offset().local_minus_utc() })
}

/// Calls `chrono::Timelike::with_nanosecond` on a moment in the time zone of this
/// machine. At the moment that is found the clocks show the same second, with these
/// nanoseconds behind it. How the clocks stand then, and whether they show that time
/// exactly once, is up to the time zone.
#[verifier::external_body]
fn local_with_nanosecond(t: LocalMoment, nanosecond: u32) -> (r: Option<LocalMoment>)
    ensures
        r matches Some(m) ==> {
            &&& nanosecond < 2_000_000_000
            &&& m.wall() == t.wall()
            &&& m.at.nanos == nanosecond
            &&& m.fits()
        },
{
    let utc = chrono::DateTime::from_timestamp(t.at.secs, t.at.nanos)?.naive_utc();
    let offset = chrono::FixedOffset::east_opt(t.offset)?;
    let from = chrono::DateTime::<chrono::Local>::from_naive_utc_and_offset(utc, offset);
    let moved = from.with_nanosecond(nanosecond)?;
    let at = Moment { secs: moved.timestamp(), nanos: moved.timestamp_subsec_nanos() };
    Some(LocalMoment { at, offset: moved.offset().local_minus_utc() })
}

/// Whether the clocks show at `start` the full hour of what they show at `t`.
pub open spec fn is_hour_start(t: LocalMoment, start: LocalMoment) -> bool {
    &&& start.wall() == t.wall() - t.wall() % 3600
    &&& start.at.nanos == 0
    &&& start.fits()
}

/// Whether `hour` is the beginning of the hour that `t` is in, or `t` itself.
pub open spec fn is_hour_of(t: LocalMoment, hour: LocalMoment) -> bool {
    hour == t || is_hour_start(t, hour)
}

/// The beginning of an hour where it was found, and the moment itself where not.
pub fn start_or(t: LocalMoment, start: Option<LocalMoment>) -> (r: LocalMoment)
    ensures
        r == (match start {
            Some(s) => s,
            None => t,
        }),
{
    match start {
        Some(s) => s,
        None => t,
    }
}

/// The beginning of the hour that a moment is in, as the time zone of this machine
/// has it; the moment itself where that hour does not begin exactly once.
pub fn truncate_hour(t: LocalMoment) -> (r: LocalMoment)
    ensures
        is_hour_of(t, r),
{
    let start = match local_with_minute(t, 0) {
        Some(m) => match local_with_second(m, 0) {
            Some(s) => local_with_nanosecond(s, 0),
            None => None,
        },
        None => None,
    };
    start_or(t, start)
}

/// The beginning of the present hour.
pub fn current_hour() -> (r: Moment)
    ensures
        r.nanos < 1_000_000_000,
        exists|now: LocalMoment, hour: LocalMoment| #[trigger]
            is_hour_of(now, hour) && now.fits() && r == hour.at,
{
    let now = local_now();
    let hour = truncate_hour(now);
    assert(is_hour_of(now, hour));
    hour.at
}

/// How many full hours have passed from one moment to another; none where it is not
/// later.
pub open spec fn hours_between(from: Moment, to: Moment) -> int {
    if to.nanos() <= from.nanos() {
        0
    } else {
        (to.nanos() - from.nanos()) / (NANOS_PER_HOUR as int)
    }
}

/// The counts of the last hours, the present one first, after some hours have passed.
pub open spec fn shifted(counts: Seq<i64>, hours: int) -> Seq<i64> {
    Seq::new(
        counts.len(),
        |i: int|
            if i < hours {
                0i64
            } else {
                counts[i - hours]
            },
    )
}

/// A sum of counts, held within what fits.
pub open spec fn held_sum(a: i64, b: i64) -> i64 {
    if a + b > i64::MAX {
        i64::MAX
    } else if a + b < i64::MIN {
        i64::MIN
    } else {
        (a + b) as i64
    }
}

/// Counts of the last hours.
#[derive(Debug)]
pub struct HourCounter {
    counts: Vec<i64>,
    last_hour: Moment,
}

#[verifier::ext_equal]
pub struct HourView {
    /// The counts, that of the present hour first.
    pub counts: Seq<i64>,
    /// The beginning of the present hour.
    pub hour: Moment,
}

impl View for HourCounter {
    type V = HourView;

    closed spec fn view(&self) -> HourView {
        HourView { counts: self.counts@, hour: self.last_hour }
    }
}

impl HourView {
    /// The counts once it is `hour`.
    pub open spec fn at(self, hour: Moment) -> HourView {
        let passed = hours_between(self.hour, hour);
        if passed <= 0 {
            self
        } else {
            HourView { counts: shifted(self.counts, passed), hour }
        }
    }

    /// The counts after `delta` more in the present hour.
    pub open spec fn plus(self, delta: i64) -> HourView {
        HourView { counts: self.counts.update(0, held_sum(self.counts[0], delta)), ..self }
    }

    /// The counts of so many hours, as far as they are kept.
    pub open spec fn last(self, hours: usize) -> Seq<i64> {
        if hours < self.counts.len() {
            self.counts.take(hours as int)
        } else {
            self.counts
        }
    }
}

/// How many hours are kept: as many as asked for, but at least one.
pub open spec fn kept_hours(reserve_hours: usize) -> int {
    if reserve_hours == 0 {
        1
    } else {
        reserve_hours as int
    }
}

impl HourCounter {
    /// There is a count for the present hour.
    pub closed spec fn wf(&self) -> bool {
        self.counts@.len() > 0
    }

    /// There is a count for the present hour.
    pub proof fn lemma_has_present(&self)
        requires
            self.wf(),
        ensures
            self@.counts.len() > 0,
    {
    }

    /// A counter for so many hours that begins now.
    pub fn new(reserve_hours: usize) -> (r: HourCounter)
        ensures
            r.wf(),
            r@.counts == Seq::new(kept_hours(reserve_hours) as nat, |i: int| 0i64),
            r@.hour.nanos < 1_000_000_000,
    {
        HourCounter::new_at(reserve_hours, current_hour())
    }

    /// A counter for so many hours that begins at the hour `current`.
    pub fn new_at(reserve_hours: usize, current: Moment) -> (r: HourCounter)
        ensures
            r.wf(),
            r@.counts == Seq::new(kept_hours(reserve_hours) as nat, |i: int| 0i64),
            r@.hour == current,
    {
        let n: usize = if reserve_hours == 0 {
            1
        } else {
            reserve_hours
        };
        let mut counts: Vec<i64> = Vec::new();
        let mut i: usize = 0;
        while i < n
            invariant
                i <= n,
                counts@ == Seq::new(i as nat, |i: int| 0i64),
            decreases n - i,
        {
            counts.push(0);
            i += 1;
            assert(counts@ =~= Seq::new(i as nat, |i: int| 0i64));
        }
        HourCounter { counts, last_hour: current }
    }

    /// The counts of the last hours, the present one first.
    pub fn last_hours(&mut self, hours: usize) -> (r: Vec<i64>)
        requires
            old(self).wf(),
        ensures
            final(self).wf(),
            exists|now: Moment| #[trigger] old(self)@.at(now) == final(self)@,
            r@ == final(self)@.last(hours),
    {
        let now = current_hour();
        let r = self.last_hours_at(hours, now);
        assert(old(self)@.at(now) == self@);
        r
    }

    /// The counts of the last hours when it is the hour `now`.
    pub fn last_hours_at(&mut self, hours: usize, now: Moment) -> (r: Vec<i64>)
        requires
            old(self).wf(),
        ensures
            final(self).wf(),
            final(self)@ == old(self)@.at(now),
            r@ == old(self)@.at(now).last(hours),
    {
        self.rotate(now);
        let n: usize = if hours < self.counts.len() {
            hours
        } else {
            self.counts.len()
        };
        let r = vstd::slice::slice_to_vec(
            vstd::slice::slice_subrange(self.counts.as_slice(), 0, n),
        );
        assert(r@ =~= self@.last(hours));
        r
    }

    /// Counts `delta` more in the present hour.
    pub fn inc(&mut self, delta: i64)
        requires
            old(self).wf(),
        ensures
            final(self).wf(),
            exists|now: Moment| (#[trigger] old(self)@.at(now)).plus(delta) == final(self)@,
    {
        let now = current_hour();
        self.inc_at(delta, now);
        assert(old(self)@.at(now).plus(delta) == self@);
    }

    /// Counts `delta` more when it is the hour `now`.
    pub fn inc_at(&mut self, delta: i64, now: Moment)
        requires
            old(self).wf(),
        ensures
            final(self).wf(),
            final(self)@ == old(self)@.at(now).plus(delta),
    {
        self.rotate(now);
        let ghost mid = self@;
        let sum: i128 = self.counts[0] as i128 + delta as i128;
        let held: i64 = if sum > i64::MAX as i128 {
            i64::MAX
        } else if sum < i64::MIN as i128 {
            i64::MIN
        } else {
            sum as i64
        };
        self.counts.set(0, held);
        assert(self@ =~= mid.plus(delta));
    }

    fn rotate(&mut self, current: Moment)
        requires
            old(self).wf(),
        ensures
            final(self).wf(),
            final(self)@ == old(self)@.at(current),
    {
        let ghost before = self@;
        let from: i128 = self.last_hour.secs as i128 * 1_000_000_000 + self.last_hour.nanos as i128;
        let to: i128 = current.secs as i128 * 1_000_000_000 + current.nanos as i128;
        if to <= from {
            return;
        }
        let hours: i128 = (to - from) / NANOS_PER_HOUR;
        if hours <= 0 {
            return;
        }
        let n: usize = self.counts.len();
        let mut counts: Vec<i64> = Vec::new();
        let mut i: usize = 0;
        while i < n
            invariant
                i <= n,
                n == self.counts@.len(),
                self.counts@ == before.counts,
                hours > 0,
                counts@ == shifted(before.counts, hours as int).take(i as int),
            decreases n - i,
        {
            if (i as i128) < hours {
                counts.push(0);
            } else {
                counts.push(self.counts[i - hours as usize]);
            }
            i += 1;
            assert(counts@ =~= shifted(before.counts, hours as int).take(i as int));
        }
        assert(counts@ =~= shifted(before.counts, hours as int));
        self.counts = counts;
        self.last_hour = current;
        assert(self@ =~= before.at(current));
    }
}

/// What is counted in an hour is read back in that hour, on top of what was counted
/// before; the counts of the other hours stay.
pub proof fn counts_are_read_back(c: HourView, hour: Moment, delta: i64)
    requires
        c.counts.len() > 0,
    ensures
        c.at(hour).plus(delta).at(hour) == c.at(hour).plus(delta),
        c.at(hour).plus(delta).counts[0] == held_sum(c.at(hour).counts[0], delta),
        forall|i: int|
            0 < i < c.counts.len() ==> c.at(hour).plus(delta).counts[i] == #[trigger] c.at(
                hour,
            ).counts[i],
{
}

/// Hours that pass in two steps pass as in one.
pub proof fn hours_pass_one_by_one(counts: Seq<i64>, a: int, b: int)
    requires
        a >= 0,
        b >= 0,
    ensures
        shifted(shifted(counts, a), b) == shifted(counts, a + b),
{
    assert(shifted(shifted(counts, a), b) =~= shifted(counts, a + b));
}

/// After `k` hours a count stands `k` places further back, until it is forgotten, and
/// the hours since then stand at nothing.
pub proof fn counts_move_back(c: HourView, hour: Moment, i: int)
    requires
        0 <= i < c.counts.len(),
    ensures
        ({
            let k = hours_between(c.hour, hour);
            let out = c.at(hour).counts;
            &&& k >= 0
            &&& out.len() == c.counts.len()
            &&& i + k < c.counts.len() ==> out[i + k] == c.counts[i]
            &&& i < k ==> out[i] == 0
        }),
{
    let k = hours_between(c.hour, hour);
    assert(k >= 0) by {
        if hour.nanos() > c.hour.nanos() {
            assert((hour.nanos() - c.hour.nanos()) / 3_600_000_000_000int >= 0)
                by (nonlinear_arith)
                requires
                    hour.nanos() - c.hour.nanos() > 0,
            ;
        }
    }
}

} // verus!
