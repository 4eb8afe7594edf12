//! Reading-activity tracker: a log of reading events, each sorted into a
//! bucket by its age, with counts per bucket.

use vstd::prelude::*;

verus! {

/// Nanoseconds in one second.
pub const NANOS_PER_SECOND: i128 = 1_000_000_000;

/// Nanoseconds in one day.
pub const DAY_NANOS: i128 = 86_400_000_000_000;

/// Nanoseconds in one week.
pub const WEEK_NANOS: i128 = 604_800_000_000_000;

/// Nanoseconds in four weeks.
pub const MONTH_NANOS: i128 = 2_419_200_000_000_000;

/// How long ago an event happened.
#[derive(Clone, Copy, Debug, PartialEq, Eq, Structural)]
pub enum ReadCategory {
    /// Less than a day ago.
    Day,
    /// At least a day, less than a week ago.
    Week,
    /// At least a week, less than four weeks ago.
    Month,
    /// Four weeks ago or more: due for removal.
    More,
}

/// A point in time: whole seconds since the Unix epoch and the nanoseconds
/// past that second.
#[derive(Clone, Copy, Debug, PartialEq, Eq, Structural)]
pub struct Moment {
    pub secs: i64,
    pub nanos: u32,
}

impl Moment {
    /// Nanoseconds since the Unix epoch.
    pub open spec fn as_nanos(self) -> int {
        self.secs * 1_000_000_000 + self.nanos
    }

    /// Seconds since the last midnight, in universal time.
    pub open spec fn second_of_day(self) -> int {
        (self.secs as int) % 86_400
    }

    /// Whether the moment lies inside a leap second. Such a moment is
    /// written with the second before it and a billion nanoseconds or more.
    pub open spec fn in_leap_second(self) -> bool {
        self.nanos >= 1_000_000_000
    }

    /// Computes `second_of_day`.
    fn day_second(&self) -> (second: i64)
        ensures
            second == self.second_of_day(),
    {
        match self.secs.checked_rem_euclid(86_400) {
            Some(second) => second,
            None => 0,
        }
    }

    /// A moment from its two parts.
    pub fn new(secs: i64, nanos: u32) -> (m: Moment)
        ensures
            m == (Moment { secs, nanos }),
    {
        Moment { secs, nanos }
    }

    /// The moment `days` days, `secs` seconds and `nanos` nanoseconds after
    /// `self`, or `None` where the seconds leave the range of `i64`.
    pub fn later(&self, days: u32, secs: u32, nanos: u32) -> (m: Option<Moment>)
        ensures
            match m {
                Some(t) => t.as_nanos() == self.as_nanos() + days * DAY_NANOS + secs
                    * NANOS_PER_SECOND + nanos && t.nanos < NANOS_PER_SECOND,
                None => self.secs + days * 86_400 + secs + (self.nanos + nanos) / 1_000_000_000
                    > i64::MAX,
            },
    {
        let sub: u64 = self.nanos as u64 + nanos as u64;
        let carry: u64 = sub / 1_000_000_000;
        let rest: u64 = sub % 1_000_000_000;
        let total: i128 = self.secs as i128 + days as i128 * 86_400 + secs as i128 + carry as i128;
        if total > i64::MAX as i128 {
            None
        } else {
            Some(Moment { secs: total as i64, nanos: rest as u32 })
        }
    }
}

/// The leap second that `chrono` counts in or out when it subtracts
/// `created` from `now`. It goes by the seconds of the day of the two
/// moments: one second more where `now` stands later in its day than
/// `created` in its own and `created` lies inside a leap second, one second
/// less where `now` stands earlier in its day and lies inside a leap second
/// itself, and nothing otherwise.
pub open spec fn leap_adjustment(created: Moment, now: Moment) -> int {
    if now.second_of_day() > created.second_of_day() && created.in_leap_second() {
        1
    } else if now.second_of_day() < created.second_of_day() && now.in_leap_second() {
        -1
    } else {
        0
    }
}

/// Nanoseconds from `created` to `now`, as `chrono` subtracts two moments;
/// negative where `now` is the earlier. Between two moments of which
/// neither lies inside a leap second this is the plain difference.
pub open spec fn age_nanos(created: Moment, now: Moment) -> int {
    (now.secs - created.secs + leap_adjustment(created, now)) * 1_000_000_000 + (now.nanos
        - created.nanos)
}

/// The bucket of an event of the given age. Each bucket's upper edge is
/// excluded; an event from the future counts as less than a day old.
pub open spec fn category_of_age(age: int) -> ReadCategory {
    if age < DAY_NANOS {
        ReadCategory::Day
    } else if age < WEEK_NANOS {
        ReadCategory::Week
    } else if age < MONTH_NANOS {
        ReadCategory::Month
    } else {
        ReadCategory::More
    }
}

/// One reading event: when it happened, and the bucket it was last sorted
/// into.
#[derive(Clone, Copy, Debug, PartialEq, Eq, Structural)]
pub struct ReadingEvent {
    pub time: Moment,
    pub validity: ReadCategory,
}

/// Reads the system clock with `chrono::Local::now` and splits the instant
/// into Unix seconds (`DateTime::timestamp`) and the nanoseconds past them
/// (`DateTime::timestamp_subsec_nanos`). Which moment it is, is whatever the
/// clock says. As the source of `chrono` shows, the moment is built from the
/// system time's whole seconds and its nanoseconds below a second, so it
/// never lies inside a leap second. `chrono` gives up where the system
/// clock stands before the Unix epoch.
#[verifier::external_body]
pub(crate) fn clock_now() -> (now: Moment)
    ensures
        !now.in_leap_second(),
{
    let t = chrono::Local::now();
    Moment { secs: t.timestamp(), nanos: t.timestamp_subsec_nanos() }
}

impl ReadingEvent {
    /// A fresh event at `time`.
    pub open spec fn fresh(time: Moment) -> ReadingEvent {
        ReadingEvent { time, validity: ReadCategory::Day }
    }

    /// The event as it is sorted when looked at from `now`.
    pub open spec fn refreshed(self, now: Moment) -> ReadingEvent {
        ReadingEvent { time: self.time, validity: category_of_age(age_nanos(self.time, now)) }
    }

    /// An event that happened at `time`, sorted as fresh.
    pub fn at(time: Moment) -> (e: ReadingEvent)
        ensures
            e == Self::fresh(time),
    {
        ReadingEvent { time, validity: ReadCategory::Day }
    }

    /// Sorts the event into its bucket as of `current_time`.
    pub fn update(&mut self, current_time: &Moment)
        ensures
            *final(self) == old(self).refreshed(*current_time),
    {
        let now_second: i64 = current_time.day_second();
        let own_second: i64 = self.time.day_second();
        let leap: i128 = if now_second > own_second && self.time.nanos >= 1_000_000_000 {
            1
        } else if now_second < own_second && current_time.nanos >= 1_000_000_000 {
            -1
        } else {
            0
        };
        let age: i128 = (current_time.secs as i128 - self.time.secs as i128 + leap)
            * NANOS_PER_SECOND + (current_time.nanos as i128 - self.time.nanos as i128);
        if age < DAY_NANOS {
            self.validity = ReadCategory::Day;
        } else if age < WEEK_NANOS {
            self.validity = ReadCategory::Week;
        } else if age < MONTH_NANOS {
            self.validity = ReadCategory::Month;
        } else {
            self.validity = ReadCategory::More;
        }
    }
}

impl Default for ReadingEvent {
    /// A fresh event that happens now, by the system clock.
    fn default() -> (e: ReadingEvent)
        ensures
            e.validity == ReadCategory::Day,
            !e.time.in_leap_second(),
    {
        ReadingEvent::at(clock_now())
    }
}

/// The rule by which a refresh re-sorts one event.
pub open spec fn refresher(now: Moment) -> spec_fn(ReadingEvent) -> ReadingEvent {
    |e: ReadingEvent| e.refreshed(now)
}

/// The events a refresh keeps: all but those four weeks old or older.
pub open spec fn is_live() -> spec_fn(ReadingEvent) -> bool {
    |e: ReadingEvent| e.validity != ReadCategory::More
}

/// The events that sit in bucket `c`.
pub open spec fn in_category(c: ReadCategory) -> spec_fn(ReadingEvent) -> bool {
    |e: ReadingEvent| e.validity == c
}

/// The log after a refresh at `now`: every event re-sorted by its age, then
/// the expired ones dropped, the others in their old order.
pub open spec fn refreshed_events(s: Seq<ReadingEvent>, now: Moment) -> Seq<ReadingEvent> {
    s.map_values(refresher(now)).filter(is_live())
}

/// How many events of `s` sit in bucket `c`.
pub open spec fn count_in(s: Seq<ReadingEvent>, c: ReadCategory) -> nat {
    s.filter(in_category(c)).len()
}

/// The log of reading events, oldest entry first.
#[derive(Debug)]
pub struct ReadingStatistics {
    events: Vec<ReadingEvent>,
}

impl View for ReadingStatistics {
    type V = Seq<ReadingEvent>;

    closed spec fn view(&self) -> Seq<ReadingEvent> {
        self.events@
    }
}

impl Clone for ReadingStatistics {
    fn clone(&self) -> (s: Self)
        ensures
            s@ == self@,
    {
        ReadingStatistics { events: self.events.clone() }
    }
}

impl ReadingStatistics {
    /// An empty log.
    pub fn new() -> (s: Self)
        ensures
            s@ == Seq::<ReadingEvent>::empty(),
    {
        Self { events: Vec::new() }
    }

    /// A log that holds exactly `events`, as they stand.
    pub fn from_events(events: Vec<ReadingEvent>) -> (s: Self)
        ensures
            s@ == events@,
    {
        Self { events }
    }

    /// A copy of the events, oldest entry first.
    pub fn events(&self) -> (v: Vec<ReadingEvent>)
        ensures
            v@ == self@,
    {
        self.events.clone()
    }

    /// Appends one fresh event that happened at `now`.
    pub fn increment_at(&mut self, now: Moment)
        ensures
            final(self)@ == old(self)@.push(ReadingEvent::fresh(now)),
    {
        self.events.push(ReadingEvent::at(now));
    }

    /// Appends one fresh event, timed by the system clock.
    pub fn increment(&mut self)
        ensures
            exists|now: Moment|
                !now.in_leap_second() && final(self)@ == old(self)@.push(
                    #[trigger] ReadingEvent::fresh(now),
                ),
    {
        let now = clock_now();
        self.increment_at(now);
    }

    /// Re-sorts every event by its age at `now` and drops the expired ones.
    pub fn update_at(&mut self, now: Moment)
        ensures
            final(self)@ == refreshed_events(old(self)@, now),
    {
        let mut kept: Vec<ReadingEvent> = Vec::new();
        let n: usize = self.events.len();
        let mut i: usize = 0;
        proof {
            reveal(Seq::filter);
            assert(self.events@.take(0).map_values(refresher(now)) =~= Seq::<ReadingEvent>::empty());
        }
        while i < n
            invariant
                i <= n,
                n == self.events.len(),
                kept@ == refreshed_events(self.events@.take(i as int), now),
            decreases n - i,
        {
            let mut e: ReadingEvent = self.events[i];
            e.update(&now);
            proof {
                let before = self.events@.take(i as int);
                let after = self.events@.take(i + 1);
                assert(after =~= before.push(self.events@[i as int]));
                assert(after.map_values(refresher(now)) =~= before.map_values(refresher(now)).push(e));
                before.map_values(refresher(now)).lemma_filter_push(e, is_live());
            }
            if e.validity != ReadCategory::More {
                kept.push(e);
            }
            i = i + 1;
        }
        proof {
            assert(self.events@.take(n as int) =~= self.events@);
        }
        self.events = kept;
    }

    /// Re-sorts every event by its age on the system clock and drops the
    /// expired ones.
    pub fn update(&mut self)
        ensures
            exists|now: Moment|
                !now.in_leap_second() && final(self)@ == #[trigger] refreshed_events(
                    old(self)@,
                    now,
                ),
    {
        let now = clock_now();
        self.update_at(now);
    }

    /// How many events sit in bucket `c`.
    pub fn count(&self, c: ReadCategory) -> (n: usize)
        ensures
            n == count_in(self@, c),
    {
        let len: usize = self.events.len();
        let mut n: usize = 0;
        let mut i: usize = 0;
        proof {
            reveal(Seq::filter);
        }
        while i < len
            invariant
                i <= len,
                len == self.events.len(),
                n <= i,
                n == count_in(self.events@.take(i as int), c),
            decreases len - i,
        {
            proof {
                let before = self.events@.take(i as int);
                assert(self.events@.take(i + 1) =~= before.push(self.events@[i as int]));
                before.lemma_filter_push(self.events@[i as int], in_category(c));
            }
            if self.events[i].validity == c {
                n = n + 1;
            }
            i = i + 1;
        }
        proof {
            assert(self.events@.take(len as int) =~= self.events@);
        }
        n
    }

    /// Events less than a day old at the last refresh.
    pub fn last_day(&self) -> (n: usize)
        ensures
            n == count_in(self@, ReadCategory::Day),
    {
        self.count(ReadCategory::Day)
    }

    /// Events at least a day and less than a week old at the last refresh.
    pub fn last_week(&self) -> (n: usize)
        ensures
            n == count_in(self@, ReadCategory::Week),
    {
        self.count(ReadCategory::Week)
    }

    /// Events at least a week and less than four weeks old at the last
    /// refresh.
    pub fn last_month(&self) -> (n: usize)
        ensures
            n == count_in(self@, ReadCategory::Month),
    {
        self.count(ReadCategory::Month)
    }
}

/// Between two moments of which neither lies inside a leap second, the age
/// is the plain difference of their nanoseconds since the epoch.
pub proof fn law_age_is_plain_difference(created: Moment, now: Moment)
    requires
        !created.in_leap_second(),
        !now.in_leap_second(),
    ensures
        age_nanos(created, now) == now.as_nanos() - created.as_nanos(),
{
}

/// Bucket migration. An event recorded at `t` and looked at from `now` sits
/// in `Day` while less than a day has passed, in `Week` from one day up to a
/// week, in `Month` from one week up to four weeks, and is gone from the log
/// once four weeks or more have passed. The events recorded before it are
/// refreshed as if it were not there.
pub proof fn law_bucket_migration(s: Seq<ReadingEvent>, t: Moment, now: Moment)
    ensures
        ({
            let age = age_nanos(t, now);
            let before = refreshed_events(s, now);
            let after = refreshed_events(s.push(ReadingEvent::fresh(t)), now);
            &&& age < DAY_NANOS ==> after == before.push(
                ReadingEvent { time: t, validity: ReadCategory::Day },
            )
            &&& DAY_NANOS <= age < WEEK_NANOS ==> after == before.push(
                ReadingEvent { time: t, validity: ReadCategory::Week },
            )
            &&& WEEK_NANOS <= age < MONTH_NANOS ==> after == before.push(
                ReadingEvent { time: t, validity: ReadCategory::Month },
            )
            &&& MONTH_NANOS <= age ==> after == before
        }),
{
    let e = ReadingEvent::fresh(t);
    let mapped = s.map_values(refresher(now));
    assert(s.push(e).map_values(refresher(now)) =~= mapped.push(e.refreshed(now)));
    mapped.lemma_filter_push(e.refreshed(now), is_live());
}

/// The counts after one event. On a log that was empty, an event recorded
/// at `t` and refreshed at `now` is counted in exactly the bucket of its age,
/// and in none once it has expired.
pub proof fn law_single_event_counts(t: Moment, now: Moment)
    ensures
        ({
            let age = age_nanos(t, now);
            let after = refreshed_events(Seq::<ReadingEvent>::empty().push(ReadingEvent::fresh(t)), now);
            &&& count_in(after, ReadCategory::Day) == (if age < DAY_NANOS { 1nat } else { 0nat })
            &&& count_in(after, ReadCategory::Week) == (if DAY_NANOS <= age < WEEK_NANOS { 1nat } else { 0nat })
            &&& count_in(after, ReadCategory::Month) == (if WEEK_NANOS <= age < MONTH_NANOS { 1nat } else { 0nat })
            &&& after.len() == (if age < MONTH_NANOS { 1nat } else { 0nat })
        }),
{
    let none = Seq::<ReadingEvent>::empty();
    law_bucket_migration(none, t, now);
    reveal(Seq::filter);
    assert(none.map_values(refresher(now)) =~= none);
    assert(refreshed_events(none, now) == none);
    let r = ReadingEvent::fresh(t).refreshed(now);
    none.lemma_filter_push(r, in_category(ReadCategory::Day));
    none.lemma_filter_push(r, in_category(ReadCategory::Week));
    none.lemma_filter_push(r, in_category(ReadCategory::Month));
}

/// What a refresh leaves. Every event that is in the log after a refresh at
/// `now` sits in the bucket of its age at `now`, none of them is expired, and
/// the three counts add up to the length of the log.
pub proof fn law_refresh_sorts_every_event(s: Seq<ReadingEvent>, now: Moment)
    ensures
        ({
            let after = refreshed_events(s, now);
            &&& forall|i: int|
                0 <= i < after.len() ==> (#[trigger] after[i]).validity == category_of_age(
                    age_nanos(after[i].time, now),
                ) && after[i].validity != ReadCategory::More
            &&& count_in(after, ReadCategory::Day) + count_in(after, ReadCategory::Week) + count_in(
                after,
                ReadCategory::Month,
            ) == after.len()
        }),
    decreases s.len(),
{
    reveal(Seq::filter);
    let after = refreshed_events(s, now);
    if s.len() == 0 {
        assert(s.map_values(refresher(now)) =~= s);
    } else {
        let head = s.drop_last();
        let e = s.last().refreshed(now);
        law_refresh_sorts_every_event(head, now);
        assert(s =~= head.push(s.last()));
        assert(s.map_values(refresher(now)) =~= head.map_values(refresher(now)).push(e));
        head.map_values(refresher(now)).lemma_filter_push(e, is_live());
        let before = refreshed_events(head, now);
        before.lemma_filter_push(e, in_category(ReadCategory::Day));
        before.lemma_filter_push(e, in_category(ReadCategory::Week));
        before.lemma_filter_push(e, in_category(ReadCategory::Month));
    }
}

} // verus!
