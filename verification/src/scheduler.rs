//! Time-of-day schedules: when an entry fires. Each entry fires at most once
//! per local day and only within ten minutes of its time, so a freshly
//! enabled entry does not snap to a time that already passed.

use chrono::{Local, NaiveDate, NaiveTime, TimeZone, Timelike};
use vstd::prelude::*;

verus! {

/// A local calendar date.
#[derive(Debug, Clone, Copy, PartialEq, Eq, Structural)]
pub struct LocalDate {
    pub year: i32,
    pub month: u32,
    pub day: u32,
}

/// The current local time, as the scheduler reads it.
#[derive(Debug, Clone, Copy)]
pub struct LocalNow {
    /// Seconds since the Unix epoch.
    pub timestamp: i64,
    pub date: LocalDate,
    /// Day of the week, 0 = Sunday.
    pub weekday: u8,
}

/// A time-of-day brightness rule.
#[derive(Debug, Clone)]
pub struct ScheduleEntry {
    pub id: String,
    pub enabled: bool,
    /// `HH:MM`, local time.
    pub time: String,
    /// Days of the week it applies on (0 = Sunday); empty means every day.
    pub days: Vec<u8>,
    /// Monitors it targets; empty means all of them.
    pub monitor_ids: Vec<String>,
    pub brightness_percent: u8,
}

/// The hour and minute that `NaiveTime::parse_from_str(s, "%H:%M")` reads.
pub uninterp spec fn hour_minute_of(s: Seq<char>) -> Option<(u32, u32)>;

/// `NaiveTime::parse_from_str(s, "%H:%M")`, as hour and minute. Its result
/// is named by `hour_minute_of`; chrono documents that a `NaiveTime` has an
/// hour below 24 and a minute below 60.
#[verifier::external_body]
fn parse_hour_minute(s: &str) -> (r: Option<(u32, u32)>)
    ensures
        r == hour_minute_of(s@),
        r matches Some(hm) ==> hm.0 < 24 && hm.1 < 60,
{
    NaiveTime::parse_from_str(s, "%H:%M").ok().map(|t| (t.hour(), t.minute()))
}

/// The text of the error that `NaiveTime::parse_from_str(s, "%H:%M")` gives.
pub uninterp spec fn parse_error_text_of(s: Seq<char>) -> Seq<char>;

/// The message of the error of `NaiveTime::parse_from_str(s, "%H:%M")`
/// (chrono's `ParseError` shown with `Display`), or `None` when `s` parses.
/// The text is named by `parse_error_text_of`.
#[verifier::external_body]
fn time_parse_error_text(s: &str) -> (m: Option<String>)
    ensures
        m is Some <==> hour_minute_of(s@) is None,
        m matches Some(t) ==> t@ == parse_error_text_of(s@),
{
    NaiveTime::parse_from_str(s, "%H:%M").err().map(|e| e.to_string())
}

/// The text `s` is shown as with `Debug` (quoted, with escapes).
pub uninterp spec fn debug_text(s: Seq<char>) -> Seq<char>;

/// `format!("{:?}", s)`: `s` quoted and escaped as `Debug` shows a string.
/// The text is named by `debug_text`.
#[verifier::external_body]
fn debug_quoted(s: &str) -> (q: String)
    ensures
        q@ == debug_text(s@),
{
    format!("{:?}", s)
}

/// The message for a schedule time that does not read as `%H:%M`:
/// `invalid time "<time>": <reason>`.
pub open spec fn invalid_time_text(s: Seq<char>) -> Seq<char> {
    "invalid time "@ + debug_text(s) + ": "@ + parse_error_text_of(s)
}

/// A wall-clock time on a local calendar date.
#[derive(Debug, Clone, Copy, PartialEq, Eq, Structural)]
pub struct LocalTime {
    pub date: LocalDate,
    pub hour: u32,
    pub minute: u32,
}

/// The local time at which an entry with time-of-day `time` is due on `date`.
pub open spec fn scheduled_local_time_of(time: Seq<char>, date: LocalDate) -> Option<LocalTime> {
    match hour_minute_of(time) {
        Some(hm) => Some(LocalTime { date, hour: hm.0, minute: hm.1 }),
        None => None,
    }
}

/// The local time at which `entry` is due on `now`'s date; `None` when its
/// time does not read as `HH:MM`.
pub fn scheduled_local_time(entry: &ScheduleEntry, now: &LocalNow) -> (r: Option<LocalTime>)
    ensures
        r == scheduled_local_time_of(entry.time@, now.date),
        r matches Some(t) ==> t.hour < 24 && t.minute < 60,
{
    match parse_hour_minute(entry.time.as_str()) {
        Some(hm) => Some(LocalTime { date: now.date, hour: hm.0, minute: hm.1 }),
        None => None,
    }
}

pub open spec fn is_leap_year(y: int) -> bool {
    (y % 4 == 0 && y % 100 != 0) || y % 400 == 0
}

pub open spec fn days_in_month(y: int, m: int) -> int {
    if m == 2 {
        if is_leap_year(y) { 29 } else { 28 }
    } else if m == 4 || m == 6 || m == 9 || m == 11 {
        30
    } else {
        31
    }
}

/// A real date of the proleptic Gregorian calendar.
pub open spec fn valid_civil_date(d: LocalDate) -> bool {
    1 <= d.month <= 12 && 1 <= d.day <= days_in_month(d.year as int, d.month as int)
}

/// Days from 1970-01-01 to the given proleptic Gregorian date.
pub open spec fn days_from_civil(y: int, m: int, d: int) -> int {
    let y1 = if m <= 2 { y - 1 } else { y };
    let era = y1 / 400;
    let yoe = y1 - era * 400;
    let mp = if m > 2 { m - 3 } else { m + 9 };
    let doy = (153 * mp + 2) / 5 + d - 1;
    let doe = yoe * 365 + yoe / 4 - yoe / 100 + doy;
    era * 146097 + doe - 719468
}

/// Seconds from the Unix epoch to `t` read as if it were UTC.
pub open spec fn local_seconds(t: LocalTime) -> int {
    days_from_civil(t.date.year as int, t.date.month as int, t.date.day as int) * 86400 + t.hour * 3600
        + t.minute * 60
}

/// What holds of the moment a local time falls on, in whatever time zone:
/// there is none for a date or time that does not exist, and a moment lies
/// less than a day (the largest UTC offset chrono admits) from the local
/// reading.
pub open spec fn possible_moment(t: LocalTime, s: Option<i64>) -> bool {
    &&& (!valid_civil_date(t.date) || t.hour >= 24 || t.minute >= 60) ==> s is None
    &&& s matches Some(ts) ==> local_seconds(t) - 86400 < ts < local_seconds(t) + 86400
}

/// The Unix timestamp of the local time `t` in the machine's time zone, when
/// that local time exists exactly once (`MappedLocalTime::single`). Which
/// moment it is depends on the time zone; what is stated holds in every zone:
/// `NaiveDate::from_ymd_opt` and `and_hms_opt` give `None` for a date or time
/// that does not exist, and the result is the local reading less chrono's
/// `FixedOffset`, which is below a day in size.
#[verifier::external_body]
fn local_timestamp(t: LocalTime) -> (r: Option<i64>)
    ensures
        possible_moment(t, r),
{
    let day = NaiveDate::from_ymd_opt(t.date.year, t.date.month, t.date.day)?;
    let naive = day.and_hms_opt(t.hour, t.minute, 0)?;
    Local.from_local_datetime(&naive).single().map(|dt| dt.timestamp())
}

/// What happens to a due-or-past entry.
#[derive(Debug, Clone, Copy, PartialEq, Eq)]
pub enum FireDecision {
    /// Not yet (or not today): leave it.
    Wait,
    /// Its window passed more than ten minutes ago: mark today done without firing.
    Expire,
    /// Apply it now and mark today done.
    Fire,
}

/// The decision for an entry scheduled at `scheduled` (a timestamp, `None`
/// when the local time is ambiguous or missing) at time `now`.
pub open spec fn fire_decision_of(now: i64, scheduled: Option<i64>, fired_today: bool) -> FireDecision {
    match scheduled {
        None => FireDecision::Wait,
        Some(t) => if now < t {
            FireDecision::Wait
        } else if fired_today {
            FireDecision::Wait
        } else if (now - t) / 60 > 10 {
            FireDecision::Expire
        } else {
            FireDecision::Fire
        },
    }
}

pub fn fire_decision(now: i64, scheduled: Option<i64>, fired_today: bool) -> (d: FireDecision)
    ensures
        d == fire_decision_of(now, scheduled, fired_today),
{
    match scheduled {
        None => FireDecision::Wait,
        Some(t) => {
            if now < t {
                FireDecision::Wait
            } else if fired_today {
                FireDecision::Wait
            } else if (now as i128 - t as i128) / 60 > 10 {
                FireDecision::Expire
            } else {
                FireDecision::Fire
            }
        },
    }
}

/// An entry fires only at or after its moment and less than eleven minutes
/// (the ten-minute window) past it, and never when it already fired today.
pub proof fn fires_only_in_window(now: i64, scheduled: Option<i64>, fired_today: bool)
    ensures
        fire_decision_of(now, scheduled, fired_today) == FireDecision::Fire ==> {
            &&& !fired_today
            &&& scheduled matches Some(t) && t <= now && now - t < 11 * 60
        },
        fire_decision_of(now, scheduled, fired_today) == FireDecision::Expire ==> {
            &&& !fired_today
            &&& scheduled matches Some(t) && now - t >= 11 * 60
        },
{
}

/// The day on which each entry last fired (or was marked done).
pub struct FiredLog {
    entries: Vec<(String, LocalDate)>,
}

pub open spec fn first_match(s: Seq<(String, LocalDate)>, id: Seq<char>) -> Option<LocalDate>
    decreases s.len(),
{
    if s.len() == 0 {
        None
    } else if s[0].0@ == id {
        Some(s[0].1)
    } else {
        first_match(s.drop_first(), id)
    }
}

impl FiredLog {
    /// The day entry `id` last fired.
    pub closed spec fn fired_on(&self, id: Seq<char>) -> Option<LocalDate> {
        first_match(self.entries@, id)
    }

    pub fn new() -> (log: Self)
        ensures
            forall|id: Seq<char>| log.fired_on(id) is None,
    {
        FiredLog { entries: Vec::new() }
    }

    pub fn get(&self, id: &String) -> (r: Option<LocalDate>)
        ensures
            r == self.fired_on(id@),
    {
        let mut k: usize = 0;
        assert(self.entries@.skip(0) =~= self.entries@);
        while k < self.entries.len()
            invariant
                k <= self.entries@.len(),
                first_match(self.entries@, id@) == first_match(self.entries@.skip(k as int), id@),
            decreases self.entries@.len() - k,
        {
            assert(self.entries@.skip(k as int).drop_first() =~= self.entries@.skip(k + 1));
            if self.entries[k].0 == *id {
                return Some(self.entries[k].1);
            }
            k += 1;
        }
        None
    }

    pub fn insert(&mut self, id: String, date: LocalDate)
        ensures
            forall|k: Seq<char>| #[trigger] final(self).fired_on(k) == if k == id@ {
                Some(date)
            } else {
                old(self).fired_on(k)
            },
    {
        let ghost old_entries = self.entries@;
        let mut k: usize = 0;
        while k < self.entries.len()
            invariant
                k <= self.entries@.len(),
                self.entries@ == old_entries,
                old_entries == old(self).entries@,
                forall|j: int| 0 <= j < k ==> self.entries@[j].0@ != id@,
            decreases self.entries@.len() - k,
        {
            if self.entries[k].0 == id {
                let ghost before = self.entries@;
                let ghost key = id@;
                self.entries.set(k, (id, date));
                proof {
                    assert forall|q: Seq<char>| #[trigger] first_match(self.entries@, q) == if q == key {
                        Some(date)
                    } else {
                        first_match(before, q)
                    } by {
                        lemma_first_match_update(before, k as int, self.entries@[k as int], q);
                        assert(self.entries@ == before.update(k as int, self.entries@[k as int]));
                    }
                }
                return;
            }
            k += 1;
        }
        let ghost before = self.entries@;
        let ghost key = id@;
        self.entries.push((id, date));
        proof {
            assert forall|q: Seq<char>| #[trigger] first_match(self.entries@, q) == if q == key {
                Some(date)
            } else {
                first_match(before, q)
            } by {
                lemma_first_match_push(before, self.entries@.last(), q);
                assert(self.entries@ == before.push(self.entries@.last()));
            }
        }
    }
}

proof fn lemma_first_match_update(s: Seq<(String, LocalDate)>, j: int, e: (String, LocalDate), k: Seq<char>)
    requires
        0 <= j < s.len(),
        s[j].0@ == e.0@,
        forall|i: int| 0 <= i < j ==> s[i].0@ != e.0@,
    ensures
        first_match(s.update(j, e), k) == if k == e.0@ {
            Some(e.1)
        } else {
            first_match(s, k)
        },
    decreases j,
{
    let t = s.update(j, e);
    if j == 0 {
        assert(t.drop_first() =~= s.drop_first());
        assert(t[0] == e);
    } else {
        assert(s[0].0@ != e.0@);
        assert forall|i: int| 0 <= i < j - 1 implies s.drop_first()[i].0@ != e.0@ by {
            assert(s.drop_first()[i] == s[i + 1]);
        }
        lemma_first_match_update(s.drop_first(), j - 1, e, k);
        assert(t.drop_first() =~= s.drop_first().update(j - 1, e));
        assert(t[0] == s[0]);
    }
}

proof fn lemma_first_match_push(s: Seq<(String, LocalDate)>, e: (String, LocalDate), k: Seq<char>)
    requires
        forall|i: int| 0 <= i < s.len() ==> s[i].0@ != e.0@,
    ensures
        first_match(s.push(e), k) == if k == e.0@ {
            Some(e.1)
        } else {
            first_match(s, k)
        },
    decreases s.len(),
{
    let t = s.push(e);
    if s.len() == 0 {
        assert(t.drop_first() =~= Seq::<(String, LocalDate)>::empty());
        assert(t[0] == e);
        assert(first_match(t.drop_first(), k) is None);
        assert(first_match(s, k) is None);
    } else {
        assert(s[0].0@ != e.0@);
        assert forall|i: int| 0 <= i < s.len() - 1 implies s.drop_first()[i].0@ != e.0@ by {
            assert(s.drop_first()[i] == s[i + 1]);
        }
        lemma_first_match_push(s.drop_first(), e, k);
        assert(t.drop_first() =~= s.drop_first().push(e));
        assert(t[0] == s[0]);
    }
}

/// An entry fires at most once per local day: once it fired (or was marked
/// done) on a day, no later call on that day fires it, whatever the time.
pub proof fn fires_at_most_once_per_day(log: FiredLog, id: Seq<char>, now: LocalNow, scheduled: Option<i64>)
    requires
        log.fired_on(id) == Some(now.date),
    ensures
        fire_decision_of(now.timestamp, scheduled, log.fired_on(id) == Some(now.date)) != FireDecision::Fire,
{
}

/// Whether `weekday` is one of `days` (an empty list means every day).
pub open spec fn runs_on(days: Seq<u8>, weekday: u8) -> bool {
    days.len() == 0 || days.contains(weekday)
}

/// An entry runs on a weekday exactly when its list of days is empty or
/// names that weekday at any position; so an entry that lists the day
/// behaves as one that lists no days at all.
pub proof fn runs_on_listed_days(days: Seq<u8>, weekday: u8)
    ensures
        runs_on(Seq::empty(), weekday),
        runs_on(days, weekday) <==> (days.len() == 0 || exists|j: int| 0 <= j < days.len() && days[j] == weekday),
        forall|j: int| 0 <= j < days.len() && #[trigger] days[j] == weekday ==> runs_on(days, weekday) == runs_on(
            Seq::empty(),
            weekday,
        ),
{
    assert forall|j: int| 0 <= j < days.len() && #[trigger] days[j] == weekday implies runs_on(days, weekday) by {
        assert(days.contains(weekday));
    }
}

/// Decide whether `entry` fires at `now`, and record a fired or expired
/// entry in `log` under today's date. `Ok(true)` means the caller applies
/// the entry's brightness now. The local time handed to the clock is the
/// one [`scheduled_local_time`] gives; the moment it falls on comes from the
/// machine's time zone, so the contract states the outcome for every moment
/// that local time can fall on ([`possible_moment`]).
pub fn maybe_fire(entry: &ScheduleEntry, now: &LocalNow, log: &mut FiredLog) -> (r: Result<bool, String>)
    ensures
        hour_minute_of(entry.time@) is None ==> (r matches Err(m) && m@ == invalid_time_text(
            entry.time@,
        )),
        r is Err ==> hour_minute_of(entry.time@) is None,
        (hour_minute_of(entry.time@) is Some && !runs_on(entry.days@, now.weekday)) ==> r == Ok::<
            bool,
            String,
        >(false),
        r is Err || !runs_on(entry.days@, now.weekday) ==> forall|k: Seq<char>| #[trigger] final(log).fired_on(k)
            == old(log).fired_on(k),
        (match scheduled_local_time_of(entry.time@, now.date) {
            Some(t) => runs_on(entry.days@, now.weekday) ==> (r matches Ok(fired) && settled_at_some_moment(
                *old(log),
                *final(log),
                entry.id@,
                *now,
                t,
                fired,
            )),
            None => true,
        }),
{
    let t = match scheduled_local_time(entry, now) {
        Some(t) => t,
        None => {
            let reason = match time_parse_error_text(entry.time.as_str()) {
                Some(e) => e,
                None => String::new(),
            };
            let mut m = "invalid time ".to_owned();
            let q = debug_quoted(entry.time.as_str());
            m.append(q.as_str());
            m.append(": ");
            m.append(reason.as_str());
            return Err(m);
        },
    };
    if entry.days.len() > 0 {
        let mut k: usize = 0;
        let mut found = false;
        while k < entry.days.len()
            invariant
                k <= entry.days@.len(),
                found == (exists|j: int| 0 <= j < k && entry.days@[j] == now.weekday),
            decreases entry.days@.len() - k,
        {
            if entry.days[k] == now.weekday {
                found = true;
            }
            k += 1;
        }
        if !found {
            assert(!entry.days@.contains(now.weekday));
            return Ok(false);
        }
        assert(entry.days@.contains(now.weekday)) by {
            let j = choose|j: int| 0 <= j < k && entry.days@[j] == now.weekday;
            assert(entry.days@[j] == now.weekday);
        }
    }
    let scheduled = local_timestamp(t);
    let fired = fire_if_due(&entry.id, now, scheduled, log);
    assert(possible_moment(t, scheduled) && settled(*old(log), *log, entry.id@, *now, scheduled, fired));
    assert(scheduled_local_time_of(entry.time@, now.date) == Some(t));
    assert(settled_at_some_moment(*old(log), *log, entry.id@, *now, t, fired));
    Ok(fired)
}

/// The outcome of settling entry `id` at `now` when its moment is
/// `scheduled`: whether it fires, and how the log changes (a fired or
/// expired entry is recorded under today's date).
pub open spec fn settled(
    before: FiredLog,
    after: FiredLog,
    id: Seq<char>,
    now: LocalNow,
    scheduled: Option<i64>,
    fired: bool,
) -> bool {
    let d = fire_decision_of(now.timestamp, scheduled, before.fired_on(id) == Some(now.date));
    &&& fired == (d == FireDecision::Fire)
    &&& d == FireDecision::Wait ==> forall|k: Seq<char>| #[trigger] after.fired_on(k) == before.fired_on(k)
    &&& d != FireDecision::Wait ==> forall|k: Seq<char>| #[trigger] after.fired_on(k) == if k == id {
        Some(now.date)
    } else {
        before.fired_on(k)
    }
}

/// The outcome of settling entry `id` at `now` for some moment that the
/// local time `t` can fall on.
pub open spec fn settled_at_some_moment(
    before: FiredLog,
    after: FiredLog,
    id: Seq<char>,
    now: LocalNow,
    t: LocalTime,
    fired: bool,
) -> bool {
    exists|s: Option<i64>| possible_moment(t, s) && #[trigger] settled(before, after, id, now, s, fired)
}

/// Settle entry `id` for today once the moment its time falls on is known
/// (`scheduled`, `None` when that local time is ambiguous or missing):
/// returns whether it fires now, and records a fired or expired entry in
/// `log` under today's date.
pub fn fire_if_due(id: &String, now: &LocalNow, scheduled: Option<i64>, log: &mut FiredLog) -> (fired: bool)
    ensures
        settled(*old(log), *final(log), id@, *now, scheduled, fired),
{
    let fired_today = match log.get(id) {
        Some(d) => d == now.date,
        None => false,
    };
    match fire_decision(now.timestamp, scheduled, fired_today) {
        FireDecision::Wait => false,
        FireDecision::Expire => {
            log.insert(id.clone(), now.date);
            false
        },
        FireDecision::Fire => {
            log.insert(id.clone(), now.date);
            true
        },
    }
}

/// The positions `k < n` whose id is `want`, in order.
pub open spec fn positions_with_id(ids: Seq<String>, want: Seq<char>, n: int) -> Seq<usize>
    decreases n,
{
    if n <= 0 {
        Seq::empty()
    } else if ids[n - 1]@ == want {
        positions_with_id(ids, want, n - 1).push((n - 1) as usize)
    } else {
        positions_with_id(ids, want, n - 1)
    }
}

/// The positions of the monitors an entry targets: every monitor when it
/// names none, else for each id it names, in its order, the monitors with
/// that id.
pub open spec fn targets_of(ids: Seq<String>, wanted: Seq<String>) -> Seq<usize>
    decreases wanted.len(),
{
    if wanted.len() == 0 {
        Seq::empty()
    } else {
        targets_of(ids, wanted.drop_last()) + positions_with_id(ids, wanted.last()@, ids.len() as int)
    }
}

/// Which of the monitors (by id, in order) a fired entry applies to.
pub fn schedule_targets(ids: &Vec<String>, wanted: &Vec<String>) -> (r: Vec<usize>)
    ensures
        wanted@.len() == 0 ==> r@ == Seq::new(ids@.len(), |k: int| k as usize),
        wanted@.len() > 0 ==> r@ == targets_of(ids@, wanted@),
{
    let mut r: Vec<usize> = Vec::new();
    if wanted.len() == 0 {
        let mut k: usize = 0;
        while k < ids.len()
            invariant
                k <= ids@.len(),
                r@ == Seq::new(k as nat, |j: int| j as usize),
            decreases ids@.len() - k,
        {
            r.push(k);
            k += 1;
            assert(r@ =~= Seq::new(k as nat, |j: int| j as usize));
        }
        return r;
    }
    let mut w: usize = 0;
    assert(wanted@.take(0) =~= Seq::<String>::empty());
    while w < wanted.len()
        invariant
            w <= wanted@.len(),
            r@ == targets_of(ids@, wanted@.take(w as int)),
        decreases wanted@.len() - w,
    {
        let ghost before = r@;
        let mut k: usize = 0;
        while k < ids.len()
            invariant
                w < wanted@.len(),
                k <= ids@.len(),
                r@ == before + positions_with_id(ids@, wanted@[w as int]@, k as int),
            decreases ids@.len() - k,
        {
            if ids[k] == wanted[w] {
                r.push(k);
            }
            assert(r@ =~= before + positions_with_id(ids@, wanted@[w as int]@, k + 1));
            k += 1;
        }
        assert(wanted@.take(w + 1).drop_last() =~= wanted@.take(w as int));
        assert(wanted@.take(w + 1).last() == wanted@[w as int]);
        w += 1;
    }
    assert(wanted@.take(w as int) =~= wanted@);
    r
}

} // verus!
