//! The local time of day, and the stamp that each log line opens with.

use chrono::{Datelike, Local, NaiveDate, Timelike};
use std::time::Instant;
use vstd::prelude::*;

use crate::config::Interval;
use crate::text::{
    decimal, decimals_hold_digits, four_digits, padding_only_adds_zeros, two_digits, zero_padded,
};

verus! {

/// The pattern of a stamp, in the notation of `strftime`.
pub const STAMP_PATTERN: &'static str = "%Y-%m-%d %H:%M:%S";

/// How old a stamp may grow before it is read anew.
pub const STAMP_LIFE_NANOS: u128 = 1_000_000_000;

/// A calendar date and a time of day, to the second.
#[derive(Debug, Clone, Copy)]
pub struct LocalTime {
    pub year: i32,
    pub month: u32,
    pub day: u32,
    pub hour: u32,
    pub minute: u32,
    pub second: u32,
}

/// Whether a year has a 29th of February.
pub open spec fn is_leap_year(year: int) -> bool {
    year % 4 == 0 && (year % 100 != 0 || year % 400 == 0)
}

/// The number of days of a month.
pub open spec fn days_in_month(year: int, month: int) -> int {
    if month == 2 {
        if is_leap_year(year) { 29 } else { 28 }
    } else if month == 4 || month == 6 || month == 9 || month == 11 {
        30
    } else {
        31
    }
}

/// A year: four digits, or a sign and at least four digits outside of 0 to 9999.
pub open spec fn year_text(year: int) -> Seq<char> {
    if 0 <= year <= 9999 {
        zero_padded(year as nat, 4)
    } else if year < 0 {
        seq!['-'] + zero_padded((-year) as nat, 4)
    } else {
        seq!['+'] + zero_padded(year as nat, 4)
    }
}

impl LocalTime {
    /// The date is one of the proleptic Gregorian calendar, in the years that
    /// `chrono` can represent, and the time is one of a day without leap second.
    pub open spec fn valid(&self) -> bool {
        &&& -262143 <= self.year <= 262142
        &&& 1 <= self.month <= 12
        &&& 1 <= self.day <= days_in_month(self.year as int, self.month as int)
        &&& self.hour < 24
        &&& self.minute < 60
        &&& self.second < 60
    }

    /// The stamp of this time: year, month and day joined by `-`, a space, then
    /// hour, minute and second joined by `:`.
    pub open spec fn stamp(&self) -> Seq<char> {
        year_text(self.year as int) + seq!['-'] + zero_padded(self.month as nat, 2) + seq!['-']
            + zero_padded(self.day as nat, 2) + seq![' '] + zero_padded(self.hour as nat, 2)
            + seq![':'] + zero_padded(self.minute as nat, 2) + seq![':'] + zero_padded(
            self.second as nat,
            2,
        )
    }
}

/// Declares `std::time::Instant`, of which nothing is known.
#[verifier::external_type_specification]
#[verifier::external_body]
pub struct ExInstant(Instant);

/// What a reading of a clock has shown.
pub enum Reading {
    /// The wall clock showed this time.
    Wall(LocalTime),
    /// The monotonic clock had run for this long.
    Tick(Interval),
}

/// The clocks of the machine: the wall clock in its time zone, and the monotonic
/// clock, which counts from the moment that this was made.
pub struct Clock {
    origin: Instant,
}

/// The readings that were made at this clock, oldest first.
pub uninterp spec fn readings(clock: Clock) -> Seq<Reading>;

/// `Instant::now`, the moment from which a new clock counts. No reading was made
/// at it yet.
#[verifier::external_body]
fn start_clock() -> (r: Clock)
    ensures
        readings(r) == Seq::<Reading>::empty(),
{
    Clock { origin: Instant::now() }
}

/// `NaiveDateTime::format` with `%Y-%m-%d %H:%M:%S`, on the date and time that
/// `NaiveDate::from_ymd_opt` and `and_hms_opt` make of `t`, and which they have
/// for every valid `t`. The year has four digits, or a sign and at least four
/// outside of 0 to 9999; the other numbers have two. The characters between the
/// numbers are those of the pattern.
#[verifier::external_body]
fn format_time(t: &LocalTime, pattern: &str) -> (r: String)
    requires
        t.valid(),
        pattern@ == "%Y-%m-%d %H:%M:%S"@,
    ensures
        r@ == t.stamp(),
{
    let date = NaiveDate::from_ymd_opt(t.year, t.month, t.day).unwrap();
    let time = date.and_hms_opt(t.hour, t.minute, t.second).unwrap();
    time.format(pattern).to_string()
}

impl Clock {
    /// Makes a clock, which counts from now on.
    pub fn new() -> (r: Self)
        ensures
            readings(r) == Seq::<Reading>::empty(),
    {
        start_clock()
    }

    /// `Local::now`, the wall clock in the machine's time zone, taken apart into its
    /// date and time of day by `naive_local`. These are a valid date and time. It is
    /// one reading. Left unsaid is what it shows, as that depends on the time, and
    /// that it panics when the machine's clock stands before 1970.
    #[verifier::external_body]
    fn wall(&mut self) -> (r: LocalTime)
        ensures
            r.valid(),
            readings(*final(self)) == readings(*old(self)).push(Reading::Wall(r)),
    {
        let now = Local::now().naive_local();
        LocalTime {
            year: now.year(),
            month: now.month(),
            day: now.day(),
            hour: now.hour(),
            minute: now.minute(),
            second: now.second(),
        }
    }

    /// `Instant::elapsed`, the time that has passed since the clock was made. It is
    /// one reading, and never below an earlier one, as the clock is monotonic. Left
    /// unsaid is what it shows, as that depends on the time.
    #[verifier::external_body]
    pub(crate) fn tick(&mut self) -> (r: Interval)
        ensures
            readings(*final(self)) == readings(*old(self)).push(Reading::Tick(r)),
            forall|i: int|
                0 <= i < readings(*old(self)).len() ==> (
                #[trigger] readings(*old(self))[i] matches Reading::Tick(t) ==> t.nanos
                    <= r.nanos),
    {
        Interval { nanos: self.origin.elapsed().as_nanos() }
    }
}

/// The stamp of a time as a string.
pub fn stamp_text(t: &LocalTime) -> (r: String)
    requires
        t.valid(),
    ensures
        r@ == t.stamp(),
{
    format_time(t, STAMP_PATTERN)
}

/// Whether a stamp that was read `age` ago is to be read anew.
pub open spec fn stale(age: Interval) -> bool {
    age.nanos >= STAMP_LIFE_NANOS
}

/// What can be known of a stamp.
pub struct StampState {
    /// What the wall clock showed when it was read for the stamp.
    pub time: LocalTime,
    /// How long the monotonic clock had run by then.
    pub read_at: Interval,
}

/// A look at the clocks for one line.
pub struct Look {
    /// How long the monotonic clock had run.
    pub tick: Interval,
    /// The stamp that the line was given.
    pub stamp: StampState,
}

/// The stamp that follows `s` when the monotonic clock has run for `tick`: if that
/// makes `s` stale, it is read anew, where the wall clock shows `now` and the
/// monotonic clock has run for `at`; otherwise it stays as it is.
pub open spec fn next_stamp(
    s: StampState,
    tick: Interval,
    now: LocalTime,
    at: Interval,
) -> StampState {
    if stale(tick.after(s.read_at)) {
        StampState { time: now, read_at: at }
    } else {
        s
    }
}

/// Whether a line can have been given its stamp by this look, `s` being the stamp
/// in use before: `s` itself while it is not stale, and otherwise one that was read
/// after the look began.
pub open spec fn follows(s: StampState, look: Look) -> bool {
    if stale(look.tick.after(s.read_at)) {
        look.stamp.time.valid() && look.tick.nanos <= look.stamp.read_at.nanos
    } else {
        look.stamp == s
    }
}

/// The readings that are made in a look, `s` being the stamp in use before: the
/// monotonic clock first, and then, if `s` is stale, both clocks for the new stamp.
pub open spec fn readings_for(s: StampState, look: Look) -> Seq<Reading> {
    if stale(look.tick.after(s.read_at)) {
        seq![
            Reading::Tick(look.tick),
            Reading::Wall(look.stamp.time),
            Reading::Tick(look.stamp.read_at),
        ]
    } else {
        seq![Reading::Tick(look.tick)]
    }
}

/// The stamp that a line is given is less than a second old at the look that the
/// line was given it by.
pub proof fn stamps_are_fresh(s: StampState, look: Look)
    requires
        follows(s, look),
    ensures
        look.tick.after(look.stamp.read_at).nanos < STAMP_LIFE_NANOS,
{
}

/// The stamp in use.
pub struct Stamp {
    time: LocalTime,
    text: String,
    read_at: Interval,
}

impl View for Stamp {
    type V = StampState;

    closed spec fn view(&self) -> StampState {
        StampState { time: self.time, read_at: self.read_at }
    }
}

impl Stamp {
    /// The stamp holds a valid time, and its text is that of the time.
    pub closed spec fn wf(&self) -> bool {
        &&& self.time.valid()
        &&& self.text@ == self.time.stamp()
    }

    /// Reads the clocks.
    pub fn new(clock: &mut Clock) -> (r: Self)
        ensures
            r.wf(),
            r@.time.valid(),
            readings(*final(clock)) == readings(*old(clock)) + seq![
                Reading::Wall(r@.time),
                Reading::Tick(r@.read_at),
            ],
    {
        let time = clock.wall();
        let read_at = clock.tick();
        Stamp { time, text: stamp_text(&time), read_at }
    }

    /// The text of the stamp.
    pub fn as_str(&self) -> (r: &str)
        requires
            self.wf(),
        ensures
            r@ == self@.time.stamp(),
    {
        self.text.as_str()
    }

    /// Tells whether a stamp that was read `age` ago is to be read anew.
    pub fn is_stale(age: Interval) -> (r: bool)
        ensures
            r == stale(age),
    {
        age.nanos >= STAMP_LIFE_NANOS
    }

    /// Makes this the stamp of `now`, read when the monotonic clock had run for
    /// `at`.
    pub fn set(&mut self, now: &LocalTime, at: Interval)
        requires
            now.valid(),
        ensures
            final(self).wf(),
            final(self)@ == (StampState { time: *now, read_at: at }),
    {
        self.time = *now;
        self.text = stamp_text(now);
        self.read_at = at;
    }

    /// Brings the stamp up to date when the monotonic clock has run for `tick`,
    /// where the wall clock shows `now` and the monotonic clock has run for `at` if
    /// they are read for it.
    pub fn refresh_from(&mut self, tick: Interval, now: &LocalTime, at: Interval)
        requires
            old(self).wf(),
            now.valid(),
        ensures
            final(self).wf(),
            final(self)@ == next_stamp(old(self)@, tick, *now, at),
    {
        if Self::is_stale(tick.since(&self.read_at)) {
            self.set(now, at);
        }
    }

    /// Looks at the clocks for one line: measures how old the stamp is, and reads it
    /// anew if it is stale.
    pub fn refresh(&mut self, clock: &mut Clock) -> (look: Ghost<Look>)
        requires
            old(self).wf(),
        ensures
            final(self).wf(),
            final(self)@ == look@.stamp,
            follows(old(self)@, look@),
            readings(*final(clock)) == readings(*old(clock)) + readings_for(old(self)@, look@),
    {
        let tick = clock.tick();
        if Self::is_stale(tick.since(&self.read_at)) {
            let ghost first = readings(*old(clock)).len() as int;
            let now = clock.wall();
            assert(readings(*clock)[first] == Reading::Tick(tick));
            let at = clock.tick();
            self.refresh_from(tick, &now, at);
        }
        Ghost(Look { tick, stamp: self@ })
    }
}

/// A stamp shows its time: each number stands in two digits at its place, counted
/// from the end, with the right character between them. In front is the year, in
/// four digits, or with a sign where these do not suffice.
pub proof fn stamps_show_their_times(t: LocalTime)
    requires
        t.valid(),
    ensures
        ({
            let digits = "0123456789"@;
            let s = t.stamp();
            let n = s.len() - 15;
            &&& n >= 4
            &&& s[n] == '-'
            &&& s[n + 1] == digits[t.month as int / 10]
            &&& s[n + 2] == digits[t.month as int % 10]
            &&& s[n + 3] == '-'
            &&& s[n + 4] == digits[t.day as int / 10]
            &&& s[n + 5] == digits[t.day as int % 10]
            &&& s[n + 6] == ' '
            &&& s[n + 7] == digits[t.hour as int / 10]
            &&& s[n + 8] == digits[t.hour as int % 10]
            &&& s[n + 9] == ':'
            &&& s[n + 10] == digits[t.minute as int / 10]
            &&& s[n + 11] == digits[t.minute as int % 10]
            &&& s[n + 12] == ':'
            &&& s[n + 13] == digits[t.second as int / 10]
            &&& s[n + 14] == digits[t.second as int % 10]
            &&& 0 <= t.year <= 9999 ==> {
                &&& n == 4
                &&& s[0] == digits[t.year as int / 1000]
                &&& s[1] == digits[t.year as int / 100 % 10]
                &&& s[2] == digits[t.year as int / 10 % 10]
                &&& s[3] == digits[t.year as int % 10]
            }
            &&& t.year > 9999 ==> s[0] == '+' && s.subrange(1, n) == decimal(t.year as nat)
            &&& -9999 <= t.year < 0 ==> {
                &&& n == 5
                &&& s[0] == '-'
                &&& s[1] == digits[-t.year / 1000]
                &&& s[2] == digits[-t.year / 100 % 10]
                &&& s[3] == digits[-t.year / 10 % 10]
                &&& s[4] == digits[-t.year % 10]
            }
            &&& t.year < -9999 ==> s[0] == '-' && s.subrange(1, n) == decimal((-t.year) as nat)
        }),
{
    let s = t.stamp();
    let n = s.len() - 15;
    two_digits(t.month as nat);
    two_digits(t.day as nat);
    two_digits(t.hour as nat);
    two_digits(t.minute as nat);
    two_digits(t.second as nat);
    let size: nat = if t.year < 0 { (-t.year) as nat } else { t.year as nat };
    padding_only_adds_zeros(size, 4);
    if size <= 9999 {
        four_digits(size);
    } else {
        five_digits_at_least(size);
        assert(zero_padded(size, 4) =~= decimal(size));
        assert(s.subrange(1, n) =~= decimal(size));
    }
}

/// A number above 9999 has more than four digits.
proof fn five_digits_at_least(n: nat)
    requires
        n > 9999,
    ensures
        decimal(n).len() >= 5,
{
    decimals_hold_digits(n / 10000);
    reveal_with_fuel(decimal, 5);
    assert(n / 10 / 10 / 10 / 10 == n / 10000);
}

/// A stamp is stale from a second on, and not before.
pub proof fn stamps_go_stale_after_a_second(age: Interval)
    ensures
        stale(age) == (age.nanos >= 1_000_000_000),
{
}

/// A stamp is kept for a second after it was read, and from then on read anew: it
/// shows what the wall clock shows, and its second begins when it is read.
pub proof fn stamps_are_read_each_second(
    s: StampState,
    tick: Interval,
    now: LocalTime,
    at: Interval,
)
    ensures
        tick.nanos < s.read_at.nanos + 1_000_000_000 ==> next_stamp(s, tick, now, at) == s,
        tick.nanos >= s.read_at.nanos + 1_000_000_000 ==> next_stamp(s, tick, now, at).time == now
            && next_stamp(s, tick, now, at).read_at == at,
{
}

/// A look measures the time once. A stamp that was read less than a second before is
/// kept, and no other reading is made. An older one is replaced by what the wall
/// clock shows next, and the monotonic clock is read once more for it.
pub proof fn looks_read_the_clocks(s: StampState, look: Look)
    requires
        follows(s, look),
    ensures
        ({
            let made = readings_for(s, look);
            &&& made.len() > 0
            &&& made[0] == Reading::Tick(look.tick)
            &&& look.tick.nanos < s.read_at.nanos + 1_000_000_000 ==> made.len() == 1 && look.stamp
                == s
            &&& look.tick.nanos >= s.read_at.nanos + 1_000_000_000 ==> {
                &&& made.len() == 3
                &&& made[1] == Reading::Wall(look.stamp.time)
                &&& made[2] == Reading::Tick(look.stamp.read_at)
                &&& look.stamp.time.valid()
                &&& look.stamp.read_at.nanos >= look.tick.nanos
            }
        }),
{
}

impl Stamp {
    /// What is known of a stamp is what it holds.
    proof fn view_shows_the_fields(&self)
        ensures
            self@.time == self.time,
            self@.read_at == self.read_at,
            self.wf() ==> self.text@ == self.time.stamp(),
    {
    }
}

} // verus!
