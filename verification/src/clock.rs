//! Points in time, in Coordinated Universal Time.
use vstd::prelude::*;

verus! {

/// The first second that chrono can hold, in the year 262144 before the common era.
pub const EARLIEST: i64 = -8_334_601_228_800;

/// The last second that chrono can hold, in the year 262142.
pub const LATEST: i64 = 8_210_266_876_799;

/// How many seconds a day has.
pub const DAY_SECONDS: i64 = 86_400;

/// A point in time.
#[derive(Clone, Copy, Debug)]
pub struct UtcTime {
    secs: i64,
    nanos: u32,
}

impl View for UtcTime {
    type V = UtcTime;

    open spec fn view(&self) -> UtcTime {
        *self
    }
}

/// How chrono writes the date of a second since the epoch.
pub uninterp spec fn utc_date_text(secs: i64) -> Seq<char>;

/// How chrono writes a point in time after RFC 3339.
pub uninterp spec fn rfc3339_text(secs: i64, nanos: u32) -> Seq<char>;

/// What chrono reads from a text in a given form: the seconds and nanoseconds since the epoch.
pub uninterp spec fn time_read(text: Seq<char>, form: Seq<char>) -> Option<(i64, u32)>;

/// Whether so many seconds and nanoseconds since the start of 1970 are a point in time. The
/// nanoseconds reach into a second one only at the end of a minute, for a leap second.
pub open spec fn is_time(secs: int, nanos: int) -> bool {
    &&& EARLIEST <= secs <= LATEST
    &&& 0 <= nanos < 1_000_000_000 || (0 <= nanos < 2_000_000_000 && secs % 60 == 59)
}

/// `chrono::DateTime::from_timestamp`, `date_naive` and `to_epoch_days`: the calendar day of a
/// second, counted from the first of January 1970. Every day has the same number of seconds.
#[verifier::external_body]
fn epoch_day(secs: i64) -> (day: i32)
    requires
        EARLIEST <= secs <= LATEST,
    ensures
        day == secs as int / DAY_SECONDS as int,
{
    chrono::DateTime::from_timestamp(secs, 0).unwrap().date_naive().to_epoch_days()
}

/// `chrono::DateTime::from_timestamp`, `date_naive` and the `Display` of `NaiveDate`: the text is
/// a function of the second alone.
#[verifier::external_body]
fn epoch_date(secs: i64) -> (text: String)
    requires
        EARLIEST <= secs <= LATEST,
    ensures
        text@ == utc_date_text(secs),
{
    chrono::DateTime::from_timestamp(secs, 0).unwrap().date_naive().to_string()
}

/// `chrono::DateTime::from_timestamp` and `to_rfc3339`: the text is a function of the point in
/// time alone.
#[verifier::external_body]
fn epoch_rfc3339(secs: i64, nanos: u32) -> (text: String)
    requires
        is_time(secs as int, nanos as int),
    ensures
        text@ == rfc3339_text(secs, nanos),
{
    chrono::DateTime::from_timestamp(secs, nanos).unwrap().to_rfc3339()
}

/// `chrono::DateTime::parse_from_str`, `timestamp` and `timestamp_subsec_nanos`: the outcome is a
/// function of the text and the form alone.
#[verifier::external_body]
fn read_time(text: &str, form: &str) -> (r: Option<(i64, u32)>)
    ensures
        r == time_read(text@, form@),
{
    match chrono::DateTime::parse_from_str(text, form) {
        Ok(time) => Some((time.timestamp(), time.timestamp_subsec_nanos())),
        Err(_) => None,
    }
}

impl UtcTime {
    #[verifier::type_invariant]
    spec fn in_range(self) -> bool {
        is_time(self.secs as int, self.nanos as int)
    }

    /// The point in time so many seconds and nanoseconds after the start of 1970.
    pub closed spec fn of(secs: i64, nanos: u32) -> UtcTime {
        UtcTime { secs, nanos }
    }

    /// Whole seconds since the start of 1970.
    pub closed spec fn seconds(self) -> i64 {
        self.secs
    }

    /// Nanoseconds since the last whole second.
    pub closed spec fn subsecond(self) -> u32 {
        self.nanos
    }

    /// The calendar day, counted from the first of January 1970.
    pub open spec fn on_day(self) -> int {
        self.seconds() as int / DAY_SECONDS as int
    }

    /// Whether the point in time lies before another.
    pub open spec fn is_before(self, other: UtcTime) -> bool {
        self.seconds() < other.seconds() || (self.seconds() == other.seconds() && self.subsecond()
            < other.subsecond())
    }

    /// The date as text.
    pub open spec fn date_text(self) -> Seq<char> {
        utc_date_text(self.seconds())
    }

    /// The point in time as text.
    pub open spec fn stamp_text(self) -> Seq<char> {
        rfc3339_text(self.seconds(), self.subsecond())
    }

    /// The point in time so many seconds and nanoseconds after the start of 1970.
    pub fn new(secs: i64, nanos: u32) -> (r: Option<UtcTime>)
        ensures
            r == opt_time(Some((secs, nanos))),
            r matches Some(t) ==> t.seconds() == secs && t.subsecond() == nanos,
    {
        if secs < EARLIEST || secs > LATEST || nanos >= 2_000_000_000 {
            return None;
        }
        if nanos >= 1_000_000_000 && (secs - EARLIEST) % 60 != 59 {
            return None;
        }
        Some(UtcTime { secs, nanos })
    }

    /// The seconds and nanoseconds since the start of 1970.
    pub fn parts(self) -> (r: (i64, u32))
        ensures
            r == (self.seconds(), self.subsecond()),
    {
        (self.secs, self.nanos)
    }

    /// The same time one day earlier, unless that is too early to hold.
    pub fn day_earlier(self) -> (r: Option<UtcTime>)
        ensures
            r is Some <==> self.seconds() - DAY_SECONDS >= EARLIEST,
            r matches Some(t) ==> t.seconds() == self.seconds() - DAY_SECONDS && t.subsecond()
                == self.subsecond() && t.on_day() == self.on_day() - 1,
    {
        proof {
            use_type_invariant(self);
        }
        UtcTime::new(self.secs - DAY_SECONDS, self.nanos)
    }

    /// The later of two points in time.
    pub fn later(self, other: UtcTime) -> (r: UtcTime)
        ensures
            r == later_of(self, other),
    {
        if self.secs < other.secs || (self.secs == other.secs && self.nanos < other.nanos) {
            other
        } else {
            self
        }
    }

    /// The earlier of two points in time.
    pub fn earlier(self, other: UtcTime) -> (r: UtcTime)
        ensures
            r == earlier_of(self, other),
    {
        if other.secs < self.secs || (other.secs == self.secs && other.nanos < self.nanos) {
            other
        } else {
            self
        }
    }

    /// Whether two points in time fall on one calendar day.
    pub fn same_day(self, other: UtcTime) -> (r: bool)
        ensures
            r == (self.on_day() == other.on_day()),
    {
        proof {
            use_type_invariant(self);
            use_type_invariant(other);
        }
        epoch_day(self.secs) == epoch_day(other.secs)
    }

    /// The date as text.
    pub fn date(self) -> (r: String)
        ensures
            r@ == self.date_text(),
    {
        proof {
            use_type_invariant(self);
        }
        epoch_date(self.secs)
    }

    /// The point in time as text.
    pub fn stamp(self) -> (r: String)
        ensures
            r@ == self.stamp_text(),
    {
        proof {
            use_type_invariant(self);
        }
        epoch_rfc3339(self.secs, self.nanos)
    }
}

/// The later of two points in time.
pub open spec fn later_of(a: UtcTime, b: UtcTime) -> UtcTime {
    if a.is_before(b) {
        b
    } else {
        a
    }
}

/// The earlier of two points in time.
pub open spec fn earlier_of(a: UtcTime, b: UtcTime) -> UtcTime {
    if b.is_before(a) {
        b
    } else {
        a
    }
}

/// The time at which something counts that is told of now: the time that is told, if any. Nothing
/// counts as of after it was told.
pub open spec fn told_time(at: Option<UtcTime>, now: UtcTime) -> UtcTime {
    match at {
        Some(time) => earlier_of(time, now),
        None => now,
    }
}

/// The point in time that was read, if any was.
pub open spec fn opt_time(read: Option<(i64, u32)>) -> Option<UtcTime> {
    match read {
        Some((secs, nanos)) => if is_time(secs as int, nanos as int) {
            Some(UtcTime::of(secs, nanos))
        } else {
            None
        },
        None => None,
    }
}

/// When an order was entered, from how Schwab writes it.
pub open spec fn entered_time(text: Seq<char>) -> Option<UtcTime> {
    opt_time(time_read(text, "%Y-%m-%dT%H:%M:%S%.f%#z"@))
}

/// The first point in time that was read.
pub open spec fn first_time(a: Option<(i64, u32)>, b: Option<(i64, u32)>) -> Option<UtcTime> {
    match opt_time(a) {
        Some(t) => Some(t),
        None => opt_time(b),
    }
}

/// When an order was executed, from how Interactive Brokers writes it.
///
/// A time in UTC has a dash before the time of day, or the name of the zone behind it. A text with
/// another zone, or with none, has no reading.
pub open spec fn execution_time(text: Seq<char>) -> Option<UtcTime> {
    first_time(
        time_read(text + "Z"@, "%Y%m%d-%H:%M:%S%#z"@),
        time_read(text + "Z"@, "%Y%m%d %H:%M:%S UTC%#z"@),
    )
}

/// The point in time that was read, if any was.
pub fn time_from(read: Option<(i64, u32)>) -> (r: Option<UtcTime>)
    ensures
        r == opt_time(read),
{
    match read {
        Some((secs, nanos)) => UtcTime::new(secs, nanos),
        None => None,
    }
}

/// When an order was entered, from how Schwab writes it.
pub fn read_entered_time(text: &str) -> (r: Option<UtcTime>)
    ensures
        r == entered_time(text@),
{
    time_from(read_time(text, "%Y-%m-%dT%H:%M:%S%.f%#z"))
}

/// The first point in time that was read.
pub fn first_time_from(a: Option<(i64, u32)>, b: Option<(i64, u32)>) -> (r: Option<UtcTime>)
    ensures
        r == first_time(a, b),
{
    match time_from(a) {
        Some(t) => Some(t),
        None => time_from(b),
    }
}

/// The time at which something counts that is told of now.
pub fn time_told(at: Option<UtcTime>, now: UtcTime) -> (r: UtcTime)
    ensures
        r == told_time(at, now),
{
    match at {
        Some(time) => time.earlier(now),
        None => now,
    }
}

/// When an order was executed, from how Interactive Brokers writes it.
pub fn read_execution_time(text: &str) -> (r: Option<UtcTime>)
    ensures
        r == execution_time(text@),
{
    let mut marked: String = text.to_owned();
    marked.append("Z");
    first_time_from(
        read_time(marked.as_str(), "%Y%m%d-%H:%M:%S%#z"),
        read_time(marked.as_str(), "%Y%m%d %H:%M:%S UTC%#z"),
    )
}

/// A point in time has the seconds and nanoseconds that it was made of.
pub proof fn law_time_has_its_parts(secs: i64, nanos: u32)
    ensures
        UtcTime::of(secs, nanos).seconds() == secs,
        UtcTime::of(secs, nanos).subsecond() == nanos,
{
}

/// A later point in time never falls on an earlier day.
pub proof fn law_days_follow_times(a: UtcTime, b: UtcTime)
    requires
        !b.is_before(a),
    ensures
        a.on_day() <= b.on_day(),
{
}

/// A day has 86400 seconds, and the first one after the start of 1970 is day zero.
pub proof fn law_days_are_counted(time: UtcTime)
    ensures
        time.on_day() * 86_400 <= time.seconds() < (time.on_day() + 1) * 86_400,
{
}

/// Of two times one is before the other by its seconds, and at the same second by its fraction; the
/// later and the earlier of two are the two of them.
pub proof fn law_times_are_ordered(a: UtcTime, b: UtcTime)
    ensures
        a.is_before(b) <==> a.seconds() < b.seconds() || (a.seconds() == b.seconds()
            && a.subsecond() < b.subsecond()),
        !later_of(a, b).is_before(a),
        !later_of(a, b).is_before(b),
        later_of(a, b) == a || later_of(a, b) == b,
        !a.is_before(earlier_of(a, b)),
        !b.is_before(earlier_of(a, b)),
        earlier_of(a, b) == a || earlier_of(a, b) == b,
{
}

/// What is told of counts at the time that is told of it, unless that lies ahead, and otherwise
/// now.
pub proof fn law_told_times_stand(time: UtcTime, now: UtcTime)
    ensures
        !now.is_before(time) ==> told_time(Some(time), now) == time,
        now.is_before(time) ==> told_time(Some(time), now) == now,
        told_time(None, now) == now,
{
}

/// A reading is a time just where its seconds are in the calendar and its fraction is one of a
/// second; a fraction of up to two seconds only in the last second of a minute.
pub proof fn law_readings_are_times(secs: i64, nanos: u32)
    ensures
        opt_time(Some((secs, nanos))) is Some <==> -8_334_601_228_800 <= secs <= 8_210_266_876_799
            && (nanos < 1_000_000_000 || (nanos < 2_000_000_000 && secs as int % 60 == 59)),
        opt_time(Some((secs, nanos))) matches Some(t) ==> t.seconds() == secs && t.subsecond()
            == nanos,
        opt_time(None) is None,
{
}

/// The first reading that is a time counts.
pub proof fn law_first_reading_counts(a: Option<(i64, u32)>, b: Option<(i64, u32)>)
    ensures
        opt_time(a) is Some ==> first_time(a, b) == opt_time(a),
        opt_time(a) is None ==> first_time(a, b) == opt_time(b),
{
}

/// Times are read in the forms of the brokers and written by the calendar: Schwab writes a date, a
/// time with a fraction and a zone; Interactive Brokers a date and a time in UTC, with a dash
/// between them or the name of the zone behind them.
pub proof fn law_times_have_their_forms(text: Seq<char>, time: UtcTime)
    ensures
        entered_time(text) == opt_time(time_read(text, "%Y-%m-%dT%H:%M:%S%.f%#z"@)),
        opt_time(time_read(text + "Z"@, "%Y%m%d-%H:%M:%S%#z"@)) is Some ==> execution_time(text)
            == opt_time(time_read(text + "Z"@, "%Y%m%d-%H:%M:%S%#z"@)),
        opt_time(time_read(text + "Z"@, "%Y%m%d-%H:%M:%S%#z"@)) is None ==> execution_time(text)
            == opt_time(time_read(text + "Z"@, "%Y%m%d %H:%M:%S UTC%#z"@)),
        time.date_text() == utc_date_text(time.seconds()),
        time.stamp_text() == rfc3339_text(time.seconds(), time.subsecond()),
{
}

} // verus!
