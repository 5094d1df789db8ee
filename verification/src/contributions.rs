//! The contribution calendar of a user: the window of days it covers, the
//! bounds of event ids (version 7 UUIDs) within that window, and the count
//! of contributions per day.

use vstd::prelude::*;
use chrono::{Datelike, NaiveDate};
use uuid::{NoContext, Timestamp, Uuid};

verus! {

/// 2^48: version 7 UUIDs hold the low 48 bits of a millisecond timestamp.
pub open spec fn two_pow_48() -> int {
    0x1_0000_0000_0000
}

/// The millisecond timestamp that the first six bytes of a UUID hold, big-endian.
pub open spec fn millis_prefix(b: Seq<u8>) -> int {
    b[0] * 0x100_0000_0000 + b[1] * 0x1_0000_0000 + b[2] * 0x100_0000 + b[3] * 0x1_0000 + b[4] * 0x100 + b[5]
}

/// The milliseconds that `Uuid::new_v7` takes from a timestamp of `secs`
/// seconds and `nanos` nanoseconds: `secs * 1000 + nanos / 1_000_000`,
/// each step saturating at `u64::MAX`.
pub open spec fn v7_millis(secs: u64, nanos: u32) -> int {
    let m = if secs * 1000 > u64::MAX {
        u64::MAX as int
    } else {
        secs * 1000
    };
    if m + nanos / 1_000_000 > u64::MAX {
        u64::MAX as int
    } else {
        m + nanos / 1_000_000
    }
}

/// `Uuid::new_v7` on `Timestamp::from_unix(NoContext, secs, nanos)`, as
/// bytes. Its first six bytes hold the low 48 bits of the timestamp in
/// milliseconds, its version nibble is 7 and its variant bits are `10`;
/// the other 74 bits are random, and nothing is stated of them.
#[verifier::external_body]
fn new_v7_bytes(secs: u64, nanos: u32) -> (b: [u8; 16])
    ensures
        millis_prefix(b@) == v7_millis(secs, nanos) % two_pow_48(),
        b[6] & 0xF0 == 0x70,
        b[8] & 0xC0 == 0x80,
{
    Uuid::new_v7(Timestamp::from_unix(NoContext, secs, nanos)).into_bytes()
}

fn v7_for_millis(ts_ms: u64) -> (b: [u8; 16])
    ensures
        millis_prefix(b@) == (ts_ms as int) % two_pow_48(),
        b[6] & 0xF0 == 0x70,
        b[8] & 0xC0 == 0x80,
{
    let secs = ts_ms / 1000;
    let nanos = ((ts_ms % 1000) * 1_000_000) as u32;
    assert(v7_millis(secs, nanos) == ts_ms);
    new_v7_bytes(secs, nanos)
}

/// The smallest version 7 UUID of a millisecond: the timestamp, version 7,
/// variant `10`, every other bit zero.
pub fn uuid_lower_bound(ts_ms: u64) -> (r: [u8; 16])
    ensures
        millis_prefix(r@) == (ts_ms as int) % two_pow_48(),
        r[6] == 0x70,
        r[7] == 0,
        r[8] == 0x80,
        forall|i: int| 9 <= i < 16 ==> r[i] == 0,
{
    let b = v7_for_millis(ts_ms);
    [b[0], b[1], b[2], b[3], b[4], b[5], b[6] & 0xF0, 0, b[8] & 0xC0, 0, 0, 0, 0, 0, 0, 0]
}

/// The largest version 7 UUID of a millisecond: the timestamp, version 7,
/// variant `10`, every other bit one.
pub fn uuid_upper_bound(ts_ms: u64) -> (r: [u8; 16])
    ensures
        millis_prefix(r@) == (ts_ms as int) % two_pow_48(),
        r[6] == 0x7F,
        r[7] == 0xFF,
        r[8] == 0xBF,
        forall|i: int| 9 <= i < 16 ==> r[i] == 0xFF,
{
    let b = v7_for_millis(ts_ms);
    let b6 = b[6];
    let b8 = b[8];
    assert(b6 & 0xF0 == 0x70 ==> b6 | 0x0F == 0x7F) by (bit_vector);
    assert(b8 & 0xC0 == 0x80 ==> b8 | 0x3F == 0xBF) by (bit_vector);
    [b[0], b[1], b[2], b[3], b[4], b[5], b6 | 0x0F, 0xFF, b8 | 0x3F, 0xFF, 0xFF, 0xFF, 0xFF, 0xFF, 0xFF, 0xFF]
}

/// A version 7 id made in millisecond `ms`: the low 48 bits of `ms` in its
/// first six bytes, version 7 and variant `10`, anything in the other bits.
pub open spec fn v7_id_of(id: Seq<u8>, ms: int) -> bool {
    &&& id.len() == 16
    &&& millis_prefix(id) == ms % two_pow_48()
    &&& id[6] & 0xF0 == 0x70
    &&& id[8] & 0xC0 == 0x80
}

/// `a` and `b` agree before byte `k` and `a` is smaller at `k`.
pub open spec fn first_smaller_at(a: Seq<u8>, b: Seq<u8>, k: int) -> bool {
    &&& 0 <= k < a.len()
    &&& k < b.len()
    &&& a[k] < b[k]
    &&& forall|j: int| 0 <= j < k ==> a[j] == b[j]
}

/// Byte-wise order of ids, the order in which Postgres compares `uuid`
/// values: `a` does not come after `b`.
pub open spec fn id_not_after(a: Seq<u8>, b: Seq<u8>) -> bool {
    a == b || exists|k: int| #[trigger] first_smaller_at(a, b, k)
}

/// Two ids whose first six bytes hold the same number hold the same six bytes.
proof fn lemma_same_prefix(a: Seq<u8>, b: Seq<u8>)
    requires
        a.len() >= 6,
        b.len() >= 6,
        millis_prefix(a) == millis_prefix(b),
    ensures
        forall|j: int| 0 <= j < 6 ==> a[j] == b[j],
{
    let (a0, a1, a2, a3, a4, a5) = (a[0] as int, a[1] as int, a[2] as int, a[3] as int, a[4] as int, a[5] as int);
    let (b0, b1, b2, b3, b4, b5) = (b[0] as int, b[1] as int, b[2] as int, b[3] as int, b[4] as int, b[5] as int);
    assert(a0 == b0);
    assert(a1 == b1);
    assert(a2 == b2);
    assert(a3 == b3);
    assert(a4 == b4);
}

/// The bounds of a millisecond enclose every version 7 id made in it: the
/// ids that `uuid_lower_bound` and `uuid_upper_bound` give for `ms` (whose
/// contracts `lo` and `hi` meet) come neither after nor before any of them.
pub proof fn lemma_bounds_enclose_ids(lo: Seq<u8>, id: Seq<u8>, hi: Seq<u8>, ms: int)
    requires
        lo.len() == 16,
        hi.len() == 16,
        millis_prefix(lo) == ms % two_pow_48(),
        millis_prefix(hi) == ms % two_pow_48(),
        lo[6] == 0x70,
        lo[7] == 0,
        lo[8] == 0x80,
        forall|i: int| 9 <= i < 16 ==> lo[i] == 0,
        hi[6] == 0x7F,
        hi[7] == 0xFF,
        hi[8] == 0xBF,
        forall|i: int| 9 <= i < 16 ==> hi[i] == 0xFF,
        v7_id_of(id, ms),
    ensures
        id_not_after(lo, id),
        id_not_after(id, hi),
{
    lemma_same_prefix(lo, id);
    lemma_same_prefix(id, hi);
    let x6 = id[6];
    let x8 = id[8];
    assert(x6 & 0xF0 == 0x70 ==> 0x70 <= x6 <= 0x7F) by (bit_vector);
    assert(x8 & 0xC0 == 0x80 ==> 0x80 <= x8 <= 0xBF) by (bit_vector);
    lemma_first_difference(lo, id, 0);
    lemma_first_difference(id, hi, 0);
}

/// Ids whose first six bytes hold smaller and larger numbers are ordered
/// by those bytes.
proof fn lemma_prefix_order(a: Seq<u8>, b: Seq<u8>)
    requires
        a.len() == 16,
        b.len() == 16,
        millis_prefix(a) < millis_prefix(b),
    ensures
        exists|k: int| #[trigger] first_smaller_at(a, b, k),
{
    let (a0, a1, a2, a3, a4, a5) = (a[0] as int, a[1] as int, a[2] as int, a[3] as int, a[4] as int, a[5] as int);
    let (b0, b1, b2, b3, b4, b5) = (b[0] as int, b[1] as int, b[2] as int, b[3] as int, b[4] as int, b[5] as int);
    if a0 != b0 {
        assert(a0 < b0);
        assert(first_smaller_at(a, b, 0));
    } else if a1 != b1 {
        assert(a1 < b1);
        assert(first_smaller_at(a, b, 1));
    } else if a2 != b2 {
        assert(a2 < b2);
        assert(first_smaller_at(a, b, 2));
    } else if a3 != b3 {
        assert(a3 < b3);
        assert(first_smaller_at(a, b, 3));
    } else if a4 != b4 {
        assert(a4 < b4);
        assert(first_smaller_at(a, b, 4));
    } else {
        assert(a5 < b5);
        assert(first_smaller_at(a, b, 5));
    }
}

/// The bounds of different milliseconds do not overlap: the largest id of
/// an earlier millisecond (what `uuid_upper_bound` gives, whose contract
/// `hi` meets) comes before the smallest id of a later one (what
/// `uuid_lower_bound` gives, whose contract `lo` meets), within the 48-bit
/// millisecond clock.
pub proof fn lemma_bounds_ordered(hi: Seq<u8>, lo: Seq<u8>, earlier: int, later: int)
    requires
        0 <= earlier < later < two_pow_48(),
        hi.len() == 16,
        lo.len() == 16,
        millis_prefix(hi) == earlier % two_pow_48(),
        millis_prefix(lo) == later % two_pow_48(),
    ensures
        exists|k: int| #[trigger] first_smaller_at(hi, lo, k),
        id_not_after(hi, lo) && hi != lo,
{
    lemma_prefix_order(hi, lo);
    if hi == lo {
        assert(millis_prefix(hi) == millis_prefix(lo));
    }
}

/// Two ids of 16 bytes that agree before byte `k`, and where the first is
/// not larger at any later byte, are equal or the first is smaller at its
/// first differing byte.
proof fn lemma_first_difference(a: Seq<u8>, b: Seq<u8>, k: int)
    requires
        a.len() == 16,
        b.len() == 16,
        0 <= k <= 16,
        forall|j: int| 0 <= j < k ==> a[j] == b[j],
        forall|j: int| k <= j < 16 ==> a[j] <= b[j],
    ensures
        id_not_after(a, b),
    decreases 16 - k,
{
    if k == 16 {
        assert(a =~= b);
    } else if a[k] < b[k] {
        assert(first_smaller_at(a, b, k));
    } else {
        lemma_first_difference(a, b, k + 1);
    }
}

/// The 100-nanosecond ticks since October 15, 1582 that a version 1 UUID
/// holds: the low 4 bits of byte 6 and byte 7 (high), bytes 4 and 5
/// (middle), bytes 0 to 3 (low).
pub open spec fn v1_ticks(id: Seq<u8>) -> int {
    (id[6] % 16) * 0x100_0000_0000_0000 + id[7] * 0x1_0000_0000_0000 + id[4] * 0x100_0000_0000 + id[5]
        * 0x1_0000_0000 + id[0] * 0x100_0000 + id[1] * 0x1_0000 + id[2] * 0x100 + id[3]
}

/// The ticks a version 6 UUID holds, most significant first: bytes 0 to 5,
/// the low 4 bits of byte 6, byte 7.
pub open spec fn v6_ticks(id: Seq<u8>) -> int {
    id[0] * 0x10_0000_0000_0000 + id[1] * 0x1000_0000_0000 + id[2] * 0x10_0000_0000 + id[3] * 0x1000_0000
        + id[4] * 0x10_0000 + id[5] * 0x1000 + (id[6] % 16) * 0x100 + id[7]
}

/// The ticks between the Gregorian epoch of UUIDs and 1970.
pub open spec fn ticks_between_epochs() -> int {
    0x01B2_1DD2_1381_4000
}

/// The Unix time that `Timestamp::to_unix` gives for a version 1 or 6
/// (Gregorian) UUID: the ticks less those before 1970, wrapping modulo
/// 2^64 as `u64::wrapping_sub` does, in seconds and nanoseconds.
pub open spec fn gregorian_unix_time(id: Seq<u8>) -> (u64, u32) {
    let ticks = if id[6] / 16 == 1 {
        v1_ticks(id)
    } else {
        v6_ticks(id)
    };
    let since = (ticks - ticks_between_epochs()) % 0x1_0000_0000_0000_0000;
    ((since / 10_000_000) as u64, ((since % 10_000_000) * 100) as u32)
}

/// The Unix time of a UUID as `Uuid::get_timestamp` and `Timestamp::to_unix`
/// give it: for version 7 the milliseconds of its first six bytes, as
/// seconds and nanoseconds; for versions 1 and 6 its Gregorian time; for
/// other versions none.
pub open spec fn uuid_time(id: Seq<u8>) -> Option<(u64, u32)> {
    let version = id[6] / 16;
    if version == 7 {
        let p = millis_prefix(id);
        Some(((p / 1000) as u64, ((p % 1000) * 1_000_000) as u32))
    } else if version == 1 || version == 6 {
        Some(gregorian_unix_time(id))
    } else {
        None
    }
}

/// `Uuid::get_timestamp` followed by `Timestamp::to_unix`; see
/// [`uuid_time`] and [`gregorian_unix_time`].
#[verifier::external_body]
fn uuid_unix_time(id: [u8; 16]) -> (r: Option<(u64, u32)>)
    ensures
        r == uuid_time(id@),
{
    Uuid::from_bytes(id).get_timestamp().map(|t| t.to_unix())
}

/// The milliseconds of an event id, as the contribution count reads them:
/// seconds times a thousand plus whole milliseconds, or zero for an id
/// without a time.
pub open spec fn event_millis_of(id: Seq<u8>) -> int {
    match uuid_time(id) {
        Some((s, n)) => s * 1000 + n / 1_000_000,
        None => 0,
    }
}

/// The milliseconds of an event id; see [`event_millis_of`].
pub fn event_millis(id: [u8; 16]) -> (r: u64)
    ensures
        r == event_millis_of(id@),
        r <= u64::MAX / 1000,
{
    match uuid_unix_time(id) {
        Some((s, n)) => {
            proof {
                if id[6] / 16 == 7 {
                    assert(millis_prefix(id@) < two_pow_48());
                }
            }
            s * 1000 + (n / 1_000_000) as u64
        },
        None => 0,
    }
}

/// The day number (days in the proleptic Gregorian calendar, with
/// January 1 of year 1 as day 1) of January 1 of year `y`.
pub open spec fn new_year_day(y: int) -> int {
    365 * (y - 1) + (y - 1) / 4 - (y - 1) / 100 + (y - 1) / 400 + 1
}

/// The first year that `chrono` can represent.
pub open spec fn min_year() -> int {
    -262143
}

/// The last year that `chrono` can represent.
pub open spec fn max_year() -> int {
    262142
}

/// Whether a day number is one that `chrono` can represent.
pub open spec fn day_in_range(d: int) -> bool {
    new_year_day(min_year()) <= d < new_year_day(max_year() + 1)
}

/// `NaiveDate::from_ymd_opt(y, 1, 1)` and `Datelike::num_days_from_ce`:
/// the day number of January 1 of `y`, if `chrono` can represent that year.
#[verifier::external_body]
fn new_year(y: i32) -> (r: Option<i32>)
    ensures
        r is Some <==> min_year() <= y <= max_year(),
        r matches Some(d) ==> d == new_year_day(y as int),
{
    NaiveDate::from_ymd_opt(y, 1, 1).map(|d| d.num_days_from_ce())
}

/// The text `%Y-%m-%d` of a day number.
pub uninterp spec fn iso_date(d: int) -> Seq<char>;

/// `NaiveDate::from_num_days_from_ce_opt` followed by formatting with
/// `%Y-%m-%d`; the text is named by [`iso_date`].
#[verifier::external_body]
fn format_day(d: i32) -> (r: String)
    requires
        day_in_range(d as int),
    ensures
        r@ == iso_date(d as int),
{
    NaiveDate::from_num_days_from_ce_opt(d).unwrap().format("%Y-%m-%d").to_string()
}

/// The days a contribution calendar covers, as day numbers `start..end`:
/// a whole year when one is given, else the 366 days that end today.
pub open spec fn window_of(year: Option<i32>, today: int) -> (int, int) {
    match year {
        Some(y) => (new_year_day(y as int), new_year_day(y + 1)),
        None => (today - 365, today + 1),
    }
}

/// Whether a calendar window can be computed: the years, or the days
/// around today, are ones that `chrono` can represent.
pub open spec fn window_defined(year: Option<i32>, today: int) -> bool {
    match year {
        Some(y) => min_year() <= y && y + 1 <= max_year(),
        None => day_in_range(today - 365) && day_in_range(today + 1),
    }
}

/// The day number at which the contribution calendar starts and the one at
/// which it ends (exclusive); `today` is the current day number in UTC.
pub fn date_range(year: Option<i32>, today: i32) -> (r: (i32, i32))
    requires
        window_defined(year, today as int),
    ensures
        (r.0 as int, r.1 as int) == window_of(year, today as int),
        day_in_range(r.0 as int),
        day_in_range(r.1 as int),
        r.0 < r.1,
{
    match year {
        Some(y) => {
            let start = new_year(y);
            let end = new_year(y + 1);
            match (start, end) {
                (Some(s), Some(e)) => {
                    assert(new_year_day(y as int) < new_year_day(y + 1));
                    (s, e)
                },
                _ => {
                    assert(false);
                    (0, 0)
                },
            }
        },
        None => (today - 365, today + 1),
    }
}

/// The day number of January 1, 1970.
pub open spec fn epoch_day() -> int {
    719_163
}

/// The Unix time in milliseconds of the start of a day, or zero for days
/// before 1970 (as `u64::try_from(..).unwrap_or(0)` gives it).
pub open spec fn day_start_millis(d: int) -> int {
    let ms = (d - epoch_day()) * 86_400_000;
    if ms < 0 {
        0
    } else {
        ms
    }
}

/// The Unix time in milliseconds of the start of a day; see [`day_start_millis`].
pub fn day_millis(d: i32) -> (r: u64)
    requires
        day_in_range(d as int),
    ensures
        r == day_start_millis(d as int),
{
    let ms: i64 = (d as i64 - 719_163) * 86_400_000;
    if ms < 0 {
        0
    } else {
        ms as u64
    }
}

/// The day a millisecond Unix time falls on, in UTC, as a day number.
pub open spec fn day_of_millis(ms: int) -> int {
    ms / 86_400_000 + epoch_day()
}

/// What the calendar asks the database for: its days and the range of
/// event ids within them.
pub struct ContributionWindow {
    pub start_day: i32,
    pub end_day: i32,
    pub lower: [u8; 16],
    pub upper: [u8; 16],
}

/// The window of a contribution calendar: its days (see [`date_range`]) and
/// the smallest and largest version 7 ids of its first and last millisecond.
pub fn contribution_window(year: Option<i32>, today: i32) -> (r: ContributionWindow)
    requires
        window_defined(year, today as int),
    ensures
        (r.start_day as int, r.end_day as int) == window_of(year, today as int),
        millis_prefix(r.lower@) == day_start_millis(r.start_day as int) % two_pow_48(),
        millis_prefix(r.upper@) == day_start_millis(r.end_day as int) % two_pow_48(),
        r.lower[6] == 0x70 && r.lower[7] == 0 && r.lower[8] == 0x80,
        forall|i: int| 9 <= i < 16 ==> r.lower[i] == 0,
        r.upper[6] == 0x7F && r.upper[7] == 0xFF && r.upper[8] == 0xBF,
        forall|i: int| 9 <= i < 16 ==> r.upper[i] == 0xFF,
{
    let (start_day, end_day) = date_range(year, today);
    let lower = uuid_lower_bound(day_millis(start_day));
    let upper = uuid_upper_bound(day_millis(end_day));
    ContributionWindow { start_day, end_day, lower, upper }
}

/// The day an event counts for: the UTC day of its milliseconds, or
/// January 1, 1970 when that day is beyond what `chrono` can represent (as
/// `timestamp_millis_opt(..).single().unwrap_or_default()` gives it).
pub open spec fn event_day_of(id: Seq<u8>) -> int {
    let d = day_of_millis(event_millis_of(id));
    if day_in_range(d) {
        d
    } else {
        epoch_day()
    }
}

/// The days the events count for, in order.
pub open spec fn event_days(ids: Seq<[u8; 16]>) -> Seq<int> {
    ids.map_values(|id: [u8; 16]| event_day_of(id@))
}

/// The commits counted for the date written `key`: the counts of the rows
/// whose day is written so.
pub open spec fn commit_total(commits: Seq<(i32, i32)>, key: Seq<char>) -> int
    decreases commits.len(),
{
    if commits.len() == 0 {
        0
    } else {
        commit_total(commits.drop_last(), key) + if iso_date(commits.last().0 as int) == key {
            commits.last().1 as int
        } else {
            0
        }
    }
}

/// The number of events counted for the date written `key`.
pub open spec fn event_total(days: Seq<int>, key: Seq<char>) -> int
    decreases days.len(),
{
    if days.len() == 0 {
        0
    } else {
        event_total(days.drop_last(), key) + if iso_date(days.last()) == key {
            1int
        } else {
            0
        }
    }
}

/// Whether counting the rows, commits first and events after, keeps every
/// running count of a date within `i32`.
pub open spec fn counts_fit(commits: Seq<(i32, i32)>, days: Seq<int>) -> bool {
    &&& forall|k: int| 0 <= k < commits.len() ==> i32::MIN <= #[trigger] commit_total(commits.take(k + 1), iso_date(commits[k].0 as int)) <= i32::MAX
    &&& forall|j: int| 0 <= j < days.len() ==> commit_total(commits, iso_date(days[j])) + #[trigger] event_total(days.take(j + 1), iso_date(days[j])) <= i32::MAX
}

/// One day of the contribution calendar.
pub struct ContributionDay {
    pub date: String,
    pub count: i32,
}

fn event_day(id: [u8; 16]) -> (r: i32)
    ensures
        r == event_day_of(id@),
        day_in_range(r as int),
{
    let ms = event_millis(id);
    let d: u64 = ms / 86_400_000 + 719_163;
    if d < 95_745_400 {
        d as i32
    } else {
        719_163
    }
}

fn commit_keys(commits: &[(i32, i32)]) -> (r: Vec<String>)
    requires
        forall|k: int| 0 <= k < commits@.len() ==> day_in_range(#[trigger] commits@[k].0 as int),
    ensures
        r@.len() == commits@.len(),
        forall|k: int| 0 <= k < commits@.len() ==> #[trigger] r@[k]@ == iso_date(commits@[k].0 as int),
{
    let mut r: Vec<String> = Vec::new();
    let mut k: usize = 0;
    while k < commits.len()
        invariant
            k <= commits@.len(),
            r@.len() == k,
            forall|i: int| 0 <= i < commits@.len() ==> day_in_range(#[trigger] commits@[i].0 as int),
            forall|i: int| 0 <= i < k ==> #[trigger] r@[i]@ == iso_date(commits@[i].0 as int),
        decreases commits@.len() - k,
    {
        r.push(format_day(commits[k].0));
        k += 1;
    }
    r
}

fn event_keys(ids: &[[u8; 16]]) -> (r: (Vec<i32>, Vec<String>))
    ensures
        r.0@.len() == ids@.len(),
        r.1@.len() == ids@.len(),
        forall|j: int| 0 <= j < ids@.len() ==> #[trigger] r.0@[j] as int == event_days(ids@)[j],
        forall|j: int| 0 <= j < ids@.len() ==> #[trigger] r.1@[j]@ == iso_date(event_days(ids@)[j]),
{
    let mut days: Vec<i32> = Vec::new();
    let mut keys: Vec<String> = Vec::new();
    let mut j: usize = 0;
    while j < ids.len()
        invariant
            j <= ids@.len(),
            days@.len() == j,
            keys@.len() == j,
            forall|i: int| 0 <= i < j ==> #[trigger] days@[i] as int == event_days(ids@)[i],
            forall|i: int| 0 <= i < j ==> #[trigger] keys@[i]@ == iso_date(event_days(ids@)[i]),
        decreases ids@.len() - j,
    {
        let d = event_day(ids[j]);
        days.push(d);
        keys.push(format_day(d));
        j += 1;
    }
    (days, keys)
}

proof fn lemma_commit_total_step(commits: Seq<(i32, i32)>, k: int, key: Seq<char>)
    requires
        0 <= k < commits.len(),
    ensures
        commit_total(commits.take(k + 1), key) == commit_total(commits.take(k), key) + if iso_date(
            commits[k].0 as int,
        ) == key {
            commits[k].1 as int
        } else {
            0
        },
{
    assert(commits.take(k + 1).drop_last() =~= commits.take(k));
}

proof fn lemma_event_total_step(days: Seq<int>, j: int, key: Seq<char>)
    requires
        0 <= j < days.len(),
    ensures
        event_total(days.take(j + 1), key) == event_total(days.take(j), key) + if iso_date(days[j]) == key {
            1int
        } else {
            0
        },
{
    assert(days.take(j + 1).drop_last() =~= days.take(j));
}

fn count_for(
    key: &String,
    commits: &[(i32, i32)],
    ckeys: &Vec<String>,
    ekeys: &Vec<String>,
    Ghost(days): Ghost<Seq<int>>,
) -> (r: i32)
    requires
        ckeys@.len() == commits@.len(),
        forall|k: int| 0 <= k < commits@.len() ==> #[trigger] ckeys@[k]@ == iso_date(commits@[k].0 as int),
        ekeys@.len() == days.len(),
        forall|j: int| 0 <= j < days.len() ==> #[trigger] ekeys@[j]@ == iso_date(days[j]),
        counts_fit(commits@, days),
    ensures
        r == commit_total(commits@, key@) + event_total(days, key@),
{
    let mut acc: i32 = 0;
    let mut k: usize = 0;
    assert(commits@.take(0) =~= Seq::<(i32, i32)>::empty());
    while k < commits.len()
        invariant
            k <= commits@.len(),
            ckeys@.len() == commits@.len(),
            forall|i: int| 0 <= i < commits@.len() ==> #[trigger] ckeys@[i]@ == iso_date(commits@[i].0 as int),
            counts_fit(commits@, days),
            acc == commit_total(commits@.take(k as int), key@),
        decreases commits@.len() - k,
    {
        proof {
            lemma_commit_total_step(commits@, k as int, key@);
        }
        if ckeys[k].eq(key) {
            assert(commit_total(commits@.take(k + 1), iso_date(commits@[k as int].0 as int)) <= i32::MAX);
            acc = acc + commits[k].1;
        }
        k += 1;
    }
    assert(commits@.take(k as int) =~= commits@);
    let ghost ctotal = commit_total(commits@, key@);
    let mut j: usize = 0;
    assert(days.take(0) =~= Seq::<int>::empty());
    while j < ekeys.len()
        invariant
            j <= days.len(),
            ekeys@.len() == days.len(),
            forall|i: int| 0 <= i < days.len() ==> #[trigger] ekeys@[i]@ == iso_date(days[i]),
            counts_fit(commits@, days),
            ctotal == commit_total(commits@, key@),
            acc == ctotal + event_total(days.take(j as int), key@),
        decreases days.len() - j,
    {
        proof {
            lemma_event_total_step(days, j as int, key@);
        }
        if ekeys[j].eq(key) {
            assert(commit_total(commits@, iso_date(days[j as int])) + event_total(days.take(j + 1), iso_date(days[j as int])) <= i32::MAX);
            acc = acc + 1;
        }
        j += 1;
    }
    assert(days.take(j as int) =~= days);
    acc
}

/// The contribution calendar for the days `start..end`: for each day its
/// date and the number of contributions on it, the commits counted per
/// commit row (a day number and a count) and one per event id, each
/// counted for the date its day is written as.
pub fn contribution_days(start: i32, end: i32, commits: &[(i32, i32)], event_ids: &[[u8; 16]]) -> (r: Vec<ContributionDay>)
    requires
        day_in_range(start as int),
        day_in_range(end as int),
        start <= end,
        forall|k: int| 0 <= k < commits@.len() ==> day_in_range(#[trigger] commits@[k].0 as int),
        counts_fit(commits@, event_days(event_ids@)),
    ensures
        r@.len() == end - start,
        forall|i: int|
            0 <= i < r@.len() ==> {
                let key = iso_date(start + i);
                &&& (#[trigger] r@[i]).date@ == key
                &&& r@[i].count == commit_total(commits@, key) + event_total(event_days(event_ids@), key)
            },
{
    let ckeys = commit_keys(commits);
    let (edays, ekeys) = event_keys(event_ids);
    let ghost days = event_days(event_ids@);
    assert(ekeys@.len() == days.len());
    let mut r: Vec<ContributionDay> = Vec::new();
    let mut d = start;
    while d < end
        invariant
            start <= d <= end,
            day_in_range(start as int),
            day_in_range(end as int),
            r@.len() == d - start,
            ckeys@.len() == commits@.len(),
            forall|k: int| 0 <= k < commits@.len() ==> #[trigger] ckeys@[k]@ == iso_date(commits@[k].0 as int),
            ekeys@.len() == days.len(),
            forall|j: int| 0 <= j < days.len() ==> #[trigger] ekeys@[j]@ == iso_date(days[j]),
            counts_fit(commits@, days),
            days == event_days(event_ids@),
            forall|i: int|
                0 <= i < r@.len() ==> {
                    let key = iso_date(start + i);
                    &&& (#[trigger] r@[i]).date@ == key
                    &&& r@[i].count == commit_total(commits@, key) + event_total(days, key)
                },
        decreases end - d,
    {
        let date = format_day(d);
        let count = count_for(&date, commits, &ckeys, &ekeys, Ghost(days));
        r.push(ContributionDay { date, count });
        d += 1;
    }
    r
}

/// Law: the calendar of a year runs from its January 1 to the next
/// January 1, one year long; without a year it covers the last 365 days and
/// today, 366 days ending tomorrow.
pub proof fn lemma_calendar_windows(year: Option<i32>, today: int)
    ensures
        year matches Some(y) ==> window_of(year, today).0 == new_year_day(y as int) && window_of(year, today).1
            - window_of(year, today).0 == (if crate::zip_time::leap_year(y as int) {
            366int
        } else {
            365int
        }),
        year is None ==> window_of(year, today).1 == today + 1 && window_of(year, today).1 - window_of(year, today).0 == 366,
{
    if let Some(y) = year {
        crate::zip_time::lemma_year_length(y as int);
    }
}

} // verus!
