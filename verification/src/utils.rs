//! Calendar arithmetic on Unix timestamps.

use crate::watering::ds::SectorInfo;
use chrono::Datelike;
use vstd::prelude::*;

verus! {

/// Seconds in one day.
pub const DAY_SECS: i64 = 86_400;

/// Largest magnitude of a timestamp that the calendar functions accept.
/// It lies some six thousand years inside the span of dates that `chrono`
/// can represent on either side.
pub const MAX_TIMESTAMP: i64 = 8_000_000_000_000;

/// The timestamps on which the calendar functions are defined.
pub open spec fn in_calendar_range(ts: int) -> bool {
    -MAX_TIMESTAMP <= ts <= MAX_TIMESTAMP
}

/// Day of the week.
#[derive(Clone, Copy, Debug, PartialEq, Eq, Structural)]
pub enum Weekday {
    Mon,
    Tue,
    Wed,
    Thu,
    Fri,
    Sat,
    Sun,
}

impl Weekday {
    /// Days since the last Monday: 0 for Monday up to 6 for Sunday.
    pub open spec fn index_from_monday(self) -> int {
        match self {
            Weekday::Mon => 0,
            Weekday::Tue => 1,
            Weekday::Wed => 2,
            Weekday::Thu => 3,
            Weekday::Fri => 4,
            Weekday::Sat => 5,
            Weekday::Sun => 6,
        }
    }

    /// Days since the last Sunday: 0 for Sunday up to 6 for Saturday.
    pub open spec fn index_from_sunday(self) -> int {
        (self.index_from_monday() + 1) % 7
    }

    /// The weekday that lies `i` days after a Monday, for `0 <= i < 7`.
    pub open spec fn at_index_from_monday(i: int) -> Weekday {
        if i == 0 {
            Weekday::Mon
        } else if i == 1 {
            Weekday::Tue
        } else if i == 2 {
            Weekday::Wed
        } else if i == 3 {
            Weekday::Thu
        } else if i == 4 {
            Weekday::Fri
        } else if i == 5 {
            Weekday::Sat
        } else {
            Weekday::Sun
        }
    }

    /// Days since the last Monday.
    pub fn num_days_from_monday(&self) -> (r: u32)
        ensures
            r == self.index_from_monday(),
    {
        match self {
            Weekday::Mon => 0,
            Weekday::Tue => 1,
            Weekday::Wed => 2,
            Weekday::Thu => 3,
            Weekday::Fri => 4,
            Weekday::Sat => 5,
            Weekday::Sun => 6,
        }
    }

    /// Days since the last Sunday.
    pub fn num_days_from_sunday(&self) -> (r: u32)
        ensures
            r == self.index_from_sunday(),
    {
        match self {
            Weekday::Mon => 1,
            Weekday::Tue => 2,
            Weekday::Wed => 3,
            Weekday::Thu => 4,
            Weekday::Fri => 5,
            Weekday::Sat => 6,
            Weekday::Sun => 0,
        }
    }

    /// The weekday with the given number of days since Monday, if it is one.
    pub fn from_days_from_monday(n: i64) -> (r: Option<Weekday>)
        ensures
            r is Some <==> 0 <= n < 7,
            r matches Some(w) ==> w == Weekday::at_index_from_monday(n as int),
    {
        if n == 0 {
            Some(Weekday::Mon)
        } else if n == 1 {
            Some(Weekday::Tue)
        } else if n == 2 {
            Some(Weekday::Wed)
        } else if n == 3 {
            Some(Weekday::Thu)
        } else if n == 4 {
            Some(Weekday::Fri)
        } else if n == 5 {
            Some(Weekday::Sat)
        } else if n == 6 {
            Some(Weekday::Sun)
        } else {
            None
        }
    }
}

/// Start of the day that holds `ts`, as the executable remainder gives it:
/// the timestamp with its remainder modulo one day taken off. At and after
/// the epoch this is midnight UTC of the same day; before the epoch the
/// remainder is negative and the result is the midnight that follows.
pub open spec fn sod_spec(ts: int) -> int {
    if ts >= 0 {
        ts - ts % (DAY_SECS as int)
    } else {
        ts + (-ts) % (DAY_SECS as int)
    }
}

/// Day of the week of a timestamp in UTC. The epoch fell on a Thursday, and
/// days are counted by flooring, so this is right before the epoch too.
pub open spec fn weekday_of(ts: int) -> Weekday {
    Weekday::at_index_from_monday((ts / (DAY_SECS as int) + 3) % 7)
}

/// Start of the day of `ts`.
pub fn sod(ts: i64) -> (r: i64)
    ensures
        r == sod_spec(ts as int),
{
    ts - (ts % DAY_SECS)
}

/// Calls `chrono::DateTime::<Utc>::from_timestamp` with no nanoseconds and
/// `Datelike::weekday` on what it gives. The contract claims that every
/// timestamp in the calendar range is accepted, and that the weekday of an
/// accepted timestamp is the one the proleptic Gregorian calendar assigns to
/// its UTC date.
#[verifier::external_body]
fn weekday_from_chrono(ts: i64) -> (r: Option<Weekday>)
    ensures
        in_calendar_range(ts as int) ==> r is Some,
        r matches Some(w) ==> w == weekday_of(ts as int),
{
    match chrono::DateTime::<chrono::Utc>::from_timestamp(ts, 0) {
        Some(dt) => Some(match dt.weekday() {
            chrono::Weekday::Mon => Weekday::Mon,
            chrono::Weekday::Tue => Weekday::Tue,
            chrono::Weekday::Wed => Weekday::Wed,
            chrono::Weekday::Thu => Weekday::Thu,
            chrono::Weekday::Fri => Weekday::Fri,
            chrono::Weekday::Sat => Weekday::Sat,
            chrono::Weekday::Sun => Weekday::Sun,
        }),
        None => None,
    }
}

/// Whether the calendar functions are defined on `ts`.
pub fn is_in_calendar_range(ts: i64) -> (r: bool)
    ensures
        r == in_calendar_range(ts as int),
{
    -MAX_TIMESTAMP <= ts && ts <= MAX_TIMESTAMP
}

/// Day of the week of a timestamp in the calendar range.
pub fn get_week_day_from_ts(time: i64) -> (r: Weekday)
    requires
        in_calendar_range(time as int),
    ensures
        r == weekday_of(time as int),
{
    match weekday_from_chrono(time) {
        Some(w) => w,
        None => vstd::pervasive::unreached(),
    }
}

/// A catalog with `sector` as the entry for its identifier: in the place
/// of every entry that had it, or at the end if none had.
pub open spec fn with_entry(catalog: Seq<SectorInfo>, sector: SectorInfo) -> Seq<SectorInfo> {
    if exists|i: int| 0 <= i < catalog.len() && (#[trigger] catalog[i]).id == sector.id {
        Seq::new(
            catalog.len(),
            |i: int|
                if catalog[i].id == sector.id {
                    sector
                } else {
                    catalog[i]
                },
        )
    } else {
        catalog.push(sector)
    }
}

/// The catalog that a list of sectors gives at start: one entry for each
/// identifier, the last of the list with that identifier, with no progress.
pub open spec fn fresh_catalog(sectors: Seq<SectorInfo>) -> Seq<SectorInfo>
    decreases sectors.len(),
{
    if sectors.len() == 0 {
        Seq::empty()
    } else {
        with_entry(
            fresh_catalog(sectors.drop_last()),
            SectorInfo { progress: 0, ..sectors.last() },
        )
    }
}

/// Whether no two entries of the catalog are for the same sector.
pub open spec fn keyed_by_id(catalog: Seq<SectorInfo>) -> bool {
    forall|i: int, j: int|
        0 <= i < j < catalog.len() ==> (#[trigger] catalog[i]).id != (#[trigger] catalog[j]).id
}

/// Makes `sector` the catalog's entry for its identifier.
pub fn insert_sector(catalog: &mut Vec<SectorInfo>, sector: SectorInfo)
    ensures
        final(catalog)@ == with_entry(old(catalog)@, sector),
        keyed_by_id(old(catalog)@) ==> keyed_by_id(final(catalog)@),
{
    let ghost before = catalog@;
    let m = catalog.len();
    let mut found = false;
    let mut k: usize = 0;
    while k < m
        invariant
            k <= m,
            m == before.len(),
            catalog@.len() == m,
            found == exists|j: int| 0 <= j < k && (#[trigger] before[j]).id == sector.id,
            forall|j: int| 0 <= j < k ==> catalog@[j] == if before[j].id == sector.id {
                sector
            } else {
                before[j]
            },
            forall|j: int| k <= j < m ==> catalog@[j] == before[j],
        decreases m - k,
    {
        assert(catalog@[k as int] == before[k as int]);
        if catalog[k].id == sector.id {
            catalog.set(k, sector);
            found = true;
        }
        k += 1;
    }
    if !found {
        catalog.push(sector);
    }
    assert(catalog@ =~= with_entry(before, sector));
}

/// Makes the catalog of a list of sectors. The machine starts a week afresh
/// whenever it starts, so every entry begins with no progress. Where the list
/// names a sector twice the later entry stands.
pub fn load_sectors_into_hashmap(sectors: Vec<SectorInfo>) -> (catalog: Vec<SectorInfo>)
    ensures
        catalog@ == fresh_catalog(sectors@),
        keyed_by_id(catalog@),
        forall|i: int| 0 <= i < catalog@.len() ==> (#[trigger] catalog@[i]).progress == 0,
{
    let mut catalog: Vec<SectorInfo> = Vec::new();
    let n = sectors.len();
    let mut i: usize = 0;
    while i < n
        invariant
            i <= n,
            n == sectors@.len(),
            catalog@ == fresh_catalog(sectors@.subrange(0, i as int)),
            keyed_by_id(catalog@),
            forall|k: int| 0 <= k < catalog@.len() ==> (#[trigger] catalog@[k]).progress == 0,
        decreases n - i,
    {
        let mut sector = sectors[i];
        sector.progress = 0;
        proof {
            let upto = sectors@.subrange(0, i + 1);
            assert(upto.last() == sectors@[i as int]);
            assert(upto.drop_last() =~= sectors@.subrange(0, i as int));
        }
        let ghost before = catalog@;
        insert_sector(&mut catalog, sector);
        assert(catalog@ =~= with_entry(before, sector));
        i += 1;
    }
    assert(sectors@.subrange(0, n as int) =~= sectors@);
    catalog
}

} // verus!
