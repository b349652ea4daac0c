//! FAT-packed dates and times.
//!
//! A date packs day (5 bits), month (4 bits) and year-since-1980 (7 bits)
//! into a `u16`; a time packs seconds/2 (5 bits), minute (6 bits) and hour
//! (5 bits).  Times have two-second granularity.

use vstd::prelude::*;

verus! {

/// Why a packed or component-wise date or time was rejected.
#[derive(Debug, Clone, Copy, PartialEq, Eq, Structural)]
pub enum DateTimeError {
    InvalidDay,
    InvalidMonth,
    InvalidYear,
    InvalidSeconds,
    InvalidMinutes,
    InvalidHours,
}

/// A FAT-packed calendar date.
#[derive(Debug, Clone, Copy, PartialEq, Eq, Structural)]
pub struct Date {
    pub repr: u16,
}

impl Date {
    /// Day of the month carried by a packed date (bits 0 to 4).
    pub open spec fn spec_day(repr: u16) -> u8 {
        (repr & 0x1F) as u8
    }

    /// Month carried by a packed date (bits 5 to 8).
    pub open spec fn spec_month(repr: u16) -> u8 {
        ((repr >> 5) & 0x0F) as u8
    }

    /// Year carried by a packed date (bits 9 to 15, offset from 1980).
    pub open spec fn spec_year(repr: u16) -> u16 {
        ((repr >> 9) + 1980) as u16
    }

    /// Validates a packed date: the month must be at most 12 and the day at
    /// most 31.
    pub fn new(repr: u16) -> (r: Result<Date, DateTimeError>)
        ensures
            r == (if Date::spec_month(repr) <= 12 {
                Ok::<Date, DateTimeError>(Date { repr })
            } else {
                Err::<Date, DateTimeError>(DateTimeError::InvalidMonth)
            }),
    {
        let date = Date { repr };

        if date.day() > 31 {
            proof {
                assert((repr & 0x1F) <= 31) by (bit_vector);
            }
            return Err(DateTimeError::InvalidDay);
        }

        if date.month() > 12 {
            return Err(DateTimeError::InvalidMonth);
        }

        Ok(date)
    }

    /// Packs day, month and year into a date.  The day must be at most 31,
    /// the month at most 12, and the year between 1980 and 2107.  The packed
    /// result decodes back to exactly the given components.
    pub fn from_day_month_year(day: u8, month: u8, year: u16) -> (r: Result<Date, DateTimeError>)
        ensures
            day > 31 ==> r == Err::<Date, DateTimeError>(DateTimeError::InvalidDay),
            day <= 31 && month > 12 ==> r == Err::<Date, DateTimeError>(DateTimeError::InvalidMonth),
            day <= 31 && month <= 12 && !(1980 <= year <= 2107) ==> r == Err::<
                Date,
                DateTimeError,
            >(DateTimeError::InvalidYear),
            day <= 31 && month <= 12 && 1980 <= year <= 2107 ==> r is Ok && {
                let d = r->Ok_0;
                &&& Date::spec_day(d.repr) == day
                &&& Date::spec_month(d.repr) == month
                &&& Date::spec_year(d.repr) == year
            },
    {
        if day > 31 {
            return Err(DateTimeError::InvalidDay);
        }
        if month > 12 {
            return Err(DateTimeError::InvalidMonth);
        }
        if year < 1980 || year > 2107 {
            return Err(DateTimeError::InvalidYear);
        }

        let repr: u16 = day as u16 | ((month as u16) << 5) | ((year - 1980) << 9);

        proof {
            let d = day as u16;
            let m = month as u16;
            let y = (year - 1980) as u16;
            assert(d <= 31 && m <= 12 && y <= 127 ==> {
                let rep = d | (m << 5) | (y << 9);
                &&& (rep & 0x1F) == d
                &&& ((rep >> 5) & 0x0F) == m
                &&& (rep >> 9) == y
            }) by (bit_vector);
        }

        Ok(Date { repr })
    }

    /// The packed representation.
    pub fn repr(&self) -> (r: u16)
        ensures
            r == self.repr,
    {
        self.repr
    }

    /// Day of the month, 0 to 31.
    pub fn day(&self) -> (r: u8)
        ensures
            r == Date::spec_day(self.repr),
    {
        (self.repr & 0x1F) as u8
    }

    /// Month, 0 to 15 on an unvalidated value, at most 12 on a validated one.
    pub fn month(&self) -> (r: u8)
        ensures
            r == Date::spec_month(self.repr),
    {
        ((self.repr >> 5) & 0x0F) as u8
    }

    /// Full year, 1980 to 2107.
    pub fn year(&self) -> (r: u16)
        ensures
            r == Date::spec_year(self.repr),
    {
        proof {
            let rep = self.repr;
            assert((rep >> 9) <= 127) by (bit_vector);
        }
        (self.repr >> 9) + 1980
    }
}

/// A FAT-packed time of day, with two-second granularity.
#[derive(Debug, Clone, Copy, PartialEq, Eq, Structural)]
pub struct Time {
    pub repr: u16,
}

impl Time {
    /// Seconds carried by a packed time (bits 0 to 4, halved on disk).
    pub open spec fn spec_second(repr: u16) -> u8 {
        (2 * (repr & 0x1F)) as u8
    }

    /// Minute carried by a packed time (bits 5 to 10).
    pub open spec fn spec_minute(repr: u16) -> u8 {
        ((repr >> 5) & 0x3F) as u8
    }

    /// Hour carried by a packed time (bits 11 to 15).
    pub open spec fn spec_hour(repr: u16) -> u8 {
        ((repr >> 11) & 0x1F) as u8
    }

    /// Wraps a packed time.  Every bit pattern is accepted.
    pub fn new(repr: u16) -> (r: Result<Time, DateTimeError>)
        ensures
            r == Ok::<Time, DateTimeError>(Time { repr }),
    {
        Ok(Time { repr })
    }

    /// Packs seconds, minutes and hours into a time.  Seconds must be at most
    /// 59, minutes at most 59, hours at most 23.  The packed result decodes
    /// back to the given components with the seconds floored to an even value.
    pub fn from_seconds_minutes_hours(seconds: u8, minutes: u8, hours: u8) -> (r: Result<
        Time,
        DateTimeError,
    >)
        ensures
            seconds > 59 ==> r == Err::<Time, DateTimeError>(DateTimeError::InvalidSeconds),
            seconds <= 59 && minutes > 59 ==> r == Err::<Time, DateTimeError>(
                DateTimeError::InvalidMinutes,
            ),
            seconds <= 59 && minutes <= 59 && hours > 23 ==> r == Err::<Time, DateTimeError>(
                DateTimeError::InvalidHours,
            ),
            seconds <= 59 && minutes <= 59 && hours <= 23 ==> r is Ok && {
                let t = r->Ok_0;
                &&& Time::spec_second(t.repr) == seconds & 0xFE
                &&& Time::spec_minute(t.repr) == minutes
                &&& Time::spec_hour(t.repr) == hours
            },
    {
        if seconds > 59 {
            return Err(DateTimeError::InvalidSeconds);
        }
        if minutes > 59 {
            return Err(DateTimeError::InvalidMinutes);
        }
        if hours > 23 {
            return Err(DateTimeError::InvalidHours);
        }

        let repr: u16 = ((seconds >> 1) as u16) | ((minutes as u16) << 5) | ((hours as u16) << 11);

        proof {
            let s = seconds;
            let m = minutes as u16;
            let h = hours as u16;
            assert(s <= 59 && m <= 59 && h <= 23 ==> {
                let rep = ((s >> 1) as u16) | (m << 5) | (h << 11);
                &&& (2 * (rep & 0x1F)) == (s & 0xFE)
                &&& ((rep >> 5) & 0x3F) == m
                &&& ((rep >> 11) & 0x1F) == h
            }) by (bit_vector);
        }

        Ok(Time { repr })
    }

    /// The packed representation.
    pub fn repr(&self) -> (r: u16)
        ensures
            r == self.repr,
    {
        self.repr
    }

    /// Seconds, always even, 0 to 62 on an unvalidated value.
    pub fn second(&self) -> (r: u8)
        ensures
            r == Time::spec_second(self.repr),
    {
        proof {
            let rep = self.repr;
            assert(2 * (rep & 0x1F) <= 62) by (bit_vector);
        }
        2 * ((self.repr & 0x1F) as u8)
    }

    /// Minute, 0 to 63 on an unvalidated value.
    pub fn minute(&self) -> (r: u8)
        ensures
            r == Time::spec_minute(self.repr),
    {
        ((self.repr >> 5) & 0x3F) as u8
    }

    /// Hour, 0 to 31 on an unvalidated value.
    pub fn hour(&self) -> (r: u8)
        ensures
            r == Time::spec_hour(self.repr),
    {
        ((self.repr >> 11) & 0x1F) as u8
    }
}

} // verus!
