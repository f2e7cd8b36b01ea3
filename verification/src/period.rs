//! How the archive is partitioned in time.

use vstd::prelude::*;
use crate::digits::{fixed_width, lemma_fixed_width_shape, render_fixed};
use crate::paths::append;

verus! {

/// The granularity of the archive's time buckets. It is chosen once, when
/// the process starts, and never changes.
#[derive(Clone, Copy, Debug, PartialEq, Eq, Structural)]
pub enum Period {
    /// No buckets: scripts land directly under the archive root.
    Undated,
    /// One bucket per day.
    Daily,
    /// One bucket per month.
    Monthly,
    /// One bucket per year.
    Yearly,
}

/// A calendar date on the local wall clock.
#[derive(Clone, Copy, Debug, PartialEq, Eq, Structural)]
pub struct LocalDate {
    pub year: u16,
    pub month: u8,
    pub day: u8,
}

impl LocalDate {
    /// The year has at most four digits, the month is one of the twelve, and
    /// the day lies between 1 and 31.
    pub open spec fn wf(self) -> bool {
        self.year <= 9999 && 1 <= self.month <= 12 && 1 <= self.day <= 31
    }

    /// Whether three numbers read off a calendar can stand as a date.
    pub open spec fn representable(year: int, month: int, day: int) -> bool {
        0 <= year <= 9999 && 1 <= month <= 12 && 1 <= day <= 31
    }

    /// Builds a date from numbers read off a calendar, where they can stand
    /// as one.
    pub fn from_calendar(year: i32, month: u32, day: u32) -> (date: Option<LocalDate>)
        ensures
            date is Some <==> Self::representable(year as int, month as int, day as int),
            date matches Some(d) ==> d.wf() && d.year == year && d.month == month && d.day == day,
    {
        if 0 <= year && year <= 9999 && 1 <= month && month <= 12 && 1 <= day && day <= 31 {
            Some(LocalDate { year: year as u16, month: month as u8, day: day as u8 })
        } else {
            None
        }
    }
}

/// The name of the bucket that `period` assigns to `date`: nothing for
/// `Undated`, `YYYY` for `Yearly`, `YYYYMM` for `Monthly`, `YYYYMMDD` for
/// `Daily`, each number zero-padded.
pub open spec fn bucket_of(period: Period, date: LocalDate) -> Seq<u8> {
    match period {
        Period::Undated => Seq::empty(),
        Period::Yearly => fixed_width(date.year as nat, 4),
        Period::Monthly => fixed_width(date.year as nat, 4) + fixed_width(date.month as nat, 2),
        Period::Daily => fixed_width(date.year as nat, 4) + fixed_width(date.month as nat, 2)
            + fixed_width(date.day as nat, 2),
    }
}

/// The number of bytes in a bucket name of `period`.
pub open spec fn bucket_len(period: Period) -> nat {
    match period {
        Period::Undated => 0,
        Period::Yearly => 4,
        Period::Monthly => 6,
        Period::Daily => 8,
    }
}

/// A bucket name has the length of its period and holds digits only, so it
/// is a single path component unless the period is `Undated`.
pub proof fn lemma_bucket_shape(period: Period, date: LocalDate)
    ensures
        bucket_of(period, date).len() == bucket_len(period),
        forall|i: int|
            0 <= i < bucket_of(period, date).len() ==> crate::digits::is_digit(
                #[trigger] bucket_of(period, date)[i],
            ),
{
    lemma_fixed_width_shape(date.year as nat, 4);
    lemma_fixed_width_shape(date.month as nat, 2);
    lemma_fixed_width_shape(date.day as nat, 2);
}

impl Period {
    /// The bucket name for `date`.
    pub fn bucket(&self, date: &LocalDate) -> (out: Vec<u8>)
        ensures
            out@ == bucket_of(*self, *date),
    {
        let mut out: Vec<u8> = Vec::new();
        match self {
            Period::Undated => {},
            Period::Yearly => {
                append_fixed(&mut out, date.year as u32, 4);
            },
            Period::Monthly => {
                append_fixed(&mut out, date.year as u32, 4);
                append_fixed(&mut out, date.month as u32, 2);
            },
            Period::Daily => {
                append_fixed(&mut out, date.year as u32, 4);
                append_fixed(&mut out, date.month as u32, 2);
                append_fixed(&mut out, date.day as u32, 2);
            },
        }
        assert(Seq::<u8>::empty() + fixed_width(date.year as nat, 4) =~= fixed_width(
            date.year as nat,
            4,
        ));
        out
    }
}

/// Appends the last `width` decimal digits of `n` to `out`.
fn append_fixed(out: &mut Vec<u8>, n: u32, width: usize)
    ensures
        final(out)@ == old(out)@ + fixed_width(n as nat, width as nat),
{
    let digits = render_fixed(n, width);
    append(out, &digits);
}

} // verus!
