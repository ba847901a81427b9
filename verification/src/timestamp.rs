//! Reduction of native timestamps to milliseconds since the Unix epoch.
//!
//! The foreign runtime represents an instant as a single 64-bit signed count
//! of milliseconds. Two distinct native representations feed into that
//! count: a naive UTC timestamp and an offset-aware timestamp. They are kept
//! as separate types with independent constructors, but once reduced to
//! milliseconds their behaviour is identical: epoch seconds times one
//! thousand, plus the sub-second millisecond component.

use vstd::prelude::*;

verus! {

/// The millisecond count that a timestamp of `secs` whole seconds and a
/// sub-second component of `millis` milliseconds reduces to.
pub open spec fn millis_since_epoch(secs: int, millis: int) -> int {
    secs * 1000 + millis
}

/// A naive UTC timestamp: whole seconds since the Unix epoch and a
/// sub-second millisecond component.
#[derive(Clone, Copy, PartialEq, Eq, Structural, Debug)]
pub struct UtcTimestamp {
    pub secs: i64,
    pub millis: u16,
}

/// An offset-aware timestamp: the same epoch reading plus the UTC offset of
/// the clock it was taken from, in minutes. The epoch seconds are already
/// UTC-based, so the offset never enters the millisecond reduction.
#[derive(Clone, Copy, PartialEq, Eq, Structural, Debug)]
pub struct OffsetTimestamp {
    pub secs: i64,
    pub millis: u16,
    pub offset_minutes: i32,
}

impl UtcTimestamp {
    /// The sub-second component is a count of milliseconds, below one second.
    pub open spec fn wf(self) -> bool {
        self.millis < 1000
    }

    /// The millisecond count this timestamp stands for, as a mathematical
    /// integer.
    pub open spec fn spec_millis(self) -> int {
        millis_since_epoch(self.secs as int, self.millis as int)
    }

    pub fn new(secs: i64, millis: u16) -> (r: Option<UtcTimestamp>)
        ensures
            r is Some <==> millis < 1000,
            r is Some ==> r->0 == (UtcTimestamp { secs, millis }) && r->0.wf(),
    {
        if millis < 1000 {
            Some(UtcTimestamp { secs, millis })
        } else {
            None
        }
    }

    /// Reduce to milliseconds since the epoch.
    pub fn to_millis(&self) -> (r: i64)
        requires
            self.wf(),
            i64::MIN <= self.spec_millis() <= i64::MAX,
        ensures
            r == self.spec_millis(),
    {
        let wide: i128 = self.secs as i128 * 1000 + self.millis as i128;
        wide as i64
    }
}

impl OffsetTimestamp {
    /// The sub-second component is a count of milliseconds, below one
    /// second, and the offset stays within a day in either direction.
    pub open spec fn wf(self) -> bool {
        self.millis < 1000 && -24 * 60 <= self.offset_minutes <= 24 * 60
    }

    /// The millisecond count this timestamp stands for. The offset does not
    /// appear: the epoch seconds are already UTC-based.
    pub open spec fn spec_millis(self) -> int {
        millis_since_epoch(self.secs as int, self.millis as int)
    }

    pub fn new(secs: i64, millis: u16, offset_minutes: i32) -> (r: Option<OffsetTimestamp>)
        ensures
            r is Some <==> millis < 1000 && -24 * 60 <= offset_minutes <= 24 * 60,
            r is Some ==> r->0 == (OffsetTimestamp { secs, millis, offset_minutes })
                && r->0.wf(),
    {
        if millis < 1000 && -24 * 60 <= offset_minutes && offset_minutes <= 24 * 60 {
            Some(OffsetTimestamp { secs, millis, offset_minutes })
        } else {
            None
        }
    }

    /// Reduce to milliseconds since the epoch.
    pub fn to_millis(&self) -> (r: i64)
        requires
            self.wf(),
            i64::MIN <= self.spec_millis() <= i64::MAX,
        ensures
            r == self.spec_millis(),
    {
        let wide: i128 = self.secs as i128 * 1000 + self.millis as i128;
        wide as i64
    }
}

/// The two timestamp kinds agree once reduced: equal epoch readings give
/// equal millisecond counts, whatever the offset.
pub proof fn lemma_kinds_agree(u: UtcTimestamp, o: OffsetTimestamp)
    requires
        u.secs == o.secs,
        u.millis == o.millis,
    ensures
        u.spec_millis() == o.spec_millis(),
{
}

/// Map a present offset-aware timestamp to a present millisecond count and
/// an absent one to an absent count: optionality is preserved exactly, with
/// no sentinel standing in for absence.
pub fn optional_to_millis(t: &Option<OffsetTimestamp>) -> (r: Option<i64>)
    requires
        t is Some ==> t->0.wf() && i64::MIN <= t->0.spec_millis() <= i64::MAX,
    ensures
        r is Some <==> t is Some,
        r is Some ==> r->0 == t->0.spec_millis(),
{
    match t {
        Some(ts) => Some(ts.to_millis()),
        None => None,
    }
}

/// The naive-UTC counterpart of [`optional_to_millis`].
pub fn optional_utc_to_millis(t: &Option<UtcTimestamp>) -> (r: Option<i64>)
    requires
        t is Some ==> t->0.wf() && i64::MIN <= t->0.spec_millis() <= i64::MAX,
    ensures
        r is Some <==> t is Some,
        r is Some ==> r->0 == t->0.spec_millis(),
{
    match t {
        Some(ts) => Some(ts.to_millis()),
        None => None,
    }
}

} // verus!
