//! Spans of time and points in time, with nanosecond resolution.
use crate::calendar::{
    civil_from_days, days_from_civil, is_date, lemma_days_from_civil_injective,
};
use vstd::prelude::*;

verus! {

/// Number of nanoseconds in one second.
pub const NANOS_PER_SEC: u32 = 1_000_000_000;

/// The longest span a [`Duration`] can hold, in nanoseconds.
pub open spec fn duration_max_nanos() -> nat {
    (u64::MAX as nat) * 1_000_000_000 + 999_999_999
}

/// A non-negative span of time. Its view is the span in nanoseconds.
#[derive(Clone, Copy, Debug, PartialEq, Eq, Structural)]
pub struct Duration {
    secs: u64,
    nanos: u32,
}

impl View for Duration {
    type V = nat;

    closed spec fn view(&self) -> nat {
        (self.secs as nat) * 1_000_000_000 + (self.nanos as nat)
    }
}

impl Duration {
    /// The sub-second part stays below one second.
    #[verifier::type_invariant]
    pub closed spec fn wf(self) -> bool {
        self.nanos < NANOS_PER_SEC
    }

    /// A span of `secs` whole seconds plus `nanos` nanoseconds; `None` when
    /// `nanos` is a full second or more.
    pub fn new(secs: u64, nanos: u32) -> (r: Option<Duration>)
        ensures
            r is Some <==> nanos < NANOS_PER_SEC,
            r matches Some(d) ==> d.wf() && d@ == secs * 1_000_000_000 + nanos,
    {
        if nanos < NANOS_PER_SEC {
            Some(Duration { secs, nanos })
        } else {
            None
        }
    }

    /// A span of `secs` whole seconds plus `nanos` nanoseconds, whatever
    /// `nanos` is; the longest span there is where that would be longer.
    pub fn saturating_new(secs: u64, nanos: u32) -> (r: Duration)
        ensures
            r.wf(),
            r@ == if secs * 1_000_000_000 + nanos <= duration_max_nanos() {
                (secs * 1_000_000_000 + nanos) as nat
            } else {
                duration_max_nanos()
            },
    {
        let carry: u64 = (nanos / NANOS_PER_SEC) as u64;
        let rest: u32 = nanos % NANOS_PER_SEC;
        if secs > u64::MAX - carry {
            Duration { secs: u64::MAX, nanos: NANOS_PER_SEC - 1 }
        } else {
            Duration { secs: secs + carry, nanos: rest }
        }
    }

    /// A span of `secs` whole seconds.
    pub fn from_secs(secs: u64) -> (r: Duration)
        ensures
            r.wf(),
            r@ == secs * 1_000_000_000,
    {
        Duration { secs, nanos: 0 }
    }

    /// The empty span.
    pub fn zero() -> (r: Duration)
        ensures
            r.wf(),
            r@ == 0,
    {
        Duration { secs: 0, nanos: 0 }
    }

    /// The whole seconds of the span.
    pub fn as_secs(&self) -> (r: u64)
        ensures
            r == self@ / 1_000_000_000,
    {
        proof {
            use_type_invariant(self);
        }
        self.secs
    }

    /// The part of the span below one second, in nanoseconds.
    pub fn subsec_nanos(&self) -> (r: u32)
        ensures
            r == self@ % 1_000_000_000,
            r < NANOS_PER_SEC,
    {
        proof {
            use_type_invariant(self);
        }
        self.nanos
    }

    /// Two well-formed spans of the same length are the same value.
    pub proof fn lemma_view_injective(a: Duration, b: Duration)
        requires
            a.wf(),
            b.wf(),
            a@ == b@,
        ensures
            a == b,
    {
    }

    /// No span exceeds [`duration_max_nanos`].
    pub proof fn lemma_view_bounded(a: Duration)
        requires
            a.wf(),
        ensures
            a@ <= duration_max_nanos(),
    {
    }
}

/// A point in time, counted from the Unix epoch; earlier instants have
/// negative seconds. Its view is the offset from the epoch in nanoseconds.
#[derive(Clone, Copy, Debug, PartialEq, Eq, Structural)]
pub struct Timestamp {
    secs: i64,
    nanos: u32,
}

impl View for Timestamp {
    type V = int;

    closed spec fn view(&self) -> int {
        (self.secs as int) * 1_000_000_000 + (self.nanos as int)
    }
}

/// The latest instant that a [`Timestamp`] can tell, in nanoseconds since
/// the epoch.
pub open spec fn latest_nanos() -> int {
    (i64::MAX as int) * 1_000_000_000 + 999_999_999
}

/// The earliest instant that a [`Timestamp`] can tell, in nanoseconds since
/// the epoch.
pub open spec fn earliest_nanos() -> int {
    (i64::MIN as int) * 1_000_000_000
}

/// How long after `now` an instant `lifetime` past `start` lies, in
/// nanoseconds: zero once that instant has been reached.
pub open spec fn remaining_nanos(start: int, lifetime: nat, now: int) -> nat {
    if start + lifetime > now {
        (start + lifetime - now) as nat
    } else {
        0
    }
}

impl Timestamp {
    /// The sub-second part stays below one second.
    #[verifier::type_invariant]
    pub closed spec fn wf(self) -> bool {
        self.nanos < NANOS_PER_SEC
    }

    /// The instant `nanos` nanoseconds after the whole second `secs`; `None`
    /// when `nanos` is a full second or more.
    pub fn new(secs: i64, nanos: u32) -> (r: Option<Timestamp>)
        ensures
            r is Some <==> nanos < NANOS_PER_SEC,
            r matches Some(t) ==> t.wf() && t@ == secs * 1_000_000_000 + nanos,
    {
        if nanos < NANOS_PER_SEC {
            Some(Timestamp { secs, nanos })
        } else {
            None
        }
    }

    /// The instant at the start of the whole second `secs`.
    pub fn from_unix_secs(secs: i64) -> (r: Timestamp)
        ensures
            r.wf(),
            r@ == secs * 1_000_000_000,
    {
        Timestamp { secs, nanos: 0 }
    }

    /// The instant `offset` after the epoch, and the latest instant that a
    /// timestamp can tell where that lies beyond it.
    pub fn saturating_after_epoch(offset: Duration) -> (r: Timestamp)
        ensures
            r.wf(),
            r@ == if offset@ <= latest_nanos() {
                offset@ as int
            } else {
                latest_nanos()
            },
    {
        proof {
            use_type_invariant(offset);
        }
        if offset.secs <= 0x7fff_ffff_ffff_ffff {
            Timestamp { secs: offset.secs as i64, nanos: offset.nanos }
        } else {
            Timestamp { secs: 0x7fff_ffff_ffff_ffff, nanos: NANOS_PER_SEC - 1 }
        }
    }

    /// The instant `offset` before the epoch, and the earliest instant that
    /// a timestamp can tell where that lies before it.
    pub fn saturating_before_epoch(offset: Duration) -> (r: Timestamp)
        ensures
            r.wf(),
            r@ == if -offset@ >= earliest_nanos() {
                -offset@
            } else {
                earliest_nanos()
            },
    {
        proof {
            use_type_invariant(offset);
        }
        if offset.nanos == 0 {
            if offset.secs <= 0x8000_0000_0000_0000 {
                Timestamp { secs: (-(offset.secs as i128)) as i64, nanos: 0 }
            } else {
                Timestamp { secs: -0x8000_0000_0000_0000, nanos: 0 }
            }
        } else if offset.secs < 0x8000_0000_0000_0000 {
            Timestamp {
                secs: (-(offset.secs as i128) - 1) as i64,
                nanos: NANOS_PER_SEC - offset.nanos,
            }
        } else {
            Timestamp { secs: -0x8000_0000_0000_0000, nanos: 0 }
        }
    }

    /// Whole seconds since the epoch, rounded towards the past.
    pub fn unix_secs(&self) -> (r: i64)
        ensures
            r == self@ / 1_000_000_000,
    {
        proof {
            use_type_invariant(self);
        }
        self.secs
    }

    /// Nanoseconds past the whole second.
    pub fn subsec_nanos(&self) -> (r: u32)
        ensures
            r == self@ % 1_000_000_000,
            r < NANOS_PER_SEC,
    {
        proof {
            use_type_invariant(self);
        }
        self.nanos
    }

    /// Whether the time left from `now` until `lifetime` past `self` fits a
    /// [`Duration`].
    pub fn expiry_fits(&self, lifetime: Duration, now: Timestamp) -> (r: bool)
        ensures
            r == (remaining_nanos(self@, lifetime@, now@) <= duration_max_nanos()),
    {
        proof {
            use_type_invariant(self);
            use_type_invariant(lifetime);
            use_type_invariant(now);
        }
        let start: i128 = (self.secs as i128) * 1_000_000_000 + (self.nanos as i128);
        let span: i128 = (lifetime.secs as i128) * 1_000_000_000 + (lifetime.nanos as i128);
        let current: i128 = (now.secs as i128) * 1_000_000_000 + (now.nanos as i128);
        let left: i128 = start + span - current;
        left <= (u64::MAX as i128) * 1_000_000_000 + 999_999_999
    }

    /// The time left from `now` until the instant `lifetime` past `self`,
    /// zero if that instant is not in the future.
    pub fn until_expiry(&self, lifetime: Duration, now: Timestamp) -> (r: Duration)
        requires
            remaining_nanos(self@, lifetime@, now@) <= duration_max_nanos(),
        ensures
            r.wf(),
            r@ == remaining_nanos(self@, lifetime@, now@),
    {
        proof {
            use_type_invariant(self);
            use_type_invariant(lifetime);
            use_type_invariant(now);
        }
        let start: i128 = (self.secs as i128) * 1_000_000_000 + (self.nanos as i128);
        let span: i128 = (lifetime.secs as i128) * 1_000_000_000 + (lifetime.nanos as i128);
        let current: i128 = (now.secs as i128) * 1_000_000_000 + (now.nanos as i128);
        let left: i128 = start + span - current;
        if left <= 0 {
            Duration { secs: 0, nanos: 0 }
        } else {
            let secs: i128 = left / 1_000_000_000;
            let nanos: i128 = left % 1_000_000_000;
            Duration { secs: secs as u64, nanos: nanos as u32 }
        }
    }

    /// While `self` is not after `now`, the time left never exceeds the
    /// lifetime, so it always fits.
    pub proof fn lemma_past_start_fits(start: Timestamp, lifetime: Duration, now: Timestamp)
        requires
            lifetime.wf(),
            start@ <= now@,
        ensures
            remaining_nanos(start@, lifetime@, now@) <= lifetime@,
            remaining_nanos(start@, lifetime@, now@) <= duration_max_nanos(),
    {
    }
}

/// The decimal digit `d` as a character.
pub open spec fn digit(d: int) -> char {
    (48 + d) as char
}

/// `value` in decimal, with zeros in front where it has fewer than `width`
/// digits.
pub open spec fn padded(value: nat, width: nat) -> Seq<char>
    decreases value, width,
{
    if value < 10 && width <= 1 {
        seq![digit(value as int)]
    } else {
        padded(
            value / 10,
            if width == 0 {
                0
            } else {
                (width - 1) as nat
            },
        ).push(digit((value % 10) as int))
    }
}

/// A year as text: four digits for the years 0 to 9999. Years beyond
/// these are written with as many digits as they take, and years before
/// them after a minus sign.
pub open spec fn year_text(year: int) -> Seq<char> {
    if year < 0 {
        seq!['-'] + padded((-year) as nat, 4)
    } else {
        padded(year as nat, 4)
    }
}

/// The date on which the day `days` days after the first day of 1970
/// falls, as year, month and day of the month.
pub open spec fn date_of(days: int) -> (int, int, int) {
    choose|date: (int, int, int)|
        is_date(date.0, date.1, date.2) && days_from_civil(date.0, date.1, date.2) == days
}

/// The instant `nanos` nanoseconds after the Unix epoch as a timestamp in
/// the format of RFC 3339: the date and the time of day in UTC with all
/// nine digits of the nanoseconds, as in `2024-02-29T12:34:56.000000789Z`.
pub open spec fn rfc3339(nanos: int) -> Seq<char> {
    let secs = nanos / 1_000_000_000;
    let date = date_of(secs / 86_400);
    let second_of_day = secs % 86_400;
    year_text(date.0) + seq!['-'] + padded(date.1 as nat, 2) + seq!['-'] + padded(
        date.2 as nat,
        2,
    ) + seq!['T'] + padded((second_of_day / 3_600) as nat, 2) + seq![':'] + padded(
        (second_of_day % 3_600 / 60) as nat,
        2,
    ) + seq![':'] + padded((second_of_day % 60) as nat, 2) + seq!['.'] + padded(
        (nanos % 1_000_000_000) as nat,
        9,
    ) + seq!['Z']
}

/// Calls `String::push`, which appends one character.
#[verifier::external_body]
fn push_char(text: &mut String, c: char)
    ensures
        final(text)@ == old(text)@.push(c),
{
    text.push(c)
}

/// Appends `value` in decimal with at least `width` digits.
fn push_padded(text: &mut String, value: u64, width: usize)
    ensures
        final(text)@ == old(text)@ + padded(value as nat, width as nat),
    decreases value, width,
{
    if value < 10 && width <= 1 {
        push_char(text, (48u8 + (value as u8)) as char);
        assert(text@ =~= old(text)@ + padded(value as nat, width as nat));
    } else {
        let rest: usize = if width == 0 {
            0
        } else {
            width - 1
        };
        push_padded(text, value / 10, rest);
        push_char(text, (48u8 + ((value % 10) as u8)) as char);
        assert(text@ =~= old(text)@ + padded(value as nat, width as nat));
    }
}

impl Timestamp {
    /// The timestamp in the format of RFC 3339, in UTC and with the
    /// nanoseconds in full.
    pub fn to_rfc3339(&self) -> (text: String)
        ensures
            text@ == rfc3339(self@),
    {
        proof {
            use_type_invariant(self);
        }
        // The seconds are counted from an instant far enough in the past,
        // a whole number of days before the epoch, for the count not to be
        // negative.
        let shift_days: i128 = 146_097 * 800_000_000;
        let since: i128 = (self.secs as i128) + shift_days * 86_400;
        let shifted_days: i128 = since / 86_400;
        let second_of_day: i128 = since % 86_400;
        let days: i128 = shifted_days - shift_days;
        proof {
            assert(since == 86_400 * shifted_days + second_of_day) by (nonlinear_arith)
                requires
                    shifted_days == since / 86_400,
                    second_of_day == since % 86_400,
            ;
            assert(self.secs == 86_400 * days + second_of_day);
            assert(self@ / 1_000_000_000 == self.secs);
            assert(self@ % 1_000_000_000 == self.nanos);
            assert(self.secs as int / 86_400 == days && self.secs as int % 86_400
                == second_of_day) by (nonlinear_arith)
                requires
                    self.secs == 86_400 * days + second_of_day,
                    0 <= second_of_day < 86_400,
            ;
        }
        let (year, month, day) = civil_from_days(days as i64);
        proof {
            let date = date_of(days as int);
            assert(is_date(year as int, month as int, day as int) && days_from_civil(
                year as int,
                month as int,
                day as int,
            ) == days);
            let witness: (int, int, int) = (year as int, month as int, day as int);
            assert(is_date(witness.0, witness.1, witness.2) && days_from_civil(
                witness.0,
                witness.1,
                witness.2,
            ) == days);
            lemma_days_from_civil_injective(
                year as int,
                month as int,
                day as int,
                date.0,
                date.1,
                date.2,
            );
        }
        let hour: i128 = second_of_day / 3_600;
        let minute: i128 = second_of_day % 3_600 / 60;
        let second: i128 = second_of_day % 60;
        let mut text = String::new();
        if year < 0 {
            push_char(&mut text, '-');
            push_padded(&mut text, (-(year as i128)) as u64, 4);
        } else {
            push_padded(&mut text, year as u64, 4);
        }
        assert(text@ =~= year_text(year as int));
        push_char(&mut text, '-');
        push_padded(&mut text, month as u64, 2);
        push_char(&mut text, '-');
        push_padded(&mut text, day as u64, 2);
        push_char(&mut text, 'T');
        push_padded(&mut text, hour as u64, 2);
        push_char(&mut text, ':');
        push_padded(&mut text, minute as u64, 2);
        push_char(&mut text, ':');
        push_padded(&mut text, second as u64, 2);
        push_char(&mut text, '.');
        push_padded(&mut text, self.nanos as u64, 9);
        push_char(&mut text, 'Z');
        assert(text@ =~= rfc3339(self@));
        text
    }
}

} // verus!
