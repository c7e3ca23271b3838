//! Timestamps: the current instant in RFC 3339 form with a `+00:00` offset,
//! and a clock that never hands out an earlier value than it already has.
use vstd::prelude::*;
use crate::ident::GenerationError;
use crate::text::{lex_le, later_of, text_le, lemma_lex_le_refl, lemma_lex_le_total, lemma_lex_le_trans};

verus! {

pub open spec fn is_digit(c: char) -> bool {
    '0' <= c && c <= '9'
}

/// `n` decimal digits in `s` from position `from` on.
pub open spec fn digits(s: Seq<char>, from: int, n: int) -> bool {
    forall|i: int| from <= i < from + n ==> is_digit(#[trigger] s[i])
}

/// The character layout of a timestamp: `YYYY-MM-DDTHH:MM:SS` in digits,
/// then nothing or `.` with `f` digits (`f` is 3, 6 or 9), then `+00:00`.
/// Only character classes are checked, not the ranges of months or hours.
pub open spec fn stamp_layout(s: Seq<char>, f: int) -> bool {
    &&& (f == 0 || f == 3 || f == 6 || f == 9)
    &&& s.len() == 19 + (if f == 0 { 0 } else { f + 1 }) + 6
    &&& digits(s, 0, 4) && s[4] == '-' && digits(s, 5, 2) && s[7] == '-' && digits(s, 8, 2)
    &&& s[10] == 'T' && digits(s, 11, 2) && s[13] == ':' && digits(s, 14, 2)
    &&& s[16] == ':' && digits(s, 17, 2)
    &&& f > 0 ==> s[19] == '.' && digits(s, 20, f)
    &&& s.subrange(s.len() - 6, s.len() as int) == seq!['+', '0', '0', ':', '0', '0']
}

/// `s` has the character layout of a UTC timestamp with a four-digit year.
pub open spec fn is_utc_stamp(s: Seq<char>) -> bool {
    exists|f: int| stamp_layout(s, f)
}

/// Seconds since the Unix epoch of 9999-12-31T23:59:59, the last second
/// whose year takes four digits.
pub const MAX_STAMP_SECS: u64 = 253402300799;

/// What `DateTime::<Utc>::to_rfc3339` writes for the instant `secs` seconds
/// and `nanos` nanoseconds after the Unix epoch.
pub uninterp spec fn rfc3339_text(secs: int, nanos: int) -> Seq<char>;

/// Relies on `std::time::SystemTime::now` and `SystemTime::duration_since`
/// with `UNIX_EPOCH`, which fails (here `None`) when the clock reads a time
/// before the epoch; the sub-second part of a `Duration` is below one second.
#[verifier::external_body]
fn system_time_since_epoch() -> (r: Option<(u64, u32)>)
    ensures
        r matches Some(p) ==> p.1 < 1_000_000_000,
{
    match std::time::SystemTime::now().duration_since(std::time::UNIX_EPOCH) {
        Ok(d) => Some((d.as_secs(), d.subsec_nanos())),
        Err(_) => None,
    }
}

/// Relies on `chrono::DateTime::<Utc>::from_timestamp`, which gives `None`
/// only for an instant out of its range (years beyond 9999 are within it),
/// and on `DateTime::to_rfc3339`, which for years 0 to 9999 writes four year
/// digits, the date, `T`, the time with zero, three, six or nine fractional
/// digits, and the UTC offset as `+00:00`.
#[verifier::external_body]
fn rfc3339_of(secs: i64, nanos: u32) -> (r: Option<String>)
    ensures
        r matches Some(s) ==> s@ == rfc3339_text(secs as int, nanos as int),
        0 <= secs <= MAX_STAMP_SECS && nanos < 1_000_000_000 ==> r is Some,
        r matches Some(s) ==> (0 <= secs <= MAX_STAMP_SECS && nanos < 1_000_000_000
            ==> is_utc_stamp(s@)),
{
    match chrono::DateTime::<chrono::Utc>::from_timestamp(secs, nanos) {
        Some(d) => Some(d.to_rfc3339()),
        None => None,
    }
}

/// A reading of the wall clock, in seconds and nanoseconds since the Unix
/// epoch, that a timestamp with a four-digit year can state.
pub open spec fn reading_in_range(secs: u64, nanos: u32) -> bool {
    secs <= MAX_STAMP_SECS && nanos < 1_000_000_000
}

/// Turns a wall-clock reading into the next timestamp of `clock`: the later
/// of the last value handed out and the reading's RFC 3339 text. A missing
/// reading (a clock before the epoch) or one past the year 9999 fails,
/// leaving the clock as it was.
pub fn stamp_of_reading(clock: &mut Clock, reading: Option<(u64, u32)>) -> (r: Result<String, GenerationError>)
    ensures
        match reading {
            Some((secs, nanos)) if reading_in_range(secs, nanos) => {
                &&& r matches Ok(s)
                &&& s@ == later_of(old(clock)@, rfc3339_text(secs as int, nanos as int))
                &&& final(clock)@ == s@
            },
            _ => r == Err::<String, GenerationError>(GenerationError::Clock) && final(clock)@ == old(clock)@,
        },
        r matches Ok(s) ==> is_utc_stamp(s@) && lex_le(old(clock)@, s@),
{
    match reading {
        Some((secs, nanos)) => {
            if secs > MAX_STAMP_SECS || nanos >= 1_000_000_000 {
                return Err(GenerationError::Clock);
            }
            match rfc3339_of(secs as i64, nanos) {
                Some(text) => {
                    proof {
                        use_type_invariant(&*clock);
                    }
                    let r = clock.advance(text);
                    proof {
                        if old(clock)@.len() == 0 {
                            assert(lex_le(old(clock)@, rfc3339_text(secs as int, nanos as int)));
                        }
                    }
                    Ok(r)
                },
                None => Err(GenerationError::Clock),
            }
        },
        None => Err(GenerationError::Clock),
    }
}

/// The current instant as an RFC 3339 string in UTC, never earlier than the
/// last value this clock handed out: a wall clock set back is clamped to it.
/// Fails, leaving the clock as it was, when the wall clock cannot be read or
/// reads a time past the year 9999.
pub fn get_current_time(clock: &mut Clock) -> (r: Result<String, GenerationError>)
    ensures
        r matches Ok(s) ==> final(clock)@ == s@ && is_utc_stamp(s@) && lex_le(old(clock)@, s@),
        r matches Err(e) ==> e == GenerationError::Clock && final(clock)@ == old(clock)@,
{
    stamp_of_reading(clock, system_time_since_epoch())
}

/// A source of timestamps that remembers the last value it handed out and
/// clamps to it, so that a wall clock set back never makes time run backward.
pub struct Clock {
    last: String,
}

impl View for Clock {
    type V = Seq<char>;

    closed spec fn view(&self) -> Seq<char> {
        self.last@
    }
}

impl Clock {
    #[verifier::type_invariant]
    spec fn inv(&self) -> bool {
        self.last@.len() == 0 || is_utc_stamp(self.last@)
    }

    /// A clock that has handed out nothing yet.
    pub fn new() -> (c: Clock)
        ensures
            c@ == Seq::<char>::empty(),
    {
        Clock { last: String::new() }
    }

    /// Takes a raw reading and hands out the later of it and the last value.
    pub fn advance(&mut self, reading: String) -> (r: String)
        requires
            is_utc_stamp(reading@),
        ensures
            r@ == later_of(old(self)@, reading@),
            final(self)@ == r@,
            lex_le(old(self)@, r@),
            lex_le(reading@, r@),
    {
        proof {
            use_type_invariant(&*self);
            lemma_lex_le_total(old(self)@, reading@);
            lemma_lex_le_refl(old(self)@);
            lemma_lex_le_refl(reading@);
        }
        if text_le(self.last.as_str(), reading.as_str()) {
            self.last = reading.clone();
            reading
        } else {
            self.last.clone()
        }
    }
}

/// Two values handed out one after the other by the same clock are in
/// order, whatever the raw readings were.
pub proof fn lemma_clock_in_order(last: Seq<char>, first: Seq<char>, second: Seq<char>)
    ensures
        lex_le(later_of(last, first), later_of(later_of(last, first), second)),
{
    let t1 = later_of(last, first);
    lemma_lex_le_refl(t1);
    lemma_lex_le_total(t1, second);
}

/// Values handed out in turn, each at or after the one before (as
/// `get_current_time` and `advance` ensure), are in order pairwise: the earlier of any two sorts
/// at or before the later one.
pub proof fn lemma_clock_pairs_in_order(outs: Seq<Seq<char>>, i: int, j: int)
    requires
        forall|k: int| 0 <= k < outs.len() - 1 ==> lex_le(#[trigger] outs[k], outs[k + 1]),
        0 <= i <= j < outs.len(),
    ensures
        lex_le(outs[i], outs[j]),
    decreases j - i,
{
    if i == j {
        lemma_lex_le_refl(outs[i]);
    } else {
        lemma_clock_pairs_in_order(outs, i, j - 1);
        lemma_lex_le_trans(outs[i], outs[j - 1], outs[j]);
    }
}

} // verus!
