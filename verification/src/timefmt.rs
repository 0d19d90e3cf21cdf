use vstd::prelude::*;
use chrono::{Datelike, Timelike};
use crate::numfmt::{dec_digit, dec_digit_char};

verus! {

/// Latest epoch second the library formats: the last second of 2099.
pub const EPOCH_MAX: i64 = 4_102_444_799;

/// Civil (wall-clock) time fields in the machine's local time zone.
pub struct Civil {
    pub year: i64,
    pub month: u8,
    pub day: u8,
    pub hour: u8,
    pub minute: u8,
    pub second: u8,
}

/// Calendar fields within their ranges, with a four-digit year.
pub open spec fn civil_in_range(c: Civil) -> bool {
    &&& 1000 <= c.year <= 9999
    &&& 1 <= c.month <= 12
    &&& 1 <= c.day <= 31
    &&& c.hour <= 23
    &&& c.minute <= 59
    &&& c.second <= 59
}

/// The proleptic Gregorian calendar fields of an epoch second, in pure
/// integer arithmetic: the day number is decomposed into 400-year eras, the
/// year and month read off the day-of-era, and the remaining seconds give
/// the clock fields.
pub open spec fn spec_civil_of_utc(epoch: int) -> Civil {
    let days = epoch / 86400;
    let secs = epoch % 86400;
    let z = days + 719468;
    let era = z / 146097;
    let doe = z % 146097;
    let yoe = (doe - doe / 1460 + doe / 36524 - doe / 146096) / 365;
    let y = yoe + era * 400;
    let doy = doe - (365 * yoe + yoe / 4 - yoe / 100);
    let mp = (5 * doy + 2) / 153;
    let d = doy - (153 * mp + 2) / 5 + 1;
    let m = if mp < 10 { mp + 3 } else { mp - 9 };
    let yy = if m <= 2 { y + 1 } else { y };
    Civil {
        year: yy as i64,
        month: m as u8,
        day: d as u8,
        hour: (secs / 3600) as u8,
        minute: ((secs % 3600) / 60) as u8,
        second: (secs % 60) as u8,
    }
}

/// The civil fields are those of the given instant shifted by some real
/// zone offset: at most fourteen hours either way.
pub open spec fn civil_matches_epoch(c: Civil, epoch: int) -> bool {
    exists|off: int| -50400 <= off <= 50400 && c == #[trigger] spec_civil_of_utc(epoch + off)
}

/// Relies on chrono: DateTime::from_timestamp accepts every in-range epoch
/// second, with_timezone(&Local) shifts the instant by the machine zone's
/// UTC offset at that instant (within fourteen hours either way), and the
/// Datelike/Timelike accessors return the proleptic Gregorian calendar
/// fields of the shifted instant, in their documented ranges (month 1-12,
/// day 1-31, hour 0-23, minute and second 0-59). Which offset applies
/// depends on the machine, so only its bound is claimed.
#[verifier::external_body]
fn civil_of_epoch(epoch: i64) -> (r: Civil)
    requires
        0 <= epoch <= EPOCH_MAX,
    ensures
        civil_in_range(r),
        civil_matches_epoch(r, epoch as int),
{
    let utc = chrono::DateTime::from_timestamp(epoch, 0).unwrap();
    let local = utc.with_timezone(&chrono::Local);
    Civil {
        year: local.year() as i64,
        month: local.month() as u8,
        day: local.day() as u8,
        hour: local.hour() as u8,
        minute: local.minute() as u8,
        second: local.second() as u8,
    }
}

/// `n` rendered as exactly `w` decimal digits, zero-padded on the left.
pub open spec fn spec_padded(n: int, w: nat) -> Seq<char>
    decreases w,
{
    if w == 0 {
        Seq::empty()
    } else {
        spec_padded(n / 10, (w - 1) as nat).push(dec_digit(n % 10))
    }
}

/// How a civil time is serialized: "YYYY-MM-DD HH:MM:SS", local time, no
/// zone suffix.
pub open spec fn spec_civil_chars(c: Civil) -> Seq<char> {
    spec_padded(c.year as int, 4) + seq!['-'] + spec_padded(c.month as int, 2) + seq!['-']
        + spec_padded(c.day as int, 2) + seq![' '] + spec_padded(c.hour as int, 2) + seq![':']
        + spec_padded(c.minute as int, 2) + seq![':'] + spec_padded(c.second as int, 2)
}

pub proof fn lemma_padded_len(n: int, w: nat)
    ensures
        spec_padded(n, w).len() == w,
    decreases w,
{
    if w > 0 {
        lemma_padded_len(n / 10, (w - 1) as nat);
    }
}

/// The serialized form is always nineteen characters.
pub proof fn lemma_civil_chars_len(c: Civil)
    ensures
        spec_civil_chars(c).len() == 19,
{
    lemma_padded_len(c.year as int, 4);
    lemma_padded_len(c.month as int, 2);
    lemma_padded_len(c.day as int, 2);
    lemma_padded_len(c.hour as int, 2);
    lemma_padded_len(c.minute as int, 2);
    lemma_padded_len(c.second as int, 2);
}

fn push_pad2(s: &mut String, n: u8)
    requires
        n <= 99,
    ensures
        final(s)@ == old(s)@ + spec_padded(n as int, 2),
{
    let q1 = n / 10;
    s.push(dec_digit_char((q1 % 10) as u64));
    s.push(dec_digit_char((n % 10) as u64));
    proof {
        let m = n as int;
        assert(spec_padded(q1 as int / 10, 0) == Seq::<char>::empty());
        assert(spec_padded(q1 as int, 1) =~= seq![dec_digit(q1 as int % 10)]);
        assert(spec_padded(m, 2) == spec_padded(q1 as int, 1).push(dec_digit(m % 10)));
        assert(final(s)@ =~= old(s)@ + spec_padded(m, 2));
    }
}

fn push_pad4(s: &mut String, n: u64)
    requires
        n <= 9999,
    ensures
        final(s)@ == old(s)@ + spec_padded(n as int, 4),
{
    let q1 = n / 10;
    let q2 = q1 / 10;
    let q3 = q2 / 10;
    s.push(dec_digit_char(q3 % 10));
    s.push(dec_digit_char(q2 % 10));
    s.push(dec_digit_char(q1 % 10));
    s.push(dec_digit_char(n % 10));
    proof {
        let m = n as int;
        assert(spec_padded(q3 as int / 10, 0) == Seq::<char>::empty());
        assert(spec_padded(q3 as int, 1) =~= seq![dec_digit(q3 as int % 10)]);
        assert(spec_padded(q2 as int, 2) == spec_padded(q3 as int, 1).push(
            dec_digit(q2 as int % 10),
        ));
        assert(spec_padded(q1 as int, 3) == spec_padded(q2 as int, 2).push(
            dec_digit(q1 as int % 10),
        ));
        assert(spec_padded(m, 4) == spec_padded(q1 as int, 3).push(dec_digit(m % 10)));
        assert(final(s)@ =~= old(s)@ + spec_padded(m, 4));
    }
}

/// Renders civil time fields in the server's timestamp shape.
pub fn format_civil(c: &Civil) -> (r: String)
    requires
        civil_in_range(*c),
    ensures
        r@ == spec_civil_chars(*c),
{
    let mut s = String::new();
    push_pad4(&mut s, c.year as u64);
    s.push('-');
    push_pad2(&mut s, c.month);
    s.push('-');
    push_pad2(&mut s, c.day);
    s.push(' ');
    push_pad2(&mut s, c.hour);
    s.push(':');
    push_pad2(&mut s, c.minute);
    s.push(':');
    push_pad2(&mut s, c.second);
    proof {
        assert(s@ =~= spec_civil_chars(*c));
    }
    s
}

/// Formats an in-range epoch second as local wall-clock time: the rendered
/// calendar fields are those of the epoch shifted by the machine zone's
/// offset, a nineteen-character timestamp of the fixed shape.
pub fn format_epoch_local(epoch: i64) -> (r: String)
    requires
        0 <= epoch <= EPOCH_MAX,
    ensures
        exists|off: int|
            -50400 <= off <= 50400 && r@ == spec_civil_chars(#[trigger] spec_civil_of_utc(epoch + off)),
        r@.len() == 19,
{
    let c = civil_of_epoch(epoch);
    let r = format_civil(&c);
    proof {
        lemma_civil_chars_len(c);
        let off = choose|off: int|
            -50400 <= off <= 50400 && c == #[trigger] spec_civil_of_utc(epoch as int + off);
        assert(-50400 <= off <= 50400 && r@ == spec_civil_chars(
            #[trigger] spec_civil_of_utc(epoch as int + off),
        ));
    }
    r
}

} // verus!
