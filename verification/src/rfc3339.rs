//! Canonical RFC 3339 text for timestamps, as bytes:
//! `YYYY-MM-DDTHH:MM:SS+HH:MM` (or `-HH:MM`), 25 bytes, seconds precision.
//!
//! `format_rfc3339` emits exactly `spec_rfc3339`; `parse_rfc3339` accepts
//! exactly the canonical encodings of valid timestamps, so the pair
//! round-trips: parsing a formatted timestamp returns the same instant,
//! with the same offset and the same second.

use vstd::prelude::*;
use crate::calendar::days_in_month;
use crate::timestamp::Timestamp;

verus! {

/// The ASCII digit for `n` (0 through 9).
pub open spec fn dig(n: int) -> u8 {
    (48 + n) as u8
}

/// Magnitude of the UTC offset, in minutes.
pub open spec fn spec_offset_abs(t: Timestamp) -> int {
    if t.offset_minutes >= 0 {
        t.offset_minutes as int
    } else {
        -(t.offset_minutes as int)
    }
}

/// `+` for a non-negative offset, `-` otherwise.
pub open spec fn spec_sign_byte(t: Timestamp) -> u8 {
    if t.offset_minutes >= 0 {
        43u8
    } else {
        45u8
    }
}

/// The canonical 25-byte RFC 3339 encoding of `t`.
#[verifier::opaque]
pub open spec fn spec_rfc3339(t: Timestamp) -> Seq<u8> {
    let y = t.year as int;
    let r1 = y % 1000;
    let r2 = y % 100;
    let mo = t.month as int;
    let d = t.day as int;
    let h = t.hour as int;
    let mi = t.minute as int;
    let sec = t.second as int;
    let a = spec_offset_abs(t);
    let oh = a / 60;
    let om = a % 60;
    seq![
        dig(y / 1000), dig(r1 / 100), dig(r2 / 10), dig(y % 10),
        45u8,
        dig(mo / 10), dig(mo % 10),
        45u8,
        dig(d / 10), dig(d % 10),
        84u8,
        dig(h / 10), dig(h % 10),
        58u8,
        dig(mi / 10), dig(mi % 10),
        58u8,
        dig(sec / 10), dig(sec % 10),
        spec_sign_byte(t),
        dig(oh / 10), dig(oh % 10),
        58u8,
        dig(om / 10), dig(om % 10),
    ]
}

fn push2(v: &mut Vec<u8>, n: u8)
    requires
        n < 100,
    ensures
        final(v)@ == old(v)@ + seq![dig(n as int / 10), dig(n as int % 10)],
{
    v.push(48 + n / 10);
    v.push(48 + n % 10);
    proof {
        assert(final(v)@ =~= old(v)@ + seq![dig(n as int / 10), dig(n as int % 10)]);
    }
}

/// Format `t` as its canonical RFC 3339 text.
pub fn format_rfc3339(t: &Timestamp) -> (r: Vec<u8>)
    requires
        t.valid(),
    ensures
        r@ == spec_rfc3339(*t),
        r@.len() == 25,
        forall|i: int| 0 <= i < r@.len() ==> r@[i] < 128,
{
    let mut v: Vec<u8> = Vec::new();
    let y: u16 = t.year;
    v.push(48 + (y / 1000) as u8);
    v.push(48 + ((y % 1000) / 100) as u8);
    v.push(48 + ((y % 100) / 10) as u8);
    v.push(48 + (y % 10) as u8);
    v.push(45);
    push2(&mut v, t.month);
    v.push(45);
    push2(&mut v, t.day);
    v.push(84);
    push2(&mut v, t.hour);
    v.push(58);
    push2(&mut v, t.minute);
    v.push(58);
    push2(&mut v, t.second);
    let sign: u8 = if t.offset_minutes >= 0 { 43 } else { 45 };
    let a: u16 = if t.offset_minutes >= 0 {
        t.offset_minutes as u16
    } else {
        (-(t.offset_minutes as i32)) as u16
    };
    v.push(sign);
    push2(&mut v, (a / 60) as u8);
    v.push(58);
    push2(&mut v, (a % 60) as u8);
    proof {
        reveal(spec_rfc3339);
        assert(v@ =~= spec_rfc3339(*t));
    }
    v
}

/// Everything a canonical encoding `s` of a valid `t` determines:
/// the fixed punctuation, the digit ranges, and each field of `t`
/// recombined from the digits of `s`.
proof fn lemma_encode_shape(t: Timestamp, s: Seq<u8>)
    requires
        t.valid(),
        spec_rfc3339(t) == s,
    ensures
        s.len() == 25,
        s[4] == 45u8 && s[7] == 45u8 && s[10] == 84u8,
        s[13] == 58u8 && s[16] == 58u8 && s[22] == 58u8,
        s[19] == 43u8 || s[19] == 45u8,
        forall|i: int|
            0 <= i < 25 && i != 4 && i != 7 && i != 10 && i != 13 && i != 16 && i != 19
                && i != 22 ==> 48 <= #[trigger] s[i] <= 57,
        t.year as int == (s[0] - 48) * 1000 + (s[1] - 48) * 100 + (s[2] - 48) * 10 + (s[3] - 48),
        t.month as int == (s[5] - 48) * 10 + (s[6] - 48),
        t.day as int == (s[8] - 48) * 10 + (s[9] - 48),
        t.hour as int == (s[11] - 48) * 10 + (s[12] - 48),
        t.minute as int == (s[14] - 48) * 10 + (s[15] - 48),
        t.second as int == (s[17] - 48) * 10 + (s[18] - 48),
        spec_offset_abs(t) / 60 == (s[20] - 48) * 10 + (s[21] - 48),
        spec_offset_abs(t) % 60 == (s[23] - 48) * 10 + (s[24] - 48),
        s[19] == 43u8 ==> t.offset_minutes >= 0,
        s[19] == 45u8 ==> t.offset_minutes < 0,
{
    reveal(spec_rfc3339);
    let y = t.year as int;
    assert(y == (y / 1000) * 1000 + y % 1000);
    assert(y % 1000 == ((y % 1000) / 100) * 100 + (y % 1000) % 100);
    assert((y % 1000) % 100 == y % 100) by {
        assert(y == (y / 1000) * 1000 + y % 1000);
        assert((y / 1000) * 1000 % 100 == 0) by (nonlinear_arith);
        assert(y % 100 == (y % 1000) % 100) by (nonlinear_arith)
            requires
                y == (y / 1000) * 1000 + y % 1000,
                0 <= y % 1000 < 1000,
                0 <= y,
        ;
    }
    assert(y % 100 == ((y % 100) / 10) * 10 + (y % 100) % 10);
    assert((y % 100) % 10 == y % 10) by (nonlinear_arith)
        requires
            0 <= y,
    ;
    let a = spec_offset_abs(t);
    assert(a == (a / 60) * 60 + a % 60);
    assert(a / 60 == ((a / 60) / 10) * 10 + (a / 60) % 10);
    assert(a % 60 == ((a % 60) / 10) * 10 + (a % 60) % 10);
}

/// Two valid timestamps with the same canonical text are the same
/// timestamp: the encoding is injective.
pub proof fn lemma_rfc3339_injective(t1: Timestamp, t2: Timestamp)
    requires
        t1.valid(),
        t2.valid(),
        spec_rfc3339(t1) == spec_rfc3339(t2),
    ensures
        t1 == t2,
{
    let s = spec_rfc3339(t1);
    lemma_encode_shape(t1, s);
    lemma_encode_shape(t2, s);
}

/// Round trip: any possible result of parsing the canonical text of a
/// valid timestamp `t` (a result meeting `parse_rfc3339`'s contract on
/// that text) is exactly `Some(t)`.
pub proof fn lemma_format_parse_round_trip(t: Timestamp, r: Option<Timestamp>)
    requires
        t.valid(),
        match r {
            Some(u) => u.valid() && spec_rfc3339(u) == spec_rfc3339(t),
            None => forall|u: Timestamp| u.valid() ==> spec_rfc3339(u) != spec_rfc3339(t),
        },
    ensures
        r == Some(t),
{
    match r {
        Some(u) => {
            lemma_rfc3339_injective(u, t);
        },
        None => {
            assert(spec_rfc3339(t) == spec_rfc3339(t));
        },
    }
}

/// The punctuation, sign and digit layout that every canonical
/// encoding has.
pub open spec fn shape_ok(s: Seq<u8>) -> bool {
    &&& s.len() == 25
    &&& s[4] == 45u8 && s[7] == 45u8 && s[10] == 84u8
    &&& s[13] == 58u8 && s[16] == 58u8 && s[22] == 58u8
    &&& (s[19] == 43u8 || s[19] == 45u8)
    &&& forall|i: int|
        0 <= i < 25 && i != 4 && i != 7 && i != 10 && i != 13 && i != 16 && i != 19 && i != 22
            ==> 48 <= #[trigger] s[i] <= 57
}

/// The field values spelled by the digits of a shaped `s`, each within
/// its calendar range, with no `-00:00` offset.
pub open spec fn fields_ok(s: Seq<u8>) -> bool {
    let year = (s[0] - 48) * 1000 + (s[1] - 48) * 100 + (s[2] - 48) * 10 + (s[3] - 48);
    let month = (s[5] - 48) * 10 + (s[6] - 48);
    let day = (s[8] - 48) * 10 + (s[9] - 48);
    let hour = (s[11] - 48) * 10 + (s[12] - 48);
    let minute = (s[14] - 48) * 10 + (s[15] - 48);
    let second = (s[17] - 48) * 10 + (s[18] - 48);
    let oh = (s[20] - 48) * 10 + (s[21] - 48);
    let om = (s[23] - 48) * 10 + (s[24] - 48);
    &&& 1 <= month <= 12
    &&& 1 <= day <= crate::calendar::spec_days_in_month(year as int, month as int)
    &&& hour <= 23
    &&& minute <= 59
    &&& second <= 59
    &&& oh <= 23
    &&& om <= 59
    &&& !(s[19] == 45u8 && oh == 0 && om == 0)
}

proof fn lemma_unparseable_shape(s: Seq<u8>)
    requires
        !shape_ok(s),
    ensures
        forall|t: Timestamp| t.valid() ==> spec_rfc3339(t) != s,
{
    assert forall|t: Timestamp| t.valid() implies spec_rfc3339(t) != s by {
        if spec_rfc3339(t) == s {
            lemma_encode_shape(t, s);
        }
    }
}

proof fn lemma_unparseable_fields(s: Seq<u8>)
    requires
        shape_ok(s),
        !fields_ok(s),
    ensures
        forall|t: Timestamp| t.valid() ==> spec_rfc3339(t) != s,
{
    assert forall|t: Timestamp| t.valid() implies spec_rfc3339(t) != s by {
        if spec_rfc3339(t) == s {
            lemma_encode_shape(t, s);
            assert(spec_offset_abs(t) == (spec_offset_abs(t) / 60) * 60 + spec_offset_abs(t) % 60);
            assert(fields_ok(s));
        }
    }
}

proof fn lemma_parse_sound(s: Seq<u8>, t: Timestamp)
    requires
        shape_ok(s),
        fields_ok(s),
        t.valid(),
        t.year as int == (s[0] - 48) * 1000 + (s[1] - 48) * 100 + (s[2] - 48) * 10 + (s[3] - 48),
        t.month as int == (s[5] - 48) * 10 + (s[6] - 48),
        t.day as int == (s[8] - 48) * 10 + (s[9] - 48),
        t.hour as int == (s[11] - 48) * 10 + (s[12] - 48),
        t.minute as int == (s[14] - 48) * 10 + (s[15] - 48),
        t.second as int == (s[17] - 48) * 10 + (s[18] - 48),
        spec_offset_abs(t) == ((s[20] - 48) * 10 + (s[21] - 48)) * 60 + (s[23] - 48) * 10 + (
        s[24] - 48),
        t.offset_minutes >= 0 <==> s[19] == 43u8,
    ensures
        spec_rfc3339(t) == s,
{
    reveal(spec_rfc3339);
    let y = t.year as int;
    let d0 = s[0] - 48;
    let d1 = s[1] - 48;
    let d2 = s[2] - 48;
    let d3 = s[3] - 48;
    assert(y / 1000 == d0 && y % 1000 == d1 * 100 + d2 * 10 + d3) by {
        assert(y == d0 * 1000 + (d1 * 100 + d2 * 10 + d3));
        assert(0 <= d1 * 100 + d2 * 10 + d3 < 1000);
    }
    assert((y % 1000) / 100 == d1);
    assert(y % 100 == d2 * 10 + d3) by {
        assert(y == (d0 * 10 + d1) * 100 + (d2 * 10 + d3));
        assert(0 <= d2 * 10 + d3 < 100);
    }
    assert((y % 100) / 10 == d2 && y % 10 == d3) by {
        assert(y == (d0 * 100 + d1 * 10 + d2) * 10 + d3);
    }
    let a = spec_offset_abs(t);
    let oh = (s[20] - 48) * 10 + (s[21] - 48);
    let om = (s[23] - 48) * 10 + (s[24] - 48);
    assert(a / 60 == oh && a % 60 == om) by {
        assert(a == oh * 60 + om && 0 <= om < 60);
    }
    assert(spec_rfc3339(t) =~= s);
}

/// Parse canonical RFC 3339 text. Returns the encoded timestamp when
/// `s` is the canonical encoding of a valid timestamp, and `None` when
/// it is not.
#[verifier::rlimit(100)]
pub fn parse_rfc3339(s: &[u8]) -> (r: Option<Timestamp>)
    ensures
        match r {
            Some(t) => t.valid() && spec_rfc3339(t) == s@,
            None => forall|t: Timestamp| t.valid() ==> spec_rfc3339(t) != s@,
        },
{
    if s.len() != 25 {
        proof {
            lemma_unparseable_shape(s@);
        }
        return None;
    }
    let sign: u8 = s[19];
    let layout: bool = s[4] == 45 && s[7] == 45 && s[10] == 84 && s[13] == 58 && s[16] == 58
        && s[22] == 58 && (sign == 43 || sign == 45) && digit(s[0]) && digit(s[1]) && digit(s[2])
        && digit(s[3]) && digit(s[5]) && digit(s[6]) && digit(s[8]) && digit(s[9]) && digit(s[11])
        && digit(s[12]) && digit(s[14]) && digit(s[15]) && digit(s[17]) && digit(s[18]) && digit(
        s[20],
    ) && digit(s[21]) && digit(s[23]) && digit(s[24]);
    if !layout {
        proof {
            assert(!shape_ok(s@));
            lemma_unparseable_shape(s@);
        }
        return None;
    }
    proof {
        assert(shape_ok(s@));
    }
    let year: u16 = (s[0] - 48) as u16 * 1000 + (s[1] - 48) as u16 * 100 + (s[2] - 48) as u16 * 10
        + (s[3] - 48) as u16;
    let month: u8 = (s[5] - 48) * 10 + (s[6] - 48);
    let day: u8 = (s[8] - 48) * 10 + (s[9] - 48);
    let hour: u8 = (s[11] - 48) * 10 + (s[12] - 48);
    let minute: u8 = (s[14] - 48) * 10 + (s[15] - 48);
    let second: u8 = (s[17] - 48) * 10 + (s[18] - 48);
    let oh: u8 = (s[20] - 48) * 10 + (s[21] - 48);
    let om: u8 = (s[23] - 48) * 10 + (s[24] - 48);
    let a: u16 = (oh as u16) * 60 + (om as u16);
    let ranges: bool = 1 <= month && month <= 12 && 1 <= day && day <= days_in_month(year, month)
        && hour <= 23 && minute <= 59 && second <= 59 && oh <= 23 && om <= 59 && !(sign == 45 && a
        == 0);
    if !ranges {
        proof {
            assert(!fields_ok(s@));
            lemma_unparseable_fields(s@);
        }
        return None;
    }
    let offset_minutes: i16 = if sign == 43 {
        a as i16
    } else {
        -(a as i16)
    };
    let t = Timestamp { year, month, day, hour, minute, second, offset_minutes };
    proof {
        assert(t.valid());
        lemma_parse_sound(s@, t);
    }
    Some(t)
}

fn digit(b: u8) -> (r: bool)
    ensures
        r == (48 <= b <= 57),
{
    48 <= b && b <= 57
}

} // verus!
