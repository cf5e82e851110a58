//! CSV export of the ledger: a fixed header line, then one line per
//! record — start and end as canonical RFC 3339 text, duration in
//! whole seconds — in the order given.

use vstd::prelude::*;
use crate::record::OutageRecord;
use crate::rfc3339::{format_rfc3339, spec_rfc3339};

verus! {

/// The decimal digits of `n`, most significant first.
pub open spec fn dec_u(n: nat) -> Seq<u8>
    decreases n,
{
    if n < 10 {
        seq![(48 + n) as u8]
    } else {
        dec_u(n / 10).push((48 + n % 10) as u8)
    }
}

/// Signed decimal text: a leading minus for negative values.
pub open spec fn dec_i64(n: int) -> Seq<u8> {
    if n >= 0 {
        dec_u(n as nat)
    } else {
        seq![45u8] + dec_u((-n) as nat)
    }
}

/// The fixed header line: `Start Time,End Time,Duration (seconds)`.
pub open spec fn csv_header() -> Seq<u8> {
    seq![
        83u8, 116u8, 97u8, 114u8, 116u8, 32u8, 84u8, 105u8, 109u8, 101u8, 44u8,
        69u8, 110u8, 100u8, 32u8, 84u8, 105u8, 109u8, 101u8, 44u8,
        68u8, 117u8, 114u8, 97u8, 116u8, 105u8, 111u8, 110u8, 32u8, 40u8, 115u8, 101u8, 99u8,
        111u8, 110u8, 100u8, 115u8, 41u8, 10u8,
    ]
}

/// One data line: start text, comma, end text, comma, duration,
/// newline.
pub open spec fn csv_row(r: OutageRecord) -> Seq<u8> {
    spec_rfc3339(r.start) + seq![44u8] + spec_rfc3339(r.end) + seq![44u8] + dec_i64(
        r.duration_seconds as int,
    ) + seq![10u8]
}

/// All data lines, in the order of `s`.
pub open spec fn csv_rows(s: Seq<OutageRecord>) -> Seq<u8>
    decreases s.len(),
{
    if s.len() == 0 {
        Seq::empty()
    } else {
        csv_rows(s.drop_last()) + csv_row(s.last())
    }
}

/// The whole document: header line then data lines.
pub open spec fn spec_csv(s: Seq<OutageRecord>) -> Seq<u8> {
    csv_header() + csv_rows(s)
}

/// Both instants of every record are valid timestamps.
pub open spec fn all_instants_valid(s: Seq<OutageRecord>) -> bool {
    forall|i: int|
        0 <= i < s.len() ==> (#[trigger] s[i]).start.valid() && s[i].end.valid()
}

fn push_dec_u(v: &mut Vec<u8>, n: u64)
    ensures
        final(v)@ == old(v)@ + dec_u(n as nat),
    decreases n,
{
    if n < 10 {
        v.push(48 + n as u8);
        proof {
            assert(final(v)@ =~= old(v)@ + dec_u(n as nat));
        }
    } else {
        push_dec_u(v, n / 10);
        v.push(48 + (n % 10) as u8);
        proof {
            assert(final(v)@ =~= old(v)@ + dec_u(n as nat));
        }
    }
}

fn push_dec_i64(v: &mut Vec<u8>, n: i64)
    ensures
        final(v)@ == old(v)@ + dec_i64(n as int),
{
    if n >= 0 {
        push_dec_u(v, n as u64);
    } else {
        v.push(45);
        let m: u64 = (-(n as i128)) as u64;
        push_dec_u(v, m);
        proof {
            assert(final(v)@ =~= old(v)@ + dec_i64(n as int));
        }
    }
}

/// Render the records as CSV text bytes, in the order given.
pub fn generate_csv(records: &Vec<OutageRecord>) -> (r: Vec<u8>)
    requires
        all_instants_valid(records@),
    ensures
        r@ == spec_csv(records@),
{
    let mut v: Vec<u8> = Vec::new();
    push_header(&mut v);
    let mut i: usize = 0;
    while i < records.len()
        invariant
            i <= records@.len(),
            all_instants_valid(records@),
            v@ == csv_header() + csv_rows(records@.take(i as int)),
        decreases records@.len() - i,
    {
        let rec = &records[i];
        let mut st = format_rfc3339(&rec.start);
        v.append(&mut st);
        v.push(44);
        let mut en = format_rfc3339(&rec.end);
        v.append(&mut en);
        v.push(44);
        push_dec_i64(&mut v, rec.duration_seconds);
        v.push(10);
        proof {
            assert(records@.take(i + 1).drop_last() =~= records@.take(i as int));
            assert(records@.take(i + 1).last() == records@[i as int]);
            assert(v@ =~= csv_header() + csv_rows(records@.take(i + 1)));
        }
        i = i + 1;
    }
    proof {
        assert(records@.take(records@.len() as int) =~= records@);
    }
    v
}

fn push_header(v: &mut Vec<u8>)
    ensures
        final(v)@ == old(v)@ + csv_header(),
{
    v.push(83);
    v.push(116);
    v.push(97);
    v.push(114);
    v.push(116);
    v.push(32);
    v.push(84);
    v.push(105);
    v.push(109);
    v.push(101);
    v.push(44);
    v.push(69);
    v.push(110);
    v.push(100);
    v.push(32);
    v.push(84);
    v.push(105);
    v.push(109);
    v.push(101);
    v.push(44);
    v.push(68);
    v.push(117);
    v.push(114);
    v.push(97);
    v.push(116);
    v.push(105);
    v.push(111);
    v.push(110);
    v.push(32);
    v.push(40);
    v.push(115);
    v.push(101);
    v.push(99);
    v.push(111);
    v.push(110);
    v.push(100);
    v.push(115);
    v.push(41);
    v.push(10);
    proof {
        assert(final(v)@ =~= old(v)@ + csv_header());
    }
}

} // verus!
