//! Currency scaling of priced records and their total value.
//!
//! Prices are in cents; an exchange rate is given in millionths, so a rate
//! of `1_000_000` leaves prices as they are.

use vstd::prelude::*;
use crate::record::{Record, copy_record};

verus! {

/// The number of rate units that make one.
pub const RATE_SCALE: u64 = 1_000_000;

/// Why amounts could not be computed.
#[derive(Debug, PartialEq, Eq, Structural)]
pub enum AmountError {
    /// A record reached the total without a price.
    UnpricedRecord,
    /// A result does not fit its integer type.
    Overflow,
}

/// `p` cents at `rate` millionths, rounded to the nearest cent (halves up).
pub open spec fn scaled(p: u64, rate: u64) -> int {
    (p * rate + 500_000) / 1_000_000
}

/// Every price of `rs` still fits a `u64` after scaling by `rate`.
pub open spec fn conversion_fits(rs: Seq<Record>, rate: u64) -> bool {
    forall|i: int|
        0 <= i < rs.len() && (#[trigger] rs[i]).price is Some ==> scaled(
            rs[i].price->Some_0,
            rate,
        ) <= u64::MAX
}

/// `r` with its price, if it has one, scaled by `rate`.
pub open spec fn converted(r: Record, rate: u64) -> Record {
    match r.price {
        Some(p) => Record { price: Some(scaled(p, rate) as u64), ..r },
        None => r,
    }
}

/// A rate of exactly one leaves every price as it is.
pub proof fn lemma_unit_rate_keeps_price(p: u64)
    ensures
        scaled(p, RATE_SCALE) == p,
{
    assert((p * 1_000_000 + 500_000) / 1_000_000 == p) by (nonlinear_arith);
}

fn scale_price(p: u64, rate: u64) -> (r: Option<u64>)
    ensures
        r is None <==> scaled(p, rate) > u64::MAX,
        r matches Some(v) ==> v == scaled(p, rate),
{
    assert((p as int) * (rate as int) <= (u64::MAX as int) * (u64::MAX as int)) by (nonlinear_arith)
        requires
            p <= u64::MAX,
            rate <= u64::MAX,
    ;
    let prod: u128 = (p as u128) * (rate as u128);
    let v: u128 = (prod + 500_000) / 1_000_000;
    if v <= u64::MAX as u128 {
        Some(v as u64)
    } else {
        None
    }
}

/// Scales the price of every priced record by `rate` (in millionths),
/// rounding to the nearest cent; records without a price are left alone.
/// Where some scaled price would not fit, nothing is changed and
/// `Overflow` is returned.
pub fn convert_prices(records: &mut Vec<Record>, rate: u64) -> (r: Result<(), AmountError>)
    ensures
        r is Ok <==> conversion_fits(old(records)@, rate),
        r is Ok ==> final(records)@.len() == old(records)@.len(),
        r is Ok ==> forall|i: int|
            0 <= i < old(records)@.len() ==> #[trigger] final(records)@[i] == converted(
                old(records)@[i],
                rate,
            ),
        r is Err ==> r->Err_0 == AmountError::Overflow && final(records)@ == old(records)@,
{
    let ghost before = records@;
    let mut i: usize = 0;
    while i < records.len()
        invariant
            i <= records@.len(),
            records@ == before,
            forall|j: int|
                0 <= j < i && (#[trigger] before[j]).price is Some ==> scaled(
                    before[j].price->Some_0,
                    rate,
                ) <= u64::MAX,
        decreases records.len() - i,
    {
        if let Some(p) = records[i].price {
            if scale_price(p, rate).is_none() {
                return Err(AmountError::Overflow);
            }
        }
        i = i + 1;
    }
    let mut i: usize = 0;
    while i < records.len()
        invariant
            i <= records@.len(),
            records@.len() == before.len(),
            conversion_fits(before, rate),
            forall|j: int| 0 <= j < i ==> #[trigger] records@[j] == converted(before[j], rate),
            forall|j: int| i <= j < records@.len() ==> #[trigger] records@[j] == before[j],
        decreases records.len() - i,
    {
        if let Some(p) = records[i].price {
            match scale_price(p, rate) {
                Some(v) => {
                    let mut c = copy_record(&records[i]);
                    c.price = Some(v);
                    records.set(i, c);
                },
                None => {},
            }
        }
        i = i + 1;
    }
    Ok(())
}

/// The count a record stands for: its count, or one where it has none.
pub open spec fn count_or_one(r: Record) -> int {
    match r.count {
        Some(c) => c as int,
        None => 1,
    }
}

/// The value of one priced record: price times count.
pub open spec fn line_value(r: Record) -> int {
    (r.price->Some_0 as int) * count_or_one(r)
}

/// The sum of the values of the records.
pub open spec fn sum_values(rs: Seq<Record>) -> int
    decreases rs.len(),
{
    if rs.len() == 0 {
        0
    } else {
        sum_values(rs.drop_last()) + line_value(rs.last())
    }
}

pub open spec fn all_priced(rs: Seq<Record>) -> bool {
    forall|i: int| 0 <= i < rs.len() ==> (#[trigger] rs[i]).price is Some
}

/// Every running sum, from the first record on, fits an `i128`.
pub open spec fn sums_fit(rs: Seq<Record>) -> bool {
    forall|k: int|
        0 <= k <= rs.len() ==> i128::MIN <= #[trigger] sum_values(rs.take(k)) <= i128::MAX
}

/// The total value of the records, in cents: the sum of price times count
/// (one where the count is absent). A record without a price gives
/// `UnpricedRecord`; a running sum beyond `i128` gives `Overflow`.
pub fn total_value(records: &Vec<Record>) -> (r: Result<i128, AmountError>)
    ensures
        r is Ok <==> all_priced(records@) && sums_fit(records@),
        r matches Ok(t) ==> t == sum_values(records@),
        r == Err::<i128, AmountError>(AmountError::UnpricedRecord) <==> !all_priced(records@),
        r == Err::<i128, AmountError>(AmountError::Overflow) <==> all_priced(records@) && !sums_fit(
            records@,
        ),
{
    let ghost rs = records@;
    let mut i: usize = 0;
    while i < records.len()
        invariant
            i <= rs.len(),
            rs == records@,
            forall|j: int| 0 <= j < i ==> (#[trigger] rs[j]).price is Some,
        decreases records.len() - i,
    {
        if records[i].price.is_none() {
            return Err(AmountError::UnpricedRecord);
        }
        i = i + 1;
    }
    assert(rs.take(0) == Seq::<Record>::empty());
    let mut acc: i128 = 0;
    let mut i: usize = 0;
    while i < records.len()
        invariant
            i <= rs.len(),
            rs == records@,
            all_priced(rs),
            acc == sum_values(rs.take(i as int)),
            forall|k: int|
                0 <= k <= i ==> i128::MIN <= #[trigger] sum_values(rs.take(k)) <= i128::MAX,
        decreases records.len() - i,
    {
        assert(rs.take(i as int + 1).drop_last() == rs.take(i as int));
        let p: u64 = match records[i].price {
            Some(p) => p,
            None => 0,
        };
        let c: i32 = match records[i].count {
            Some(c) => c,
            None => 1,
        };
        assert(-0x8000_0000_0000_0000_0000_0000 <= (p as int) * (c as int) <= 0x8000_0000_0000_0000_0000_0000)
            by (nonlinear_arith)
            requires
                0 <= p <= u64::MAX,
                i32::MIN <= c <= i32::MAX,
        ;
        let term: i128 = (p as i128) * (c as i128);
        assert(rs.take(i as int + 1).last() == rs[i as int]);
        assert(sum_values(rs.take(i as int + 1)) == acc + term);
        match acc.checked_add(term) {
            Some(next) => {
                acc = next;
            },
            None => {
                assert(!(i128::MIN <= sum_values(rs.take(i as int + 1)) <= i128::MAX));
                return Err(AmountError::Overflow);
            },
        }
        i = i + 1;
    }
    assert(rs.take(i as int) == rs);
    Ok(acc)
}

} // verus!
