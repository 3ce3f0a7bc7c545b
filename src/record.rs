//! The record model shared by every stage of the pricing pipeline.

use vstd::prelude::*;

verus! {

/// One line item to be priced.
///
/// `price` is an amount in hundredths of the currency unit (cents).
#[derive(Clone, Debug, PartialEq)]
pub struct Record {
    pub name: String,
    pub tag: Option<String>,
    pub count: Option<i32>,
    pub rarity: Option<String>,
    pub price: Option<u64>,
}

/// How one candidate is picked when several printings match a record.
#[derive(Clone, Copy, Debug, PartialEq, Eq, Structural)]
pub enum ArbitrationStrategy {
    MinValue,
    MaxValue,
}

/// One distinct significant line of a deck list, with how often it occurred.
#[derive(Clone, Debug, PartialEq)]
pub struct YdkRecord {
    pub id: String,
    pub count: i32,
}

/// The texts of a sequence of strings.
pub open spec fn texts(v: Seq<String>) -> Seq<Seq<char>> {
    v.map_values(|s: String| s@)
}

/// A copy of an optional string.
pub fn copy_text(o: &Option<String>) -> (r: Option<String>)
    ensures
        r == *o,
{
    match o {
        Some(s) => Some(s.clone()),
        None => None,
    }
}

/// A copy of a record.
pub fn copy_record(r: &Record) -> (c: Record)
    ensures
        c == *r,
{
    Record {
        name: r.name.clone(),
        tag: copy_text(&r.tag),
        count: r.count,
        rarity: copy_text(&r.rarity),
        price: r.price,
    }
}

/// Which strategy a command-line word selects: `Max` and `MaxValue` select
/// the largest average, every other word the smallest.
pub open spec fn strategy_named(s: Seq<char>) -> ArbitrationStrategy {
    if s == "Max"@ || s == "MaxValue"@ {
        ArbitrationStrategy::MaxValue
    } else {
        ArbitrationStrategy::MinValue
    }
}

impl ArbitrationStrategy {
    /// Reads a strategy name; an unrecognized word falls back to `MinValue`.
    pub fn from_name(s: &str) -> (r: ArbitrationStrategy)
        ensures
            r == strategy_named(s@),
    {
        let t = s.to_owned();
        if t == String::from_str("Max") || t == String::from_str("MaxValue") {
            ArbitrationStrategy::MaxValue
        } else {
            ArbitrationStrategy::MinValue
        }
    }
}

} // verus!
