//! Matching a record against the printings a price lookup returned, and
//! picking one of them.
//!
//! Amounts are held in hundredths of the currency unit (cents).

use vstd::prelude::*;
use vstd::string::StringSliceAdditionalSpecFns;
use crate::encoding::{percent_encode_text, percent_encoded};
use crate::record::{ArbitrationStrategy, Record};

verus! {

/// Price statistics of one printing.
pub struct Prices {
    pub high: u64,
    pub low: u64,
    pub average: u64,
    pub updated_at: String,
}

pub struct PriceData {
    pub prices: Prices,
}

/// The price part of a lookup answer; `data` is absent when the printing
/// has no pricing.
pub struct PriceResponse {
    pub status: String,
    pub data: Option<PriceData>,
}

/// One printing of a card, as a price lookup returns it.
pub struct CardPrices {
    pub name: String,
    pub print_tag: String,
    pub rarity: String,
    pub price_data: PriceResponse,
}

/// The answer of a price lookup by card name.
pub struct CardPriceResponse {
    pub status: String,
    pub data: Vec<CardPrices>,
}

/// The address of the price lookup for a card name: the name, as UTF-8,
/// percent-encoded with only ASCII letters and digits kept, after the
/// service's fixed path.
pub fn make_url_string(card_name: &str) -> (r: String)
    ensures
        r@ == "http://yugiohprices.com/api/get_card_prices/"@ + percent_encoded(card_name.spec_bytes()),
{
    let base = String::from_str("http://yugiohprices.com/api/get_card_prices/");
    let encoded = percent_encode_text(card_name);
    base.concat(encoded.as_str())
}

/// The average price of a printing, where it has price statistics.
pub open spec fn average_of(c: CardPrices) -> Option<u64> {
    match c.price_data.data {
        Some(d) => Some(d.prices.average),
        None => None,
    }
}

/// A printing can be picked for a record: it is priced, and it agrees with
/// the record's tag and rarity wherever the record states them.
pub open spec fn eligible(rec: Record, c: CardPrices) -> bool {
    &&& c.price_data.data is Some
    &&& (rec.tag matches Some(t) ==> t@ == c.print_tag@)
    &&& (rec.rarity matches Some(y) ==> y@ == c.rarity@)
}

/// Under strategy `s`, average `a` is strictly better than average `b`.
pub open spec fn better(s: ArbitrationStrategy, a: u64, b: u64) -> bool {
    match s {
        ArbitrationStrategy::MinValue => a < b,
        ArbitrationStrategy::MaxValue => a > b,
    }
}

/// Candidate `i` is the one picked: it is eligible, no eligible candidate is
/// better, and every eligible candidate before it is worse (the first of
/// equally good candidates wins).
pub open spec fn is_choice(rec: Record, cs: Seq<CardPrices>, s: ArbitrationStrategy, i: int) -> bool {
    &&& 0 <= i < cs.len()
    &&& eligible(rec, cs[i])
    &&& forall|j: int|
        0 <= j < cs.len() && eligible(rec, #[trigger] cs[j]) ==> !better(
            s,
            average_of(cs[j])->Some_0,
            average_of(cs[i])->Some_0,
        )
    &&& forall|j: int|
        0 <= j < i && eligible(rec, #[trigger] cs[j]) ==> better(
            s,
            average_of(cs[i])->Some_0,
            average_of(cs[j])->Some_0,
        )
}

/// Some candidate of `cs` is eligible for `rec`.
pub open spec fn any_eligible(rec: Record, cs: Seq<CardPrices>) -> bool {
    exists|j: int| 0 <= j < cs.len() && eligible(rec, #[trigger] cs[j])
}

/// `rec` with the price, tag and rarity of printing `c`.
pub open spec fn enriched(rec: Record, c: CardPrices) -> Record {
    Record {
        price: Some(average_of(c)->Some_0),
        tag: Some(c.print_tag),
        rarity: Some(c.rarity),
        ..rec
    }
}

fn is_eligible(rec: &Record, c: &CardPrices) -> (r: bool)
    ensures
        r == eligible(*rec, *c),
{
    let tag_ok = match &rec.tag {
        Some(t) => *t == c.print_tag,
        None => true,
    };
    let rarity_ok = match &rec.rarity {
        Some(y) => *y == c.rarity,
        None => true,
    };
    c.price_data.data.is_some() && tag_ok && rarity_ok
}

fn is_better(s: ArbitrationStrategy, a: u64, b: u64) -> (r: bool)
    ensures
        r == better(s, a, b),
{
    match s {
        ArbitrationStrategy::MinValue => a < b,
        ArbitrationStrategy::MaxValue => a > b,
    }
}

fn average(c: &CardPrices) -> (r: u64)
    requires
        c.price_data.data is Some,
    ensures
        average_of(*c) == Some(r),
{
    match &c.price_data.data {
        Some(d) => d.prices.average,
        None => 0,
    }
}

/// Picks the candidate for `rec` under strategy `s`: `None` exactly when no
/// candidate is eligible, else the index of the eligible candidate with the
/// smallest (`MinValue`) or largest (`MaxValue`) average, the first such one
/// where several share it.
pub fn select_candidate(rec: &Record, cs: &Vec<CardPrices>, s: ArbitrationStrategy) -> (r: Option<usize>)
    ensures
        r is None <==> !any_eligible(*rec, cs@),
        r matches Some(i) ==> is_choice(*rec, cs@, s, i as int),
{
    let mut best: Option<usize> = None;
    let mut i: usize = 0;
    while i < cs.len()
        invariant
            i <= cs.len(),
            best is None <==> !(exists|j: int| 0 <= j < i && eligible(*rec, #[trigger] cs@[j])),
            best matches Some(b) ==> {
                &&& b < i
                &&& eligible(*rec, cs@[b as int])
                &&& forall|j: int|
                    0 <= j < i && eligible(*rec, #[trigger] cs@[j]) ==> !better(
                        s,
                        average_of(cs@[j])->Some_0,
                        average_of(cs@[b as int])->Some_0,
                    )
                &&& forall|j: int|
                    0 <= j < b && eligible(*rec, #[trigger] cs@[j]) ==> better(
                        s,
                        average_of(cs@[b as int])->Some_0,
                        average_of(cs@[j])->Some_0,
                    )
            },
        decreases cs.len() - i,
    {
        if is_eligible(rec, &cs[i]) {
            match best {
                None => {
                    best = Some(i);
                },
                Some(b) => {
                    if is_better(s, average(&cs[i]), average(&cs[b])) {
                        best = Some(i);
                    }
                },
            }
        }
        i = i + 1;
    }
    best
}

/// Prices `rec` from the printings of a lookup answer. With no eligible
/// printing the record comes back unchanged; otherwise it takes the chosen
/// printing's average as its price and that printing's tag and rarity.
pub fn price_record(rec: Record, resp: &CardPriceResponse, s: ArbitrationStrategy) -> (r: Record)
    ensures
        !any_eligible(rec, resp.data@) ==> r == rec,
        any_eligible(rec, resp.data@) ==> exists|i: int|
            is_choice(rec, resp.data@, s, i) && r == enriched(rec, #[trigger] resp.data@[i]),
{
    match select_candidate(&rec, &resp.data, s) {
        None => rec,
        Some(i) => {
            let c = &resp.data[i];
            let price = average(c);
            let r = Record {
                price: Some(price),
                tag: Some(c.print_tag.clone()),
                rarity: Some(c.rarity.clone()),
                ..rec
            };
            assert(r == enriched(rec, resp.data@[i as int]));
            r
        },
    }
}

/// Arbitration is deterministic: for a given record, candidate list and
/// strategy at most one candidate is the choice.
pub proof fn lemma_choice_unique(
    rec: Record,
    cs: Seq<CardPrices>,
    s: ArbitrationStrategy,
    i: int,
    j: int,
)
    requires
        is_choice(rec, cs, s, i),
        is_choice(rec, cs, s, j),
    ensures
        i == j,
{
    if i < j {
        assert(eligible(rec, cs[i]));
    } else if j < i {
        assert(eligible(rec, cs[j]));
    }
}

/// A record that states a rarity is never matched to a printing of another
/// rarity, whatever the tags say.
pub proof fn lemma_rarity_excludes(
    rec: Record,
    cs: Seq<CardPrices>,
    s: ArbitrationStrategy,
    i: int,
)
    requires
        rec.rarity is Some,
        0 <= i < cs.len(),
        cs[i].rarity@ != rec.rarity->Some_0@,
    ensures
        !eligible(rec, cs[i]),
        !is_choice(rec, cs, s, i),
{
}

/// A record that states a tag is never matched to a printing with another
/// tag.
pub proof fn lemma_tag_excludes(
    rec: Record,
    cs: Seq<CardPrices>,
    s: ArbitrationStrategy,
    i: int,
)
    requires
        rec.tag is Some,
        0 <= i < cs.len(),
        cs[i].print_tag@ != rec.tag->Some_0@,
    ensures
        !eligible(rec, cs[i]),
        !is_choice(rec, cs, s, i),
{
}

/// When no printing carries price statistics nothing is eligible, so
/// `price_record` hands the record back unchanged.
pub proof fn lemma_unpriced_candidates_ignored(rec: Record, cs: Seq<CardPrices>)
    requires
        forall|i: int| 0 <= i < cs.len() ==> (#[trigger] cs[i]).price_data.data is None,
    ensures
        !any_eligible(rec, cs),
{
}

} // verus!
