//! The identifier lookup: its request and turning its answer into records.

use vstd::prelude::*;
use crate::encoding::{form_encode, form_encoded};
use crate::record::{Record, YdkRecord};
use vstd::utf8::encode_utf8;

verus! {

/// One card of an identifier lookup answer.
pub struct CardInfoData {
    pub id: usize,
    pub name: String,
}

/// The answer of an identifier lookup.
pub struct CardInfoResponse {
    pub data: Vec<CardInfoData>,
}

/// The decimal digit for `d`.
pub open spec fn digit_char(d: nat) -> char {
    seq!['0', '1', '2', '3', '4', '5', '6', '7', '8', '9'][d as int]
}

/// The decimal representation of `n`, without sign or leading zeros.
pub open spec fn decimal(n: nat) -> Seq<char>
    decreases n,
{
    if n < 10 {
        seq![digit_char(n)]
    } else {
        decimal(n / 10).push(digit_char(n % 10))
    }
}

/// Relies on `usize::to_string` (through `Display`): the decimal digits of
/// the number.
#[verifier::external_body]
fn decimal_text(n: usize) -> (r: String)
    ensures
        r@ == decimal(n as nat),
{
    n.to_string()
}

/// The position of the first card, from position `k` on, whose identifier
/// written in decimal is `id`, or -1.
pub open spec fn find_card(infos: Seq<CardInfoData>, id: Seq<char>, k: int) -> int
    decreases infos.len() - k,
{
    if k < 0 || k >= infos.len() {
        -1
    } else if decimal(infos[k].id as nat) == id {
        k
    } else {
        find_card(infos, id, k + 1)
    }
}

/// The record for a deck-list entry whose card is named `name`.
pub open spec fn entry_record(e: YdkRecord, name: String) -> Record {
    Record { name: name, tag: None, count: Some(e.count), rarity: None, price: None }
}

/// The records for the entries whose identifier the lookup answered, in the
/// order of the entries; an entry that the answer does not hold is left out.
pub open spec fn resolved(es: Seq<YdkRecord>, infos: Seq<CardInfoData>) -> Seq<Record>
    decreases es.len(),
{
    if es.len() == 0 {
        seq![]
    } else {
        let k = find_card(infos, es.last().id@, 0);
        if k >= 0 {
            resolved(es.drop_last(), infos).push(entry_record(es.last(), infos[k].name))
        } else {
            resolved(es.drop_last(), infos)
        }
    }
}

proof fn lemma_find_card_skip(infos: Seq<CardInfoData>, id: Seq<char>, k: int, n: int)
    requires
        0 <= k <= n,
        forall|j: int| k <= j < n ==> decimal((#[trigger] infos[j]).id as nat) != id,
    ensures
        find_card(infos, id, k) == find_card(infos, id, n),
    decreases n - k,
{
    if k < n {
        lemma_find_card_skip(infos, id, k + 1, n);
    }
}

/// Turns deck-list entries into records, using the names of an identifier
/// lookup answer: each entry whose identifier is the decimal form of a
/// card's id becomes a record with that card's name (the first such card)
/// and the entry's count. Entries that the answer lacks are dropped.
pub fn convert_ydk_records(ydk_records: &Vec<YdkRecord>, resp: &CardInfoResponse) -> (r: Vec<Record>)
    ensures
        r@ == resolved(ydk_records@, resp.data@),
{
    let ghost infos = resp.data@;
    let mut records: Vec<Record> = Vec::new();
    let mut i: usize = 0;
    while i < ydk_records.len()
        invariant
            i <= ydk_records@.len(),
            infos == resp.data@,
            records@ == resolved(ydk_records@.take(i as int), infos),
        decreases ydk_records.len() - i,
    {
        assert(ydk_records@.take(i as int + 1).drop_last() == ydk_records@.take(i as int));
        let e = &ydk_records[i];
        let mut k: usize = 0;
        let mut found = false;
        while k < resp.data.len() && !found
            invariant
                k <= infos.len(),
                infos == resp.data@,
                find_card(infos, e.id@, 0) == find_card(infos, e.id@, k as int),
                found ==> k < infos.len() && decimal(infos[k as int].id as nat) == e.id@,
            decreases infos.len() - k, if found { 0int } else { 1int },
        {
            if decimal_text(resp.data[k].id) == e.id {
                found = true;
            } else {
                proof {
                    lemma_find_card_skip(infos, e.id@, k as int, k + 1);
                }
                k = k + 1;
            }
        }
        if found {
            records.push(
                Record {
                    name: resp.data[k].name.clone(),
                    tag: None,
                    count: Some(e.count),
                    rarity: None,
                    price: None,
                },
            );
        }
        i = i + 1;
    }
    assert(ydk_records@.take(i as int) == ydk_records@);
    records
}

/// The identifiers joined with commas.
pub open spec fn joined(ids: Seq<Seq<char>>) -> Seq<char>
    decreases ids.len(),
{
    if ids.len() == 0 {
        seq![]
    } else if ids.len() == 1 {
        ids[0]
    } else {
        joined(ids.drop_last()) + seq![','] + ids.last()
    }
}

/// The identifiers of the entries, joined with commas, as an identifier
/// lookup takes them.
pub fn joined_ids(ydk_records: &Vec<YdkRecord>) -> (r: String)
    ensures
        r@ == joined(ydk_records@.map_values(|e: YdkRecord| e.id@)),
{
    let ghost ids = ydk_records@.map_values(|e: YdkRecord| e.id@);
    let mut r = String::new();
    let mut i: usize = 0;
    while i < ydk_records.len()
        invariant
            i <= ydk_records@.len(),
            ids == ydk_records@.map_values(|e: YdkRecord| e.id@),
            r@ == joined(ids.take(i as int)),
        decreases ydk_records.len() - i,
    {
        assert(ids.take(i as int + 1).drop_last() == ids.take(i as int));
        if i > 0 {
            r.append(",");
            proof {
                reveal_strlit(",");
            }
        }
        r.append(ydk_records[i].id.as_str());
        i = i + 1;
    }
    assert(ids.take(i as int) == ids);
    r
}

/// The address of the identifier lookup: the joined identifiers as the
/// form-encoded `id` parameter of the service's fixed address.
pub fn make_url(ydk_records: &Vec<YdkRecord>) -> (r: String)
    ensures
        r@ == "https://db.ygoprodeck.com/api/v7/cardinfo.php?id="@ + form_encoded(
            encode_utf8(joined(ydk_records@.map_values(|e: YdkRecord| e.id@))),
        ),
{
    let ids = joined_ids(ydk_records);
    let encoded = form_encode(ids.as_str());
    String::from_str("https://db.ygoprodeck.com/api/v7/cardinfo.php?id=").concat(encoded.as_str())
}

} // verus!
