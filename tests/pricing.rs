use yugioh_prices_csv::api::get_card_prices::{
    make_url_string, price_record, select_candidate, CardPriceResponse, CardPrices, PriceData,
    PriceResponse, Prices,
};
use yugioh_prices_csv::record::{ArbitrationStrategy, Record};

fn candidate(tag: &str, rarity: &str, average: Option<u64>) -> CardPrices {
    CardPrices {
        name: "Card".to_string(),
        print_tag: tag.to_string(),
        rarity: rarity.to_string(),
        price_data: PriceResponse {
            status: "success".to_string(),
            data: average.map(|a| PriceData {
                prices: Prices { high: a + 100, low: a / 2, average: a, updated_at: "2020-01-01".to_string() },
            }),
        },
    }
}

fn record(tag: Option<&str>, rarity: Option<&str>) -> Record {
    Record {
        name: "Card".to_string(),
        tag: tag.map(|t| t.to_string()),
        count: Some(3),
        rarity: rarity.map(|r| r.to_string()),
        price: None,
    }
}

fn response(cs: Vec<CardPrices>) -> CardPriceResponse {
    CardPriceResponse { status: "success".to_string(), data: cs }
}

#[test]
fn min_picks_first_smallest_and_max_picks_largest() {
    let cs = vec![
        candidate("A-1", "Common", Some(5)),
        candidate("A-2", "Common", Some(2)),
        candidate("A-3", "Common", Some(2)),
    ];
    let r = record(None, None);
    assert_eq!(select_candidate(&r, &cs, ArbitrationStrategy::MinValue), Some(1));
    assert_eq!(select_candidate(&r, &cs, ArbitrationStrategy::MaxValue), Some(0));
}

#[test]
fn max_tie_keeps_first_encountered() {
    let cs = vec![
        candidate("A-1", "Common", Some(2)),
        candidate("A-2", "Common", Some(7)),
        candidate("A-3", "Common", Some(7)),
    ];
    let r = record(None, None);
    assert_eq!(select_candidate(&r, &cs, ArbitrationStrategy::MaxValue), Some(1));
}

#[test]
fn unpriced_candidates_are_never_chosen() {
    let cs = vec![candidate("A-1", "Common", None), candidate("A-2", "Common", Some(9))];
    let r = record(None, None);
    assert_eq!(select_candidate(&r, &cs, ArbitrationStrategy::MinValue), Some(1));
}

#[test]
fn stated_rarity_excludes_other_rarities_whatever_the_tag() {
    let cs = vec![
        candidate("CHIM-EN049", "Secret Rare", Some(1)),
        candidate("OTHER-EN001", "Ultra Rare", Some(9)),
        candidate("CHIM-EN049", "Super Rare", Some(2)),
    ];
    let r = price_record(record(None, Some("Ultra Rare")), &response(cs), ArbitrationStrategy::MinValue);
    assert_eq!(r.price, Some(9));
    assert_eq!(r.tag, Some("OTHER-EN001".to_string()));
    assert_eq!(r.rarity, Some("Ultra Rare".to_string()));
    assert_eq!(r.count, Some(3));
    assert_eq!(r.name, "Card");
}

#[test]
fn stated_tag_excludes_other_tags() {
    let cs = vec![candidate("A-1", "Common", Some(1)), candidate("B-1", "Rare", Some(4))];
    let r = price_record(record(Some("B-1"), None), &response(cs), ArbitrationStrategy::MinValue);
    assert_eq!(r.price, Some(4));
    assert_eq!(r.rarity, Some("Rare".to_string()));
}

#[test]
fn no_priced_candidate_leaves_record_unchanged() {
    let cs = vec![candidate("A-1", "Common", None), candidate("A-2", "Rare", None)];
    let before = record(None, None);
    let after = price_record(before.clone(), &response(cs), ArbitrationStrategy::MaxValue);
    assert_eq!(after, before);
    assert_eq!(after.price, None);
}

#[test]
fn no_matching_candidate_leaves_record_unchanged() {
    let cs = vec![candidate("A-1", "Common", Some(3))];
    let before = record(Some("Z-9"), None);
    let after = price_record(before.clone(), &response(cs), ArbitrationStrategy::MinValue);
    assert_eq!(after, before);
    assert_eq!(select_candidate(&before, &vec![], ArbitrationStrategy::MinValue), None);
}

#[test]
fn price_address_percent_encodes_the_name() {
    assert_eq!(
        make_url_string("I:P Masquerena"),
        "http://yugiohprices.com/api/get_card_prices/I%3AP%20Masquerena"
    );
    assert_eq!(make_url_string("Abc123"), "http://yugiohprices.com/api/get_card_prices/Abc123");
    assert_eq!(make_url_string("\u{e9}-"), "http://yugiohprices.com/api/get_card_prices/%C3%A9%2D");
}

#[test]
fn strategy_names() {
    assert_eq!(ArbitrationStrategy::from_name("Max"), ArbitrationStrategy::MaxValue);
    assert_eq!(ArbitrationStrategy::from_name("MaxValue"), ArbitrationStrategy::MaxValue);
    assert_eq!(ArbitrationStrategy::from_name("Min"), ArbitrationStrategy::MinValue);
    assert_eq!(ArbitrationStrategy::from_name("MinValue"), ArbitrationStrategy::MinValue);
    assert_eq!(ArbitrationStrategy::from_name("max"), ArbitrationStrategy::MinValue);
}
