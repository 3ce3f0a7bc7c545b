use yugioh_prices_csv::api::card_info::{
    convert_ydk_records, joined_ids, make_url, CardInfoData, CardInfoResponse,
};
use yugioh_prices_csv::deck::tally_ydk_lines;
use yugioh_prices_csv::record::YdkRecord;

fn lines(ls: &[&str]) -> Vec<String> {
    ls.iter().map(|l| l.to_string()).collect()
}

fn entry(id: &str, count: i32) -> YdkRecord {
    YdkRecord { id: id.to_string(), count }
}

#[test]
fn whole_lines_are_identifiers_and_repeats_accumulate() {
    let r = tally_ydk_lines(&lines(&["3 123", "#comment", "3 123", "1 456"]));
    assert_eq!(r, vec![entry("3 123", 2), entry("1 456", 1)]);
}

#[test]
fn deck_file_keeps_first_seen_order() {
    let r = tally_ydk_lines(&lines(&[
        "#created by someone",
        "#main",
        "456",
        "123",
        "456",
        "",
        "#extra",
        "!side",
        "123",
        "789",
        "456",
    ]));
    assert_eq!(r, vec![entry("456", 3), entry("123", 2), entry("789", 1)]);
}

#[test]
fn empty_and_non_numeric_lines_give_nothing() {
    assert!(tally_ydk_lines(&lines(&[])).is_empty());
    assert!(tally_ydk_lines(&lines(&["", "", "#main", "!side", " 123"])).is_empty());
}

#[test]
fn unicode_numeric_leading_character_counts() {
    let r = tally_ydk_lines(&lines(&["\u{0663}x", "\u{00BD}", "a1"]));
    assert_eq!(r, vec![entry("\u{0663}x", 1), entry("\u{00BD}", 1)]);
}

#[test]
fn ids_are_joined_with_commas() {
    assert_eq!(joined_ids(&vec![]), "");
    assert_eq!(joined_ids(&vec![entry("1", 1)]), "1");
    assert_eq!(joined_ids(&vec![entry("12", 1), entry("34", 2), entry("5", 1)]), "12,34,5");
}

#[test]
fn card_info_address_encodes_the_ids() {
    let url = make_url(&vec![entry("123", 1), entry("456", 3)]);
    assert_eq!(url, "https://db.ygoprodeck.com/api/v7/cardinfo.php?id=123%2C456");
}

#[test]
fn resolution_keeps_entry_order_and_drops_unknown_ids() {
    let entries = vec![entry("123", 2), entry("999", 1), entry("456", 1)];
    let resp = CardInfoResponse {
        data: vec![
            CardInfoData { id: 456, name: "Beta".to_string() },
            CardInfoData { id: 123, name: "Alpha".to_string() },
        ],
    };
    let rs = convert_ydk_records(&entries, &resp);
    assert_eq!(rs.len(), 2);
    assert_eq!(rs[0].name, "Alpha");
    assert_eq!(rs[0].count, Some(2));
    assert_eq!(rs[1].name, "Beta");
    assert_eq!(rs[1].count, Some(1));
    for r in rs.iter() {
        assert_eq!(r.tag, None);
        assert_eq!(r.rarity, None);
        assert_eq!(r.price, None);
    }
}

#[test]
fn resolution_with_deck_line_not_in_decimal_form_drops_it() {
    let entries = vec![entry("0123", 1)];
    let resp = CardInfoResponse { data: vec![CardInfoData { id: 123, name: "Alpha".to_string() }] };
    assert!(convert_ydk_records(&entries, &resp).is_empty());
}
