use yugioh_prices_csv::amounts::{convert_prices, total_value, AmountError, RATE_SCALE};
use yugioh_prices_csv::api::currency_conversion::make_url;
use yugioh_prices_csv::api::get_card_prices::{
    price_record, CardPriceResponse, CardPrices, PriceData, PriceResponse, Prices,
};
use yugioh_prices_csv::record::{ArbitrationStrategy, Record};
use yugioh_prices_csv::schema::sanitize_header;

fn priced(price: Option<u64>, count: Option<i32>) -> Record {
    Record { name: "Foo".to_string(), tag: None, count, rarity: None, price }
}

#[test]
fn end_to_end_price_convert_and_total() {
    let headers = vec!["name".to_string(), "count".to_string()];
    assert!(sanitize_header(&headers).is_ok());
    let resp = CardPriceResponse {
        status: "success".to_string(),
        data: vec![CardPrices {
            name: "Foo".to_string(),
            print_tag: "FOO-EN001".to_string(),
            rarity: "Common".to_string(),
            price_data: PriceResponse {
                status: "success".to_string(),
                data: Some(PriceData {
                    prices: Prices { high: 1200, low: 800, average: 1000, updated_at: "x".to_string() },
                }),
            },
        }],
    };
    let r = price_record(priced(None, Some(2)), &resp, ArbitrationStrategy::MinValue);
    assert_eq!(r.price, Some(1000));
    let mut rs = vec![r];
    assert_eq!(convert_prices(&mut rs, 500_000), Ok(()));
    assert_eq!(rs[0].price, Some(500));
    assert_eq!(total_value(&rs), Ok(1000));
}

#[test]
fn conversion_skips_unpriced_and_rounds_half_up() {
    let mut rs = vec![priced(Some(333), None), priced(None, Some(4)), priced(Some(1), None)];
    assert_eq!(convert_prices(&mut rs, 500_000), Ok(()));
    assert_eq!(rs[0].price, Some(167));
    assert_eq!(rs[1].price, None);
    assert_eq!(rs[2].price, Some(1));
    assert_eq!(rs[1].count, Some(4));
}

#[test]
fn unit_rate_changes_nothing() {
    let mut rs = vec![priced(Some(12345), Some(2)), priced(None, None)];
    let before = rs.clone();
    assert_eq!(convert_prices(&mut rs, RATE_SCALE), Ok(()));
    assert_eq!(rs, before);
}

#[test]
fn conversion_overflow_changes_nothing() {
    let mut rs = vec![priced(Some(5), None), priced(Some(u64::MAX), None)];
    let before = rs.clone();
    assert_eq!(convert_prices(&mut rs, 2 * RATE_SCALE), Err(AmountError::Overflow));
    assert_eq!(rs, before);
}

#[test]
fn largest_price_at_unit_rate_fits() {
    let mut rs = vec![priced(Some(u64::MAX), None)];
    assert_eq!(convert_prices(&mut rs, RATE_SCALE), Ok(()));
    assert_eq!(rs[0].price, Some(u64::MAX));
}

#[test]
fn total_counts_missing_count_as_one() {
    let rs = vec![priced(Some(500), Some(2)), priced(Some(250), None), priced(Some(100), Some(-1))];
    assert_eq!(total_value(&rs), Ok(1150));
    assert_eq!(total_value(&vec![]), Ok(0));
}

#[test]
fn total_refuses_unpriced_records() {
    let rs = vec![priced(Some(500), Some(2)), priced(None, Some(1))];
    assert_eq!(total_value(&rs), Err(AmountError::UnpricedRecord));
}

#[test]
fn total_of_zero_price_is_zero_not_an_error() {
    assert_eq!(total_value(&vec![priced(Some(0), Some(7))]), Ok(0));
}

#[test]
fn exchange_rate_address() {
    assert_eq!(make_url("EUR"), "https://api.exchangeratesapi.io/latest?base=USD&symbols=EUR");
    assert_eq!(make_url("A B&"), "https://api.exchangeratesapi.io/latest?base=USD&symbols=A+B%26");
}
