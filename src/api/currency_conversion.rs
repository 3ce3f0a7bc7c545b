//! The exchange-rate lookup.

use vstd::prelude::*;
use vstd::string::StringSliceAdditionalSpecFns;
use crate::encoding::{form_encode, form_encoded};

verus! {

/// The address of the exchange-rate lookup for a currency code, against the
/// fixed base currency `USD`.
pub fn make_url(currency: &str) -> (r: String)
    ensures
        r@ == "https://api.exchangeratesapi.io/latest?base=USD&symbols="@ + form_encoded(
            currency.spec_bytes(),
        ),
{
    let encoded = form_encode(currency);
    String::from_str("https://api.exchangeratesapi.io/latest?base=USD&symbols=").concat(
        encoded.as_str(),
    )
}

} // verus!
