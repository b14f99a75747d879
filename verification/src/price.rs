//! The rules by which amounts in satoshis are converted to other currencies.
use vstd::prelude::*;

use crate::json::{count_json, member, Fields, Json, JsonView};
use crate::text::same_text;

verus! {

/// Where the exchange rates come from.
pub const PRICE_FEED_URL: &'static str = "https://price-feed.dev.fedibtc.com/latest";

/// The rates that a conversion needs.
#[derive(Debug)]
pub enum Quote {
    /// To bitcoin, which needs no rate.
    Btc,
    /// To dollars.
    Usd { btc_usd: serde_json::Number },
    /// To another currency: dollars per bitcoin and dollars per unit of the currency.
    Other { btc_usd: serde_json::Number, currency_usd: serde_json::Number },
}

/// The rate that the feed's prices state for a pair of currencies.
pub open spec fn rate_of(prices: JsonView, pair: Seq<char>) -> Option<serde_json::Number> {
    match member(prices, pair) {
        Some(entry) => match member(entry, "rate"@) {
            Some(JsonView::Number(rate)) => Some(rate),
            _ => None,
        },
        None => None,
    }
}

/// The rates that the feed gives for a conversion, or the message that says which is missing. The
/// dollar rate of bitcoin has to be there for every currency.
pub open spec fn quoted(feed: JsonView, currency: Seq<char>) -> Result<Quote, Seq<char>> {
    match member(feed, "prices"@) {
        None => Err("Missing 'prices' in response"@),
        Some(prices) => match rate_of(prices, "BTC/USD"@) {
            None => Err("BTC/USD rate not found"@),
            Some(btc_usd) => if currency == "BTC"@ {
                Ok(Quote::Btc)
            } else if currency == "USD"@ {
                Ok(Quote::Usd { btc_usd })
            } else {
                match rate_of(prices, currency + "/USD"@) {
                    None => Err("Currency "@ + currency + " not found in price feed"@),
                    Some(currency_usd) => Ok(Quote::Other { btc_usd, currency_usd }),
                }
            },
        },
    }
}

/// The rate that the feed's prices state for a pair of currencies.
fn find_rate(prices: &Json, pair: &str) -> (rate: Option<serde_json::Number>)
    ensures
        rate == rate_of(prices@, pair@),
{
    match prices.get(pair) {
        Some(entry) => match entry.get("rate") {
            Some(Json::Number(rate)) => Some(rate.clone()),
            _ => None,
        },
        None => None,
    }
}

/// Finds the rates for a conversion in what the feed says.
pub fn quote(feed: &Json, currency: &str) -> (quote: Result<Quote, String>)
    ensures
        match (quote, quoted(feed@, currency@)) {
            (Ok(quote), Ok(expected)) => quote == expected,
            (Err(message), Err(text)) => message@ == text,
            _ => false,
        },
{
    let Some(prices) = feed.get("prices") else {
        return Err("Missing 'prices' in response".to_owned());
    };
    let Some(btc_usd) = find_rate(prices, "BTC/USD") else {
        return Err("BTC/USD rate not found".to_owned());
    };
    if same_text(currency, "BTC") {
        return Ok(Quote::Btc);
    }
    if same_text(currency, "USD") {
        return Ok(Quote::Usd { btc_usd });
    }
    let pair = currency.to_owned().concat("/USD");
    match find_rate(prices, pair.as_str()) {
        Some(currency_usd) => Ok(Quote::Other { btc_usd, currency_usd }),
        None => Err("Currency ".to_owned().concat(currency).concat(" not found in price feed")),
    }
}

/// The reply of a conversion to bitcoin.
pub open spec fn btc_reply_json(amount_sats: u64, amount_btc: JsonView) -> JsonView {
    JsonView::Object(
        map![
            "amount_sats"@ => count_json(amount_sats),
            "amount_btc"@ => amount_btc,
            "currency"@ => JsonView::Text("BTC"@),
        ],
    )
}

/// The reply of a conversion to dollars.
pub open spec fn usd_reply_json(
    amount_sats: u64,
    amount_usd: Seq<char>,
    btc_usd_rate: JsonView,
) -> JsonView {
    JsonView::Object(
        map![
            "amount_sats"@ => count_json(amount_sats),
            "amount_usd"@ => JsonView::Text(amount_usd),
            "currency"@ => JsonView::Text("USD"@),
            "btc_usd_rate"@ => btc_usd_rate,
        ],
    )
}

/// The reply of a conversion to any other currency.
pub open spec fn currency_reply_json(
    amount_sats: u64,
    converted: Seq<char>,
    currency: Seq<char>,
    btc_usd_rate: JsonView,
    currency_usd_rate: JsonView,
) -> JsonView {
    JsonView::Object(
        map![
            "amount_sats"@ => count_json(amount_sats),
            "converted"@ => JsonView::Text(converted),
            "currency"@ => JsonView::Text(currency),
            "btc_usd_rate"@ => btc_usd_rate,
            "currency_usd_rate"@ => currency_usd_rate,
        ],
    )
}

/// The reply of a conversion to bitcoin.
pub fn btc_reply(amount_sats: u64, amount_btc: Json) -> (reply: Json)
    ensures
        reply@ == btc_reply_json(amount_sats, amount_btc@),
{
    let ghost amount = amount_btc@;
    let reply = Fields::new()
        .with("amount_sats", Json::count(amount_sats))
        .with("amount_btc", amount_btc)
        .with("currency", Json::text("BTC"))
        .finish();
    assert(reply@->Object_0 =~= btc_reply_json(amount_sats, amount)->Object_0);
    reply
}

/// The reply of a conversion to dollars.
pub fn usd_reply(amount_sats: u64, amount_usd: &str, btc_usd_rate: Json) -> (reply: Json)
    ensures
        reply@ == usd_reply_json(amount_sats, amount_usd@, btc_usd_rate@),
{
    let ghost rate = btc_usd_rate@;
    let reply = Fields::new()
        .with("amount_sats", Json::count(amount_sats))
        .with("amount_usd", Json::text(amount_usd))
        .with("currency", Json::text("USD"))
        .with("btc_usd_rate", btc_usd_rate)
        .finish();
    assert(reply@->Object_0 =~= usd_reply_json(amount_sats, amount_usd@, rate)->Object_0);
    reply
}

/// The reply of a conversion to any other currency.
pub fn currency_reply(
    amount_sats: u64,
    converted: &str,
    currency: &str,
    btc_usd_rate: Json,
    currency_usd_rate: Json,
) -> (reply: Json)
    ensures
        reply@ == currency_reply_json(
            amount_sats,
            converted@,
            currency@,
            btc_usd_rate@,
            currency_usd_rate@,
        ),
{
    let ghost btc_rate = btc_usd_rate@;
    let ghost rate = currency_usd_rate@;
    let reply = Fields::new()
        .with("amount_sats", Json::count(amount_sats))
        .with("converted", Json::text(converted))
        .with("currency", Json::text(currency))
        .with("btc_usd_rate", btc_usd_rate)
        .with("currency_usd_rate", currency_usd_rate)
        .finish();
    assert(reply@->Object_0 =~= currency_reply_json(
        amount_sats,
        converted@,
        currency@,
        btc_rate,
        rate,
    )->Object_0);
    reply
}

// ── Laws ────────────────────────────────────────────────────────────────

/// A conversion goes by the rates that the feed states for the pair of bitcoin and dollars, and for
/// the pair of the currency and dollars, and by no others. Bitcoin needs no second rate and dollars
/// none but the first.
pub proof fn law_conversions_go_by_the_feed(
    feed: JsonView,
    prices: JsonView,
    btc_usd: serde_json::Number,
    currency_usd: serde_json::Number,
    dollars: JsonView,
    units: JsonView,
    currency: Seq<char>,
)
    requires
        member(feed, "prices"@) == Some(prices),
        member(prices, "BTC/USD"@) == Some(dollars),
        member(dollars, "rate"@) == Some(JsonView::Number(btc_usd)),
        member(prices, currency + "/USD"@) == Some(units),
        member(units, "rate"@) == Some(JsonView::Number(currency_usd)),
    ensures
        currency == "BTC"@ ==> quoted(feed, currency) == Ok::<_, Seq<char>>(Quote::Btc),
        currency == "USD"@ ==> quoted(feed, currency) == Ok::<_, Seq<char>>(
            Quote::Usd { btc_usd },
        ),
        currency != "BTC"@ && currency != "USD"@ ==> quoted(feed, currency) == Ok::<_, Seq<char>>(
            Quote::Other { btc_usd, currency_usd },
        ),
{
    reveal_strlit("BTC");
    reveal_strlit("USD");
    assert("BTC"@[0] != "USD"@[0]);
}

/// Dollars and bitcoin need no rate of their own in the feed.
pub proof fn law_dollars_need_one_rate(
    feed: JsonView,
    prices: JsonView,
    btc_usd: serde_json::Number,
    dollars: JsonView,
)
    requires
        member(feed, "prices"@) == Some(prices),
        member(prices, "BTC/USD"@) == Some(dollars),
        member(dollars, "rate"@) == Some(JsonView::Number(btc_usd)),
    ensures
        quoted(feed, "USD"@) == Ok::<_, Seq<char>>(Quote::Usd { btc_usd }),
        quoted(feed, "BTC"@) == Ok::<_, Seq<char>>(Quote::Btc),
{
    reveal_strlit("BTC");
    reveal_strlit("USD");
    assert("BTC"@[0] != "USD"@[0]);
}

/// Where a rate is missing there is no conversion, and the message says what is missing: all
/// prices, the rate of bitcoin, or the currency by its name.
pub proof fn law_missing_rates_are_told(feed: JsonView, currency: Seq<char>)
    ensures
        member(feed, "prices"@) is None ==> quoted(feed, currency) == Err::<Quote, _>(
            "Missing 'prices' in response"@,
        ),
        member(feed, "prices"@) matches Some(prices) ==> {
            &&& member(prices, "BTC/USD"@) is None ==> quoted(feed, currency) == Err::<Quote, _>(
                "BTC/USD rate not found"@,
            )
            &&& member(prices, currency + "/USD"@) is None && currency != "BTC"@ && currency
                != "USD"@ ==> quoted(feed, currency) is Err
        },
        quoted(feed, currency) matches Ok(Quote::Other { .. }) ==> currency != "BTC"@ && currency
            != "USD"@,
        quoted(feed, currency) matches Ok(Quote::Usd { .. }) ==> currency == "USD"@,
        quoted(feed, currency) matches Ok(Quote::Btc) ==> currency == "BTC"@,
        quoted(feed, currency) matches Err(message) ==> {
            ||| message == "Missing 'prices' in response"@
            ||| message == "BTC/USD rate not found"@
            ||| message == "Currency "@ + currency + " not found in price feed"@
        },
{
}

/// The reply of a conversion names the satoshis that were converted, what they come to, the
/// currency, and the rates that it went by.
pub proof fn law_conversions_are_told(
    amount_sats: u64,
    amount: JsonView,
    text: Seq<char>,
    currency: Seq<char>,
    btc_rate: JsonView,
    rate: JsonView,
)
    ensures
        ({
            let btc = btc_reply_json(amount_sats, amount);
            let usd = usd_reply_json(amount_sats, text, btc_rate);
            let other = currency_reply_json(amount_sats, text, currency, btc_rate, rate);
            &&& member(btc, "amount_sats"@) == Some(count_json(amount_sats))
            &&& member(btc, "amount_btc"@) == Some(amount)
            &&& member(btc, "currency"@) == Some(JsonView::Text("BTC"@))
            &&& member(usd, "amount_sats"@) == Some(count_json(amount_sats))
            &&& member(usd, "amount_usd"@) == Some(JsonView::Text(text))
            &&& member(usd, "currency"@) == Some(JsonView::Text("USD"@))
            &&& member(usd, "btc_usd_rate"@) == Some(btc_rate)
            &&& member(other, "amount_sats"@) == Some(count_json(amount_sats))
            &&& member(other, "converted"@) == Some(JsonView::Text(text))
            &&& member(other, "currency"@) == Some(JsonView::Text(currency))
            &&& member(other, "btc_usd_rate"@) == Some(btc_rate)
            &&& member(other, "currency_usd_rate"@) == Some(rate)
        }),
{
    reveal_strlit("amount_sats");
    reveal_strlit("amount_btc");
    reveal_strlit("amount_usd");
    reveal_strlit("currency");
    reveal_strlit("btc_usd_rate");
    reveal_strlit("converted");
    reveal_strlit("currency_usd_rate");
    assert("amount_sats"@.len() == 11 && "amount_btc"@.len() == 10 && "amount_usd"@.len() == 10
        && "currency"@.len() == 8 && "btc_usd_rate"@.len() == 12 && "converted"@.len() == 9
        && "currency_usd_rate"@.len() == 17);
}

} // verus!
