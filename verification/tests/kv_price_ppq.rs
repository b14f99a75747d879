use std::collections::BTreeMap;

use fedigents::json::Json;
use fedigents::kv;
use fedigents::kv::{kv_store, list_keys, KvRequest};
use fedigents::ppq::{PpqAccount, PpqClient, PpqMessage};
use fedigents::price;
use fedigents::price::{quote, Quote};

fn json(text: &str) -> Json {
    Json::from_text(text).unwrap()
}

#[test]
fn storage_requests_are_read() {
    let key = || Some("k".to_owned());
    assert!(matches!(
        kv_store("set", key(), Some(json("[1]"))),
        Ok(KvRequest::Store { key, value }) if key == "k" && value.to_text() == "[1]"
    ));
    assert!(matches!(kv_store("get", key(), None), Ok(KvRequest::Get { key }) if key == "k"));
    assert!(matches!(kv_store("delete", key(), None), Ok(KvRequest::Delete { key }) if key == "k"));
    assert!(matches!(kv_store("list", None, None), Ok(KvRequest::List)));
}

#[test]
fn storage_requests_are_refused() {
    let refusal = |result: Result<KvRequest, String>| result.unwrap_err();
    assert_eq!(refusal(kv_store("set", None, None)), "kv_store set requires a key");
    assert_eq!(
        refusal(kv_store("set", Some("k".to_owned()), None)),
        "kv_store set requires a value"
    );
    assert_eq!(refusal(kv_store("get", None, None)), "kv_store get requires a key");
    assert_eq!(refusal(kv_store("delete", None, None)), "kv_store delete requires a key");
    assert_eq!(
        refusal(kv_store("SET", None, None)),
        "Unsupported kv_store action: SET. Use set, get, delete, or list."
    );
}

/// A storage that does what requests ask for.
fn perform(storage: &mut BTreeMap<String, String>, request: KvRequest) -> Json {
    match request {
        KvRequest::Store { key, value } => {
            storage.insert(key.clone(), value.to_text());
            kv::set_reply(&key)
        }
        KvRequest::Get { key } => kv::get_reply(&key, &storage.get(&key).cloned()),
        KvRequest::Delete { key } => {
            storage.remove(&key);
            kv::delete_reply(&key)
        }
        KvRequest::List => kv::list_reply(&None, &storage.keys().cloned().collect()),
    }
}

#[test]
fn what_is_set_is_given_back_until_it_is_deleted() {
    let mut storage = BTreeMap::new();
    let mut run = |action: &str, key: &str, value: Option<Json>| {
        let request = kv_store(action, Some(key.to_owned()), value).unwrap();
        perform(&mut storage, request).to_text()
    };
    run("set", "other", Some(json("7")));
    for text in ["null", "-3", "18446744073709551615", "\"a\\n\\\"\"", "{\"a\":[1,{\"b\":true}]}"] {
        run("set", "k", Some(json(text)));
        let reply = run("get", "k", None);
        assert_eq!(
            reply,
            format!(r#"{{"action":"get","found":true,"key":"k","value":{text}}}"#)
        );
        assert_eq!(json(&reply).to_text(), reply);
    }
    run("delete", "k", None);
    assert_eq!(run("get", "k", None), r#"{"action":"get","found":false,"key":"k","value":null}"#);
    assert_eq!(run("get", "other", None), r#"{"action":"get","found":true,"key":"other","value":7}"#);
}

#[test]
fn keys_are_filtered_and_sorted() {
    let keys: Vec<String> = ["b", "a.2", "a.10", "B", "a", "\u{e9}", "\u{1f600}", "\u{ffff}"]
        .iter()
        .map(|key| key.to_string())
        .collect();
    let mut expected = keys.clone();
    expected.sort();
    assert_eq!(list_keys(&keys, &None), expected);
    assert_eq!(list_keys(&keys, &Some("a".to_owned())), ["a", "a.10", "a.2"]);
    assert!(list_keys(&keys, &Some("zz".to_owned())).is_empty());
    assert_eq!(list_keys(&keys, &Some(String::new())), expected);
}

#[test]
fn replies_of_the_storage_tool() {
    assert_eq!(
        kv::set_reply("k").to_text(),
        r#"{"action":"set","key":"k","stored":true}"#
    );
    assert_eq!(
        kv::get_reply("k", &Some("{\"a\":1}".to_owned())).to_text(),
        r#"{"action":"get","found":true,"key":"k","value":{"a":1}}"#
    );
    assert_eq!(
        kv::get_reply("k", &Some("null".to_owned())).to_text(),
        r#"{"action":"get","found":true,"key":"k","value":null}"#
    );
    assert_eq!(
        kv::get_reply("k", &None).to_text(),
        r#"{"action":"get","found":false,"key":"k","value":null}"#
    );
    assert_eq!(
        kv::get_reply("k", &Some("{".to_owned())).to_text(),
        r#"{"action":"get","found":false,"key":"k","value":null}"#
    );
    assert_eq!(
        kv::delete_reply("k").to_text(),
        r#"{"action":"delete","deleted":true,"key":"k"}"#
    );
    assert_eq!(
        kv::list_reply(&Some("a".to_owned()), &vec!["a1".to_owned(), "a2".to_owned()]).to_text(),
        r#"{"action":"list","count":2,"keys":["a1","a2"],"prefix":"a"}"#
    );
    assert_eq!(
        kv::list_reply(&None, &vec![]).to_text(),
        r#"{"action":"list","count":0,"keys":[],"prefix":null}"#
    );
}

const FEED: &str = r#"{"prices":{"BTC/USD":{"rate":50000},"EUR/USD":{"rate":1.25},"XXX/USD":{"rate":"1"}}}"#;

#[test]
fn rates_are_found() {
    let feed = json(FEED);
    assert!(matches!(quote(&feed, "BTC"), Ok(Quote::Btc)));
    assert!(matches!(
        quote(&feed, "USD"),
        Ok(Quote::Usd { btc_usd }) if btc_usd.as_f64() == Some(50000.0)
    ));
    assert!(matches!(
        quote(&feed, "EUR"),
        Ok(Quote::Other { btc_usd, currency_usd })
            if btc_usd.as_f64() == Some(50000.0) && currency_usd.as_f64() == Some(1.25)
    ));
}

#[test]
fn missing_rates_are_named() {
    let refusal = |feed: &str, currency: &str| quote(&json(feed), currency).unwrap_err();
    assert_eq!(refusal("{}", "USD"), "Missing 'prices' in response");
    assert_eq!(refusal(r#"{"prices":{}}"#, "BTC"), "BTC/USD rate not found");
    assert_eq!(
        refusal(r#"{"prices":{"BTC/USD":{"rate":"1"}}}"#, "USD"),
        "BTC/USD rate not found"
    );
    assert_eq!(refusal(FEED, "GBP"), "Currency GBP not found in price feed");
    assert_eq!(refusal(FEED, "XXX"), "Currency XXX not found in price feed");
}

#[test]
fn replies_of_conversions() {
    assert_eq!(
        price::btc_reply(150000000, json("1.5")).to_text(),
        r#"{"amount_btc":1.5,"amount_sats":150000000,"currency":"BTC"}"#
    );
    assert_eq!(
        price::usd_reply(1000, "0.50", json("50000.0")).to_text(),
        r#"{"amount_sats":1000,"amount_usd":"0.50","btc_usd_rate":50000.0,"currency":"USD"}"#
    );
    assert_eq!(
        price::currency_reply(1000, "0.40", "EUR", json("50000.0"), json("1.25")).to_text(),
        r#"{"amount_sats":1000,"btc_usd_rate":50000.0,"converted":"0.40","currency":"EUR","currency_usd_rate":1.25}"#
    );
}

#[test]
fn accounts_are_read_under_either_key() {
    let client = PpqClient::new();
    let account = client.create_account(&json(r#"{"credit_id":"c","api_key":"k"}"#)).unwrap();
    assert_eq!((account.credit_id.as_str(), account.api_key.as_str()), ("c", "k"));
    let account = client
        .create_account(&json(r#"{"data":{"creditId":"c2","apiKey":"k2","api_key":7}}"#))
        .unwrap();
    assert_eq!((account.credit_id.as_str(), account.api_key.as_str()), ("c2", "k2"));
    assert_eq!(client.create_account_url(), "https://api.ppq.ai/accounts/create");
}

#[test]
fn missing_account_fields_are_named() {
    let client = PpqClient::new();
    assert_eq!(
        client.create_account(&json("{}")).unwrap_err(),
        "Missing expected PPQ field; looked for one of: credit_id, creditId"
    );
    assert_eq!(
        client.create_account(&json(r#"{"credit_id":"c"}"#)).unwrap_err(),
        "Missing expected PPQ field; looked for one of: api_key, apiKey"
    );
    assert_eq!(
        client
            .create_account(&json(r#"{"data":{},"credit_id":"c","api_key":"k"}"#))
            .unwrap_err(),
        "Missing expected PPQ field; looked for one of: credit_id, creditId"
    );
}

#[test]
fn invoices_are_read_under_any_of_their_keys() {
    let client = PpqClient::new();
    for key in [
        "invoice",
        "bolt11",
        "payment_request",
        "paymentRequest",
        "lightning_invoice",
        "lightningInvoice",
    ] {
        let body = json(&format!(r#"{{"{key}":"lnbc1"}}"#));
        assert_eq!(client.create_lightning_topup(&body).unwrap().invoice, "lnbc1");
    }
    let both = json(r#"{"bolt11":"second","invoice":"first"}"#);
    assert_eq!(client.create_lightning_topup(&both).unwrap().invoice, "first");
    assert_eq!(
        client.create_lightning_topup(&json("[]")).unwrap_err(),
        "Missing expected PPQ field; looked for one of: invoice, bolt11, payment_request, paymentRequest, lightning_invoice, lightningInvoice"
    );
}

#[test]
fn chat_answers_are_read() {
    let client = PpqClient::new();
    let answer = |content: &str| {
        client.chat(&json(&format!(
            r#"{{"choices":[{{"message":{{"content":{content}}}}}]}}"#
        )))
    };
    assert_eq!(answer("\"hi\"").unwrap(), "hi");
    assert_eq!(answer("\"\"").unwrap(), "");
    assert_eq!(
        answer(r#"[{"text":"a"},"b",{"image":"c"},{"text":1}]"#).unwrap(),
        "a\nb"
    );
    assert_eq!(
        answer(r#"[{"image":"c"}]"#).unwrap_err(),
        "PPQ response content array was empty"
    );
    assert_eq!(answer("[]").unwrap_err(), "PPQ response content array was empty");
    assert_eq!(
        answer(r#"{"a":1}"#).unwrap_err(),
        r#"Unsupported PPQ content payload: {"a":1}"#
    );
    for body in ["{}", r#"{"choices":[]}"#, r#"{"choices":{}}"#, r#"{"choices":[{}]}"#] {
        assert_eq!(
            client.chat(&json(body)).unwrap_err(),
            "PPQ response did not contain message content"
        );
    }
}

#[test]
fn requests_to_the_service_carry_the_key() {
    let client = PpqClient::new();
    let account = PpqAccount { credit_id: "c".to_owned(), api_key: "k".to_owned() };
    let request = client.topup_request(&account, json("0.1")).unwrap();
    assert_eq!(request.url, "https://api.ppq.ai/topup/create/btc-lightning");
    assert_eq!(request.headers["authorization"], "Bearer k");
    assert_eq!(request.body.to_text(), r#"{"amount":0.1,"currency":"USD"}"#);
    let messages = vec![PpqMessage { role: "user".to_owned(), content: "hi".to_owned() }];
    let request = client.chat_request("k", &messages, json("0.2")).unwrap();
    assert_eq!(request.url, "https://api.ppq.ai/v1/chat/completions");
    assert_eq!(
        request.body.to_text(),
        r#"{"messages":[{"content":"hi","role":"user"}],"model":"gpt-5-nano","temperature":0.2}"#
    );
    let broken = PpqAccount { credit_id: "c".to_owned(), api_key: "k\u{7}".to_owned() };
    assert_eq!(
        client.topup_request(&broken, json("1")).unwrap_err(),
        "failed to parse header value"
    );
    assert_eq!(
        client.chat_request("\r", &messages, json("1")).unwrap_err(),
        "failed to parse header value"
    );
}
