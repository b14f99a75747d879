use fedigents::bootstrap;
use fedigents::bootstrap::{
    await_recurring_receive, balance_refreshed, first_invoice_ended, first_invoice_update,
    invoice_made, receive_code_known, recurring_receive_update, BootstrapStep, DepositWatch,
    LogEntry, ReceiveUpdate, WatchInput, WatchStep,
};
use fedigents::fedimint::{
    ensure_client, ensure_mnemonic, ensure_receive_code, first_code, find_named_code,
    lookup_recurringd_api, migrate_legacy_local_storage, mnemonic_drawn, receive_code_meta,
    registered_code, AccountStep, Amount, AppState, ClientStep, KnownCode, LegacyKey, LegacyState,
    MnemonicStep, ReceiveCode, ReceiveCodeStep, Record, WalletRuntime,
};
use fedigents::json::Json;
use fedigents::ppq::PpqAccount;

fn empty() -> AppState {
    AppState {
        mnemonic: None,
        ppq_ready: None,
        ppq_account: None,
        receive_code: None,
        ppq_funding_in_flight: None,
    }
}

fn account(key: &str) -> PpqAccount {
    PpqAccount { credit_id: "c".to_owned(), api_key: key.to_owned() }
}

fn code(idx: u64, lnurl: &str) -> ReceiveCode {
    ReceiveCode { payment_code_idx: idx, lnurl: lnurl.to_owned() }
}

fn show(events: &[bootstrap::BootstrapEvent]) -> Vec<String> {
    events
        .iter()
        .map(|event| match event {
            bootstrap::BootstrapEvent::Note(note) => format!("note {note}"),
            bootstrap::BootstrapEvent::ReceiveCode(code) => format!("code {code}"),
            bootstrap::BootstrapEvent::Balance(amount) => format!("balance {}", amount.msats),
        })
        .collect()
}

#[test]
fn amounts_are_counted_in_thousandths() {
    assert_eq!(Amount::from_sats(21).msats, 21000);
    assert_eq!(Amount { msats: 21999 }.sats_round_down(), 21);
    assert_eq!(Amount::from_sats(7).sats_round_down(), 7);
}

#[test]
fn a_wallet_in_memory_says_so() {
    let runtime = WalletRuntime::connect(None, empty());
    assert_eq!(runtime.storage_notice(), None);
    let runtime = WalletRuntime::connect(Some("no handle".to_owned()), empty());
    assert_eq!(
        runtime.storage_notice().unwrap(),
        "Persistent wallet storage is unavailable in this browser session (no handle). Falling back to in-memory mode. Your wallet state will reset when this tab closes."
    );
}

#[test]
fn marking_ready_ends_an_attempt() {
    let mut runtime = WalletRuntime::connect(None, empty());
    assert!(!runtime.is_ppq_ready());
    assert!(!runtime.ppq_funding_in_flight());
    runtime.commit(runtime.begin_ppq_funding_attempt());
    assert!(runtime.ppq_funding_in_flight());
    assert!(!runtime.is_ppq_ready());
    runtime.commit(runtime.mark_ppq_ready());
    assert!(!runtime.ppq_funding_in_flight());
    assert!(runtime.is_ppq_ready());
}

#[test]
fn a_created_account_is_kept() {
    let mut runtime = WalletRuntime::connect(None, empty());
    assert!(runtime.ppq_account().is_none());
    assert!(matches!(runtime.ensure_ppq_account(), AccountStep::Create));
    assert!(matches!(runtime.repair_ppq_account(), AccountStep::Create));
    runtime.commit(runtime.account_created(&account("k")));
    assert!(matches!(runtime.ensure_ppq_account(), AccountStep::Use(a) if a.api_key == "k"));
    assert!(matches!(runtime.repair_ppq_account(), AccountStep::Use(a) if a.api_key == "k"));
    assert_eq!(runtime.ppq_account().unwrap().credit_id, "c");
}

#[test]
fn records_are_taken_over_in_order() {
    let mut runtime = WalletRuntime::connect(None, empty());
    assert_eq!(runtime.cached_receive_code(), None);
    runtime.commit(vec![
        Record::Mnemonic("w".to_owned()),
        Record::ReceiveCode(code(1, "first")),
        Record::ReceiveCode(code(2, "second")),
    ]);
    assert_eq!(runtime.cached_receive_code(), Some("second".to_owned()));
}

#[test]
fn invoices_take_descriptions_of_up_to_639_bytes() {
    let runtime = WalletRuntime::connect(None, empty());
    let order = runtime.create_invoice(5, &"d".repeat(639)).unwrap();
    assert_eq!(order.amount.msats, 5000);
    assert_eq!(order.description.len(), 639);
    assert_eq!(
        runtime.create_invoice(5, &"d".repeat(640)).unwrap_err(),
        "The supplied description string was longer than 639 bytes"
    );
    assert!(runtime.create_invoice(5, &"\u{e9}".repeat(320)).is_err());
    assert_eq!(runtime.create_invoice(0, "a\nb").unwrap().description, "a\nb");
}

#[test]
fn payments_are_ordered() {
    let runtime = WalletRuntime::connect(None, empty());
    let order = runtime.pay("lnbc1", None);
    assert_eq!(order.payment, "lnbc1");
    assert!(order.amount.is_none());
    assert_eq!(runtime.pay("a@b", Some(3)).amount.unwrap().msats, 3000);
}

#[test]
fn older_storage_is_taken_over_where_the_database_lacks_it() {
    let mut state = empty();
    state.ppq_ready = Some(false);
    let legacy = LegacyState {
        mnemonic: Some("old words".to_owned()),
        ppq_ready: Some(true),
        ppq_account: None,
        ppq_funding_in_flight: Some(true),
    };
    let steps = migrate_legacy_local_storage(&state, legacy);
    assert_eq!(steps.len(), 3);
    assert_eq!(steps[0].key, LegacyKey::Mnemonic);
    assert!(matches!(&steps[0].write, Some(Record::Mnemonic(words)) if words == "old words"));
    assert_eq!(steps[1].key, LegacyKey::PpqReady);
    assert!(steps[1].write.is_none());
    assert_eq!(steps[2].key, LegacyKey::PpqFunding);
    assert!(matches!(steps[2].write, Some(Record::PpqFundingInFlight(true))));
    let mut runtime = WalletRuntime::connect(None, state);
    runtime.commit(steps.into_iter().filter_map(|step| step.write).collect());
    assert!(!runtime.is_ppq_ready());
    assert!(runtime.ppq_funding_in_flight());
}

#[test]
fn storage_entries_have_their_names() {
    assert_eq!(LegacyKey::Mnemonic.name(), "fedigents.wallet.mnemonic");
    assert_eq!(LegacyKey::PpqReady.name(), "fedigents.ppq.ready");
    assert_eq!(LegacyKey::PpqAccount.name(), "fedigents.ppq.account");
    assert_eq!(LegacyKey::PpqFunding.name(), "fedigents.ppq.funding");
    assert_eq!(LegacyKey::Lnurl.name(), "fedigents.receive.lnurl");
}

const WORDS: &str = "abandon abandon abandon abandon abandon abandon abandon abandon abandon abandon abandon about";

#[test]
fn recovery_words_are_read_back() {
    let mut state = empty();
    assert!(matches!(ensure_mnemonic(&state), Ok(MnemonicStep::Draw)));
    state.mnemonic = Some(format!("  {}", WORDS.replace(' ', "\n")));
    let words = match ensure_mnemonic(&state) {
        Ok(MnemonicStep::Use(words)) => words,
        _ => panic!("words were not read"),
    };
    assert_eq!(words.len(), 12);
    let text = match mnemonic_drawn(&words) {
        Record::Mnemonic(text) => text,
        _ => panic!("not a mnemonic"),
    };
    assert_eq!(text, WORDS);
    state.mnemonic = Some(text);
    assert!(matches!(ensure_mnemonic(&state), Ok(MnemonicStep::Use(again)) if again == words));
}

#[test]
fn broken_recovery_words_are_an_error() {
    let mut state = empty();
    state.mnemonic = Some("abandon".to_owned());
    let count = ensure_mnemonic(&state).unwrap_err();
    state.mnemonic = Some(WORDS.replace("about", "abandon"));
    let checksum = ensure_mnemonic(&state).unwrap_err();
    assert!(!count.is_empty());
    assert_ne!(count, checksum);
}

#[test]
fn clients_are_reused_opened_or_joined() {
    assert_eq!(ensure_client(true, false), ClientStep::Reuse);
    assert_eq!(ensure_client(false, true), ClientStep::Open);
    assert_eq!(ensure_client(false, false), ClientStep::Join);
}

fn known(list: &[(u64, &str)]) -> Vec<KnownCode> {
    list.iter().map(|(idx, code)| KnownCode { idx: *idx, code: code.to_string() }).collect()
}

#[test]
fn receive_codes_are_come_by_in_order() {
    let stored = Some(code(1, "a"));
    assert!(matches!(
        ensure_receive_code(&stored, Some(code(2, "b")), Some("c".to_owned())),
        ReceiveCodeStep::UseStored(c) if c.lnurl == "a"
    ));
    assert!(matches!(
        ensure_receive_code(&None, Some(code(2, "b")), Some("c".to_owned())),
        ReceiveCodeStep::Adopt(c) if c.payment_code_idx == 2
    ));
    assert!(matches!(
        ensure_receive_code(&None, None, Some("c".to_owned())),
        ReceiveCodeStep::FindNamed(name) if name == "c"
    ));
    assert!(matches!(ensure_receive_code(&None, None, None), ReceiveCodeStep::FindAny));
}

#[test]
fn known_codes_are_found_by_text() {
    let codes = known(&[(3, "x"), (4, "y"), (5, "y")]);
    assert_eq!(find_named_code(&codes, "y").unwrap().payment_code_idx, 4);
    assert!(find_named_code(&codes, "z").is_none());
    assert_eq!(first_code(&codes).unwrap().lnurl, "x");
    assert!(first_code(&vec![]).is_none());
    assert_eq!(registered_code(&codes, "x").unwrap().payment_code_idx, 3);
    assert_eq!(
        registered_code(&codes, "z").unwrap_err(),
        "Unable to determine LNURL payment code index"
    );
}

#[test]
fn receive_codes_say_what_they_are_for() {
    assert_eq!(
        receive_code_meta().to_text(),
        r#"[["text/plain","Deposit into your Fedigents wallet"]]"#
    );
}

#[test]
fn the_federation_names_its_service() {
    let meta = Json::from_text(r#"{"recurringd_api":"https://r.example"}"#).unwrap();
    assert_eq!(lookup_recurringd_api(&meta), Ok("https://r.example"));
    for text in ["{}", "[]", r#"{"recurringd_api":1}"#] {
        assert_eq!(
            lookup_recurringd_api(&Json::from_text(text).unwrap()).unwrap_err(),
            "Federation meta does not expose `recurringd_api`"
        );
    }
}

#[test]
fn a_funded_wallet_is_up_at_once() {
    let mut state = empty();
    state.ppq_ready = Some(true);
    let runtime = WalletRuntime::connect(None, state);
    let (events, step) = runtime.bootstrap(Amount { msats: 5 });
    assert_eq!(show(&events), ["balance 5"]);
    assert!(matches!(step, BootstrapStep::Finished));
    let runtime = WalletRuntime::connect(None, empty());
    let (events, step) = runtime.bootstrap(Amount { msats: 0 });
    assert_eq!(show(&events), ["balance 0"]);
    assert!(matches!(step, BootstrapStep::EnsureReceiveCode));
}

#[test]
fn an_empty_wallet_waits_for_a_deposit() {
    let (events, step) = receive_code_known(Amount { msats: 0 }, Ok(code(9, "LNURL1")));
    assert_eq!(
        show(&events),
        [
            "code LNURL1",
            "note Wallet joined. Waiting for the first LNURL deposit before funding PPQ.",
        ]
    );
    assert!(matches!(step, BootstrapStep::AwaitDeposit { payment_code_idx: 9 }));
    let (events, step) = receive_code_known(Amount { msats: 0 }, Err("none".to_owned()));
    assert_eq!(
        show(&events),
        ["note LNURL receive setup is unavailable in this federation right now (none). Falling back to a starter invoice."]
    );
    assert!(matches!(
        step,
        BootstrapStep::MakeInvoice { amount_sats: 1000, description }
            if description == "Initial Fedigents funding"
    ));
}

#[test]
fn a_wallet_with_a_balance_goes_on() {
    let (events, step) = receive_code_known(Amount { msats: 1 }, Ok(code(9, "LNURL1")));
    assert_eq!(
        show(&events),
        [
            "code LNURL1",
            "note Existing wallet balance detected. Continuing with PPQ funding.",
        ]
    );
    assert!(matches!(step, BootstrapStep::ReadBalance));
    let (events, _) = receive_code_known(Amount { msats: 1 }, Err("e".to_owned()));
    assert_eq!(events.len(), 2);
    assert_eq!(show(&balance_refreshed(Amount { msats: 8 })), ["balance 8"]);
    assert_eq!(
        show(&invoice_made("lnbc1".to_owned())),
        [
            "note Paste this starter BOLT11 invoice into your wallet and pay it to continue setup:",
            "note lnbc1",
        ]
    );
}

#[test]
fn receives_are_settled_by_the_first_update_that_settles() {
    assert_eq!(recurring_receive_update(&ReceiveUpdate::Other), None);
    assert!(await_recurring_receive(&vec![ReceiveUpdate::Other, ReceiveUpdate::Claimed]));
    assert!(!await_recurring_receive(&vec![
        ReceiveUpdate::Canceled("x".to_owned()),
        ReceiveUpdate::Claimed,
    ]));
    assert!(!await_recurring_receive(&vec![ReceiveUpdate::Other]));
    assert!(!await_recurring_receive(&vec![]));
}

#[test]
fn the_starter_invoice_is_followed() {
    assert!(first_invoice_update(&ReceiveUpdate::Other).is_none());
    let events = first_invoice_update(&ReceiveUpdate::Claimed).unwrap().unwrap();
    assert_eq!(show(&events), ["note First deposit received and claimed."]);
    let fault = first_invoice_update(&ReceiveUpdate::Canceled("Timeout".to_owned()));
    assert_eq!(fault.unwrap().unwrap_err(), "Starter invoice canceled: Timeout");
    assert_eq!(
        first_invoice_ended(),
        "Starter invoice stream ended before a settled payment"
    );
}

fn entry(id: u64, receive: Option<(u64, &str)>) -> LogEntry {
    LogEntry { id, receive: receive.map(|(idx, operation)| (idx, operation.to_string())) }
}

#[test]
fn the_watch_ends_on_a_balance() {
    let mut watch = DepositWatch::new(7);
    let (events, step) = watch.wait_for_first_deposit(WatchInput::Balance(Amount { msats: 0 }));
    assert!(events.is_empty());
    assert!(matches!(step, WatchStep::ListInvoices { payment_code_idx: 7 }));
    let (events, step) = watch.wait_for_first_deposit(WatchInput::Balance(Amount { msats: 3 }));
    assert_eq!(
        show(&events),
        ["balance 3", "note First deposit detected in the wallet."]
    );
    assert!(matches!(step, WatchStep::Finished));
}

#[test]
fn the_watch_follows_each_receive_once() {
    let mut watch = DepositWatch::new(7);
    let follow = |step: WatchStep| match step {
        WatchStep::Follow { operation } => operation,
        other => panic!("{other:?}"),
    };
    let listed = || vec!["a".to_owned(), "b".to_owned()];
    let (events, step) = watch.wait_for_first_deposit(WatchInput::Invoices(listed()));
    assert_eq!(
        show(&events),
        ["note LNURL receive request noticed in the event log. Waiting for settlement."]
    );
    assert_eq!(follow(step), "a");
    let (_, step) = watch.wait_for_first_deposit(WatchInput::Settled(false));
    assert_eq!(follow(step), "b");
    let (events, step) = watch.wait_for_first_deposit(WatchInput::Settled(false));
    assert!(events.is_empty());
    assert!(matches!(step, WatchStep::ReadLog { after: None, limit: 64 }));
    let entries = vec![
        entry(1, None),
        entry(2, Some((8, "other code"))),
        entry(3, Some((7, "a"))),
        entry(4, Some((7, "c"))),
        entry(5, None),
    ];
    let (events, step) = watch.wait_for_first_deposit(WatchInput::Entries(entries));
    assert_eq!(
        show(&events),
        ["note A new LNURL receive invoice was created. Waiting for payment finality."]
    );
    assert_eq!(follow(step), "c");
    let (_, step) = watch.wait_for_first_deposit(WatchInput::Settled(false));
    assert!(matches!(step, WatchStep::Rest { seconds: 2 }));
    let (_, step) = watch.wait_for_first_deposit(WatchInput::Rested);
    assert!(matches!(step, WatchStep::ReadBalance));
    let (_, step) = watch.wait_for_first_deposit(WatchInput::Invoices(listed()));
    assert!(matches!(step, WatchStep::ReadLog { after: Some(5), limit: 64 }));
    let (_, step) = watch.wait_for_first_deposit(WatchInput::Entries(vec![]));
    assert!(matches!(step, WatchStep::Rest { seconds: 2 }));
    let (_, step) = watch.wait_for_first_deposit(WatchInput::Invoices(vec!["d".to_owned()]));
    assert_eq!(follow(step), "d");
    let (_, step) = watch.wait_for_first_deposit(WatchInput::Settled(true));
    assert!(matches!(step, WatchStep::Refresh));
    let (events, step) = watch.wait_for_first_deposit(WatchInput::Refreshed(Amount { msats: 4 }));
    assert_eq!(show(&events), ["balance 4"]);
    assert!(matches!(step, WatchStep::Finished));
}
