use fedigents::bootstrap;
use fedigents::fedimint;
use fedigents::fedimint::{Amount, AppState, ReceiveCode, Record};
use fedigents::json::Json;
use fedigents::ppq::PpqAccount;
use fedigents::wallet_runtime::{
    answer_request, handle_request, invoice_created, invoice_paid, post_failed, receive_settled,
    serialize_ok, with_runtime, BootstrapEvent, Command, ConnectResponse, Delivery, InvoiceResponse,
    OperationEvent, Outcome, RequestStep, ResponseEnvelope, ResponsePayload, WalletRuntime,
    WireBootstrapEvent, WireOperationEvent, WorkerClient, WorkerEventEnvelope, WorkerEventPayload,
    WorkerStep,
};

fn connected() -> WalletRuntime<&'static str> {
    WalletRuntime::connect(
        WorkerClient::new(),
        ConnectResponse { storage_notice: Some("notice".to_owned()) },
    )
}

fn value(id: u64, text: &str) -> Option<ResponseEnvelope> {
    Some(ResponseEnvelope {
        id,
        payload: ResponsePayload::Value { value: Json::text(text) },
    })
}

#[test]
fn events_keep_their_content_on_the_way() {
    let wire = WireBootstrapEvent::from_core(bootstrap::BootstrapEvent::Note("n".to_owned()));
    assert!(matches!(wire.into_public(), BootstrapEvent::Note(note) if note == "n"));
    let wire = WireBootstrapEvent::from_core(bootstrap::BootstrapEvent::ReceiveCode("c".to_owned()));
    assert!(matches!(wire.into_public(), BootstrapEvent::ReceiveCode(code) if code == "c"));
    let wire = WireBootstrapEvent::from_core(bootstrap::BootstrapEvent::Balance(Amount {
        msats: 2999,
    }));
    assert!(matches!(wire.into_public(), BootstrapEvent::Balance(2)));
    let wire = WireOperationEvent::PaymentReceived {
        amount_sats: Some(4),
        invoice: Some("i".to_owned()),
    };
    assert!(matches!(
        wire.into_public(),
        OperationEvent::PaymentReceived { amount_sats: Some(4), invoice: Some(invoice) }
            if invoice == "i"
    ));
}

#[test]
fn requests_are_numbered_from_one() {
    let mut runtime = connected();
    assert_eq!(runtime.storage_notice(), Some("notice".to_owned()));
    assert!(runtime.can_request());
    assert_eq!(runtime.get_balance("a").id, 1);
    let request = runtime.pay("lnbc1", Some(3), "b");
    assert_eq!(request.id, 2);
    assert!(matches!(
        request.command,
        Command::Pay { payment, amount_sats: Some(3) } if payment == "lnbc1"
    ));
    let request = runtime.create_invoice(5, "d", "c");
    assert!(matches!(
        request.command,
        Command::CreateInvoice { amount_sats: 5, description } if description == "d"
    ));
}

#[test]
fn every_request_has_its_command() {
    let mut runtime = connected();
    assert!(matches!(runtime.mark_ppq_ready("s").command, Command::MarkPpqReady));
    assert!(matches!(runtime.is_ppq_ready("s").command, Command::IsPpqReady));
    assert!(matches!(runtime.cached_receive_code("s").command, Command::CachedReceiveCode));
    assert!(matches!(runtime.ppq_account("s").command, Command::PpqAccount));
    assert!(matches!(runtime.ensure_ppq_account("s").command, Command::EnsurePpqAccount));
    assert!(matches!(runtime.ppq_funding_in_flight("s").command, Command::PpqFundingInFlight));
    assert!(matches!(
        runtime.begin_ppq_funding_attempt("s").command,
        Command::BeginPpqFundingAttempt
    ));
    assert!(matches!(runtime.repair_ppq_account("s").command, Command::RepairPpqAccount));
    assert!(matches!(
        runtime.list_operations(4, "s").command,
        Command::ListOperations { limit: 4 }
    ));
    assert!(matches!(
        runtime.watch_pending_receives("s").command,
        Command::WatchPendingReceives
    ));
    let request = runtime.bootstrap("s");
    assert!(matches!(request.command, Command::Bootstrap));
    assert_eq!(request.id, 11);
}

#[test]
fn an_answer_reaches_its_request_once() {
    let mut runtime = connected();
    let first = runtime.get_balance("first").id;
    let second = runtime.get_balance("second").id;
    assert!(matches!(
        runtime.receive(value(second, "v"), None),
        Delivery::Answer { sender: "second", result: Ok(json) } if json.as_str() == Some("v")
    ));
    assert!(matches!(runtime.receive(value(second, "v"), None), Delivery::Nothing));
    let fault = ResponseEnvelope {
        id: first,
        payload: ResponsePayload::Fault { message: "no".to_owned() },
    };
    assert!(matches!(
        runtime.receive(Some(fault), None),
        Delivery::Answer { sender: "first", result: Err(message) } if message == "no"
    ));
    assert!(matches!(runtime.receive(value(99, "v"), None), Delivery::Nothing));
    assert!(matches!(runtime.receive(None, None), Delivery::Nothing));
}

#[test]
fn a_request_that_was_not_sent_is_forgotten() {
    let mut runtime = connected();
    let id = runtime.get_balance("lost").id;
    runtime.abandon(id);
    assert!(matches!(runtime.receive(value(id, "v"), None), Delivery::Nothing));
    assert_eq!(runtime.get_balance("next").id, id + 1);
}

#[test]
fn events_go_to_whoever_listens() {
    let mut runtime = connected();
    let note = || {
        Some(WorkerEventEnvelope::bootstrap(WireBootstrapEvent::Note { note: "n".to_owned() }))
    };
    assert!(matches!(runtime.receive(None, note()), Delivery::Nothing));
    runtime.bootstrap("s");
    assert!(matches!(
        runtime.receive(None, note()),
        Delivery::Bootstrap(BootstrapEvent::Note(n)) if n == "n"
    ));
    runtime.bootstrap_ended();
    assert!(matches!(runtime.receive(None, note()), Delivery::Nothing));
    assert!(matches!(runtime.receive(None, Some(receive_settled(None))), Delivery::Nothing));
    runtime.set_operation_listener(true);
    assert!(matches!(
        runtime.receive(None, Some(receive_settled(Some(3)))),
        Delivery::Operation(OperationEvent::PaymentReceived { amount_sats: Some(3), invoice: None })
    ));
    runtime.set_operation_listener(false);
    assert!(matches!(runtime.receive(None, Some(receive_settled(None))), Delivery::Nothing));
}

#[test]
fn the_worker_connects_first() {
    assert_eq!(with_runtime(false, &Command::GetBalance), WorkerStep::Connect);
    assert_eq!(with_runtime(true, &Command::GetBalance), WorkerStep::Run);
    assert_eq!(with_runtime(true, &Command::Connect), WorkerStep::Connect);
}

fn wallet() -> fedimint::WalletRuntime {
    fedimint::WalletRuntime::connect(
        None,
        AppState {
            mnemonic: None,
            ppq_ready: Some(true),
            ppq_account: Some(PpqAccount { credit_id: "c".to_owned(), api_key: "k".to_owned() }),
            receive_code: Some(ReceiveCode { payment_code_idx: 1, lnurl: "L".to_owned() }),
            ppq_funding_in_flight: None,
        },
    )
}

fn answered(step: RequestStep) -> String {
    match step {
        RequestStep::Answer(outcome) => serialize_ok(&outcome).to_text(),
        other => panic!("{other:?}"),
    }
}

#[test]
fn the_wallet_answers_from_what_it_keeps() {
    let wallet = wallet();
    assert_eq!(answered(handle_request(&wallet, Command::Connect)), r#"{"storage_notice":null}"#);
    assert_eq!(answered(handle_request(&wallet, Command::IsPpqReady)), "true");
    assert_eq!(answered(handle_request(&wallet, Command::PpqFundingInFlight)), "false");
    assert_eq!(answered(handle_request(&wallet, Command::CachedReceiveCode)), "\"L\"");
    let account = r#"{"api_key":"k","credit_id":"c"}"#;
    assert_eq!(answered(handle_request(&wallet, Command::PpqAccount)), account);
    assert_eq!(answered(handle_request(&wallet, Command::EnsurePpqAccount)), account);
    assert_eq!(answered(handle_request(&wallet, Command::RepairPpqAccount)), account);
}

#[test]
fn the_wallet_says_what_has_to_be_done() {
    let wallet = wallet();
    assert!(matches!(handle_request(&wallet, Command::Bootstrap), RequestStep::Bootstrap));
    assert!(matches!(handle_request(&wallet, Command::GetBalance), RequestStep::ReadBalance));
    assert!(matches!(
        handle_request(&wallet, Command::MarkPpqReady),
        RequestStep::Write(records)
            if matches!(records[..], [Record::PpqReady(true), Record::PpqFundingInFlight(false)])
    ));
    assert!(matches!(
        handle_request(&wallet, Command::BeginPpqFundingAttempt),
        RequestStep::Write(records) if matches!(records[..], [Record::PpqFundingInFlight(true)])
    ));
    let command = Command::CreateInvoice { amount_sats: 2, description: "d".to_owned() };
    assert!(matches!(
        handle_request(&wallet, command),
        RequestStep::MakeInvoice { amount_sats: 2, description } if description == "d"
    ));
    assert_eq!(wallet.create_invoice(2, "d").unwrap().amount.msats, 2000);
    assert!(wallet.create_invoice(2, &"d".repeat(640)).is_err());
    let command = Command::Pay { payment: "p".to_owned(), amount_sats: None };
    assert!(matches!(
        handle_request(&wallet, command),
        RequestStep::Pay(order) if order.payment == "p" && order.amount.is_none()
    ));
    assert!(matches!(
        handle_request(&wallet, Command::ListOperations { limit: 9 }),
        RequestStep::ListOperations { limit: 9 }
    ));
    assert!(matches!(
        handle_request(&wallet, Command::WatchPendingReceives),
        RequestStep::WatchReceives
    ));
    let fresh = fedimint::WalletRuntime::connect(
        Some("f".to_owned()),
        AppState {
            mnemonic: None,
            ppq_ready: None,
            ppq_account: None,
            receive_code: None,
            ppq_funding_in_flight: None,
        },
    );
    assert!(matches!(
        handle_request(&fresh, Command::EnsurePpqAccount),
        RequestStep::CreateAccount
    ));
    assert!(matches!(
        handle_request(&fresh, Command::RepairPpqAccount),
        RequestStep::CreateAccount
    ));
    assert_eq!(answered(handle_request(&fresh, Command::PpqAccount)), "null");
    assert_eq!(answered(handle_request(&fresh, Command::CachedReceiveCode)), "null");
}

#[test]
fn answers_carry_value_or_fault() {
    let response = answer_request(4, Ok(Outcome::Balance(Amount { msats: 7999 })));
    assert_eq!(response.id, 4);
    assert!(matches!(
        response.payload,
        ResponsePayload::Value { value } if value.to_text() == "7"
    ));
    let response = answer_request(5, Err("no".to_owned()));
    assert!(matches!(response.payload, ResponsePayload::Fault { message } if message == "no"));
    let response = post_failed(6, "closed");
    assert_eq!(response.id, 6);
    assert!(matches!(
        response.payload,
        ResponsePayload::Fault { message } if message == "Failed to post worker response: closed"
    ));
}

#[test]
fn outcomes_are_written_as_json() {
    assert_eq!(serialize_ok(&Outcome::Done).to_text(), "null");
    assert_eq!(serialize_ok(&Outcome::Flag(true)).to_text(), "true");
    assert_eq!(serialize_ok(&Outcome::Text("t".to_owned())).to_text(), "\"t\"");
    assert_eq!(
        serialize_ok(&Outcome::Invoice(InvoiceResponse {
            operation_id: "o".to_owned(),
            invoice: "i".to_owned(),
        }))
        .to_text(),
        r#"{"invoice":"i","operation_id":"o"}"#
    );
    let response = ConnectResponse { storage_notice: Some("n".to_owned()) };
    assert_eq!(
        serialize_ok(&Outcome::Connected(response)).to_text(),
        r#"{"storage_notice":"n"}"#
    );
}

#[test]
fn a_made_invoice_is_handed_on() {
    let made = fedimint::InvoiceResponse {
        operation_id: "op".to_owned(),
        invoice: "lnbc1".to_owned(),
    };
    assert!(matches!(
        invoice_created(made),
        Outcome::Invoice(response)
            if response.operation_id == "op" && response.invoice == "lnbc1"
    ));
}

#[test]
fn paid_invoices_are_reported() {
    let envelope = invoice_paid(Some(2), "i".to_owned());
    assert!(matches!(
        envelope.payload,
        WorkerEventPayload::OperationSettled {
            data: WireOperationEvent::PaymentReceived { amount_sats: Some(2), invoice: Some(invoice) },
        } if invoice == "i"
    ));
    let envelope =
        WorkerEventEnvelope::operation(WireOperationEvent::PaymentReceived {
            amount_sats: None,
            invoice: None,
        });
    assert!(matches!(
        envelope.payload,
        WorkerEventPayload::OperationSettled {
            data: WireOperationEvent::PaymentReceived { amount_sats: None, invoice: None },
        }
    ));
}
