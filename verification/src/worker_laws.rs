//! Laws of the wallet's requests: what each is carried out as, and what its answer says.
use vstd::prelude::*;

use crate::agent::ProposalView;
use crate::bootstrap;
use crate::chat::{confirm_leads_to, CardView, ConfirmStep};
use crate::fedimint;
use crate::fedimint::{with_records, Amount, AppState, ReceiveCode, Record};
use crate::json::{count_json, member, Json, JsonView};
use crate::ppq::PpqAccount;
use crate::text::optional_view;
use crate::wallet_runtime::{
    account_json, answer_request, client_closed, client_requested, client_valid, delivered,
    first_step, handle_request, invoice_created, invoice_paid, outcome_json, post_failed,
    public_event, receive_settled, request_leads_to, serialize_ok, wire_event, BootstrapEvent,
    ClientView, Command, ConnectResponse, Delivery, InvoiceResponse, OperationEvent, Outcome,
    RequestEnvelope, RequestStep, ResponseEnvelope, ResponsePayload, WalletRuntime,
    WireBootstrapEvent, WireOperationEvent, WorkerEventEnvelope, WorkerEventPayload,
};

verus! {

// ── Payments ────────────────────────────────────────────────────────────

/// A request to pay makes the wallet pay to where it says, and exactly the satoshis that it says,
/// which are a thousand times as many of the units that the wallet counts in. Without an amount
/// the wallet adds none.
pub proof fn law_payments_are_made_as_asked(
    state: AppState,
    notice: Option<Seq<char>>,
    payment: String,
    amount_sats: Option<u64>,
    step: RequestStep,
)
    requires
        request_leads_to(state, notice, Command::Pay { payment, amount_sats }, step),
    ensures
        step matches RequestStep::Pay(order) && order.payment@ == payment@ && match amount_sats {
            Some(sats) => order.amount matches Some(amount) && amount.msats == sats * 1000,
            None => order.amount is None,
        },
{
}

/// Two requests that ask for different amounts make the wallet pay different amounts, and the one
/// that asks for more pays more, by a thousand units for each satoshi.
pub proof fn law_asking_for_more_pays_more(
    state: AppState,
    notice: Option<Seq<char>>,
    payment: String,
    less: u64,
    more: u64,
    first: RequestStep,
    second: RequestStep,
)
    requires
        less <= more,
        request_leads_to(state, notice, Command::Pay { payment, amount_sats: Some(less) }, first),
        request_leads_to(state, notice, Command::Pay { payment, amount_sats: Some(more) }, second),
    ensures
        ({
            &&& first matches RequestStep::Pay(a)
            &&& second matches RequestStep::Pay(b)
            &&& a.amount matches Some(paid_less)
            &&& b.amount matches Some(paid_more)
            &&& paid_more.msats - paid_less.msats == (more - less) * 1000
        }),
{
}

/// What the user confirms is what the wallet pays: to the letter where it was proposed to go, and
/// the satoshis that were proposed.
pub proof fn law_confirmed_payments_are_paid(
    card: CardView,
    proposal: ProposalView,
    confirmed: ConfirmStep,
    state: AppState,
    notice: Option<Seq<char>>,
    payment: String,
    amount_sats: Option<u64>,
    step: RequestStep,
)
    requires
        card == (CardView { pending: Some(proposal), confirming: false, result: card.result }),
        confirm_leads_to(card, true, confirmed),
        confirmed matches ConfirmStep::Pay { payment: target, amount_sats: amount } ==> target
            == payment && amount == amount_sats,
        request_leads_to(state, notice, Command::Pay { payment, amount_sats }, step),
    ensures
        confirmed is Pay,
        step matches RequestStep::Pay(order) && order.payment@ == proposal.payment
            && match proposal.amount_sats {
            Some(sats) => order.amount matches Some(amount) && amount.msats == sats * 1000,
            None => order.amount is None,
        },
{
}

// ── Requests ────────────────────────────────────────────────────────────

/// An invoice is made over what was asked for, with the description that was given, and as many
/// operations are listed as were asked for.
pub proof fn law_requests_keep_their_arguments(
    state: AppState,
    notice: Option<Seq<char>>,
    command: Command,
    step: RequestStep,
)
    requires
        request_leads_to(state, notice, command, step),
    ensures
        command matches Command::CreateInvoice { amount_sats, description } ==> (
        step matches RequestStep::MakeInvoice { amount_sats: sats, description: text } && sats
            == amount_sats && text@ == description@),
        command matches Command::ListOperations { limit } ==> step == (
        RequestStep::ListOperations { limit }),
        command is GetBalance <==> step is ReadBalance,
        command is Bootstrap <==> step is Bootstrap,
        command is WatchPendingReceives <==> step is WatchReceives,
        command is CreateInvoice <==> step is MakeInvoice,
        command is ListOperations <==> step is ListOperations,
        command is Pay <==> step is Pay,
        step is Write <==> command is MarkPpqReady || command is BeginPpqFundingAttempt,
        command is Connect ==> (step matches RequestStep::Answer(Outcome::Connected(response))
            && optional_view(response.storage_notice) == notice),
{
}

/// What is written is what is answered: a mark, an account or a receive code that was written last
/// is the answer to the request for it.
pub proof fn law_requests_read_what_was_written(
    state: AppState,
    notice: Option<Seq<char>>,
    ready: bool,
    in_flight: bool,
    account: PpqAccount,
    code: ReceiveCode,
    step: RequestStep,
)
    ensures
        request_leads_to(
            with_records(state, seq![Record::PpqReady(ready)]),
            notice,
            Command::IsPpqReady,
            step,
        ) ==> step == RequestStep::Answer(Outcome::Flag(ready)),
        request_leads_to(
            with_records(state, seq![Record::PpqFundingInFlight(in_flight)]),
            notice,
            Command::PpqFundingInFlight,
            step,
        ) ==> step == RequestStep::Answer(Outcome::Flag(in_flight)),
        request_leads_to(
            with_records(state, seq![Record::PpqAccount(account)]),
            notice,
            Command::PpqAccount,
            step,
        ) ==> step == RequestStep::Answer(Outcome::OptionalAccount(Some(account))),
        request_leads_to(
            with_records(state, seq![Record::PpqAccount(account)]),
            notice,
            Command::EnsurePpqAccount,
            step,
        ) ==> step == RequestStep::Answer(Outcome::Account(account)),
        request_leads_to(
            with_records(state, seq![Record::PpqAccount(account)]),
            notice,
            Command::RepairPpqAccount,
            step,
        ) ==> step == RequestStep::Answer(Outcome::Account(account)),
        request_leads_to(
            with_records(state, seq![Record::ReceiveCode(code)]),
            notice,
            Command::CachedReceiveCode,
            step,
        ) ==> step == RequestStep::Answer(Outcome::OptionalText(Some(code.lnurl))),
{
    reveal_with_fuel(with_records, 2);
    assert(seq![Record::PpqReady(ready)].drop_last() =~= Seq::<Record>::empty());
    assert(seq![Record::PpqFundingInFlight(in_flight)].drop_last() =~= Seq::<Record>::empty());
    assert(seq![Record::PpqAccount(account)].drop_last() =~= Seq::<Record>::empty());
    assert(seq![Record::ReceiveCode(code)].drop_last() =~= Seq::<Record>::empty());
}

/// What was never written is answered as not there: no mark is set, there is no account, no receive
/// code, and an account has to be created.
pub proof fn law_nothing_is_made_up(
    state: AppState,
    notice: Option<Seq<char>>,
    command: Command,
    step: RequestStep,
)
    requires
        request_leads_to(state, notice, command, step),
    ensures
        command is IsPpqReady && state.ppq_ready is None ==> step == RequestStep::Answer(
            Outcome::Flag(false),
        ),
        command is PpqFundingInFlight && state.ppq_funding_in_flight is None ==> step
            == RequestStep::Answer(Outcome::Flag(false)),
        command is PpqAccount && state.ppq_account is None ==> step == RequestStep::Answer(
            Outcome::OptionalAccount(None),
        ),
        command is CachedReceiveCode && state.receive_code is None ==> step == RequestStep::Answer(
            Outcome::OptionalText(None),
        ),
        command is EnsurePpqAccount || command is RepairPpqAccount ==> (step is CreateAccount
            <==> state.ppq_account is None),
{
}

/// After a request to mark the model service as funded was written, the mark is set and no payment
/// is begun; after a request to begin a payment, one is begun. Neither changes anything else.
pub proof fn law_marks_are_read_back(
    state: AppState,
    notice: Option<Seq<char>>,
    records: Vec<Record>,
    ready: RequestStep,
    in_flight: RequestStep,
    marking: bool,
)
    requires
        request_leads_to(
            state,
            notice,
            if marking {
                Command::MarkPpqReady
            } else {
                Command::BeginPpqFundingAttempt
            },
            RequestStep::Write(records),
        ),
        request_leads_to(with_records(state, records@), notice, Command::IsPpqReady, ready),
        request_leads_to(
            with_records(state, records@),
            notice,
            Command::PpqFundingInFlight,
            in_flight,
        ),
    ensures
        marking ==> ready == RequestStep::Answer(Outcome::Flag(true)),
        in_flight == RequestStep::Answer(Outcome::Flag(!marking)),
        with_records(state, records@).ppq_account == state.ppq_account,
        with_records(state, records@).receive_code == state.receive_code,
        with_records(state, records@).mnemonic == state.mnemonic,
        !marking ==> with_records(state, records@).ppq_ready == state.ppq_ready,
{
    reveal_with_fuel(with_records, 3);
    let all = records@;
    assert(all.drop_last().len() < 1 ==> all.drop_last() =~= Seq::<Record>::empty());
    if marking {
        assert(all.drop_last().drop_last() =~= Seq::<Record>::empty());
    }
}

/// Nothing is asked of a wallet that is not connected, and a wallet that is connected is not
/// connected again unless that is what is asked for.
pub proof fn law_wallets_are_connected_first(connected: bool, command: Command)
    ensures
        first_step(connected, command) is Run ==> connected,
        connected && !(command is Connect) ==> first_step(connected, command) is Run,
        command is Connect ==> first_step(connected, command) is Connect,
{
}

// ── Answers ─────────────────────────────────────────────────────────────

/// The answer to a request for the balance is a whole number of satoshis: the most that the balance
/// holds.
pub proof fn law_balances_are_answered_in_satoshis(balance: Amount, sats: u64)
    requires
        sats * 1000 <= balance.msats < sats * 1000 + 1000,
    ensures
        outcome_json(Outcome::Balance(balance)) == count_json(sats),
{
}

/// A balance of whole satoshis reads the same in an answer and in an event.
pub proof fn law_balances_agree(balance: Amount)
    ensures
        ({
            let event = public_event(wire_event(bootstrap::BootstrapEvent::Balance(balance)));
            &&& event matches BootstrapEvent::Balance(sats)
            &&& outcome_json(Outcome::Balance(balance)) == count_json(sats)
        }),
{
}

/// What the wallet did is answered in full: flags, texts, accounts and invoices are what the answer
/// holds, and what is not there is null.
pub proof fn law_answers_say_what_was_done(
    flag: bool,
    text: String,
    account: PpqAccount,
    invoice: InvoiceResponse,
    notice: ConnectResponse,
)
    ensures
        outcome_json(Outcome::Done) is Null,
        outcome_json(Outcome::Flag(flag)) == JsonView::Bool(flag),
        outcome_json(Outcome::Text(text)) == JsonView::Text(text@),
        outcome_json(Outcome::OptionalText(Some(text))) == JsonView::Text(text@),
        outcome_json(Outcome::OptionalText(None)) is Null,
        member(account_json(account), "credit_id"@) == Some(JsonView::Text(account.credit_id@)),
        member(account_json(account), "api_key"@) == Some(JsonView::Text(account.api_key@)),
        outcome_json(Outcome::Account(account)) == account_json(account),
        outcome_json(Outcome::OptionalAccount(Some(account))) == account_json(account),
        outcome_json(Outcome::OptionalAccount(None)) is Null,
        member(outcome_json(Outcome::Invoice(invoice)), "operation_id"@) == Some(
            JsonView::Text(invoice.operation_id@),
        ),
        member(outcome_json(Outcome::Invoice(invoice)), "invoice"@) == Some(
            JsonView::Text(invoice.invoice@),
        ),
        member(outcome_json(Outcome::Connected(notice)), "storage_notice"@)
            == match notice.storage_notice {
            Some(text) => Some(JsonView::Text(text@)),
            None => Some(JsonView::Null),
        },
{
    reveal_strlit("credit_id");
    reveal_strlit("api_key");
    reveal_strlit("operation_id");
    reveal_strlit("invoice");
    assert("credit_id"@.len() == 9);
    assert("api_key"@.len() == 7);
    assert("operation_id"@.len() == 12);
    assert("invoice"@.len() == 7);
}

/// A request that is answered is handed what the answer says: its value where it has one, and its
/// message where it failed.
pub proof fn law_answers_are_handed_on<S>(
    client: ClientView<S>,
    sender: S,
    answer: ResponseEnvelope,
    event: Option<WorkerEventEnvelope>,
)
    requires
        client_valid(client),
        client.next_id < u64::MAX,
        answer.id == client.next_id,
    ensures
        delivered(client_requested(client, sender), Some(answer), event) == (Delivery::Answer {
            sender,
            result: match answer.payload {
                ResponsePayload::Value { value } => Ok(value),
                ResponsePayload::Fault { message } => Err(message),
            },
        }),
        client_requested(client, sender).next_id == client.next_id + 1,
        client_requested(client, sender).bootstrap_listening == client.bootstrap_listening,
        client_requested(client, sender).operation_listening == client.operation_listening,
        client_valid(client_requested(client, sender)),
        client_valid(client_closed(client_requested(client, sender), answer.id)),
        client_closed(client, answer.id).next_id == client.next_id,
{
    let after = client_requested(client, sender);
    assert forall|id: u64| #[trigger] after.pending.contains_key(id) implies id < after.next_id by {
        assert(id != client.next_id ==> client.pending.contains_key(id));
    }
}

/// An event reaches whoever listens for it as it was sent, and nobody else.
pub proof fn law_events_reach_who_listens<S>(
    client: ClientView<S>,
    data: WireBootstrapEvent,
    paid: WireOperationEvent,
    event: WorkerEventEnvelope,
)
    ensures
        event.payload == (WorkerEventPayload::Bootstrap { data }) ==> delivered(
            client,
            None,
            Some(event),
        ) == if client.bootstrap_listening {
            Delivery::<S>::Bootstrap(
                match data {
                    WireBootstrapEvent::Note { note } => BootstrapEvent::Note(note),
                    WireBootstrapEvent::ReceiveCode { code } => BootstrapEvent::ReceiveCode(code),
                    WireBootstrapEvent::Balance { sats } => BootstrapEvent::Balance(sats),
                },
            )
        } else {
            Delivery::Nothing
        },
        event.payload == (WorkerEventPayload::OperationSettled { data: paid }) ==> delivered(
            client,
            None,
            Some(event),
        ) == if client.operation_listening {
            Delivery::<S>::Operation(
                match paid {
                    WireOperationEvent::PaymentReceived { amount_sats, invoice } => {
                        OperationEvent::PaymentReceived { amount_sats, invoice }
                    },
                },
            )
        } else {
            Delivery::Nothing
        },
        delivered(client, None, None) == Delivery::<S>::Nothing,
{
}

// ── The functions themselves ────────────────────────────────────────────

/// A wallet that is asked to pay pays to where it is asked to, and the satoshis that it is asked
/// to.
pub proof fn law_handled_payments_are_as_asked(
    wallet: fedimint::WalletRuntime,
    payment: String,
    amount_sats: Option<u64>,
    step: RequestStep,
)
    requires
        call_ensures(handle_request, (&wallet, Command::Pay { payment, amount_sats }), step),
    ensures
        step matches RequestStep::Pay(order) && order.payment@ == payment@ && match amount_sats {
            Some(sats) => order.amount matches Some(amount) && amount.msats == sats * 1000,
            None => order.amount is None,
        },
{
}

/// A wallet that is asked for an invoice makes one over the satoshis that it is asked for, with the
/// description that it is given.
pub proof fn law_handled_invoices_are_as_asked(
    wallet: fedimint::WalletRuntime,
    amount_sats: u64,
    description: String,
    text: &str,
    step: RequestStep,
    order: Result<fedimint::InvoiceOrder, String>,
)
    requires
        call_ensures(
            handle_request,
            (&wallet, Command::CreateInvoice { amount_sats, description }),
            step,
        ),
        step matches RequestStep::MakeInvoice { description: kept, .. } ==> kept@ == text@,
        step matches RequestStep::MakeInvoice { amount_sats: sats, .. } ==> call_ensures(
            fedimint::WalletRuntime::create_invoice,
            (&wallet, sats, text),
            order,
        ),
    ensures
        step is MakeInvoice,
        order matches Ok(made) ==> made.amount.msats == amount_sats * 1000 && made.description@
            == description@,
        order is Ok <==> vstd::utf8::encode_utf8(description@).len() <= 639,
{
}

/// The answer to a request for the balance is the most whole satoshis that the balance holds, under
/// the number of the request.
pub proof fn law_answered_balances_are_whole_satoshis(
    id: u64,
    balance: Amount,
    sats: u64,
    response: ResponseEnvelope,
    json: Json,
)
    requires
        sats * 1000 <= balance.msats < sats * 1000 + 1000,
        call_ensures(answer_request, (id, Ok::<Outcome, String>(Outcome::Balance(balance))), response),
        call_ensures(serialize_ok, (&Outcome::Balance(balance),), json),
    ensures
        response.id == id,
        response.payload matches ResponsePayload::Value { value } && value@ == count_json(sats),
        json@ == count_json(sats),
{
}

/// A request that failed is answered with its fault, to the letter, under its number.
pub proof fn law_failed_requests_are_answered(
    id: u64,
    message: String,
    fault: &str,
    response: ResponseEnvelope,
    unsent: ResponseEnvelope,
)
    requires
        call_ensures(answer_request, (id, Err::<Outcome, String>(message)), response),
        call_ensures(post_failed, (id, fault), unsent),
    ensures
        response.id == id,
        response.payload == (ResponsePayload::Fault { message }),
        unsent.id == id,
        unsent.payload matches ResponsePayload::Fault { message: told } && fault@.is_suffix_of(
            told@,
        ),
{
    if let ResponsePayload::Fault { message: told } = unsent.payload {
        assert(told@.subrange(told@.len() - fault@.len(), told@.len() as int) =~= fault@);
    }
}

/// A payment that came in is reported with its satoshis and with the invoice that it paid.
pub proof fn law_incoming_payments_are_reported(
    amount_sats: Option<u64>,
    invoice: String,
    paid: WorkerEventEnvelope,
    settled: WorkerEventEnvelope,
)
    requires
        call_ensures(invoice_paid, (amount_sats, invoice), paid),
        call_ensures(receive_settled, (amount_sats,), settled),
    ensures
        paid.payload == (WorkerEventPayload::OperationSettled {
            data: WireOperationEvent::PaymentReceived { amount_sats, invoice: Some(invoice) },
        }),
        settled.payload == (WorkerEventPayload::OperationSettled {
            data: WireOperationEvent::PaymentReceived { amount_sats, invoice: None },
        }),
{
}

/// An invoice that was made is answered as it was made.
pub proof fn law_made_invoices_are_answered(made: fedimint::InvoiceResponse, outcome: Outcome)
    requires
        call_ensures(invoice_created, (made,), outcome),
    ensures
        outcome matches Outcome::Invoice(told) && told.invoice == made.invoice && told.operation_id
            == made.operation_id,
{
}

/// Satoshis turn into a thousand times as many units and back into as many satoshis, and an amount
/// that is no whole number of satoshis is rounded down.
pub proof fn law_satoshis_turn_into_units_and_back(
    sats: u64,
    amount: Amount,
    back: u64,
    other: Amount,
    whole: u64,
)
    requires
        call_ensures(Amount::from_sats, (sats,), amount),
        call_ensures(Amount::sats_round_down, (&amount,), back),
        call_ensures(Amount::sats_round_down, (&other,), whole),
    ensures
        amount.msats == sats * 1000,
        back == sats,
        whole * 1000 <= other.msats < whole * 1000 + 1000,
{
}

/// The page asks the wallet for what it is told to: the payment, the invoice and the number of
/// operations, as they are.
pub proof fn law_the_page_asks_as_told<S>(
    page: &mut WalletRuntime<S>,
    payment: &str,
    amount_sats: Option<u64>,
    sats: u64,
    limit: usize,
    sender: S,
    paying: RequestEnvelope,
    invoicing: RequestEnvelope,
    listing: RequestEnvelope,
)
    ensures
        call_ensures(WalletRuntime::<S>::pay, (page, payment, amount_sats, sender), paying) ==> (
        paying.command matches Command::Pay { payment: target, amount_sats: amount } && target@
            == payment@ && amount == amount_sats),
        call_ensures(WalletRuntime::<S>::create_invoice, (page, sats, payment, sender), invoicing)
            ==> (invoicing.command matches Command::CreateInvoice {
            amount_sats: amount,
            description,
        } && amount == sats && description@ == payment@),
        call_ensures(WalletRuntime::<S>::list_operations, (page, limit, sender), listing)
            ==> listing.command == (Command::ListOperations { limit }),
{
}

/// Each way to ask the wallet asks for what it is named after, under the next number, and nothing
/// of what waits already is touched.
pub proof fn law_the_page_asks_for_what_it_says<S>(
    page: &mut WalletRuntime<S>,
    sender: S,
    request: RequestEnvelope,
)
    ensures
        call_ensures(WalletRuntime::<S>::get_balance, (page, sender), request)
            ==> request.command is GetBalance && request.id == old(page).client().next_id,
        call_ensures(WalletRuntime::<S>::mark_ppq_ready, (page, sender), request)
            ==> request.command is MarkPpqReady && request.id == old(page).client().next_id,
        call_ensures(WalletRuntime::<S>::is_ppq_ready, (page, sender), request)
            ==> request.command is IsPpqReady && request.id == old(page).client().next_id,
        call_ensures(WalletRuntime::<S>::cached_receive_code, (page, sender), request)
            ==> request.command is CachedReceiveCode && request.id == old(page).client().next_id,
        call_ensures(WalletRuntime::<S>::ppq_account, (page, sender), request)
            ==> request.command is PpqAccount && request.id == old(page).client().next_id,
        call_ensures(WalletRuntime::<S>::ensure_ppq_account, (page, sender), request)
            ==> request.command is EnsurePpqAccount && request.id == old(page).client().next_id,
        call_ensures(WalletRuntime::<S>::repair_ppq_account, (page, sender), request)
            ==> request.command is RepairPpqAccount && request.id == old(page).client().next_id,
        call_ensures(WalletRuntime::<S>::ppq_funding_in_flight, (page, sender), request)
            ==> request.command is PpqFundingInFlight && request.id == old(page).client().next_id,
        call_ensures(WalletRuntime::<S>::begin_ppq_funding_attempt, (page, sender), request)
            ==> request.command is BeginPpqFundingAttempt && request.id
            == old(page).client().next_id,
        call_ensures(WalletRuntime::<S>::watch_pending_receives, (page, sender), request)
            ==> request.command is WatchPendingReceives && request.id == old(page).client().next_id,
        call_ensures(WalletRuntime::<S>::bootstrap, (page, sender), request)
            ==> request.command is Bootstrap && request.id == old(page).client().next_id
            && final(page).client().bootstrap_listening,
{
}

/// An answer that comes in is handed to the one that asked, as it is, and nobody waits for it any
/// more; every other request goes on waiting.
pub proof fn law_received_answers_are_handed_on<S>(
    page: &mut WalletRuntime<S>,
    answer: ResponseEnvelope,
    event: Option<WorkerEventEnvelope>,
    delivery: Delivery<S>,
    other: u64,
)
    requires
        call_ensures(WalletRuntime::<S>::receive, (page, Some(answer), event), delivery),
    ensures
        old(page).client().pending.contains_key(answer.id) ==> delivery == (Delivery::Answer {
            sender: old(page).client().pending[answer.id],
            result: match answer.payload {
                ResponsePayload::Value { value } => Ok(value),
                ResponsePayload::Fault { message } => Err(message),
            },
        }),
        !old(page).client().pending.contains_key(answer.id) ==> delivery is Nothing,
        !final(page).client().pending.contains_key(answer.id),
        other != answer.id ==> final(page).client().pending.contains_key(other)
            == old(page).client().pending.contains_key(other),
        final(page).client().next_id == old(page).client().next_id,
{
}

/// Whoever says to listen is listened for from then on, and whoever says not to is not; nothing
/// else changes.
pub proof fn law_listening_is_switched<S>(page: &mut WalletRuntime<S>, listening: bool, done: ())
    ensures
        call_ensures(WalletRuntime::<S>::set_operation_listener, (page, listening), done)
            ==> final(page).client() == (ClientView {
            operation_listening: listening,
            ..old(page).client()
        }),
        call_ensures(WalletRuntime::<S>::bootstrap_ended, (page,), done) ==> final(page).client()
            == (ClientView { bootstrap_listening: false, ..old(page).client() }),
{
}

/// A request that is given up waits no longer, and every other one goes on waiting.
pub proof fn law_abandoned_requests_wait_no_longer<S>(
    page: &mut WalletRuntime<S>,
    id: u64,
    other: u64,
    done: (),
)
    requires
        call_ensures(WalletRuntime::<S>::abandon, (page, id), done),
    ensures
        !final(page).client().pending.contains_key(id),
        other != id ==> final(page).client().pending.contains_key(other)
            == old(page).client().pending.contains_key(other),
        final(page).client().next_id == old(page).client().next_id,
{
}

} // verus!
