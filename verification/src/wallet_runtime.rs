//! The wallet as the page sees it: requests that go to the worker, the answers and events that come
//! back, and what the worker does with a request.
use std::collections::HashMap;
use vstd::prelude::*;

use crate::bootstrap;
use crate::fedimint;
use crate::fedimint::{account_step, AccountStep, Amount, AppState, PayOrder, Record};
use crate::json::{count_json, optional_text_json, Fields, Json, JsonView};
use crate::ppq::PpqAccount;
use crate::text::optional_view;

verus! {

broadcast use vstd::std_specs::hash::group_hash_axioms;

// ── Messages ────────────────────────────────────────────────────────────

/// What the wallet can be asked to do.
#[derive(Debug)]
pub enum Command {
    Connect,
    Bootstrap,
    MarkPpqReady,
    IsPpqReady,
    GetBalance,
    CachedReceiveCode,
    PpqAccount,
    EnsurePpqAccount,
    PpqFundingInFlight,
    BeginPpqFundingAttempt,
    RepairPpqAccount,
    CreateInvoice { amount_sats: u64, description: String },
    Pay { payment: String, amount_sats: Option<u64> },
    ListOperations { limit: usize },
    WatchPendingReceives,
}

/// A request to the worker.
#[derive(Debug)]
pub struct RequestEnvelope {
    pub id: u64,
    pub command: Command,
}

/// The answer to `Command::Connect`.
#[derive(Debug)]
pub struct ConnectResponse {
    pub storage_notice: Option<String>,
}

/// An answer of the worker.
#[derive(Debug)]
pub struct ResponseEnvelope {
    pub id: u64,
    pub payload: ResponsePayload,
}

/// What an answer says.
#[derive(Debug)]
pub enum ResponsePayload {
    Value { value: Json },
    Fault { message: String },
}

/// Something that the worker reports unasked.
#[derive(Debug)]
pub struct WorkerEventEnvelope {
    pub payload: WorkerEventPayload,
}

/// What the worker reports.
#[derive(Debug)]
pub enum WorkerEventPayload {
    Bootstrap { data: WireBootstrapEvent },
    OperationSettled { data: WireOperationEvent },
}

/// What the wallet reports while it is brought up, between worker and page.
#[derive(Clone, Debug)]
pub enum WireBootstrapEvent {
    Note { note: String },
    ReceiveCode { code: String },
    Balance { sats: u64 },
}

/// What the wallet reports of payments, between worker and page.
#[derive(Clone, Debug)]
pub enum WireOperationEvent {
    PaymentReceived { amount_sats: Option<u64>, invoice: Option<String> },
}

/// What the wallet reports while it is brought up, with balances in satoshis.
#[derive(Clone, Debug)]
pub enum BootstrapEvent {
    Note(String),
    ReceiveCode(String),
    Balance(u64),
}

/// What the wallet reports of payments.
#[derive(Clone, Debug)]
pub enum OperationEvent {
    PaymentReceived { amount_sats: Option<u64>, invoice: Option<String> },
}

/// An invoice that was made.
#[derive(Clone, Debug)]
pub struct InvoiceResponse {
    pub operation_id: String,
    pub invoice: String,
}

impl WorkerEventEnvelope {
    /// The report of an event while the wallet is brought up.
    pub fn bootstrap(event: WireBootstrapEvent) -> (envelope: WorkerEventEnvelope)
        ensures
            envelope.payload == (WorkerEventPayload::Bootstrap { data: event }),
    {
        WorkerEventEnvelope { payload: WorkerEventPayload::Bootstrap { data: event } }
    }

    /// The report of a payment.
    pub fn operation(event: WireOperationEvent) -> (envelope: WorkerEventEnvelope)
        ensures
            envelope.payload == (WorkerEventPayload::OperationSettled { data: event }),
    {
        WorkerEventEnvelope { payload: WorkerEventPayload::OperationSettled { data: event } }
    }
}

/// An event of the worker's side as it goes to the page: a balance in whole satoshis.
pub open spec fn wire_event(event: bootstrap::BootstrapEvent) -> WireBootstrapEvent {
    match event {
        bootstrap::BootstrapEvent::Note(note) => WireBootstrapEvent::Note { note },
        bootstrap::BootstrapEvent::ReceiveCode(code) => WireBootstrapEvent::ReceiveCode { code },
        bootstrap::BootstrapEvent::Balance(balance) => WireBootstrapEvent::Balance {
            sats: (balance.msats / 1000) as u64,
        },
    }
}

/// An event as the page sees it.
pub open spec fn public_event(event: WireBootstrapEvent) -> BootstrapEvent {
    match event {
        WireBootstrapEvent::Note { note } => BootstrapEvent::Note(note),
        WireBootstrapEvent::ReceiveCode { code } => BootstrapEvent::ReceiveCode(code),
        WireBootstrapEvent::Balance { sats } => BootstrapEvent::Balance(sats),
    }
}

/// A payment as the page sees it.
pub open spec fn public_operation(event: WireOperationEvent) -> OperationEvent {
    match event {
        WireOperationEvent::PaymentReceived { amount_sats, invoice } => {
            OperationEvent::PaymentReceived { amount_sats, invoice }
        },
    }
}

impl WireBootstrapEvent {
    /// The event as it goes to the page.
    pub fn from_core(event: bootstrap::BootstrapEvent) -> (wire: WireBootstrapEvent)
        ensures
            wire == wire_event(event),
    {
        match event {
            bootstrap::BootstrapEvent::Note(note) => WireBootstrapEvent::Note { note },
            bootstrap::BootstrapEvent::ReceiveCode(code) => WireBootstrapEvent::ReceiveCode { code },
            bootstrap::BootstrapEvent::Balance(balance) => WireBootstrapEvent::Balance {
                sats: balance.sats_round_down(),
            },
        }
    }

    /// The event as the page sees it.
    pub fn into_public(self) -> (event: BootstrapEvent)
        ensures
            event == public_event(self),
    {
        match self {
            WireBootstrapEvent::Note { note } => BootstrapEvent::Note(note),
            WireBootstrapEvent::ReceiveCode { code } => BootstrapEvent::ReceiveCode(code),
            WireBootstrapEvent::Balance { sats } => BootstrapEvent::Balance(sats),
        }
    }
}

impl WireOperationEvent {
    /// The payment as the page sees it.
    pub fn into_public(self) -> (event: OperationEvent)
        ensures
            event == public_operation(self),
    {
        match self {
            WireOperationEvent::PaymentReceived { amount_sats, invoice } => {
                OperationEvent::PaymentReceived { amount_sats, invoice }
            },
        }
    }
}

/// An event reaches the page as it left the wallet, but for a balance, of which the page is told
/// the whole satoshis.
pub proof fn law_events_reach_the_page(event: bootstrap::BootstrapEvent)
    ensures
        match event {
            bootstrap::BootstrapEvent::Note(note) => public_event(wire_event(event))
                == BootstrapEvent::Note(note),
            bootstrap::BootstrapEvent::ReceiveCode(code) => public_event(wire_event(event))
                == BootstrapEvent::ReceiveCode(code),
            bootstrap::BootstrapEvent::Balance(balance) => {
                &&& public_event(wire_event(event)) matches BootstrapEvent::Balance(sats)
                &&& sats * 1000 <= balance.msats < sats * 1000 + 1000
            },
        },
{
}

// ── The page's side ─────────────────────────────────────────────────────

/// The requests of the page that wait for an answer. With each goes what its answer is handed to.
pub struct WorkerClient<S> {
    next_id: u64,
    pending: HashMap<u64, S>,
    bootstrap_listening: bool,
    operation_listening: bool,
}

/// What a `WorkerClient` knows.
pub struct ClientView<S> {
    pub next_id: u64,
    pub pending: Map<u64, S>,
    pub bootstrap_listening: bool,
    pub operation_listening: bool,
}

impl<S> View for WorkerClient<S> {
    type V = ClientView<S>;

    closed spec fn view(&self) -> ClientView<S> {
        ClientView {
            next_id: self.next_id,
            pending: self.pending@,
            bootstrap_listening: self.bootstrap_listening,
            operation_listening: self.operation_listening,
        }
    }
}

/// Whether every waiting request has a number that was given out.
pub open spec fn client_valid<S>(client: ClientView<S>) -> bool {
    forall|id: u64| #[trigger] client.pending.contains_key(id) ==> id < client.next_id
}

/// The client after one more request.
pub open spec fn client_requested<S>(client: ClientView<S>, sender: S) -> ClientView<S> {
    ClientView {
        next_id: (client.next_id + 1) as u64,
        pending: client.pending.insert(client.next_id, sender),
        ..client
    }
}

/// The client after a request was answered or given up.
pub open spec fn client_closed<S>(client: ClientView<S>, id: u64) -> ClientView<S> {
    ClientView { pending: client.pending.remove(id), ..client }
}

/// What comes of a message of the worker.
pub enum Delivery<S> {
    /// An answer is handed to what waits for it.
    Answer { sender: S, result: Result<Json, String> },
    /// An event goes to whoever follows the wallet being brought up.
    Bootstrap(BootstrapEvent),
    /// A payment goes to whoever follows payments.
    Operation(OperationEvent),
    /// Nobody waits for it.
    Nothing,
}

/// What an answer hands on.
pub open spec fn answered(payload: ResponsePayload) -> Result<Json, String> {
    match payload {
        ResponsePayload::Value { value } => Ok(value),
        ResponsePayload::Fault { message } => Err(message),
    }
}

/// What comes of a message: an answer goes to its request, an event to whoever listens.
pub open spec fn delivered<S>(
    client: ClientView<S>,
    response: Option<ResponseEnvelope>,
    event: Option<WorkerEventEnvelope>,
) -> Delivery<S> {
    match (response, event) {
        (Some(response), _) => if client.pending.contains_key(response.id) {
            Delivery::Answer {
                sender: client.pending[response.id],
                result: answered(response.payload),
            }
        } else {
            Delivery::Nothing
        },
        (None, Some(event)) => match event.payload {
            WorkerEventPayload::Bootstrap { data } => if client.bootstrap_listening {
                Delivery::Bootstrap(public_event(data))
            } else {
                Delivery::Nothing
            },
            WorkerEventPayload::OperationSettled { data } => if client.operation_listening {
                Delivery::Operation(public_operation(data))
            } else {
                Delivery::Nothing
            },
        },
        (None, None) => Delivery::Nothing,
    }
}

impl<S> WorkerClient<S> {
    /// A client that asked for nothing yet.
    pub fn new() -> (client: WorkerClient<S>)
        ensures
            client@ == (ClientView {
                next_id: 1,
                pending: Map::<u64, S>::empty(),
                bootstrap_listening: false,
                operation_listening: false,
            }),
            client_valid(client@),
    {
        WorkerClient {
            next_id: 1,
            pending: HashMap::new(),
            bootstrap_listening: false,
            operation_listening: false,
        }
    }

    /// Whether there is a number left for one more request.
    pub fn can_request(&self) -> (r: bool)
        ensures
            r == (self@.next_id < u64::MAX),
    {
        self.next_id < u64::MAX
    }

    /// Says whether events of bringing the wallet up are followed.
    pub fn set_bootstrap_listener(&mut self, listening: bool)
        ensures
            final(self)@ == (ClientView { bootstrap_listening: listening, ..old(self)@ }),
    {
        self.bootstrap_listening = listening;
    }

    /// Says whether payments are followed.
    pub fn set_operation_listener(&mut self, listening: bool)
        ensures
            final(self)@ == (ClientView { operation_listening: listening, ..old(self)@ }),
    {
        self.operation_listening = listening;
    }

    /// Gives a request its number, and remembers what its answer is handed to.
    pub fn request(&mut self, command: Command, sender: S) -> (request: RequestEnvelope)
        requires
            client_valid(old(self)@),
            old(self)@.next_id < u64::MAX,
        ensures
            request == (RequestEnvelope { id: old(self)@.next_id, command }),
            final(self)@ == client_requested(old(self)@, sender),
            client_valid(final(self)@),
    {
        let id = self.next_id;
        self.next_id = id + 1;
        self.pending.insert(id, sender);
        proof {
            assert forall|other: u64| #[trigger] self@.pending.contains_key(other) implies other
                < self@.next_id by {
                assert(other != id ==> old(self)@.pending.contains_key(other));
            }
        }
        RequestEnvelope { id, command }
    }

    /// Gives up a request that could not be sent.
    pub fn abandon(&mut self, id: u64)
        requires
            client_valid(old(self)@),
        ensures
            final(self)@ == client_closed(old(self)@, id),
            client_valid(final(self)@),
    {
        self.pending.remove(&id);
        proof {
            assert forall|other: u64| #[trigger] self@.pending.contains_key(other) implies other
                < self@.next_id by {
                assert(old(self)@.pending.contains_key(other));
            }
        }
    }

    /// Takes a message of the worker in, as an answer where it can be read as one, and otherwise
    /// as an event.
    pub fn receive(
        &mut self,
        response: Option<ResponseEnvelope>,
        event: Option<WorkerEventEnvelope>,
    ) -> (delivery: Delivery<S>)
        requires
            client_valid(old(self)@),
        ensures
            delivery == delivered(old(self)@, response, event),
            final(self)@ == match response {
                Some(response) => client_closed(old(self)@, response.id),
                None => old(self)@,
            },
            client_valid(final(self)@),
    {
        match response {
            Some(response) => {
                let sender = self.pending.remove(&response.id);
                proof {
                    assert forall|other: u64| #[trigger]
                        self@.pending.contains_key(other) implies other < self@.next_id by {
                        assert(old(self)@.pending.contains_key(other));
                    }
                }
                let result = match response.payload {
                    ResponsePayload::Value { value } => Ok(value),
                    ResponsePayload::Fault { message } => Err(message),
                };
                match sender {
                    Some(sender) => Delivery::Answer { sender, result },
                    None => Delivery::Nothing,
                }
            },
            None => match event {
                Some(event) => match event.payload {
                    WorkerEventPayload::Bootstrap { data } => if self.bootstrap_listening {
                        Delivery::Bootstrap(data.into_public())
                    } else {
                        Delivery::Nothing
                    },
                    WorkerEventPayload::OperationSettled { data } => if self.operation_listening {
                        Delivery::Operation(data.into_public())
                    } else {
                        Delivery::Nothing
                    },
                },
                None => Delivery::Nothing,
            },
        }
    }
}

/// A new request has a number that no waiting request has.
pub proof fn law_request_numbers_differ<S>(client: ClientView<S>, id: u64)
    requires
        client_valid(client),
        client.pending.contains_key(id),
    ensures
        id != client.next_id,
{
}

/// An answer reaches exactly the request it answers: the sender of that request gets it, a second
/// answer finds nobody, and every other request goes on waiting.
pub proof fn law_answers_reach_their_request<S>(
    client: ClientView<S>,
    sender: S,
    answer: ResponseEnvelope,
    again: ResponseEnvelope,
    other: u64,
)
    requires
        client_valid(client),
        client.next_id < u64::MAX,
        answer.id == client.next_id,
        again.id == client.next_id,
        other != client.next_id,
    ensures
        delivered(client_requested(client, sender), Some(answer), None) == (Delivery::Answer {
            sender,
            result: answered(answer.payload),
        }),
        delivered(
            client_closed(client_requested(client, sender), answer.id),
            Some(again),
            None,
        ) == Delivery::<S>::Nothing,
        client_closed(client_requested(client, sender), answer.id).pending.contains_key(other)
            == client.pending.contains_key(other),
        client.pending.contains_key(other) ==> client_closed(
            client_requested(client, sender),
            answer.id,
        ).pending[other] == client.pending[other],
{
}

/// A request that is given up leaves what was waiting before as it was.
pub proof fn law_given_up_requests_leave_no_trace<S>(client: ClientView<S>, sender: S)
    requires
        client_valid(client),
        client.next_id < u64::MAX,
    ensures
        client_closed(client_requested(client, sender), client.next_id).pending == client.pending,
{
    assert(client_closed(client_requested(client, sender), client.next_id).pending
        =~= client.pending);
}

/// The wallet as the page uses it.
pub struct WalletRuntime<S> {
    worker: WorkerClient<S>,
    storage_notice: Option<String>,
}

impl<S> WalletRuntime<S> {
    /// The requests that wait.
    pub closed spec fn client(&self) -> ClientView<S> {
        self.worker@
    }

    /// The notice about storage, where there is one.
    pub closed spec fn notice(&self) -> Option<Seq<char>> {
        optional_view(self.storage_notice)
    }

    /// The wallet once the worker answered that it is connected.
    pub fn connect(worker: WorkerClient<S>, response: ConnectResponse) -> (runtime: WalletRuntime<S>)
        ensures
            runtime.client() == worker@,
            runtime.notice() == optional_view(response.storage_notice),
    {
        WalletRuntime { worker, storage_notice: response.storage_notice }
    }

    /// The notice about storage, where there is one.
    pub fn storage_notice(&self) -> (notice: Option<String>)
        ensures
            optional_view(notice) == self.notice(),
    {
        match &self.storage_notice {
            Some(notice) => Some(notice.clone()),
            None => None,
        }
    }

    /// Whether there is a number left for one more request.
    pub fn can_request(&self) -> (r: bool)
        ensures
            r == (self.client().next_id < u64::MAX),
    {
        self.worker.can_request()
    }

    /// Whether one more request can be made.
    pub open spec fn can_ask(&self) -> bool {
        client_valid(self.client()) && self.client().next_id < u64::MAX
    }

    /// Whether `after` is the wallet once `request` was made: it has the next number, `sender`
    /// waits for its answer, and all else is as before.
    pub open spec fn asked(&self, request: RequestEnvelope, sender: S, after: Self) -> bool {
        &&& request.id == self.client().next_id
        &&& after.client() == client_requested(self.client(), sender)
        &&& client_valid(after.client())
        &&& after.notice() == self.notice()
    }

    fn ask(&mut self, command: Command, sender: S) -> (request: RequestEnvelope)
        requires
            old(self).can_ask(),
        ensures
            old(self).asked(request, sender, *final(self)),
            request.command == command,
    {
        self.worker.request(command, sender)
    }

    /// Asks for the model service to be marked as funded.
    pub fn mark_ppq_ready(&mut self, sender: S) -> (request: RequestEnvelope)
        requires
            old(self).can_ask(),
        ensures
            old(self).asked(request, sender, *final(self)),
            request.command == Command::MarkPpqReady,
    {
        self.ask(Command::MarkPpqReady, sender)
    }

    /// Asks whether the model service is funded.
    pub fn is_ppq_ready(&mut self, sender: S) -> (request: RequestEnvelope)
        requires
            old(self).can_ask(),
        ensures
            old(self).asked(request, sender, *final(self)),
            request.command == Command::IsPpqReady,
    {
        self.ask(Command::IsPpqReady, sender)
    }

    /// Asks for the balance.
    pub fn get_balance(&mut self, sender: S) -> (request: RequestEnvelope)
        requires
            old(self).can_ask(),
        ensures
            old(self).asked(request, sender, *final(self)),
            request.command == Command::GetBalance,
    {
        self.ask(Command::GetBalance, sender)
    }

    /// Asks for the receive code that is kept.
    pub fn cached_receive_code(&mut self, sender: S) -> (request: RequestEnvelope)
        requires
            old(self).can_ask(),
        ensures
            old(self).asked(request, sender, *final(self)),
            request.command == Command::CachedReceiveCode,
    {
        self.ask(Command::CachedReceiveCode, sender)
    }

    /// Asks for the account of the model service.
    pub fn ppq_account(&mut self, sender: S) -> (request: RequestEnvelope)
        requires
            old(self).can_ask(),
        ensures
            old(self).asked(request, sender, *final(self)),
            request.command == Command::PpqAccount,
    {
        self.ask(Command::PpqAccount, sender)
    }

    /// Asks for the account of the model service, created where there is none.
    pub fn ensure_ppq_account(&mut self, sender: S) -> (request: RequestEnvelope)
        requires
            old(self).can_ask(),
        ensures
            old(self).asked(request, sender, *final(self)),
            request.command == Command::EnsurePpqAccount,
    {
        self.ask(Command::EnsurePpqAccount, sender)
    }

    /// Asks whether a payment to the model service was begun and not ended.
    pub fn ppq_funding_in_flight(&mut self, sender: S) -> (request: RequestEnvelope)
        requires
            old(self).can_ask(),
        ensures
            old(self).asked(request, sender, *final(self)),
            request.command == Command::PpqFundingInFlight,
    {
        self.ask(Command::PpqFundingInFlight, sender)
    }

    /// Asks for a payment to the model service to be written down as begun.
    pub fn begin_ppq_funding_attempt(&mut self, sender: S) -> (request: RequestEnvelope)
        requires
            old(self).can_ask(),
        ensures
            old(self).asked(request, sender, *final(self)),
            request.command == Command::BeginPpqFundingAttempt,
    {
        self.ask(Command::BeginPpqFundingAttempt, sender)
    }

    /// Asks for a replacement of a lost account of the model service.
    pub fn repair_ppq_account(&mut self, sender: S) -> (request: RequestEnvelope)
        requires
            old(self).can_ask(),
        ensures
            old(self).asked(request, sender, *final(self)),
            request.command == Command::RepairPpqAccount,
    {
        self.ask(Command::RepairPpqAccount, sender)
    }

    /// Asks for the latest operations.
    pub fn list_operations(&mut self, limit: usize, sender: S) -> (request: RequestEnvelope)
        requires
            old(self).can_ask(),
        ensures
            old(self).asked(request, sender, *final(self)),
            request.command == (Command::ListOperations { limit }),
    {
        self.ask(Command::ListOperations { limit }, sender)
    }

    /// Asks for payments that are on their way to be followed.
    pub fn watch_pending_receives(&mut self, sender: S) -> (request: RequestEnvelope)
        requires
            old(self).can_ask(),
        ensures
            old(self).asked(request, sender, *final(self)),
            request.command == Command::WatchPendingReceives,
    {
        self.ask(Command::WatchPendingReceives, sender)
    }

    /// Asks for an invoice.
    pub fn create_invoice(&mut self, amount_sats: u64, description: &str, sender: S) -> (request:
        RequestEnvelope)
        requires
            old(self).can_ask(),
        ensures
            old(self).asked(request, sender, *final(self)),
            request.command matches Command::CreateInvoice { amount_sats: amount, description: text }
                && amount == amount_sats && text@ == description@,
    {
        self.ask(Command::CreateInvoice { amount_sats, description: description.to_owned() }, sender)
    }

    /// Asks for a payment to be made.
    pub fn pay(&mut self, payment: &str, amount_sats: Option<u64>, sender: S) -> (request:
        RequestEnvelope)
        requires
            old(self).can_ask(),
        ensures
            old(self).asked(request, sender, *final(self)),
            request.command matches Command::Pay { payment: target, amount_sats: amount }
                && target@ == payment@ && amount == amount_sats,
    {
        self.ask(Command::Pay { payment: payment.to_owned(), amount_sats }, sender)
    }

    /// Says whether payments are followed.
    pub fn set_operation_listener(&mut self, listening: bool)
        ensures
            final(self).client() == (ClientView {
                operation_listening: listening,
                ..old(self).client()
            }),
            final(self).notice() == old(self).notice(),
    {
        self.worker.set_operation_listener(listening);
    }

    /// Asks for the wallet to be brought up, and follows its events until `bootstrap_ended`.
    pub fn bootstrap(&mut self, sender: S) -> (request: RequestEnvelope)
        requires
            client_valid(old(self).client()),
            old(self).client().next_id < u64::MAX,
        ensures
            request == (RequestEnvelope {
                id: old(self).client().next_id,
                command: Command::Bootstrap,
            }),
            final(self).client() == client_requested(
                ClientView { bootstrap_listening: true, ..old(self).client() },
                sender,
            ),
            client_valid(final(self).client()),
            final(self).notice() == old(self).notice(),
    {
        self.worker.set_bootstrap_listener(true);
        self.ask(Command::Bootstrap, sender)
    }

    /// Stops following the events of bringing the wallet up, however that ended.
    pub fn bootstrap_ended(&mut self)
        ensures
            final(self).client() == (ClientView {
                bootstrap_listening: false,
                ..old(self).client()
            }),
            final(self).notice() == old(self).notice(),
    {
        self.worker.set_bootstrap_listener(false);
    }

    /// Gives up a request that could not be sent.
    pub fn abandon(&mut self, id: u64)
        requires
            client_valid(old(self).client()),
        ensures
            final(self).client() == client_closed(old(self).client(), id),
            client_valid(final(self).client()),
            final(self).notice() == old(self).notice(),
    {
        self.worker.abandon(id);
    }

    /// Takes a message of the worker in.
    pub fn receive(
        &mut self,
        response: Option<ResponseEnvelope>,
        event: Option<WorkerEventEnvelope>,
    ) -> (delivery: Delivery<S>)
        requires
            client_valid(old(self).client()),
        ensures
            delivery == delivered(old(self).client(), response, event),
            final(self).client() == match response {
                Some(response) => client_closed(old(self).client(), response.id),
                None => old(self).client(),
            },
            client_valid(final(self).client()),
            final(self).notice() == old(self).notice(),
    {
        self.worker.receive(response, event)
    }
}

// ── The worker's side ───────────────────────────────────────────────────

/// What the worker does next for a request.
#[derive(Clone, Copy, Debug, PartialEq, Eq, Structural)]
pub enum WorkerStep {
    /// The wallet has to be connected.
    Connect,
    /// The wallet is connected and does what is asked.
    Run,
}

/// What the worker does first: it connects where it is asked to or has not yet.
pub open spec fn first_step(connected: bool, command: Command) -> WorkerStep {
    if command is Connect || !connected {
        WorkerStep::Connect
    } else {
        WorkerStep::Run
    }
}

/// What the worker does first for a request.
pub fn with_runtime(connected: bool, command: &Command) -> (step: WorkerStep)
    ensures
        step == first_step(connected, *command),
{
    match command {
        Command::Connect => WorkerStep::Connect,
        _ => if connected {
            WorkerStep::Run
        } else {
            WorkerStep::Connect
        },
    }
}

/// What the wallet did for a request.
#[derive(Debug)]
pub enum Outcome {
    Done,
    Connected(ConnectResponse),
    Flag(bool),
    Balance(Amount),
    Text(String),
    OptionalText(Option<String>),
    Account(PpqAccount),
    OptionalAccount(Option<PpqAccount>),
    Invoice(InvoiceResponse),
}

/// An account as JSON.
pub open spec fn account_json(account: PpqAccount) -> JsonView {
    JsonView::Object(
        map![
            "credit_id"@ => JsonView::Text(account.credit_id@),
            "api_key"@ => JsonView::Text(account.api_key@),
        ],
    )
}

/// What the wallet did, as JSON.
pub open spec fn outcome_json(outcome: Outcome) -> JsonView {
    match outcome {
        Outcome::Done => JsonView::Null,
        Outcome::Connected(response) => JsonView::Object(
            map!["storage_notice"@ => optional_text_json(optional_view(response.storage_notice))],
        ),
        Outcome::Flag(flag) => JsonView::Bool(flag),
        Outcome::Balance(balance) => count_json((balance.msats / 1000) as u64),
        Outcome::Text(text) => JsonView::Text(text@),
        Outcome::OptionalText(text) => optional_text_json(optional_view(text)),
        Outcome::Account(account) => account_json(account),
        Outcome::OptionalAccount(account) => match account {
            Some(account) => account_json(account),
            None => JsonView::Null,
        },
        Outcome::Invoice(invoice) => JsonView::Object(
            map![
                "operation_id"@ => JsonView::Text(invoice.operation_id@),
                "invoice"@ => JsonView::Text(invoice.invoice@),
            ],
        ),
    }
}

fn account_to_json(account: &PpqAccount) -> (json: Json)
    ensures
        json@ == account_json(*account),
{
    let json = Fields::new()
        .with("credit_id", Json::text(account.credit_id.as_str()))
        .with("api_key", Json::text(account.api_key.as_str()))
        .finish();
    assert(json@->Object_0 =~= account_json(*account)->Object_0);
    json
}

/// What the wallet did, as JSON.
pub fn serialize_ok(outcome: &Outcome) -> (json: Json)
    ensures
        json@ == outcome_json(*outcome),
{
    match outcome {
        Outcome::Done => Json::Null,
        Outcome::Connected(response) => {
            let json = Fields::new()
                .with("storage_notice", Json::optional_text(&response.storage_notice))
                .finish();
            assert(json@->Object_0 =~= outcome_json(*outcome)->Object_0);
            json
        },
        Outcome::Flag(flag) => Json::Bool(*flag),
        Outcome::Balance(balance) => Json::count(balance.sats_round_down()),
        Outcome::Text(text) => Json::text(text.as_str()),
        Outcome::OptionalText(text) => Json::optional_text(text),
        Outcome::Account(account) => account_to_json(account),
        Outcome::OptionalAccount(account) => match account {
            Some(account) => account_to_json(account),
            None => Json::Null,
        },
        Outcome::Invoice(invoice) => {
            let json = Fields::new()
                .with("operation_id", Json::text(invoice.operation_id.as_str()))
                .with("invoice", Json::text(invoice.invoice.as_str()))
                .finish();
            assert(json@->Object_0 =~= outcome_json(*outcome)->Object_0);
            json
        },
    }
}

/// The answer to a request, from what the wallet did or why it could not.
pub fn answer_request(id: u64, result: Result<Outcome, String>) -> (response: ResponseEnvelope)
    ensures
        response.id == id,
        match result {
            Ok(outcome) => response.payload matches ResponsePayload::Value { value } && value@
                == outcome_json(outcome),
            Err(message) => response.payload == (ResponsePayload::Fault { message }),
        },
{
    let payload = match result {
        Ok(outcome) => ResponsePayload::Value { value: serialize_ok(&outcome) },
        Err(message) => ResponsePayload::Fault { message },
    };
    ResponseEnvelope { id, payload }
}

/// What a connected wallet does for a request.
#[derive(Debug)]
pub enum RequestStep {
    /// The outcome is known.
    Answer(Outcome),
    /// Records are written. The outcome is that it was done.
    Write(Vec<Record>),
    /// The wallet is brought up.
    Bootstrap,
    /// The balance is read.
    ReadBalance,
    /// An account of the model service is created and written down.
    CreateAccount,
    /// An invoice is made and followed until it is paid. What it is made with is decided once there
    /// is a gateway for it.
    MakeInvoice { amount_sats: u64, description: String },
    /// A payment is made.
    Pay(PayOrder),
    /// The latest operations are listed.
    ListOperations { limit: usize },
    /// Payments that are on their way are followed.
    WatchReceives,
}

/// Whether the amount of a payment can be counted in thousandths of a satoshi.
pub open spec fn amounts_fit(command: Command) -> bool {
    match command {
        Command::Pay { amount_sats: Some(sats), .. } => sats * 1000 <= u64::MAX,
        _ => true,
    }
}

/// Whether `step` is what a connected wallet does for a request.
pub open spec fn request_leads_to(
    state: AppState,
    notice: Option<Seq<char>>,
    command: Command,
    step: RequestStep,
) -> bool {
    match command {
        Command::Connect => {
            &&& step matches RequestStep::Answer(Outcome::Connected(response))
            &&& optional_view(response.storage_notice) == notice
        },
        Command::Bootstrap => step is Bootstrap,
        Command::MarkPpqReady => {
            &&& step matches RequestStep::Write(records)
            &&& records@ == seq![Record::PpqReady(true), Record::PpqFundingInFlight(false)]
        },
        Command::IsPpqReady => step == RequestStep::Answer(
            Outcome::Flag(state.ppq_ready == Some(true)),
        ),
        Command::GetBalance => step is ReadBalance,
        Command::CachedReceiveCode => step == RequestStep::Answer(
            Outcome::OptionalText(
                match state.receive_code {
                    Some(code) => Some(code.lnurl),
                    None => None,
                },
            ),
        ),
        Command::PpqAccount => step == RequestStep::Answer(
            Outcome::OptionalAccount(state.ppq_account),
        ),
        Command::EnsurePpqAccount | Command::RepairPpqAccount => step == match account_step(state) {
            AccountStep::Use(account) => RequestStep::Answer(Outcome::Account(account)),
            AccountStep::Create => RequestStep::CreateAccount,
        },
        Command::PpqFundingInFlight => step == RequestStep::Answer(
            Outcome::Flag(state.ppq_funding_in_flight == Some(true)),
        ),
        Command::BeginPpqFundingAttempt => {
            &&& step matches RequestStep::Write(records)
            &&& records@ == seq![Record::PpqFundingInFlight(true)]
        },
        Command::CreateInvoice { amount_sats, description } => {
            &&& step matches RequestStep::MakeInvoice { amount_sats: sats, description: text }
            &&& sats == amount_sats
            &&& text@ == description@
        },
        Command::Pay { payment, amount_sats } => {
            &&& step matches RequestStep::Pay(order)
            &&& order.payment@ == payment@
            &&& match amount_sats {
                Some(sats) => order.amount matches Some(amount) && amount.msats == sats * 1000,
                None => order.amount is None,
            }
        },
        Command::ListOperations { limit } => step == (RequestStep::ListOperations { limit }),
        Command::WatchPendingReceives => step is WatchReceives,
    }
}

/// What a connected wallet does for a request.
pub fn handle_request(wallet: &fedimint::WalletRuntime, command: Command) -> (step: RequestStep)
    requires
        amounts_fit(command),
    ensures
        request_leads_to(wallet.state(), wallet.notice(), command, step),
{
    match command {
        Command::Connect => RequestStep::Answer(
            Outcome::Connected(ConnectResponse { storage_notice: wallet.storage_notice() }),
        ),
        Command::Bootstrap => RequestStep::Bootstrap,
        Command::MarkPpqReady => RequestStep::Write(wallet.mark_ppq_ready()),
        Command::IsPpqReady => RequestStep::Answer(Outcome::Flag(wallet.is_ppq_ready())),
        Command::GetBalance => RequestStep::ReadBalance,
        Command::CachedReceiveCode => RequestStep::Answer(
            Outcome::OptionalText(wallet.cached_receive_code()),
        ),
        Command::PpqAccount => RequestStep::Answer(Outcome::OptionalAccount(wallet.ppq_account())),
        Command::EnsurePpqAccount => match wallet.ensure_ppq_account() {
            AccountStep::Use(account) => RequestStep::Answer(Outcome::Account(account)),
            AccountStep::Create => RequestStep::CreateAccount,
        },
        Command::PpqFundingInFlight => RequestStep::Answer(
            Outcome::Flag(wallet.ppq_funding_in_flight()),
        ),
        Command::BeginPpqFundingAttempt => RequestStep::Write(wallet.begin_ppq_funding_attempt()),
        Command::RepairPpqAccount => match wallet.repair_ppq_account() {
            AccountStep::Use(account) => RequestStep::Answer(Outcome::Account(account)),
            AccountStep::Create => RequestStep::CreateAccount,
        },
        Command::CreateInvoice { amount_sats, description } => RequestStep::MakeInvoice {
            amount_sats,
            description,
        },
        Command::Pay { payment, amount_sats } => RequestStep::Pay(
            wallet.pay(payment.as_str(), amount_sats),
        ),
        Command::ListOperations { limit } => RequestStep::ListOperations { limit },
        Command::WatchPendingReceives => RequestStep::WatchReceives,
    }
}

/// Only a request to pay makes the wallet pay, and then it pays what was asked.
pub proof fn law_only_pay_requests_pay(
    state: AppState,
    notice: Option<Seq<char>>,
    command: Command,
    step: RequestStep,
)
    requires
        request_leads_to(state, notice, command, step),
    ensures
        step matches RequestStep::Pay(order) ==> {
            &&& command matches Command::Pay { payment, amount_sats }
            &&& order.payment@ == payment@
            &&& match (amount_sats, order.amount) {
                (Some(sats), Some(amount)) => amount.msats == sats * 1000,
                (None, None) => true,
                _ => false,
            }
        },
{
}

/// The answer that takes the place of one that could not be sent.
pub fn post_failed(id: u64, fault: &str) -> (response: ResponseEnvelope)
    ensures
        response.id == id,
        response.payload matches ResponsePayload::Fault { message } && message@
            == "Failed to post worker response: "@ + fault@,
{
    ResponseEnvelope {
        id,
        payload: ResponsePayload::Fault {
            message: "Failed to post worker response: ".to_owned().concat(fault),
        },
    }
}

/// The outcome of a request for an invoice: the one that was made.
pub fn invoice_created(response: fedimint::InvoiceResponse) -> (outcome: Outcome)
    ensures
        outcome == Outcome::Invoice(
            InvoiceResponse { operation_id: response.operation_id, invoice: response.invoice },
        ),
{
    Outcome::Invoice(
        InvoiceResponse { operation_id: response.operation_id, invoice: response.invoice },
    )
}

/// The report that an invoice was paid.
pub fn invoice_paid(amount_sats: Option<u64>, invoice: String) -> (envelope: WorkerEventEnvelope)
    ensures
        envelope.payload == (WorkerEventPayload::OperationSettled {
            data: WireOperationEvent::PaymentReceived { amount_sats, invoice: Some(invoice) },
        }),
{
    WorkerEventEnvelope::operation(
        WireOperationEvent::PaymentReceived { amount_sats, invoice: Some(invoice) },
    )
}

/// The report that a payment came in which no invoice of this session is known for.
pub fn receive_settled(amount_sats: Option<u64>) -> (envelope: WorkerEventEnvelope)
    ensures
        envelope.payload == (WorkerEventPayload::OperationSettled {
            data: WireOperationEvent::PaymentReceived { amount_sats, invoice: None },
        }),
{
    WorkerEventEnvelope::operation(
        WireOperationEvent::PaymentReceived { amount_sats, invoice: None },
    )
}

} // verus!
