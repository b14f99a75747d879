//! How the page gets from its start to an unlocked chat, and above all when it pays the model
//! service and when it must not.
use vstd::prelude::*;

use crate::agent::{
    assistant_message, message_views, onboarding_message, ChatMessage, ChatRole, MessageView,
};
use crate::ppq::{PpqAccount, PpqTopup};
use crate::render::format_balance;
use crate::text::{contains_text, decimal, decimal_text, optional_view};
use crate::wallet_runtime::{BootstrapEvent, OperationEvent};

verus! {

/// How far the page has come.
#[derive(Debug)]
pub enum Stage {
    /// The service worker is being registered.
    Registering,
    /// The skills are being loaded.
    LoadingSkills,
    /// The wallet is being connected.
    Connecting,
    /// The wallet is being brought up.
    Bootstrapping,
    /// Whether the model service is funded is being read.
    ReadingReady,
    /// Whether a payment to it was begun is being read.
    ReadingInFlight,
    /// Its account is being come by, to fund it.
    EnsuringAccount,
    /// The invoice of the first top-up is being asked for.
    RequestingTopup { account: PpqAccount },
    /// The payment is being written down as begun.
    RecordingAttempt { account: PpqAccount, invoice: String },
    /// The payment is being made.
    Paying { account: PpqAccount },
    /// The model service is being marked as funded.
    Marking { account: PpqAccount },
    /// The account of the funded service is being read.
    ReadingAccount,
    /// A lost account is being replaced.
    Repairing,
    /// Nothing is left to do: the chat is unlocked, or stays locked.
    Stopped,
}

/// What the page is told.
#[derive(Debug)]
pub enum BootEvent {
    Registered(Result<(), String>),
    SkillsLoaded(Result<(), String>),
    /// With the notice about storage, where there is one.
    Connected(Result<Option<String>, String>),
    Bootstrapped(Result<(), String>),
    ReadyRead(Result<bool, String>),
    InFlightRead(Result<bool, String>),
    AccountEnsured(Result<PpqAccount, String>),
    TopupCreated(Result<PpqTopup, String>),
    AttemptRecorded(Result<(), String>),
    Paid(Result<(), String>),
    MarkedReady(Result<(), String>),
    AccountRead(Result<Option<PpqAccount>, String>),
    Repaired(Result<PpqAccount, String>),
}

/// What the page does next.
#[derive(Debug)]
pub enum BootAction {
    /// Nothing: what was told did not belong here.
    Wait,
    LoadSkills,
    Connect,
    Bootstrap,
    /// Payments are followed from here on, and the mark is read.
    ReadReady,
    ReadInFlight,
    EnsureAccount,
    CreateTopup { account: PpqAccount },
    RecordAttempt,
    Pay { invoice: String },
    MarkReady,
    ReadAccount,
    RepairAccount,
    Stop,
}

/// What the page shows and does after it was told something. A status where it changes, the
/// account where the chat is unlocked with it.
#[derive(Debug)]
pub struct BootOutput {
    pub messages: Vec<ChatMessage>,
    pub status: Option<&'static str>,
    pub unlocked: Option<PpqAccount>,
    pub action: BootAction,
}

/// What comes of an event.
pub struct BootOutcome {
    pub stage: Stage,
    pub messages: Seq<MessageView>,
    pub status: Option<Seq<char>>,
    pub unlocked: Option<PpqAccount>,
    pub action: BootAction,
}

/// A message of the wallet itself.
pub open spec fn system_message(body: Seq<char>) -> MessageView {
    MessageView { role: ChatRole::System, body }
}

/// On to the next stage, with no more than messages.
pub open spec fn going_on(
    stage: Stage,
    messages: Seq<MessageView>,
    action: BootAction,
) -> BootOutcome {
    BootOutcome { stage, messages, status: None, unlocked: None, action }
}

/// The end with the chat still locked.
pub open spec fn locked(status: Seq<char>, message: Seq<char>) -> BootOutcome {
    BootOutcome {
        stage: Stage::Stopped,
        messages: seq![system_message(message)],
        status: Some(status),
        unlocked: None,
        action: BootAction::Stop,
    }
}

/// The end with the chat unlocked.
pub open spec fn unlocked(account: PpqAccount, messages: Seq<MessageView>) -> BootOutcome {
    BootOutcome {
        stage: Stage::Stopped,
        messages,
        status: Some("Wallet ready"@),
        unlocked: Some(account),
        action: BootAction::Stop,
    }
}

/// The end because funding failed.
pub open spec fn funding_failed(fault: Seq<char>) -> BootOutcome {
    locked("PPQ funding failed"@, "PPQ funding failed: "@ + fault)
}

/// What comes of an event at a stage.
pub open spec fn boot_next(stage: Stage, event: BootEvent) -> BootOutcome {
    match (stage, event) {
        (Stage::Registering, BootEvent::Registered(result)) => going_on(
            Stage::LoadingSkills,
            match result {
                Ok(_) => Seq::empty(),
                Err(fault) => seq![
                    system_message("Service worker registration failed: "@ + fault@),
                ],
            },
            BootAction::LoadSkills,
        ),
        (Stage::LoadingSkills, BootEvent::SkillsLoaded(result)) => going_on(
            Stage::Connecting,
            match result {
                Ok(_) => Seq::empty(),
                Err(fault) => seq![system_message("Skill catalog failed to load: "@ + fault@)],
            },
            BootAction::Connect,
        ),
        (Stage::Connecting, BootEvent::Connected(result)) => match result {
            Ok(notice) => going_on(
                Stage::Bootstrapping,
                match notice {
                    Some(notice) => seq![system_message(notice@)],
                    None => Seq::empty(),
                },
                BootAction::Bootstrap,
            ),
            Err(fault) => locked("Wallet failed to boot"@, "Wallet setup failed: "@ + fault@),
        },
        (Stage::Bootstrapping, BootEvent::Bootstrapped(result)) => match result {
            Ok(_) => going_on(Stage::ReadingReady, Seq::empty(), BootAction::ReadReady),
            Err(fault) => locked("Wallet bootstrap failed"@, "Bootstrap failed: "@ + fault@),
        },
        (Stage::ReadingReady, BootEvent::ReadyRead(result)) => match result {
            Ok(true) => going_on(Stage::ReadingAccount, Seq::empty(), BootAction::ReadAccount),
            Ok(false) => going_on(Stage::ReadingInFlight, Seq::empty(), BootAction::ReadInFlight),
            Err(fault) => locked("PPQ state unavailable"@, "Could not read PPQ state: "@ + fault@),
        },
        (Stage::ReadingInFlight, BootEvent::InFlightRead(result)) => if result == Ok::<
            bool,
            String,
        >(true) {
            locked(
                "PPQ setup needs recovery"@,
                "PPQ funding previously started but final setup state was not saved. Chat stays locked to avoid double-funding."@,
            )
        } else {
            going_on(
                Stage::EnsuringAccount,
                seq![system_message("Creating a PPQ account and funding it with $0.10..."@)],
                BootAction::EnsureAccount,
            )
        },
        (Stage::EnsuringAccount, BootEvent::AccountEnsured(result)) => match result {
            Ok(account) => going_on(
                Stage::RequestingTopup { account },
                Seq::empty(),
                BootAction::CreateTopup { account },
            ),
            Err(fault) => funding_failed(fault@),
        },
        (Stage::RequestingTopup { account }, BootEvent::TopupCreated(result)) => match result {
            Ok(topup) => going_on(
                Stage::RecordingAttempt { account, invoice: topup.invoice },
                Seq::empty(),
                BootAction::RecordAttempt,
            ),
            Err(fault) => funding_failed(fault@),
        },
        (
            Stage::RecordingAttempt { account, invoice },
            BootEvent::AttemptRecorded(result),
        ) => match result {
            Ok(_) => going_on(
                Stage::Paying { account },
                Seq::empty(),
                BootAction::Pay { invoice },
            ),
            Err(fault) => funding_failed(fault@),
        },
        (Stage::Paying { account }, BootEvent::Paid(result)) => match result {
            Ok(_) => going_on(Stage::Marking { account }, Seq::empty(), BootAction::MarkReady),
            Err(fault) => funding_failed(fault@),
        },
        (Stage::Marking { account }, BootEvent::MarkedReady(result)) => match result {
            Ok(_) => unlocked(
                account,
                seq![
                    MessageView {
                        role: ChatRole::Assistant,
                        body: "Fedigents is ready. Ask me to check balance, create invoices, or prepare a Lightning payment for review."@,
                    },
                ],
            ),
            Err(fault) => locked(
                "PPQ setup needs recovery"@,
                "PPQ funding completed but the final ready marker could not be saved: "@ + fault@
                    + ". Chat stays locked to avoid double-funding on restart."@,
            ),
        },
        (Stage::ReadingAccount, BootEvent::AccountRead(result)) => match result {
            Ok(Some(account)) => unlocked(account, Seq::empty()),
            Ok(None) => going_on(Stage::Repairing, Seq::empty(), BootAction::RepairAccount),
            Err(fault) => locked(
                "PPQ account unavailable"@,
                "PPQ account recovery failed: "@ + fault@,
            ),
        },
        (Stage::Repairing, BootEvent::Repaired(result)) => match result {
            Ok(account) => unlocked(
                account,
                seq![
                    system_message(
                        "PPQ account metadata was missing, so Fedigents created a replacement app-local account record without re-funding it."@,
                    ),
                ],
            ),
            Err(fault) => locked(
                "PPQ account unavailable"@,
                "PPQ account repair failed: "@ + fault@,
            ),
        },
        _ => going_on(stage, Seq::empty(), BootAction::Wait),
    }
}

/// Whether the page shows and does what comes of an event.
pub open spec fn boot_shows(output: BootOutput, stage: Stage, outcome: BootOutcome) -> bool {
    &&& stage == outcome.stage
    &&& message_views(output.messages@) == outcome.messages
    &&& match (output.status, outcome.status) {
        (Some(shown), Some(status)) => shown@ == status,
        (None, None) => true,
        _ => false,
    }
    &&& output.unlocked == outcome.unlocked
    &&& output.action == outcome.action
}

fn no_messages() -> (messages: Vec<ChatMessage>)
    ensures
        message_views(messages@) == Seq::<MessageView>::empty(),
{
    let messages: Vec<ChatMessage> = Vec::new();
    assert(message_views(messages@) =~= Seq::<MessageView>::empty());
    messages
}

fn one_message(message: ChatMessage) -> (messages: Vec<ChatMessage>)
    ensures
        message_views(messages@) == seq![message@],
{
    let mut messages: Vec<ChatMessage> = Vec::new();
    messages.push(message);
    assert(message_views(messages@) =~= seq![message@]);
    messages
}

fn message_of(text: &str, fault: &str) -> (messages: Vec<ChatMessage>)
    ensures
        message_views(messages@) == seq![system_message(text@ + fault@)],
{
    one_message(onboarding_message(text.to_owned().concat(fault)))
}

fn go_on(messages: Vec<ChatMessage>, action: BootAction) -> (output: BootOutput)
    ensures
        output.messages == messages,
        output.status is None,
        output.unlocked is None,
        output.action == action,
{
    BootOutput { messages, status: None, unlocked: None, action }
}

fn lock(status: &'static str, messages: Vec<ChatMessage>) -> (output: BootOutput)
    ensures
        output.messages == messages,
        output.status matches Some(shown) && shown@ == status@,
        output.unlocked is None,
        output.action == BootAction::Stop,
{
    BootOutput { messages, status: Some(status), unlocked: None, action: BootAction::Stop }
}

fn unlock(account: PpqAccount, messages: Vec<ChatMessage>) -> (output: BootOutput)
    ensures
        output.messages == messages,
        output.status matches Some(shown) && shown@ == "Wallet ready"@,
        output.unlocked == Some(account),
        output.action == BootAction::Stop,
{
    BootOutput {
        messages,
        status: Some("Wallet ready"),
        unlocked: Some(account),
        action: BootAction::Stop,
    }
}

/// The page on its way to an unlocked chat.
#[derive(Debug)]
pub struct Boot {
    stage: Stage,
}

impl Boot {
    /// How far the page has come.
    pub closed spec fn at(&self) -> Stage {
        self.stage
    }

    /// The page at its start, with the service worker to be registered first.
    pub fn new() -> (boot: Boot)
        ensures
            boot.at() == Stage::Registering,
    {
        Boot { stage: Stage::Registering }
    }

    /// Takes what the page is told in, and says what it shows and does next.
    pub fn step(&mut self, event: BootEvent) -> (output: BootOutput)
        ensures
            boot_shows(output, final(self).at(), boot_next(old(self).at(), event)),
    {
        let mut stage = Stage::Stopped;
        std::mem::swap(&mut stage, &mut self.stage);
        match (stage, event) {
            (Stage::Registering, BootEvent::Registered(result)) => {
                self.stage = Stage::LoadingSkills;
                let messages = match result {
                    Ok(_) => no_messages(),
                    Err(fault) => message_of(
                        "Service worker registration failed: ",
                        fault.as_str(),
                    ),
                };
                go_on(messages, BootAction::LoadSkills)
            },
            (Stage::LoadingSkills, BootEvent::SkillsLoaded(result)) => {
                self.stage = Stage::Connecting;
                let messages = match result {
                    Ok(_) => no_messages(),
                    Err(fault) => message_of("Skill catalog failed to load: ", fault.as_str()),
                };
                go_on(messages, BootAction::Connect)
            },
            (Stage::Connecting, BootEvent::Connected(result)) => match result {
                Ok(notice) => {
                    self.stage = Stage::Bootstrapping;
                    let messages = match notice {
                        Some(notice) => one_message(onboarding_message(notice)),
                        None => no_messages(),
                    };
                    go_on(messages, BootAction::Bootstrap)
                },
                Err(fault) => lock(
                    "Wallet failed to boot",
                    message_of("Wallet setup failed: ", fault.as_str()),
                ),
            },
            (Stage::Bootstrapping, BootEvent::Bootstrapped(result)) => match result {
                Ok(_) => {
                    self.stage = Stage::ReadingReady;
                    go_on(no_messages(), BootAction::ReadReady)
                },
                Err(fault) => lock(
                    "Wallet bootstrap failed",
                    message_of("Bootstrap failed: ", fault.as_str()),
                ),
            },
            (Stage::ReadingReady, BootEvent::ReadyRead(result)) => match result {
                Ok(ready) => if ready {
                    self.stage = Stage::ReadingAccount;
                    go_on(no_messages(), BootAction::ReadAccount)
                } else {
                    self.stage = Stage::ReadingInFlight;
                    go_on(no_messages(), BootAction::ReadInFlight)
                },
                Err(fault) => lock(
                    "PPQ state unavailable",
                    message_of("Could not read PPQ state: ", fault.as_str()),
                ),
            },
            (Stage::ReadingInFlight, BootEvent::InFlightRead(result)) => {
                let in_flight = match result {
                    Ok(in_flight) => in_flight,
                    Err(_) => false,
                };
                if in_flight {
                    lock(
                        "PPQ setup needs recovery",
                        one_message(
                            onboarding_message(
                                "PPQ funding previously started but final setup state was not saved. Chat stays locked to avoid double-funding.".to_owned(),
                            ),
                        ),
                    )
                } else {
                    self.stage = Stage::EnsuringAccount;
                    go_on(
                        one_message(
                            onboarding_message(
                                "Creating a PPQ account and funding it with $0.10...".to_owned(),
                            ),
                        ),
                        BootAction::EnsureAccount,
                    )
                }
            },
            (Stage::EnsuringAccount, BootEvent::AccountEnsured(result)) => match result {
                Ok(account) => {
                    let copy = account.copy();
                    self.stage = Stage::RequestingTopup { account };
                    go_on(no_messages(), BootAction::CreateTopup { account: copy })
                },
                Err(fault) => lock(
                    "PPQ funding failed",
                    message_of("PPQ funding failed: ", fault.as_str()),
                ),
            },
            (Stage::RequestingTopup { account }, BootEvent::TopupCreated(result)) => match result {
                Ok(topup) => {
                    self.stage = Stage::RecordingAttempt { account, invoice: topup.invoice };
                    go_on(no_messages(), BootAction::RecordAttempt)
                },
                Err(fault) => lock(
                    "PPQ funding failed",
                    message_of("PPQ funding failed: ", fault.as_str()),
                ),
            },
            (
                Stage::RecordingAttempt { account, invoice },
                BootEvent::AttemptRecorded(result),
            ) => match result {
                Ok(_) => {
                    self.stage = Stage::Paying { account };
                    go_on(no_messages(), BootAction::Pay { invoice })
                },
                Err(fault) => lock(
                    "PPQ funding failed",
                    message_of("PPQ funding failed: ", fault.as_str()),
                ),
            },
            (Stage::Paying { account }, BootEvent::Paid(result)) => match result {
                Ok(_) => {
                    self.stage = Stage::Marking { account };
                    go_on(no_messages(), BootAction::MarkReady)
                },
                Err(fault) => lock(
                    "PPQ funding failed",
                    message_of("PPQ funding failed: ", fault.as_str()),
                ),
            },
            (Stage::Marking { account }, BootEvent::MarkedReady(result)) => match result {
                Ok(_) => unlock(
                    account,
                    one_message(
                        assistant_message(
                            "Fedigents is ready. Ask me to check balance, create invoices, or prepare a Lightning payment for review.".to_owned(),
                        ),
                    ),
                ),
                Err(fault) => lock(
                    "PPQ setup needs recovery",
                    one_message(
                        onboarding_message(
                            "PPQ funding completed but the final ready marker could not be saved: ".to_owned().concat(
                                fault.as_str(),
                            ).concat(". Chat stays locked to avoid double-funding on restart."),
                        ),
                    ),
                ),
            },
            (Stage::ReadingAccount, BootEvent::AccountRead(result)) => match result {
                Ok(Some(account)) => unlock(account, no_messages()),
                Ok(None) => {
                    self.stage = Stage::Repairing;
                    go_on(no_messages(), BootAction::RepairAccount)
                },
                Err(fault) => lock(
                    "PPQ account unavailable",
                    message_of("PPQ account recovery failed: ", fault.as_str()),
                ),
            },
            (Stage::Repairing, BootEvent::Repaired(result)) => match result {
                Ok(account) => unlock(
                    account,
                    one_message(
                        onboarding_message(
                            "PPQ account metadata was missing, so Fedigents created a replacement app-local account record without re-funding it.".to_owned(),
                        ),
                    ),
                ),
                Err(fault) => lock(
                    "PPQ account unavailable",
                    message_of("PPQ account repair failed: ", fault.as_str()),
                ),
            },
            (stage, _) => {
                self.stage = stage;
                go_on(no_messages(), BootAction::Wait)
            },
        }
    }
}

// ── Laws ────────────────────────────────────────────────────────────────

/// The stage after several events.
pub open spec fn stage_after(stage: Stage, events: Seq<BootEvent>) -> Stage
    decreases events.len(),
{
    if events.len() == 0 {
        stage
    } else {
        boot_next(stage_after(stage, events.drop_last()), events.last()).stage
    }
}

/// How many payments several events lead to.
pub open spec fn payments(stage: Stage, events: Seq<BootEvent>) -> nat
    decreases events.len(),
{
    if events.len() == 0 {
        0
    } else {
        payments(stage, events.drop_last()) + if boot_next(
            stage_after(stage, events.drop_last()),
            events.last(),
        ).action is Pay {
            1nat
        } else {
            0
        }
    }
}

/// How far a stage is on the way.
pub open spec fn progress(stage: Stage) -> nat {
    match stage {
        Stage::Registering => 0,
        Stage::LoadingSkills => 1,
        Stage::Connecting => 2,
        Stage::Bootstrapping => 3,
        Stage::ReadingReady => 4,
        Stage::ReadingInFlight => 5,
        Stage::EnsuringAccount => 6,
        Stage::RequestingTopup { .. } => 7,
        Stage::RecordingAttempt { .. } => 8,
        Stage::Paying { .. } => 9,
        Stage::Marking { .. } => 10,
        Stage::ReadingAccount => 11,
        Stage::Repairing => 12,
        Stage::Stopped => 13,
    }
}

/// The page never goes back: each event that belongs to its stage takes it further, and any other
/// leaves it where it is.
pub proof fn law_boot_only_goes_forward(stage: Stage, event: BootEvent)
    ensures
        boot_next(stage, event).action is Wait ==> boot_next(stage, event).stage == stage,
        !(boot_next(stage, event).action is Wait) ==> progress(boot_next(stage, event).stage)
            > progress(stage),
{
}

/// The page pays only after the payment was written down as begun, and only the invoice of the
/// top-up that was asked for.
pub proof fn law_boot_pays_only_what_is_recorded(stage: Stage, event: BootEvent)
    requires
        boot_next(stage, event).action is Pay,
    ensures
        event matches BootEvent::AttemptRecorded(Ok(_)),
        stage matches Stage::RecordingAttempt { invoice, .. } && boot_next(stage, event).action
            == (BootAction::Pay { invoice }),
{
}

/// Whatever happens, the page pays at most once.
pub proof fn law_boot_pays_at_most_once(stage: Stage, events: Seq<BootEvent>)
    ensures
        payments(stage, events) <= 1,
        payments(stage, events) == 1 ==> progress(stage_after(stage, events)) >= 9,
    decreases events.len(),
{
    if events.len() > 0 {
        law_boot_pays_at_most_once(stage, events.drop_last());
        law_boot_only_goes_forward(stage_after(stage, events.drop_last()), events.last());
    }
}

/// Once the page read that a payment was begun before, or that the service is funded, it pays
/// nothing, whatever happens after.
pub proof fn law_boot_never_pays_twice_over(
    first: BootEvent,
    stage: Stage,
    events: Seq<BootEvent>,
)
    requires
        (stage is ReadingInFlight && first == BootEvent::InFlightRead(Ok(true))) || (
        stage is ReadingReady && first == BootEvent::ReadyRead(Ok(true))),
    ensures
        payments(boot_next(stage, first).stage, events) == 0,
        progress(stage_after(boot_next(stage, first).stage, events)) >= 11,
    decreases events.len(),
{
    if events.len() > 0 {
        law_boot_never_pays_twice_over(first, stage, events.drop_last());
        law_boot_only_goes_forward(
            stage_after(boot_next(stage, first).stage, events.drop_last()),
            events.last(),
        );
    }
}

/// The chat is unlocked only with an account, and only where the service is marked as funded: the
/// mark was just written, or it was read and the account read or replaced after that.
pub proof fn law_unlocked_only_when_funded(stage: Stage, event: BootEvent)
    ensures
        boot_next(stage, event).unlocked matches Some(account) ==> {
            ||| stage == (Stage::Marking { account }) && event matches BootEvent::MarkedReady(Ok(_))
            ||| stage == Stage::ReadingAccount && event == BootEvent::AccountRead(Ok(Some(account)))
            ||| stage == Stage::Repairing && event == BootEvent::Repaired(Ok(account))
        },
{
}

// ── What the page shows of events ───────────────────────────────────────

/// What the page shows of an event while the wallet is brought up.
#[derive(Debug)]
pub struct ShownEvent {
    pub status: Option<String>,
    pub message: Option<ChatMessage>,
    pub receive_code: Option<String>,
    pub balance: Option<String>,
}

/// What the page shows of an event while the wallet is brought up.
pub fn show_bootstrap_event(event: BootstrapEvent) -> (shown: ShownEvent)
    ensures
        match event {
            BootstrapEvent::Note(note) => {
                &&& optional_view(shown.status) == Some(note@)
                &&& shown.message matches Some(message) && message@ == system_message(note@)
                &&& shown.receive_code is None
                &&& shown.balance is None
            },
            BootstrapEvent::ReceiveCode(code) => {
                &&& shown.status is None
                &&& shown.message matches Some(message) && message@ == system_message(
                    "Your wallet receive LNURL is ready. Use it to fund the wallet."@,
                )
                &&& optional_view(shown.receive_code) == Some(code@)
                &&& shown.balance is None
            },
            BootstrapEvent::Balance(sats) => {
                &&& shown.status is None
                &&& shown.message is None
                &&& shown.receive_code is None
                &&& optional_view(shown.balance) == Some(decimal_text(sats as nat) + " sats"@)
            },
        },
{
    match event {
        BootstrapEvent::Note(note) => ShownEvent {
            status: Some(note.clone()),
            message: Some(onboarding_message(note)),
            receive_code: None,
            balance: None,
        },
        BootstrapEvent::ReceiveCode(code) => ShownEvent {
            status: None,
            message: Some(
                onboarding_message(
                    "Your wallet receive LNURL is ready. Use it to fund the wallet.".to_owned(),
                ),
            ),
            receive_code: Some(code),
            balance: None,
        },
        BootstrapEvent::Balance(sats) => ShownEvent {
            status: None,
            message: None,
            receive_code: None,
            balance: Some(format_balance(sats)),
        },
    }
}

/// What the page shows of a payment that came in: the text that is shown and told to the agent,
/// and the invoice that was paid, where it is known.
pub fn show_operation_event(event: OperationEvent) -> (shown: (String, Option<String>))
    ensures
        match event {
            OperationEvent::PaymentReceived { amount_sats, invoice } => {
                &&& shown.0@ == match amount_sats {
                    Some(sats) => "Incoming payment of "@ + decimal_text(sats as nat)
                        + " sats received."@,
                    None => "Incoming payment received."@,
                }
                &&& shown.1 == invoice
            },
        },
{
    match event {
        OperationEvent::PaymentReceived { amount_sats, invoice } => {
            let text = match amount_sats {
                Some(sats) => "Incoming payment of ".to_owned().concat(
                    decimal(sats).as_str(),
                ).concat(" sats received."),
                None => "Incoming payment received.".to_owned(),
            };
            (text, invoice)
        },
    }
}

// ── Laws of the whole way ───────────────────────────────────────────────

/// A page whose model service is not funded yet gets to an unlocked chat: it makes sure of an
/// account, asks for a top-up of that account, writes the payment down as begun, pays the invoice
/// of that top-up, marks the service as funded, and unlocks the chat with that account. A service
/// worker or skills that could not be had do not keep it from that.
pub proof fn law_boot_funds_and_unlocks(
    registered: Result<(), String>,
    skills: Result<(), String>,
    notice: Option<String>,
    account: PpqAccount,
    topup: PpqTopup,
)
    ensures
        ({
            let a = boot_next(Stage::Registering, BootEvent::Registered(registered));
            let b = boot_next(a.stage, BootEvent::SkillsLoaded(skills));
            let c = boot_next(b.stage, BootEvent::Connected(Ok(notice)));
            let d = boot_next(c.stage, BootEvent::Bootstrapped(Ok(())));
            let e = boot_next(d.stage, BootEvent::ReadyRead(Ok(false)));
            let f = boot_next(e.stage, BootEvent::InFlightRead(Ok(false)));
            let g = boot_next(f.stage, BootEvent::AccountEnsured(Ok(account)));
            let h = boot_next(g.stage, BootEvent::TopupCreated(Ok(topup)));
            let i = boot_next(h.stage, BootEvent::AttemptRecorded(Ok(())));
            let j = boot_next(i.stage, BootEvent::Paid(Ok(())));
            let k = boot_next(j.stage, BootEvent::MarkedReady(Ok(())));
            &&& a.action is LoadSkills
            &&& b.action is Connect
            &&& c.action is Bootstrap
            &&& d.action is ReadReady
            &&& e.action is ReadInFlight
            &&& f.action is EnsureAccount
            &&& g.action == (BootAction::CreateTopup { account })
            &&& h.action is RecordAttempt
            &&& i.action == (BootAction::Pay { invoice: topup.invoice })
            &&& j.action is MarkReady
            &&& k.action is Stop
            &&& k.unlocked == Some(account)
            &&& a.unlocked is None && b.unlocked is None && c.unlocked is None && d.unlocked is None
            &&& e.unlocked is None && f.unlocked is None && g.unlocked is None && h.unlocked is None
            &&& i.unlocked is None && j.unlocked is None
        }),
{
}

/// A page whose model service is funded unlocks the chat with the account that is kept, or with the
/// one that replaces a lost account, and pays nothing on the way.
pub proof fn law_funded_pages_unlock(account: PpqAccount)
    ensures
        ({
            let read = boot_next(Stage::ReadingReady, BootEvent::ReadyRead(Ok(true)));
            let kept = boot_next(read.stage, BootEvent::AccountRead(Ok(Some(account))));
            let lost = boot_next(read.stage, BootEvent::AccountRead(Ok(None)));
            let repaired = boot_next(lost.stage, BootEvent::Repaired(Ok(account)));
            &&& read.action is ReadAccount
            &&& kept.unlocked == Some(account)
            &&& lost.action is RepairAccount
            &&& lost.unlocked is None
            &&& repaired.unlocked == Some(account)
            &&& repaired.messages.len() == 1
        }),
{
}

/// Whether an event tells of a fault that the page cannot go on from at a stage.
pub open spec fn stops_with(stage: Stage, event: BootEvent, fault: String) -> bool {
    match (stage, event) {
        (Stage::Connecting, BootEvent::Connected(Err(told))) => told == fault,
        (Stage::Bootstrapping, BootEvent::Bootstrapped(Err(told))) => told == fault,
        (Stage::ReadingReady, BootEvent::ReadyRead(Err(told))) => told == fault,
        (Stage::EnsuringAccount, BootEvent::AccountEnsured(Err(told))) => told == fault,
        (Stage::RequestingTopup { .. }, BootEvent::TopupCreated(Err(told))) => told == fault,
        (Stage::RecordingAttempt { .. }, BootEvent::AttemptRecorded(Err(told))) => told == fault,
        (Stage::Paying { .. }, BootEvent::Paid(Err(told))) => told == fault,
        (Stage::Marking { .. }, BootEvent::MarkedReady(Err(told))) => told == fault,
        (Stage::ReadingAccount, BootEvent::AccountRead(Err(told))) => told == fault,
        (Stage::Repairing, BootEvent::Repaired(Err(told))) => told == fault,
        _ => false,
    }
}

/// A fault that the page cannot go on from is shown to the user, to the letter, and leaves the chat
/// locked for good.
pub proof fn law_faults_lock_the_chat(stage: Stage, event: BootEvent, fault: String)
    requires
        stops_with(stage, event, fault),
    ensures
        boot_next(stage, event).stage is Stopped,
        boot_next(stage, event).action is Stop,
        boot_next(stage, event).unlocked is None,
        boot_next(stage, event).status is Some,
        boot_next(stage, event).messages.len() == 1,
        boot_next(stage, event).messages[0].role is System,
        contains_text(boot_next(stage, event).messages[0].body, fault@),
{
    let body = boot_next(stage, event).messages[0].body;
    let none = Seq::<char>::empty();
    let (front, back) = match event {
        BootEvent::Connected(_) => ("Wallet setup failed: "@, none),
        BootEvent::Bootstrapped(_) => ("Bootstrap failed: "@, none),
        BootEvent::ReadyRead(_) => ("Could not read PPQ state: "@, none),
        BootEvent::MarkedReady(_) => (
            "PPQ funding completed but the final ready marker could not be saved: "@,
            ". Chat stays locked to avoid double-funding on restart."@,
        ),
        BootEvent::AccountRead(_) => ("PPQ account recovery failed: "@, none),
        BootEvent::Repaired(_) => ("PPQ account repair failed: "@, none),
        _ => ("PPQ funding failed: "@, none),
    };
    assert(body =~= front + fault@ + back);
    crate::text_laws::law_parts_are_held(front, fault@, back, body);
}

/// A fault that the page can go on from is shown all the same, and so is the notice about storage.
pub proof fn law_small_faults_are_shown(fault: String)
    ensures
        ({
            let a = boot_next(Stage::Registering, BootEvent::Registered(Err(fault)));
            let b = boot_next(Stage::LoadingSkills, BootEvent::SkillsLoaded(Err(fault)));
            let c = boot_next(Stage::Connecting, BootEvent::Connected(Ok(Some(fault))));
            &&& a.messages.len() == 1 && fault@.is_suffix_of(a.messages[0].body)
            &&& b.messages.len() == 1 && fault@.is_suffix_of(b.messages[0].body)
            &&& c.messages.len() == 1 && c.messages[0].body == fault@
            &&& a.messages[0].role is System && b.messages[0].role is System
                && c.messages[0].role is System
        }),
{
    let a = boot_next(Stage::Registering, BootEvent::Registered(Err(fault))).messages[0].body;
    let b = boot_next(Stage::LoadingSkills, BootEvent::SkillsLoaded(Err(fault))).messages[0].body;
    assert(a.subrange(a.len() - fault@.len(), a.len() as int) =~= fault@);
    assert(b.subrange(b.len() - fault@.len(), b.len() as int) =~= fault@);
}

/// A payment that was begun and never ended locks the chat: nothing is paid again.
pub proof fn law_begun_payments_lock_the_chat(event: BootEvent)
    ensures
        ({
            let read = boot_next(Stage::ReadingInFlight, BootEvent::InFlightRead(Ok(true)));
            &&& read.stage is Stopped
            &&& read.action is Stop
            &&& read.unlocked is None
            &&& read.messages.len() == 1
        }),
        boot_next(Stage::Stopped, event).stage is Stopped,
        boot_next(Stage::Stopped, event).action is Wait,
        boot_next(Stage::Stopped, event).unlocked is None,
        boot_next(Stage::Stopped, event).messages.len() == 0,
{
}

/// What is shown of an event says what the event says: a note as it is, a receive code as it is,
/// and a balance as its number of satoshis.
pub proof fn law_events_are_shown_as_they_are(event: BootstrapEvent, shown: ShownEvent)
    requires
        call_ensures(show_bootstrap_event, (event,), shown),
    ensures
        event matches BootstrapEvent::Note(note) ==> optional_view(shown.status) == Some(note@) && (
        shown.message matches Some(message) && message.role is System && message.body@ == note@),
        event matches BootstrapEvent::ReceiveCode(code) ==> optional_view(shown.receive_code)
            == Some(code@),
        event matches BootstrapEvent::Balance(sats) ==> optional_view(shown.balance) == Some(
            decimal_text(sats as nat) + " sats"@,
        ),
        !(event is Balance) ==> shown.balance is None,
        !(event is ReceiveCode) ==> shown.receive_code is None,
{
}

/// A payment that came in is told with the satoshis that it brought, and with the invoice that it
/// paid.
pub proof fn law_incoming_payments_are_told(
    amount_sats: Option<u64>,
    invoice: Option<String>,
    shown: (String, Option<String>),
)
    requires
        call_ensures(
            show_operation_event,
            (OperationEvent::PaymentReceived { amount_sats, invoice },),
            shown,
        ),
    ensures
        shown.1 == invoice,
        amount_sats matches Some(sats) ==> contains_text(shown.0@, decimal_text(sats as nat))
            && shown.0@ == "Incoming payment of "@ + decimal_text(sats as nat) + " sats received."@,
        amount_sats is None ==> shown.0@ == "Incoming payment received."@,
{
    if let Some(sats) = amount_sats {
        crate::text_laws::law_parts_are_held(
            "Incoming payment of "@,
            decimal_text(sats as nat),
            " sats received."@,
            shown.0@,
        );
    }
}

/// Whether a payment was begun counts as no where it cannot be read.
pub proof fn law_unreadable_marks_count_as_none(fault: String)
    ensures
        boot_next(Stage::ReadingInFlight, BootEvent::InFlightRead(Err(fault))) == boot_next(
            Stage::ReadingInFlight,
            BootEvent::InFlightRead(Ok(false)),
        ),
{
}

/// What the page shows and does after an event is what comes of the event at its stage: it pays
/// just the invoice that it wrote down, unlocks the chat with just the account that comes out, and
/// shows each message as it is.
pub proof fn law_steps_do_what_comes_of_events(
    boot: &mut Boot,
    event: BootEvent,
    output: BootOutput,
    i: int,
)
    requires
        call_ensures(Boot::step, (boot, event), output),
    ensures
        output.action matches BootAction::Pay { invoice } ==> {
            &&& old(boot).at() matches Stage::RecordingAttempt { invoice: recorded, .. }
            &&& recorded == invoice
            &&& event matches BootEvent::AttemptRecorded(Ok(_))
        },
        output.unlocked == boot_next(old(boot).at(), event).unlocked,
        output.action == boot_next(old(boot).at(), event).action,
        final(boot).at() == boot_next(old(boot).at(), event).stage,
        output.status is Some <==> boot_next(old(boot).at(), event).status is Some,
        output.messages@.len() == boot_next(old(boot).at(), event).messages.len(),
        0 <= i < output.messages@.len() ==> output.messages@[i].role == boot_next(
            old(boot).at(),
            event,
        ).messages[i].role && output.messages@[i].body@ == boot_next(
            old(boot).at(),
            event,
        ).messages[i].body,
{
    let views = message_views(output.messages@);
    assert(views.len() == output.messages@.len());
    if 0 <= i < views.len() {
        assert(views[i] == output.messages@[i]@);
    }
}

} // verus!
