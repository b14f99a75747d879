//! What the page does with what the user enters and confirms: prompts, payments, top-ups and voice
//! messages.
use vstd::prelude::*;

use crate::agent::{
    message_views, onboarding_message, proposal_view, user_message, ChatMessage, ChatRole,
    MessageView, PendingPaymentProposal, ProposalView,
};
use crate::boot::system_message;
use crate::ppq::PpqAccount;
use crate::render::{shortened, truncate_middle};
use crate::text::{decimal, decimal_text, optional_view, trim, trimmed};

verus! {

// ── Prompts ─────────────────────────────────────────────────────────────

/// What comes of a prompt: whether the input is cleared, what is shown, and what the agent is
/// asked.
#[derive(Debug)]
pub struct SubmitPlan {
    pub clear_prompt: bool,
    pub messages: Vec<ChatMessage>,
    pub ask: Option<String>,
}

/// What is shown of a prompt.
pub open spec fn prompt_messages(
    prompt: Seq<char>,
    ready: bool,
    agent_ready: bool,
) -> Seq<MessageView> {
    let said = MessageView { role: ChatRole::User, body: prompt };
    if prompt.len() == 0 {
        Seq::empty()
    } else if !ready {
        seq![system_message("Chat unlocks after the first deposit and PPQ funding step."@)]
    } else if !agent_ready {
        seq![said, system_message("The wallet agent is not ready yet."@)]
    } else {
        seq![said]
    }
}

/// Takes a prompt in. A blank one is ignored, and before the chat is unlocked nothing is asked.
pub fn submit_prompt(text: &str, ready: bool, agent_ready: bool) -> (plan: SubmitPlan)
    ensures
        plan.clear_prompt == (trimmed(text@).len() > 0 && ready),
        message_views(plan.messages@) == prompt_messages(trimmed(text@), ready, agent_ready),
        optional_view(plan.ask) == if trimmed(text@).len() > 0 && ready && agent_ready {
            Some(trimmed(text@))
        } else {
            None
        },
{
    let prompt = trim(text);
    let mut messages: Vec<ChatMessage> = Vec::new();
    if prompt.as_str().is_empty() {
        assert(message_views(messages@) =~= prompt_messages(prompt@, ready, agent_ready));
        return SubmitPlan { clear_prompt: false, messages, ask: None };
    }
    if !ready {
        messages.push(
            onboarding_message(
                "Chat unlocks after the first deposit and PPQ funding step.".to_owned(),
            ),
        );
        assert(message_views(messages@) =~= prompt_messages(prompt@, ready, agent_ready));
        return SubmitPlan { clear_prompt: false, messages, ask: None };
    }
    messages.push(user_message(prompt.clone()));
    if !agent_ready {
        messages.push(onboarding_message("The wallet agent is not ready yet.".to_owned()));
        assert(message_views(messages@) =~= prompt_messages(prompt@, ready, agent_ready));
        return SubmitPlan { clear_prompt: true, messages, ask: None };
    }
    assert(message_views(messages@) =~= prompt_messages(prompt@, ready, agent_ready));
    SubmitPlan { clear_prompt: true, messages, ask: Some(prompt) }
}

/// What is shown where the agent failed.
pub fn agent_failed(fault: &str) -> (message: ChatMessage)
    ensures
        message@ == system_message("Agent error: "@ + fault@),
{
    onboarding_message("Agent error: ".to_owned().concat(fault))
}

/// The name of a session, from the milliseconds at which it was started.
pub fn session_name(started_at: u64) -> (name: String)
    ensures
        name@ == "fedigents.session."@ + decimal_text(started_at as nat),
{
    "fedigents.session.".to_owned().concat(decimal(started_at).as_str())
}

// ── Payments that wait for confirmation ─────────────────────────────────

/// How a payment is made.
#[derive(Debug)]
pub enum PaymentKind {
    /// An invoice, which states its amount itself.
    Bolt11 { invoice: String, amount_sats: Option<u64> },
    /// An address, with the amount to send there.
    LnAddress { address: String, amount_sats: u64 },
}

impl PaymentKind {
    /// How a proposed payment is made: one without an amount is an invoice.
    pub fn of(proposal: &PendingPaymentProposal) -> (kind: PaymentKind)
        ensures
            kind == match proposal.amount_sats {
                Some(amount_sats) => PaymentKind::LnAddress {
                    address: proposal.payment,
                    amount_sats,
                },
                None => PaymentKind::Bolt11 { invoice: proposal.payment, amount_sats: None },
            },
    {
        match proposal.amount_sats {
            Some(amount_sats) => PaymentKind::LnAddress {
                address: proposal.payment.clone(),
                amount_sats,
            },
            None => PaymentKind::Bolt11 { invoice: proposal.payment.clone(), amount_sats: None },
        }
    }

    /// What the wallet is asked to pay: an invoice as it is, an address with the amount.
    pub fn pay_arguments(&self) -> (arguments: (String, Option<u64>))
        ensures
            arguments == match *self {
                PaymentKind::Bolt11 { invoice, .. } => (invoice, None),
                PaymentKind::LnAddress { address, amount_sats } => (address, Some(amount_sats)),
            },
    {
        match self {
            PaymentKind::Bolt11 { invoice, .. } => (invoice.clone(), None),
            PaymentKind::LnAddress { address, amount_sats } => (
                address.clone(),
                Some(*amount_sats),
            ),
        }
    }

    /// The amount as it is shown.
    pub fn amount_label(&self) -> (label: String)
        ensures
            label@ == match *self {
                PaymentKind::Bolt11 { amount_sats: Some(amount), .. } => decimal_text(
                    amount as nat,
                ) + " sats"@,
                PaymentKind::LnAddress { amount_sats, .. } => decimal_text(amount_sats as nat)
                    + " sats"@,
                _ => "Amount encoded in invoice"@,
            },
    {
        match self {
            PaymentKind::Bolt11 { amount_sats: Some(amount), .. } => decimal(*amount).concat(
                " sats",
            ),
            PaymentKind::LnAddress { amount_sats, .. } => decimal(*amount_sats).concat(" sats"),
            _ => "Amount encoded in invoice".to_owned(),
        }
    }

    /// What is paid as it is shown: a long invoice only by its front and end.
    pub fn request_label(&self) -> (label: String)
        ensures
            label@ == match *self {
                PaymentKind::Bolt11 { invoice, .. } => shortened(invoice@, 96),
                PaymentKind::LnAddress { address, .. } => address@,
            },
    {
        match self {
            PaymentKind::Bolt11 { invoice, .. } => truncate_middle(invoice.as_str(), 96),
            PaymentKind::LnAddress { address, .. } => address.clone(),
        }
    }
}

/// The card on which a payment waits for the user: the payment, whether it is being sent, and how
/// that ended.
#[derive(Debug)]
pub struct PaymentCard {
    pub pending: Option<PendingPaymentProposal>,
    pub confirming: bool,
    pub result: Option<Result<String, String>>,
}

/// What a `PaymentCard` says.
pub struct CardView {
    pub pending: Option<ProposalView>,
    pub confirming: bool,
    pub result: Option<Result<Seq<char>, Seq<char>>>,
}

impl View for PaymentCard {
    type V = CardView;

    open spec fn view(&self) -> CardView {
        CardView {
            pending: proposal_view(self.pending),
            confirming: self.confirming,
            result: match self.result {
                Some(Ok(text)) => Some(Ok(text@)),
                Some(Err(text)) => Some(Err(text@)),
                None => None,
            },
        }
    }
}

/// What the confirm button leads to.
#[derive(Debug)]
pub enum ConfirmStep {
    /// Nothing: nothing waits, or it is being sent already.
    Ignore,
    /// Only a message, because there is no wallet.
    Refuse(ChatMessage),
    /// The payment is sent.
    Pay { payment: String, amount_sats: Option<u64> },
}

/// Whether the confirm button sends a payment.
pub open spec fn confirms(card: CardView, wallet_ready: bool) -> bool {
    !card.confirming && card.pending is Some && wallet_ready
}

/// Whether `step` is what the confirm button leads to.
pub open spec fn confirm_leads_to(card: CardView, wallet_ready: bool, step: ConfirmStep) -> bool {
    if confirms(card, wallet_ready) {
        &&& step matches ConfirmStep::Pay { payment, amount_sats }
        &&& payment@ == card.pending->0.payment
        &&& amount_sats == card.pending->0.amount_sats
    } else if card.confirming || card.pending is None {
        step is Ignore
    } else {
        &&& step matches ConfirmStep::Refuse(message)
        &&& message@ == system_message(
            "Wallet runtime is unavailable, so the payment could not be sent."@,
        )
    }
}

/// The card after the confirm button.
pub open spec fn card_confirmed(card: CardView, wallet_ready: bool) -> CardView {
    if confirms(card, wallet_ready) {
        CardView { confirming: true, result: None, ..card }
    } else {
        card
    }
}

/// The card after a payment was sent or could not be.
pub open spec fn card_sent(card: CardView, result: Result<Seq<char>, Seq<char>>) -> CardView {
    CardView {
        confirming: false,
        result: Some(
            match result {
                Ok(_) => Ok("Payment sent successfully."@),
                Err(fault) => Err("Payment failed: "@ + fault),
            },
        ),
        ..card
    }
}

/// The card after it was dismissed.
pub open spec fn card_dismissed(card: CardView) -> CardView {
    CardView { pending: None, result: None, ..card }
}

/// What comes of a payment that was sent: a line of the log, and what the agent is told.
#[derive(Debug)]
pub struct SentNotice {
    pub line: ChatMessage,
    pub tell_agent: String,
}

impl PaymentCard {
    /// A card on which nothing waits.
    pub fn new() -> (card: PaymentCard)
        ensures
            card@ == (CardView { pending: None, confirming: false, result: None }),
    {
        PaymentCard { pending: None, confirming: false, result: None }
    }

    /// Puts what an answer left waiting on the card, which may be nothing.
    pub fn propose(&mut self, pending: Option<PendingPaymentProposal>)
        ensures
            final(self)@ == (CardView { pending: proposal_view(pending), ..old(self)@ }),
    {
        self.pending = pending;
    }

    /// Takes the confirm button in.
    pub fn confirm(&mut self, wallet_ready: bool) -> (step: ConfirmStep)
        ensures
            confirm_leads_to(old(self)@, wallet_ready, step),
            final(self)@ == card_confirmed(old(self)@, wallet_ready),
    {
        if self.confirming {
            return ConfirmStep::Ignore;
        }
        let (payment, amount_sats) = match &self.pending {
            Some(proposal) => PaymentKind::of(proposal).pay_arguments(),
            None => return ConfirmStep::Ignore,
        };
        if !wallet_ready {
            return ConfirmStep::Refuse(
                onboarding_message(
                    "Wallet runtime is unavailable, so the payment could not be sent.".to_owned(),
                ),
            );
        }
        self.confirming = true;
        self.result = None;
        ConfirmStep::Pay { payment, amount_sats }
    }

    /// Takes in how sending a payment ended.
    pub fn sent(&mut self, result: Result<String, String>, summary: &str) -> (notice: Option<
        SentNotice,
    >)
        ensures
            final(self)@ == card_sent(
                old(self)@,
                match result {
                    Ok(text) => Ok(text@),
                    Err(fault) => Err(fault@),
                },
            ),
            match result {
                Ok(text) => {
                    &&& notice matches Some(notice)
                    &&& notice.line@ == (MessageView {
                        role: ChatRole::Tool,
                        body: "pay_lightning => "@ + text@,
                    })
                    &&& notice.tell_agent@ == "Outgoing payment succeeded: "@ + summary@
                },
                Err(_) => notice is None,
            },
    {
        self.confirming = false;
        match result {
            Ok(text) => {
                self.result = Some(Ok("Payment sent successfully.".to_owned()));
                Some(
                    SentNotice {
                        line: ChatMessage {
                            role: ChatRole::Tool,
                            body: "pay_lightning => ".to_owned().concat(text.as_str()),
                        },
                        tell_agent: "Outgoing payment succeeded: ".to_owned().concat(summary),
                    },
                )
            },
            Err(fault) => {
                self.result = Some(Err("Payment failed: ".to_owned().concat(fault.as_str())));
                None
            },
        }
    }

    /// Clears the card.
    pub fn dismiss(&mut self)
        ensures
            final(self)@ == card_dismissed(old(self)@),
    {
        self.pending = None;
        self.result = None;
    }

    /// Whether the card is shown.
    pub fn is_shown(&self) -> (shown: bool)
        ensures
            shown == (self@.pending is Some || self@.confirming || self@.result is Some),
    {
        self.pending.is_some() || self.confirming || self.result.is_some()
    }
}

/// What is paid is what was proposed, to the letter.
pub proof fn law_confirmed_payment_is_the_proposed_one(
    card: CardView,
    wallet_ready: bool,
    step: ConfirmStep,
)
    requires
        confirm_leads_to(card, wallet_ready, step),
    ensures
        step matches ConfirmStep::Pay { payment, amount_sats } ==> {
            &&& card.pending matches Some(proposal)
            &&& payment@ == proposal.payment
            &&& amount_sats == proposal.amount_sats
        },
{
}

/// While a payment is being sent, the confirm button sends nothing more, and a dismissed payment
/// cannot be confirmed.
pub proof fn law_payments_are_sent_once(card: CardView, wallet_ready: bool, step: ConfirmStep)
    ensures
        confirms(card, wallet_ready) && confirm_leads_to(
            card_confirmed(card, wallet_ready),
            wallet_ready,
            step,
        ) ==> step is Ignore,
        confirm_leads_to(card_dismissed(card), wallet_ready, step) ==> step is Ignore,
{
}

// ── Topping the model service up ────────────────────────────────────────

/// What the top-up button leads to.
#[derive(Debug)]
pub enum TopupStep {
    /// Nothing: a top-up is under way.
    Ignore,
    /// Only a message.
    Refuse(ChatMessage),
    /// A top-up of this account.
    Start(PpqAccount),
}

/// Takes the top-up button in.
pub fn top_up_ppq(in_progress: bool, account: &Option<PpqAccount>, wallet_ready: bool) -> (step:
    TopupStep)
    ensures
        if in_progress {
            step is Ignore
        } else {
            match *account {
                None => step matches TopupStep::Refuse(message) && message@ == system_message(
                    "PPQ account metadata is unavailable."@,
                ),
                Some(account) => if wallet_ready {
                    step == TopupStep::Start(account)
                } else {
                    step matches TopupStep::Refuse(message) && message@ == system_message(
                        "Wallet runtime is unavailable."@,
                    )
                },
            }
        },
{
    if in_progress {
        return TopupStep::Ignore;
    }
    match account {
        None => TopupStep::Refuse(
            onboarding_message("PPQ account metadata is unavailable.".to_owned()),
        ),
        Some(account) => if wallet_ready {
            TopupStep::Start(account.copy())
        } else {
            TopupStep::Refuse(onboarding_message("Wallet runtime is unavailable.".to_owned()))
        },
    }
}

/// What is shown once a top-up ended.
pub fn top_up_ended(result: Result<(), String>) -> (message: ChatMessage)
    ensures
        message@ == system_message(
            match result {
                Ok(_) => "PPQ top-up payment sent automatically. Credit balance should refresh shortly."@,
                Err(fault) => "PPQ top-up failed: "@ + fault@,
            },
        ),
{
    match result {
        Ok(_) => onboarding_message(
            "PPQ top-up payment sent automatically. Credit balance should refresh shortly.".to_owned(),
        ),
        Err(fault) => onboarding_message(
            "PPQ top-up failed: ".to_owned().concat(fault.as_str()),
        ),
    }
}

/// What a reading of the service's balance leads to.
#[derive(Clone, Copy, Debug, PartialEq, Eq, Structural)]
pub enum BalanceStep {
    /// The warning and the grace after a top-up end.
    Clear,
    /// A warning is shown.
    Warn,
    /// All stays as it is.
    Leave,
}

/// Takes a reading of the service's balance in. A low one is warned of, but not while a top-up is
/// under way or was just made.
pub fn balance_checked(enough: bool, topping_up: bool, in_grace: bool) -> (step: BalanceStep)
    ensures
        step == if enough {
            BalanceStep::Clear
        } else if !topping_up && !in_grace {
            BalanceStep::Warn
        } else {
            BalanceStep::Leave
        },
{
    if enough {
        BalanceStep::Clear
    } else if !topping_up && !in_grace {
        BalanceStep::Warn
    } else {
        BalanceStep::Leave
    }
}

// ── Voice messages ──────────────────────────────────────────────────────

/// A voice message that is being recorded, and how far the pointer was drawn to the left.
#[derive(Clone, Copy, Debug, PartialEq, Eq, Structural)]
pub struct Recording {
    pub active: bool,
    pub start_x: i32,
    pub drag_x: i32,
}

/// How a recording ended.
#[derive(Clone, Copy, Debug, PartialEq, Eq, Structural)]
pub enum RecordingEnd {
    /// There was none.
    Ignore,
    /// It is thrown away.
    Discard,
    /// It is turned into text.
    Transcribe,
}

/// How far the pointer counts as drawn: to the left only, and no further than the bar goes.
pub open spec fn drag_of(start_x: i32, x: i32) -> int {
    if x - start_x < -40 {
        -40
    } else if x > start_x {
        0
    } else {
        x - start_x
    }
}

impl Recording {
    /// Begins a recording where the pointer is.
    pub fn press(&mut self, x: i32)
        ensures
            *final(self) == (Recording { active: true, start_x: x, drag_x: 0 }),
    {
        self.active = true;
        self.start_x = x;
        self.drag_x = 0;
    }

    /// Follows the pointer.
    pub fn drag(&mut self, x: i32)
        ensures
            final(self).active == old(self).active,
            final(self).start_x == old(self).start_x,
            final(self).drag_x == if old(self).active {
                drag_of(old(self).start_x, x)
            } else {
                old(self).drag_x as int
            },
    {
        if !self.active {
            return;
        }
        let dx: i64 = x as i64 - self.start_x as i64;
        self.drag_x = if dx < -40 {
            -40
        } else if dx > 0 {
            0
        } else {
            dx as i32
        };
    }

    /// Whether the pointer is where a recording is thrown away.
    pub fn over_trash(&self) -> (over: bool)
        ensures
            over == (self.drag_x < -30),
    {
        self.drag_x < -30
    }

    /// Ends a recording where the pointer is let go.
    pub fn release(&mut self) -> (end: RecordingEnd)
        ensures
            end == if !old(self).active {
                RecordingEnd::Ignore
            } else if old(self).drag_x < -30 {
                RecordingEnd::Discard
            } else {
                RecordingEnd::Transcribe
            },
            *final(self) == if old(self).active {
                Recording { active: false, start_x: old(self).start_x, drag_x: 0 }
            } else {
                *old(self)
            },
    {
        if !self.active {
            return RecordingEnd::Ignore;
        }
        let discard = self.over_trash();
        self.active = false;
        self.drag_x = 0;
        if discard {
            RecordingEnd::Discard
        } else {
            RecordingEnd::Transcribe
        }
    }

    /// Ends a recording that was interrupted, and says whether there was one to throw away.
    pub fn cancel(&mut self) -> (discard: bool)
        ensures
            discard == old(self).active,
            *final(self) == if old(self).active {
                Recording { active: false, start_x: old(self).start_x, drag_x: 0 }
            } else {
                *old(self)
            },
    {
        if !self.active {
            return false;
        }
        self.active = false;
        self.drag_x = 0;
        true
    }
}

/// What a recording was turned into, or why not: there has to be one, and the answer has to be a
/// text.
pub fn transcript(recorded: bool, answer: Option<String>) -> (text: Result<String, String>)
    ensures
        match text {
            Ok(text) => recorded && answer == Some(text),
            Err(message) => {
                &&& !recorded || answer is None
                &&& message@ == if recorded {
                    "Transcription returned non-string"@
                } else {
                    "No audio recorded"@
                }
            },
        },
{
    if !recorded {
        return Err("No audio recorded".to_owned());
    }
    match answer {
        Some(text) => Ok(text),
        None => Err("Transcription returned non-string".to_owned()),
    }
}

/// Whether a transcript is handed on as a prompt: a blank one is not.
pub fn is_spoken(text: &str) -> (spoken: bool)
    ensures
        spoken == (trimmed(text@).len() > 0),
{
    !trim(text).as_str().is_empty()
}

// ── Laws ────────────────────────────────────────────────────────────────

/// What the user enters is shown as theirs and asked, without the white space around it and
/// otherwise to the letter, once the chat is unlocked and there is an agent. Before that nothing is
/// asked, and a blank entry does nothing at all.
pub proof fn law_prompts_are_asked_as_entered(
    text: &str,
    ready: bool,
    agent_ready: bool,
    plan: SubmitPlan,
)
    requires
        call_ensures(submit_prompt, (text, ready, agent_ready), plan),
    ensures
        ready && agent_ready && trimmed(text@).len() > 0 ==> {
            &&& optional_view(plan.ask) == Some(trimmed(text@))
            &&& plan.messages@.len() == 1
            &&& plan.messages@[0].role is User
            &&& plan.messages@[0].body@ == trimmed(text@)
            &&& plan.clear_prompt
        },
        !ready || !agent_ready || trimmed(text@).len() == 0 ==> plan.ask is None,
        trimmed(text@).len() == 0 ==> plan.messages@.len() == 0 && !plan.clear_prompt,
        !ready ==> !plan.clear_prompt && forall|i: int|
            0 <= i < plan.messages@.len() ==> !((#[trigger] plan.messages@[i]).role is User),
        ready && !agent_ready && trimmed(text@).len() > 0 ==> {
            &&& plan.messages@.len() == 2
            &&& plan.messages@[0].role is User
            &&& plan.messages@[0].body@ == trimmed(text@)
            &&& plan.messages@[1].role is System
            &&& plan.clear_prompt
        },
{
    let views = message_views(plan.messages@);
    assert(views.len() == plan.messages@.len());
    assert forall|i: int| 0 <= i < views.len() implies #[trigger] views[i] == plan.messages@[i]@ by {}
    if views.len() > 0 {
        assert(views[0] == plan.messages@[0]@);
    }
    if views.len() > 1 {
        assert(views[1] == plan.messages@[1]@);
    }
}

/// A transcript is handed on as a prompt exactly where it would be asked.
pub proof fn law_spoken_words_are_prompts(text: &str, spoken: bool, plan: SubmitPlan)
    requires
        call_ensures(is_spoken, (text,), spoken),
        call_ensures(submit_prompt, (text, true, true), plan),
    ensures
        spoken <==> plan.ask is Some,
{
}

/// A fault of the agent is shown to the letter.
pub proof fn law_agent_faults_are_shown(fault: &str, message: ChatMessage)
    requires
        call_ensures(agent_failed, (fault,), message),
    ensures
        message.role is System,
        fault@.is_suffix_of(message.body@),
{
    assert(message@.body.subrange(message@.body.len() - fault@.len(), message@.body.len() as int)
        =~= fault@);
}

/// Sessions that were started at different times have different names.
pub proof fn law_sessions_are_told_apart(a: u64, b: u64, first: String, second: String)
    requires
        call_ensures(session_name, (a,), first),
        call_ensures(session_name, (b,), second),
        first@ == second@,
    ensures
        a == b,
{
    let front = "fedigents.session."@;
    let (x, y) = (decimal_text(a as nat), decimal_text(b as nat));
    assert((front + x).skip(front.len() as int) =~= x);
    assert((front + y).skip(front.len() as int) =~= y);
    crate::text_laws::law_numbers_are_told_apart(a as nat, b as nat);
}

/// A proposal is paid to where it says, with the satoshis that it says, and without any where it
/// says none. What is shown of it are the same satoshis.
pub proof fn law_proposals_are_paid_and_shown_alike(
    proposal: PendingPaymentProposal,
    kind: PaymentKind,
    arguments: (String, Option<u64>),
    amount: String,
    request: String,
)
    requires
        call_ensures(PaymentKind::of, (&proposal,), kind),
        call_ensures(PaymentKind::pay_arguments, (&kind,), arguments),
        call_ensures(PaymentKind::amount_label, (&kind,), amount),
        call_ensures(PaymentKind::request_label, (&kind,), request),
    ensures
        arguments.0@ == proposal.payment@,
        arguments.1 == proposal.amount_sats,
        proposal.amount_sats matches Some(sats) ==> amount@ == decimal_text(sats as nat) + " sats"@
            && request@ == proposal.payment@,
        proposal.amount_sats is None && proposal.payment@.len() <= 96 ==> request@
            == proposal.payment@,
        proposal.amount_sats is None ==> amount@ == "Amount encoded in invoice"@,
{
}

/// The confirm button pays what waits where it can: there is a payment, it is not being sent, and
/// there is a wallet. Without a wallet it says so, and in any other case it does nothing. The
/// payment goes on waiting on the card until it is dismissed or another is proposed.
pub proof fn law_confirming_pays_what_waits(card: CardView, wallet_ready: bool, step: ConfirmStep)
    requires
        confirm_leads_to(card, wallet_ready, step),
    ensures
        step is Pay <==> card.pending is Some && !card.confirming && wallet_ready,
        step is Refuse <==> card.pending is Some && !card.confirming && !wallet_ready,
        card_confirmed(card, wallet_ready).pending == card.pending,
        card_confirmed(card, wallet_ready).confirming <==> card.confirming || step is Pay,
        step is Pay ==> card_confirmed(card, wallet_ready).result is None,
        !(step is Pay) ==> card_confirmed(card, wallet_ready) == card,
{
}

/// How sending a payment ended is shown on the card: that it was sent, or why not, to the letter.
/// After that it can be confirmed again.
pub proof fn law_ends_of_payments_are_shown(card: CardView, result: Result<Seq<char>, Seq<char>>)
    ensures
        !card_sent(card, result).confirming,
        card_sent(card, result).pending == card.pending,
        result is Ok ==> (card_sent(card, result).result matches Some(Ok(_))),
        result matches Err(fault) ==> (card_sent(card, result).result matches Some(Err(shown))
            && fault.is_suffix_of(shown)),
        confirms(card_sent(card, result), true) <==> card.pending is Some,
        card_dismissed(card).pending is None,
        card_dismissed(card).result is None,
        card_dismissed(card).confirming == card.confirming,
{
    if let Err(fault) = result {
        let shown = "Payment failed: "@ + fault;
        assert(shown.subrange(shown.len() - fault.len(), shown.len() as int) =~= fault);
    }
}

/// A payment that was sent is told of with what the wallet says and with its summary, to the
/// letter.
pub proof fn law_sent_payments_are_told(
    card: &mut PaymentCard,
    result: Result<String, String>,
    summary: &str,
    notice: Option<SentNotice>,
)
    requires
        call_ensures(PaymentCard::sent, (card, result, summary), notice),
    ensures
        notice is Some <==> result is Ok,
        result matches Ok(text) ==> {
            &&& notice matches Some(told)
            &&& told.line.role is Tool
            &&& text@.is_suffix_of(told.line.body@)
            &&& summary@.is_suffix_of(told.tell_agent@)
        },
{
    if let Ok(text) = result {
        let told = notice->0;
        let line = told.line@.body;
        assert(line.subrange(line.len() - text@.len(), line.len() as int) =~= text@);
        let tell = told.tell_agent@;
        assert(tell.subrange(tell.len() - summary@.len(), tell.len() as int) =~= summary@);
    }
}

/// A card holds what was proposed last, and is shown while there is anything on it.
pub proof fn law_cards_hold_the_last_proposal(
    card: &mut PaymentCard,
    pending: Option<PendingPaymentProposal>,
    done: (),
)
    requires
        call_ensures(PaymentCard::propose, (card, pending), done),
    ensures
        pending matches Some(proposal) ==> {
            &&& final(card)@.pending matches Some(held)
            &&& held.payment == proposal.payment@
            &&& held.amount_sats == proposal.amount_sats
            &&& held.summary == proposal.summary@
        },
        pending is None ==> final(card)@.pending is None,
        final(card)@.confirming == old(card)@.confirming,
        final(card)@.result == old(card)@.result,
{
}

/// A top-up is made of the account that there is, where there is a wallet and none is under way.
pub proof fn law_topups_are_of_the_account(
    in_progress: bool,
    account: Option<PpqAccount>,
    wallet_ready: bool,
    step: TopupStep,
)
    requires
        call_ensures(top_up_ppq, (in_progress, &account, wallet_ready), step),
    ensures
        step is Ignore <==> in_progress,
        step is Start <==> !in_progress && account is Some && wallet_ready,
        step matches TopupStep::Start(used) ==> account == Some(used),
{
}

/// A low balance is warned of unless it is being seen to, and enough of a balance ends the warning.
pub proof fn law_low_balances_are_warned_of(
    enough: bool,
    topping_up: bool,
    in_grace: bool,
    step: BalanceStep,
)
    requires
        call_ensures(balance_checked, (enough, topping_up, in_grace), step),
    ensures
        step is Clear <==> enough,
        step is Warn <==> !enough && !topping_up && !in_grace,
{
}

/// A top-up that failed is told with the fault, to the letter.
pub proof fn law_failed_topups_are_told(result: Result<(), String>, message: ChatMessage)
    requires
        call_ensures(top_up_ended, (result,), message),
    ensures
        message.role is System,
        result matches Err(fault) ==> fault@.is_suffix_of(message.body@),
{
    if let Err(fault) = result {
        let body = message@.body;
        assert(body.subrange(body.len() - fault@.len(), body.len() as int) =~= fault@);
    }
}

/// The pointer counts as drawn by as far as it is to the left of where it was pressed, but no
/// further than the bar goes, and to the right not at all.
pub proof fn law_drags_follow_the_pointer(start_x: i32, x: i32, further: i32)
    ensures
        -40 <= drag_of(start_x, x) <= 0,
        start_x - 40 <= x <= start_x ==> start_x + drag_of(start_x, x) == x,
        x >= start_x ==> drag_of(start_x, x) == 0,
        x <= start_x - 40 ==> drag_of(start_x, x) == -40,
        further <= x ==> drag_of(start_x, further) <= drag_of(start_x, x),
{
}

/// A recording that is let go is thrown away exactly where the pointer was drawn to the trash, more
/// than thirty to the left, and is turned into text otherwise. Without a recording nothing happens.
pub proof fn law_recordings_end_where_they_are_let_go(
    recording: &mut Recording,
    over: bool,
    end: RecordingEnd,
)
    requires
        call_ensures(Recording::over_trash, (&*old(recording),), over),
        call_ensures(Recording::release, (recording,), end),
    ensures
        end is Ignore <==> !old(recording).active,
        end is Discard <==> old(recording).active && old(recording).drag_x < -30,
        end is Discard ==> over,
        end is Transcribe ==> !over,
        !final(recording).active,
        old(recording).active ==> final(recording).drag_x == 0,
{
}

/// A recording begins where the pointer is pressed, with nothing drawn, and follows the pointer
/// while it is on.
pub proof fn law_recordings_begin_where_they_are_pressed(
    recording: &mut Recording,
    dragged: &mut Recording,
    x: i32,
    done: (),
)
    requires
        call_ensures(Recording::press, (recording, x), done),
        call_ensures(Recording::drag, (dragged, x), done),
    ensures
        final(recording).active,
        final(recording).start_x == x,
        final(recording).drag_x == 0,
        old(dragged).active ==> final(dragged).drag_x == drag_of(old(dragged).start_x, x),
        !old(dragged).active ==> *final(dragged) == *old(dragged),
        final(dragged).active == old(dragged).active,
        final(dragged).start_x == old(dragged).start_x,
{
}

/// A transcript is the answer as it is, where something was recorded.
pub proof fn law_transcripts_are_as_answered(
    recorded: bool,
    answer: Option<String>,
    text: Result<String, String>,
)
    requires
        call_ensures(transcript, (recorded, answer), text),
    ensures
        text is Ok <==> recorded && answer is Some,
        text matches Ok(words) ==> answer == Some(words),
{
}

/// The confirm button leads to just what waits on the card, and a card is shown exactly while there
/// is anything on it.
pub proof fn law_cards_pay_what_they_hold(
    card: &mut PaymentCard,
    wallet_ready: bool,
    step: ConfirmStep,
    shown: bool,
)
    requires
        call_ensures(PaymentCard::confirm, (card, wallet_ready), step),
        call_ensures(PaymentCard::is_shown, (&*final(card),), shown),
    ensures
        step matches ConfirmStep::Pay { payment, amount_sats } ==> {
            &&& old(card)@.pending matches Some(proposal)
            &&& payment@ == proposal.payment
            &&& amount_sats == proposal.amount_sats
            &&& !old(card)@.confirming
            &&& final(card)@.confirming
        },
        final(card)@.pending == old(card)@.pending,
        shown <==> final(card)@.pending is Some || final(card)@.confirming || final(card)@.result is Some,
{
}

/// A card that is dismissed holds nothing, and a recording that is interrupted is thrown away.
pub proof fn law_dismissed_cards_are_empty(
    card: &mut PaymentCard,
    recording: &mut Recording,
    done: (),
    discard: bool,
)
    requires
        call_ensures(PaymentCard::dismiss, (card,), done),
        call_ensures(Recording::cancel, (recording,), discard),
    ensures
        final(card)@.pending is None,
        final(card)@.result is None,
        final(card)@.confirming == old(card)@.confirming,
        discard == old(recording).active,
        !final(recording).active,
{
}

} // verus!
