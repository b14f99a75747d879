//! How a fresh wallet gets to its first deposit: the decisions between what the federation client
//! reports and what it is asked next.
use vstd::prelude::*;

use crate::fedimint::{Amount, ReceiveCode};
use crate::text::{same_text, views};

verus! {

/// What the wallet reports while it is brought up.
#[derive(Clone, Debug)]
pub enum BootstrapEvent {
    Note(String),
    ReceiveCode(String),
    Balance(Amount),
}

/// What a `BootstrapEvent` says.
pub enum BootstrapEventView {
    Note(Seq<char>),
    ReceiveCode(Seq<char>),
    Balance(Amount),
}

impl View for BootstrapEvent {
    type V = BootstrapEventView;

    open spec fn view(&self) -> BootstrapEventView {
        match *self {
            BootstrapEvent::Note(note) => BootstrapEventView::Note(note@),
            BootstrapEvent::ReceiveCode(code) => BootstrapEventView::ReceiveCode(code@),
            BootstrapEvent::Balance(amount) => BootstrapEventView::Balance(amount),
        }
    }
}

/// What several events say.
pub open spec fn event_views(events: Seq<BootstrapEvent>) -> Seq<BootstrapEventView> {
    events.map_values(|event: BootstrapEvent| event@)
}

fn note(text: &str) -> (event: BootstrapEvent)
    ensures
        event@ == BootstrapEventView::Note(text@),
{
    BootstrapEvent::Note(text.to_owned())
}

fn one_event(event: BootstrapEvent) -> (events: Vec<BootstrapEvent>)
    ensures
        event_views(events@) == seq![event@],
{
    let mut events: Vec<BootstrapEvent> = Vec::new();
    events.push(event);
    assert(event_views(events@) =~= seq![event@]);
    events
}

fn two_events(first: BootstrapEvent, second: BootstrapEvent) -> (events: Vec<BootstrapEvent>)
    ensures
        event_views(events@) == seq![first@, second@],
{
    let mut events: Vec<BootstrapEvent> = Vec::new();
    events.push(first);
    events.push(second);
    assert(event_views(events@) =~= seq![first@, second@]);
    events
}

fn no_events() -> (events: Vec<BootstrapEvent>)
    ensures
        event_views(events@) == Seq::<BootstrapEventView>::empty(),
{
    let events: Vec<BootstrapEvent> = Vec::new();
    assert(event_views(events@) =~= Seq::<BootstrapEventView>::empty());
    events
}

// ── Bringing the wallet up ──────────────────────────────────────────────

/// What has to be done next to bring the wallet up.
#[derive(Debug)]
pub enum BootstrapStep {
    /// A receive code has to be come by.
    EnsureReceiveCode,
    /// A deposit under this receive code has to be waited for.
    AwaitDeposit { payment_code_idx: u64 },
    /// An invoice for the first deposit has to be made.
    MakeInvoice { amount_sats: u64, description: String },
    /// The balance has to be read once more.
    ReadBalance,
    /// The wallet is up.
    Finished,
}

/// What is noted where no receive code can be had.
pub open spec fn no_code_note(fault: Seq<char>) -> Seq<char> {
    "LNURL receive setup is unavailable in this federation right now ("@ + fault
        + "). Falling back to a starter invoice."@
}

/// What is reported of a receive code, had or not.
pub open spec fn code_event(code: Result<ReceiveCode, String>) -> BootstrapEventView {
    match code {
        Ok(code) => BootstrapEventView::ReceiveCode(code.lnurl@),
        Err(fault) => BootstrapEventView::Note(no_code_note(fault@)),
    }
}

/// The first decision, on the balance and on whether the model service is funded already.
pub fn balance_known(balance: Amount, ppq_ready: bool) -> (out: (
    Vec<BootstrapEvent>,
    BootstrapStep,
))
    ensures
        event_views(out.0@) == seq![BootstrapEventView::Balance(balance)],
        out.1 == if ppq_ready {
            BootstrapStep::Finished
        } else {
            BootstrapStep::EnsureReceiveCode
        },
{
    let events = one_event(BootstrapEvent::Balance(balance));
    if ppq_ready {
        (events, BootstrapStep::Finished)
    } else {
        (events, BootstrapStep::EnsureReceiveCode)
    }
}

/// The decision after a receive code was had or not. An empty wallet waits for a deposit under the
/// code, or makes an invoice where it has none. A wallet with a balance goes on.
pub fn receive_code_known(balance: Amount, code: Result<ReceiveCode, String>) -> (out: (
    Vec<BootstrapEvent>,
    BootstrapStep,
))
    ensures
        if balance.msats != 0 {
            &&& event_views(out.0@) == seq![
                code_event(code),
                BootstrapEventView::Note(
                    "Existing wallet balance detected. Continuing with PPQ funding."@,
                ),
            ]
            &&& out.1 == BootstrapStep::ReadBalance
        } else {
            match code {
                Ok(receive) => {
                    &&& event_views(out.0@) == seq![
                        code_event(code),
                        BootstrapEventView::Note(
                            "Wallet joined. Waiting for the first LNURL deposit before funding PPQ."@,
                        ),
                    ]
                    &&& out.1 == BootstrapStep::AwaitDeposit {
                        payment_code_idx: receive.payment_code_idx,
                    }
                },
                Err(_) => {
                    &&& event_views(out.0@) == seq![code_event(code)]
                    &&& out.1 matches BootstrapStep::MakeInvoice { amount_sats, description }
                    &&& amount_sats == 1000
                    &&& description@ == "Initial Fedigents funding"@
                },
            }
        },
{
    let (event, payment_code_idx) = match code {
        Ok(code) => (BootstrapEvent::ReceiveCode(code.lnurl), Some(code.payment_code_idx)),
        Err(fault) => (
            BootstrapEvent::Note(
                "LNURL receive setup is unavailable in this federation right now (".to_owned().concat(
                    fault.as_str(),
                ).concat("). Falling back to a starter invoice."),
            ),
            None,
        ),
    };
    if balance.msats != 0 {
        return (
            two_events(
                event,
                note("Existing wallet balance detected. Continuing with PPQ funding."),
            ),
            BootstrapStep::ReadBalance,
        );
    }
    match payment_code_idx {
        Some(payment_code_idx) => (
            two_events(
                event,
                note("Wallet joined. Waiting for the first LNURL deposit before funding PPQ."),
            ),
            BootstrapStep::AwaitDeposit { payment_code_idx },
        ),
        None => (
            one_event(event),
            BootstrapStep::MakeInvoice {
                amount_sats: 1000,
                description: "Initial Fedigents funding".to_owned(),
            },
        ),
    }
}

/// What is reported of the invoice for the first deposit.
pub fn invoice_made(invoice: String) -> (events: Vec<BootstrapEvent>)
    ensures
        event_views(events@) == seq![
            BootstrapEventView::Note(
                "Paste this starter BOLT11 invoice into your wallet and pay it to continue setup:"@,
            ),
            BootstrapEventView::Note(invoice@),
        ],
{
    two_events(
        note("Paste this starter BOLT11 invoice into your wallet and pay it to continue setup:"),
        BootstrapEvent::Note(invoice),
    )
}

/// What is reported once the wallet is up.
pub fn balance_refreshed(balance: Amount) -> (events: Vec<BootstrapEvent>)
    ensures
        event_views(events@) == seq![BootstrapEventView::Balance(balance)],
{
    one_event(BootstrapEvent::Balance(balance))
}

// ── Following one receive ───────────────────────────────────────────────

/// What the federation client reports of an incoming payment.
#[derive(Debug)]
pub enum ReceiveUpdate {
    Claimed,
    /// With the reason in its debug form.
    Canceled(String),
    /// Anything on the way there.
    Other,
}

/// Whether a receive is settled by an update, and whether it was claimed.
pub open spec fn settles(update: ReceiveUpdate) -> Option<bool> {
    match update {
        ReceiveUpdate::Claimed => Some(true),
        ReceiveUpdate::Canceled(_) => Some(false),
        ReceiveUpdate::Other => None,
    }
}

/// Whether a receive was claimed, by all its updates: the first that settles it counts, and one
/// that nothing settles was not.
pub open spec fn claimed(updates: Seq<ReceiveUpdate>) -> bool
    decreases updates.len(),
{
    if updates.len() == 0 {
        false
    } else {
        match settles(updates[0]) {
            Some(claimed) => claimed,
            None => claimed(updates.skip(1)),
        }
    }
}

/// What one more update says of a receive: nothing yet, or how it was settled.
pub fn recurring_receive_update(update: &ReceiveUpdate) -> (settled: Option<bool>)
    ensures
        settled == settles(*update),
{
    match update {
        ReceiveUpdate::Claimed => Some(true),
        ReceiveUpdate::Canceled(_) => Some(false),
        ReceiveUpdate::Other => None,
    }
}

/// Whether a receive was claimed, by all its updates.
pub fn await_recurring_receive(updates: &Vec<ReceiveUpdate>) -> (r: bool)
    ensures
        r == claimed(updates@),
{
    let mut i: usize = 0;
    assert(updates@.skip(0) =~= updates@);
    while i < updates.len()
        invariant
            i <= updates@.len(),
            claimed(updates@) == claimed(updates@.skip(i as int)),
        decreases updates@.len() - i,
    {
        assert(updates@.skip(i as int).skip(1) =~= updates@.skip(i + 1));
        match recurring_receive_update(&updates[i]) {
            Some(claimed) => return claimed,
            None => {},
        }
        i += 1;
    }
    false
}

/// What an update says of the invoice for the first deposit: nothing yet, that it was paid, with
/// what is reported then, or that it never will be.
pub fn first_invoice_update(update: &ReceiveUpdate) -> (settled: Option<
    Result<Vec<BootstrapEvent>, String>,
>)
    ensures
        match *update {
            ReceiveUpdate::Claimed => settled matches Some(Ok(events)) && event_views(events@)
                == seq![BootstrapEventView::Note("First deposit received and claimed."@)],
            ReceiveUpdate::Canceled(reason) => settled matches Some(Err(message)) && message@
                == "Starter invoice canceled: "@ + reason@,
            ReceiveUpdate::Other => settled is None,
        },
{
    match update {
        ReceiveUpdate::Claimed => Some(Ok(one_event(note("First deposit received and claimed.")))),
        ReceiveUpdate::Canceled(reason) => Some(
            Err("Starter invoice canceled: ".to_owned().concat(reason.as_str())),
        ),
        ReceiveUpdate::Other => None,
    }
}

/// The fault of an invoice whose updates ended before it was settled.
pub fn first_invoice_ended() -> (message: String)
    ensures
        message@ == "Starter invoice stream ended before a settled payment"@,
{
    "Starter invoice stream ended before a settled payment".to_owned()
}

// ── Waiting for the first deposit ───────────────────────────────────────

/// An entry of the federation client's event log. Where it says that an invoice was made under a
/// receive code, it names the code's index and the operation.
#[derive(Debug)]
pub struct LogEntry {
    pub id: u64,
    pub receive: Option<(u64, String)>,
}

/// What a `LogEntry` says.
pub struct EntryView {
    pub id: u64,
    pub receive: Option<(u64, Seq<char>)>,
}

impl View for LogEntry {
    type V = EntryView;

    open spec fn view(&self) -> EntryView {
        EntryView {
            id: self.id,
            receive: match self.receive {
                Some((idx, operation)) => Some((idx, operation@)),
                None => None,
            },
        }
    }
}

/// What several log entries say.
pub open spec fn entry_views(entries: Seq<LogEntry>) -> Seq<EntryView> {
    entries.map_values(|entry: LogEntry| entry@)
}

/// What the watch is told.
#[derive(Debug)]
pub enum WatchInput {
    /// The balance.
    Balance(Amount),
    /// The operations of the invoices under the receive code, where there are any.
    Invoices(Vec<String>),
    /// The next entries of the event log.
    Entries(Vec<LogEntry>),
    /// Whether the receive that was followed got claimed.
    Settled(bool),
    /// The balance after a receive was claimed.
    Refreshed(Amount),
    /// The pause is over.
    Rested,
}

/// What the watch wants done.
#[derive(Debug)]
pub enum WatchStep {
    ReadBalance,
    ListInvoices { payment_code_idx: u64 },
    /// A receive has to be followed until it is settled.
    Follow { operation: String },
    /// The event log has to be read after this entry.
    ReadLog { after: Option<u64>, limit: u64 },
    /// The balance has to be read after a receive was claimed.
    Refresh,
    Rest { seconds: u64 },
    Finished,
}

/// What a `WatchStep` says.
pub enum WatchStepView {
    ReadBalance,
    ListInvoices { payment_code_idx: u64 },
    Follow { operation: Seq<char> },
    ReadLog { after: Option<u64>, limit: u64 },
    Refresh,
    Rest { seconds: u64 },
    Finished,
}

impl View for WatchStep {
    type V = WatchStepView;

    open spec fn view(&self) -> WatchStepView {
        match *self {
            WatchStep::ReadBalance => WatchStepView::ReadBalance,
            WatchStep::ListInvoices { payment_code_idx } => WatchStepView::ListInvoices {
                payment_code_idx,
            },
            WatchStep::Follow { operation } => WatchStepView::Follow { operation: operation@ },
            WatchStep::ReadLog { after, limit } => WatchStepView::ReadLog { after, limit },
            WatchStep::Refresh => WatchStepView::Refresh,
            WatchStep::Rest { seconds } => WatchStepView::Rest { seconds },
            WatchStep::Finished => WatchStepView::Finished,
        }
    }
}

/// What is left to look at.
#[derive(Debug)]
enum Queue {
    Empty,
    Invoices(Vec<String>, usize),
    Entries(Vec<LogEntry>, usize),
}

/// What is left to look at.
pub enum QueueView {
    Empty,
    Invoices(Seq<Seq<char>>),
    Entries(Seq<EntryView>),
}

/// The watch for the first deposit under a receive code.
#[derive(Debug)]
pub struct DepositWatch {
    payment_code_idx: u64,
    last_event: Option<u64>,
    seen: Vec<String>,
    queue: Queue,
}

/// What a `DepositWatch` knows: the operations that it followed, in order, and what it has still
/// to look at.
pub struct WatchView {
    pub payment_code_idx: u64,
    pub last_event: Option<u64>,
    pub seen: Seq<Seq<char>>,
    pub queue: QueueView,
}

/// What comes of an input: the watch after it, what is reported, and what is wanted next.
pub struct WatchOutcome {
    pub watch: WatchView,
    pub events: Seq<BootstrapEventView>,
    pub step: WatchStepView,
}

/// The first position of an operation that was not followed yet, or the length.
pub open spec fn first_unseen(operations: Seq<Seq<char>>, seen: Seq<Seq<char>>) -> nat
    decreases operations.len(),
{
    if operations.len() == 0 || !seen.contains(operations[0]) {
        0
    } else {
        1 + first_unseen(operations.skip(1), seen)
    }
}

/// Whether an entry tells of an invoice under this code that was not followed yet.
pub open spec fn is_news(entry: EntryView, payment_code_idx: u64, seen: Seq<Seq<char>>) -> bool {
    entry.receive matches Some((idx, operation)) && idx == payment_code_idx && !seen.contains(
        operation,
    )
}

/// The first position of an entry with news, or the length.
pub open spec fn first_news(
    entries: Seq<EntryView>,
    payment_code_idx: u64,
    seen: Seq<Seq<char>>,
) -> nat
    decreases entries.len(),
{
    if entries.len() == 0 || is_news(entries[0], payment_code_idx, seen) {
        0
    } else {
        1 + first_news(entries.skip(1), payment_code_idx, seen)
    }
}

/// Follows the next invoice that was not followed yet, or goes on to the event log.
pub open spec fn next_invoice(watch: WatchView, operations: Seq<Seq<char>>) -> WatchOutcome {
    let at = first_unseen(operations, watch.seen);
    if at < operations.len() {
        WatchOutcome {
            watch: WatchView {
                seen: watch.seen.push(operations[at as int]),
                queue: QueueView::Invoices(operations.skip(at as int + 1)),
                ..watch
            },
            events: seq![
                BootstrapEventView::Note(
                    "LNURL receive request noticed in the event log. Waiting for settlement."@,
                ),
            ],
            step: WatchStepView::Follow { operation: operations[at as int] },
        }
    } else {
        WatchOutcome {
            watch: WatchView { queue: QueueView::Empty, ..watch },
            events: Seq::empty(),
            step: WatchStepView::ReadLog { after: watch.last_event, limit: 64 },
        }
    }
}

/// Follows the next entry with news, or pauses. The log is read on from the last entry that was
/// looked at.
pub open spec fn next_entry(watch: WatchView, entries: Seq<EntryView>) -> WatchOutcome {
    let at = first_news(entries, watch.payment_code_idx, watch.seen);
    if at < entries.len() {
        let operation = (entries[at as int].receive->0).1;
        WatchOutcome {
            watch: WatchView {
                last_event: Some(entries[at as int].id),
                seen: watch.seen.push(operation),
                queue: QueueView::Entries(entries.skip(at as int + 1)),
                ..watch
            },
            events: seq![
                BootstrapEventView::Note(
                    "A new LNURL receive invoice was created. Waiting for payment finality."@,
                ),
            ],
            step: WatchStepView::Follow { operation },
        }
    } else {
        WatchOutcome {
            watch: WatchView {
                last_event: if entries.len() > 0 {
                    Some(entries.last().id)
                } else {
                    watch.last_event
                },
                queue: QueueView::Empty,
                ..watch
            },
            events: Seq::empty(),
            step: WatchStepView::Rest { seconds: 2 },
        }
    }
}

/// What comes of an input.
pub open spec fn watch_next(watch: WatchView, input: WatchInput) -> WatchOutcome {
    match input {
        WatchInput::Balance(balance) => if balance.msats > 0 {
            WatchOutcome {
                watch,
                events: seq![
                    BootstrapEventView::Balance(balance),
                    BootstrapEventView::Note("First deposit detected in the wallet."@),
                ],
                step: WatchStepView::Finished,
            }
        } else {
            WatchOutcome {
                watch,
                events: Seq::empty(),
                step: WatchStepView::ListInvoices { payment_code_idx: watch.payment_code_idx },
            }
        },
        WatchInput::Invoices(operations) => next_invoice(watch, views(operations@)),
        WatchInput::Entries(entries) => next_entry(watch, entry_views(entries@)),
        WatchInput::Settled(true) => WatchOutcome {
            watch,
            events: Seq::empty(),
            step: WatchStepView::Refresh,
        },
        WatchInput::Settled(false) => match watch.queue {
            QueueView::Empty => WatchOutcome {
                watch,
                events: Seq::empty(),
                step: WatchStepView::Rest { seconds: 2 },
            },
            QueueView::Invoices(operations) => next_invoice(watch, operations),
            QueueView::Entries(entries) => next_entry(watch, entries),
        },
        WatchInput::Refreshed(balance) => WatchOutcome {
            watch,
            events: seq![BootstrapEventView::Balance(balance)],
            step: WatchStepView::Finished,
        },
        WatchInput::Rested => WatchOutcome {
            watch,
            events: Seq::empty(),
            step: WatchStepView::ReadBalance,
        },
    }
}

spec fn queue_view(queue: Queue) -> QueueView {
    match queue {
        Queue::Empty => QueueView::Empty,
        Queue::Invoices(operations, next) => QueueView::Invoices(
            views(operations@).skip(next as int),
        ),
        Queue::Entries(entries, next) => QueueView::Entries(entry_views(entries@).skip(next as int)),
    }
}

spec fn queue_bounded(queue: Queue) -> bool {
    match queue {
        Queue::Empty => true,
        Queue::Invoices(operations, next) => next <= operations@.len(),
        Queue::Entries(entries, next) => next <= entries@.len(),
    }
}

impl View for DepositWatch {
    type V = WatchView;

    closed spec fn view(&self) -> WatchView {
        WatchView {
            payment_code_idx: self.payment_code_idx,
            last_event: self.last_event,
            seen: views(self.seen@),
            queue: queue_view(self.queue),
        }
    }
}

proof fn lemma_first_unseen(operations: Seq<Seq<char>>, seen: Seq<Seq<char>>, from: int, at: int)
    requires
        0 <= from <= at <= operations.len(),
        forall|j: int| from <= j < at ==> seen.contains(#[trigger] operations[j]),
        at < operations.len() ==> !seen.contains(operations[at]),
    ensures
        first_unseen(operations.skip(from), seen) == at - from,
    decreases at - from,
{
    if from < at {
        lemma_first_unseen(operations, seen, from + 1, at);
        assert(operations.skip(from).skip(1) =~= operations.skip(from + 1));
    }
}

proof fn lemma_first_news(
    entries: Seq<EntryView>,
    payment_code_idx: u64,
    seen: Seq<Seq<char>>,
    from: int,
    at: int,
)
    requires
        0 <= from <= at <= entries.len(),
        forall|j: int|
            from <= j < at ==> !is_news(#[trigger] entries[j], payment_code_idx, seen),
        at < entries.len() ==> is_news(entries[at], payment_code_idx, seen),
    ensures
        first_news(entries.skip(from), payment_code_idx, seen) == at - from,
    decreases at - from,
{
    if from < at {
        lemma_first_news(entries, payment_code_idx, seen, from + 1, at);
        assert(entries.skip(from).skip(1) =~= entries.skip(from + 1));
    }
}

fn contains_operation(seen: &Vec<String>, operation: &str) -> (r: bool)
    ensures
        r == views(seen@).contains(operation@),
{
    let mut i: usize = 0;
    while i < seen.len()
        invariant
            i <= seen@.len(),
            forall|j: int| 0 <= j < i ==> views(seen@)[j] != operation@,
        decreases seen@.len() - i,
    {
        assert(views(seen@)[i as int] == seen@[i as int]@);
        if same_text(seen[i].as_str(), operation) {
            return true;
        }
        i += 1;
    }
    false
}

fn entry_is_news(entry: &LogEntry, payment_code_idx: u64, seen: &Vec<String>) -> (r: bool)
    ensures
        r == is_news(entry@, payment_code_idx, views(seen@)),
{
    match &entry.receive {
        Some((idx, operation)) => *idx == payment_code_idx && !contains_operation(
            seen,
            operation.as_str(),
        ),
        None => false,
    }
}

/// Whether these events and this step are what comes of an input.
pub open spec fn comes_out(
    out: (Vec<BootstrapEvent>, WatchStep),
    watch: WatchView,
    outcome: WatchOutcome,
) -> bool {
    &&& watch == outcome.watch
    &&& event_views(out.0@) == outcome.events
    &&& out.1@ == outcome.step
}

impl DepositWatch {
    #[verifier::type_invariant]
    spec fn bounded(self) -> bool {
        queue_bounded(self.queue)
    }

    /// A watch that has followed nothing yet.
    pub fn new(payment_code_idx: u64) -> (watch: DepositWatch)
        ensures
            watch@ == (WatchView {
                payment_code_idx,
                last_event: None,
                seen: Seq::empty(),
                queue: QueueView::Empty,
            }),
    {
        let watch = DepositWatch {
            payment_code_idx,
            last_event: None,
            seen: Vec::new(),
            queue: Queue::Empty,
        };
        assert(views(watch.seen@) =~= Seq::empty());
        watch
    }

    fn take_invoice(&mut self, operations: Vec<String>, from: usize) -> (out: (
        Vec<BootstrapEvent>,
        WatchStep,
    ))
        requires
            from <= operations@.len(),
        ensures
            comes_out(
                out,
                final(self)@,
                next_invoice(old(self)@, views(operations@).skip(from as int)),
            ),
    {
        proof {
            use_type_invariant(&*self);
        }
        let ghost all = views(operations@);
        let ghost seen = views(self.seen@);
        let mut at: usize = from;
        while at < operations.len() && contains_operation(&self.seen, operations[at].as_str())
            invariant
                from <= at <= operations@.len(),
                all == views(operations@),
                seen == views(self.seen@),
                forall|j: int| from <= j < at ==> seen.contains(#[trigger] all[j]),
            decreases operations@.len() - at,
        {
            assert(all[at as int] == operations@[at as int]@);
            at += 1;
        }
        proof {
            lemma_first_unseen(all, seen, from as int, at as int);
        }
        if at < operations.len() {
            let operation = operations[at].clone();
            let mut grown: Vec<String> = Vec::new();
            std::mem::swap(&mut grown, &mut self.seen);
            grown.push(operation.clone());
            self.seen = grown;
            self.queue = Queue::Invoices(operations, at + 1);
            assert(views(self.seen@) =~= seen.push(operation@));
            assert(all.skip(from as int)[at - from] == operation@);
            assert(all.skip(at + 1) =~= all.skip(from as int).skip(at - from + 1));
            (
                one_event(
                    note("LNURL receive request noticed in the event log. Waiting for settlement."),
                ),
                WatchStep::Follow { operation },
            )
        } else {
            self.queue = Queue::Empty;
            (no_events(), WatchStep::ReadLog { after: self.last_event, limit: 64 })
        }
    }

    fn take_entry(&mut self, entries: Vec<LogEntry>, from: usize) -> (out: (
        Vec<BootstrapEvent>,
        WatchStep,
    ))
        requires
            from <= entries@.len(),
        ensures
            comes_out(
                out,
                final(self)@,
                next_entry(old(self)@, entry_views(entries@).skip(from as int)),
            ),
    {
        proof {
            use_type_invariant(&*self);
        }
        let ghost all = entry_views(entries@);
        let ghost seen = views(self.seen@);
        let idx = self.payment_code_idx;
        let mut at: usize = from;
        while at < entries.len() && !entry_is_news(&entries[at], idx, &self.seen)
            invariant
                from <= at <= entries@.len(),
                all == entry_views(entries@),
                seen == views(self.seen@),
                forall|j: int| from <= j < at ==> !is_news(#[trigger] all[j], idx, seen),
            decreases entries@.len() - at,
        {
            assert(all[at as int] == entries@[at as int]@);
            at += 1;
        }
        proof {
            lemma_first_news(all, idx, seen, from as int, at as int);
        }
        if at < entries.len() {
            if let Some((_, operation)) = &entries[at].receive {
                let operation = operation.clone();
                let mut grown: Vec<String> = Vec::new();
                std::mem::swap(&mut grown, &mut self.seen);
                grown.push(operation.clone());
                self.seen = grown;
                self.last_event = Some(entries[at].id);
                assert(all[at as int] == entries@[at as int]@);
                self.queue = Queue::Entries(entries, at + 1);
                assert(views(self.seen@) =~= seen.push(operation@));
                assert(all.skip(from as int)[at - from] == all[at as int]);
                assert(all.skip(at + 1) =~= all.skip(from as int).skip(at - from + 1));
                return (
                    one_event(
                        note(
                            "A new LNURL receive invoice was created. Waiting for payment finality.",
                        ),
                    ),
                    WatchStep::Follow { operation },
                );
            }
        }
        if from < entries.len() {
            self.last_event = Some(entries[entries.len() - 1].id);
            assert(all.skip(from as int).last() == entries@[entries@.len() - 1]@);
        }
        self.queue = Queue::Empty;
        (no_events(), WatchStep::Rest { seconds: 2 })
    }

    /// Takes what was reported in, and says what is wanted next.
    pub fn wait_for_first_deposit(&mut self, input: WatchInput) -> (out: (
        Vec<BootstrapEvent>,
        WatchStep,
    ))
        ensures
            comes_out(out, final(self)@, watch_next(old(self)@, input)),
    {
        match input {
            WatchInput::Balance(balance) => {
                if balance.msats > 0 {
                    (
                        two_events(
                            BootstrapEvent::Balance(balance),
                            note("First deposit detected in the wallet."),
                        ),
                        WatchStep::Finished,
                    )
                } else {
                    (
                        no_events(),
                        WatchStep::ListInvoices { payment_code_idx: self.payment_code_idx },
                    )
                }
            },
            WatchInput::Invoices(operations) => {
                assert(views(operations@).skip(0) =~= views(operations@));
                self.take_invoice(operations, 0)
            },
            WatchInput::Entries(entries) => {
                assert(entry_views(entries@).skip(0) =~= entry_views(entries@));
                self.take_entry(entries, 0)
            },
            WatchInput::Settled(claimed) => {
                if claimed {
                    return (no_events(), WatchStep::Refresh);
                }
                proof {
                    use_type_invariant(&*self);
                }
                let mut queue = Queue::Empty;
                std::mem::swap(&mut queue, &mut self.queue);
                match queue {
                    Queue::Empty => (no_events(), WatchStep::Rest { seconds: 2 }),
                    Queue::Invoices(operations, next) => self.take_invoice(operations, next),
                    Queue::Entries(entries, next) => self.take_entry(entries, next),
                }
            },
            WatchInput::Refreshed(balance) => (
                one_event(BootstrapEvent::Balance(balance)),
                WatchStep::Finished,
            ),
            WatchInput::Rested => (no_events(), WatchStep::ReadBalance),
        }
    }
}

// ── Laws ────────────────────────────────────────────────────────────────

proof fn lemma_unseen(operations: Seq<Seq<char>>, seen: Seq<Seq<char>>)
    ensures
        first_unseen(operations, seen) <= operations.len(),
        first_unseen(operations, seen) < operations.len() ==> !seen.contains(
            operations[first_unseen(operations, seen) as int],
        ),
    decreases operations.len(),
{
    if operations.len() > 0 && seen.contains(operations[0]) {
        lemma_unseen(operations.skip(1), seen);
    }
}

proof fn lemma_news(entries: Seq<EntryView>, payment_code_idx: u64, seen: Seq<Seq<char>>)
    ensures
        first_news(entries, payment_code_idx, seen) <= entries.len(),
        first_news(entries, payment_code_idx, seen) < entries.len() ==> is_news(
            entries[first_news(entries, payment_code_idx, seen) as int],
            payment_code_idx,
            seen,
        ),
    decreases entries.len(),
{
    if entries.len() > 0 && !is_news(entries[0], payment_code_idx, seen) {
        lemma_news(entries.skip(1), payment_code_idx, seen);
    }
}

/// The watch follows no receive twice: an operation that it wants followed was not followed before
/// and is remembered from then on, and what was followed once is never forgotten.
pub proof fn law_no_receive_is_followed_twice(watch: WatchView, input: WatchInput)
    ensures
        watch_next(watch, input).step matches WatchStepView::Follow { operation } ==> {
            &&& !watch.seen.contains(operation)
            &&& watch_next(watch, input).watch.seen == watch.seen.push(operation)
        },
        !(watch_next(watch, input).step is Follow) ==> watch_next(watch, input).watch.seen
            == watch.seen,
{
    match input {
        WatchInput::Invoices(operations) => lemma_unseen(views(operations@), watch.seen),
        WatchInput::Entries(entries) => lemma_news(
            entry_views(entries@),
            watch.payment_code_idx,
            watch.seen,
        ),
        WatchInput::Settled(false) => match watch.queue {
            QueueView::Empty => {},
            QueueView::Invoices(operations) => lemma_unseen(operations, watch.seen),
            QueueView::Entries(entries) => lemma_news(entries, watch.payment_code_idx, watch.seen),
        },
        _ => {},
    }
}

/// The watch ends only on a balance above zero, or on the balance that is read after a receive was
/// claimed.
pub proof fn law_watch_ends_on_a_deposit(watch: WatchView, input: WatchInput)
    ensures
        watch_next(watch, input).step is Finished <==> {
            ||| input matches WatchInput::Balance(balance) && balance.msats > 0
            ||| input is Refreshed
        },
        watch_next(watch, input).step is Refresh <==> input == WatchInput::Settled(true),
{
}

/// The watch reads the log on from where it stopped: the entry after which it reads next is the
/// last one that it looked at.
pub proof fn law_log_is_read_on(watch: WatchView, entries: Vec<LogEntry>)
    requires
        entries@.len() > 0,
        watch_next(watch, WatchInput::Entries(entries)).step is Rest,
    ensures
        watch_next(watch, WatchInput::Entries(entries)).watch.last_event == Some(
            entries@.last().id,
        ),
{
    assert(entry_views(entries@).last() == entries@.last()@);
}

/// A receive counts as claimed exactly where an update says so and none before it canceled it.
pub proof fn law_receives_are_claimed_once_settled(updates: Seq<ReceiveUpdate>)
    ensures
        claimed(updates) <==> exists|i: int|
            0 <= i < updates.len() && #[trigger] updates[i] is Claimed && forall|j: int|
                0 <= j < i ==> #[trigger] updates[j] is Other,
    decreases updates.len(),
{
    if updates.len() > 0 {
        let rest = updates.skip(1);
        law_receives_are_claimed_once_settled(rest);
        if updates[0] is Other {
            if claimed(rest) {
                let i = choose|i: int|
                    0 <= i < rest.len() && #[trigger] rest[i] is Claimed && forall|j: int|
                        0 <= j < i ==> #[trigger] rest[j] is Other;
                assert(updates[i + 1] is Claimed);
                assert forall|j: int| 0 <= j < i + 1 implies #[trigger] updates[j] is Other by {
                    if j > 0 {
                        assert(rest[j - 1] is Other);
                    }
                }
            }
            if exists|i: int|
                0 <= i < updates.len() && #[trigger] updates[i] is Claimed && forall|j: int|
                    0 <= j < i ==> #[trigger] updates[j] is Other {
                let i = choose|i: int|
                    0 <= i < updates.len() && #[trigger] updates[i] is Claimed && forall|j: int|
                        0 <= j < i ==> #[trigger] updates[j] is Other;
                assert(i > 0);
                assert(rest[i - 1] is Claimed);
                assert forall|j: int| 0 <= j < i - 1 implies #[trigger] rest[j] is Other by {
                    assert(updates[j + 1] is Other);
                }
            }
        } else if updates[0] is Claimed {
            assert(updates[0] is Claimed);
        } else {
            assert forall|i: int| 0 <= i < updates.len() && #[trigger] updates[i] is Claimed implies !(
            forall|j: int| 0 <= j < i ==> #[trigger] updates[j] is Other) by {
                assert(!(updates[0] is Other));
            }
        }
    }
}

proof fn lemma_unseen_is_first(operations: Seq<Seq<char>>, seen: Seq<Seq<char>>, i: int)
    requires
        0 <= i < operations.len(),
    ensures
        i < first_unseen(operations, seen) ==> seen.contains(operations[i]),
        !seen.contains(operations[i]) ==> first_unseen(operations, seen) <= i,
    decreases operations.len(),
{
    if seen.contains(operations[0]) && i > 0 {
        lemma_unseen_is_first(operations.skip(1), seen, i - 1);
        assert(operations.skip(1)[i - 1] == operations[i]);
    }
}

proof fn lemma_news_is_first(
    entries: Seq<EntryView>,
    payment_code_idx: u64,
    seen: Seq<Seq<char>>,
    i: int,
)
    requires
        0 <= i < entries.len(),
    ensures
        i < first_news(entries, payment_code_idx, seen) ==> !is_news(
            entries[i],
            payment_code_idx,
            seen,
        ),
    decreases entries.len(),
{
    if !is_news(entries[0], payment_code_idx, seen) && i > 0 {
        lemma_news_is_first(entries.skip(1), payment_code_idx, seen, i - 1);
        assert(entries.skip(1)[i - 1] == entries[i]);
    }
}

/// No invoice under the receive code is passed over: the watch follows the first one that it has
/// not followed, keeps those behind it for later, and goes on to the log only when it has followed
/// all.
pub proof fn law_no_invoice_is_passed_over(watch: WatchView, operations: Vec<String>, i: int)
    requires
        0 <= i < operations@.len(),
    ensures
        ({
            let out = watch_next(watch, WatchInput::Invoices(operations));
            &&& out.step is ReadLog ==> watch.seen.contains(operations@[i]@)
            &&& out.step is ReadLog || out.step is Follow
            &&& out.step matches WatchStepView::Follow { operation } ==> {
                &&& operation == operations@[i]@ || watch.seen.contains(operations@[i]@) || (
                out.watch.queue matches QueueView::Invoices(later) && later.contains(
                    operations@[i]@,
                ))
                &&& views(operations@).contains(operation)
            }
            &&& out.watch.payment_code_idx == watch.payment_code_idx
            &&& out.watch.last_event == watch.last_event
        }),
{
    let all = views(operations@);
    let at = first_unseen(all, watch.seen) as int;
    lemma_unseen(all, watch.seen);
    lemma_unseen_is_first(all, watch.seen, i);
    assert(all[i] == operations@[i]@);
    if at < all.len() {
        assert(all.contains(all[at]));
        if i > at {
            assert(all.skip(at + 1)[i - at - 1] == all[i]);
        }
    }
}

/// No invoice that the log tells of is passed over, and none of another receive code is followed:
/// the watch follows the first entry for its code that it has not followed, and keeps the entries
/// behind it for later.
pub proof fn law_no_entry_is_passed_over(watch: WatchView, entries: Vec<LogEntry>, i: int)
    requires
        0 <= i < entries@.len(),
        entries@[i].receive is Some,
        (entries@[i].receive->0).0 == watch.payment_code_idx,
    ensures
        ({
            let out = watch_next(watch, WatchInput::Entries(entries));
            let told = (entries@[i].receive->0).1@;
            &&& out.step is Rest ==> watch.seen.contains(told)
            &&& out.step is Rest || out.step is Follow
            &&& out.step matches WatchStepView::Follow { operation } ==> {
                ||| operation == told
                ||| watch.seen.contains(told)
                ||| (out.watch.queue matches QueueView::Entries(later) && later.contains(
                    entries@[i]@,
                ))
            }
            &&& out.watch.payment_code_idx == watch.payment_code_idx
        }),
{
    let all = entry_views(entries@);
    let at = first_news(all, watch.payment_code_idx, watch.seen) as int;
    lemma_news(all, watch.payment_code_idx, watch.seen);
    lemma_news_is_first(all, watch.payment_code_idx, watch.seen, i);
    assert(all[i] == entries@[i]@);
    if at < all.len() && i > at {
        assert(all.skip(at + 1)[i - at - 1] == all[i]);
    }
}

/// An entry that the watch follows is one of its own receive code, and the log is read on behind
/// it.
pub proof fn law_followed_entries_are_of_the_code(watch: WatchView, entries: Vec<LogEntry>)
    ensures
        watch_next(watch, WatchInput::Entries(entries)).step matches WatchStepView::Follow {
            operation,
        } ==> exists|i: int|
            {
                &&& 0 <= i < entries@.len()
                &&& (#[trigger] entries@[i]).receive matches Some((idx, told))
                &&& idx == watch.payment_code_idx
                &&& told@ == operation
                &&& watch_next(watch, WatchInput::Entries(entries)).watch.last_event == Some(
                    entries@[i].id,
                )
            },
{
    let all = entry_views(entries@);
    let at = first_news(all, watch.payment_code_idx, watch.seen) as int;
    lemma_news(all, watch.payment_code_idx, watch.seen);
    if at < all.len() {
        assert(all[at] == entries@[at]@);
    }
}

/// After a receive that was not claimed the watch goes on with what is left to look at, and after
/// one that was it asks for the balance. A wallet without a balance has its invoices listed, by its
/// own receive code, and a pause ends with reading the balance.
pub proof fn law_watch_goes_on(watch: WatchView, balance: Amount, operations: Vec<String>)
    ensures
        watch_next(watch, WatchInput::Balance(balance)).step == if balance.msats > 0 {
            WatchStepView::Finished
        } else {
            WatchStepView::ListInvoices { payment_code_idx: watch.payment_code_idx }
        },
        balance.msats > 0 ==> watch_next(watch, WatchInput::Balance(balance)).events.contains(
            BootstrapEventView::Balance(balance),
        ),
        watch_next(watch, WatchInput::Refreshed(balance)).events == seq![
            BootstrapEventView::Balance(balance),
        ],
        watch_next(watch, WatchInput::Settled(true)).step is Refresh,
        watch_next(watch, WatchInput::Rested).step is ReadBalance,
        watch.queue == QueueView::Invoices(views(operations@)) ==> watch_next(
            watch,
            WatchInput::Settled(false),
        ) == watch_next(watch, WatchInput::Invoices(operations)),
        watch.queue is Empty ==> watch_next(watch, WatchInput::Settled(false)).step is Rest,
        watch_next(watch, WatchInput::Balance(balance)).watch == watch,
        watch_next(watch, WatchInput::Rested).watch == watch,
        watch_next(watch, WatchInput::Settled(true)).watch == watch,
{
    let events = watch_next(watch, WatchInput::Balance(balance)).events;
    if balance.msats > 0 {
        assert(events[0] == BootstrapEventView::Balance(balance));
    }
}

/// A wallet with a balance never waits for a deposit: it reports its receive code, where it has
/// one, and goes on. An empty one waits for a deposit under that very code, and asks for an invoice
/// only where it has no code; why it has none is told to the letter.
pub proof fn law_empty_wallets_wait_for_a_deposit(
    balance: Amount,
    code: Result<ReceiveCode, String>,
    out: (Vec<BootstrapEvent>, BootstrapStep),
)
    requires
        call_ensures(receive_code_known, (balance, code), out),
    ensures
        out.1 is ReadBalance <==> balance.msats != 0,
        balance.msats == 0 ==> match code {
            Ok(receive) => out.1 == (BootstrapStep::AwaitDeposit {
                payment_code_idx: receive.payment_code_idx,
            }),
            Err(_) => out.1 matches BootstrapStep::MakeInvoice { amount_sats, .. } && amount_sats
                == 1000,
        },
        out.0@.len() > 0,
        match code {
            Ok(receive) => out.0@[0]@ == BootstrapEventView::ReceiveCode(receive.lnurl@),
            Err(fault) => out.0@[0]@ matches BootstrapEventView::Note(note)
                && crate::text::contains_text(note, fault@),
        },
{
    assert(event_views(out.0@).len() == out.0@.len());
    assert(event_views(out.0@)[0] == out.0@[0]@);
    if let Err(fault) = code {
        crate::text_laws::law_parts_are_held(
            "LNURL receive setup is unavailable in this federation right now ("@,
            fault@,
            "). Falling back to a starter invoice."@,
            fault@,
        );
    }
}

/// The wallet reports its balance first, and is up at once where its model service is funded.
pub proof fn law_funded_wallets_are_up(
    balance: Amount,
    ready: bool,
    out: (Vec<BootstrapEvent>, BootstrapStep),
)
    requires
        call_ensures(balance_known, (balance, ready), out),
    ensures
        out.1 is Finished <==> ready,
        out.1 is EnsureReceiveCode <==> !ready,
        out.0@.len() == 1,
        out.0@[0]@ == BootstrapEventView::Balance(balance),
{
    assert(event_views(out.0@).len() == out.0@.len());
    assert(event_views(out.0@)[0] == out.0@[0]@);
}

/// The invoice for the first deposit is settled by being claimed or canceled, and by nothing else,
/// and why it was canceled is told.
pub proof fn law_first_invoices_are_settled(
    update: ReceiveUpdate,
    settled: Option<Result<Vec<BootstrapEvent>, String>>,
)
    requires
        call_ensures(first_invoice_update, (&update,), settled),
    ensures
        settled is None <==> update is Other,
        settled matches Some(Ok(_)) <==> update is Claimed,
        update matches ReceiveUpdate::Canceled(reason) ==> (settled matches Some(Err(message))
            && reason@.is_suffix_of(message@)),
{
    if let ReceiveUpdate::Canceled(reason) = update {
        if let Some(Err(message)) = settled {
            assert(message@.subrange(message@.len() - reason@.len(), message@.len() as int)
                =~= reason@);
        }
    }
}

/// The invoice that is to be paid is reported as it is, behind the words that say so.
pub proof fn law_made_invoices_are_reported(invoice: String, events: Vec<BootstrapEvent>)
    requires
        call_ensures(invoice_made, (invoice,), events),
    ensures
        events@.len() == 2,
        events@[1]@ == BootstrapEventView::Note(invoice@),
{
    assert(event_views(events@).len() == events@.len());
    assert(event_views(events@)[1] == events@[1]@);
}

/// The watch goes on in the log behind the last entry that it looked at, pauses where the log has
/// no news, and takes up the entries that are left once a receive turned out not to be claimed.
pub proof fn law_watch_goes_on_in_the_log(
    watch: WatchView,
    operations: Vec<String>,
    entries: Vec<LogEntry>,
)
    ensures
        watch_next(watch, WatchInput::Invoices(operations)).step matches WatchStepView::ReadLog {
            after,
            limit,
        } ==> after == watch.last_event && limit == 64,
        entries@.len() == 0 ==> watch_next(watch, WatchInput::Entries(entries)).watch.last_event
            == watch.last_event && watch_next(watch, WatchInput::Entries(entries)).step is Rest,
        watch.queue == QueueView::Entries(entry_views(entries@)) ==> watch_next(
            watch,
            WatchInput::Settled(false),
        ) == watch_next(watch, WatchInput::Entries(entries)),
        watch_next(watch, WatchInput::Entries(entries)).step matches WatchStepView::Rest {
            seconds,
        } ==> seconds == 2,
{
    assert(entry_views(entries@).len() == entries@.len());
}

/// A new watch is for the receive code that it is made for, and has followed nothing.
pub proof fn law_new_watches_have_followed_nothing(idx: u64, watch: DepositWatch)
    requires
        call_ensures(DepositWatch::new, (idx,), watch),
    ensures
        watch@.payment_code_idx == idx,
        watch@.seen.len() == 0,
        watch@.last_event is None,
        watch@.queue is Empty,
{
}

/// What the watch wants next is what comes of what it was told, to the letter.
pub proof fn law_watches_want_what_comes_next(
    watch: &mut DepositWatch,
    input: WatchInput,
    out: (Vec<BootstrapEvent>, WatchStep),
)
    requires
        call_ensures(DepositWatch::wait_for_first_deposit, (watch, input), out),
    ensures
        final(watch)@ == watch_next(old(watch)@, input).watch,
        out.0@.len() == watch_next(old(watch)@, input).events.len(),
        match out.1 {
            WatchStep::Follow { operation } => watch_next(old(watch)@, input).step
                == (WatchStepView::Follow { operation: operation@ }),
            WatchStep::ReadLog { after, limit } => watch_next(old(watch)@, input).step
                == (WatchStepView::ReadLog { after, limit }),
            WatchStep::ListInvoices { payment_code_idx } => watch_next(old(watch)@, input).step
                == (WatchStepView::ListInvoices { payment_code_idx }),
            WatchStep::Rest { seconds } => watch_next(old(watch)@, input).step
                == (WatchStepView::Rest { seconds }),
            WatchStep::ReadBalance => watch_next(old(watch)@, input).step is ReadBalance,
            WatchStep::Refresh => watch_next(old(watch)@, input).step is Refresh,
            WatchStep::Finished => watch_next(old(watch)@, input).step is Finished,
        },
        out.1 matches WatchStep::Follow { operation } ==> !old(watch)@.seen.contains(operation@)
            && final(watch)@.seen.contains(operation@),
{
    assert(event_views(out.0@).len() == out.0@.len());
    law_no_receive_is_followed_twice(old(watch)@, input);
    if let WatchStep::Follow { operation } = out.1 {
        let seen = old(watch)@.seen.push(operation@);
        assert(seen[seen.len() - 1] == operation@);
    }
}

/// An event says what it was made with.
pub proof fn law_events_say_what_they_hold(event: BootstrapEvent, entry: LogEntry, events: Seq<
    BootstrapEvent,
>)
    ensures
        match event {
            BootstrapEvent::Note(note) => event@ == BootstrapEventView::Note(note@),
            BootstrapEvent::ReceiveCode(code) => event@ == BootstrapEventView::ReceiveCode(code@),
            BootstrapEvent::Balance(amount) => event@ == BootstrapEventView::Balance(amount),
        },
        entry@.id == entry.id,
        entry@.receive is Some <==> entry.receive is Some,
        entry.receive matches Some((idx, operation)) ==> entry@.receive == Some(
            (idx, operation@),
        ),
        event_views(events).len() == events.len(),
        forall|i: int| 0 <= i < events.len() ==> #[trigger] event_views(events)[i] == events[i]@,
{
}

/// Whether a receive was claimed, by all its updates, is what its updates say, one by one.
pub proof fn law_updates_are_taken_one_by_one(
    updates: Vec<ReceiveUpdate>,
    update: ReceiveUpdate,
    claimed_at_last: bool,
    settled: Option<bool>,
)
    requires
        call_ensures(await_recurring_receive, (&updates,), claimed_at_last),
        call_ensures(recurring_receive_update, (&update,), settled),
    ensures
        claimed_at_last <==> exists|i: int|
            0 <= i < updates@.len() && #[trigger] updates@[i] is Claimed && forall|j: int|
                0 <= j < i ==> #[trigger] updates@[j] is Other,
        settled == Some(true) <==> update is Claimed,
        settled == Some(false) <==> update is Canceled,
{
    law_receives_are_claimed_once_settled(updates@);
}

} // verus!
