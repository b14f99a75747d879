//! The wallet's own state and the decisions around the federation client: what is kept of it, how
//! older storage is taken over, and how a fresh wallet is brought to its first deposit.
use vstd::prelude::*;
use vstd::utf8::encode_utf8;

use crate::bootstrap::{
    balance_known, event_views, BootstrapEvent, BootstrapEventView, BootstrapStep,
};
use crate::json::{array_view, member, text_of, Json, JsonView};
use crate::ppq::PpqAccount;
use crate::text::{join, joined, same_text, views};

verus! {

/// The federation that a fresh wallet joins.
pub const DEFAULT_INVITE_CODE: &'static str = "fed11qgqzggnhwden5te0v9cxjtn9vd3jue3wvfkxjmnyva6kzunyd9skutnwv46z7qqpyzhv5mxgpl79xz7j649sj6qldmde5s2uxchy4uh7840qgymsqmazzp6sn43";

/// The file of the wallet's database.
pub const DB_FILE: &'static str = "fedigents.redb";

/// The prefix of the wallet's own records in the database.
pub const APP_STATE_DB_PREFIX: &'static str = "fedigents.app-state";

// ── Amounts ─────────────────────────────────────────────────────────────

/// An amount of bitcoin, in thousandths of a satoshi.
#[derive(Clone, Copy, Debug, PartialEq, Eq, Structural)]
pub struct Amount {
    pub msats: u64,
}

impl Amount {
    /// An amount of whole satoshis.
    pub fn from_sats(sats: u64) -> (amount: Amount)
        requires
            sats * 1000 <= u64::MAX,
        ensures
            amount.msats == sats * 1000,
    {
        Amount { msats: sats * 1000 }
    }

    /// The whole satoshis of an amount.
    pub fn sats_round_down(&self) -> (sats: u64)
        ensures
            sats == self.msats / 1000,
    {
        self.msats / 1000
    }
}

/// An amount of whole satoshis comes back out of `sats_round_down` as it went in.
pub proof fn law_whole_sats_survive(sats: u64, amount: Amount)
    requires
        amount.msats == sats * 1000,
    ensures
        amount.msats / 1000 == sats,
{
}

// ── What the wallet keeps ───────────────────────────────────────────────

/// The code under which the wallet receives.
#[derive(Clone, Debug)]
pub struct ReceiveCode {
    pub payment_code_idx: u64,
    pub lnurl: String,
}

impl ReceiveCode {
    /// The same code once more.
    pub fn copy(&self) -> (copy: ReceiveCode)
        ensures
            copy == *self,
    {
        ReceiveCode { payment_code_idx: self.payment_code_idx, lnurl: self.lnurl.clone() }
    }
}

/// The records of the wallet's own that the database holds.
#[derive(Clone, Debug)]
pub struct AppState {
    pub mnemonic: Option<String>,
    pub ppq_ready: Option<bool>,
    pub ppq_account: Option<PpqAccount>,
    pub receive_code: Option<ReceiveCode>,
    pub ppq_funding_in_flight: Option<bool>,
}

/// A record that is written to the database.
#[derive(Clone, Debug)]
pub enum Record {
    Mnemonic(String),
    PpqReady(bool),
    PpqAccount(PpqAccount),
    ReceiveCode(ReceiveCode),
    PpqFundingInFlight(bool),
}

/// The records after one more was written.
pub open spec fn with_record(state: AppState, record: Record) -> AppState {
    match record {
        Record::Mnemonic(words) => AppState { mnemonic: Some(words), ..state },
        Record::PpqReady(ready) => AppState { ppq_ready: Some(ready), ..state },
        Record::PpqAccount(account) => AppState { ppq_account: Some(account), ..state },
        Record::ReceiveCode(code) => AppState { receive_code: Some(code), ..state },
        Record::PpqFundingInFlight(flag) => AppState { ppq_funding_in_flight: Some(flag), ..state },
    }
}

/// The records after several were written, in order.
pub open spec fn with_records(state: AppState, records: Seq<Record>) -> AppState
    decreases records.len(),
{
    if records.len() == 0 {
        state
    } else {
        with_record(with_records(state, records.drop_last()), records.last())
    }
}

/// Where the account of the model service comes from.
#[derive(Debug)]
pub enum AccountStep {
    /// The account that is kept.
    Use(PpqAccount),
    /// A new one has to be created.
    Create,
}

/// The account that is kept, or the need for a new one.
pub open spec fn account_step(state: AppState) -> AccountStep {
    match state.ppq_account {
        Some(account) => AccountStep::Use(account),
        None => AccountStep::Create,
    }
}

/// The notice that the wallet forgets everything when its tab closes.
pub open spec fn memory_only_notice(fault: Seq<char>) -> Seq<char> {
    "Persistent wallet storage is unavailable in this browser session ("@ + fault
        + "). Falling back to in-memory mode. Your wallet state will reset when this tab closes."@
}

/// What an invoice is asked for with.
#[derive(Debug)]
pub struct InvoiceOrder {
    pub amount: Amount,
    pub description: String,
}

/// An invoice that was made.
#[derive(Clone, Debug)]
pub struct InvoiceResponse {
    pub operation_id: String,
    pub invoice: String,
}

/// What a payment is made with.
#[derive(Debug)]
pub struct PayOrder {
    pub payment: String,
    pub amount: Option<Amount>,
}

/// `lightning_invoice::Description::new`: any text of at most 639 bytes, as it is. A longer one is
/// refused with the text of `CreationError::DescriptionTooLong`.
#[verifier::external_body]
fn check_description(text: &str) -> (description: Result<String, String>)
    ensures
        match description {
            Ok(description) => encode_utf8(text@).len() <= 639 && description@ == text@,
            Err(message) => encode_utf8(text@).len() > 639 && message@
                == "The supplied description string was longer than 639 bytes"@,
        },
{
    lightning_invoice::Description::new(text.to_owned())
        .map(|description| description.into_inner().0)
        .map_err(|fault| fault.to_string())
}

/// The wallet on the side of the worker.
#[derive(Debug)]
pub struct WalletRuntime {
    app_state: AppState,
    storage_notice: Option<String>,
}

impl WalletRuntime {
    /// The records that the wallet keeps.
    pub closed spec fn state(&self) -> AppState {
        self.app_state
    }

    /// The notice about storage, where there is one.
    pub closed spec fn notice(&self) -> Option<Seq<char>> {
        crate::text::optional_view(self.storage_notice)
    }

    /// The wallet over the records that its database holds. Where the database could not be
    /// opened, the wallet is told why and keeps everything in memory.
    pub fn connect(storage_fault: Option<String>, app_state: AppState) -> (runtime: WalletRuntime)
        ensures
            runtime.state() == app_state,
            runtime.notice() == match storage_fault {
                Some(fault) => Some(memory_only_notice(fault@)),
                None => None,
            },
    {
        let storage_notice = match storage_fault {
            Some(fault) => Some(
                "Persistent wallet storage is unavailable in this browser session (".to_owned().concat(
                    fault.as_str(),
                ).concat(
                    "). Falling back to in-memory mode. Your wallet state will reset when this tab closes.",
                ),
            ),
            None => None,
        };
        WalletRuntime { app_state, storage_notice }
    }

    /// The notice about storage, where there is one.
    pub fn storage_notice(&self) -> (notice: Option<String>)
        ensures
            crate::text::optional_view(notice) == self.notice(),
    {
        match &self.storage_notice {
            Some(notice) => Some(notice.clone()),
            None => None,
        }
    }

    /// Takes over records that were written to the database.
    pub fn commit(&mut self, records: Vec<Record>)
        ensures
            final(self).state() == with_records(old(self).state(), records@),
            final(self).notice() == old(self).notice(),
    {
        let ghost all = records@;
        let mut state = AppState {
            mnemonic: self.app_state.mnemonic.take(),
            ppq_ready: self.app_state.ppq_ready.take(),
            ppq_account: self.app_state.ppq_account.take(),
            receive_code: self.app_state.receive_code.take(),
            ppq_funding_in_flight: self.app_state.ppq_funding_in_flight.take(),
        };
        let mut i: usize = 0;
        while i < records.len()
            invariant
                i <= records@.len(),
                records@ == all,
                state == with_records(old(self).app_state, all.take(i as int)),
            decreases records@.len() - i,
        {
            assert(all.take(i + 1).drop_last() =~= all.take(i as int));
            match &records[i] {
                Record::Mnemonic(words) => {
                    state.mnemonic = Some(words.clone());
                },
                Record::PpqReady(ready) => {
                    state.ppq_ready = Some(*ready);
                },
                Record::PpqAccount(account) => {
                    state.ppq_account = Some(account.copy());
                },
                Record::ReceiveCode(code) => {
                    state.receive_code = Some(code.copy());
                },
                Record::PpqFundingInFlight(flag) => {
                    state.ppq_funding_in_flight = Some(*flag);
                },
            }
            i += 1;
        }
        assert(all.take(i as int) =~= all);
        self.app_state = state;
    }

    /// The records that mark the model service as funded, written together.
    pub fn mark_ppq_ready(&self) -> (records: Vec<Record>)
        ensures
            records@ == seq![Record::PpqReady(true), Record::PpqFundingInFlight(false)],
    {
        let mut records: Vec<Record> = Vec::new();
        records.push(Record::PpqReady(true));
        records.push(Record::PpqFundingInFlight(false));
        assert(records@ =~= seq![Record::PpqReady(true), Record::PpqFundingInFlight(false)]);
        records
    }

    /// Whether the model service is funded.
    pub fn is_ppq_ready(&self) -> (ready: bool)
        ensures
            ready == (self.state().ppq_ready == Some(true)),
    {
        match self.app_state.ppq_ready {
            Some(ready) => ready,
            None => false,
        }
    }

    /// The code under which the wallet receives, where it has one.
    pub fn cached_receive_code(&self) -> (code: Option<String>)
        ensures
            code == match self.state().receive_code {
                Some(code) => Some(code.lnurl),
                None => None,
            },
    {
        match &self.app_state.receive_code {
            Some(code) => Some(code.lnurl.clone()),
            None => None,
        }
    }

    /// The account of the model service, where the wallet has one.
    pub fn ppq_account(&self) -> (account: Option<PpqAccount>)
        ensures
            account == self.state().ppq_account,
    {
        match &self.app_state.ppq_account {
            Some(account) => Some(account.copy()),
            None => None,
        }
    }

    /// The account of the model service that is kept, or the need for a new one.
    pub fn ensure_ppq_account(&self) -> (step: AccountStep)
        ensures
            step == account_step(self.state()),
    {
        match self.ppq_account() {
            Some(account) => AccountStep::Use(account),
            None => AccountStep::Create,
        }
    }

    /// As `ensure_ppq_account`, for a wallet that is funded but lost its account.
    pub fn repair_ppq_account(&self) -> (step: AccountStep)
        ensures
            step == account_step(self.state()),
    {
        self.ensure_ppq_account()
    }

    /// The record of an account that was created.
    pub fn account_created(&self, account: &PpqAccount) -> (records: Vec<Record>)
        ensures
            records@ == seq![Record::PpqAccount(*account)],
    {
        let mut records: Vec<Record> = Vec::new();
        records.push(Record::PpqAccount(account.copy()));
        assert(records@ =~= seq![Record::PpqAccount(*account)]);
        records
    }

    /// Whether a payment to the model service was begun and its end is not known.
    pub fn ppq_funding_in_flight(&self) -> (flag: bool)
        ensures
            flag == (self.state().ppq_funding_in_flight == Some(true)),
    {
        match self.app_state.ppq_funding_in_flight {
            Some(flag) => flag,
            None => false,
        }
    }

    /// The record that a payment to the model service is begun.
    pub fn begin_ppq_funding_attempt(&self) -> (records: Vec<Record>)
        ensures
            records@ == seq![Record::PpqFundingInFlight(true)],
    {
        let mut records: Vec<Record> = Vec::new();
        records.push(Record::PpqFundingInFlight(true));
        assert(records@ =~= seq![Record::PpqFundingInFlight(true)]);
        records
    }

    /// The first decision of bringing the wallet up, on its balance: a wallet whose model service
    /// is funded is up already.
    pub fn bootstrap(&self, balance: Amount) -> (out: (Vec<BootstrapEvent>, BootstrapStep))
        ensures
            event_views(out.0@) == seq![BootstrapEventView::Balance(balance)],
            out.1 == if self.state().ppq_ready == Some(true) {
                BootstrapStep::Finished
            } else {
                BootstrapStep::EnsureReceiveCode
            },
    {
        balance_known(balance, self.is_ppq_ready())
    }

    /// What an invoice is asked for with. A description of more than 639 bytes is refused.
    pub fn create_invoice(&self, amount_sats: u64, description: &str) -> (order: Result<
        InvoiceOrder,
        String,
    >)
        requires
            amount_sats * 1000 <= u64::MAX,
        ensures
            match order {
                Ok(order) => {
                    &&& encode_utf8(description@).len() <= 639
                    &&& order.amount.msats == amount_sats * 1000
                    &&& order.description@ == description@
                },
                Err(message) => {
                    &&& encode_utf8(description@).len() > 639
                    &&& message@ == "The supplied description string was longer than 639 bytes"@
                },
            },
    {
        match check_description(description) {
            Ok(description) => Ok(
                InvoiceOrder { amount: Amount::from_sats(amount_sats), description },
            ),
            Err(message) => Err(message),
        }
    }

    /// What a payment is made with.
    pub fn pay(&self, payment: &str, amount_sats: Option<u64>) -> (order: PayOrder)
        requires
            amount_sats matches Some(sats) ==> sats * 1000 <= u64::MAX,
        ensures
            order.payment@ == payment@,
            match amount_sats {
                Some(sats) => order.amount matches Some(amount) && amount.msats == sats * 1000,
                None => order.amount is None,
            },
    {
        PayOrder {
            payment: payment.to_owned(),
            amount: match amount_sats {
                Some(sats) => Some(Amount::from_sats(sats)),
                None => None,
            },
        }
    }
}

// ── Taking over older storage ───────────────────────────────────────────

/// The entries of the browser's local storage that earlier versions kept.
#[derive(Clone, Copy, Debug, PartialEq, Eq, Structural)]
pub enum LegacyKey {
    Mnemonic,
    PpqReady,
    PpqAccount,
    PpqFunding,
    Lnurl,
}

/// The name of a storage entry.
pub open spec fn legacy_name(key: LegacyKey) -> Seq<char> {
    match key {
        LegacyKey::Mnemonic => "fedigents.wallet.mnemonic"@,
        LegacyKey::PpqReady => "fedigents.ppq.ready"@,
        LegacyKey::PpqAccount => "fedigents.ppq.account"@,
        LegacyKey::PpqFunding => "fedigents.ppq.funding"@,
        LegacyKey::Lnurl => "fedigents.receive.lnurl"@,
    }
}

impl LegacyKey {
    /// The name of the storage entry.
    pub fn name(&self) -> (name: &'static str)
        ensures
            name@ == legacy_name(*self),
    {
        match self {
            LegacyKey::Mnemonic => "fedigents.wallet.mnemonic",
            LegacyKey::PpqReady => "fedigents.ppq.ready",
            LegacyKey::PpqAccount => "fedigents.ppq.account",
            LegacyKey::PpqFunding => "fedigents.ppq.funding",
            LegacyKey::Lnurl => "fedigents.receive.lnurl",
        }
    }
}

/// What local storage still holds of an earlier version.
#[derive(Debug)]
pub struct LegacyState {
    pub mnemonic: Option<String>,
    pub ppq_ready: Option<bool>,
    pub ppq_account: Option<PpqAccount>,
    pub ppq_funding_in_flight: Option<bool>,
}

/// One entry that is taken over: the record is written, where there is one, and the entry removed
/// from local storage after that.
#[derive(Debug)]
pub struct MigrationStep {
    pub key: LegacyKey,
    pub write: Option<Record>,
}

/// What becomes of one entry. What the database holds stays: the entry is removed. An entry that
/// the database lacks is written to it. Where there is neither, nothing happens.
pub open spec fn entry_steps(key: LegacyKey, stored: bool, legacy: Option<Record>) -> Seq<
    MigrationStep,
> {
    if stored {
        seq![MigrationStep { key, write: None }]
    } else {
        match legacy {
            Some(record) => seq![MigrationStep { key, write: Some(record) }],
            None => Seq::empty(),
        }
    }
}

/// The entries that are taken over, in order.
pub open spec fn migration_steps(state: AppState, legacy: LegacyState) -> Seq<MigrationStep> {
    entry_steps(
        LegacyKey::Mnemonic,
        state.mnemonic is Some,
        match legacy.mnemonic {
            Some(words) => Some(Record::Mnemonic(words)),
            None => None,
        },
    ) + entry_steps(
        LegacyKey::PpqReady,
        state.ppq_ready is Some,
        match legacy.ppq_ready {
            Some(ready) => Some(Record::PpqReady(ready)),
            None => None,
        },
    ) + entry_steps(
        LegacyKey::PpqAccount,
        state.ppq_account is Some,
        match legacy.ppq_account {
            Some(account) => Some(Record::PpqAccount(account)),
            None => None,
        },
    ) + entry_steps(
        LegacyKey::PpqFunding,
        state.ppq_funding_in_flight is Some,
        match legacy.ppq_funding_in_flight {
            Some(flag) => Some(Record::PpqFundingInFlight(flag)),
            None => None,
        },
    )
}

/// What becomes of one entry.
pub fn migrate_local_storage_entry(key: LegacyKey, stored: bool, legacy: Option<Record>) -> (steps:
    Vec<MigrationStep>)
    ensures
        steps@ == entry_steps(key, stored, legacy),
{
    let mut steps: Vec<MigrationStep> = Vec::new();
    if stored {
        steps.push(MigrationStep { key, write: None });
    } else if legacy.is_some() {
        steps.push(MigrationStep { key, write: legacy });
    }
    assert(steps@ =~= entry_steps(key, stored, legacy));
    steps
}

/// The entries that are taken over, in order.
pub fn migrate_legacy_local_storage(state: &AppState, legacy: LegacyState) -> (steps: Vec<
    MigrationStep,
>)
    ensures
        steps@ == migration_steps(*state, legacy),
{
    let mut steps = migrate_local_storage_entry(
        LegacyKey::Mnemonic,
        state.mnemonic.is_some(),
        match legacy.mnemonic {
            Some(words) => Some(Record::Mnemonic(words)),
            None => None,
        },
    );
    let mut ready = migrate_local_storage_entry(
        LegacyKey::PpqReady,
        state.ppq_ready.is_some(),
        match legacy.ppq_ready {
            Some(ready) => Some(Record::PpqReady(ready)),
            None => None,
        },
    );
    let mut account = migrate_local_storage_entry(
        LegacyKey::PpqAccount,
        state.ppq_account.is_some(),
        match legacy.ppq_account {
            Some(account) => Some(Record::PpqAccount(account)),
            None => None,
        },
    );
    let mut funding = migrate_local_storage_entry(
        LegacyKey::PpqFunding,
        state.ppq_funding_in_flight.is_some(),
        match legacy.ppq_funding_in_flight {
            Some(flag) => Some(Record::PpqFundingInFlight(flag)),
            None => None,
        },
    );
    steps.append(&mut ready);
    steps.append(&mut account);
    steps.append(&mut funding);
    steps
}

// ── The recovery words ──────────────────────────────────────────────────

/// The recovery words that a text is read as, or the fault for which it is refused.
pub uninterp spec fn mnemonic_reading(text: Seq<char>) -> Result<Seq<Seq<char>>, Seq<char>>;

/// `bip39::Mnemonic::parse_in_normalized` in English, a function of the text alone, and `words` of
/// the mnemonic. Words that were read, put one after another with a blank between, are read as
/// the same words.
#[verifier::external_body]
fn parse_mnemonic(text: &str) -> (words: Result<Vec<String>, String>)
    ensures
        match words {
            Ok(words) => mnemonic_reading(text@) == Ok::<_, Seq<char>>(views(words@)),
            Err(message) => mnemonic_reading(text@) == Err::<Seq<Seq<char>>, _>(message@),
        },
        words matches Ok(words) ==> mnemonic_reading(joined(views(words@), " "@))
            == mnemonic_reading(text@),
{
    bip39::Mnemonic::parse_in_normalized(bip39::Language::English, text)
        .map(|mnemonic| mnemonic.words().map(str::to_owned).collect())
        .map_err(|fault| fault.to_string())
}

/// Where the recovery words come from.
#[derive(Debug)]
pub enum MnemonicStep {
    /// The words that are kept.
    Use(Vec<String>),
    /// New ones have to be drawn.
    Draw,
}

/// The recovery words that are kept, or the need for new ones. Kept words that cannot be read are
/// an error, and nothing replaces them. Words that were read, written down anew, are read as the
/// same words.
pub fn ensure_mnemonic(state: &AppState) -> (step: Result<MnemonicStep, String>)
    ensures
        match state.mnemonic {
            None => step == Ok::<MnemonicStep, String>(MnemonicStep::Draw),
            Some(text) => match (step, mnemonic_reading(text@)) {
                (Ok(MnemonicStep::Use(words)), Ok(read)) => views(words@) == read
                    && mnemonic_reading(joined(read, " "@)) == mnemonic_reading(text@),
                (Err(message), Err(fault)) => message@ == fault,
                _ => false,
            },
        },
{
    match &state.mnemonic {
        None => Ok(MnemonicStep::Draw),
        Some(text) => match parse_mnemonic(text.as_str()) {
            Ok(words) => Ok(MnemonicStep::Use(words)),
            Err(message) => Err(message),
        },
    }
}

/// The record of recovery words that were drawn.
pub fn mnemonic_drawn(words: &Vec<String>) -> (record: Record)
    ensures
        record matches Record::Mnemonic(text) && text@ == joined(views(words@), " "@),
{
    Record::Mnemonic(join(words, " "))
}

// ── Opening the client ──────────────────────────────────────────────────

/// How the federation client is come by.
#[derive(Clone, Copy, Debug, PartialEq, Eq, Structural)]
pub enum ClientStep {
    /// The one that is open.
    Reuse,
    /// Opened from the database.
    Open,
    /// By joining the federation for the first time.
    Join,
}

/// How the federation client is come by.
pub fn ensure_client(open: bool, initialized: bool) -> (step: ClientStep)
    ensures
        step == if open {
            ClientStep::Reuse
        } else if initialized {
            ClientStep::Open
        } else {
            ClientStep::Join
        },
{
    if open {
        ClientStep::Reuse
    } else if initialized {
        ClientStep::Open
    } else {
        ClientStep::Join
    }
}

// ── The receive code ────────────────────────────────────────────────────

/// A code that the federation client knows, by its index.
#[derive(Clone, Debug)]
pub struct KnownCode {
    pub idx: u64,
    pub code: String,
}

/// How the receive code is come by.
#[derive(Debug)]
pub enum ReceiveCodeStep {
    /// The one that is kept. An entry of local storage is removed.
    UseStored(ReceiveCode),
    /// The one of local storage. It is written, and the entry removed after that.
    Adopt(ReceiveCode),
    /// The one among the known codes that local storage names, if it is there.
    FindNamed(String),
    /// The first of the known codes, or a new one.
    FindAny,
}

/// How the receive code is come by: kept, then in local storage as a whole, then named there.
pub open spec fn receive_code_step(
    stored: Option<ReceiveCode>,
    legacy: Option<ReceiveCode>,
    legacy_name: Option<String>,
) -> ReceiveCodeStep {
    match (stored, legacy, legacy_name) {
        (Some(code), _, _) => ReceiveCodeStep::UseStored(code),
        (None, Some(code), _) => ReceiveCodeStep::Adopt(code),
        (None, None, Some(name)) => ReceiveCodeStep::FindNamed(name),
        (None, None, None) => ReceiveCodeStep::FindAny,
    }
}

/// How the receive code is come by.
pub fn ensure_receive_code(
    stored: &Option<ReceiveCode>,
    legacy: Option<ReceiveCode>,
    legacy_name: Option<String>,
) -> (step: ReceiveCodeStep)
    ensures
        step == receive_code_step(*stored, legacy, legacy_name),
{
    match stored {
        Some(code) => ReceiveCodeStep::UseStored(code.copy()),
        None => match legacy {
            Some(code) => ReceiveCodeStep::Adopt(code),
            None => match legacy_name {
                Some(name) => ReceiveCodeStep::FindNamed(name),
                None => ReceiveCodeStep::FindAny,
            },
        },
    }
}

/// Whether `code` is the first of the known codes with this text, or there is none.
pub open spec fn named_code(
    known: Seq<KnownCode>,
    name: Seq<char>,
    code: Option<ReceiveCode>,
) -> bool {
    match code {
        Some(code) => exists|i: int|
            {
                &&& 0 <= i < known.len()
                &&& (#[trigger] known[i]).code@ == name
                &&& code.payment_code_idx == known[i].idx
                &&& code.lnurl@ == name
                &&& forall|j: int| 0 <= j < i ==> (#[trigger] known[j]).code@ != name
            },
        None => forall|i: int| 0 <= i < known.len() ==> (#[trigger] known[i]).code@ != name,
    }
}

/// Finds a code by its text among the known ones.
pub fn find_named_code(known: &Vec<KnownCode>, name: &str) -> (code: Option<ReceiveCode>)
    ensures
        named_code(known@, name@, code),
{
    let mut i: usize = 0;
    while i < known.len()
        invariant
            i <= known@.len(),
            forall|j: int| 0 <= j < i ==> (#[trigger] known@[j]).code@ != name@,
        decreases known@.len() - i,
    {
        if same_text(known[i].code.as_str(), name) {
            let code = ReceiveCode {
                payment_code_idx: known[i].idx,
                lnurl: known[i].code.clone(),
            };
            assert(known@[i as int].code@ == name@);
            return Some(code);
        }
        i += 1;
    }
    None
}

/// The first of the known codes.
pub fn first_code(known: &Vec<KnownCode>) -> (code: Option<ReceiveCode>)
    ensures
        code == if known@.len() == 0 {
            None
        } else {
            Some(ReceiveCode { payment_code_idx: known@[0].idx, lnurl: known@[0].code })
        },
{
    if known.len() == 0 {
        None
    } else {
        Some(ReceiveCode { payment_code_idx: known[0].idx, lnurl: known[0].code.clone() })
    }
}

/// A code that was registered, found again among the known ones.
pub fn registered_code(known: &Vec<KnownCode>, name: &str) -> (code: Result<ReceiveCode, String>)
    ensures
        match code {
            Ok(code) => named_code(known@, name@, Some(code)),
            Err(message) => named_code(known@, name@, None) && message@
                == "Unable to determine LNURL payment code index"@,
        },
{
    match find_named_code(known, name) {
        Some(code) => Ok(code),
        None => Err("Unable to determine LNURL payment code index".to_owned()),
    }
}

/// What a new receive code says of itself.
pub open spec fn receive_code_meta_json() -> JsonView {
    JsonView::Array(
        seq![
            JsonView::Array(
                seq![
                    JsonView::Text("text/plain"@),
                    JsonView::Text("Deposit into your Fedigents wallet"@),
                ],
            ),
        ],
    )
}

/// What a new receive code says of itself.
pub fn receive_code_meta() -> (meta: Json)
    ensures
        meta@ == receive_code_meta_json(),
{
    let mut pair: Vec<Json> = Vec::new();
    pair.push(Json::text("text/plain"));
    let ghost one = pair@;
    pair.push(Json::text("Deposit into your Fedigents wallet"));
    let mut meta: Vec<Json> = Vec::new();
    meta.push(Json::Array(pair));
    proof {
        reveal_with_fuel(array_view, 3);
        assert(pair@.drop_last() =~= one);
        assert(one.drop_last() =~= Seq::empty());
        assert(meta@.drop_last() =~= Seq::empty());
        assert(array_view(pair@) =~= receive_code_meta_json()->Array_0[0]->Array_0);
        assert(array_view(meta@) =~= receive_code_meta_json()->Array_0);
    }
    Json::Array(meta)
}

/// The address of the service that serves receive codes, in what the federation says of itself.
pub fn lookup_recurringd_api(meta: &Json) -> (api: Result<&str, String>)
    ensures
        match text_of(member(meta@, "recurringd_api"@)) {
            Some(text) => api matches Ok(api) && api@ == text,
            None => api matches Err(message) && message@
                == "Federation meta does not expose `recurringd_api`"@,
        },
{
    match meta.get("recurringd_api") {
        Some(api) => match api.as_str() {
            Some(api) => Ok(api),
            None => Err("Federation meta does not expose `recurringd_api`".to_owned()),
        },
        None => Err("Federation meta does not expose `recurringd_api`".to_owned()),
    }
}

} // verus!
