//! Laws of what the wallet keeps, and of the ways in which older storage is taken over.
use vstd::prelude::*;

use crate::boot::{boot_next, law_boot_never_pays_twice_over, payments, BootEvent, Stage};
use crate::fedimint::{
    account_step, ensure_client, ensure_mnemonic, entry_steps, first_code, legacy_name,
    lookup_recurringd_api, memory_only_notice, migration_steps, mnemonic_drawn, named_code,
    receive_code_step, registered_code, with_record, with_records, AccountStep, AppState,
    ClientStep, InvoiceOrder, KnownCode, LegacyKey, LegacyState, MigrationStep, MnemonicStep,
    PayOrder, ReceiveCode, ReceiveCodeStep, Record, WalletRuntime,
};
use crate::json::{member, Json, JsonView};
use crate::ppq::PpqAccount;
use crate::text::{contains_text, joined, views};
use vstd::utf8::encode_utf8;

verus! {

/// Marking the model service as funded sets the mark and ends the payment that was begun, and
/// changes nothing else.
pub proof fn law_marking_ready_ends_the_attempt(state: AppState)
    ensures
        with_records(state, seq![Record::PpqReady(true), Record::PpqFundingInFlight(false)])
            == (AppState {
            ppq_ready: Some(true),
            ppq_funding_in_flight: Some(false),
            ..state
        }),
{
    let records = seq![Record::PpqReady(true), Record::PpqFundingInFlight(false)];
    reveal_with_fuel(with_records, 3);
    assert(records.drop_last().drop_last() =~= Seq::<Record>::empty());
}

/// Writing a payment down as begun changes nothing else.
pub proof fn law_beginning_an_attempt_is_remembered(state: AppState)
    ensures
        with_records(state, seq![Record::PpqFundingInFlight(true)]) == (AppState {
            ppq_funding_in_flight: Some(true),
            ..state
        }),
{
    reveal_with_fuel(with_records, 2);
    assert(seq![Record::PpqFundingInFlight(true)].drop_last() =~= Seq::<Record>::empty());
}

/// An account that was written down is the one that is used from then on.
pub proof fn law_account_is_kept(state: AppState, account: PpqAccount)
    ensures
        account_step(with_records(state, seq![Record::PpqAccount(account)])) == AccountStep::Use(
            account,
        ),
{
    reveal_with_fuel(with_records, 2);
    assert(seq![Record::PpqAccount(account)].drop_last() =~= Seq::<Record>::empty());
}

/// The funding of the model service survives a restart: a page that starts over after a payment
/// was written down as begun, whether or not the service was marked as funded after that, makes no
/// payment, whatever happens.
pub proof fn law_no_double_funding(state: AppState, marked: bool, events: Seq<BootEvent>)
    ensures
        ({
            let begun = with_records(state, seq![Record::PpqFundingInFlight(true)]);
            let kept = if marked {
                with_records(
                    begun,
                    seq![Record::PpqReady(true), Record::PpqFundingInFlight(false)],
                )
            } else {
                begun
            };
            let ready = kept.ppq_ready == Some(true);
            let in_flight = kept.ppq_funding_in_flight == Some(true);
            let read = boot_next(Stage::ReadingReady, BootEvent::ReadyRead(Ok(ready))).stage;
            let next = if ready {
                read
            } else {
                boot_next(read, BootEvent::InFlightRead(Ok(in_flight))).stage
            };
            payments(next, events) == 0
        }),
{
    law_beginning_an_attempt_is_remembered(state);
    let begun = with_records(state, seq![Record::PpqFundingInFlight(true)]);
    law_marking_ready_ends_the_attempt(begun);
    law_boot_never_pays_twice_over(
        BootEvent::ReadyRead(Ok(true)),
        Stage::ReadingReady,
        events,
    );
    law_boot_never_pays_twice_over(
        BootEvent::InFlightRead(Ok(true)),
        Stage::ReadingInFlight,
        events,
    );
}

/// The records that steps of taking over write, in order.
pub open spec fn written_records(steps: Seq<MigrationStep>) -> Seq<Record>
    decreases steps.len(),
{
    if steps.len() == 0 {
        Seq::empty()
    } else {
        match steps.last().write {
            Some(record) => written_records(steps.drop_last()).push(record),
            None => written_records(steps.drop_last()),
        }
    }
}

proof fn lemma_written_concat(first: Seq<MigrationStep>, second: Seq<MigrationStep>)
    ensures
        written_records(first + second) == written_records(first) + written_records(second),
    decreases second.len(),
{
    if second.len() == 0 {
        assert(first + second =~= first);
        assert(written_records(first) + written_records(second) =~= written_records(first));
    } else {
        assert((first + second).drop_last() =~= first + second.drop_last());
        lemma_written_concat(first, second.drop_last());
        assert(written_records(first + second) =~= written_records(first) + written_records(
            second,
        ));
    }
}

proof fn lemma_with_records_concat(state: AppState, first: Seq<Record>, second: Seq<Record>)
    ensures
        with_records(state, first + second) == with_records(with_records(state, first), second),
    decreases second.len(),
{
    if second.len() == 0 {
        assert(first + second =~= first);
    } else {
        assert((first + second).drop_last() =~= first + second.drop_last());
        lemma_with_records_concat(state, first, second.drop_last());
    }
}

proof fn lemma_entry_written(
    state: AppState,
    key: LegacyKey,
    stored: bool,
    legacy: Option<Record>,
)
    ensures
        with_records(state, written_records(entry_steps(key, stored, legacy))) == match legacy {
            Some(record) => if stored {
                state
            } else {
                with_record(state, record)
            },
            None => state,
        },
{
    reveal_with_fuel(written_records, 2);
    reveal_with_fuel(with_records, 2);
    let steps = entry_steps(key, stored, legacy);
    if steps.len() > 0 {
        assert(steps.drop_last() =~= Seq::<MigrationStep>::empty());
        let records = written_records(steps);
        if records.len() > 0 {
            assert(records =~= seq![legacy->0]);
            assert(records.drop_last() =~= Seq::<Record>::empty());
        }
    }
}

/// Taking older storage over never replaces what the database holds, and brings in whatever it
/// lacks.
pub proof fn law_migration_never_overrides(state: AppState, legacy: LegacyState)
    ensures
        with_records(state, written_records(migration_steps(state, legacy))) == (AppState {
            mnemonic: if state.mnemonic is Some {
                state.mnemonic
            } else {
                legacy.mnemonic
            },
            ppq_ready: if state.ppq_ready is Some {
                state.ppq_ready
            } else {
                legacy.ppq_ready
            },
            ppq_account: if state.ppq_account is Some {
                state.ppq_account
            } else {
                legacy.ppq_account
            },
            ppq_funding_in_flight: if state.ppq_funding_in_flight is Some {
                state.ppq_funding_in_flight
            } else {
                legacy.ppq_funding_in_flight
            },
            receive_code: state.receive_code,
        }),
{
    let mnemonic = match legacy.mnemonic {
        Some(words) => Some(Record::Mnemonic(words)),
        None => None,
    };
    let ready = match legacy.ppq_ready {
        Some(ready) => Some(Record::PpqReady(ready)),
        None => None,
    };
    let account = match legacy.ppq_account {
        Some(account) => Some(Record::PpqAccount(account)),
        None => None,
    };
    let funding = match legacy.ppq_funding_in_flight {
        Some(flag) => Some(Record::PpqFundingInFlight(flag)),
        None => None,
    };
    let a = entry_steps(LegacyKey::Mnemonic, state.mnemonic is Some, mnemonic);
    let b = entry_steps(LegacyKey::PpqReady, state.ppq_ready is Some, ready);
    let c = entry_steps(LegacyKey::PpqAccount, state.ppq_account is Some, account);
    let d = entry_steps(LegacyKey::PpqFunding, state.ppq_funding_in_flight is Some, funding);
    lemma_written_concat(a + b + c, d);
    lemma_written_concat(a + b, c);
    lemma_written_concat(a, b);
    let (ra, rb, rc, rd) = (
        written_records(a),
        written_records(b),
        written_records(c),
        written_records(d),
    );
    lemma_with_records_concat(state, ra + rb + rc, rd);
    lemma_with_records_concat(state, ra + rb, rc);
    lemma_with_records_concat(state, ra, rb);
    let s1 = with_records(state, ra);
    let s2 = with_records(s1, rb);
    let s3 = with_records(s2, rc);
    lemma_entry_written(state, LegacyKey::Mnemonic, state.mnemonic is Some, mnemonic);
    lemma_entry_written(s1, LegacyKey::PpqReady, state.ppq_ready is Some, ready);
    lemma_entry_written(s2, LegacyKey::PpqAccount, state.ppq_account is Some, account);
    lemma_entry_written(s3, LegacyKey::PpqFunding, state.ppq_funding_in_flight is Some, funding);
}

/// Once older storage was taken over, doing so again writes nothing.
pub proof fn law_migration_is_done_once(state: AppState, legacy: LegacyState, again: LegacyState)
    requires
        again == (LegacyState {
            mnemonic: None,
            ppq_ready: None,
            ppq_account: None,
            ppq_funding_in_flight: None,
        }),
    ensures
        written_records(
            migration_steps(
                with_records(state, written_records(migration_steps(state, legacy))),
                again,
            ),
        ) == Seq::<Record>::empty(),
{
    let after = with_records(state, written_records(migration_steps(state, legacy)));
    let a = entry_steps(LegacyKey::Mnemonic, after.mnemonic is Some, None);
    let b = entry_steps(LegacyKey::PpqReady, after.ppq_ready is Some, None);
    let c = entry_steps(LegacyKey::PpqAccount, after.ppq_account is Some, None);
    let d = entry_steps(LegacyKey::PpqFunding, after.ppq_funding_in_flight is Some, None);
    lemma_written_concat(a + b + c, d);
    lemma_written_concat(a + b, c);
    lemma_written_concat(a, b);
    lemma_nothing_written(LegacyKey::Mnemonic, after.mnemonic is Some);
    lemma_nothing_written(LegacyKey::PpqReady, after.ppq_ready is Some);
    lemma_nothing_written(LegacyKey::PpqAccount, after.ppq_account is Some);
    lemma_nothing_written(LegacyKey::PpqFunding, after.ppq_funding_in_flight is Some);
    assert(written_records(migration_steps(after, again)) =~= Seq::<Record>::empty());
}

proof fn lemma_nothing_written(key: LegacyKey, stored: bool)
    ensures
        written_records(entry_steps(key, stored, None)) == Seq::<Record>::empty(),
{
    reveal_with_fuel(written_records, 2);
    let steps = entry_steps(key, stored, None);
    if steps.len() > 0 {
        assert(steps.drop_last() =~= Seq::<MigrationStep>::empty());
    }
}

/// What was written last counts, and a record of one kind leaves every other kind as it was.
pub proof fn law_last_record_counts(state: AppState, records: Seq<Record>, record: Record)
    ensures
        ({
            let before = with_records(state, records);
            with_records(state, records.push(record)) == match record {
                Record::Mnemonic(words) => AppState { mnemonic: Some(words), ..before },
                Record::PpqReady(ready) => AppState { ppq_ready: Some(ready), ..before },
                Record::PpqAccount(account) => AppState { ppq_account: Some(account), ..before },
                Record::ReceiveCode(code) => AppState { receive_code: Some(code), ..before },
                Record::PpqFundingInFlight(flag) => AppState {
                    ppq_funding_in_flight: Some(flag),
                    ..before
                },
            }
        }),
        with_records(state, Seq::empty()) == state,
{
    assert(records.push(record).drop_last() =~= records);
}

/// Whether these steps take an entry over.
pub open spec fn takes_over(steps: Seq<MigrationStep>, key: LegacyKey) -> bool {
    exists|i: int| 0 <= i < steps.len() && (#[trigger] steps[i]).key == key
}

proof fn lemma_takes_over_concat(first: Seq<MigrationStep>, second: Seq<MigrationStep>, key: LegacyKey)
    ensures
        takes_over(first + second, key) == (takes_over(first, key) || takes_over(second, key)),
{
    let all = first + second;
    if takes_over(first, key) {
        let i = choose|i: int| 0 <= i < first.len() && (#[trigger] first[i]).key == key;
        assert(all[i].key == key);
    }
    if takes_over(second, key) {
        let i = choose|i: int| 0 <= i < second.len() && (#[trigger] second[i]).key == key;
        assert(all[first.len() + i].key == key);
    }
    if takes_over(all, key) {
        let i = choose|i: int| 0 <= i < all.len() && (#[trigger] all[i]).key == key;
        if i < first.len() {
            assert(first[i].key == key);
        } else {
            assert(second[i - first.len()].key == key);
        }
    }
}

proof fn lemma_entry_taken_over(key: LegacyKey, stored: bool, legacy: Option<Record>, other: LegacyKey)
    ensures
        takes_over(entry_steps(key, stored, legacy), other) == (other == key && (stored
            || legacy is Some)),
{
    let steps = entry_steps(key, stored, legacy);
    if steps.len() > 0 {
        assert(steps[0].key == key);
    }
}

/// An entry of local storage is removed once the database holds what it held, and exactly then:
/// because the database held it before, or because it was taken over from the entry.
pub proof fn law_entries_are_removed_once_kept(state: AppState, legacy: LegacyState)
    ensures
        ({
            let steps = migration_steps(state, legacy);
            let after = with_records(state, written_records(steps));
            &&& takes_over(steps, LegacyKey::Mnemonic) <==> after.mnemonic is Some
            &&& takes_over(steps, LegacyKey::PpqReady) <==> after.ppq_ready is Some
            &&& takes_over(steps, LegacyKey::PpqAccount) <==> after.ppq_account is Some
            &&& takes_over(steps, LegacyKey::PpqFunding) <==> after.ppq_funding_in_flight is Some
            &&& !takes_over(steps, LegacyKey::Lnurl)
        }),
{
    law_migration_never_overrides(state, legacy);
    let mnemonic = match legacy.mnemonic {
        Some(words) => Some(Record::Mnemonic(words)),
        None => None,
    };
    let ready = match legacy.ppq_ready {
        Some(ready) => Some(Record::PpqReady(ready)),
        None => None,
    };
    let account = match legacy.ppq_account {
        Some(account) => Some(Record::PpqAccount(account)),
        None => None,
    };
    let funding = match legacy.ppq_funding_in_flight {
        Some(flag) => Some(Record::PpqFundingInFlight(flag)),
        None => None,
    };
    let a = entry_steps(LegacyKey::Mnemonic, state.mnemonic is Some, mnemonic);
    let b = entry_steps(LegacyKey::PpqReady, state.ppq_ready is Some, ready);
    let c = entry_steps(LegacyKey::PpqAccount, state.ppq_account is Some, account);
    let d = entry_steps(LegacyKey::PpqFunding, state.ppq_funding_in_flight is Some, funding);
    assert forall|key: LegacyKey| #[trigger] takes_over(a + b + c + d, key) == (takes_over(a, key)
        || takes_over(b, key) || takes_over(c, key) || takes_over(d, key)) by {
        lemma_takes_over_concat(a + b + c, d, key);
        lemma_takes_over_concat(a + b, c, key);
        lemma_takes_over_concat(a, b, key);
    }
    assert forall|key: LegacyKey|
        #![trigger takes_over(a, key)]
        #![trigger takes_over(b, key)]
        #![trigger takes_over(c, key)]
        #![trigger takes_over(d, key)]
        takes_over(a, key) == (key == LegacyKey::Mnemonic && (state.mnemonic is Some
            || legacy.mnemonic is Some)) && takes_over(b, key) == (key == LegacyKey::PpqReady && (
        state.ppq_ready is Some || legacy.ppq_ready is Some)) && takes_over(c, key) == (key
            == LegacyKey::PpqAccount && (state.ppq_account is Some || legacy.ppq_account is Some))
            && takes_over(d, key) == (key == LegacyKey::PpqFunding && (
        state.ppq_funding_in_flight is Some || legacy.ppq_funding_in_flight is Some)) by {
        lemma_entry_taken_over(LegacyKey::Mnemonic, state.mnemonic is Some, mnemonic, key);
        lemma_entry_taken_over(LegacyKey::PpqReady, state.ppq_ready is Some, ready, key);
        lemma_entry_taken_over(LegacyKey::PpqAccount, state.ppq_account is Some, account, key);
        lemma_entry_taken_over(
            LegacyKey::PpqFunding,
            state.ppq_funding_in_flight is Some,
            funding,
            key,
        );
    }
}

/// A receive code that is kept is used, whatever local storage holds. Without one, a whole code of
/// local storage is taken over as it is, and a bare name is looked for; only where there is neither
/// is any code taken.
pub proof fn law_kept_codes_are_used(
    stored: Option<ReceiveCode>,
    legacy: Option<ReceiveCode>,
    name: Option<String>,
)
    ensures
        stored matches Some(code) ==> receive_code_step(stored, legacy, name)
            == ReceiveCodeStep::UseStored(code),
        stored is None ==> (legacy matches Some(code) ==> receive_code_step(stored, legacy, name)
            == ReceiveCodeStep::Adopt(code)),
        stored is None && legacy is None ==> (name matches Some(text) ==> receive_code_step(
            stored,
            legacy,
            name,
        ) == ReceiveCodeStep::FindNamed(text)),
        receive_code_step(stored, legacy, name) is FindAny <==> stored is None && legacy is None
            && name is None,
{
}

/// A code is found by its name wherever it is known, with the index of the first that has it, and a
/// name that is not known finds none.
pub proof fn law_codes_are_found_by_name(
    known: Seq<KnownCode>,
    name: Seq<char>,
    code: Option<ReceiveCode>,
    i: int,
)
    requires
        named_code(known, name, code),
        0 <= i < known.len(),
        known[i].code@ == name,
        forall|j: int| 0 <= j < i ==> (#[trigger] known[j]).code@ != name,
    ensures
        code matches Some(found) && found.lnurl@ == name && found.payment_code_idx == known[i].idx,
{
}

/// The notice that nothing is kept says why.
pub proof fn law_notices_say_why(fault: Seq<char>)
    ensures
        contains_text(memory_only_notice(fault), fault),
{
    crate::text_laws::law_parts_are_held(
        "Persistent wallet storage is unavailable in this browser session ("@,
        fault,
        "). Falling back to in-memory mode. Your wallet state will reset when this tab closes."@,
        fault,
    );
}

/// No two entries of local storage have the same name.
pub proof fn law_entry_names_differ(a: LegacyKey, b: LegacyKey)
    requires
        legacy_name(a) == legacy_name(b),
    ensures
        a == b,
{
    reveal_strlit("fedigents.wallet.mnemonic");
    reveal_strlit("fedigents.ppq.ready");
    reveal_strlit("fedigents.ppq.account");
    reveal_strlit("fedigents.ppq.funding");
    reveal_strlit("fedigents.receive.lnurl");
    assert("fedigents.wallet.mnemonic"@.len() == 25);
    assert("fedigents.ppq.ready"@.len() == 19);
    assert("fedigents.ppq.account"@.len() == 21);
    assert("fedigents.ppq.funding"@.len() == 21);
    assert("fedigents.receive.lnurl"@.len() == 23);
    assert("fedigents.ppq.account"@[14] != "fedigents.ppq.funding"@[14]);
}

// ── The functions themselves ────────────────────────────────────────────

/// A payment is ordered to where it is to go, over the satoshis that are to be paid, and an invoice
/// over the satoshis that it is asked for, with its description. A description that is too long for
/// an invoice makes none.
pub proof fn law_orders_are_as_asked(
    wallet: WalletRuntime,
    text: &str,
    sats: u64,
    amount_sats: Option<u64>,
    paying: PayOrder,
    invoicing: Result<InvoiceOrder, String>,
)
    requires
        call_ensures(WalletRuntime::pay, (&wallet, text, amount_sats), paying),
        call_ensures(WalletRuntime::create_invoice, (&wallet, sats, text), invoicing),
    ensures
        paying.payment@ == text@,
        amount_sats matches Some(sats) ==> (paying.amount matches Some(amount) && amount.msats
            == sats * 1000),
        amount_sats is None ==> paying.amount is None,
        invoicing matches Ok(order) ==> order.amount.msats == sats * 1000 && order.description@
            == text@,
        invoicing is Ok <==> encode_utf8(text@).len() <= 639,
{
}

/// What the wallet is told to write down it knows from then on: a mark, an account and a receive
/// code are read back as they were written.
pub proof fn law_written_records_are_read_back(
    wallet: &mut WalletRuntime,
    records: Vec<Record>,
    done: (),
    ready: bool,
    in_flight: bool,
    account: Option<PpqAccount>,
    code: Option<String>,
)
    requires
        call_ensures(WalletRuntime::commit, (wallet, records), done),
        call_ensures(WalletRuntime::is_ppq_ready, (&*final(wallet),), ready),
        call_ensures(WalletRuntime::ppq_funding_in_flight, (&*final(wallet),), in_flight),
        call_ensures(WalletRuntime::ppq_account, (&*final(wallet),), account),
        call_ensures(WalletRuntime::cached_receive_code, (&*final(wallet),), code),
        records@.len() > 0,
    ensures
        match records@.last() {
            Record::PpqReady(flag) => ready == flag,
            Record::PpqFundingInFlight(flag) => in_flight == flag,
            Record::PpqAccount(kept) => account == Some(kept),
            Record::ReceiveCode(kept) => code == Some(kept.lnurl),
            Record::Mnemonic(words) => final(wallet).state().mnemonic == Some(words),
        },
        final(wallet).notice() == old(wallet).notice(),
{
    let front = records@.drop_last();
    assert(records@ =~= front.push(records@.last()));
    law_last_record_counts(old(wallet).state(), front, records@.last());
}

/// The records that the wallet asks to be written are those of what happened: that the service is
/// funded and no payment begun, that a payment is begun, the account that was created, and the
/// recovery words, one after another with a blank between.
pub proof fn law_records_say_what_happened(
    wallet: WalletRuntime,
    account: PpqAccount,
    words: Vec<String>,
    funded: Vec<Record>,
    begun: Vec<Record>,
    created: Vec<Record>,
    drawn: Record,
)
    requires
        call_ensures(WalletRuntime::mark_ppq_ready, (&wallet,), funded),
        call_ensures(WalletRuntime::begin_ppq_funding_attempt, (&wallet,), begun),
        call_ensures(WalletRuntime::account_created, (&wallet, &account), created),
        call_ensures(mnemonic_drawn, (&words,), drawn),
    ensures
        with_records(wallet.state(), funded@).ppq_ready == Some(true),
        with_records(wallet.state(), funded@).ppq_funding_in_flight == Some(false),
        with_records(wallet.state(), begun@).ppq_funding_in_flight == Some(true),
        with_records(wallet.state(), created@).ppq_account == Some(account),
        drawn matches Record::Mnemonic(text) && text@ == joined(views(words@), " "@),
{
    law_marking_ready_ends_the_attempt(wallet.state());
    law_beginning_an_attempt_is_remembered(wallet.state());
    law_last_record_counts(wallet.state(), Seq::empty(), Record::PpqAccount(account));
    assert(created@ =~= Seq::<Record>::empty().push(Record::PpqAccount(account)));
}

/// A wallet over a database keeps what the database holds, and has a notice exactly where the
/// database could not be opened.
pub proof fn law_wallets_keep_what_is_stored(
    fault: Option<String>,
    state: AppState,
    wallet: WalletRuntime,
    step: Result<MnemonicStep, String>,
)
    requires
        call_ensures(WalletRuntime::connect, (fault, state), wallet),
        call_ensures(ensure_mnemonic, (&state,), step),
    ensures
        wallet.state() == state,
        wallet.notice() is Some <==> fault is Some,
        fault matches Some(why) ==> (wallet.notice() matches Some(told) && contains_text(told, why@)),
        step matches Ok(MnemonicStep::Draw) <==> state.mnemonic is None,
{
    if let Some(why) = fault {
        law_notices_say_why(why@);
    }
}

/// The client that is open is used; otherwise it is opened where there is one, and the federation
/// is joined only where there is none.
pub proof fn law_clients_are_joined_last(open: bool, initialized: bool, step: ClientStep)
    requires
        call_ensures(ensure_client, (open, initialized), step),
    ensures
        step is Reuse <==> open,
        step is Join <==> !open && !initialized,
{
}

/// The first code that is known is taken as it is, and there is none only where none is known. A
/// code that was registered is the one of that name.
pub proof fn law_known_codes_are_taken(
    known: Vec<KnownCode>,
    name: &str,
    first: Option<ReceiveCode>,
    registered: Result<ReceiveCode, String>,
)
    requires
        call_ensures(first_code, (&known,), first),
        call_ensures(registered_code, (&known, name), registered),
    ensures
        first is None <==> known@.len() == 0,
        first matches Some(code) ==> code.lnurl == known@[0].code && code.payment_code_idx
            == known@[0].idx,
        registered matches Ok(code) ==> code.lnurl@ == name@ && exists|i: int|
            0 <= i < known@.len() && (#[trigger] known@[i]).code@ == name@ && known@[i].idx
                == code.payment_code_idx,
        registered is Err ==> forall|i: int|
            0 <= i < known@.len() ==> (#[trigger] known@[i]).code@ != name@,
{
}

/// The service for receive codes is the one that the federation names.
pub proof fn law_services_are_as_named(meta: Json, api: Result<&str, String>, name: Seq<char>)
    requires
        call_ensures(lookup_recurringd_api, (&meta,), api),
    ensures
        member(meta@, "recurringd_api"@) == Some(JsonView::Text(name)) ==> (api matches Ok(found)
            && found@ == name),
        member(meta@, "recurringd_api"@) is None ==> api is Err,
{
}

} // verus!
