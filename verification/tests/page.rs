use fedigents::agent::{
    assistant_message, onboarding_message, user_message, ChatMessage, ChatRole,
    PendingPaymentProposal,
};
use fedigents::boot::{
    show_bootstrap_event, show_operation_event, Boot, BootAction, BootEvent, BootOutput,
};
use fedigents::chat::{
    agent_failed, balance_checked, is_spoken, session_name, submit_prompt, top_up_ended,
    top_up_ppq, transcript, BalanceStep, ConfirmStep, PaymentCard, PaymentKind, Recording,
    RecordingEnd, TopupStep,
};
use fedigents::menu::{
    chosen_effort, effort_from_slider, effort_label, effort_slider, format_model_label,
    is_expensive, model_menu, sort_by_rank, PpqModel,
};
use fedigents::ppq::{PpqAccount, PpqTopup};
use fedigents::render::{
    extract_invoice_tags, format_balance, generate_qr_svg, markdown_to_html, render_invoice_widget,
    render_message, role_class, role_label, truncate_middle, visible_messages,
};
use fedigents::wallet_runtime::{BootstrapEvent, OperationEvent};

fn account() -> PpqAccount {
    PpqAccount { credit_id: "c".to_owned(), api_key: "k".to_owned() }
}

fn fault<T>(text: &str) -> Result<T, String> {
    Err(text.to_owned())
}

fn messages(output: &BootOutput) -> Vec<&str> {
    output.messages.iter().map(|message| message.body.as_str()).collect()
}

fn up_to_ready() -> Boot {
    let mut boot = Boot::new();
    boot.step(BootEvent::Registered(Ok(())));
    boot.step(BootEvent::SkillsLoaded(Ok(())));
    boot.step(BootEvent::Connected(Ok(None)));
    let output = boot.step(BootEvent::Bootstrapped(Ok(())));
    assert!(matches!(output.action, BootAction::ReadReady));
    boot
}

#[test]
fn a_fresh_page_funds_the_service_and_unlocks() {
    let mut boot = up_to_ready();
    let output = boot.step(BootEvent::ReadyRead(Ok(false)));
    assert!(matches!(output.action, BootAction::ReadInFlight));
    let output = boot.step(BootEvent::InFlightRead(Ok(false)));
    assert_eq!(messages(&output), ["Creating a PPQ account and funding it with $0.10..."]);
    assert!(matches!(output.action, BootAction::EnsureAccount));
    let output = boot.step(BootEvent::AccountEnsured(Ok(account())));
    assert!(matches!(output.action, BootAction::CreateTopup { account } if account.api_key == "k"));
    let topup = PpqTopup { invoice: "lnbc1".to_owned() };
    let output = boot.step(BootEvent::TopupCreated(Ok(topup)));
    assert!(matches!(output.action, BootAction::RecordAttempt));
    let output = boot.step(BootEvent::AttemptRecorded(Ok(())));
    assert!(matches!(output.action, BootAction::Pay { invoice } if invoice == "lnbc1"));
    let output = boot.step(BootEvent::Paid(Ok(())));
    assert!(matches!(output.action, BootAction::MarkReady));
    let output = boot.step(BootEvent::MarkedReady(Ok(())));
    assert!(matches!(output.action, BootAction::Stop));
    assert_eq!(output.status, Some("Wallet ready"));
    assert_eq!(
        messages(&output),
        ["Fedigents is ready. Ask me to check balance, create invoices, or prepare a Lightning payment for review."]
    );
    assert!(matches!(output.messages[0].role, ChatRole::Assistant));
    assert_eq!(output.unlocked.unwrap().api_key, "k");
    let output = boot.step(BootEvent::AttemptRecorded(Ok(())));
    assert!(matches!(output.action, BootAction::Wait));
}

#[test]
fn an_interrupted_payment_keeps_the_chat_locked() {
    let mut boot = up_to_ready();
    boot.step(BootEvent::ReadyRead(Ok(false)));
    let output = boot.step(BootEvent::InFlightRead(Ok(true)));
    assert_eq!(output.status, Some("PPQ setup needs recovery"));
    assert_eq!(
        messages(&output),
        ["PPQ funding previously started but final setup state was not saved. Chat stays locked to avoid double-funding."]
    );
    assert!(matches!(output.action, BootAction::Stop));
    assert!(output.unlocked.is_none());
    for event in [
        BootEvent::AccountEnsured(Ok(account())),
        BootEvent::AttemptRecorded(Ok(())),
        BootEvent::MarkedReady(Ok(())),
    ] {
        let output = boot.step(event);
        assert!(matches!(output.action, BootAction::Wait));
        assert!(output.unlocked.is_none());
    }
}

#[test]
fn an_unreadable_attempt_mark_does_not_stop_the_funding() {
    let mut boot = up_to_ready();
    boot.step(BootEvent::ReadyRead(Ok(false)));
    let output = boot.step(BootEvent::InFlightRead(fault("db")));
    assert!(matches!(output.action, BootAction::EnsureAccount));
}

#[test]
fn a_funded_page_unlocks_with_its_account() {
    let mut boot = up_to_ready();
    let output = boot.step(BootEvent::ReadyRead(Ok(true)));
    assert!(matches!(output.action, BootAction::ReadAccount));
    let output = boot.step(BootEvent::AccountRead(Ok(Some(account()))));
    assert_eq!(output.status, Some("Wallet ready"));
    assert!(output.messages.is_empty());
    assert!(output.unlocked.is_some());
}

#[test]
fn a_lost_account_is_replaced_without_paying() {
    let mut boot = up_to_ready();
    boot.step(BootEvent::ReadyRead(Ok(true)));
    let output = boot.step(BootEvent::AccountRead(Ok(None)));
    assert!(matches!(output.action, BootAction::RepairAccount));
    let output = boot.step(BootEvent::Repaired(Ok(account())));
    assert_eq!(
        messages(&output),
        ["PPQ account metadata was missing, so Fedigents created a replacement app-local account record without re-funding it."]
    );
    assert!(output.unlocked.is_some());
}

#[test]
fn faults_before_the_wallet_is_up() {
    let mut boot = Boot::new();
    let output = boot.step(BootEvent::Registered(fault("a")));
    assert_eq!(messages(&output), ["Service worker registration failed: a"]);
    assert!(matches!(output.action, BootAction::LoadSkills));
    let output = boot.step(BootEvent::SkillsLoaded(fault("b")));
    assert_eq!(messages(&output), ["Skill catalog failed to load: b"]);
    assert!(matches!(output.action, BootAction::Connect));
    let output = boot.step(BootEvent::Connected(Ok(Some("notice".to_owned()))));
    assert_eq!(messages(&output), ["notice"]);
    assert!(matches!(output.action, BootAction::Bootstrap));
    let output = boot.step(BootEvent::Bootstrapped(fault("c")));
    assert_eq!(messages(&output), ["Bootstrap failed: c"]);
    assert_eq!(output.status, Some("Wallet bootstrap failed"));
    assert!(matches!(output.action, BootAction::Stop));
    let mut boot = Boot::new();
    boot.step(BootEvent::Registered(Ok(())));
    boot.step(BootEvent::SkillsLoaded(Ok(())));
    let output = boot.step(BootEvent::Connected(fault("d")));
    assert_eq!(messages(&output), ["Wallet setup failed: d"]);
    assert_eq!(output.status, Some("Wallet failed to boot"));
}

fn funding_fault(events: Vec<BootEvent>) -> (Option<&'static str>, String) {
    let mut boot = up_to_ready();
    let mut last = boot.step(BootEvent::ReadyRead(Ok(false)));
    for event in events {
        last = boot.step(event);
    }
    assert!(matches!(last.action, BootAction::Stop));
    assert!(last.unlocked.is_none());
    (last.status, last.messages[0].body.clone())
}

#[test]
fn faults_while_funding() {
    let flown = || BootEvent::InFlightRead(Ok(false));
    let ensured = || BootEvent::AccountEnsured(Ok(account()));
    let topup = || BootEvent::TopupCreated(Ok(PpqTopup { invoice: "i".to_owned() }));
    let recorded = || BootEvent::AttemptRecorded(Ok(()));
    let expected = (Some("PPQ funding failed"), "PPQ funding failed: x".to_owned());
    assert_eq!(funding_fault(vec![flown(), BootEvent::AccountEnsured(fault("x"))]), expected);
    assert_eq!(
        funding_fault(vec![flown(), ensured(), BootEvent::TopupCreated(fault("x"))]),
        expected
    );
    assert_eq!(
        funding_fault(vec![flown(), ensured(), topup(), BootEvent::AttemptRecorded(fault("x"))]),
        expected
    );
    assert_eq!(
        funding_fault(vec![flown(), ensured(), topup(), recorded(), BootEvent::Paid(fault("x"))]),
        expected
    );
    assert_eq!(
        funding_fault(vec![
            flown(),
            ensured(),
            topup(),
            recorded(),
            BootEvent::Paid(Ok(())),
            BootEvent::MarkedReady(fault("x")),
        ]),
        (
            Some("PPQ setup needs recovery"),
            "PPQ funding completed but the final ready marker could not be saved: x. Chat stays locked to avoid double-funding on restart.".to_owned(),
        )
    );
}

#[test]
fn faults_while_reading_the_account() {
    let mut boot = up_to_ready();
    let output = boot.step(BootEvent::ReadyRead(fault("x")));
    assert_eq!(output.status, Some("PPQ state unavailable"));
    assert_eq!(messages(&output), ["Could not read PPQ state: x"]);
    let mut boot = up_to_ready();
    boot.step(BootEvent::ReadyRead(Ok(true)));
    let output = boot.step(BootEvent::AccountRead(fault("x")));
    assert_eq!(output.status, Some("PPQ account unavailable"));
    assert_eq!(messages(&output), ["PPQ account recovery failed: x"]);
    let mut boot = up_to_ready();
    boot.step(BootEvent::ReadyRead(Ok(true)));
    boot.step(BootEvent::AccountRead(Ok(None)));
    let output = boot.step(BootEvent::Repaired(fault("x")));
    assert_eq!(output.status, Some("PPQ account unavailable"));
    assert_eq!(messages(&output), ["PPQ account repair failed: x"]);
}

#[test]
fn events_of_the_wallet_are_shown() {
    let shown = show_bootstrap_event(BootstrapEvent::Note("n".to_owned()));
    assert_eq!(shown.status.unwrap(), "n");
    assert_eq!(shown.message.unwrap().body, "n");
    let shown = show_bootstrap_event(BootstrapEvent::ReceiveCode("L".to_owned()));
    assert_eq!(shown.receive_code.unwrap(), "L");
    assert_eq!(
        shown.message.unwrap().body,
        "Your wallet receive LNURL is ready. Use it to fund the wallet."
    );
    let shown = show_bootstrap_event(BootstrapEvent::Balance(12));
    assert_eq!(shown.balance.unwrap(), "12 sats");
    assert!(shown.message.is_none());
    let (text, paid) = show_operation_event(OperationEvent::PaymentReceived {
        amount_sats: Some(9),
        invoice: Some("i".to_owned()),
    });
    assert_eq!(text, "Incoming payment of 9 sats received.");
    assert_eq!(paid, Some("i".to_owned()));
    let (text, paid) = show_operation_event(OperationEvent::PaymentReceived {
        amount_sats: None,
        invoice: None,
    });
    assert_eq!(text, "Incoming payment received.");
    assert_eq!(paid, None);
}

#[test]
fn prompts_are_trimmed_and_asked() {
    let plan = submit_prompt("  hi\n", true, true);
    assert!(plan.clear_prompt);
    assert_eq!(plan.ask, Some("hi".to_owned()));
    assert_eq!(plan.messages.len(), 1);
    assert_eq!(plan.messages[0].body, "hi");
    let plan = submit_prompt(" \u{2003}\t", true, true);
    assert!(!plan.clear_prompt && plan.messages.is_empty() && plan.ask.is_none());
    let plan = submit_prompt("hi", false, true);
    assert!(!plan.clear_prompt && plan.ask.is_none());
    assert_eq!(
        plan.messages[0].body,
        "Chat unlocks after the first deposit and PPQ funding step."
    );
    let plan = submit_prompt("hi", true, false);
    assert!(plan.clear_prompt && plan.ask.is_none());
    assert_eq!(plan.messages[1].body, "The wallet agent is not ready yet.");
    assert_eq!(agent_failed("x").body, "Agent error: x");
    assert_eq!(session_name(1700), "fedigents.session.1700");
}

fn proposal(amount_sats: Option<u64>) -> PendingPaymentProposal {
    PendingPaymentProposal {
        payment: "target".to_owned(),
        amount_sats,
        summary: "coffee".to_owned(),
    }
}

#[test]
fn what_was_proposed_is_paid_once() {
    let mut card = PaymentCard::new();
    assert!(!card.is_shown());
    assert!(matches!(card.confirm(true), ConfirmStep::Ignore));
    card.propose(Some(proposal(Some(5))));
    assert!(card.is_shown());
    assert!(matches!(
        card.confirm(false),
        ConfirmStep::Refuse(message)
            if message.body == "Wallet runtime is unavailable, so the payment could not be sent."
    ));
    assert!(matches!(
        card.confirm(true),
        ConfirmStep::Pay { payment, amount_sats: Some(5) } if payment == "target"
    ));
    assert!(matches!(card.confirm(true), ConfirmStep::Ignore));
    let notice = card.sent(Ok("preimage".to_owned()), "coffee").unwrap();
    assert_eq!(notice.line.body, "pay_lightning => preimage");
    assert!(matches!(notice.line.role, ChatRole::Tool));
    assert_eq!(notice.tell_agent, "Outgoing payment succeeded: coffee");
    assert_eq!(card.result, Some(Ok("Payment sent successfully.".to_owned())));
    card.dismiss();
    assert!(!card.is_shown());
    assert!(matches!(card.confirm(true), ConfirmStep::Ignore));
}

#[test]
fn a_failed_payment_can_be_tried_again() {
    let mut card = PaymentCard::new();
    card.propose(Some(proposal(None)));
    assert!(matches!(card.confirm(true), ConfirmStep::Pay { amount_sats: None, .. }));
    assert!(card.sent(fault("no route"), "coffee").is_none());
    assert_eq!(card.result, Some(Err("Payment failed: no route".to_owned())));
    assert!(matches!(card.confirm(true), ConfirmStep::Pay { .. }));
    assert_eq!(card.result, None);
    card.propose(None);
    assert!(card.pending.is_none());
}

#[test]
fn payments_are_labelled() {
    let kind = PaymentKind::of(&proposal(Some(5)));
    assert_eq!(kind.amount_label(), "5 sats");
    assert_eq!(kind.request_label(), "target");
    assert_eq!(kind.pay_arguments(), ("target".to_owned(), Some(5)));
    let kind = PaymentKind::of(&proposal(None));
    assert_eq!(kind.amount_label(), "Amount encoded in invoice");
    assert_eq!(kind.pay_arguments(), ("target".to_owned(), None));
    let kind = PaymentKind::Bolt11 { invoice: "x".repeat(100), amount_sats: Some(3) };
    assert_eq!(kind.amount_label(), "3 sats");
    assert_eq!(kind.request_label().len(), 98);
    assert_eq!(kind.pay_arguments().1, None);
}

#[test]
fn the_service_is_topped_up() {
    let own = Some(account());
    assert!(matches!(top_up_ppq(true, &own, true), TopupStep::Ignore));
    assert!(matches!(
        top_up_ppq(false, &None, true),
        TopupStep::Refuse(message) if message.body == "PPQ account metadata is unavailable."
    ));
    assert!(matches!(
        top_up_ppq(false, &own, false),
        TopupStep::Refuse(message) if message.body == "Wallet runtime is unavailable."
    ));
    assert!(matches!(top_up_ppq(false, &own, true), TopupStep::Start(a) if a.api_key == "k"));
    assert_eq!(
        top_up_ended(Ok(())).body,
        "PPQ top-up payment sent automatically. Credit balance should refresh shortly."
    );
    assert_eq!(top_up_ended(fault("x")).body, "PPQ top-up failed: x");
    assert_eq!(balance_checked(true, true, true), BalanceStep::Clear);
    assert_eq!(balance_checked(false, false, false), BalanceStep::Warn);
    assert_eq!(balance_checked(false, true, false), BalanceStep::Leave);
    assert_eq!(balance_checked(false, false, true), BalanceStep::Leave);
}

#[test]
fn recordings_are_kept_or_thrown_away() {
    let mut recording = Recording { active: false, start_x: 0, drag_x: 0 };
    recording.drag(5);
    assert_eq!(recording.release(), RecordingEnd::Ignore);
    assert!(!recording.cancel());
    recording.press(100);
    recording.drag(90);
    assert_eq!(recording.drag_x, -10);
    recording.drag(200);
    assert_eq!(recording.drag_x, 0);
    recording.drag(70);
    assert!(!recording.over_trash());
    recording.drag(69);
    assert!(recording.over_trash());
    recording.drag(i32::MIN);
    assert_eq!(recording.drag_x, -40);
    assert_eq!(recording.release(), RecordingEnd::Discard);
    assert_eq!(recording.drag_x, 0);
    recording.press(1);
    assert_eq!(recording.release(), RecordingEnd::Transcribe);
    recording.press(1);
    assert!(recording.cancel());
    assert!(!recording.active);
}

#[test]
fn transcripts_are_texts() {
    assert_eq!(transcript(false, None).unwrap_err(), "No audio recorded");
    assert_eq!(
        transcript(true, None).unwrap_err(),
        "Transcription returned non-string"
    );
    assert_eq!(transcript(true, Some("hi".to_owned())).unwrap(), "hi");
    assert!(is_spoken(" hi "));
    assert!(!is_spoken(" \n"));
}

fn model(id: &str, popular: bool, rank: i64) -> PpqModel {
    PpqModel {
        id: id.to_owned(),
        name: id.to_uppercase(),
        popular,
        expensive: rank > 10,
        rank,
        price: None,
    }
}

fn ids(models: &[PpqModel]) -> Vec<&str> {
    models.iter().map(|model| model.id.as_str()).collect()
}

#[test]
fn models_are_listed_by_rank() {
    let models = vec![
        model("a", true, 5),
        model("b", false, 2),
        model("c", true, 1),
        model("d", false, 2),
        model("e", false, -3),
    ];
    let menu = model_menu(&models, "a", 0);
    assert_eq!(ids(&menu.popular), ["c", "a"]);
    assert_eq!(ids(&menu.others), ["e", "b", "d"]);
    let menu = model_menu(&models, "own", 2);
    assert_eq!(ids(&menu.others), ["e", "own", "b", "d"]);
    assert_eq!(menu.others[1].name, "own");
    assert!(sort_by_rank(vec![]).is_empty());
}

#[test]
fn expensive_models_are_known() {
    let models = vec![model("cheap", true, 1), model("dear", true, 11)];
    assert!(is_expensive(&models, "dear"));
    assert!(!is_expensive(&models, "cheap"));
    assert!(!is_expensive(&models, "unknown"));
}

#[test]
fn models_show_their_price() {
    let mut shown = model("m", true, 1);
    assert_eq!(format_model_label(&shown), "M");
    shown.price = Some("0.40".to_owned());
    assert_eq!(format_model_label(&shown), "M ($0.40/M out)");
}

#[test]
fn effort_and_slider_agree() {
    for (position, effort, label) in
        [("1", "low", "Low"), ("2", "medium", "Medium"), ("3", "high", "High"), ("0", "", "Off")]
    {
        assert_eq!(effort_from_slider(position), effort);
        assert_eq!(effort_slider(effort), position);
        assert_eq!(effort_label(effort), label);
    }
    assert_eq!(effort_slider("other"), "0");
    assert_eq!(effort_from_slider("7"), "");
    assert_eq!(chosen_effort(String::new()), None);
    assert_eq!(chosen_effort("low".to_owned()), Some("low".to_owned()));
}

#[test]
fn only_the_dialogue_is_shown_without_debugging() {
    let tool = ChatMessage { role: ChatRole::Tool, body: "t".to_owned() };
    let all = vec![
        onboarding_message("s".to_owned()),
        user_message("u".to_owned()),
        tool,
        assistant_message("a".to_owned()),
    ];
    let shown = visible_messages(&all, false);
    assert_eq!(shown.len(), 2);
    assert_eq!(shown[0].body, "u");
    assert_eq!(shown[1].body, "a");
    assert_eq!(visible_messages(&all, true).len(), 4);
}

#[test]
fn roles_are_shown() {
    assert_eq!(role_class(ChatRole::Assistant), "message assistant");
    assert_eq!(role_class(ChatRole::User), "message user");
    assert_eq!(role_label(ChatRole::Assistant), "agent");
    assert_eq!(role_label(ChatRole::User), "you");
    assert_eq!(role_label(ChatRole::System), "system");
    assert_eq!(role_label(ChatRole::Tool), "tool");
}

#[test]
fn invoice_tags_are_taken_out() {
    let split = |text: &str| extract_invoice_tags(text);
    assert_eq!(
        split("pay <invoice> lnbc1 </invoice> now<invoice>lnbc2</invoice>"),
        ("pay  now".to_owned(), vec!["lnbc1".to_owned(), "lnbc2".to_owned()])
    );
    assert_eq!(split("plain"), ("plain".to_owned(), vec![]));
    assert_eq!(split("a<invoice> </invoice>b"), ("ab".to_owned(), vec![]));
    assert_eq!(split("a<invoice>b"), ("a<invoice>b".to_owned(), vec![]));
    assert_eq!(
        split("<invoice>x</invoice>a<invoice>b"),
        ("a<invoice>b".to_owned(), vec!["x".to_owned()])
    );
    assert_eq!(
        split("<invoice><invoice>x</invoice></invoice>"),
        ("</invoice>".to_owned(), vec!["<invoice>x".to_owned()])
    );
    assert_eq!(split(""), (String::new(), vec![]));
}

#[test]
fn tags_are_taken_in_order() {
    let rest = "tail <invoice>two</invoice>";
    let (clean, invoices) = extract_invoice_tags(rest);
    for (held, expected) in [("\u{a0} one\t", vec!["one"]), (" \u{3000}\n", vec![])] {
        let text = format!("front <invoice>{held}</invoice>{rest}");
        let (shown, found) = extract_invoice_tags(&text);
        assert_eq!(shown, format!("front {clean}"));
        let mut all: Vec<String> = expected.iter().map(|text| text.to_string()).collect();
        all.extend(invoices.clone());
        assert_eq!(found, all);
    }
}

#[test]
fn all_white_space_is_trimmed_and_nothing_else() {
    let blanks = [
        '\u{9}', '\u{a}', '\u{b}', '\u{c}', '\u{d}', ' ', '\u{85}', '\u{a0}', '\u{1680}',
        '\u{2000}', '\u{2005}', '\u{200a}', '\u{2028}', '\u{2029}', '\u{202f}', '\u{205f}',
        '\u{3000}',
    ];
    for blank in blanks {
        assert!(!is_spoken(&blank.to_string()));
    }
    for other in ['\u{8}', '\u{e}', '\u{180e}', '\u{200b}', '\u{feff}', 'x'] {
        assert!(is_spoken(&other.to_string()));
    }
}

#[test]
fn long_texts_are_shortened_in_the_middle() {
    assert_eq!(truncate_middle("abcdef", 6), "abcdef");
    assert_eq!(truncate_middle("abcdefg", 6), "abc...fg");
    assert_eq!(truncate_middle("abcdefg", 5), "ab...fg");
    assert_eq!(truncate_middle("abc", 1), "...");
    assert_eq!(truncate_middle("abc", 0), "...");
    assert_eq!(truncate_middle("\u{e9}\u{e9}\u{e9}\u{e9}", 3), "\u{e9}...\u{e9}");
    assert_eq!(format_balance(0), "0 sats");
    assert_eq!(format_balance(1234567), "1234567 sats");
}

#[test]
fn markdown_becomes_html() {
    assert_eq!(markdown_to_html("**b** ~~s~~"), "<p><strong>b</strong> <del>s</del></p>\n");
    assert!(markdown_to_html("|a|\n|-|\n|b|").starts_with("<table>"));
}

#[test]
fn texts_become_qr_codes() {
    let svg = generate_qr_svg("lnbc1").unwrap();
    assert!(svg.contains("#0b1013") && svg.contains("#ffffff"));
    assert_ne!(svg, generate_qr_svg("lnbc2").unwrap());
    assert!(generate_qr_svg(&"x".repeat(4000)).is_none());
}

#[test]
fn messages_are_rendered() {
    let message = assistant_message("*hi* <invoice>lnbc1</invoice>".to_owned());
    let shown = render_message(&message);
    assert_eq!(shown.class, "message assistant");
    assert_eq!(shown.label, "agent");
    assert_eq!(shown.html, "<p><em>hi</em></p>\n");
    assert_eq!(shown.invoices.len(), 1);
    assert_eq!(shown.invoices[0].invoice, "lnbc1");
    let widget = render_invoice_widget("i".repeat(40));
    assert_eq!(widget.abbreviated, format!("{}...{}", "i".repeat(16), "i".repeat(15)));
    assert!(widget.qr_svg.is_some());
}
