use fedigents::agent::{
    asset_url, assistant_message, finish_response, onboarding_message, tool_definition,
    user_message, ChatMessage, ChatRole, Turn, WalletAgent, PREAMBLE,
};
use fedigents::json::Json;
use fedigents::kv::KvRequest;
use fedigents::skills::{SkillSummary, SkillsRequest};
use fedigents::tools::{
    balance_result, default_description, default_http_method, default_kv_action, default_limit,
    default_payment_summary, default_skills_action, finish_call, receive_code_result,
    wallet_tools, ToolCall, ToolLog, ToolStep, WalletTool,
};
use fedigents::wallet_runtime::Command;

fn bodies(log: &ToolLog) -> Vec<&str> {
    log.outputs.iter().map(|line| line.body.as_str()).collect()
}

#[test]
fn the_tools_have_their_names() {
    let names: Vec<&str> = wallet_tools().iter().map(|tool| tool.name()).collect();
    assert_eq!(
        names,
        [
            "get_balance",
            "create_invoice",
            "propose_payment",
            "list_operations",
            "show_receive_code",
            "load_skill",
            "calculate",
            "convert_sats",
            "http_request",
            "kv_store",
            "skills",
        ]
    );
}

#[test]
fn arguments_have_their_defaults() {
    assert_eq!(default_description(), "Fedigents request");
    assert_eq!(default_payment_summary(), "Lightning payment awaiting confirmation");
    assert_eq!(default_limit(), 10);
    assert_eq!(default_http_method(), "GET");
    assert_eq!(default_kv_action(), "set");
    assert_eq!(default_skills_action(), "list");
}

#[test]
fn wallet_tools_ask_the_wallet() {
    let mut log = ToolLog::new();
    assert!(matches!(
        WalletTool::call(ToolCall::GetBalance, &mut log),
        Ok(ToolStep::AskWallet(Command::GetBalance))
    ));
    let call = ToolCall::CreateInvoice { amount_sats: 21, description: "d".to_owned() };
    assert!(matches!(
        WalletTool::call(call, &mut log),
        Ok(ToolStep::AskWallet(Command::CreateInvoice { amount_sats: 21, description }))
            if description == "d"
    ));
    assert!(matches!(
        WalletTool::call(ToolCall::ListOperations { limit: 3 }, &mut log),
        Ok(ToolStep::AskWallet(Command::ListOperations { limit: 3 }))
    ));
    assert!(matches!(
        WalletTool::call(ToolCall::ShowReceiveCode, &mut log),
        Ok(ToolStep::AskWallet(Command::CachedReceiveCode))
    ));
    assert_eq!(
        bodies(&log),
        [
            "[tool call] get_balance",
            "[tool call] create_invoice(21)",
            "[tool call] list_operations(3)",
            "[tool call] show_receive_code",
        ]
    );
    assert!(log.pending_payment.is_none());
}

#[test]
fn a_proposed_payment_only_waits() {
    let mut log = ToolLog::new();
    let call = ToolCall::ProposePayment {
        payment: "lnbc1".to_owned(),
        amount_sats: Some(5),
        summary: "coffee".to_owned(),
    };
    let result = r#"{"amount_sats":5,"payment":"lnbc1","status":"pending_confirmation","summary":"coffee"}"#;
    assert!(matches!(WalletTool::call(call, &mut log), Ok(ToolStep::Done(text)) if text == result));
    assert_eq!(
        bodies(&log),
        [
            "[tool call] propose_payment(coffee)".to_owned(),
            format!("propose_payment => {result}"),
        ]
    );
    let proposal = log.pending_payment.as_ref().unwrap();
    assert_eq!(proposal.payment, "lnbc1");
    assert_eq!(proposal.amount_sats, Some(5));
    assert_eq!(proposal.summary, "coffee");
    let call = ToolCall::ProposePayment {
        payment: "lnbc2".to_owned(),
        amount_sats: None,
        summary: "tea".to_owned(),
    };
    assert!(matches!(
        WalletTool::call(call, &mut log),
        Ok(ToolStep::Done(text))
            if text == r#"{"amount_sats":null,"payment":"lnbc2","status":"pending_confirmation","summary":"tea"}"#
    ));
    assert_eq!(log.pending_payment.unwrap().payment, "lnbc2");
}

#[test]
fn expressions_are_read_or_refused() {
    let mut log = ToolLog::new();
    let call = ToolCall::Calculate { expression: "1+2".to_owned() };
    assert!(matches!(WalletTool::call(call, &mut log), Ok(ToolStep::Compute(_))));
    let call = ToolCall::Calculate { expression: "1+".to_owned() };
    assert_eq!(
        WalletTool::call(call, &mut log).unwrap_err(),
        "Unexpected end of expression"
    );
    assert_eq!(bodies(&log), ["[tool call] calculate(1+2)", "[tool call] calculate(1+)"]);
}

#[test]
fn currencies_and_methods_are_put_in_upper_case() {
    let mut log = ToolLog::new();
    let call = ToolCall::ConvertSats { amount_sats: 7, currency: "eur".to_owned() };
    assert!(matches!(
        WalletTool::call(call, &mut log),
        Ok(ToolStep::FetchPrices { amount_sats: 7, currency }) if currency == "EUR"
    ));
    let call = ToolCall::HttpRequest {
        url: "https://a.example".to_owned(),
        method: "post".to_owned(),
        headers: vec![],
        body: None,
    };
    assert!(matches!(
        WalletTool::call(call, &mut log),
        Ok(ToolStep::Send(plan)) if plan.method == "POST"
    ));
    let call = ToolCall::HttpRequest {
        url: "u".to_owned(),
        method: "no way".to_owned(),
        headers: vec![],
        body: None,
    };
    assert_eq!(
        WalletTool::call(call, &mut log).unwrap_err(),
        "Invalid HTTP method: NO WAY"
    );
    assert_eq!(
        bodies(&log),
        [
            "[tool call] convert_sats(7, EUR)",
            "[tool call] http_request(POST, https://a.example)",
            "[tool call] http_request(NO WAY, u)",
        ]
    );
}

#[test]
fn actions_are_put_in_lower_case() {
    let mut log = ToolLog::new();
    let call = ToolCall::KvStore {
        action: "LIST".to_owned(),
        key: None,
        value: None,
        prefix: Some("a\"b".to_owned()),
    };
    assert!(matches!(
        WalletTool::call(call, &mut log),
        Ok(ToolStep::UseStorage { request: KvRequest::List, prefix: Some(_) })
    ));
    let call = ToolCall::Skills {
        action: "Delete".to_owned(),
        slug: Some("x".to_owned()),
        title: None,
        summary: None,
        prompt: None,
    };
    assert!(matches!(
        WalletTool::call(call, &mut log),
        Ok(ToolStep::ManageSkills(SkillsRequest::Delete(slug))) if slug == "x"
    ));
    let call = ToolCall::KvStore {
        action: "Get".to_owned(),
        key: None,
        value: None,
        prefix: None,
    };
    assert_eq!(
        WalletTool::call(call, &mut log).unwrap_err(),
        "kv_store get requires a key"
    );
    assert_eq!(
        bodies(&log),
        [
            r#"[tool call] kv_store(list, key=None, prefix=Some("a\"b"))"#,
            r#"[tool call] skills(delete, Some("x"))"#,
            "[tool call] kv_store(get, key=None, prefix=None)",
        ]
    );
}

#[test]
fn skills_are_looked_up_by_slug() {
    let mut log = ToolLog::new();
    let call = ToolCall::LoadSkill { slug: "s".to_owned() };
    assert!(matches!(
        WalletTool::call(call, &mut log),
        Ok(ToolStep::LoadSkill { slug }) if slug == "s"
    ));
    assert_eq!(bodies(&log), ["[tool call] load_skill(s)"]);
}

#[test]
fn results_are_written_down() {
    let mut log = ToolLog::new();
    let result = finish_call(WalletTool::GetBalance, balance_result(0), &mut log);
    assert_eq!(result, "0 sats");
    assert_eq!(balance_result(u64::MAX), "18446744073709551615 sats");
    assert_eq!(bodies(&log), ["get_balance => 0 sats"]);
    assert!(matches!(log.outputs[0].role, ChatRole::Tool));
    assert_eq!(receive_code_result(Some("LNURL1".to_owned())), "LNURL1");
    assert_eq!(receive_code_result(None), "No receive code available yet");
}

#[test]
fn definitions_come_from_the_schema() {
    let schema = Json::from_text(
        r#"{"$schema":"s","title":"t","description":"Get it.","type":"object"}"#,
    );
    let definition = tool_definition("get", schema);
    assert_eq!(definition.name, "get");
    assert_eq!(definition.description, "Get it.");
    assert_eq!(definition.parameters.to_text(), r#"{"type":"object"}"#);
    let definition = tool_definition("get", None);
    assert_eq!(definition.description, "");
    assert_eq!(definition.parameters.to_text(), "{}");
    let definition = tool_definition("get", Some(Json::Bool(true)));
    assert_eq!(definition.parameters.to_text(), "true");
}

fn summary(slug: &str) -> SkillSummary {
    SkillSummary {
        slug: slug.to_owned(),
        title: String::new(),
        summary: String::new(),
        path: None,
    }
}

#[test]
fn the_model_is_shown_the_dialogue() {
    let agent = WalletAgent::new("key".to_owned(), vec![summary("a")]);
    let tool = ChatMessage { role: ChatRole::Tool, body: "t".to_owned() };
    let history = vec![
        onboarding_message("s".to_owned()),
        user_message("u".to_owned()),
        tool,
        assistant_message("a".to_owned()),
    ];
    let plan = agent.respond(Some("[1]".to_owned()), &history, "now", "some/model");
    assert_eq!(plan.api_key, "key");
    assert_eq!(plan.base_url, "https://api.ppq.ai");
    assert_eq!(plan.model, "some/model");
    assert_eq!(plan.preamble, format!("{PREAMBLE}\n\nSkills available: [1]"));
    assert_eq!(plan.max_turns, 10);
    assert_eq!(plan.tools.len(), 11);
    assert_eq!(plan.prompt, "now");
    assert_eq!(plan.history.len(), 2);
    assert!(matches!(&plan.history[0], Turn::User(body) if body == "u"));
    assert!(matches!(&plan.history[1], Turn::Assistant(body) if body == "a"));
    let plan = agent.respond(None, &vec![], "p", "m");
    assert_eq!(plan.preamble, format!("{PREAMBLE}\n\nSkills available: []"));
}

#[test]
fn the_agent_falls_back_on_the_skills_it_knows() {
    let agent = WalletAgent::new("key".to_owned(), vec![summary("known")]);
    let skills = agent.current_skills(Err("offline".to_owned()));
    assert_eq!(skills[0].slug, "known");
    let skills = agent.current_skills(Ok(vec![summary("x"), summary("y")]));
    assert_eq!(skills.len(), 2);
}

#[test]
fn a_response_ends_with_the_answer() {
    let mut log = ToolLog::new();
    log.push(ChatRole::Tool, "line".to_owned());
    let response = finish_response(log, "done".to_owned());
    assert_eq!(response.messages.len(), 2);
    assert_eq!(response.messages[0].body, "line");
    assert_eq!(response.messages[1].body, "done");
    assert!(matches!(response.messages[1].role, ChatRole::Assistant));
    assert!(response.pending_payment.is_none());
}

#[test]
fn files_lie_beside_the_page() {
    let url = |path: &str, pathname: &str| {
        asset_url(path, Ok(("https://w.example".to_owned(), pathname.to_owned()))).unwrap()
    };
    assert_eq!(url("skills/index.json", "/"), "https://w.example/skills/index.json");
    assert_eq!(url("/skills/a.md", "/app/"), "https://w.example/app/skills/a.md");
    assert_eq!(url("//a.md", "/app/index.html"), "https://w.example/app/a.md");
    assert_eq!(url("a.md", "index.html"), "https://w.example/a.md");
    assert_eq!(url("a.md", ""), "https://w.example/a.md");
    assert_eq!(url("a.md", "x/y"), "https://w.example/x/a.md");
}

#[test]
fn addresses_of_their_own_are_kept() {
    let nowhere = || Err("window is unavailable".to_owned());
    assert_eq!(
        asset_url("https://b.example/x", nowhere()),
        Ok("https://b.example/x".to_owned())
    );
    assert_eq!(asset_url("http://b", nowhere()), Ok("http://b".to_owned()));
    assert_eq!(
        asset_url("ftp://b", nowhere()),
        Err("window is unavailable".to_owned())
    );
}
