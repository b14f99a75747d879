//! The agent's tools: what a call of each leads to, and what is written down of it.
use vstd::prelude::*;

use crate::agent::{
    message_views, proposal_view, ChatMessage, ChatRole, MessageView, PendingPaymentProposal,
    ProposalView,
};
use crate::calc::{evaluate, fault_text, message, reads_as, tree_of, Expr, Fault};
use crate::fedimint::AppState;
use crate::http::{http_request, request_planned, HttpPlan};
use crate::json::{count_json, json_text, optional_json, Fields, Json, JsonView};
use crate::kv::{kv_asked, kv_store, KvRequest};
use crate::skills::{manage_skills, skills_asked, SkillsRequest};
use crate::text;
use crate::text::{decimal_text, lower_cased, option_shown, optional_view, upper_cased};
use crate::wallet_runtime::{request_leads_to, Command, RequestStep};

verus! {

/// The tools that the model may use.
#[derive(Clone, Copy, Debug, PartialEq, Eq, Structural)]
pub enum WalletTool {
    GetBalance,
    CreateInvoice,
    ProposePayment,
    ListOperations,
    ShowReceiveCode,
    LoadSkill,
    Calculate,
    ConvertSats,
    HttpRequest,
    KvStore,
    Skills,
}

/// The name by which the model calls a tool.
pub open spec fn tool_name(tool: WalletTool) -> Seq<char> {
    match tool {
        WalletTool::GetBalance => "get_balance"@,
        WalletTool::CreateInvoice => "create_invoice"@,
        WalletTool::ProposePayment => "propose_payment"@,
        WalletTool::ListOperations => "list_operations"@,
        WalletTool::ShowReceiveCode => "show_receive_code"@,
        WalletTool::LoadSkill => "load_skill"@,
        WalletTool::Calculate => "calculate"@,
        WalletTool::ConvertSats => "convert_sats"@,
        WalletTool::HttpRequest => "http_request"@,
        WalletTool::KvStore => "kv_store"@,
        WalletTool::Skills => "skills"@,
    }
}

/// The tools in the order in which the model is told of them.
pub open spec fn all_tools() -> Seq<WalletTool> {
    seq![
        WalletTool::GetBalance,
        WalletTool::CreateInvoice,
        WalletTool::ProposePayment,
        WalletTool::ListOperations,
        WalletTool::ShowReceiveCode,
        WalletTool::LoadSkill,
        WalletTool::Calculate,
        WalletTool::ConvertSats,
        WalletTool::HttpRequest,
        WalletTool::KvStore,
        WalletTool::Skills,
    ]
}

impl WalletTool {
    /// The name by which the model calls the tool.
    pub fn name(&self) -> (name: &'static str)
        ensures
            name@ == tool_name(*self),
    {
        match self {
            WalletTool::GetBalance => "get_balance",
            WalletTool::CreateInvoice => "create_invoice",
            WalletTool::ProposePayment => "propose_payment",
            WalletTool::ListOperations => "list_operations",
            WalletTool::ShowReceiveCode => "show_receive_code",
            WalletTool::LoadSkill => "load_skill",
            WalletTool::Calculate => "calculate",
            WalletTool::ConvertSats => "convert_sats",
            WalletTool::HttpRequest => "http_request",
            WalletTool::KvStore => "kv_store",
            WalletTool::Skills => "skills",
        }
    }
}

/// The tools in the order in which the model is told of them.
pub fn wallet_tools() -> (tools: Vec<WalletTool>)
    ensures
        tools@ == all_tools(),
{
    let mut tools: Vec<WalletTool> = Vec::new();
    tools.push(WalletTool::GetBalance);
    tools.push(WalletTool::CreateInvoice);
    tools.push(WalletTool::ProposePayment);
    tools.push(WalletTool::ListOperations);
    tools.push(WalletTool::ShowReceiveCode);
    tools.push(WalletTool::LoadSkill);
    tools.push(WalletTool::Calculate);
    tools.push(WalletTool::ConvertSats);
    tools.push(WalletTool::HttpRequest);
    tools.push(WalletTool::KvStore);
    tools.push(WalletTool::Skills);
    assert(tools@ =~= all_tools());
    tools
}

// ── Defaults of arguments ───────────────────────────────────────────────

/// The description of an invoice that is given none.
pub fn default_description() -> (text: String)
    ensures
        text@ == "Fedigents request"@,
{
    "Fedigents request".to_owned()
}

/// The summary of a payment that is given none.
pub fn default_payment_summary() -> (text: String)
    ensures
        text@ == "Lightning payment awaiting confirmation"@,
{
    "Lightning payment awaiting confirmation".to_owned()
}

/// How many operations are listed where no number is given.
pub fn default_limit() -> (limit: u64)
    ensures
        limit == 10,
{
    10
}

/// The method of a request that is given none.
pub fn default_http_method() -> (text: String)
    ensures
        text@ == "GET"@,
{
    "GET".to_owned()
}

/// What the storage tool does where it is not told.
pub fn default_kv_action() -> (text: String)
    ensures
        text@ == "set"@,
{
    "set".to_owned()
}

/// What the skills tool does where it is not told.
pub fn default_skills_action() -> (text: String)
    ensures
        text@ == "list"@,
{
    "list".to_owned()
}

// ── The log ─────────────────────────────────────────────────────────────

/// What the tools wrote down while a prompt was answered.
#[derive(Debug)]
pub struct ToolLog {
    pub outputs: Vec<ChatMessage>,
    pub pending_payment: Option<PendingPaymentProposal>,
}

/// What a `ToolLog` says.
pub struct LogView {
    pub lines: Seq<MessageView>,
    pub pending: Option<ProposalView>,
}

impl View for ToolLog {
    type V = LogView;

    open spec fn view(&self) -> LogView {
        LogView {
            lines: message_views(self.outputs@),
            pending: proposal_view(self.pending_payment),
        }
    }
}

/// A log with one more line of a tool.
pub open spec fn with_line(log: LogView, body: Seq<char>) -> LogView {
    LogView { lines: log.lines.push(MessageView { role: ChatRole::Tool, body }), ..log }
}

impl ToolLog {
    /// A log in which nothing is written yet.
    pub fn new() -> (log: ToolLog)
        ensures
            log@.lines == Seq::<MessageView>::empty(),
            log@.pending is None,
    {
        let log = ToolLog { outputs: Vec::new(), pending_payment: None };
        assert(log@.lines =~= Seq::<MessageView>::empty());
        log
    }

    /// Writes a line down.
    pub fn push(&mut self, role: ChatRole, body: String)
        ensures
            final(self)@.lines == old(self)@.lines.push(MessageView { role, body: body@ }),
            final(self)@.pending == old(self)@.pending,
    {
        self.outputs.push(ChatMessage { role, body });
        assert(message_views(self.outputs@) =~= message_views(old(self).outputs@).push(
            MessageView { role, body: body@ },
        ));
    }
}

// ── Calling a tool ──────────────────────────────────────────────────────

/// A call of a tool with its arguments.
#[derive(Debug)]
pub enum ToolCall {
    GetBalance,
    CreateInvoice { amount_sats: u64, description: String },
    ProposePayment { payment: String, amount_sats: Option<u64>, summary: String },
    ListOperations { limit: u64 },
    ShowReceiveCode,
    LoadSkill { slug: String },
    Calculate { expression: String },
    ConvertSats { amount_sats: u64, currency: String },
    HttpRequest {
        url: String,
        method: String,
        headers: Vec<(String, String)>,
        body: Option<Json>,
    },
    KvStore {
        action: String,
        key: Option<String>,
        value: Option<Json>,
        prefix: Option<String>,
    },
    Skills {
        action: String,
        slug: Option<String>,
        title: Option<String>,
        summary: Option<String>,
        prompt: Option<String>,
    },
}

/// What has to be done for a call before its result is known.
#[derive(Debug)]
pub enum ToolStep {
    /// The result is known.
    Done(String),
    /// The wallet has to be asked.
    AskWallet(Command),
    /// An expression has to be computed.
    Compute(Expr<String>),
    /// The exchange rates have to be fetched.
    FetchPrices { amount_sats: u64, currency: String },
    /// A request has to be made.
    Send(HttpPlan),
    /// Local storage has to be used.
    UseStorage { request: KvRequest, prefix: Option<String> },
    /// The saved skills have to be listed or changed.
    ManageSkills(SkillsRequest),
    /// A skill has to be looked up.
    LoadSkill { slug: String },
}

/// The tool that a call is of.
pub open spec fn tool_of(call: ToolCall) -> WalletTool {
    match call {
        ToolCall::GetBalance => WalletTool::GetBalance,
        ToolCall::CreateInvoice { .. } => WalletTool::CreateInvoice,
        ToolCall::ProposePayment { .. } => WalletTool::ProposePayment,
        ToolCall::ListOperations { .. } => WalletTool::ListOperations,
        ToolCall::ShowReceiveCode => WalletTool::ShowReceiveCode,
        ToolCall::LoadSkill { .. } => WalletTool::LoadSkill,
        ToolCall::Calculate { .. } => WalletTool::Calculate,
        ToolCall::ConvertSats { .. } => WalletTool::ConvertSats,
        ToolCall::HttpRequest { .. } => WalletTool::HttpRequest,
        ToolCall::KvStore { .. } => WalletTool::KvStore,
        ToolCall::Skills { .. } => WalletTool::Skills,
    }
}

/// The arguments of a call as the log shows them.
pub open spec fn shown_arguments(call: ToolCall) -> Seq<char> {
    match call {
        ToolCall::GetBalance => Seq::empty(),
        ToolCall::CreateInvoice { amount_sats, .. } => "("@ + decimal_text(amount_sats as nat) + ")"@,
        ToolCall::ProposePayment { summary, .. } => "("@ + summary@ + ")"@,
        ToolCall::ListOperations { limit } => "("@ + decimal_text(limit as nat) + ")"@,
        ToolCall::ShowReceiveCode => Seq::empty(),
        ToolCall::LoadSkill { slug } => "("@ + slug@ + ")"@,
        ToolCall::Calculate { expression } => "("@ + expression@ + ")"@,
        ToolCall::ConvertSats { amount_sats, currency } => "("@ + decimal_text(amount_sats as nat)
            + ", "@ + upper_cased(currency@) + ")"@,
        ToolCall::HttpRequest { url, method, .. } => "("@ + upper_cased(method@) + ", "@ + url@ + ")"@,
        ToolCall::KvStore { action, key, prefix, .. } => "("@ + lower_cased(action@) + ", key="@
            + option_shown(optional_view(key)) + ", prefix="@ + option_shown(
            optional_view(prefix),
        ) + ")"@,
        ToolCall::Skills { action, slug, .. } => "("@ + lower_cased(action@) + ", "@
            + option_shown(optional_view(slug)) + ")"@,
    }
}

/// The line that the log has for a call.
pub open spec fn call_line(call: ToolCall) -> Seq<char> {
    "[tool call] "@ + tool_name(tool_of(call)) + shown_arguments(call)
}

/// The line that the log has for a result.
pub open spec fn result_line(tool: WalletTool, result: Seq<char>) -> Seq<char> {
    tool_name(tool) + " => "@ + result
}

/// The result of a proposed payment.
pub open spec fn proposal_json(proposal: ProposalView) -> JsonView {
    JsonView::Object(
        map![
            "status"@ => JsonView::Text("pending_confirmation"@),
            "summary"@ => JsonView::Text(proposal.summary),
            "amount_sats"@ => match proposal.amount_sats {
                Some(amount) => count_json(amount),
                None => JsonView::Null,
            },
            "payment"@ => JsonView::Text(proposal.payment),
        ],
    )
}

impl ToolCall {
    /// The tool that the call is of.
    pub fn tool(&self) -> (tool: WalletTool)
        ensures
            tool == tool_of(*self),
    {
        match self {
            ToolCall::GetBalance => WalletTool::GetBalance,
            ToolCall::CreateInvoice { .. } => WalletTool::CreateInvoice,
            ToolCall::ProposePayment { .. } => WalletTool::ProposePayment,
            ToolCall::ListOperations { .. } => WalletTool::ListOperations,
            ToolCall::ShowReceiveCode => WalletTool::ShowReceiveCode,
            ToolCall::LoadSkill { .. } => WalletTool::LoadSkill,
            ToolCall::Calculate { .. } => WalletTool::Calculate,
            ToolCall::ConvertSats { .. } => WalletTool::ConvertSats,
            ToolCall::HttpRequest { .. } => WalletTool::HttpRequest,
            ToolCall::KvStore { .. } => WalletTool::KvStore,
            ToolCall::Skills { .. } => WalletTool::Skills,
        }
    }
}

/// What a proposed payment leaves waiting.
pub open spec fn proposed(call: ToolCall) -> Option<ProposalView> {
    match call {
        ToolCall::ProposePayment { payment, amount_sats, summary } => Some(
            ProposalView { payment: payment@, amount_sats, summary: summary@ },
        ),
        _ => None,
    }
}

/// The log after a call: its line, and for a proposed payment the payment that waits from then on
/// and the line of the result.
pub open spec fn log_after(log: LogView, call: ToolCall) -> LogView {
    match proposed(call) {
        Some(proposal) => with_line(
            LogView { pending: Some(proposal), ..with_line(log, call_line(call)) },
            result_line(WalletTool::ProposePayment, json_text(proposal_json(proposal))),
        ),
        None => with_line(log, call_line(call)),
    }
}

/// Whether `step` is what a call leads to, or the message that refuses it.
pub open spec fn leads_to(call: ToolCall, step: Result<ToolStep, String>) -> bool {
    match call {
        ToolCall::GetBalance => step == Ok::<_, String>(ToolStep::AskWallet(Command::GetBalance)),
        ToolCall::CreateInvoice { amount_sats, description } => {
            &&& step matches Ok(
                ToolStep::AskWallet(Command::CreateInvoice { amount_sats: sats, description: text }),
            )
            &&& sats == amount_sats
            &&& text@ == description@
        },
        ToolCall::ProposePayment { .. } => {
            &&& step matches Ok(ToolStep::Done(result))
            &&& result@ == json_text(proposal_json(proposed(call)->0))
        },
        ToolCall::ListOperations { limit } => step == Ok::<_, String>(
            ToolStep::AskWallet(Command::ListOperations { limit: limit as usize }),
        ),
        ToolCall::ShowReceiveCode => step == Ok::<_, String>(
            ToolStep::AskWallet(Command::CachedReceiveCode),
        ),
        ToolCall::LoadSkill { slug } => step == Ok::<_, String>(ToolStep::LoadSkill { slug }),
        ToolCall::Calculate { expression } => match step {
            Ok(step) => step matches ToolStep::Compute(tree) && reads_as(
                expression@,
                Ok(tree_of(tree)),
            ),
            Err(text) => exists|fault: Fault| #[trigger]
                reads_as(expression@, Err(fault)) && text@ == fault_text(fault),
        },
        ToolCall::ConvertSats { amount_sats, currency } => {
            &&& step matches Ok(ToolStep::FetchPrices { amount_sats: sats, currency: target })
            &&& sats == amount_sats
            &&& target@ == upper_cased(currency@)
        },
        ToolCall::HttpRequest { url, method, headers, body } => match step {
            Ok(step) => step matches ToolStep::Send(plan) && request_planned(
                url@,
                upper_cased(method@),
                headers@,
                optional_json(body),
                Ok(plan),
            ),
            Err(text) => request_planned(
                url@,
                upper_cased(method@),
                headers@,
                optional_json(body),
                Err(text),
            ),
        },
        ToolCall::KvStore { action, key, value, prefix } => match (
            step,
            kv_asked(lower_cased(action@), optional_view(key), optional_json(value)),
        ) {
            (Ok(step), Ok(asked)) => {
                &&& step matches ToolStep::UseStorage { request, prefix: kept }
                &&& request@ == asked
                &&& kept == prefix
            },
            (Err(text), Err(refusal)) => text@ == refusal,
            _ => false,
        },
        ToolCall::Skills { action, slug, title, summary, prompt } => match (
            step,
            skills_asked(
                lower_cased(action@),
                optional_view(slug),
                optional_view(title),
                optional_view(summary),
                optional_view(prompt),
            ),
        ) {
            (Ok(step), Ok(asked)) => step matches ToolStep::ManageSkills(request) && request@
                == asked,
            (Err(text), Err(refusal)) => text@ == refusal,
            _ => false,
        },
    }
}

/// The arguments of a call as the log shows them.
fn show_arguments(call: &ToolCall) -> (shown: String)
    ensures
        shown@ == shown_arguments(*call),
{
    match call {
        ToolCall::GetBalance => String::new(),
        ToolCall::CreateInvoice { amount_sats, .. } => "(".to_owned().concat(
            text::decimal(*amount_sats).as_str(),
        ).concat(")"),
        ToolCall::ProposePayment { summary, .. } => "(".to_owned().concat(summary.as_str()).concat(
            ")",
        ),
        ToolCall::ListOperations { limit } => "(".to_owned().concat(
            text::decimal(*limit).as_str(),
        ).concat(")"),
        ToolCall::ShowReceiveCode => String::new(),
        ToolCall::LoadSkill { slug } => "(".to_owned().concat(slug.as_str()).concat(")"),
        ToolCall::Calculate { expression } => "(".to_owned().concat(expression.as_str()).concat(
            ")",
        ),
        ToolCall::ConvertSats { amount_sats, currency } => "(".to_owned().concat(
            text::decimal(*amount_sats).as_str(),
        ).concat(", ").concat(text::to_upper_case(currency.as_str()).as_str()).concat(")"),
        ToolCall::HttpRequest { url, method, .. } => "(".to_owned().concat(
            text::to_upper_case(method.as_str()).as_str(),
        ).concat(", ").concat(url.as_str()).concat(")"),
        ToolCall::KvStore { action, key, prefix, .. } => "(".to_owned().concat(
            text::to_lower_case(action.as_str()).as_str(),
        ).concat(", key=").concat(text::debug_option(key).as_str()).concat(", prefix=").concat(
            text::debug_option(prefix).as_str(),
        ).concat(")"),
        ToolCall::Skills { action, slug, .. } => "(".to_owned().concat(
            text::to_lower_case(action.as_str()).as_str(),
        ).concat(", ").concat(text::debug_option(slug).as_str()).concat(")"),
    }
}

/// The result of a proposed payment.
pub fn proposal_result(proposal: &PendingPaymentProposal) -> (result: String)
    ensures
        result@ == json_text(proposal_json(proposal@)),
{
    let amount = match proposal.amount_sats {
        Some(amount) => Json::count(amount),
        None => Json::Null,
    };
    let json = Fields::new()
        .with("status", Json::text("pending_confirmation"))
        .with("summary", Json::text(proposal.summary.as_str()))
        .with("amount_sats", amount)
        .with("payment", Json::text(proposal.payment.as_str()))
        .finish();
    assert(json@->Object_0 =~= proposal_json(proposal@)->Object_0);
    json.to_text()
}

/// Writes the line of a result down.
fn log_result(tool: WalletTool, result: &str, log: &mut ToolLog)
    ensures
        final(log)@ == with_line(old(log)@, result_line(tool, result@)),
{
    log.push(ChatRole::Tool, tool.name().to_owned().concat(" => ").concat(result));
}

impl WalletTool {
    /// Begins a call: writes its line down and says what it leads to. A proposed payment is only
    /// put where the user can confirm it.
    pub fn call(call: ToolCall, log: &mut ToolLog) -> (step: Result<ToolStep, String>)
        ensures
            leads_to(call, step),
            final(log)@ == log_after(old(log)@, call),
    {
        let line = "[tool call] ".to_owned().concat(call.tool().name()).concat(
            show_arguments(&call).as_str(),
        );
        log.push(ChatRole::Tool, line);
        match call {
            ToolCall::GetBalance => Ok(ToolStep::AskWallet(Command::GetBalance)),
            ToolCall::CreateInvoice { amount_sats, description } => Ok(
                ToolStep::AskWallet(Command::CreateInvoice { amount_sats, description }),
            ),
            ToolCall::ProposePayment { payment, amount_sats, summary } => {
                let proposal = PendingPaymentProposal { payment, amount_sats, summary };
                let result = proposal_result(&proposal);
                log.pending_payment = Some(proposal);
                log_result(WalletTool::ProposePayment, result.as_str(), log);
                Ok(ToolStep::Done(result))
            },
            ToolCall::ListOperations { limit } => Ok(
                ToolStep::AskWallet(Command::ListOperations { limit: limit as usize }),
            ),
            ToolCall::ShowReceiveCode => Ok(ToolStep::AskWallet(Command::CachedReceiveCode)),
            ToolCall::LoadSkill { slug } => Ok(ToolStep::LoadSkill { slug }),
            ToolCall::Calculate { expression } => match evaluate(expression.as_str()) {
                Ok(tree) => Ok(ToolStep::Compute(tree)),
                Err(error) => {
                    assert(reads_as(expression@, Err(error@)));
                    Err(message(&error))
                },
            },
            ToolCall::ConvertSats { amount_sats, currency } => Ok(
                ToolStep::FetchPrices {
                    amount_sats,
                    currency: text::to_upper_case(currency.as_str()),
                },
            ),
            ToolCall::HttpRequest { url, method, headers, body } => {
                let method = text::to_upper_case(method.as_str());
                match http_request(url.as_str(), method.as_str(), &headers, body) {
                    Ok(plan) => Ok(ToolStep::Send(plan)),
                    Err(text) => Err(text),
                }
            },
            ToolCall::KvStore { action, key, value, prefix } => {
                let action = text::to_lower_case(action.as_str());
                match kv_store(action.as_str(), key, value) {
                    Ok(request) => Ok(ToolStep::UseStorage { request, prefix }),
                    Err(text) => Err(text),
                }
            },
            ToolCall::Skills { action, slug, title, summary, prompt } => {
                let action = text::to_lower_case(action.as_str());
                match manage_skills(action.as_str(), slug, title, summary, prompt) {
                    Ok(request) => Ok(ToolStep::ManageSkills(request)),
                    Err(text) => Err(text),
                }
            },
        }
    }
}

/// Ends a call whose result came from outside: writes the result down and hands it on.
pub fn finish_call(tool: WalletTool, result: String, log: &mut ToolLog) -> (handed_on: String)
    ensures
        handed_on == result,
        final(log)@ == with_line(old(log)@, result_line(tool, result@)),
{
    log_result(tool, result.as_str(), log);
    result
}

/// The result of asking for the balance.
pub fn balance_result(sats: u64) -> (result: String)
    ensures
        result@ == decimal_text(sats as nat) + " sats"@,
{
    text::decimal(sats).concat(" sats")
}

/// The result of asking for the receive code.
pub fn receive_code_result(code: Option<String>) -> (result: String)
    ensures
        result@ == match code {
            Some(code) => code@,
            None => "No receive code available yet"@,
        },
{
    match code {
        Some(code) => code,
        None => "No receive code available yet".to_owned(),
    }
}

// ── Laws ────────────────────────────────────────────────────────────────

/// No tool pays: whatever the model calls, the wallet is never asked to make a payment, nor is it
/// asked for anything that changes what it keeps.
pub proof fn law_tools_never_pay(call: ToolCall, step: Result<ToolStep, String>)
    requires
        leads_to(call, step),
    ensures
        step matches Ok(ToolStep::AskWallet(command)) ==> {
            ||| command is GetBalance
            ||| command is CreateInvoice
            ||| command is ListOperations
            ||| command is CachedReceiveCode
        },
{
}

/// However the wallet stands, nothing that the model calls makes it pay.
pub proof fn law_model_cannot_spend(
    call: ToolCall,
    step: Result<ToolStep, String>,
    state: AppState,
    notice: Option<Seq<char>>,
    done: RequestStep,
)
    requires
        leads_to(call, step),
        step matches Ok(ToolStep::AskWallet(command)) && request_leads_to(
            state,
            notice,
            command,
            done,
        ),
    ensures
        !(done is Pay),
        !(done is Write),
        !(done is CreateAccount),
{
}

/// A payment comes to wait for confirmation only by being proposed, and then it is the one that
/// was proposed. Any other call leaves what waits as it was.
pub proof fn law_only_proposals_wait(log: LogView, call: ToolCall)
    ensures
        log_after(log, call).pending == match proposed(call) {
            Some(proposal) => Some(proposal),
            None => log.pending,
        },
        proposed(call) is Some <==> call is ProposePayment,
{
}

/// The log only grows: what was written down stays, in order.
pub proof fn law_log_only_grows(log: LogView, call: ToolCall)
    ensures
        log.lines.is_prefix_of(log_after(log, call).lines),
{
}

/// No two tools have the same name.
pub proof fn law_tool_names_differ(a: WalletTool, b: WalletTool)
    requires
        tool_name(a) == tool_name(b),
    ensures
        a == b,
{
    reveal_strlit("get_balance");
    reveal_strlit("create_invoice");
    reveal_strlit("propose_payment");
    reveal_strlit("list_operations");
    reveal_strlit("show_receive_code");
    reveal_strlit("load_skill");
    reveal_strlit("calculate");
    reveal_strlit("convert_sats");
    reveal_strlit("http_request");
    reveal_strlit("kv_store");
    reveal_strlit("skills");
    assert("get_balance"@.len() == 11);
    assert("create_invoice"@.len() == 14);
    assert("propose_payment"@.len() == 15);
    assert("list_operations"@.len() == 15);
    assert("show_receive_code"@.len() == 17);
    assert("load_skill"@.len() == 10);
    assert("calculate"@.len() == 9);
    assert("convert_sats"@.len() == 12);
    assert("http_request"@.len() == 12);
    assert("kv_store"@.len() == 8);
    assert("skills"@.len() == 6);
    assert("propose_payment"@[0] != "list_operations"@[0]);
    assert("convert_sats"@[0] != "http_request"@[0]);
}

/// The model is told of every tool, once.
pub proof fn law_every_tool_is_told_of(tool: WalletTool)
    ensures
        all_tools().contains(tool),
        all_tools().no_duplicates(),
{
    let at = match tool {
        WalletTool::GetBalance => 0int,
        WalletTool::CreateInvoice => 1int,
        WalletTool::ProposePayment => 2int,
        WalletTool::ListOperations => 3int,
        WalletTool::ShowReceiveCode => 4int,
        WalletTool::LoadSkill => 5int,
        WalletTool::Calculate => 6int,
        WalletTool::ConvertSats => 7int,
        WalletTool::HttpRequest => 8int,
        WalletTool::KvStore => 9int,
        WalletTool::Skills => 10int,
    };
    assert(all_tools()[at] == tool);
}

} // verus!
