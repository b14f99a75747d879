//! Laws of the agent's tools: what is handed on of a call's arguments, and what is written down.
use vstd::prelude::*;

use crate::agent::{ChatRole, MessageView, ProposalView};
use crate::calc::{reads_as, tree_of, written, Fault, Tree};
use crate::calc_laws::{
    law_expressions_are_read_as_written, spelled, without_signs, words_of, Word,
};
use crate::http::{header_fields, is_token, pair_views, set_headers};
use crate::json::{count_json, json_text, member, optional_json, Json, JsonView};
use crate::kv::{asked_keys, KvRequest};
use crate::skills::SkillsRequest;
use crate::text::{
    begins_with, decimal_text, is_ascii_text, lower_cased, option_shown, optional_view, upper_cased,
};
use crate::text_laws::{law_beginnings, law_case_does_not_matter};
use crate::tools::{
    balance_result, call_line, default_http_method, default_limit, default_skills_action,
    finish_call, leads_to, log_after, proposal_json, receive_code_result, result_line,
    shown_arguments, tool_name, tool_of, with_line, LogView, ToolCall, ToolLog, ToolStep,
    WalletTool,
};
use crate::wallet_runtime::Command;

verus! {

// ── Storage ─────────────────────────────────────────────────────────────

/// Keys are listed by the prefix of the call, to the letter: a key of storage is asked for exactly
/// where it is that prefix with something after it, and every key is where the call has none.
pub proof fn law_keys_are_listed_by_the_prefix(
    action: String,
    key: Option<String>,
    value: Option<Json>,
    prefix: Option<String>,
    request: KvRequest,
    kept: Option<String>,
    stored: Seq<Seq<char>>,
    name: Seq<char>,
)
    requires
        leads_to(
            ToolCall::KvStore { action, key, value, prefix },
            Ok(ToolStep::UseStorage { request, prefix: kept }),
        ),
    ensures
        match prefix {
            Some(text) => kept matches Some(other) && other@ == text@,
            None => kept is None,
        },
        asked_keys(stored, optional_view(kept)).contains(name) <==> stored.contains(name)
            && match prefix {
            Some(text) => text@.len() <= name.len() && name == text@ + name.skip(
                text@.len() as int,
            ),
            None => true,
        },
{
    let asked = |key: Seq<char>| crate::kv::has_prefix(key, optional_view(kept));
    if stored.contains(name) && asked(name) {
        let i = stored.index_of(name);
        stored.lemma_filter_contains(asked, i);
    }
    if asked_keys(stored, optional_view(kept)).contains(name) {
        stored.lemma_filter_contains_rev(asked, name);
        let i = asked_keys(stored, optional_view(kept)).index_of(name);
        stored.lemma_filter_pred(asked, i);
    }
    if let Some(text) = prefix {
        if text@.len() <= name.len() {
            law_beginnings(name, text@, name.skip(text@.len() as int));
        }
    }
}

/// What storage is asked to do is what the call says: the key as it is written, the value as it is,
/// and the action in any case.
pub proof fn law_storage_is_used_as_called(
    action: String,
    key: Option<String>,
    value: Option<Json>,
    prefix: Option<String>,
    step: Result<ToolStep, String>,
)
    requires
        leads_to(ToolCall::KvStore { action, key, value, prefix }, step),
    ensures
        match step {
            Ok(ToolStep::UseStorage { request: KvRequest::Store { key: k, value: v }, .. }) => {
                &&& lower_cased(action@) == "set"@
                &&& optional_view(key) == Some(k@)
                &&& optional_json(value) == Some(v@)
            },
            Ok(ToolStep::UseStorage { request: KvRequest::Get { key: k }, .. }) => {
                &&& lower_cased(action@) == "get"@
                &&& optional_view(key) == Some(k@)
            },
            Ok(ToolStep::UseStorage { request: KvRequest::Delete { key: k }, .. }) => {
                &&& lower_cased(action@) == "delete"@
                &&& optional_view(key) == Some(k@)
            },
            Ok(ToolStep::UseStorage { request: KvRequest::List, .. }) => lower_cased(action@)
                == "list"@,
            Ok(_) => false,
            Err(_) => {
                ||| key is None && lower_cased(action@) != "list"@
                ||| value is None && lower_cased(action@) == "set"@
                ||| !(lower_cased(action@) == "set"@ || lower_cased(action@) == "get"@
                    || lower_cased(action@) == "delete"@ || lower_cased(action@) == "list"@)
            },
        },
        lower_cased(action@) == "list"@ ==> step is Ok,
        key is Some && value is Some && lower_cased(action@) == "set"@ ==> step is Ok,
        key is Some && (lower_cased(action@) == "get"@ || lower_cased(action@) == "delete"@)
            ==> step is Ok,
{
    reveal_strlit("set");
    reveal_strlit("get");
    reveal_strlit("delete");
    reveal_strlit("list");
    assert("set"@.len() == 3 && "get"@.len() == 3 && "delete"@.len() == 6 && "list"@.len() == 4);
    assert("set"@[0] != "get"@[0]);
}

// ── Skills ──────────────────────────────────────────────────────────────

/// The skills tool saves what it is given, each text in its place and to the letter, and deletes
/// what it is told to.
pub proof fn law_skills_are_managed_as_called(
    action: String,
    slug: Option<String>,
    title: Option<String>,
    summary: Option<String>,
    prompt: Option<String>,
    step: Result<ToolStep, String>,
)
    requires
        leads_to(ToolCall::Skills { action, slug, title, summary, prompt }, step),
    ensures
        match step {
            Ok(ToolStep::ManageSkills(SkillsRequest::Save(stored))) => {
                &&& lower_cased(action@) == "save"@
                &&& optional_view(slug) == Some(stored.slug@)
                &&& optional_view(title) == Some(stored.title@)
                &&& optional_view(summary) == Some(stored.summary@)
                &&& optional_view(prompt) == Some(stored.prompt@)
            },
            Ok(ToolStep::ManageSkills(SkillsRequest::Delete(gone))) => {
                &&& lower_cased(action@) == "delete"@
                &&& optional_view(slug) == Some(gone@)
            },
            Ok(ToolStep::ManageSkills(SkillsRequest::List)) => lower_cased(action@) == "list"@,
            Ok(_) => false,
            Err(_) => lower_cased(action@) != "list"@,
        },
        lower_cased(action@) == "list"@ ==> step is Ok,
        lower_cased(action@) == "delete"@ ==> (step is Ok <==> slug is Some),
        lower_cased(action@) == "save"@ ==> (step is Ok <==> slug is Some && title is Some
            && summary is Some && prompt is Some),
{
    reveal_strlit("save");
    reveal_strlit("delete");
    reveal_strlit("list");
    assert("save"@.len() == 4 && "delete"@.len() == 6 && "list"@.len() == 4);
    assert("save"@[0] != "list"@[0]);
}

// ── Requests ────────────────────────────────────────────────────────────

/// A request is sent to the address that the call names, to the letter, with the method in upper
/// case, the headers that the call sets, and the body as it is: a text as a text, and any other
/// value as JSON.
pub proof fn law_requests_are_sent_as_called(
    url: String,
    method: String,
    headers: Vec<(String, String)>,
    body: Option<Json>,
    step: Result<ToolStep, String>,
)
    requires
        leads_to(ToolCall::HttpRequest { url, method, headers, body }, step),
    ensures
        step matches Ok(done) ==> (done matches ToolStep::Send(plan) && {
            &&& plan.url@ == url@
            &&& plan.method@ == upper_cased(method@)
            &&& header_fields(plan.headers) == set_headers(pair_views(headers@))
            &&& match body {
                None => plan.body is Empty,
                Some(value) => match value@ {
                    JsonView::Text(text) => plan.body matches crate::http::HttpBody::Text(sent)
                        && sent@ == text,
                    other => plan.body matches crate::http::HttpBody::Json(sent) && sent@ == other,
                },
            }
        }),
        !is_token(upper_cased(method@)) ==> step is Err,
{
}

/// The method of a request may be written in any case: two ways to write it are sent as the same.
pub proof fn law_methods_are_sent_in_upper_case(
    lower: String,
    upper: String,
    url: String,
    headers: Vec<(String, String)>,
    body: Option<Json>,
    first: ToolStep,
    second: ToolStep,
)
    requires
        lower@.len() == upper@.len(),
        is_ascii_text(lower@),
        is_ascii_text(upper@),
        forall|i: int|
            0 <= i < lower@.len() ==> (#[trigger] lower@[i] == upper@[i] || ('a' <= lower@[i]
                && lower@[i] <= 'z' && upper@[i] as int == lower@[i] as int - 32)),
        leads_to(ToolCall::HttpRequest { url, method: lower, headers, body }, Ok(first)),
        leads_to(ToolCall::HttpRequest { url, method: upper, headers, body }, Ok(second)),
    ensures
        first matches ToolStep::Send(a) && second matches ToolStep::Send(b) && a.method@ == b.method@
            && a.url@ == b.url@,
{
    law_case_does_not_matter(lower@, upper@);
}

// ── Conversions and computations ────────────────────────────────────────

/// A conversion is of the satoshis that the call names, to the currency that it names, in any case.
pub proof fn law_conversions_are_made_as_called(
    amount_sats: u64,
    lower: String,
    upper: String,
    first: Result<ToolStep, String>,
    second: Result<ToolStep, String>,
)
    requires
        lower@.len() == upper@.len(),
        is_ascii_text(lower@),
        is_ascii_text(upper@),
        forall|i: int|
            0 <= i < lower@.len() ==> (#[trigger] lower@[i] == upper@[i] || ('a' <= lower@[i]
                && lower@[i] <= 'z' && upper@[i] as int == lower@[i] as int - 32)),
        forall|i: int| 0 <= i < upper@.len() ==> !('a' <= #[trigger] upper@[i] && upper@[i] <= 'z'),
        leads_to(ToolCall::ConvertSats { amount_sats, currency: lower }, first),
        leads_to(ToolCall::ConvertSats { amount_sats, currency: upper }, second),
    ensures
        first matches Ok(ToolStep::FetchPrices { amount_sats: a, currency: x }) && a == amount_sats
            && x@ == upper@,
        second matches Ok(ToolStep::FetchPrices { amount_sats: b, currency: y }) && b == amount_sats
            && y@ == upper@,
{
    law_case_does_not_matter(lower@, upper@);
}

/// The calculator computes the expression that the call writes: the tree of its numbers, operators
/// and parentheses, and no other.
pub proof fn law_expressions_are_computed_as_called(
    expression: String,
    tree: Tree,
    words: Seq<Word>,
    step: Result<ToolStep, String>,
)
    requires
        without_signs(tree),
        crate::calc::grouped(tree, 0),
        words_of(words, written(tree)),
        expression@ == spelled(words),
        leads_to(ToolCall::Calculate { expression }, step),
    ensures
        step matches Ok(ToolStep::Compute(read)) && tree_of(read) == tree,
{
    law_expressions_are_read_as_written(tree, words, tree);
    match step {
        Ok(ToolStep::Compute(read)) => {
            law_expressions_are_read_as_written(tree, words, tree_of(read));
        },
        Ok(_) => {},
        Err(_) => {
            let fault = choose|fault: Fault| #[trigger] reads_as(expression@, Err(fault));
            assert(!reads_as(spelled(words), Err(fault)));
        },
    }
}

// ── The wallet's tools ──────────────────────────────────────────────────

/// What the wallet is asked for is what the call says: an invoice over the satoshis and with the
/// description of the call, as many operations as the call names where a machine can count them,
/// and a skill by the slug of the call.
pub proof fn law_the_wallet_is_asked_as_called(call: ToolCall, step: Result<ToolStep, String>)
    requires
        leads_to(call, step),
    ensures
        call is GetBalance ==> step == Ok::<_, String>(ToolStep::AskWallet(Command::GetBalance)),
        call is ShowReceiveCode ==> step == Ok::<_, String>(
            ToolStep::AskWallet(Command::CachedReceiveCode),
        ),
        call matches ToolCall::CreateInvoice { amount_sats, description } ==> (step matches Ok(
            ToolStep::AskWallet(Command::CreateInvoice { amount_sats: sats, description: text }),
        ) && sats == amount_sats && text@ == description@),
        call matches ToolCall::ListOperations { limit } ==> (step matches Ok(
            ToolStep::AskWallet(Command::ListOperations { limit: asked }),
        ) && (limit <= usize::MAX ==> asked == limit)),
        call matches ToolCall::LoadSkill { slug } ==> (step matches Ok(
            ToolStep::LoadSkill { slug: asked },
        ) && asked@ == slug@),
        step matches Ok(ToolStep::AskWallet(Command::CreateInvoice { .. })) ==> call is CreateInvoice,
        step matches Ok(ToolStep::AskWallet(Command::GetBalance)) ==> call is GetBalance,
{
}

/// A proposed payment comes to wait as it was proposed: to where it goes, the satoshis if any, and
/// the summary, to the letter. The call pays nothing: its result says that the payment waits, and
/// says of it what was proposed.
pub proof fn law_proposals_wait_as_called(
    log: LogView,
    payment: String,
    amount_sats: Option<u64>,
    summary: String,
    step: Result<ToolStep, String>,
)
    requires
        leads_to(ToolCall::ProposePayment { payment, amount_sats, summary }, step),
    ensures
        log_after(log, ToolCall::ProposePayment { payment, amount_sats, summary }).pending == Some(
            ProposalView { payment: payment@, amount_sats, summary: summary@ },
        ),
        ({
            let told = proposal_json(
                ProposalView { payment: payment@, amount_sats, summary: summary@ },
            );
            &&& step matches Ok(ToolStep::Done(result)) && result@ == json_text(told)
            &&& member(told, "status"@) == Some(JsonView::Text("pending_confirmation"@))
            &&& member(told, "payment"@) == Some(JsonView::Text(payment@))
            &&& member(told, "summary"@) == Some(JsonView::Text(summary@))
            &&& member(told, "amount_sats"@) == Some(
                match amount_sats {
                    Some(sats) => count_json(sats),
                    None => JsonView::Null,
                },
            )
        }),
{
    reveal_strlit("status");
    reveal_strlit("payment");
    reveal_strlit("summary");
    reveal_strlit("amount_sats");
    assert("status"@.len() == 6 && "payment"@.len() == 7 && "summary"@.len() == 7
        && "amount_sats"@.len() == 11);
    assert("payment"@[0] != "summary"@[0]);
}

/// Of several proposals the last one waits.
pub proof fn law_the_last_proposal_waits(log: LogView, first: ToolCall, second: ToolCall)
    requires
        second is ProposePayment,
    ensures
        log_after(log_after(log, first), second).pending == log_after(log, second).pending,
{
}

// ── The log ─────────────────────────────────────────────────────────────

/// Every call is written down with the name of its tool, as a line of a tool, behind all that was
/// written before.
pub proof fn law_calls_are_written_down(log: LogView, call: ToolCall)
    ensures
        log_after(log, call).lines.len() > log.lines.len(),
        log_after(log, call).lines.take(log.lines.len() as int) == log.lines,
        ({
            let line = log_after(log, call).lines[log.lines.len() as int];
            &&& line.role is Tool
            &&& begins_with(line.body, "[tool call] "@ + tool_name(tool_of(call)))
        }),
        !(call is ProposePayment) ==> log_after(log, call).lines.len() == log.lines.len() + 1,
        call is ProposePayment ==> log_after(log, call).lines.len() == log.lines.len() + 2,
{
    let after = log_after(log, call).lines;
    assert(after.take(log.lines.len() as int) =~= log.lines);
    let named = "[tool call] "@ + tool_name(tool_of(call));
    law_beginnings(named, named, shown_arguments(call));
    assert(after[log.lines.len() as int].body == named + shown_arguments(call));
}

/// The line of a call shows its arguments as they are.
pub proof fn law_lines_show_the_arguments(call: ToolCall)
    ensures
        match call {
            ToolCall::CreateInvoice { amount_sats, .. } => call_line(call)
                == "[tool call] "@ + "create_invoice"@ + ("("@ + decimal_text(amount_sats as nat)
                + ")"@),
            ToolCall::ProposePayment { summary, .. } => call_line(call) == "[tool call] "@
                + "propose_payment"@ + ("("@ + summary@ + ")"@),
            ToolCall::ListOperations { limit } => call_line(call) == "[tool call] "@
                + "list_operations"@ + ("("@ + decimal_text(limit as nat) + ")"@),
            ToolCall::LoadSkill { slug } => call_line(call) == "[tool call] "@ + "load_skill"@ + (
            "("@ + slug@ + ")"@),
            ToolCall::Calculate { expression } => call_line(call) == "[tool call] "@ + "calculate"@
                + ("("@ + expression@ + ")"@),
            ToolCall::ConvertSats { amount_sats, currency } => call_line(call) == "[tool call] "@
                + "convert_sats"@ + ("("@ + decimal_text(amount_sats as nat) + ", "@ + upper_cased(
                currency@,
            ) + ")"@),
            ToolCall::HttpRequest { url, method, .. } => call_line(call) == "[tool call] "@
                + "http_request"@ + ("("@ + upper_cased(method@) + ", "@ + url@ + ")"@),
            ToolCall::GetBalance => call_line(call) == "[tool call] "@ + "get_balance"@
                + Seq::<char>::empty(),
            ToolCall::ShowReceiveCode => call_line(call) == "[tool call] "@ + "show_receive_code"@
                + Seq::<char>::empty(),
            ToolCall::KvStore { key, prefix, action, .. } => call_line(call) == "[tool call] "@
                + "kv_store"@ + ("("@ + lower_cased(action@) + ", key="@ + option_shown(
                optional_view(key),
            ) + ", prefix="@ + option_shown(optional_view(prefix)) + ")"@),
            ToolCall::Skills { slug, action, .. } => call_line(call) == "[tool call] "@ + "skills"@
                + ("("@ + lower_cased(action@) + ", "@ + option_shown(optional_view(slug)) + ")"@),
        },
{
}

/// A result is written down under the name of its tool, to the letter, and changes nothing that
/// waits.
pub proof fn law_results_are_written_down(log: LogView, tool: WalletTool, result: Seq<char>)
    ensures
        result.is_suffix_of(result_line(tool, result)),
        begins_with(result_line(tool, result), tool_name(tool)),
        with_line(log, result_line(tool, result)).lines == log.lines.push(
            MessageView { role: ChatRole::Tool, body: result_line(tool, result) },
        ),
        with_line(log, result_line(tool, result)).pending == log.pending,
{
    let line = result_line(tool, result);
    assert(line.subrange(line.len() - result.len(), line.len() as int) =~= result);
    law_beginnings(line, tool_name(tool), " => "@ + result);
    assert(line =~= tool_name(tool) + (" => "@ + result));
}

/// A call is of the tool that it is named after.
pub proof fn law_calls_are_of_their_tool(call: ToolCall)
    ensures
        match call {
            ToolCall::GetBalance => tool_of(call) == WalletTool::GetBalance,
            ToolCall::CreateInvoice { .. } => tool_of(call) == WalletTool::CreateInvoice,
            ToolCall::ProposePayment { .. } => tool_of(call) == WalletTool::ProposePayment,
            ToolCall::ListOperations { .. } => tool_of(call) == WalletTool::ListOperations,
            ToolCall::ShowReceiveCode => tool_of(call) == WalletTool::ShowReceiveCode,
            ToolCall::LoadSkill { .. } => tool_of(call) == WalletTool::LoadSkill,
            ToolCall::Calculate { .. } => tool_of(call) == WalletTool::Calculate,
            ToolCall::ConvertSats { .. } => tool_of(call) == WalletTool::ConvertSats,
            ToolCall::HttpRequest { .. } => tool_of(call) == WalletTool::HttpRequest,
            ToolCall::KvStore { .. } => tool_of(call) == WalletTool::KvStore,
            ToolCall::Skills { .. } => tool_of(call) == WalletTool::Skills,
        },
{
}

// ── The functions themselves ────────────────────────────────────────────

/// A call of the storage tool asks storage by the prefix that the model wrote, to the letter.
pub proof fn law_calls_keep_their_prefix(
    action: String,
    key: Option<String>,
    value: Option<Json>,
    prefix: Option<String>,
    log: &mut ToolLog,
    step: Result<ToolStep, String>,
)
    requires
        call_ensures(
            WalletTool::call,
            (ToolCall::KvStore { action, key, value, prefix }, log),
            step,
        ),
    ensures
        step matches Ok(ToolStep::UseStorage { prefix: kept, .. }) ==> match prefix {
            Some(text) => kept matches Some(other) && other@ == text@,
            None => kept is None,
        },
        final(log)@.pending == old(log)@.pending,
        final(log)@.lines.len() == old(log)@.lines.len() + 1,
{
    law_calls_are_written_down(old(log)@, ToolCall::KvStore { action, key, value, prefix });
}

/// A call that proposes a payment leaves just that payment waiting, and any other call leaves what
/// waits as it was.
pub proof fn law_calls_leave_payments_waiting(
    call: ToolCall,
    log: &mut ToolLog,
    step: Result<ToolStep, String>,
)
    requires
        call_ensures(WalletTool::call, (call, log), step),
    ensures
        call matches ToolCall::ProposePayment { payment, amount_sats, summary } ==> {
            &&& final(log)@.pending matches Some(waits)
            &&& waits.payment == payment@
            &&& waits.amount_sats == amount_sats
            &&& waits.summary == summary@
        },
        !(call is ProposePayment) ==> final(log)@.pending == old(log)@.pending,
        old(log)@.lines.is_prefix_of(final(log)@.lines),
        !(step matches Ok(ToolStep::AskWallet(Command::Pay { .. }))),
{
}

/// The result of a call is handed on as it came, and written down as it came.
pub proof fn law_results_are_handed_on(
    tool: WalletTool,
    result: String,
    log: &mut ToolLog,
    handed_on: String,
)
    requires
        call_ensures(finish_call, (tool, result, log), handed_on),
    ensures
        handed_on == result,
        final(log)@.lines.len() == old(log)@.lines.len() + 1,
        final(log)@.lines.last().role is Tool,
        result@.is_suffix_of(final(log)@.lines.last().body),
        final(log)@.pending == old(log)@.pending,
{
    law_results_are_written_down(old(log)@, tool, result@);
}

/// The model is told the balance as its number of satoshis, and the receive code as it is.
pub proof fn law_wallet_results_are_told(sats: u64, balance: String, code: String, told: String)
    requires
        call_ensures(balance_result, (sats,), balance),
        call_ensures(receive_code_result, (Some(code),), told),
    ensures
        balance@ == decimal_text(sats as nat) + " sats"@,
        told@ == code@,
{
}

/// Two balances are told differently.
pub proof fn law_balances_are_told_apart(a: u64, b: u64, first: String, second: String)
    requires
        call_ensures(balance_result, (a,), first),
        call_ensures(balance_result, (b,), second),
        first@ == second@,
    ensures
        a == b,
{
    let (x, y) = (decimal_text(a as nat), decimal_text(b as nat));
    assert((x + " sats"@).take(x.len() as int) =~= x);
    assert((y + " sats"@).take(y.len() as int) =~= y);
    assert((x + " sats"@).len() == (y + " sats"@).len());
    crate::text_laws::law_numbers_are_told_apart(a as nat, b as nat);
}

/// What a call leaves out is filled in so that nothing is changed by it: ten operations are listed,
/// a request only gets, skills are only listed.
pub proof fn law_defaults_are_harmless(limit: u64, method: String, action: String)
    requires
        call_ensures(default_limit, (), limit),
        call_ensures(default_http_method, (), method),
        call_ensures(default_skills_action, (), action),
    ensures
        limit == 10,
        method@ == "GET"@,
        action@ == "list"@,
{
}

} // verus!
