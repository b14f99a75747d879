//! The chat agent: its messages, what its model is told, and what comes of an answer.
use vstd::prelude::*;

use crate::json::{member, text_of, without_member, Fields, Json, JsonView};
use crate::ppq::API_BASE;
use crate::skills::{summaries, SkillSummary, SummaryView};
use crate::text::{begins_with, from_chars, starts_with, text_between, to_chars};
use crate::tools::{all_tools, wallet_tools, ToolLog, WalletTool};

verus! {

/// What the model is told first.
pub const PREAMBLE: &'static str = "You are the wallet agent inside a chat-only Fedimint wallet. All wallet actions must happen through tools. Keep answers short and practical. For outgoing payments, ALWAYS use propose_payment. Never pay directly. The UI shows a confirm button and only that button can actually send funds.";

/// How often the model may use tools before it has to answer.
pub const MAX_TURNS: u64 = 10;

/// Who a message of the chat is from.
#[derive(Clone, Copy, Debug, PartialEq, Eq, Structural)]
pub enum ChatRole {
    System,
    User,
    Assistant,
    Tool,
}

/// A message of the chat.
#[derive(Clone, Debug)]
pub struct ChatMessage {
    pub role: ChatRole,
    pub body: String,
}

/// What a `ChatMessage` says.
pub struct MessageView {
    pub role: ChatRole,
    pub body: Seq<char>,
}

impl View for ChatMessage {
    type V = MessageView;

    open spec fn view(&self) -> MessageView {
        MessageView { role: self.role, body: self.body@ }
    }
}

/// A payment that waits for the user to confirm it.
#[derive(Clone, Debug)]
pub struct PendingPaymentProposal {
    pub payment: String,
    pub amount_sats: Option<u64>,
    pub summary: String,
}

/// What a `PendingPaymentProposal` says.
pub struct ProposalView {
    pub payment: Seq<char>,
    pub amount_sats: Option<u64>,
    pub summary: Seq<char>,
}

impl View for PendingPaymentProposal {
    type V = ProposalView;

    open spec fn view(&self) -> ProposalView {
        ProposalView {
            payment: self.payment@,
            amount_sats: self.amount_sats,
            summary: self.summary@,
        }
    }
}

/// What came of a prompt: the messages to show and a payment that waits, if there is one.
#[derive(Clone, Debug)]
pub struct AgentResponse {
    pub messages: Vec<ChatMessage>,
    pub pending_payment: Option<PendingPaymentProposal>,
}

/// What several messages say.
pub open spec fn message_views(messages: Seq<ChatMessage>) -> Seq<MessageView> {
    messages.map_values(|message: ChatMessage| message@)
}

/// What an optional proposal says.
pub open spec fn proposal_view(proposal: Option<PendingPaymentProposal>) -> Option<ProposalView> {
    match proposal {
        Some(proposal) => Some(proposal@),
        None => None,
    }
}

/// A message of the wallet itself.
pub fn onboarding_message(body: String) -> (message: ChatMessage)
    ensures
        message == (ChatMessage { role: ChatRole::System, body }),
{
    ChatMessage { role: ChatRole::System, body }
}

/// A message of the user.
pub fn user_message(body: String) -> (message: ChatMessage)
    ensures
        message == (ChatMessage { role: ChatRole::User, body }),
{
    ChatMessage { role: ChatRole::User, body }
}

/// A message of the agent.
pub fn assistant_message(body: String) -> (message: ChatMessage)
    ensures
        message == (ChatMessage { role: ChatRole::Assistant, body }),
{
    ChatMessage { role: ChatRole::Assistant, body }
}

// ── Tool definitions ────────────────────────────────────────────────────

/// How a tool is made known to the model.
#[derive(Debug)]
pub struct ToolDefinition {
    pub name: String,
    pub description: String,
    pub parameters: Json,
}

/// The schema of a tool's arguments, an empty object where there is none.
pub open spec fn schema_of(schema: Option<JsonView>) -> JsonView {
    match schema {
        Some(schema) => schema,
        None => JsonView::Object(Map::empty()),
    }
}

/// The description that a schema carries, an empty text where it carries none.
pub open spec fn described(schema: JsonView) -> Seq<char> {
    match text_of(member(schema, "description"@)) {
        Some(description) => description,
        None => Seq::empty(),
    }
}

/// A schema without the members that do not belong to the arguments.
pub open spec fn parameters_of(schema: JsonView) -> JsonView {
    without_member(
        without_member(without_member(schema, "$schema"@), "title"@),
        "description"@,
    )
}

/// The definition of a tool, from the schema of its arguments.
pub fn tool_definition(name: &str, schema: Option<Json>) -> (definition: ToolDefinition)
    ensures
        definition.name@ == name@,
        definition.description@ == described(schema_of(crate::json::optional_json(schema))),
        definition.parameters@ == parameters_of(schema_of(crate::json::optional_json(schema))),
{
    let schema = match schema {
        Some(schema) => schema,
        None => Fields::new().finish(),
    };
    let description = match schema.get("description") {
        Some(description) => match description.as_str() {
            Some(description) => description.to_owned(),
            None => String::new(),
        },
        None => String::new(),
    };
    assert(text_of(member(schema@, "description"@)) is None ==> description@
        =~= Seq::<char>::empty());
    let parameters = schema.without("$schema").without("title").without("description");
    ToolDefinition { name: name.to_owned(), description, parameters }
}

// ── Answering a prompt ──────────────────────────────────────────────────

/// A turn of the conversation that the model is shown.
#[derive(Debug)]
pub enum Turn {
    User(String),
    Assistant(String),
}

/// What a `Turn` says.
pub enum TurnView {
    User(Seq<char>),
    Assistant(Seq<char>),
}

impl View for Turn {
    type V = TurnView;

    open spec fn view(&self) -> TurnView {
        match *self {
            Turn::User(body) => TurnView::User(body@),
            Turn::Assistant(body) => TurnView::Assistant(body@),
        }
    }
}

/// What several turns say.
pub open spec fn turn_views(turns: Seq<Turn>) -> Seq<TurnView> {
    turns.map_values(|turn: Turn| turn@)
}

/// The turns that the model is shown: the messages of user and agent, in order.
pub open spec fn turns_of(history: Seq<MessageView>) -> Seq<TurnView>
    decreases history.len(),
{
    if history.len() == 0 {
        Seq::empty()
    } else {
        let before = turns_of(history.drop_last());
        match history.last().role {
            ChatRole::User => before.push(TurnView::User(history.last().body)),
            ChatRole::Assistant => before.push(TurnView::Assistant(history.last().body)),
            _ => before,
        }
    }
}

/// Everything that the model is called with.
#[derive(Debug)]
pub struct AgentPlan {
    pub api_key: String,
    pub base_url: String,
    pub model: String,
    pub preamble: String,
    pub max_turns: u64,
    pub tools: Vec<WalletTool>,
    pub history: Vec<Turn>,
    pub prompt: String,
}

/// The agent that answers prompts.
#[derive(Clone, Debug)]
pub struct WalletAgent {
    ppq_api_key: String,
    skills: Vec<SkillSummary>,
}

impl WalletAgent {
    /// The key that the agent's calls are paid with.
    pub closed spec fn api_key(&self) -> Seq<char> {
        self.ppq_api_key@
    }

    /// The skills that the agent was set up with.
    pub closed spec fn known_skills(&self) -> Seq<SummaryView> {
        summaries(self.skills@)
    }

    /// An agent whose calls are paid with this key.
    pub fn new(ppq_api_key: String, skills: Vec<SkillSummary>) -> (agent: WalletAgent)
        ensures
            agent.api_key() == ppq_api_key@,
            agent.known_skills() == summaries(skills@),
    {
        WalletAgent { ppq_api_key, skills }
    }

    /// The skills that an answer can draw on: the catalog as it was loaded for it, or the skills
    /// that the agent was set up with.
    pub fn current_skills(&self, loaded: Result<Vec<SkillSummary>, String>) -> (skills: Vec<
        SkillSummary,
    >)
        ensures
            summaries(skills@) == match loaded {
                Ok(loaded) => summaries(loaded@),
                Err(_) => self.known_skills(),
            },
    {
        match loaded {
            Ok(loaded) => loaded,
            Err(_) => {
                let mut skills: Vec<SkillSummary> = Vec::new();
                let mut i: usize = 0;
                while i < self.skills.len()
                    invariant
                        i <= self.skills@.len(),
                        summaries(skills@) == summaries(self.skills@.take(i as int)),
                    decreases self.skills@.len() - i,
                {
                    let ghost before = summaries(skills@);
                    skills.push(self.skills[i].copy());
                    assert(summaries(skills@) =~= before.push(self.skills@[i as int]@));
                    assert(summaries(skills@) =~= summaries(self.skills@.take(i + 1)));
                    i += 1;
                }
                assert(self.skills@.take(i as int) =~= self.skills@);
                skills
            },
        }
    }

    /// What the chosen model is called with for a prompt. The skills come as JSON text, an empty
    /// list where they could not be written.
    pub fn respond(
        &self,
        skills_ctx: Option<String>,
        history: &Vec<ChatMessage>,
        prompt: &str,
        model: &str,
    ) -> (plan: AgentPlan)
        ensures
            plan.api_key@ == self.api_key(),
            plan.base_url@ == API_BASE@,
            plan.model@ == model@,
            plan.preamble@ == PREAMBLE@ + "\n\nSkills available: "@ + (match skills_ctx {
                Some(skills_ctx) => skills_ctx@,
                None => "[]"@,
            }),
            plan.max_turns == MAX_TURNS,
            plan.tools@ == all_tools(),
            turn_views(plan.history@) == turns_of(message_views(history@)),
            plan.prompt@ == prompt@,
    {
        let skills_ctx = match skills_ctx {
            Some(skills_ctx) => skills_ctx,
            None => "[]".to_owned(),
        };
        let mut turns: Vec<Turn> = Vec::new();
        let mut i: usize = 0;
        assert(turn_views(turns@) =~= turns_of(message_views(history@.take(0))));
        while i < history.len()
            invariant
                i <= history@.len(),
                turn_views(turns@) == turns_of(message_views(history@.take(i as int))),
            decreases history@.len() - i,
        {
            assert(message_views(history@.take(i + 1)).drop_last() =~= message_views(
                history@.take(i as int),
            ));
            let ghost before = turn_views(turns@);
            match history[i].role {
                ChatRole::User => {
                    turns.push(Turn::User(history[i].body.clone()));
                    assert(turn_views(turns@) =~= before.push(
                        TurnView::User(history@[i as int].body@),
                    ));
                },
                ChatRole::Assistant => {
                    turns.push(Turn::Assistant(history[i].body.clone()));
                    assert(turn_views(turns@) =~= before.push(
                        TurnView::Assistant(history@[i as int].body@),
                    ));
                },
                _ => {},
            }
            i += 1;
        }
        assert(history@.take(i as int) =~= history@);
        AgentPlan {
            api_key: self.ppq_api_key.clone(),
            base_url: API_BASE.to_owned(),
            model: model.to_owned(),
            preamble: PREAMBLE.to_owned().concat("\n\nSkills available: ").concat(
                skills_ctx.as_str(),
            ),
            max_turns: MAX_TURNS,
            tools: wallet_tools(),
            history: turns,
            prompt: prompt.to_owned(),
        }
    }
}

/// What comes of a prompt: the lines of the tools that were used, then the answer, and the
/// payment that the last proposal left waiting.
pub fn finish_response(log: ToolLog, answer: String) -> (response: AgentResponse)
    ensures
        message_views(response.messages@) == log@.lines.push(
            MessageView { role: ChatRole::Assistant, body: answer@ },
        ),
        proposal_view(response.pending_payment) == log@.pending,
{
    let mut messages = log.outputs;
    let ghost lines = message_views(messages@);
    messages.push(assistant_message(answer));
    assert(message_views(messages@) =~= lines.push(
        MessageView { role: ChatRole::Assistant, body: answer@ },
    ));
    AgentResponse { messages, pending_payment: log.pending_payment }
}

// ── Addresses of the site's own files ───────────────────────────────────

/// Whether a path is an address of its own.
pub open spec fn is_absolute(path: Seq<char>) -> bool {
    begins_with(path, "http://"@) || begins_with(path, "https://"@)
}

/// A path up to and with its last slash, or a slash alone where it has none.
pub open spec fn directory_of(path: Seq<char>) -> Seq<char>
    decreases path.len(),
{
    if path.len() == 0 {
        seq!['/']
    } else if path.last() == '/' {
        path
    } else {
        directory_of(path.drop_last())
    }
}

/// A path with a slash in front.
pub open spec fn rooted(path: Seq<char>) -> Seq<char> {
    if path.len() > 0 && path[0] == '/' {
        path
    } else {
        seq!['/'] + path
    }
}

/// A path without the slashes in front.
pub open spec fn without_slashes(path: Seq<char>) -> Seq<char>
    decreases path.len(),
{
    if path.len() > 0 && path[0] == '/' {
        without_slashes(path.skip(1))
    } else {
        path
    }
}

/// Where a file of the site is found from the page at `origin` and `pathname`.
pub open spec fn site_address(
    path: Seq<char>,
    origin: Seq<char>,
    pathname: Seq<char>,
) -> Seq<char> {
    origin + rooted(directory_of(pathname)) + without_slashes(path)
}

/// The address of a file: itself where it is an address of its own, and otherwise found from
/// where the page is.
pub fn asset_url(path: &str, location: Result<(String, String), String>) -> (url: Result<
    String,
    String,
>)
    ensures
        if is_absolute(path@) {
            url matches Ok(url) && url@ == path@
        } else {
            match location {
                Ok((origin, pathname)) => url matches Ok(url) && url@ == site_address(
                    path@,
                    origin@,
                    pathname@,
                ),
                Err(fault) => url == Err::<String, String>(fault),
            }
        },
{
    if starts_with(path, "http://") || starts_with(path, "https://") {
        return Ok(path.to_owned());
    }
    let (origin, pathname) = match location {
        Ok(location) => location,
        Err(fault) => return Err(fault),
    };
    let page = to_chars(pathname.as_str());
    let mut end: usize = page.len();
    assert(page@.take(end as int) =~= page@);
    while end > 0 && page[end - 1] != '/'
        invariant
            end <= page@.len(),
            directory_of(page@) == directory_of(page@.take(end as int)),
        decreases end,
    {
        assert(page@.take(end as int).drop_last() =~= page@.take(end - 1));
        end -= 1;
    }
    let base = if end == 0 {
        let mut slash: Vec<char> = Vec::new();
        slash.push('/');
        slash
    } else {
        to_chars(text_between(&page, 0, end).as_str())
    };
    assert(base@ =~= directory_of(page@));
    let file = to_chars(path);
    let mut start: usize = 0;
    assert(file@.skip(0) =~= file@);
    while start < file.len() && file[start] == '/'
        invariant
            start <= file@.len(),
            without_slashes(file@) == without_slashes(file@.skip(start as int)),
        decreases file@.len() - start,
    {
        assert(file@.skip(start as int).skip(1) =~= file@.skip(start + 1));
        start += 1;
    }
    let clean = text_between(&file, start, file.len());
    assert(clean@ =~= without_slashes(path@));
    let base_path = from_chars(&base);
    let url = if base.len() > 0 && base[0] == '/' {
        origin.concat(base_path.as_str()).concat(clean.as_str())
    } else {
        proof {
            reveal_strlit("/");
        }
        origin.concat("/").concat(base_path.as_str()).concat(clean.as_str())
    };
    assert(url@ =~= site_address(path@, origin@, pathname@));
    Ok(url)
}

// ── Laws ────────────────────────────────────────────────────────────────

/// Slashes in front of the path of a file make no difference to its address.
pub proof fn law_leading_slashes_do_not_matter(
    path: Seq<char>,
    origin: Seq<char>,
    pathname: Seq<char>,
)
    ensures
        site_address(seq!['/'] + path, origin, pathname) == site_address(path, origin, pathname),
{
    assert((seq!['/'] + path).skip(1) =~= path);
}

proof fn lemma_directory_ends_in_slash(path: Seq<char>)
    ensures
        directory_of(path).len() > 0,
        directory_of(path).last() == '/',
    decreases path.len(),
{
    if path.len() > 0 && path.last() != '/' {
        lemma_directory_ends_in_slash(path.drop_last());
    }
}

/// The address of a file of the site is the origin, then a path that begins and ends in a slash,
/// then the file. The page's own name makes no difference.
pub proof fn law_files_lie_beside_the_page(
    path: Seq<char>,
    origin: Seq<char>,
    pathname: Seq<char>,
    page: Seq<char>,
)
    requires
        forall|i: int| 0 <= i < page.len() ==> page[i] != '/',
        pathname.len() > 0,
        pathname.last() == '/',
    ensures
        site_address(path, origin, pathname + page) == site_address(path, origin, pathname),
        rooted(directory_of(pathname))[0] == '/',
        rooted(directory_of(pathname)).last() == '/',
    decreases page.len(),
{
    lemma_directory_ends_in_slash(pathname);
    if page.len() == 0 {
        assert(pathname + page =~= pathname);
    } else {
        assert((pathname + page).drop_last() =~= pathname + page.drop_last());
        law_files_lie_beside_the_page(path, origin, pathname, page.drop_last());
    }
}

/// The model is shown what user and agent said, and nothing else: leaving the other messages out
/// makes no difference to it.
pub proof fn law_model_sees_only_the_dialogue(history: Seq<MessageView>)
    ensures
        turns_of(
            history.filter(
                |message: MessageView| message.role is User || message.role is Assistant,
            ),
        ) == turns_of(history),
        turns_of(history).len() == history.filter(
            |message: MessageView| message.role is User || message.role is Assistant,
        ).len(),
    decreases history.len(),
{
    reveal(Seq::filter);
    let said = |message: MessageView| message.role is User || message.role is Assistant;
    if history.len() > 0 {
        law_model_sees_only_the_dialogue(history.drop_last());
        let shorter = history.drop_last().filter(said);
        if said(history.last()) {
            assert(shorter.push(history.last()).drop_last() =~= shorter);
        }
    }
}

/// Whether a message is of the conversation between user and agent.
pub open spec fn is_said(message: ChatMessage) -> bool {
    message.role is User || message.role is Assistant
}

/// The messages of the conversation, in order.
pub open spec fn said_in(history: Seq<ChatMessage>) -> Seq<ChatMessage> {
    history.filter(|message: ChatMessage| is_said(message))
}

proof fn lemma_turns_are_said(history: Seq<ChatMessage>)
    ensures
        turns_of(message_views(history)).len() == said_in(history).len(),
        forall|i: int|
            0 <= i < said_in(history).len() ==> #[trigger] turns_of(message_views(history))[i]
                == if said_in(history)[i].role is User {
                TurnView::User(said_in(history)[i].body@)
            } else {
                TurnView::Assistant(said_in(history)[i].body@)
            },
    decreases history.len(),
{
    reveal(Seq::filter);
    let views = message_views(history);
    if history.len() > 0 {
        lemma_turns_are_said(history.drop_last());
        assert(views.drop_last() =~= message_views(history.drop_last()));
        assert(views.last() == history.last()@);
    }
}

/// The model is told who said what: each turn that it is shown is of the one that the message is
/// from, with the text of the message, and the turns come in the order in which they were said. No
/// message of user or agent is left out and none is made up.
pub proof fn law_turns_are_of_who_said_them(history: Seq<ChatMessage>, turns: Seq<Turn>, i: int)
    requires
        turn_views(turns) == turns_of(message_views(history)),
        0 <= i < turns.len(),
    ensures
        turns.len() == said_in(history).len(),
        match turns[i] {
            Turn::User(body) => said_in(history)[i].role is User && body@ == said_in(
                history,
            )[i].body@,
            Turn::Assistant(body) => said_in(history)[i].role is Assistant && body@ == said_in(
                history,
            )[i].body@,
        },
{
    lemma_turns_are_said(history);
    assert(turn_views(turns).len() == turns.len());
    assert(turn_views(turns)[i] == turns[i]@);
    history.lemma_filter_pred(|message: ChatMessage| is_said(message), i);
}

/// One more message of user or agent is one more turn at the end, and any other message changes
/// nothing.
pub proof fn law_messages_are_shown_in_order(history: Seq<MessageView>, message: MessageView)
    ensures
        turns_of(history.push(message)) == match message.role {
            ChatRole::User => turns_of(history).push(TurnView::User(message.body)),
            ChatRole::Assistant => turns_of(history).push(TurnView::Assistant(message.body)),
            _ => turns_of(history),
        },
{
    assert(history.push(message).drop_last() =~= history);
}

/// A tool is defined by the schema of its arguments: what the schema says of each argument stays,
/// and only its own name, title and description are taken out.
pub proof fn law_definitions_keep_the_arguments(schema: JsonView, key: Seq<char>)
    ensures
        member(parameters_of(schema), key) == if key == "$schema"@ || key == "title"@ || key
            == "description"@ {
            None
        } else {
            member(schema, key)
        },
        schema is Object ==> parameters_of(schema) is Object,
        member(schema, "description"@) matches Some(JsonView::Text(text)) ==> described(schema) == text,
        !(text_of(member(schema, "description"@)) is Some) ==> described(schema).len() == 0,
        schema_of(Some(schema)) == schema,
        member(schema_of(None), key) is None,
{
}

/// The address of a file of the site is the origin, the directory of the page and the path of the
/// file, one after another as they are.
pub proof fn law_addresses_are_put_together(
    origin: Seq<char>,
    directory: Seq<char>,
    page: Seq<char>,
    path: Seq<char>,
)
    requires
        forall|i: int| 0 <= i < page.len() ==> page[i] != '/',
        path.len() > 0 ==> path[0] != '/',
        directory.len() > 0 ==> directory.last() == '/',
    ensures
        directory.len() > 0 && directory[0] == '/' ==> site_address(path, origin, directory + page)
            == origin + directory + path,
        directory.len() > 0 && directory[0] != '/' ==> site_address(path, origin, directory + page)
            == origin + (seq!['/'] + directory) + path,
        directory.len() == 0 ==> site_address(path, origin, page) == origin + seq!['/'] + path,
    decreases page.len(),
{
    if directory.len() > 0 {
        if page.len() == 0 {
            assert(directory + page =~= directory);
        } else {
            assert((directory + page).drop_last() =~= directory + page.drop_last());
            law_addresses_are_put_together(origin, directory, page.drop_last(), path);
        }
    } else if page.len() > 0 {
        law_addresses_are_put_together(origin, directory, page.drop_last(), path);
    }
}

/// A path is an address of its own exactly where it names the protocol first.
pub proof fn law_absolute_paths_name_the_protocol(rest: Seq<char>, path: Seq<char>)
    ensures
        is_absolute("http://"@ + rest),
        is_absolute("https://"@ + rest),
        is_absolute(path) ==> path == "http://"@ + path.skip(7) || path == "https://"@ + path.skip(8),
{
    reveal_strlit("http://");
    reveal_strlit("https://");
    crate::text_laws::law_beginnings(path, "http://"@, rest);
    crate::text_laws::law_beginnings(path, "https://"@, rest);
}

/// The model that is chosen is called with the agent's own key, the prompt to the letter, and the
/// conversation so far: for each message of user and agent, in order, one turn of the same person
/// with the same text. The skills are told behind the preamble, and every tool is offered.
pub proof fn law_plans_say_what_was_said(
    agent: WalletAgent,
    skills_ctx: Option<String>,
    history: Vec<ChatMessage>,
    prompt: &str,
    model: &str,
    plan: AgentPlan,
    i: int,
)
    requires
        call_ensures(WalletAgent::respond, (&agent, skills_ctx, &history, prompt, model), plan),
    ensures
        plan.api_key@ == agent.api_key(),
        plan.prompt@ == prompt@,
        plan.model@ == model@,
        plan.base_url@ == API_BASE@,
        plan.max_turns == 10,
        begins_with(plan.preamble@, PREAMBLE@),
        skills_ctx matches Some(told) ==> told@.is_suffix_of(plan.preamble@),
        plan.tools@ == all_tools(),
        plan.history@.len() == said_in(history@).len(),
        0 <= i < plan.history@.len() ==> match plan.history@[i] {
            Turn::User(body) => said_in(history@)[i].role is User && body@ == said_in(
                history@,
            )[i].body@,
            Turn::Assistant(body) => said_in(history@)[i].role is Assistant && body@ == said_in(
                history@,
            )[i].body@,
        },
{
    lemma_turns_are_said(history@);
    assert(turn_views(plan.history@).len() == plan.history@.len());
    if 0 <= i < plan.history@.len() {
        law_turns_are_of_who_said_them(history@, plan.history@, i);
    }
    let told = match skills_ctx {
        Some(told) => told@,
        None => "[]"@,
    };
    let preamble = plan.preamble@;
    assert(preamble =~= PREAMBLE@ + ("\n\nSkills available: "@ + told));
    crate::text_laws::law_beginnings(preamble, PREAMBLE@, "\n\nSkills available: "@ + told);
    assert(preamble.subrange(preamble.len() - told.len(), preamble.len() as int) =~= told);
}

/// What comes of a prompt are the lines of the tools, in order, then the answer as the agent's, to
/// the letter, and the payment that waits.
pub proof fn law_answers_come_last(log: ToolLog, answer: String, response: AgentResponse, i: int)
    requires
        call_ensures(finish_response, (log, answer), response),
    ensures
        response.messages@.len() == log.outputs@.len() + 1,
        response.messages@.last().role is Assistant,
        response.messages@.last().body@ == answer@,
        0 <= i < log.outputs@.len() ==> response.messages@[i]@ == log.outputs@[i]@,
        log.pending_payment is None ==> response.pending_payment is None,
        log.pending_payment matches Some(proposal) ==> {
            &&& response.pending_payment matches Some(waits)
            &&& waits.payment@ == proposal.payment@
            &&& waits.amount_sats == proposal.amount_sats
            &&& waits.summary@ == proposal.summary@
        },
{
    let all = message_views(response.messages@);
    let lines = message_views(log.outputs@);
    assert(all.len() == response.messages@.len());
    assert(lines.len() == log.outputs@.len());
    assert(all[all.len() - 1] == response.messages@[all.len() - 1]@);
    if 0 <= i < log.outputs@.len() {
        assert(all[i] == lines[i]);
        assert(all[i] == response.messages@[i]@);
        assert(lines[i] == log.outputs@[i]@);
    }
}

/// A message is of who it is made for, and says what it is given.
pub proof fn law_messages_are_of_who_they_are_made_for(
    body: String,
    system: ChatMessage,
    user: ChatMessage,
    agent: ChatMessage,
)
    requires
        call_ensures(onboarding_message, (body,), system),
        call_ensures(user_message, (body,), user),
        call_ensures(assistant_message, (body,), agent),
    ensures
        system.role is System && user.role is User && agent.role is Assistant,
        system.body@ == body@ && user.body@ == body@ && agent.body@ == body@,
        system@.role == system.role && system@.body == body@,
{
}

/// The skills that an answer draws on are those that were loaded for it, and otherwise those that
/// the agent was set up with.
pub proof fn law_loaded_skills_are_used(
    key: String,
    known: Vec<SkillSummary>,
    agent: WalletAgent,
    loaded: Result<Vec<SkillSummary>, String>,
    skills: Vec<SkillSummary>,
)
    requires
        call_ensures(WalletAgent::new, (key, known), agent),
        call_ensures(WalletAgent::current_skills, (&agent, loaded), skills),
    ensures
        agent.api_key() == key@,
        loaded matches Ok(loaded) ==> summaries(skills@) == summaries(loaded@),
        loaded is Err ==> summaries(skills@) == summaries(known@),
{
}

/// A file of the site is found from where the page is, and an address of its own is left as it is,
/// wherever the page is.
pub proof fn law_files_are_found(
    path: &str,
    origin: String,
    pathname: String,
    directory: Seq<char>,
    page: Seq<char>,
    url: Result<String, String>,
)
    requires
        call_ensures(asset_url, (path, Ok::<(String, String), String>((origin, pathname))), url),
        forall|i: int| 0 <= i < page.len() ==> page[i] != '/',
        directory.len() > 0 && directory[0] == '/' && directory.last() == '/',
        pathname@ == directory + page,
    ensures
        url is Ok,
        is_absolute(path@) ==> url->Ok_0@ == path@,
        !is_absolute(path@) && path@.len() > 0 && path@[0] != '/' ==> url->Ok_0@ == origin@
            + directory + path@,
{
    if path@.len() > 0 && path@[0] != '/' {
        law_addresses_are_put_together(origin@, directory, page, path@);
    }
}

} // verus!
