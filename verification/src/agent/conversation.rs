//! The loop in which a model reads a project until it answers.
use crate::agent::actions::{self, AgentAction, ActionView, ReadRequest, RequestView};
use crate::agent::{findings, prompts};
use crate::json::{self, Json, JsonView};
use crate::model::{IterationView, SkillIterationResult, TokenUsage, VulnerabilitySkill};
use crate::reads::scope;
use crate::text;
use vstd::prelude::*;
use vstd::string::StringExecFns;

verus! {

/// The steps that a model gets before the user is asked for more.
pub const MAX_AGENT_STEPS: usize = 90;

/// Consecutive unparseable replies tolerated before a skill is abandoned.
pub const MAX_MALFORMED_REPLIES: usize = 3;

/// What a model is told after a reply that cannot be parsed.
pub const MALFORMED_REPLY_NUDGE: &'static str = "Your last message was not valid JSON. \
Reply with exactly one JSON object and nothing else - no prose, no code fences, \
no commentary. Use one of the documented actions (read_file, grep, list_dir, \
find_files, final).";

/// What the loop waits for.
#[derive(Debug)]
pub enum Awaiting {
    /// The model's reply to the messages so far.
    Reply,
    /// The user's word on whether to go on beyond the last step.
    MoreSteps,
    /// What the request gave.
    Output(ReadRequest),
    /// Nothing more: the skill is over.
    Nothing,
}

/// What the loop waits for, as a value.
pub enum AwaitingView {
    Reply,
    MoreSteps,
    Output(RequestView),
    Nothing,
}

impl View for Awaiting {
    type V = AwaitingView;

    open spec fn view(&self) -> AwaitingView {
        match self {
            Awaiting::Reply => AwaitingView::Reply,
            Awaiting::MoreSteps => AwaitingView::MoreSteps,
            Awaiting::Output(request) => AwaitingView::Output(request@),
            Awaiting::Nothing => AwaitingView::Nothing,
        }
    }
}

/// What happened outside the loop.
#[derive(Debug)]
pub enum Event {
    /// The model replied.
    Reply { content: String, usage: TokenUsage },
    /// The model could not be asked.
    RequestFailed(String),
    /// A read request was carried out, or refused with a message.
    Output(Result<String, String>),
    /// The user grants more steps, or none.
    MoreSteps(Option<usize>),
}

/// What happened outside the loop, as a value.
pub enum EventView {
    Reply { content: Seq<char>, usage: TokenUsage },
    RequestFailed(Seq<char>),
    Output(Result<Seq<char>, Seq<char>>),
    MoreSteps(Option<usize>),
}

impl View for Event {
    type V = EventView;

    open spec fn view(&self) -> EventView {
        match self {
            Event::Reply { content, usage } => EventView::Reply { content: content@, usage: *usage },
            Event::RequestFailed(message) => EventView::RequestFailed(message@),
            Event::Output(Ok(output)) => EventView::Output(Ok(output@)),
            Event::Output(Err(message)) => EventView::Output(Err(message@)),
            Event::MoreSteps(additional) => EventView::MoreSteps(*additional),
        }
    }
}

/// Why a skill was abandoned.
#[derive(Debug)]
pub struct LoopFailure {
    pub message: String,
    pub cause: Option<String>,
}

/// Why a skill was abandoned, as a value.
pub struct FailureView {
    pub message: Seq<char>,
    pub cause: Option<Seq<char>>,
}

impl View for LoopFailure {
    type V = FailureView;

    open spec fn view(&self) -> FailureView {
        FailureView { message: self.message@, cause: text::opt_text(self.cause) }
    }
}

/// How a skill ended, or `None` while it goes on.
pub open spec fn outcome_view(outcome: Option<Result<SkillIterationResult, LoopFailure>>) -> Option<
    Result<IterationView, FailureView>,
> {
    match outcome {
        None => None,
        Some(Ok(result)) => Some(Ok(result@)),
        Some(Err(failure)) => Some(Err(failure@)),
    }
}

/// The state of the loop.
#[derive(Debug)]
pub struct AgentLoop {
    max_steps: usize,
    step: usize,
    usage: TokenUsage,
    malformed_replies: usize,
    messages: Vec<Json>,
    awaiting: Awaiting,
}

/// The state of the loop, as a value.
pub struct LoopView {
    pub max_steps: usize,
    pub step: usize,
    pub usage: TokenUsage,
    pub malformed_replies: usize,
    pub messages: Seq<JsonView>,
    pub awaiting: AwaitingView,
}

impl View for AgentLoop {
    type V = LoopView;

    closed spec fn view(&self) -> LoopView {
        LoopView {
            max_steps: self.max_steps,
            step: self.step,
            usage: self.usage,
            malformed_replies: self.malformed_replies,
            messages: json::views_of(self.messages@),
            awaiting: self.awaiting@,
        }
    }
}

/// A message of a conversation.
pub open spec fn message_view(role: Seq<char>, content: Seq<char>) -> JsonView {
    JsonView::object().with("role"@, JsonView::Text(role)).with(
        "content"@,
        JsonView::Text(content),
    )
}

/// A message of a conversation.
pub fn message(role: &str, content: &str) -> (r: Json)
    ensures
        r@ == message_view(role@, content@),
{
    Json::object().with("role", Json::text(role)).with("content", Json::text(content))
}

/// The sum, held at the largest `usize`.
pub open spec fn capped_sum(a: usize, b: usize) -> usize {
    if a + b > usize::MAX {
        usize::MAX
    } else {
        (a + b) as usize
    }
}

/// What the loop waits for between two steps.
pub open spec fn between_steps(step: usize, max_steps: usize) -> AwaitingView {
    if step >= max_steps {
        AwaitingView::MoreSteps
    } else {
        AwaitingView::Reply
    }
}

/// The state before the first step.
pub open spec fn started(messages: Seq<JsonView>) -> LoopView {
    LoopView {
        max_steps: MAX_AGENT_STEPS,
        step: 0,
        usage: TokenUsage::nothing(),
        malformed_replies: 0,
        messages,
        awaiting: AwaitingView::Reply,
    }
}

/// The complaint about a model that ran out of steps.
pub open spec fn out_of_steps_message(
    label: Seq<char>,
    max_steps: usize,
    skill_id: Seq<char>,
) -> Seq<char> {
    label + " exceeded max interactive read steps ("@ + text::decimal(max_steps as nat)
        + ") for skill '"@ + skill_id + "' (enable --ai-logs to inspect progress)"@
}

/// The complaint about a model that does not find back to the format.
pub open spec fn unparseable_message(
    label: Seq<char>,
    replies: usize,
    skill_id: Seq<char>,
) -> Seq<char> {
    label + " returned "@ + text::decimal(replies as nat)
        + " unparseable replies in a row for skill '"@ + skill_id + "'"@
}

impl LoopView {
    /// The state with one more message.
    pub open spec fn said(self, role: Seq<char>, content: Seq<char>) -> LoopView {
        LoopView { messages: self.messages.push(message_view(role, content)), ..self }
    }

    /// The state after one more step.
    pub open spec fn stepped(self) -> LoopView {
        let step = capped_sum(self.step, 1);
        LoopView { step, awaiting: between_steps(step, self.max_steps), ..self }
    }

    /// The state after the end.
    pub open spec fn ended(self) -> LoopView {
        LoopView { awaiting: AwaitingView::Nothing, ..self }
    }
}

/// What a reply makes of the state, and how the skill ends with it.
pub open spec fn after_reply(
    state: LoopView,
    skill: VulnerabilitySkill,
    label: Seq<char>,
    content: Seq<char>,
    usage: TokenUsage,
) -> (LoopView, Option<Result<IterationView, FailureView>>) {
    let heard = LoopView { usage: state.usage.plus(usage), ..state }.said("assistant"@, content);
    match actions::action_of(content) {
        Ok(ActionView::Final(parsed)) => {
            let over = LoopView { malformed_replies: 0, ..heard }.ended();
            (
                over,
                Some(
                    Ok(
                        findings::iteration_of(
                            skill.id@,
                            skill.severity@,
                            parsed,
                            over.usage,
                        ),
                    ),
                ),
            )
        },
        Ok(ActionView::ReadRequest(request)) => (
            LoopView { malformed_replies: 0, awaiting: AwaitingView::Output(request), ..heard },
            None,
        ),
        Err(complaint) => {
            let replies = capped_sum(state.malformed_replies, 1);
            let counted = LoopView { malformed_replies: replies, ..heard };
            if replies > MAX_MALFORMED_REPLIES {
                (
                    counted.ended(),
                    Some(
                        Err(
                            FailureView {
                                message: unparseable_message(label, replies, skill.id@),
                                cause: Some(complaint),
                            },
                        ),
                    ),
                )
            } else {
                (counted.said("user"@, MALFORMED_REPLY_NUDGE@).stepped(), None)
            }
        },
    }
}

/// What a model is shown of a request's result.
pub open spec fn shown_output(output: Result<Seq<char>, Seq<char>>) -> Seq<char> {
    match output {
        Ok(output) => output,
        Err(message) => "Request failed: "@ + message,
    }
}

/// What an event makes of the state, and how the skill ends with it. An event
/// that the loop does not wait for changes nothing.
pub open spec fn after_event(
    state: LoopView,
    skill: VulnerabilitySkill,
    label: Seq<char>,
    event: EventView,
) -> (LoopView, Option<Result<IterationView, FailureView>>) {
    match (state.awaiting, event) {
        (AwaitingView::Reply, EventView::Reply { content, usage }) => after_reply(
            state,
            skill,
            label,
            content,
            usage,
        ),
        (AwaitingView::Reply, EventView::RequestFailed(message)) => (
            state.ended(),
            Some(Err(FailureView { message, cause: None })),
        ),
        (AwaitingView::Output(request), EventView::Output(output)) => (
            state.said(
                "user"@,
                prompts::tool_result_prompt(request, shown_output(output)),
            ).stepped(),
            None,
        ),
        (AwaitingView::MoreSteps, EventView::MoreSteps(Some(additional))) => {
            let max_steps = capped_sum(state.max_steps, additional);
            (
                LoopView {
                    max_steps,
                    awaiting: between_steps(state.step, max_steps),
                    ..state
                },
                None,
            )
        },
        (AwaitingView::MoreSteps, EventView::MoreSteps(None)) => (
            state.ended(),
            Some(
                Err(
                    FailureView {
                        message: out_of_steps_message(label, state.max_steps, skill.id@),
                        cause: None,
                    },
                ),
            ),
        ),
        _ => (state, None),
    }
}

impl AgentLoop {
    /// The loop before its first step, with the messages that open the
    /// conversation.
    pub fn start(messages: Vec<Json>) -> (r: AgentLoop)
        ensures
            r@ == started(json::views_of(messages@)),
    {
        AgentLoop {
            max_steps: MAX_AGENT_STEPS,
            step: 0,
            usage: TokenUsage::default(),
            malformed_replies: 0,
            messages,
            awaiting: Awaiting::Reply,
        }
    }

    /// What the loop waits for.
    pub fn awaiting(&self) -> (r: &Awaiting)
        ensures
            r@ == self@.awaiting,
    {
        &self.awaiting
    }

    /// The conversation so far.
    pub fn messages(&self) -> (r: &Vec<Json>)
        ensures
            json::views_of(r@) == self@.messages,
    {
        &self.messages
    }

    /// The steps taken.
    pub fn step(&self) -> (r: usize)
        ensures
            r == self@.step,
    {
        self.step
    }

    /// The steps granted.
    pub fn max_steps(&self) -> (r: usize)
        ensures
            r == self@.max_steps,
    {
        self.max_steps
    }

    /// The tokens used.
    pub fn usage(&self) -> (r: TokenUsage)
        ensures
            r == self@.usage,
    {
        self.usage
    }

    /// The replies in a row that could not be parsed.
    pub fn malformed_replies(&self) -> (r: usize)
        ensures
            r == self@.malformed_replies,
    {
        self.malformed_replies
    }

    fn say(&mut self, role: &str, content: &str)
        ensures
            final(self)@ == old(self)@.said(role@, content@),
    {
        json::add_item(&mut self.messages, message(role, content));
    }

    fn finish_step(&mut self)
        ensures
            final(self)@ == old(self)@.stepped(),
    {
        self.step = self.step.saturating_add(1);
        self.awaiting = if self.step >= self.max_steps {
            Awaiting::MoreSteps
        } else {
            Awaiting::Reply
        };
    }

    fn take_reply(
        &mut self,
        skill: &VulnerabilitySkill,
        provider_label: &str,
        content: &str,
        usage: &TokenUsage,
    ) -> (r: Option<Result<SkillIterationResult, LoopFailure>>)
        ensures
            (final(self)@, outcome_view(r)) == after_reply(
                old(self)@,
                *skill,
                provider_label@,
                content@,
                *usage,
            ),
    {
        self.usage.add(usage);
        self.say("assistant", content);
        match actions::parse_agent_action(content) {
            Ok(AgentAction::Final(parsed)) => {
                self.malformed_replies = 0;
                self.awaiting = Awaiting::Nothing;
                Some(Ok(findings::iteration_from_parsed(skill, &parsed, self.usage)))
            },
            Ok(AgentAction::ReadRequest(request)) => {
                self.malformed_replies = 0;
                self.awaiting = Awaiting::Output(request);
                None
            },
            Err(complaint) => {
                self.malformed_replies = self.malformed_replies.saturating_add(1);
                if self.malformed_replies > MAX_MALFORMED_REPLIES {
                    self.awaiting = Awaiting::Nothing;
                    let mut message = provider_label.to_owned();
                    message.append(" returned ");
                    message.append(&text::decimal_text(self.malformed_replies as u64));
                    message.append(" unparseable replies in a row for skill '");
                    message.append(&skill.id);
                    message.append("'");
                    return Some(Err(LoopFailure { message, cause: Some(complaint) }));
                }
                self.say("user", MALFORMED_REPLY_NUDGE);
                self.finish_step();
                None
            },
        }
    }

    /// What the model is told of the request that the loop waits for.
    fn output_prompt(&self, output: &Result<String, String>) -> (r: Option<String>)
        ensures
            match self@.awaiting {
                AwaitingView::Output(request) => r is Some && r->0@ == prompts::tool_result_prompt(
                    request,
                    shown_output(
                        match output {
                            Ok(output) => Ok(output@),
                            Err(message) => Err(message@),
                        },
                    ),
                ),
                _ => r is None,
            },
    {
        match &self.awaiting {
            Awaiting::Output(request) => match output {
                Ok(output) => Some(prompts::build_tool_result_user_prompt(request, output)),
                Err(message) => {
                    let shown = "Request failed: ".to_owned().concat(message);
                    Some(prompts::build_tool_result_user_prompt(request, &shown))
                },
            },
            _ => None,
        }
    }

    /// Takes an event in. The result is how the skill ended, or `None` while it
    /// goes on.
    pub fn advance(
        &mut self,
        skill: &VulnerabilitySkill,
        provider_label: &str,
        event: &Event,
    ) -> (r: Option<Result<SkillIterationResult, LoopFailure>>)
        ensures
            (final(self)@, outcome_view(r)) == after_event(
                old(self)@,
                *skill,
                provider_label@,
                event@,
            ),
    {
        match event {
            Event::Reply { content, usage } => {
                if matches!(self.awaiting, Awaiting::Reply) {
                    return self.take_reply(skill, provider_label, content, usage);
                }
            },
            Event::RequestFailed(message) => {
                if matches!(self.awaiting, Awaiting::Reply) {
                    self.awaiting = Awaiting::Nothing;
                    return Some(Err(LoopFailure { message: message.clone(), cause: None }));
                }
            },
            Event::Output(output) => {
                match self.output_prompt(output) {
                    Some(prompt) => {
                        self.say("user", &prompt);
                        self.finish_step();
                    },
                    None => {},
                }
            },
            Event::MoreSteps(additional) => {
                if matches!(self.awaiting, Awaiting::MoreSteps) {
                    match additional {
                        Some(additional) => {
                            self.max_steps = self.max_steps.saturating_add(*additional);
                            self.awaiting = if self.step >= self.max_steps {
                                Awaiting::MoreSteps
                            } else {
                                Awaiting::Reply
                            };
                        },
                        None => {
                            self.awaiting = Awaiting::Nothing;
                            let mut message = provider_label.to_owned();
                            message.append(" exceeded max interactive read steps (");
                            message.append(&text::decimal_text(self.max_steps as u64));
                            message.append(") for skill '");
                            message.append(&skill.id);
                            message.append("' (enable --ai-logs to inspect progress)");
                            return Some(Err(LoopFailure { message, cause: None }));
                        },
                    }
                }
            },
        }
        None
    }
}

/// The steps that an answer to the question for their number grants: the usual
/// number where it is blank, none where it is no number or zero.
pub open spec fn granted_steps(answer: Seq<char>) -> Option<usize> {
    let wanted = text::trimmed(answer);
    if wanted.len() == 0 {
        Some(MAX_AGENT_STEPS)
    } else {
        match text::number_in(wanted) {
            Some(n) => if 0 < n <= usize::MAX {
                Some(n as usize)
            } else {
                None
            },
            None => None,
        }
    }
}

/// The steps that the user grants, by the answers to whether to go on and for
/// how many steps.
pub fn prompt_for_additional_agent_steps(go_on: &str, count: &str) -> (r: Option<usize>)
    ensures
        r == if scope::is_yes(go_on@) {
            granted_steps(count@)
        } else {
            None
        },
{
    if !scope::is_affirmative(go_on) {
        return None;
    }
    let wanted = text::trim(count);
    if wanted.is_empty() {
        return Some(MAX_AGENT_STEPS);
    }
    match text::parse_usize(wanted) {
        Some(n) => if n == 0 {
            None
        } else {
            Some(n)
        },
        None => None,
    }
}

/// The state after a series of events.
pub open spec fn after_events(
    state: LoopView,
    skill: VulnerabilitySkill,
    label: Seq<char>,
    events: Seq<EventView>,
) -> LoopView
    decreases events.len(),
{
    if events.len() == 0 {
        state
    } else {
        after_event(
            after_events(state, skill, label, events.drop_last()),
            skill,
            label,
            events.last(),
        ).0
    }
}

/// Whether the event is one that the loop waits for in this state.
pub open spec fn is_awaited(state: LoopView, event: EventView) -> bool {
    match (state.awaiting, event) {
        (AwaitingView::Reply, EventView::Reply { .. }) => true,
        (AwaitingView::Reply, EventView::RequestFailed(_)) => true,
        (AwaitingView::Output(_), EventView::Output(_)) => true,
        (AwaitingView::MoreSteps, EventView::MoreSteps(_)) => true,
        _ => false,
    }
}

/// Whether each event of the series is one that the loop then waits for.
pub open spec fn in_turn(
    state: LoopView,
    skill: VulnerabilitySkill,
    label: Seq<char>,
    events: Seq<EventView>,
) -> bool
    decreases events.len(),
{
    events.len() > 0 ==> in_turn(state, skill, label, events.drop_last()) && is_awaited(
        after_events(state, skill, label, events.drop_last()),
        events.last(),
    )
}

/// The usage that the replies among the events report, together.
pub open spec fn reported_usage(events: Seq<EventView>) -> TokenUsage
    decreases events.len(),
{
    if events.len() == 0 {
        TokenUsage::nothing()
    } else {
        let before = reported_usage(events.drop_last());
        match events.last() {
            EventView::Reply { usage, .. } => before.plus(usage),
            _ => before,
        }
    }
}

/// The number of replies among the events.
pub open spec fn reply_count(events: Seq<EventView>) -> nat
    decreases events.len(),
{
    if events.len() == 0 {
        0
    } else {
        reply_count(events.drop_last()) + if events.last() is Reply {
            1nat
        } else {
            0nat
        }
    }
}

/// The number of steps that the events grant beyond the first ones.
pub open spec fn granted(events: Seq<EventView>) -> nat
    decreases events.len(),
{
    if events.len() == 0 {
        0
    } else {
        granted(events.drop_last()) + match events.last() {
            EventView::MoreSteps(Some(additional)) => additional as nat,
            _ => 0,
        }
    }
}

/// Whether the last message is one with this role.
pub open spec fn last_is(messages: Seq<JsonView>, role: Seq<char>) -> bool {
    messages.len() > 0 && json::str_in(messages.last().get("role"@)) == Some(role)
}

/// A skill that goes on has had no more unparseable replies in a row than are
/// tolerated.
pub proof fn law_malformed_replies_are_capped(
    messages: Seq<JsonView>,
    skill: VulnerabilitySkill,
    label: Seq<char>,
    events: Seq<EventView>,
)
    ensures
        after_events(started(messages), skill, label, events).awaiting !is Nothing ==> after_events(
            started(messages),
            skill,
            label,
            events,
        ).malformed_replies <= MAX_MALFORMED_REPLIES,
    decreases events.len(),
{
    if events.len() > 0 {
        law_malformed_replies_are_capped(messages, skill, label, events.drop_last());
    }
}

/// A reply that cannot be parsed is answered with a correction and retried, as
/// long as not too many came in a row.
pub proof fn law_malformed_replies_are_corrected(
    state: LoopView,
    skill: VulnerabilitySkill,
    label: Seq<char>,
    content: Seq<char>,
    usage: TokenUsage,
)
    requires
        state.awaiting is Reply,
        state.malformed_replies < MAX_MALFORMED_REPLIES,
        actions::action_of(content) is Err,
    ensures
        ({
            let (next, outcome) = after_event(
                state,
                skill,
                label,
                EventView::Reply { content, usage },
            );
            &&& outcome is None
            &&& next.awaiting is Reply || next.awaiting is MoreSteps
            &&& next.malformed_replies == state.malformed_replies + 1
            &&& next.messages == state.messages.push(message_view("assistant"@, content)).push(
                message_view("user"@, MALFORMED_REPLY_NUDGE@),
            )
        }),
{
}

/// A reply that can be parsed makes up for those before it that could not.
pub proof fn law_a_good_reply_clears_the_bad_ones(
    state: LoopView,
    skill: VulnerabilitySkill,
    label: Seq<char>,
    content: Seq<char>,
    usage: TokenUsage,
)
    requires
        state.awaiting is Reply,
        actions::action_of(content) is Ok,
    ensures
        after_event(
            state,
            skill,
            label,
            EventView::Reply { content, usage },
        ).0.malformed_replies == 0,
{
}

/// A request that is refused or fails ends nothing: the model is told, and may go
/// on.
pub proof fn law_refused_requests_are_reported(
    state: LoopView,
    skill: VulnerabilitySkill,
    label: Seq<char>,
    request: RequestView,
    message: Seq<char>,
)
    requires
        state.awaiting == AwaitingView::Output(request),
    ensures
        ({
            let (next, outcome) = after_event(
                state,
                skill,
                label,
                EventView::Output(Err(message)),
            );
            &&& outcome is None
            &&& next.awaiting is Reply || next.awaiting is MoreSteps
            &&& next.messages == state.messages.push(
                message_view(
                    "user"@,
                    prompts::tool_result_prompt(request, "Request failed: "@ + message),
                ),
            )
        }),
{
}

/// The usage counted is that of all replies together.
pub proof fn law_usage_is_that_of_all_replies(
    messages: Seq<JsonView>,
    skill: VulnerabilitySkill,
    label: Seq<char>,
    events: Seq<EventView>,
)
    requires
        in_turn(started(messages), skill, label, events),
    ensures
        after_events(started(messages), skill, label, events).usage == reported_usage(events),
    decreases events.len(),
{
    if events.len() > 0 {
        law_usage_is_that_of_all_replies(messages, skill, label, events.drop_last());
    }
}

/// No message is ever changed or taken back.
pub proof fn law_history_is_kept(
    messages: Seq<JsonView>,
    skill: VulnerabilitySkill,
    label: Seq<char>,
    events: Seq<EventView>,
)
    ensures
        messages.is_prefix_of(after_events(started(messages), skill, label, events).messages),
    decreases events.len(),
{
    if events.len() > 0 {
        law_history_is_kept(messages, skill, label, events.drop_last());
    }
}

/// A model is asked only after a user's message: where the conversation opens
/// with one, each reply is followed by one before the next is asked for.
pub proof fn law_replies_and_answers_alternate(
    messages: Seq<JsonView>,
    skill: VulnerabilitySkill,
    label: Seq<char>,
    events: Seq<EventView>,
)
    requires
        last_is(messages, "user"@),
    ensures
        ({
            let state = after_events(started(messages), skill, label, events);
            &&& state.awaiting is Reply || state.awaiting is MoreSteps ==> last_is(
                state.messages,
                "user"@,
            )
            &&& state.awaiting is Output ==> last_is(state.messages, "assistant"@)
        }),
    decreases events.len(),
{
    if events.len() > 0 {
        law_replies_and_answers_alternate(messages, skill, label, events.drop_last());
        reveal_strlit("role");
        reveal_strlit("content");
        assert("role"@.len() != "content"@.len());
    }
}

/// A model gets no more replies than steps: those it starts with and those that
/// the user grants.
pub proof fn law_replies_stay_within_the_steps(
    messages: Seq<JsonView>,
    skill: VulnerabilitySkill,
    label: Seq<char>,
    events: Seq<EventView>,
)
    requires
        in_turn(started(messages), skill, label, events),
    ensures
        reply_count(events) <= MAX_AGENT_STEPS + granted(events),
{
    lemma_replies_are_steps(messages, skill, label, events);
}

proof fn lemma_replies_are_steps(
    messages: Seq<JsonView>,
    skill: VulnerabilitySkill,
    label: Seq<char>,
    events: Seq<EventView>,
)
    requires
        in_turn(started(messages), skill, label, events),
    ensures
        ({
            let state = after_events(started(messages), skill, label, events);
            &&& state.step <= state.max_steps <= MAX_AGENT_STEPS + granted(events)
            &&& state.awaiting is Reply ==> state.step < state.max_steps
            &&& state.awaiting is Output ==> state.step < state.max_steps
            &&& state.awaiting is Output ==> reply_count(events) == state.step + 1
            &&& state.awaiting is Reply || state.awaiting is MoreSteps ==> reply_count(events)
                == state.step
            &&& reply_count(events) <= state.max_steps
        }),
    decreases events.len(),
{
    if events.len() > 0 {
        lemma_replies_are_steps(messages, skill, label, events.drop_last());
    }
}

/// Whether the message has this role and this content.
pub open spec fn is_message(message: JsonView, role: Seq<char>, content: Seq<char>) -> bool {
    message.get("role"@) == Some(JsonView::Text(role)) && message.get("content"@) == Some(
        JsonView::Text(content),
    )
}

proof fn lemma_message(role: Seq<char>, content: Seq<char>)
    ensures
        is_message(message_view(role, content), role, content),
{
    reveal_strlit("role");
    reveal_strlit("content");
    assert("role"@.len() != "content"@.len());
}

/// The output of a request that was carried out goes back to the model whole: one
/// message of the user's is added, the tool result prompt of that request filled with
/// exactly that output, and the output stands in it as one unabridged part.
pub proof fn law_outputs_go_back_whole(
    state: LoopView,
    skill: VulnerabilitySkill,
    label: Seq<char>,
    request: RequestView,
    output: Seq<char>,
)
    requires
        state.awaiting == AwaitingView::Output(request),
    ensures
        ({
            let (next, outcome) = after_event(state, skill, label, EventView::Output(Ok(output)));
            let added = next.messages.last();
            &&& outcome is None
            &&& next.awaiting is Reply || next.awaiting is MoreSteps
            &&& next.messages == state.messages.push(added)
            &&& is_message(added, "user"@, prompts::tool_result_prompt(request, output))
            &&& added.get("content"@) matches Some(JsonView::Text(content)) && text::occurs(
                content,
                output,
            )
        }),
{
    let told = prompts::tool_result_prompt(request, output);
    lemma_message("user"@, told);
    prompts::law_outputs_are_told_whole(request, output);
    let next = after_event(state, skill, label, EventView::Output(Ok(output))).0;
    assert(next.messages.last() == message_view("user"@, told));
}

/// Why a request was refused goes back to the model whole as well.
pub proof fn law_refusals_go_back_whole(
    state: LoopView,
    skill: VulnerabilitySkill,
    label: Seq<char>,
    request: RequestView,
    message: Seq<char>,
)
    requires
        state.awaiting == AwaitingView::Output(request),
    ensures
        ({
            let next = after_event(state, skill, label, EventView::Output(Err(message))).0;
            let added = next.messages.last();
            &&& next.messages == state.messages.push(added)
            &&& added.get("role"@) == Some(JsonView::Text("user"@))
            &&& added.get("content"@) matches Some(JsonView::Text(content)) && text::occurs(
                content,
                "Request failed: "@ + message,
            )
        }),
{
    let said = "Request failed: "@ + message;
    let told = prompts::tool_result_prompt(request, said);
    lemma_message("user"@, told);
    prompts::law_outputs_are_told_whole(request, said);
    let next = after_event(state, skill, label, EventView::Output(Err(message))).0;
    assert(next.messages.last() == message_view("user"@, told));
}

/// A reply becomes part of the conversation as it stands, and its usage is counted,
/// whatever it asks for.
pub proof fn law_replies_are_kept_as_they_stand(
    state: LoopView,
    skill: VulnerabilitySkill,
    label: Seq<char>,
    content: Seq<char>,
    usage: TokenUsage,
)
    requires
        state.awaiting is Reply,
    ensures
        ({
            let next = after_event(state, skill, label, EventView::Reply { content, usage }).0;
            let n = state.messages.len() as int;
            &&& next.messages.len() > n
            &&& next.messages.take(n) == state.messages
            &&& is_message(next.messages[n], "assistant"@, content)
            &&& next.usage == state.usage.plus(usage)
            &&& next.max_steps == state.max_steps
        }),
{
    lemma_message("assistant"@, content);
    let next = after_event(state, skill, label, EventView::Reply { content, usage }).0;
    assert(next.messages.take(state.messages.len() as int) =~= state.messages);
}

/// A reply that asks to read something is followed by that reading, and by nothing
/// else: the very request is awaited, in the same step.
pub proof fn law_requests_are_carried_out(
    state: LoopView,
    skill: VulnerabilitySkill,
    label: Seq<char>,
    content: Seq<char>,
    usage: TokenUsage,
    request: RequestView,
)
    requires
        state.awaiting is Reply,
        actions::action_of(content) == Ok::<ActionView, Seq<char>>(
            ActionView::ReadRequest(request),
        ),
    ensures
        ({
            let (next, outcome) = after_event(
                state,
                skill,
                label,
                EventView::Reply { content, usage },
            );
            &&& outcome is None
            &&& next.awaiting == AwaitingView::Output(request)
            &&& next.messages.len() == state.messages.len() + 1
            &&& next.step == state.step
        }),
{
}

/// A final answer ends the skill with what the answer says of it and with the usage
/// of all replies, this one included.
pub proof fn law_final_answers_end_the_skill(
    state: LoopView,
    skill: VulnerabilitySkill,
    label: Seq<char>,
    content: Seq<char>,
    usage: TokenUsage,
    answer: JsonView,
)
    requires
        state.awaiting is Reply,
        actions::action_of(content) == Ok::<ActionView, Seq<char>>(ActionView::Final(answer)),
    ensures
        ({
            let (next, outcome) = after_event(
                state,
                skill,
                label,
                EventView::Reply { content, usage },
            );
            &&& next.awaiting is Nothing
            &&& outcome == Some(
                Ok::<IterationView, FailureView>(
                    findings::iteration_of(
                        skill.id@,
                        skill.severity@,
                        answer,
                        state.usage.plus(usage),
                    ),
                ),
            )
            &&& outcome->0->Ok_0.skill_id == skill.id@
            &&& outcome->0->Ok_0.token_usage == state.usage.plus(usage)
        }),
{
}

/// A model that could not be asked ends the skill, with the reason as it was given.
pub proof fn law_failed_requests_end_the_skill(
    state: LoopView,
    skill: VulnerabilitySkill,
    label: Seq<char>,
    message: Seq<char>,
)
    requires
        state.awaiting is Reply,
    ensures
        ({
            let (next, outcome) = after_event(
                state,
                skill,
                label,
                EventView::RequestFailed(message),
            );
            &&& next.awaiting is Nothing
            &&& next.messages == state.messages
            &&& outcome matches Some(Err(failure)) && failure.message == message
                && failure.cause is None
        }),
{
}

/// One unparseable reply too many ends the skill: the failure names the provider,
/// the number of replies and the skill, and carries the last complaint.
pub proof fn law_too_many_malformed_replies_end_the_skill(
    state: LoopView,
    skill: VulnerabilitySkill,
    label: Seq<char>,
    content: Seq<char>,
    usage: TokenUsage,
    complaint: Seq<char>,
)
    requires
        state.awaiting is Reply,
        state.malformed_replies == 3,
        actions::action_of(content) == Err::<ActionView, Seq<char>>(complaint),
    ensures
        ({
            let (next, outcome) = after_event(
                state,
                skill,
                label,
                EventView::Reply { content, usage },
            );
            &&& next.awaiting is Nothing
            &&& outcome matches Some(Err(failure)) && failure.cause == Some(complaint)
                && failure.message == label + " returned "@ + text::decimal(4)
                + " unparseable replies in a row for skill '"@ + skill.id@ + "'"@
        }),
{
}

/// Each output and each correction ends a step: the step is counted, and the user is
/// asked for more where it was the last one granted.
pub proof fn law_steps_are_counted(
    state: LoopView,
    skill: VulnerabilitySkill,
    label: Seq<char>,
    event: EventView,
)
    requires
        state.step < state.max_steps,
        match event {
            EventView::Output(_) => state.awaiting is Output,
            EventView::Reply { content, .. } => state.awaiting is Reply
                && state.malformed_replies < 3 && actions::action_of(content) is Err,
            _ => false,
        },
    ensures
        ({
            let next = after_event(state, skill, label, event).0;
            &&& next.step == state.step + 1
            &&& next.max_steps == state.max_steps
            &&& next.awaiting is MoreSteps <==> next.step == next.max_steps
            &&& next.awaiting is Reply <==> next.step < next.max_steps
        }),
{
}

/// The steps that a user grants are added to those granted before, and the model is
/// asked again; a user who grants none ends the skill, with a failure that names the
/// provider, the steps and the skill.
pub proof fn law_users_decide_on_more_steps(
    state: LoopView,
    skill: VulnerabilitySkill,
    label: Seq<char>,
    additional: usize,
)
    requires
        state.awaiting is MoreSteps,
        state.max_steps + additional <= usize::MAX,
    ensures
        ({
            let (next, outcome) = after_event(
                state,
                skill,
                label,
                EventView::MoreSteps(Some(additional)),
            );
            &&& outcome is None
            &&& next.max_steps == state.max_steps + additional
            &&& next.step == state.step
            &&& next.messages == state.messages
            &&& state.step < state.max_steps + additional ==> next.awaiting is Reply
        }),
        ({
            let (next, outcome) = after_event(state, skill, label, EventView::MoreSteps(None));
            &&& next.awaiting is Nothing
            &&& outcome matches Some(Err(failure)) && failure.cause is None && failure.message
                == label + " exceeded max interactive read steps ("@ + text::decimal(
                state.max_steps as nat,
            ) + ") for skill '"@ + skill.id@ + "' (enable --ai-logs to inspect progress)"@
        }),
{
}

/// An event that the loop does not wait for changes nothing; nor does any event once
/// the skill is over.
pub proof fn law_unawaited_events_change_nothing(
    state: LoopView,
    skill: VulnerabilitySkill,
    label: Seq<char>,
    event: EventView,
)
    requires
        !(state.awaiting is Reply && (event is Reply || event is RequestFailed)),
        !(state.awaiting is Output && event is Output),
        !(state.awaiting is MoreSteps && event is MoreSteps),
    ensures
        after_event(state, skill, label, event) == (
            state,
            None::<Result<IterationView, FailureView>>,
        ),
{
}

/// A conversation starts with the messages it is given, with ninety steps and with
/// nothing used, and waits for the model.
pub proof fn law_conversations_start_afresh(messages: Seq<JsonView>)
    ensures
        started(messages).messages == messages,
        started(messages).awaiting is Reply,
        started(messages).step == 0,
        started(messages).max_steps == 90,
        started(messages).malformed_replies == 0,
        started(messages).usage == TokenUsage::nothing(),
{
}

/// The user grants the number of steps that they write, padded or not; ninety where
/// they write nothing; and none where it is no number or zero.
pub proof fn law_users_get_the_steps_they_write(answer: Seq<char>, n: nat)
    requires
        n <= usize::MAX,
    ensures
        text::trimmed(answer) == text::decimal(n) ==> granted_steps(answer) == if n == 0 {
            None::<usize>
        } else {
            Some(n as usize)
        },
        text::trimmed(answer).len() == 0 ==> granted_steps(answer) == Some(90usize),
        text::trimmed(answer).len() > 0 && text::number_in(text::trimmed(answer)) is None
            ==> granted_steps(answer) is None,
{
    text::law_written_numbers_are_read_back(n);
}

/// An output changes nothing but the conversation and the step, and an unparseable
/// reply is counted as one more.
pub proof fn law_outputs_change_nothing_else(
    state: LoopView,
    skill: VulnerabilitySkill,
    label: Seq<char>,
    event: EventView,
)
    ensures
        state.awaiting is Output && event is Output ==> ({
            let next = after_event(state, skill, label, event).0;
            &&& next.malformed_replies == state.malformed_replies
            &&& next.usage == state.usage
            &&& next.max_steps == state.max_steps
        }),
        state.awaiting is Reply && state.malformed_replies < usize::MAX && (
        event matches EventView::Reply { content, .. } && actions::action_of(content) is Err)
            ==> after_event(state, skill, label, event).0.malformed_replies
            == state.malformed_replies + 1,
        state.awaiting is MoreSteps ==> ({
            let next = after_event(state, skill, label, event).0;
            &&& next.malformed_replies == state.malformed_replies
            &&& next.usage == state.usage
            &&& next.step == state.step
            &&& next.messages == state.messages
        }),
{
}

} // verus!
