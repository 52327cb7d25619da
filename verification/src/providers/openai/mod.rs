//! APIs of the OpenAI kind: chat completions and responses.
use crate::agent::{conversation, prompts};
use crate::json::{self, Json, JsonView};
use crate::model::{MiniPrompt, PermissionPromptSpec, ProviderSpec, ValidatorContextMap};
use crate::providers::attempts::{self, AttemptFailure, Attempts};
use crate::providers::openai::payload::ApiFamily;
use crate::providers::status;
use crate::text;
use vstd::prelude::*;
use vstd::string::StringExecFns;

pub mod payload;
pub mod replies;
pub mod stream;

verus! {

/// The provider's name in complaints.
pub const PROVIDER_LABEL: &'static str = "AI provider";

/// How to reach a model through the chat or the responses API.
#[derive(Debug, Clone)]
pub struct OpenAiProvider {
    pub endpoint: String,
    pub api_key: String,
    pub model: String,
    pub ai_logs: bool,
    pub reasoning_effort: Option<String>,
    pub ollama_compat: bool,
}

/// The name of an API in reports.
pub open spec fn family_note(family: ApiFamily) -> Seq<char> {
    match family {
        ApiFamily::ChatCompletions => "chat-completions"@,
        ApiFamily::Responses => "responses"@,
    }
}

/// What a report says of the effort asked for.
pub open spec fn effort_note(effort: Option<Seq<char>>) -> Seq<char> {
    match text::unless_blank(effort) {
        Some(effort) => ", reasoning_effort="@ + effort,
        None => Seq::empty(),
    }
}

/// The payloads of a request to the API of this family.
pub open spec fn family_payloads(
    provider: OpenAiProvider,
    messages: Seq<JsonView>,
    stream: bool,
) -> Seq<JsonView> {
    match payload::family_of(provider.endpoint@, provider.ollama_compat) {
        ApiFamily::ChatCompletions => payload::chat_payloads(
            provider.model@,
            messages,
            stream,
            text::opt_text(provider.reasoning_effort),
            provider.ollama_compat,
        ),
        ApiFamily::Responses => payload::responses_payloads(
            provider.model@,
            messages,
            stream,
            text::opt_text(provider.reasoning_effort),
        ),
    }
}

impl OpenAiProvider {
    /// Which of the two APIs the endpoint speaks.
    pub fn api_family(&self) -> (r: ApiFamily)
        ensures
            r == payload::family_of(self.endpoint@, self.ollama_compat),
    {
        payload::detect_api_family(&self.endpoint, self.ollama_compat)
    }

    fn effort(&self) -> (r: Option<&str>)
        ensures
            text::opt_str(r) == text::opt_text(self.reasoning_effort),
    {
        match &self.reasoning_effort {
            Some(effort) => Some(effort.as_str()),
            None => None,
        }
    }

    /// What a report says of the provider.
    pub fn provider_spec(&self) -> (r: ProviderSpec)
        ensures
            r.name@ == "openai-compatible"@,
            text::opt_text(r.model) == Some(self.model@),
            r.notes@ == "Endpoint: "@ + self.endpoint@ + " (api="@ + family_note(
                payload::family_of(self.endpoint@, self.ollama_compat),
            ) + ")"@ + effort_note(text::opt_text(self.reasoning_effort)),
    {
        let api_note = match self.api_family() {
            ApiFamily::ChatCompletions => "chat-completions",
            ApiFamily::Responses => "responses",
        };
        let mut notes = "Endpoint: ".to_owned();
        notes.append(&self.endpoint);
        notes.append(" (api=");
        notes.append(api_note);
        notes.append(")");
        let ghost noted = notes@;
        match text::spare_blank(self.effort()) {
            Some(effort) => {
                let note = ", reasoning_effort=".to_owned().concat(effort);
                notes.append(&note);
            },
            None => {
                assert(noted + Seq::<char>::empty() =~= noted);
            },
        }
        ProviderSpec {
            name: "openai-compatible".to_owned(),
            model: Some(self.model.clone()),
            notes,
        }
    }

    /// The messages that open the conversation on a skill: the system prompt and
    /// the user's.
    pub fn opening_messages(
        &self,
        prompt: &MiniPrompt,
        source_references: &[String],
        validator_context: &ValidatorContextMap,
        permission_prompt: &PermissionPromptSpec,
    ) -> (r: Vec<Json>)
        ensures
            json::views_of(r@) == seq![
                conversation::message_view("system"@, prompts::AGENT_SYSTEM_PROMPT@),
                conversation::message_view(
                    "user"@,
                    prompts::initial_prompt(
                        prompt.text@,
                        source_references@,
                        validator_context.validators@,
                        *permission_prompt,
                    ),
                ),
            ],
    {
        let system = conversation::message("system", prompts::build_agent_system_prompt());
        let opening = conversation::message(
            "user",
            &prompts::build_initial_user_prompt(
                prompt,
                source_references,
                validator_context,
                permission_prompt,
            ),
        );
        let mut messages: Vec<Json> = Vec::new();
        json::add_item(&mut messages, system);
        json::add_item(&mut messages, opening);
        assert(json::views_of(messages@) =~= seq![system@, opening@]);
        messages
    }

    /// The payloads of a request.
    fn payloads(&self, messages: &[Json], stream: bool) -> (r: Vec<Json>)
        ensures
            json::views_of(r@) == family_payloads(*self, json::views_of(messages@), stream),
            r@.len() > 0,
    {
        let variants = match self.api_family() {
            ApiFamily::ChatCompletions => payload::build_chat_payload_variants(
                &self.model,
                messages,
                stream,
                self.effort(),
                self.ollama_compat,
            ),
            ApiFamily::Responses => payload::build_responses_payload_variants(
                &self.model,
                messages,
                stream,
                self.effort(),
            ),
        };
        proof {
            json::lemma_views_of(variants@);
            payload::law_the_plain_request_comes_last(
                self.model@,
                json::views_of(messages@),
                stream,
                text::opt_text(self.reasoning_effort),
                self.ollama_compat,
            );
        }
        variants
    }

    /// The attempts at asking for the next reply. It is streamed only where the
    /// terminal shows it.
    pub fn attempts(&self, messages: &[Json]) -> (r: Attempts)
        ensures
            r@ == attempts::first_attempt(
                if self.ai_logs {
                    family_payloads(*self, json::views_of(messages@), true)
                } else {
                    Seq::empty()
                },
                family_payloads(*self, json::views_of(messages@), false),
                "All non-stream model request attempts failed: "@,
            ),
            r@.is_ready(),
    {
        let streaming = if self.ai_logs {
            self.payloads(messages, true)
        } else {
            Vec::new()
        };
        let plain = self.payloads(messages, false);
        Attempts::start(
            streaming,
            plain,
            "All non-stream model request attempts failed: ".to_owned(),
        )
    }
}

/// The failure that a refused streaming request stands for, given how its status
/// is written.
pub open spec fn refusal(named: Seq<char>, body: Seq<char>) -> attempts::AttemptView {
    attempts::plain_failure("Streaming request failed with status "@ + named + ": "@ + body)
}

/// The failure that a refused streaming request stands for, given how its status
/// is written.
pub fn describe_stream_refusal(named: &str, body: &str) -> (r: AttemptFailure)
    ensures
        r@ == refusal(named@, body@),
{
    let mut report = "Streaming request failed with status ".to_owned();
    report.append(named);
    report.append(": ");
    report.append(body);
    AttemptFailure::from(report)
}

/// The failure that a refused streaming request stands for.
pub fn stream_refusal(status: u16, body: &str) -> (r: AttemptFailure)
    requires
        100 <= status <= 999,
    ensures
        r@ == refusal(status::status_text(status), body@),
{
    describe_stream_refusal(&status::render_status(status), body)
}

/// A report names the API that is spoken, and the effort asked for as it stands where
/// one is.
pub proof fn law_reports_name_the_api_and_the_effort(effort: Seq<char>)
    ensures
        family_note(ApiFamily::ChatCompletions) == "chat-completions"@,
        family_note(ApiFamily::Responses) == "responses"@,
        !text::is_blank(effort) ==> effort_note(Some(effort)) == ", reasoning_effort="@ + effort,
        text::is_blank(effort) ==> effort_note(Some(effort)).len() == 0,
        effort_note(None).len() == 0,
{
}

/// The payloads of a request carry the model, the messages and the effort of the
/// provider in the form of the API that its endpoint speaks.
pub proof fn law_payloads_are_those_of_the_api(
    provider: OpenAiProvider,
    messages: Seq<JsonView>,
    stream: bool,
    effort: Option<Seq<char>>,
)
    requires
        effort == text::opt_text(provider.reasoning_effort),
    ensures
        provider.ollama_compat || !text::occurs(provider.endpoint@, "/responses"@)
            ==> family_payloads(provider, messages, stream) == payload::chat_payloads(
            provider.model@,
            messages,
            stream,
            effort,
            provider.ollama_compat,
        ),
        !provider.ollama_compat && text::occurs(provider.endpoint@, "/responses"@)
            ==> family_payloads(provider, messages, stream) == payload::responses_payloads(
            provider.model@,
            messages,
            stream,
            effort,
        ),
{
}

/// The report of a refused request gives the status and ends with what the service
/// said, as it stands; another payload may still work.
pub proof fn law_refusals_report_what_the_service_says(named: Seq<char>, body: Seq<char>)
    ensures
        refusal(named, body).report == "Streaming request failed with status "@ + named + ": "@
            + body,
        text::ends_with(refusal(named, body).report, body),
        refusal(named, body).kind == attempts::FailureKind::NextVariant,
        refusal(named, body).retry_after is None,
{
    let front = "Streaming request failed with status "@ + named + ": "@;
    text::law_parts_are_found_where_they_stand(front, body, body);
}

} // verus!
