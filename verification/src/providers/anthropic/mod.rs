//! The Anthropic Messages API.
use crate::agent::{conversation, prompts};
use crate::json::{self, Json};
use crate::model::{MiniPrompt, PermissionPromptSpec, ProviderSpec, ValidatorContextMap};
use crate::providers::attempts::{self, Attempts};
use crate::text;
use vstd::prelude::*;
use vstd::string::StringExecFns;

pub mod failures;
pub mod payload;
pub mod replies;
pub mod stream;

verus! {

/// The provider's name in complaints.
pub const PROVIDER_LABEL: &'static str = "Anthropic provider";

/// How to reach a model through the Messages API.
#[derive(Debug, Clone)]
pub struct AnthropicProvider {
    pub endpoint: String,
    pub api_key: String,
    pub model: String,
    pub version: String,
    pub ai_logs: bool,
    pub reasoning_effort: Option<String>,
}

/// What opens the reason for giving up on a request.
pub open spec fn complaint(model: Seq<char>) -> Seq<char> {
    "All non-stream model request attempts failed for model '"@ + model + "': "@
}

impl AnthropicProvider {
    /// What a report says of the provider.
    pub fn provider_spec(&self) -> (r: ProviderSpec)
        ensures
            r.name@ == "anthropic"@,
            text::opt_text(r.model) == Some(self.model@),
            r.notes@ == "Endpoint: "@ + self.endpoint@,
    {
        ProviderSpec {
            name: "anthropic".to_owned(),
            model: Some(self.model.clone()),
            notes: "Endpoint: ".to_owned().concat(&self.endpoint),
        }
    }

    /// The messages that open the conversation on a skill. The system prompt goes
    /// beside them, not among them.
    pub fn opening_messages(
        &self,
        prompt: &MiniPrompt,
        source_references: &[String],
        validator_context: &ValidatorContextMap,
        permission_prompt: &PermissionPromptSpec,
    ) -> (r: Vec<Json>)
        ensures
            json::views_of(r@) == seq![
                conversation::message_view(
                    "user"@,
                    prompts::initial_prompt(
                        prompt.text@,
                        source_references@,
                        validator_context.validators@,
                        *permission_prompt,
                    ),
                ),
            ],
    {
        let opening = conversation::message(
            "user",
            &prompts::build_initial_user_prompt(
                prompt,
                source_references,
                validator_context,
                permission_prompt,
            ),
        );
        let mut messages: Vec<Json> = Vec::new();
        json::add_item(&mut messages, opening);
        assert(json::views_of(messages@) =~= seq![opening@]);
        messages
    }

    /// The attempts at asking for the next reply. Streaming comes first: it is the
    /// only way that the API accepts the ceiling that adaptive thinking needs.
    pub fn attempts(&self, messages: &[Json]) -> (r: Attempts)
        ensures
            r@ == attempts::first_attempt(
                payload::payloads(
                    self.model@,
                    prompts::AGENT_SYSTEM_PROMPT@,
                    json::views_of(messages@),
                    true,
                    text::opt_text(self.reasoning_effort),
                ),
                payload::payloads(
                    self.model@,
                    prompts::AGENT_SYSTEM_PROMPT@,
                    json::views_of(messages@),
                    false,
                    text::opt_text(self.reasoning_effort),
                ),
                complaint(self.model@),
            ),
            r@.is_ready(),
            r@.in_stream,
    {
        let effort = match &self.reasoning_effort {
            Some(effort) => Some(effort.as_str()),
            None => None,
        };
        let system_prompt = prompts::build_agent_system_prompt();
        let streaming = payload::build_anthropic_payload_variants(
            &self.model,
            system_prompt,
            messages,
            true,
            effort,
        );
        let plain = payload::build_anthropic_payload_variants(
            &self.model,
            system_prompt,
            messages,
            false,
            effort,
        );
        proof {
            json::lemma_views_of(streaming@);
            json::lemma_views_of(plain@);
            payload::law_there_is_always_a_payload(
                self.model@,
                prompts::AGENT_SYSTEM_PROMPT@,
                json::views_of(messages@),
                true,
                text::opt_text(self.reasoning_effort),
            );
            payload::law_there_is_always_a_payload(
                self.model@,
                prompts::AGENT_SYSTEM_PROMPT@,
                json::views_of(messages@),
                false,
                text::opt_text(self.reasoning_effort),
            );
        }
        let mut complaint =
            "All non-stream model request attempts failed for model '".to_owned();
        complaint.append(&self.model);
        complaint.append("': ");
        Attempts::start(streaming, plain, complaint)
    }
}

/// The reason for giving up names the model as it is called.
pub proof fn law_complaints_name_the_model(model: Seq<char>)
    ensures
        text::occurs(complaint(model), "'"@ + model + "'"@),
{
    let opening = "All non-stream model request attempts failed for model '"@;
    let closing = "': "@;
    reveal_strlit("All non-stream model request attempts failed for model '");
    reveal_strlit("': ");
    reveal_strlit("'");
    let named = "'"@ + model + "'"@;
    let at = opening.len() - 1;
    assert(opening[at] == '\'');
    assert(complaint(model).subrange(at, at + named.len()) =~= named);
    assert(text::is_at(complaint(model), named, at));
}

} // verus!
