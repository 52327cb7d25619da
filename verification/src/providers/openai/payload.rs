//! What the chat and responses APIs are sent.
use crate::json::{self, Json, JsonView};
use crate::text;
use crate::wire;
use vstd::prelude::*;

verus! {

/// Which of the two APIs an endpoint speaks.
#[derive(Debug, Clone, Copy, PartialEq, Eq, Structural)]
pub enum ApiFamily {
    ChatCompletions,
    Responses,
}

/// Which of the two APIs an endpoint speaks.
pub open spec fn family_of(endpoint: Seq<char>, ollama_compat: bool) -> ApiFamily {
    if !ollama_compat && text::occurs(endpoint, "/responses"@) {
        ApiFamily::Responses
    } else {
        ApiFamily::ChatCompletions
    }
}

/// Which of the two APIs an endpoint speaks.
pub fn detect_api_family(endpoint: &str, ollama_compat: bool) -> (r: ApiFamily)
    ensures
        r == family_of(endpoint@, ollama_compat),
{
    if ollama_compat {
        return ApiFamily::ChatCompletions;
    }
    if text::contains(endpoint, "/responses") {
        ApiFamily::Responses
    } else {
        ApiFamily::ChatCompletions
    }
}

/// The effort to ask for: the one set, unless it is blank.
pub open spec fn wanted_effort(effort: Option<Seq<char>>) -> Option<Seq<char>> {
    match effort {
        Some(effort) => if text::trimmed(effort).len() == 0 {
            None
        } else {
            Some(text::trimmed(effort))
        },
        None => None,
    }
}

fn effort_wanted<'a>(effort: Option<&'a str>) -> (r: Option<&'a str>)
    ensures
        text::opt_str(r) == wanted_effort(text::opt_str(effort)),
{
    match effort {
        Some(effort) => {
            let trimmed = text::trim(effort);
            if trimmed.is_empty() {
                None
            } else {
                Some(trimmed)
            }
        },
        None => None,
    }
}

/// The payload of a chat request without any wish as to reasoning.
pub open spec fn chat_base(
    model: Seq<char>,
    messages: Seq<JsonView>,
    stream: bool,
    ollama_compat: bool,
) -> JsonView {
    let base = JsonView::object().with("model"@, JsonView::Text(model)).with(
        "messages"@,
        JsonView::Array(messages),
    ).with(
        "response_format"@,
        JsonView::object().with("type"@, JsonView::Text("json_object"@)),
    );
    if !stream {
        base
    } else if ollama_compat {
        base.with("stream"@, JsonView::Bool(true))
    } else {
        base.with("stream"@, JsonView::Bool(true)).with(
            "stream_options"@,
            JsonView::object().with("include_usage"@, JsonView::Bool(true)),
        )
    }
}

/// The payload that asks the model to think, as Ollama takes it.
pub open spec fn thinking(payload: JsonView) -> JsonView {
    payload.with("think"@, JsonView::Bool(true))
}

/// The payload that asks for an effort by a `reasoning` object.
pub open spec fn with_reasoning(payload: JsonView, effort: Seq<char>) -> JsonView {
    payload.with(
        "reasoning"@,
        JsonView::object().with("effort"@, JsonView::Text(effort)),
    )
}

/// The payload that asks for an effort by a member of its own.
pub open spec fn with_effort(payload: JsonView, effort: Seq<char>) -> JsonView {
    payload.with("reasoning_effort"@, JsonView::Text(effort))
}

/// The payloads to try for a chat request, in order: the wishes that not every
/// service takes come first, the plain request last.
pub open spec fn chat_payloads(
    model: Seq<char>,
    messages: Seq<JsonView>,
    stream: bool,
    effort: Option<Seq<char>>,
    ollama_compat: bool,
) -> Seq<JsonView> {
    let base = chat_base(model, messages, stream, ollama_compat);
    match wanted_effort(effort) {
        None => if ollama_compat {
            seq![thinking(base), base]
        } else {
            seq![base]
        },
        Some(effort) => if ollama_compat {
            seq![
                thinking(with_reasoning(base, effort)),
                thinking(with_effort(base, effort)),
                with_reasoning(base, effort),
                with_effort(base, effort),
                base,
            ]
        } else {
            seq![with_reasoning(base, effort), with_effort(base, effort), base]
        },
    }
}

fn think(payload: &Json) -> (r: Json)
    ensures
        r@ == thinking(payload@),
{
    payload.clone().with("think", Json::Bool(true))
}

/// The payloads to try for a chat request, in order.
pub fn build_chat_payload_variants(
    model: &str,
    messages: &[Json],
    stream: bool,
    reasoning_effort: Option<&str>,
    ollama_compat: bool,
) -> (r: Vec<Json>)
    ensures
        json::views_of(r@) == chat_payloads(
            model@,
            json::views_of(messages@),
            stream,
            text::opt_str(reasoning_effort),
            ollama_compat,
        ),
{
    let mut base = Json::object().with("model", Json::text(model)).with(
        "messages",
        Json::array_of(messages),
    ).with("response_format", Json::object().with("type", Json::text("json_object")));
    if stream {
        base = base.with("stream", Json::Bool(true));
        if !ollama_compat {
            base = base.with(
                "stream_options",
                Json::object().with("include_usage", Json::Bool(true)),
            );
        }
    }
    assert(base@ == chat_base(model@, json::views_of(messages@), stream, ollama_compat));
    let mut variants: Vec<Json> = Vec::new();
    match effort_wanted(reasoning_effort) {
        None => {
            if ollama_compat {
                json::add_item(&mut variants, think(&base));
            }
        },
        Some(effort) => {
            let by_object = base.clone().with(
                "reasoning",
                Json::object().with("effort", Json::text(effort)),
            );
            let by_member = base.clone().with("reasoning_effort", Json::text(effort));
            if ollama_compat {
                json::add_item(&mut variants, think(&by_object));
                json::add_item(&mut variants, think(&by_member));
            }
            json::add_item(&mut variants, by_object);
            json::add_item(&mut variants, by_member);
        },
    }
    json::add_item(&mut variants, base);
    assert(json::views_of(variants@) =~= chat_payloads(
        model@,
        json::views_of(messages@),
        stream,
        text::opt_str(reasoning_effort),
        ollama_compat,
    ));
    variants
}

/// The type of a text block in a message of this role.
pub open spec fn block_kind(role: Seq<char>) -> Seq<char> {
    if text::lowered(role) == text::lowered("assistant"@) {
        "output_text"@
    } else {
        "input_text"@
    }
}

/// The type of a text block in a message of this role.
pub fn text_block_type_for_role(role: &str) -> (r: &'static str)
    ensures
        r@ == block_kind(role@),
{
    if text::same_ignoring_case(role, "assistant") {
        "output_text"
    } else {
        "input_text"
    }
}

/// A block of text of this type.
pub open spec fn typed_block_view(kind: Seq<char>, content: Seq<char>) -> JsonView {
    JsonView::object().with("type"@, JsonView::Text(kind)).with("text"@, JsonView::Text(content))
}

/// A block of text of this type.
pub fn typed_block(kind: &str, content: &str) -> (r: Json)
    ensures
        r@ == typed_block_view(kind@, content@),
{
    Json::object().with("type", Json::text(kind)).with("text", Json::text(content))
}

/// A content block as the responses API takes it: one with a text as that text,
/// any other as it stands.
pub open spec fn normalized_chunk(kind: Seq<char>, chunk: JsonView) -> JsonView {
    match json::str_in(chunk.get("text"@)) {
        Some(content) => typed_block_view(kind, content),
        None => chunk,
    }
}

/// The content of a message as the responses API takes it: an array of blocks.
pub open spec fn normalized_input(role: Seq<char>, content: JsonView) -> JsonView {
    match content {
        JsonView::Text(content) => JsonView::Array(
            seq![typed_block_view(block_kind(role), content)],
        ),
        JsonView::Array(chunks) => JsonView::Array(
            Seq::new(chunks.len(), |i: int| normalized_chunk(block_kind(role), chunks[i])),
        ),
        _ => JsonView::Array(seq![typed_block_view(block_kind(role), wire::json_text(content))]),
    }
}

/// The content of a message as the responses API takes it.
pub fn normalize_responses_input_content(role: &str, content: &Json) -> (r: Json)
    ensures
        r@ == normalized_input(role@, content@),
{
    let kind = text_block_type_for_role(role);
    match content {
        Json::Text(s) => {
            return Json::single(typed_block(kind, s));
        },
        Json::Array(chunks) => {
            let ghost all = Seq::new(
                chunks@.len(),
                |i: int| normalized_chunk(kind@, json::views_of(chunks@)[i]),
            );
            proof {
                json::lemma_views_of(chunks@);
            }
            let mut blocks: Vec<Json> = Vec::new();
            let mut i: usize = 0;
            while i < chunks.len()
                invariant
                    i <= chunks.len(),
                    all.len() == chunks.len(),
                    forall|j: int|
                        0 <= j < chunks.len() ==> all[j] == normalized_chunk(
                            kind@,
                            json::view_of(#[trigger] chunks@[j]),
                        ),
                    json::views_of(blocks@) == all.take(i as int),
                decreases chunks.len() - i,
            {
                let block = match chunks[i].get_str("text") {
                    Some(s) => typed_block(kind, s),
                    None => chunks[i].clone(),
                };
                proof {
                    json::lemma_views_of_push(blocks@, block);
                    assert(all.take(i + 1) =~= all.take(i as int).push(all[i as int]));
                }
                blocks.push(block);
                i += 1;
            }
            assert(all.take(i as int) =~= all);
            return Json::Array(blocks);
        },
        _ => {},
    }
    Json::single(typed_block(kind, &wire::render(content)))
}

/// A message as the responses API takes it.
pub open spec fn input_message(message: JsonView) -> JsonView {
    let role = text::or_text(json::str_in(message.get("role"@)), "user"@);
    let content = match message.get("content"@) {
        Some(content) => content,
        None => JsonView::Null,
    };
    JsonView::object().with("role"@, JsonView::Text(role)).with(
        "content"@,
        normalized_input(role, content),
    )
}

fn to_input_message(message: &Json) -> (r: Json)
    ensures
        r@ == input_message(message@),
{
    let role = text::or_other(message.get_str("role"), "user");
    let content = match message.get("content") {
        Some(content) => normalize_responses_input_content(role, content),
        None => normalize_responses_input_content(role, &Json::Null),
    };
    Json::object().with("role", Json::text(role)).with("content", content)
}

/// The messages as the responses API takes them.
pub open spec fn input_messages(messages: Seq<JsonView>) -> Seq<JsonView> {
    Seq::new(messages.len(), |i: int| input_message(messages[i]))
}

/// The messages as the responses API takes them.
pub fn messages_to_responses_input(messages: &[Json]) -> (r: Vec<Json>)
    ensures
        json::views_of(r@) == input_messages(json::views_of(messages@)),
{
    let ghost all = input_messages(json::views_of(messages@));
    proof {
        json::lemma_views_of(messages@);
    }
    let mut input: Vec<Json> = Vec::new();
    let mut i: usize = 0;
    while i < messages.len()
        invariant
            i <= messages.len(),
            all.len() == messages.len(),
            forall|j: int|
                0 <= j < messages.len() ==> all[j] == input_message(
                    json::view_of(#[trigger] messages@[j]),
                ),
            json::views_of(input@) == all.take(i as int),
        decreases messages.len() - i,
    {
        let message = to_input_message(&messages[i]);
        proof {
            json::lemma_views_of_push(input@, message);
            assert(all.take(i + 1) =~= all.take(i as int).push(all[i as int]));
        }
        input.push(message);
        i += 1;
    }
    assert(all.take(i as int) =~= all);
    input
}

/// The payload of a responses request without any wish as to reasoning.
pub open spec fn responses_base(
    model: Seq<char>,
    messages: Seq<JsonView>,
    stream: bool,
) -> JsonView {
    let base = JsonView::object().with("model"@, JsonView::Text(model)).with(
        "input"@,
        JsonView::Array(input_messages(messages)),
    ).with(
        "text"@,
        JsonView::object().with(
            "format"@,
            JsonView::object().with("type"@, JsonView::Text("json_object"@)),
        ),
    );
    if stream {
        base.with("stream"@, JsonView::Bool(true))
    } else {
        base
    }
}

/// The payload that asks for an effort and for a summary of the reasoning.
pub open spec fn with_summary(payload: JsonView, effort: Seq<char>) -> JsonView {
    payload.with(
        "reasoning"@,
        JsonView::object().with("effort"@, JsonView::Text(effort)).with(
            "summary"@,
            JsonView::Text("auto"@),
        ),
    )
}

/// The payloads to try for a responses request, in order.
pub open spec fn responses_payloads(
    model: Seq<char>,
    messages: Seq<JsonView>,
    stream: bool,
    effort: Option<Seq<char>>,
) -> Seq<JsonView> {
    let base = responses_base(model, messages, stream);
    match wanted_effort(effort) {
        None => seq![base],
        Some(effort) => seq![with_summary(base, effort), with_reasoning(base, effort), base],
    }
}

/// The payloads to try for a responses request, in order.
pub fn build_responses_payload_variants(
    model: &str,
    messages: &[Json],
    stream: bool,
    reasoning_effort: Option<&str>,
) -> (r: Vec<Json>)
    ensures
        json::views_of(r@) == responses_payloads(
            model@,
            json::views_of(messages@),
            stream,
            text::opt_str(reasoning_effort),
        ),
{
    let input = messages_to_responses_input(messages);
    let mut base = Json::object().with("model", Json::text(model)).with(
        "input",
        Json::Array(input),
    ).with(
        "text",
        Json::object().with("format", Json::object().with("type", Json::text("json_object"))),
    );
    if stream {
        base = base.with("stream", Json::Bool(true));
    }
    assert(base@ == responses_base(model@, json::views_of(messages@), stream));
    let mut variants: Vec<Json> = Vec::new();
    match effort_wanted(reasoning_effort) {
        None => {},
        Some(effort) => {
            json::add_item(
                &mut variants,
                base.clone().with(
                    "reasoning",
                    Json::object().with("effort", Json::text(effort)).with(
                        "summary",
                        Json::text("auto"),
                    ),
                ),
            );
            json::add_item(
                &mut variants,
                base.clone().with("reasoning", Json::object().with("effort", Json::text(effort))),
            );
        },
    }
    json::add_item(&mut variants, base);
    assert(json::views_of(variants@) =~= responses_payloads(
        model@,
        json::views_of(messages@),
        stream,
        text::opt_str(reasoning_effort),
    ));
    variants
}

proof fn lemma_payload_keys()
    ensures
        "model"@ != "think"@,
        "model"@ != "reasoning"@,
        "model"@ != "reasoning_effort"@,
        "model"@ != "messages"@,
        "model"@ != "input"@,
        "model"@ != "text"@,
        "model"@ != "response_format"@,
        "model"@ != "stream"@,
        "model"@ != "stream_options"@,
        "messages"@ != "think"@,
        "messages"@ != "reasoning"@,
        "messages"@ != "reasoning_effort"@,
        "messages"@ != "response_format"@,
        "messages"@ != "stream"@,
        "messages"@ != "stream_options"@,
        "input"@ != "text"@,
        "input"@ != "reasoning"@,
        "input"@ != "stream"@,
        "stream"@ != "think"@,
        "stream"@ != "text"@,
        "stream"@ != "reasoning"@,
        "stream"@ != "reasoning_effort"@,
        "stream"@ != "response_format"@,
        "stream"@ != "stream_options"@,
        "stream_options"@ != "think"@,
        "stream_options"@ != "reasoning"@,
        "stream_options"@ != "reasoning_effort"@,
        "stream_options"@ != "response_format"@,
        "think"@ != "reasoning"@,
        "think"@ != "reasoning_effort"@,
        "think"@ != "response_format"@,
{
    reveal_strlit("model");
    reveal_strlit("think");
    reveal_strlit("reasoning");
    reveal_strlit("reasoning_effort");
    reveal_strlit("messages");
    reveal_strlit("input");
    reveal_strlit("text");
    reveal_strlit("response_format");
    reveal_strlit("stream");
    reveal_strlit("stream_options");
    assert("model"@[0] != "think"@[0] && "model"@[0] != "input"@[0]);
    assert("model"@.len() == 5 && "think"@.len() == 5 && "input"@.len() == 5);
    assert("text"@.len() == 4 && "stream"@.len() == 6 && "messages"@.len() == 8);
    assert("reasoning"@.len() == 9 && "stream_options"@.len() == 14);
    assert("response_format"@.len() == 15 && "reasoning_effort"@.len() == 16);
}

/// Every chat payload carries the model, the messages and whether to stream. The
/// usage is asked for only where it is streamed, and of no Ollama service, which
/// alone is asked to think.
pub proof fn law_chat_payloads_carry_the_request(
    model: Seq<char>,
    messages: Seq<JsonView>,
    stream: bool,
    effort: Option<Seq<char>>,
    ollama_compat: bool,
)
    ensures
        forall|i: int|
            0 <= i < chat_payloads(model, messages, stream, effort, ollama_compat).len() ==> ({
                let payload = #[trigger] chat_payloads(
                    model,
                    messages,
                    stream,
                    effort,
                    ollama_compat,
                )[i];
                &&& payload.get("model"@) == Some(JsonView::Text(model))
                &&& payload.get("messages"@) == Some(JsonView::Array(messages))
                &&& payload.get("stream"@) == if stream {
                    Some(JsonView::Bool(true))
                } else {
                    None
                }
                &&& payload.get("stream_options"@) is Some <==> stream && !ollama_compat
                &&& payload.get("think"@) is Some ==> ollama_compat
            }),
{
    lemma_payload_keys();
}

/// Every responses payload carries the model, the messages and whether to stream.
pub proof fn law_responses_payloads_carry_the_request(
    model: Seq<char>,
    messages: Seq<JsonView>,
    stream: bool,
    effort: Option<Seq<char>>,
)
    ensures
        forall|i: int|
            0 <= i < responses_payloads(model, messages, stream, effort).len() ==> ({
                let payload = #[trigger] responses_payloads(model, messages, stream, effort)[i];
                &&& payload.get("model"@) == Some(JsonView::Text(model))
                &&& payload.get("input"@) == Some(JsonView::Array(input_messages(messages)))
                &&& payload.get("stream"@) == if stream {
                    Some(JsonView::Bool(true))
                } else {
                    None
                }
            }),
{
    lemma_payload_keys();
}

/// An effort is asked for in every way that some service takes: of a chat by a
/// `reasoning` object first and by `reasoning_effort` next, of an Ollama service
/// with the request to think, and of the responses API with a summary.
pub proof fn law_the_effort_is_asked_for_in_several_ways(
    model: Seq<char>,
    messages: Seq<JsonView>,
    stream: bool,
    effort: Seq<char>,
    ollama_compat: bool,
)
    requires
        text::trimmed(effort).len() > 0,
    ensures
        ({
            let chat = chat_payloads(model, messages, stream, Some(effort), ollama_compat);
            let wanted = Some(text::trimmed(effort));
            &&& json::str_in(json::get_in(chat[0].get("reasoning"@), "effort"@)) == wanted
            &&& json::str_in(chat[1].get("reasoning_effort"@)) == wanted
            &&& chat[0].get("think"@) is Some <==> ollama_compat
        }),
        ({
            let responses = responses_payloads(model, messages, stream, Some(effort));
            let wanted = Some(text::trimmed(effort));
            &&& json::str_in(json::get_in(responses[0].get("reasoning"@), "effort"@)) == wanted
            &&& json::get_in(responses[0].get("reasoning"@), "summary"@) is Some
            &&& json::str_in(json::get_in(responses[1].get("reasoning"@), "effort"@)) == wanted
        }),
{
    lemma_payload_keys();
    reveal_strlit("effort");
    reveal_strlit("summary");
    assert("effort"@.len() != "summary"@.len());
}

/// The last payload to try is the one without any wish as to reasoning, so that a
/// service that knows none of them can still answer.
pub proof fn law_the_plain_request_comes_last(
    model: Seq<char>,
    messages: Seq<JsonView>,
    stream: bool,
    effort: Option<Seq<char>>,
    ollama_compat: bool,
)
    ensures
        1 <= chat_payloads(model, messages, stream, effort, ollama_compat).len() <= 5,
        chat_payloads(model, messages, stream, effort, ollama_compat).last() == chat_base(
            model,
            messages,
            stream,
            ollama_compat,
        ),
        1 <= responses_payloads(model, messages, stream, effort).len() <= 3,
        responses_payloads(model, messages, stream, effort).last() == responses_base(
            model,
            messages,
            stream,
        ),
{
}

/// The messages that a responses payload carries.
pub open spec fn sent_input(payload: JsonView) -> Seq<JsonView> {
    match payload.get("input"@) {
        Some(JsonView::Array(messages)) => messages,
        _ => Seq::empty(),
    }
}

proof fn lemma_message_keys()
    ensures
        "role"@ != "content"@,
        "type"@ != "text"@,
{
    reveal_strlit("role");
    reveal_strlit("content");
    reveal_strlit("type");
    reveal_strlit("text");
    assert("role"@.len() == 4 && "content"@.len() == 7);
    assert("type"@[1] != "text"@[1]);
}

/// Every responses payload carries every message in its place, with its role. Where a
/// message is a text, the message sent has one block, which holds that text, as output
/// where the role is the model's and as input otherwise.
pub proof fn law_responses_payloads_carry_every_text(
    model: Seq<char>,
    messages: Seq<JsonView>,
    stream: bool,
    effort: Option<Seq<char>>,
    p: int,
    i: int,
    role: Seq<char>,
    words: Seq<char>,
)
    requires
        0 <= p < responses_payloads(model, messages, stream, effort).len(),
        0 <= i < messages.len(),
        messages[i].get("role"@) == Some(JsonView::Text(role)),
        messages[i].get("content"@) == Some(JsonView::Text(words)),
    ensures
        ({
            let sent = sent_input(responses_payloads(model, messages, stream, effort)[p]);
            &&& sent.len() == messages.len()
            &&& sent[i].get("role"@) == Some(JsonView::Text(role))
            &&& sent[i].get("content"@) matches Some(JsonView::Array(blocks)) && blocks.len() == 1
                && blocks[0].get("text"@) == Some(JsonView::Text(words)) && blocks[0].get("type"@)
                == Some(
                JsonView::Text(
                    if text::lowered(role) == "assistant"@ {
                        "output_text"@
                    } else {
                        "input_text"@
                    },
                ),
            )
        }),
{
    law_responses_payloads_carry_the_request(model, messages, stream, effort);
    lemma_message_keys();
    reveal_strlit("assistant");
    reveal_with_fuel(text::is_small_from, 11);
    text::lemma_small_text_stays("assistant"@);
    assert(input_messages(messages)[i] == input_message(messages[i]));
}

/// A message without a role is the user's, and a row of blocks is sent as one, in
/// order: a block with a text as that text, any other as it stands.
pub proof fn law_responses_input_keeps_every_block(
    message: JsonView,
    chunks: Seq<JsonView>,
    k: int,
    words: Seq<char>,
)
    requires
        message.get("role"@) is None,
        message.get("content"@) == Some(JsonView::Array(chunks)),
        0 <= k < chunks.len(),
    ensures
        input_message(message).get("role"@) == Some(JsonView::Text("user"@)),
        input_message(message).get("content"@) matches Some(JsonView::Array(blocks)) && blocks.len()
            == chunks.len() && (chunks[k].get("text"@) == Some(JsonView::Text(words))
            ==> blocks[k].get("text"@) == Some(JsonView::Text(words))) && (!(chunks[k].get(
            "text"@,
        ) matches Some(JsonView::Text(_))) ==> blocks[k] == chunks[k]),
{
    lemma_message_keys();
}

/// Every payload asks for an answer in JSON.
pub proof fn law_payloads_ask_for_json(
    model: Seq<char>,
    messages: Seq<JsonView>,
    stream: bool,
    effort: Option<Seq<char>>,
    ollama_compat: bool,
    p: int,
)
    ensures
        0 <= p < chat_payloads(model, messages, stream, effort, ollama_compat).len() ==> (
        chat_payloads(model, messages, stream, effort, ollama_compat)[p].get(
            "response_format"@,
        ) matches Some(format) && format.get("type"@) == Some(JsonView::Text("json_object"@))),
        0 <= p < responses_payloads(model, messages, stream, effort).len() ==> (responses_payloads(
            model,
            messages,
            stream,
            effort,
        )[p].get("text"@) matches Some(form) && (form.get("format"@) matches Some(format)
            && format.get("type"@) == Some(JsonView::Text("json_object"@)))),
{
    lemma_payload_keys();
    reveal_strlit("response_format");
    reveal_strlit("text");
    reveal_strlit("reasoning");
    reveal_strlit("reasoning_effort");
    assert("response_format"@.len() == 15 && "text"@.len() == 4);
    assert("reasoning"@.len() == 9 && "reasoning_effort"@.len() == 16);
}

/// A payload without any wish as to reasoning holds nothing of it, and the last one
/// tried is such a payload; without an effort set, no payload asks for one.
pub proof fn law_the_last_payload_wishes_for_nothing(
    model: Seq<char>,
    messages: Seq<JsonView>,
    stream: bool,
    effort: Option<Seq<char>>,
    ollama_compat: bool,
)
    ensures
        ({
            let chat = chat_payloads(model, messages, stream, effort, ollama_compat);
            let last = chat.last();
            &&& last.get("reasoning"@) is None
            &&& last.get("reasoning_effort"@) is None
            &&& last.get("think"@) is None
            &&& chat.len() == if effort is None || text::is_blank(effort->0) {
                if ollama_compat {
                    2nat
                } else {
                    1nat
                }
            } else {
                if ollama_compat {
                    5nat
                } else {
                    3nat
                }
            }
        }),
        ({
            let responses = responses_payloads(model, messages, stream, effort);
            &&& responses.last().get("reasoning"@) is None
            &&& responses.len() == if effort is None || text::is_blank(effort->0) {
                1nat
            } else {
                3nat
            }
        }),
{
    lemma_payload_keys();
    reveal_strlit("response_format");
    reveal_strlit("text");
    reveal_strlit("reasoning");
    reveal_strlit("reasoning_effort");
    assert("response_format"@.len() == 15 && "text"@.len() == 4);
    assert("reasoning"@.len() == 9 && "reasoning_effort"@.len() == 16);
}

/// An endpoint speaks the responses API where its address names it, unless it is an
/// Ollama service, which speaks chat alone.
pub proof fn law_addresses_tell_the_api(front: Seq<char>, rest: Seq<char>, endpoint: Seq<char>)
    ensures
        family_of(front + "/responses"@ + rest, false) == ApiFamily::Responses,
        family_of(endpoint, true) == ApiFamily::ChatCompletions,
        !text::occurs(endpoint, "/responses"@) ==> family_of(endpoint, false)
            == ApiFamily::ChatCompletions,
{
    let whole = front + "/responses"@ + rest;
    let n = front.len() as int;
    assert(whole.subrange(n, n + "/responses"@.len()) =~= "/responses"@);
    assert(text::is_at(whole, "/responses"@, n));
}

/// The wishes of each chat payload, one by one: a payload asks for the effort in one way
/// only, an Ollama service is asked to think first in both ways and then in neither, and
/// where a reply is streamed the other services are asked for its usage.
pub proof fn law_wishes_are_tried_one_by_one(
    model: Seq<char>,
    messages: Seq<JsonView>,
    effort: Seq<char>,
)
    requires
        !text::is_blank(effort),
    ensures
        ({
            let chat = chat_payloads(model, messages, false, Some(effort), false);
            &&& chat[0].get("reasoning_effort"@) is None
            &&& chat[1].get("reasoning"@) is None
            &&& chat[0].get("think"@) is None && chat[1].get("think"@) is None
        }),
        ({
            let chat = chat_payloads(model, messages, false, Some(effort), true);
            let yes = Some(JsonView::Bool(true));
            &&& chat[0].get("think"@) == yes && chat[1].get("think"@) == yes
            &&& chat[2].get("think"@) is None && chat[3].get("think"@) is None
            &&& chat[0].get("reasoning_effort"@) is None && chat[2].get("reasoning_effort"@) is None
            &&& chat[1].get("reasoning"@) is None && chat[3].get("reasoning"@) is None
            &&& chat[2].get("reasoning"@) == chat[0].get("reasoning"@)
            &&& chat[3].get("reasoning_effort"@) == chat[1].get("reasoning_effort"@)
        }),
        ({
            let chat = chat_payloads(model, messages, false, None, true);
            chat[0].get("think"@) == Some(JsonView::Bool(true)) && chat[0].get("reasoning"@) is None
        }),
        ({
            let chat = chat_payloads(model, messages, true, None, false);
            chat[0].get("stream_options"@) matches Some(options) && options.get("include_usage"@)
                == Some(JsonView::Bool(true))
        }),
        ({
            let responses = responses_payloads(model, messages, false, Some(effort));
            &&& responses[0].get("reasoning"@) matches Some(wish) && wish.get("summary"@) == Some(
                JsonView::Text("auto"@),
            )
            &&& responses[1].get("reasoning"@) matches Some(wish) && wish.get("summary"@) is None
        }),
{
    lemma_payload_keys();
    reveal_strlit("reasoning");
    reveal_strlit("reasoning_effort");
    reveal_strlit("response_format");
    reveal_strlit("effort");
    reveal_strlit("summary");
    reveal_strlit("text");
    reveal_strlit("think");
    assert("reasoning"@.len() == 9 && "reasoning_effort"@.len() == 16);
    assert("response_format"@.len() == 15 && "text"@.len() == 4 && "think"@.len() == 5);
    assert("effort"@.len() == 6 && "summary"@.len() == 7);
}

/// Content that is neither a text nor a row of blocks, or that is missing, is sent as
/// the JSON that it is written as; a text among blocks goes as a block of its role.
pub proof fn law_other_input_is_sent_as_json(
    message: JsonView,
    role: Seq<char>,
    content: JsonView,
    chunks: Seq<JsonView>,
    k: int,
)
    requires
        message.get("role"@) == Some(JsonView::Text(role)),
        content == JsonView::Null && message.get("content"@) is None || message.get("content"@)
            == Some(content),
    ensures
        !(content is Text) && !(content is Array) ==> (input_message(message).get(
            "content"@,
        ) matches Some(JsonView::Array(blocks)) && blocks.len() == 1 && blocks[0].get("text"@)
            == Some(JsonView::Text(wire::json_text(content))) && blocks[0].get("type"@) == Some(
            JsonView::Text(block_kind(role)),
        )),
        content == JsonView::Array(chunks) && 0 <= k < chunks.len() && chunks[k].get("text"@) is Some
            && chunks[k].get("text"@)->0 is Text ==> (input_message(message).get(
            "content"@,
        ) matches Some(JsonView::Array(blocks)) && blocks[k].get("type"@) == Some(
            JsonView::Text(block_kind(role)),
        )),
        text::lowered(role) == "assistant"@ ==> block_kind(role) == "output_text"@,
        text::lowered(role) != "assistant"@ ==> block_kind(role) == "input_text"@,
{
    lemma_message_keys();
    reveal_strlit("assistant");
    reveal_with_fuel(text::is_small_from, 11);
    text::lemma_small_text_stays("assistant"@);
}

} // verus!
