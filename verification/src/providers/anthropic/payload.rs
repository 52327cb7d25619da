//! What the Messages API is sent.
use crate::json::{self, Json, JsonView};
use crate::text;
use crate::wire;
use vstd::prelude::*;

verus! {

/// The token ceiling of a request without a reasoning pass.
pub const DEFAULT_MAX_TOKENS: u64 = 4000;

/// The token ceiling of a request with a fixed reasoning budget.
pub const THINKING_MAX_TOKENS: u64 = 1600;

/// The fixed reasoning budget.
pub const THINKING_BUDGET_TOKENS: u64 = 1024;

/// The token ceiling of a streamed request with adaptive thinking. Thinking
/// tokens count against it and adaptive thinking has no budget of its own, so too
/// small a ceiling leaves nothing for the text after the reasoning pass.
pub const ADAPTIVE_THINKING_MAX_TOKENS: u64 = 64000;

/// The token ceiling of a request with adaptive thinking that is not streamed:
/// the API rejects a larger one without `stream`.
pub const ADAPTIVE_THINKING_NON_STREAM_MAX_TOKENS: u64 = 16000;

/// How a model accepts extended thinking.
///
/// The on-modes are not interchangeable and the wrong one is rejected outright, so
/// the ladder of payloads is built per model family: a fixed budget is rejected on
/// Sonnet 5 and the Opus 5 line, and `adaptive` is rejected before 4.6.
#[derive(Debug, Clone, Copy, PartialEq, Eq, Structural)]
pub enum ThinkingSupport {
    /// Thinking is always on; it can be neither disabled nor budgeted.
    AlwaysAdaptive,
    /// `adaptive` is the only on-mode. Omitting `thinking` still thinks on these,
    /// so the no-thinking fallback has to say `disabled` out loud to mean it.
    AdaptiveOnly,
    /// `adaptive` works, and the legacy fixed budget still works behind it.
    AdaptiveOrLegacy,
    /// Before 4.6: `adaptive` is rejected and a fixed budget is the only on-mode.
    LegacyOnly,
}

/// Whether a release date of eight digits stands in the name at `from`, behind a
/// separator.
pub open spec fn is_dated_at(name: Seq<char>, from: int) -> bool {
    &&& from + 8 < name.len()
    &&& name[from] == '-' || name[from] == '@'
    &&& forall|k: int| from < k <= from + 8 ==> text::is_digit(#[trigger] name[k])
    &&& from + 9 < name.len() ==> !text::is_digit(name[from + 9])
}

/// Whether a number of one digit below six stands in the name at `from`, behind a
/// separator, and the name or the part of it ends there.
pub open spec fn is_low_at(name: Seq<char>, from: int) -> bool {
    &&& from + 1 < name.len()
    &&& name[from] == '-' || name[from] == '.'
    &&& '0' <= name[from + 1] < '6'
    &&& from + 2 < name.len() ==> name[from + 2] == '-' || name[from + 2] == '@' || name[from + 2]
        == ':'
}

/// Whether the version that the name gives at `from` is one before 4.6: a 3, or a 4
/// with which the name ends or behind which a release date or a low number follows.
/// What follows a 4 otherwise leaves the release open.
pub open spec fn is_early_version(name: Seq<char>, from: int) -> bool {
    &&& from < name.len()
    &&& {
        ||| name[from] == '3' && (from + 1 < name.len() ==> !text::is_digit(name[from + 1]))
        ||| name[from] == '4' && (from + 1 == name.len() || is_dated_at(name, from + 1)
            || is_low_at(name, from + 1))
    }
}

/// Whether the name holds, at `i`, this family with an early version behind it.
pub open spec fn is_early_at(name: Seq<char>, family: Seq<char>, i: int) -> bool {
    text::is_at(name, family, i) && is_early_version(name, i + family.len())
}

/// Whether the name is that of a model before 4.6.
pub open spec fn before_4_6(model: Seq<char>) -> bool {
    ||| text::occurs(model, "haiku"@)
    ||| text::occurs(model, "-4-5"@)
    ||| text::occurs(model, "-3-"@)
    ||| exists|i: int| is_early_at(model, "opus-"@, i)
    ||| exists|i: int| is_early_at(model, "sonnet-"@, i)
}

/// How the model of this name accepts extended thinking. A name that is not known
/// gets the ladder that tries everything.
pub open spec fn support_of(model: Seq<char>) -> ThinkingSupport {
    let model = text::lowered(model);
    if text::occurs(model, "fable"@) || text::occurs(model, "mythos"@) {
        ThinkingSupport::AlwaysAdaptive
    } else if text::occurs(model, "opus-5"@) || text::occurs(model, "sonnet-5"@) || text::occurs(
        model,
        "opus-4-8"@,
    ) || text::occurs(model, "opus-4-7"@) {
        ThinkingSupport::AdaptiveOnly
    } else if text::occurs(model, "opus-4-6"@) || text::occurs(model, "sonnet-4-6"@) {
        ThinkingSupport::AdaptiveOrLegacy
    } else if before_4_6(model) {
        ThinkingSupport::LegacyOnly
    } else {
        ThinkingSupport::AdaptiveOrLegacy
    }
}

fn reads_as_date(chars: &Vec<char>, from: usize) -> (r: bool)
    requires
        from <= chars.len(),
    ensures
        r == is_dated_at(chars@, from as int),
{
    let left = chars.len() - from;
    if left < 9 || (chars[from] != '-' && chars[from] != '@') {
        return false;
    }
    let mut k: usize = 1;
    while k <= 8
        invariant
            1 <= k <= 9,
            from + 9 <= chars.len(),
            forall|j: int| from < j < from + k ==> text::is_digit(#[trigger] chars@[j]),
        decreases 9 - k,
    {
        if !text::reads_as_digit(chars[from + k]) {
            assert(!text::is_digit(chars@[from + k]));
            return false;
        }
        k += 1;
    }
    left == 9 || !text::reads_as_digit(chars[from + 9])
}

fn reads_as_low_number(chars: &Vec<char>, from: usize) -> (r: bool)
    requires
        from <= chars.len(),
    ensures
        r == is_low_at(chars@, from as int),
{
    let left = chars.len() - from;
    if left < 2 || (chars[from] != '-' && chars[from] != '.') {
        return false;
    }
    if chars[from + 1] < '0' || chars[from + 1] >= '6' {
        return false;
    }
    left == 2 || chars[from + 2] == '-' || chars[from + 2] == '@' || chars[from + 2] == ':'
}

fn reads_as_early_version(chars: &Vec<char>, from: usize) -> (r: bool)
    requires
        from <= chars.len(),
    ensures
        r == is_early_version(chars@, from as int),
{
    if from == chars.len() {
        return false;
    }
    let ends = from + 1 == chars.len();
    if chars[from] == '3' {
        return ends || !text::reads_as_digit(chars[from + 1]);
    }
    chars[from] == '4' && (ends || reads_as_date(chars, from + 1) || reads_as_low_number(
        chars,
        from + 1,
    ))
}

fn has_early_version(model: &str, family: &str) -> (r: bool)
    requires
        family@.len() > 0,
    ensures
        r == exists|i: int| is_early_at(model@, family@, i),
{
    let chars = text::chars_of(model);
    let wanted = text::chars_of(family);
    let mut i: usize = 0;
    while i < chars.len()
        invariant
            i <= chars.len(),
            chars@ == model@,
            wanted@ == family@,
            forall|k: int| 0 <= k < i ==> !#[trigger] is_early_at(model@, family@, k),
        decreases chars.len() - i,
    {
        if text::found_at(&chars, &wanted, i) && reads_as_early_version(
            &chars,
            i + wanted.len(),
        ) {
            assert(is_early_at(model@, family@, i as int));
            return true;
        }
        i += 1;
    }
    false
}

/// Whether the name, in lower case, is that of a model before 4.6.
pub fn is_before_4_6(model: &str) -> (r: bool)
    ensures
        r == before_4_6(model@),
{
    proof {
        reveal_strlit("opus-");
        reveal_strlit("sonnet-");
    }
    text::contains(model, "haiku") || text::contains(model, "-4-5") || text::contains(model, "-3-")
        || has_early_version(model, "opus-") || has_early_version(model, "sonnet-")
}

/// How the model of this name accepts extended thinking.
pub fn thinking_support(model: &str) -> (r: ThinkingSupport)
    ensures
        r == support_of(model@),
{
    let model = text::lower(model);
    if text::contains(&model, "fable") || text::contains(&model, "mythos") {
        return ThinkingSupport::AlwaysAdaptive;
    }
    if text::contains(&model, "opus-5") || text::contains(&model, "sonnet-5") || text::contains(
        &model,
        "opus-4-8",
    ) || text::contains(&model, "opus-4-7") {
        return ThinkingSupport::AdaptiveOnly;
    }
    if text::contains(&model, "opus-4-6") || text::contains(&model, "sonnet-4-6") {
        return ThinkingSupport::AdaptiveOrLegacy;
    }
    if is_before_4_6(&model) {
        return ThinkingSupport::LegacyOnly;
    }
    ThinkingSupport::AdaptiveOrLegacy
}

/// A block of text.
pub open spec fn text_block_view(content: Seq<char>) -> JsonView {
    JsonView::object().with("type"@, JsonView::Text("text"@)).with(
        "text"@,
        JsonView::Text(content),
    )
}

/// A block of text.
pub fn text_block(content: &str) -> (r: Json)
    ensures
        r@ == text_block_view(content@),
{
    Json::object().with("type", Json::text("text")).with("text", Json::text(content))
}

/// A content block as the API takes it: one that says its type as it stands, any
/// other as text.
pub open spec fn normalized_block(item: JsonView) -> JsonView {
    if json::str_in(item.get("type"@)) is Some {
        item
    } else {
        match json::str_in(item.get("text"@)) {
            Some(content) => text_block_view(content),
            None => text_block_view(wire::json_text(item)),
        }
    }
}

fn normalize_block(item: &Json) -> (r: Json)
    ensures
        r@ == normalized_block(item@),
{
    if item.get_str("type").is_some() {
        return item.clone();
    }
    match item.get_str("text") {
        Some(content) => text_block(content),
        None => text_block(&wire::render(item)),
    }
}

/// The content of a message as the API takes it: an array of blocks.
pub open spec fn normalized_content(content: Option<JsonView>) -> JsonView {
    match content {
        None => JsonView::Array(seq![text_block_view(""@)]),
        Some(JsonView::Text(content)) => JsonView::Array(seq![text_block_view(content)]),
        Some(JsonView::Array(items)) => JsonView::Array(
            Seq::new(items.len(), |i: int| normalized_block(items[i])),
        ),
        Some(content) => JsonView::Array(seq![text_block_view(wire::json_text(content))]),
    }
}

/// The content of a message as the API takes it.
pub fn normalize_anthropic_message_content(content: Option<&Json>) -> (r: Json)
    ensures
        r@ == normalized_content(json::opt_view(content)),
{
    match content {
        None => Json::single(text_block("")),
        Some(content) => {
            match content {
                Json::Text(s) => {
                    return Json::single(text_block(s));
                },
                Json::Array(items) => {
                    let ghost all = Seq::new(
                        items@.len(),
                        |i: int| normalized_block(json::views_of(items@)[i]),
                    );
                    proof {
                        json::lemma_views_of(items@);
                    }
                    let mut blocks: Vec<Json> = Vec::new();
                    let mut i: usize = 0;
                    while i < items.len()
                        invariant
                            i <= items.len(),
                            all.len() == items.len(),
                            forall|j: int|
                                0 <= j < items.len() ==> all[j] == normalized_block(
                                    json::view_of(#[trigger] items@[j]),
                                ),
                            json::views_of(blocks@) == all.take(i as int),
                        decreases items.len() - i,
                    {
                        let block = normalize_block(&items[i]);
                        proof {
                            json::lemma_views_of_push(blocks@, block);
                            assert(all.take(i + 1) =~= all.take(i as int).push(all[i as int]));
                        }
                        blocks.push(block);
                        i += 1;
                    }
                    assert(all.take(i as int) =~= all);
                    return Json::Array(blocks);
                },
                _ => {},
            }
            Json::single(text_block(&wire::render(content)))
        },
    }
}

/// The role of a message as the API takes it: the model's, or the user's.
pub open spec fn normalized_role(message: JsonView) -> Seq<char> {
    match json::str_in(message.get("role"@)) {
        Some(role) => if text::lowered(role) == "assistant"@ {
            "assistant"@
        } else {
            "user"@
        },
        None => "user"@,
    }
}

/// A message as the API takes it.
pub open spec fn normalized_message(message: JsonView) -> JsonView {
    JsonView::object().with("role"@, JsonView::Text(normalized_role(message))).with(
        "content"@,
        normalized_content(message.get("content"@)),
    )
}

/// The messages as the API takes them.
pub open spec fn normalized_messages(messages: Seq<JsonView>) -> Seq<JsonView> {
    Seq::new(messages.len(), |i: int| normalized_message(messages[i]))
}

fn normalize_message(message: &Json) -> (r: Json)
    ensures
        r@ == normalized_message(message@),
{
    proof {
        reveal_strlit("user");
        reveal_strlit("assistant");
    }
    let role = match message.get_str("role") {
        Some(role) => if text::same(&text::lower(role), "assistant") {
            "assistant"
        } else {
            "user"
        },
        None => "user",
    };
    Json::object().with("role", Json::text(role)).with(
        "content",
        normalize_anthropic_message_content(message.get("content")),
    )
}

/// The messages as the API takes them.
pub fn normalize_anthropic_messages(messages: &[Json]) -> (r: Vec<Json>)
    ensures
        json::views_of(r@) == normalized_messages(json::views_of(messages@)),
{
    let ghost all = normalized_messages(json::views_of(messages@));
    proof {
        json::lemma_views_of(messages@);
    }
    let mut normalized: Vec<Json> = Vec::new();
    let mut i: usize = 0;
    while i < messages.len()
        invariant
            i <= messages.len(),
            all.len() == messages.len(),
            forall|j: int|
                0 <= j < messages.len() ==> all[j] == normalized_message(
                    json::view_of(#[trigger] messages@[j]),
                ),
            json::views_of(normalized@) == all.take(i as int),
        decreases messages.len() - i,
    {
        let message = normalize_message(&messages[i]);
        proof {
            json::lemma_views_of_push(normalized@, message);
            assert(all.take(i + 1) =~= all.take(i as int).push(all[i as int]));
        }
        normalized.push(message);
        i += 1;
    }
    assert(all.take(i as int) =~= all);
    normalized
}

/// The mark that ends a cacheable prefix.
pub open spec fn cache_mark() -> JsonView {
    JsonView::object().with("type"@, JsonView::Text("ephemeral"@))
}

/// The message with its last block marked as the end of a cacheable prefix, where
/// that block can carry the mark.
pub open spec fn cacheable(message: JsonView) -> JsonView {
    match json::array_in(message.get("content"@)) {
        Some(blocks) => if blocks.len() > 0 && blocks.last() is Object {
            message.with(
                "content"@,
                JsonView::Array(
                    blocks.drop_last().push(blocks.last().with("cache_control"@, cache_mark())),
                ),
            )
        } else {
            message
        },
        None => message,
    }
}

/// The messages with the first and the last marked as ends of cacheable prefixes.
pub open spec fn with_breakpoints(messages: Seq<JsonView>) -> Seq<JsonView> {
    Seq::new(
        messages.len(),
        |i: int|
            if i == 0 || i == messages.len() - 1 {
                cacheable(messages[i])
            } else {
                messages[i]
            },
    )
}

fn mark_cacheable(message: &Json) -> (r: Json)
    ensures
        r@ == cacheable(message@),
{
    match message.get("content") {
        Some(Json::Array(blocks)) => {
            proof {
                json::lemma_views_of(blocks@);
            }
            if blocks.len() == 0 {
                return message.clone();
            }
            let last = blocks.len() - 1;
            match &blocks[last] {
                Json::Object(_) => {},
                _ => {
                    return message.clone();
                },
            }
            let marked = blocks[last].clone().with(
                "cache_control",
                Json::object().with("type", Json::text("ephemeral")),
            );
            let mut copy: Vec<Json> = Vec::new();
            let mut i: usize = 0;
            while i < last
                invariant
                    i <= last < blocks.len(),
                    json::views_of(copy@) == json::views_of(blocks@).take(i as int),
                decreases last - i,
            {
                let block = blocks[i].clone();
                proof {
                    json::lemma_views_of(blocks@);
                    json::lemma_views_of_push(copy@, block);
                    assert(json::views_of(blocks@).take(i + 1) =~= json::views_of(blocks@).take(
                        i as int,
                    ).push(json::views_of(blocks@)[i as int]));
                }
                copy.push(block);
                i += 1;
            }
            proof {
                json::lemma_views_of_push(copy@, marked);
                assert(json::views_of(blocks@).take(last as int) =~= json::views_of(
                    blocks@,
                ).drop_last());
            }
            copy.push(marked);
            message.clone().with("content", Json::Array(copy))
        },
        _ => message.clone(),
    }
}

/// Marks the stable prefix and the rolling tail of the conversation as cacheable.
///
/// The whole conversation is sent again on every step. The mark on the first
/// message covers everything before it, the system prompt included; the mark on
/// the last covers the conversation so far.
pub fn apply_cache_breakpoints(messages: &mut Vec<Json>)
    ensures
        json::views_of(final(messages)@) == with_breakpoints(json::views_of(old(messages)@)),
{
    proof {
        json::lemma_views_of(messages@);
    }
    if messages.len() == 0 {
        assert(json::views_of(messages@) =~= with_breakpoints(json::views_of(messages@)));
        return;
    }
    let last = messages.len() - 1;
    let first = mark_cacheable(&messages[0]);
    messages.set(0, first);
    proof {
        json::lemma_views_of(messages@);
    }
    if last != 0 {
        let tail = mark_cacheable(&messages[last]);
        messages.set(last, tail);
        proof {
            json::lemma_views_of(messages@);
        }
    }
    assert(json::views_of(messages@) =~= with_breakpoints(json::views_of(old(messages)@)));
}

/// What every payload of a request says.
pub open spec fn base_payload(
    model: Seq<char>,
    system_prompt: Seq<char>,
    messages: Seq<JsonView>,
    stream: bool,
) -> JsonView {
    let base = JsonView::object().with("model"@, JsonView::Text(model)).with(
        "max_tokens"@,
        JsonView::Int(DEFAULT_MAX_TOKENS as int),
    ).with("system"@, JsonView::Text(system_prompt)).with(
        "messages"@,
        JsonView::Array(with_breakpoints(normalized_messages(messages))),
    );
    if stream {
        base.with("stream"@, JsonView::Bool(true))
    } else {
        base
    }
}

/// The payload with adaptive thinking, at a given effort or at the API's own.
pub open spec fn adaptive_payload(
    base: JsonView,
    stream: bool,
    effort: Option<Seq<char>>,
) -> JsonView {
    let thinking = base.with(
        "max_tokens"@,
        JsonView::Int(
            if stream {
                ADAPTIVE_THINKING_MAX_TOKENS as int
            } else {
                ADAPTIVE_THINKING_NON_STREAM_MAX_TOKENS as int
            },
        ),
    ).with(
        "thinking"@,
        JsonView::object().with("type"@, JsonView::Text("adaptive"@)).with(
            "display"@,
            JsonView::Text("summarized"@),
        ),
    );
    match effort {
        Some(effort) => thinking.with(
            "output_config"@,
            JsonView::object().with("effort"@, JsonView::Text(effort)),
        ),
        None => thinking,
    }
}

/// The payload with a fixed reasoning budget.
pub open spec fn legacy_payload(base: JsonView) -> JsonView {
    base.with("max_tokens"@, JsonView::Int(THINKING_MAX_TOKENS as int)).with(
        "thinking"@,
        JsonView::object().with("type"@, JsonView::Text("enabled"@)).with(
            "budget_tokens"@,
            JsonView::Int(THINKING_BUDGET_TOKENS as int),
        ),
    )
}

/// The payload with thinking switched off in words.
pub open spec fn disabled_payload(base: JsonView) -> JsonView {
    base.with("thinking"@, JsonView::object().with("type"@, JsonView::Text("disabled"@)))
}

/// The payloads to try for a request, in order.
pub open spec fn payloads(
    model: Seq<char>,
    system_prompt: Seq<char>,
    messages: Seq<JsonView>,
    stream: bool,
    effort: Option<Seq<char>>,
) -> Seq<JsonView> {
    let base = base_payload(model, system_prompt, messages, stream);
    match support_of(model) {
        ThinkingSupport::AlwaysAdaptive => if effort == Some("low"@) {
            seq![adaptive_payload(base, stream, effort)]
        } else {
            seq![
                adaptive_payload(base, stream, effort),
                adaptive_payload(base, stream, Some("low"@)),
            ]
        },
        ThinkingSupport::AdaptiveOnly => seq![
            adaptive_payload(base, stream, effort),
            disabled_payload(base),
        ],
        ThinkingSupport::AdaptiveOrLegacy => seq![
            adaptive_payload(base, stream, effort),
            legacy_payload(base),
            base,
        ],
        ThinkingSupport::LegacyOnly => seq![legacy_payload(base), base],
    }
}

fn adaptive(base: &Json, stream: bool, effort: Option<&str>) -> (r: Json)
    ensures
        r@ == adaptive_payload(base@, stream, text::opt_str(effort)),
{
    let ceiling: u64 = if stream {
        ADAPTIVE_THINKING_MAX_TOKENS
    } else {
        ADAPTIVE_THINKING_NON_STREAM_MAX_TOKENS
    };
    let payload = base.clone().with("max_tokens", Json::uint(ceiling)).with(
        "thinking",
        Json::object().with("type", Json::text("adaptive")).with(
            "display",
            Json::text("summarized"),
        ),
    );
    match effort {
        Some(effort) => payload.with(
            "output_config",
            Json::object().with("effort", Json::text(effort)),
        ),
        None => payload,
    }
}

fn legacy(base: &Json) -> (r: Json)
    ensures
        r@ == legacy_payload(base@),
{
    base.clone().with("max_tokens", Json::uint(THINKING_MAX_TOKENS)).with(
        "thinking",
        Json::object().with("type", Json::text("enabled")).with(
            "budget_tokens",
            Json::uint(THINKING_BUDGET_TOKENS),
        ),
    )
}

fn disabled(base: &Json) -> (r: Json)
    ensures
        r@ == disabled_payload(base@),
{
    base.clone().with("thinking", Json::object().with("type", Json::text("disabled")))
}

/// The payloads to try for a request, in order.
///
/// The effort only decides whether `output_config.effort` is pinned beside
/// adaptive thinking. The payloads without thinking leave it at the API's default:
/// switching thinking off is accepted only up to that effort.
pub fn build_anthropic_payload_variants(
    model: &str,
    system_prompt: &str,
    messages: &[Json],
    stream: bool,
    reasoning_effort: Option<&str>,
) -> (r: Vec<Json>)
    ensures
        json::views_of(r@) == payloads(
            model@,
            system_prompt@,
            json::views_of(messages@),
            stream,
            text::opt_str(reasoning_effort),
        ),
{
    let mut normalized = normalize_anthropic_messages(messages);
    apply_cache_breakpoints(&mut normalized);
    let mut base = Json::object().with("model", Json::text(model)).with(
        "max_tokens",
        Json::uint(DEFAULT_MAX_TOKENS),
    ).with("system", Json::text(system_prompt)).with("messages", Json::Array(normalized));
    if stream {
        base = base.with("stream", Json::Bool(true));
    }
    assert(base@ == base_payload(model@, system_prompt@, json::views_of(messages@), stream));
    let mut variants: Vec<Json> = Vec::new();
    match thinking_support(model) {
        ThinkingSupport::AlwaysAdaptive => {
            json::add_item(&mut variants, adaptive(&base, stream, reasoning_effort));
            let lowest = match reasoning_effort {
                Some(effort) => text::same(effort, "low"),
                None => false,
            };
            if !lowest {
                json::add_item(&mut variants, adaptive(&base, stream, Some("low")));
            }
        },
        ThinkingSupport::AdaptiveOnly => {
            json::add_item(&mut variants, adaptive(&base, stream, reasoning_effort));
            json::add_item(&mut variants, disabled(&base));
        },
        ThinkingSupport::AdaptiveOrLegacy => {
            json::add_item(&mut variants, adaptive(&base, stream, reasoning_effort));
            json::add_item(&mut variants, legacy(&base));
            json::add_item(&mut variants, base);
        },
        ThinkingSupport::LegacyOnly => {
            json::add_item(&mut variants, legacy(&base));
            json::add_item(&mut variants, base);
        },
    }
    assert(json::views_of(variants@) =~= payloads(
        model@,
        system_prompt@,
        json::views_of(messages@),
        stream,
        text::opt_str(reasoning_effort),
    ));
    variants
}

/// The thinking mode that a payload asks for.
pub open spec fn thinking_mode(payload: JsonView) -> Option<Seq<char>> {
    json::str_in(json::get_in(payload.get("thinking"@), "type"@))
}

/// The reasoning budget that a payload sets.
pub open spec fn thinking_budget(payload: JsonView) -> Option<JsonView> {
    json::get_in(payload.get("thinking"@), "budget_tokens"@)
}

proof fn lemma_payload_keys()
    ensures
        "model"@ != "max_tokens"@,
        "model"@ != "thinking"@,
        "model"@ != "output_config"@,
        "model"@ != "system"@,
        "model"@ != "messages"@,
        "model"@ != "stream"@,
        "max_tokens"@ != "thinking"@,
        "max_tokens"@ != "output_config"@,
        "max_tokens"@ != "system"@,
        "max_tokens"@ != "messages"@,
        "max_tokens"@ != "stream"@,
        "thinking"@ != "output_config"@,
        "thinking"@ != "system"@,
        "thinking"@ != "messages"@,
        "thinking"@ != "stream"@,
        "system"@ != "output_config"@,
        "system"@ != "messages"@,
        "system"@ != "stream"@,
        "messages"@ != "output_config"@,
        "messages"@ != "stream"@,
        "stream"@ != "output_config"@,
        "type"@ != "display"@,
        "type"@ != "budget_tokens"@,
        "display"@ != "budget_tokens"@,
{
    reveal_strlit("model");
    reveal_strlit("max_tokens");
    reveal_strlit("thinking");
    reveal_strlit("output_config");
    reveal_strlit("system");
    reveal_strlit("messages");
    reveal_strlit("stream");
    reveal_strlit("type");
    reveal_strlit("display");
    reveal_strlit("budget_tokens");
    assert("thinking"@[0] != "messages"@[0]);
    assert("system"@[1] != "stream"@[1]);
    assert("model"@.len() == 5 && "system"@.len() == 6 && "stream"@.len() == 6);
    assert("thinking"@.len() == 8 && "messages"@.len() == 8);
    assert("max_tokens"@.len() == 10 && "output_config"@.len() == 13);
    assert("budget_tokens"@.len() == 13);
    assert("type"@.len() == 4 && "display"@.len() == 7);
}

proof fn lemma_modes()
    ensures
        "adaptive"@ != "enabled"@,
        "adaptive"@ != "disabled"@,
        "enabled"@ != "disabled"@,
{
    reveal_strlit("adaptive");
    reveal_strlit("enabled");
    reveal_strlit("disabled");
    assert("adaptive"@[0] != "disabled"@[0]);
}

/// A request is never without a payload to try.
pub proof fn law_there_is_always_a_payload(
    model: Seq<char>,
    system_prompt: Seq<char>,
    messages: Seq<JsonView>,
    stream: bool,
    effort: Option<Seq<char>>,
)
    ensures
        1 <= payloads(model, system_prompt, messages, stream, effort).len() <= 3,
{
}

/// Whatever a payload says of thinking, it says the same of the request: the
/// model, the system prompt, the messages, and whether to stream.
pub proof fn law_payloads_carry_the_request(
    model: Seq<char>,
    system_prompt: Seq<char>,
    messages: Seq<JsonView>,
    stream: bool,
    effort: Option<Seq<char>>,
)
    ensures
        forall|i: int|
            0 <= i < payloads(model, system_prompt, messages, stream, effort).len() ==> ({
                let payload = #[trigger] payloads(
                    model,
                    system_prompt,
                    messages,
                    stream,
                    effort,
                )[i];
                &&& payload.get("model"@) == Some(JsonView::Text(model))
                &&& payload.get("system"@) == Some(JsonView::Text(system_prompt))
                &&& payload.get("messages"@) == Some(
                    JsonView::Array(with_breakpoints(normalized_messages(messages))),
                )
                &&& payload.get("stream"@) == if stream {
                    Some(JsonView::Bool(true))
                } else {
                    None
                }
            }),
{
    lemma_payload_keys();
}

/// A model that rejects a fixed reasoning budget is never sent one.
pub proof fn law_adaptive_models_get_no_budget(
    model: Seq<char>,
    system_prompt: Seq<char>,
    messages: Seq<JsonView>,
    stream: bool,
    effort: Option<Seq<char>>,
)
    requires
        support_of(model) == ThinkingSupport::AdaptiveOnly || support_of(model)
            == ThinkingSupport::AlwaysAdaptive,
    ensures
        forall|i: int|
            0 <= i < payloads(model, system_prompt, messages, stream, effort).len() ==> ({
                let payload = #[trigger] payloads(
                    model,
                    system_prompt,
                    messages,
                    stream,
                    effort,
                )[i];
                thinking_mode(payload) != Some("enabled"@) && thinking_budget(payload) is None
            }),
{
    lemma_payload_keys();
    lemma_modes();
}

/// A model that cannot stop thinking is never asked to, and never left to a
/// default.
pub proof fn law_always_adaptive_models_always_think(
    model: Seq<char>,
    system_prompt: Seq<char>,
    messages: Seq<JsonView>,
    stream: bool,
    effort: Option<Seq<char>>,
)
    requires
        support_of(model) == ThinkingSupport::AlwaysAdaptive,
    ensures
        forall|i: int|
            0 <= i < payloads(model, system_prompt, messages, stream, effort).len()
                ==> thinking_mode(
                #[trigger] payloads(model, system_prompt, messages, stream, effort)[i],
            ) == Some("adaptive"@),
{
    lemma_payload_keys();
}

/// A model that rejects adaptive thinking is never sent it.
pub proof fn law_legacy_models_get_no_adaptive_thinking(
    model: Seq<char>,
    system_prompt: Seq<char>,
    messages: Seq<JsonView>,
    stream: bool,
    effort: Option<Seq<char>>,
)
    requires
        support_of(model) == ThinkingSupport::LegacyOnly,
    ensures
        forall|i: int|
            0 <= i < payloads(model, system_prompt, messages, stream, effort).len()
                ==> thinking_mode(
                #[trigger] payloads(model, system_prompt, messages, stream, effort)[i],
            ) != Some("adaptive"@),
{
    lemma_payload_keys();
    lemma_modes();
}

/// The first payload asks for adaptive thinking at the effort wanted, where the
/// model takes it.
pub proof fn law_the_effort_goes_with_adaptive_thinking(
    model: Seq<char>,
    system_prompt: Seq<char>,
    messages: Seq<JsonView>,
    stream: bool,
    effort: Option<Seq<char>>,
)
    requires
        support_of(model) != ThinkingSupport::LegacyOnly,
    ensures
        ({
            let first = payloads(model, system_prompt, messages, stream, effort)[0];
            &&& thinking_mode(first) == Some("adaptive"@)
            &&& json::str_in(json::get_in(first.get("output_config"@), "effort"@)) == effort
        }),
{
    lemma_payload_keys();
}

/// The last payload is one without thinking, where the model can do without.
pub proof fn law_the_last_resort_does_without_thinking(
    model: Seq<char>,
    system_prompt: Seq<char>,
    messages: Seq<JsonView>,
    stream: bool,
    effort: Option<Seq<char>>,
)
    requires
        support_of(model) != ThinkingSupport::AlwaysAdaptive,
    ensures
        ({
            let last = payloads(model, system_prompt, messages, stream, effort).last();
            &&& thinking_mode(last) is None || thinking_mode(last) == Some("disabled"@)
            &&& last.get("max_tokens"@) == Some(JsonView::Int(DEFAULT_MAX_TOKENS as int))
            &&& last.get("output_config"@) is None
        }),
{
    lemma_payload_keys();
}

/// The larger ceiling goes out only with `stream`: the API rejects it otherwise.
pub proof fn law_large_ceiling_only_when_streaming(
    model: Seq<char>,
    system_prompt: Seq<char>,
    messages: Seq<JsonView>,
    effort: Option<Seq<char>>,
)
    ensures
        forall|i: int|
            0 <= i < payloads(model, system_prompt, messages, false, effort).len() ==> ({
                let ceiling = (#[trigger] payloads(
                    model,
                    system_prompt,
                    messages,
                    false,
                    effort,
                )[i]).get("max_tokens"@);
                ceiling matches Some(JsonView::Int(n)) && n
                    <= ADAPTIVE_THINKING_NON_STREAM_MAX_TOKENS
            }),
{
    lemma_payload_keys();
}

/// Whether the last block of a message carries the cache mark.
pub open spec fn is_marked(message: JsonView) -> bool {
    match json::array_in(message.get("content"@)) {
        Some(blocks) => blocks.len() > 0 && blocks.last().get("cache_control"@) == Some(
            cache_mark(),
        ),
        None => false,
    }
}

/// A conversation of texts is marked as cacheable at its first and its last
/// message and nowhere else.
pub proof fn law_first_and_last_messages_are_cacheable(messages: Seq<JsonView>)
    requires
        forall|i: int|
            0 <= i < messages.len() ==> json::str_in((#[trigger] messages[i]).get("content"@)) is Some,
    ensures
        forall|i: int|
            0 <= i < messages.len() ==> is_marked(
                #[trigger] with_breakpoints(normalized_messages(messages))[i],
            ) == (i == 0 || i == messages.len() - 1),
{
    reveal_strlit("role");
    reveal_strlit("content");
    reveal_strlit("type");
    reveal_strlit("text");
    reveal_strlit("cache_control");
    assert("type"@.len() != "cache_control"@.len());
    let normalized = normalized_messages(messages);
    assert forall|i: int| 0 <= i < messages.len() implies is_marked(
        #[trigger] with_breakpoints(normalized)[i],
    ) == (i == 0 || i == messages.len() - 1) by {
        let content = json::str_in(messages[i].get("content"@))->0;
        assert(normalized[i] == normalized_message(messages[i]));
        let blocks = json::array_in(normalized[i].get("content"@))->0;
        assert(blocks == seq![text_block_view(content)]);
        assert(blocks.last().get("cache_control"@) is None);
    }
}

proof fn lemma_block_keys()
    ensures
        "role"@ != "content"@,
        "type"@ != "text"@,
        "type"@ != "cache_control"@,
        "text"@ != "cache_control"@,
{
    reveal_strlit("role");
    reveal_strlit("content");
    reveal_strlit("type");
    reveal_strlit("text");
    reveal_strlit("cache_control");
    assert("role"@.len() == 4 && "content"@.len() == 7);
    assert("type"@.len() == 4 && "text"@.len() == 4 && "cache_control"@.len() == 13);
    assert("type"@[1] != "text"@[1]);
}

/// The messages that a payload carries.
pub open spec fn sent_messages(payload: JsonView) -> Seq<JsonView> {
    match payload.get("messages"@) {
        Some(JsonView::Array(messages)) => messages,
        _ => Seq::empty(),
    }
}

/// Every payload carries every message in its place. Where a message is a text, the
/// message sent has one block, of type text, which holds that text, whatever the
/// role.
pub proof fn law_payloads_carry_every_text(
    model: Seq<char>,
    system_prompt: Seq<char>,
    messages: Seq<JsonView>,
    stream: bool,
    effort: Option<Seq<char>>,
    p: int,
    i: int,
    words: Seq<char>,
)
    requires
        0 <= p < payloads(model, system_prompt, messages, stream, effort).len(),
        0 <= i < messages.len(),
        messages[i].get("content"@) == Some(JsonView::Text(words)),
    ensures
        ({
            let sent = sent_messages(payloads(model, system_prompt, messages, stream, effort)[p]);
            &&& sent.len() == messages.len()
            &&& sent[i].get("content"@) matches Some(JsonView::Array(blocks)) && blocks.len() == 1
                && blocks[0].get("type"@) == Some(JsonView::Text("text"@)) && blocks[0].get(
                "text"@,
            ) == Some(JsonView::Text(words))
        }),
{
    law_payloads_carry_the_request(model, system_prompt, messages, stream, effort);
    lemma_block_keys();
    let payload = payloads(model, system_prompt, messages, stream, effort)[p];
    let normalized = normalized_messages(messages);
    assert(normalized[i] == normalized_message(messages[i]));
    let blocks = seq![text_block_view(words)];
    assert(normalized[i].get("content"@) == Some(JsonView::Array(blocks)));
    assert(blocks.last() == blocks[0]);
    assert(with_breakpoints(normalized)[i].get("content"@) matches Some(JsonView::Array(b)) && b.len()
        == 1);
}

/// Every payload says of each message whose it is: the model's where its role says
/// so, in any case of letters, and the user's otherwise.
pub proof fn law_payloads_keep_the_roles(
    model: Seq<char>,
    system_prompt: Seq<char>,
    messages: Seq<JsonView>,
    stream: bool,
    effort: Option<Seq<char>>,
    p: int,
    i: int,
)
    requires
        0 <= p < payloads(model, system_prompt, messages, stream, effort).len(),
        0 <= i < messages.len(),
    ensures
        ({
            let sent = sent_messages(payloads(model, system_prompt, messages, stream, effort)[p]);
            &&& sent.len() == messages.len()
            &&& sent[i].get("role"@) == Some(
                JsonView::Text(
                    if messages[i].get("role"@) matches Some(JsonView::Text(role)) && text::lowered(
                        role,
                    ) == "assistant"@ {
                        "assistant"@
                    } else {
                        "user"@
                    },
                ),
            )
        }),
{
    law_payloads_carry_the_request(model, system_prompt, messages, stream, effort);
    lemma_block_keys();
    let normalized = normalized_messages(messages);
    assert(normalized[i] == normalized_message(messages[i]));
}

/// Where a message is a row of blocks, the message sent has as many, in their order:
/// one that names its type keeps all that it holds, beside the mark that ends a
/// cacheable prefix, and one with a text alone becomes a block of that text.
pub proof fn law_payloads_carry_every_block(
    model: Seq<char>,
    system_prompt: Seq<char>,
    messages: Seq<JsonView>,
    stream: bool,
    effort: Option<Seq<char>>,
    p: int,
    i: int,
    items: Seq<JsonView>,
    k: int,
    key: Seq<char>,
    words: Seq<char>,
)
    requires
        0 <= p < payloads(model, system_prompt, messages, stream, effort).len(),
        0 <= i < messages.len(),
        messages[i].get("content"@) == Some(JsonView::Array(items)),
        0 <= k < items.len(),
        key != "cache_control"@,
    ensures
        ({
            let sent = sent_messages(payloads(model, system_prompt, messages, stream, effort)[p]);
            &&& sent.len() == messages.len()
            &&& sent[i].get("content"@) matches Some(JsonView::Array(blocks)) && blocks.len()
                == items.len() && (items[k].get("type"@) matches Some(JsonView::Text(_))
                ==> blocks[k].get(key) == items[k].get(key)) && (!(items[k].get("type"@) matches Some(
                JsonView::Text(_),
            )) && items[k].get("text"@) == Some(JsonView::Text(words)) ==> blocks[k].get("type"@)
                == Some(JsonView::Text("text"@)) && blocks[k].get("text"@) == Some(
                JsonView::Text(words),
            ))
        }),
{
    law_payloads_carry_the_request(model, system_prompt, messages, stream, effort);
    lemma_block_keys();
    let normalized = normalized_messages(messages);
    assert(normalized[i] == normalized_message(messages[i]));
    let blocks = Seq::new(items.len(), |j: int| normalized_block(items[j]));
    assert(normalized[i].get("content"@) == Some(JsonView::Array(blocks)));
    assert(blocks[k] == normalized_block(items[k]));
    let marked = blocks.drop_last().push(blocks.last().with("cache_control"@, cache_mark()));
    if k == items.len() - 1 {
        assert(marked[k] == blocks[k].with("cache_control"@, cache_mark()));
    } else {
        assert(marked[k] == blocks[k]);
    }
}

/// What is said of thinking comes with the ceiling that goes with it: adaptive
/// thinking, shown in summary, with sixty-four thousand tokens where the reply is
/// streamed and sixteen thousand where it is not; a fixed budget of 1024 tokens with
/// sixteen hundred; and no thinking with four thousand.
pub proof fn law_ceilings_go_with_the_thinking(
    model: Seq<char>,
    system_prompt: Seq<char>,
    messages: Seq<JsonView>,
    stream: bool,
    effort: Option<Seq<char>>,
    p: int,
)
    requires
        0 <= p < payloads(model, system_prompt, messages, stream, effort).len(),
    ensures
        ({
            let payload = payloads(model, system_prompt, messages, stream, effort)[p];
            let ceiling = payload.get("max_tokens"@);
            let thinking = payload.get("thinking"@);
            ||| {
                &&& thinking is Some
                &&& thinking->0.get("type"@) == Some(JsonView::Text("adaptive"@))
                &&& thinking->0.get("display"@) == Some(JsonView::Text("summarized"@))
                &&& ceiling == Some(
                    JsonView::Int(
                        if stream {
                            64000
                        } else {
                            16000
                        },
                    ),
                )
            }
            ||| {
                &&& thinking is Some
                &&& thinking->0.get("type"@) == Some(JsonView::Text("enabled"@))
                &&& thinking->0.get("budget_tokens"@) == Some(JsonView::Int(1024))
                &&& ceiling == Some(JsonView::Int(1600))
            }
            ||| {
                &&& thinking is None || thinking->0.get("type"@) == Some(
                    JsonView::Text("disabled"@),
                )
                &&& ceiling == Some(JsonView::Int(4000))
            }
        }),
{
    lemma_payload_keys();
    lemma_modes();
}

/// How the modes of thinking are tried, one after the other, by what the model takes:
/// adaptive first where it is taken, a fixed budget behind it, and none at last.
pub proof fn law_modes_are_tried_in_order(
    model: Seq<char>,
    system_prompt: Seq<char>,
    messages: Seq<JsonView>,
    stream: bool,
    effort: Option<Seq<char>>,
)
    ensures
        ({
            let tried = payloads(model, system_prompt, messages, stream, effort);
            match support_of(model) {
                ThinkingSupport::AlwaysAdaptive => {
                    &&& tried.len() == if effort == Some("low"@) {
                        1nat
                    } else {
                        2nat
                    }
                    &&& thinking_mode(tried[0]) == Some("adaptive"@)
                    &&& json::str_in(
                        json::get_in(tried.last().get("output_config"@), "effort"@),
                    ) == Some("low"@)
                },
                ThinkingSupport::AdaptiveOnly => {
                    &&& tried.len() == 2
                    &&& thinking_mode(tried[0]) == Some("adaptive"@)
                    &&& thinking_mode(tried[1]) == Some("disabled"@)
                },
                ThinkingSupport::AdaptiveOrLegacy => {
                    &&& tried.len() == 3
                    &&& thinking_mode(tried[0]) == Some("adaptive"@)
                    &&& thinking_mode(tried[1]) == Some("enabled"@)
                    &&& tried[2].get("thinking"@) is None
                },
                ThinkingSupport::LegacyOnly => {
                    &&& tried.len() == 2
                    &&& thinking_mode(tried[0]) == Some("enabled"@)
                    &&& tried[1].get("thinking"@) is None
                },
            }
        }),
{
    lemma_payload_keys();
    lemma_modes();
}

/// What a model takes goes by the family that its name holds, in any case of letters:
/// one that cannot stop thinking, then one of the adaptive families, then the first
/// family that takes both, then what came before it.
pub proof fn law_families_decide_on_thinking(model: Seq<char>)
    ensures
        ({
            let name = text::lowered(model);
            let always = text::occurs(name, "fable"@) || text::occurs(name, "mythos"@);
            let only = text::occurs(name, "opus-5"@) || text::occurs(name, "sonnet-5"@)
                || text::occurs(name, "opus-4-8"@) || text::occurs(name, "opus-4-7"@);
            let both = text::occurs(name, "opus-4-6"@) || text::occurs(name, "sonnet-4-6"@);
            let early = text::occurs(name, "haiku"@) || text::occurs(name, "-4-5"@) || text::occurs(
                name,
                "-3-"@,
            );
            &&& support_of(model) == ThinkingSupport::AlwaysAdaptive <==> always
            &&& support_of(model) == ThinkingSupport::AdaptiveOnly <==> !always && only
            &&& both && !always && !only ==> support_of(model) == ThinkingSupport::AdaptiveOrLegacy
            &&& early && !always && !only && !both ==> support_of(model)
                == ThinkingSupport::LegacyOnly
            &&& !text::occurs(name, "haiku"@) && !text::occurs(name, "opus-"@) && !text::occurs(
                name,
                "sonnet-"@,
            ) && !early && !always && !only ==> support_of(model)
                == ThinkingSupport::AdaptiveOrLegacy
        }),
{
    let name = text::lowered(model);
    if !text::occurs(name, "opus-"@) && !text::occurs(name, "sonnet-"@) {
        assert forall|i: int| !is_early_at(name, "opus-"@, i) && !is_early_at(
            name,
            "sonnet-"@,
            i,
        ) by {
            assert(!text::is_at(name, "opus-"@, i) && !text::is_at(name, "sonnet-"@, i));
        }
    }
}

/// A name that ends with a family and its 4, or gives a number below six or a
/// release date behind it, is that of a model before 4.6.
pub proof fn law_early_releases_are_told_by_their_numbers(
    front: Seq<char>,
    family: Seq<char>,
    number: char,
    date: Seq<char>,
)
    requires
        family == "opus-"@ || family == "sonnet-"@,
        '0' <= number < '6',
        date.len() == 8,
        forall|i: int| 0 <= i < date.len() ==> '0' <= #[trigger] date[i] <= '9',
    ensures
        before_4_6(front + family + seq!['4']),
        before_4_6(front + family + seq!['4', '-', number]),
        before_4_6(front + family + seq!['4', '-'] + date),
        before_4_6(front + family + seq!['4', '@'] + date),
        before_4_6(front + family + seq!['3']),
{
    let n = front.len() as int;
    let at = n + family.len();
    let bare = front + family + seq!['4'];
    assert(bare.subrange(n, at) =~= family);
    assert(is_early_at(bare, family, n));
    let numbered = front + family + seq!['4', '-', number];
    assert(numbered.subrange(n, at) =~= family);
    assert(is_early_at(numbered, family, n));
    let dated = front + family + seq!['4', '-'] + date;
    assert(dated.subrange(n, at) =~= family);
    assert forall|k: int| at + 1 < k <= at + 9 implies text::is_digit(#[trigger] dated[k]) by {
        assert(dated[k] == date[k - at - 2]);
    }
    assert(is_early_at(dated, family, n));
    let tagged = front + family + seq!['4', '@'] + date;
    assert(tagged.subrange(n, at) =~= family);
    assert forall|k: int| at + 1 < k <= at + 9 implies text::is_digit(#[trigger] tagged[k]) by {
        assert(tagged[k] == date[k - at - 2]);
    }
    assert(is_early_at(tagged, family, n));
    let old = front + family + seq!['3'];
    assert(old.subrange(n, at) =~= family);
    assert(is_early_at(old, family, n));
}

/// A version other than 3 or 4 is not early; a 3 is unless another digit follows it;
/// and a 4 is not where what follows it is neither a release date nor a number below
/// six behind a separator.
pub proof fn law_other_versions_are_not_early(front: Seq<char>, version: char, rest: Seq<char>)
    ensures
        ({
            let name = front + seq![version] + rest;
            let at = front.len() as int;
            &&& version != '3' && version != '4' ==> !is_early_version(name, at)
            &&& version == '3' ==> (is_early_version(name, at) <==> rest.len() == 0 || !('0'
                <= rest[0] <= '9'))
            &&& version == '4' && rest.len() > 0 && rest[0] != '-' && rest[0] != '@' && rest[0]
                != '.' ==> !is_early_version(name, at)
            &&& version == '4' && 0 < rest.len() < 9 && (rest[0] == '@' || rest.len() == 1 || !('0'
                <= rest[1] < '6')) ==> !is_early_version(name, at)
            &&& version == '4' && rest.len() > 2 && '0' <= rest[1] <= '9' && '0' <= rest[2] <= '9'
                && (rest.len() < 9 || (rest.len() > 9 && '0' <= rest[9] <= '9'))
                ==> !is_early_version(name, at)
            &&& version == '4' && rest.len() >= 9 && (rest[0] == '@' || !('0' <= rest[1] < '6') || (
            '0' <= rest[2] <= '9')) && (exists|k: int| 0 < k <= 8 && !('0' <= #[trigger] rest[k]
                <= '9')) ==> !is_early_version(name, at)
        }),
{
    let name = front + seq![version] + rest;
    let at = front.len() as int;
    assert(name[at] == version);
    assert forall|k: int| 0 <= k < rest.len() implies name[at + 1 + k] == #[trigger] rest[k] by {}
    if rest.len() > 0 {
        assert(name[at + 1] == rest[0]);
    }
    if rest.len() > 1 {
        assert(name[at + 2] == rest[1]);
    }
    if rest.len() > 2 {
        assert(name[at + 3] == rest[2]);
    }
    if rest.len() > 9 {
        assert(name[at + 10] == rest[9]);
    }
    if rest.len() >= 9 && exists|k: int| 0 < k <= 8 && !('0' <= #[trigger] rest[k] <= '9') {
        let k = choose|k: int| 0 < k <= 8 && !('0' <= #[trigger] rest[k] <= '9');
        assert(name[at + 1 + k] == rest[k]);
        assert(!is_dated_at(name, at + 1));
    }
}

/// Without a word or a version of an early release, a name is not that of one.
pub proof fn law_nothing_else_is_before_4_6(model: Seq<char>)
    requires
        !text::occurs(model, "haiku"@),
        !text::occurs(model, "-4-5"@),
        !text::occurs(model, "-3-"@),
        forall|i: int| #[trigger]
            text::is_at(model, "opus-"@, i) ==> !is_early_version(model, i + 5),
        forall|i: int| #[trigger]
            text::is_at(model, "sonnet-"@, i) ==> !is_early_version(model, i + 7),
    ensures
        !before_4_6(model),
{
    reveal_strlit("opus-");
    reveal_strlit("sonnet-");
    assert("opus-"@.len() == 5 && "sonnet-"@.len() == 7);
}

/// What the API has no form for is sent as the JSON that it is written as: a block that
/// names neither its type nor a text, and content that is neither a text nor a row of
/// blocks.
pub proof fn law_other_content_is_sent_as_json(message: JsonView, item: JsonView)
    requires
        message.get("content"@) == Some(item),
    ensures
        !(item.get("type"@) matches Some(JsonView::Text(_))) && !(item.get(
            "text"@,
        ) matches Some(JsonView::Text(_))) ==> normalized_block(item).get("text"@) == Some(
            JsonView::Text(wire::json_text(item)),
        ) && normalized_block(item).get("type"@) == Some(JsonView::Text("text"@)),
        !(item is Text) && !(item is Array) ==> (normalized_message(message).get(
            "content"@,
        ) matches Some(JsonView::Array(blocks)) && blocks.len() == 1 && blocks[0].get("text"@)
            == Some(JsonView::Text(wire::json_text(item))) && blocks[0].get("type"@) == Some(
            JsonView::Text("text"@),
        )),
{
    reveal_strlit("role");
    reveal_strlit("content");
    reveal_strlit("type");
    reveal_strlit("text");
    assert("role"@.len() == 4 && "content"@.len() == 7);
    assert("type"@[1] != "text"@[1]);
}

/// The mark for the cache stands on the last block of a message, names the kind of cache,
/// and changes nothing else of the message.
pub proof fn law_the_mark_stands_on_the_last_block(
    message: JsonView,
    blocks: Seq<JsonView>,
    key: Seq<char>,
    i: int,
)
    requires
        message.get("content"@) == Some(JsonView::Array(blocks)),
        blocks.len() > 0,
        blocks.last() is Object,
    ensures
        cacheable(message).get("content"@) matches Some(JsonView::Array(marked)) && marked.len()
            == blocks.len() && (0 <= i < blocks.len() - 1 ==> marked[i] == blocks[i]) && (
        marked.last().get("cache_control"@) matches Some(mark) && mark.get("type"@) == Some(
            JsonView::Text("ephemeral"@),
        )) && (key != "cache_control"@ ==> marked.last().get(key) == blocks.last().get(key)),
        key != "content"@ ==> cacheable(message).get(key) == message.get(key),
{
}

} // verus!
