//! What the chat and responses APIs answer: the events of a stream and whole
//! responses.
use crate::json::{self, Json, JsonView};
use crate::model::TokenUsage;
use crate::providers::attempts::{self, AttemptFailure, AttemptView};
use crate::text;
use vstd::prelude::*;

verus! {

/// The part of the reasoning summary that an event belongs to.
pub open spec fn summary_index(event: JsonView) -> Option<i64> {
    match json::i64_in(event.get("summary_index"@)) {
        Some(n) => Some(n),
        None => json::i64_in(json::get_in(event.get("summary"@), "index"@)),
    }
}

/// The part of the reasoning summary that an event belongs to.
pub fn extract_summary_index(event: &Json) -> (r: Option<i64>)
    ensures
        r == summary_index(event@),
{
    let own = match event.get("summary_index") {
        Some(index) => index.as_i64(),
        None => None,
    };
    match own {
        Some(n) => Some(n),
        None => match event.get2("summary", "index") {
            Some(index) => index.as_i64(),
            None => None,
        },
    }
}

/// A text of the part `part` of the first choice.
pub open spec fn choice_text(value: JsonView, part: Seq<char>, key: Seq<char>) -> Option<Seq<char>> {
    match value.get("choices"@) {
        Some(choices) => json::str_in(json::get_in(json::get_in(choices.first(), part), key)),
        None => None,
    }
}

fn find_choice_text<'a>(value: &'a Json, part: &str, key: &str) -> (r: Option<&'a str>)
    ensures
        text::opt_str(r) == choice_text(value@, part@, key@),
{
    match value.get("choices") {
        Some(choices) => match choices.first() {
            Some(choice) => choice.get2_str(part, key),
            None => None,
        },
        None => None,
    }
}

/// The reasoning in the part `part` of the first choice, by whichever name it
/// goes.
pub open spec fn choice_reasoning(value: JsonView, part: Seq<char>) -> Option<Seq<char>> {
    text::first_text(
        choice_text(value, part, "reasoning_content"@),
        text::first_text(
            choice_text(value, part, "reasoning"@),
            choice_text(value, part, "thinking"@),
        ),
    )
}

fn find_choice_reasoning(value: &Json, part: &str) -> (r: Option<String>)
    ensures
        text::opt_text(r) == choice_reasoning(value@, part@),
{
    match find_choice_text(value, part, "reasoning_content") {
        Some(s) => Some(s.to_owned()),
        None => match find_choice_text(value, part, "reasoning") {
            Some(s) => Some(s.to_owned()),
            None => text::owned(find_choice_text(value, part, "thinking")),
        },
    }
}

/// The piece of reasoning that a chat event brings.
pub fn extract_chat_reasoning_delta(event: &Json) -> (r: Option<String>)
    ensures
        text::opt_text(r) == choice_reasoning(event@, "delta"@),
{
    find_choice_reasoning(event, "delta")
}

/// The piece of text that a chat event brings.
pub fn extract_chat_content_delta(event: &Json) -> (r: Option<String>)
    ensures
        text::opt_text(r) == choice_text(event@, "delta"@, "content"@),
{
    text::owned(find_choice_text(event, "delta", "content"))
}

/// The reasoning of a whole chat response.
pub fn extract_chat_reasoning(response: &Json) -> (r: Option<String>)
    ensures
        text::opt_text(r) == choice_reasoning(response@, "message"@),
{
    find_choice_reasoning(response, "message")
}

/// The type of a responses event in lower case.
pub open spec fn event_kind(event: JsonView) -> Seq<char> {
    text::lowered(json::str_or_empty(event.get("type"@)))
}

/// Whether a type is that of reasoning.
pub open spec fn is_reasoning_kind(kind: Seq<char>) -> bool {
    text::occurs(kind, "reasoning"@) || text::occurs(kind, "summary"@)
}

fn reads_as_reasoning(kind: &str) -> (r: bool)
    ensures
        r == is_reasoning_kind(kind@),
{
    text::contains(kind, "reasoning") || text::contains(kind, "summary")
}

/// The piece of an event: by `delta`, by `text`, or by what `outer` holds as
/// `inner`.
pub open spec fn piece(event: JsonView, outer: Seq<char>, inner: Seq<char>) -> Option<Seq<char>> {
    text::first_text(
        json::str_in(event.get("delta"@)),
        text::first_text(
            json::str_in(event.get("text"@)),
            json::str_in(json::get_in(event.get(outer), inner)),
        ),
    )
}

fn find_piece(event: &Json, outer: &str, inner: &str) -> (r: Option<String>)
    ensures
        text::opt_text(r) == piece(event@, outer@, inner@),
{
    match event.get_str("delta") {
        Some(s) => Some(s.to_owned()),
        None => match event.get_str("text") {
            Some(s) => Some(s.to_owned()),
            None => text::owned(event.get2_str(outer, inner)),
        },
    }
}

/// The piece of reasoning that a responses event brings.
pub open spec fn responses_reasoning_delta(event: JsonView) -> Option<Seq<char>> {
    if text::ends_with(event_kind(event), ".delta"@) && is_reasoning_kind(event_kind(event)) {
        piece(event, "summary"@, "text"@)
    } else {
        None
    }
}

/// The piece of reasoning that a responses event brings.
pub fn extract_responses_reasoning_delta(event: &Json) -> (r: Option<String>)
    ensures
        text::opt_text(r) == responses_reasoning_delta(event@),
{
    let kind = text::lower(text::or_other(event.get_str("type"), ""));
    if !(text::has_suffix(&kind, ".delta") && reads_as_reasoning(&kind)) {
        return None;
    }
    find_piece(event, "summary", "text")
}

/// The piece of text that a responses event brings.
pub open spec fn responses_content_delta(event: JsonView) -> Option<Seq<char>> {
    let kind = event_kind(event);
    if text::ends_with(kind, ".delta"@) && !is_reasoning_kind(kind) && (text::occurs(
        kind,
        "output_text"@,
    ) || text::occurs(kind, "message"@)) {
        piece(event, "content"@, "delta"@)
    } else {
        None
    }
}

/// The piece of text that a responses event brings.
pub fn extract_responses_content_delta(event: &Json) -> (r: Option<String>)
    ensures
        text::opt_text(r) == responses_content_delta(event@),
{
    let kind = text::lower(text::or_other(event.get_str("type"), ""));
    if !text::has_suffix(&kind, ".delta") {
        return None;
    }
    if reads_as_reasoning(&kind) {
        return None;
    }
    if text::contains(&kind, "output_text") || text::contains(&kind, "message") {
        return find_piece(event, "content", "delta");
    }
    None
}

/// Whether a block or an item says that it is a text.
pub open spec fn is_text_kind(block: JsonView) -> bool {
    let kind = json::str_or_empty(block.get("type"@));
    kind == "output_text"@ || kind == "text"@
}

fn reads_as_text(block: &Json) -> (r: bool)
    ensures
        r == is_text_kind(block@),
{
    let kind = text::or_other(block.get_str("type"), "");
    text::same(kind, "output_text") || text::same(kind, "text")
}

/// The text as a list of one, or none where it is absent or blank.
pub open spec fn listed(s: Option<Seq<char>>) -> Seq<Seq<char>> {
    match text::unless_blank(s) {
        Some(s) => seq![s],
        None => Seq::empty(),
    }
}

fn list(chunks: &mut Vec<String>, s: Option<&str>)
    ensures
        text::texts(final(chunks)@) == text::texts(old(chunks)@) + listed(text::opt_str(s)),
{
    match text::spare_blank(s) {
        Some(s) => {
            let ghost before = text::texts(chunks@);
            chunks.push(s.to_owned());
            assert(text::texts(chunks@) =~= before + seq![s@]);
        },
        None => {
            assert(text::texts(chunks@) + Seq::<Seq<char>>::empty() =~= text::texts(chunks@));
        },
    }
}

/// The texts of the blocks of an item, in order.
pub open spec fn block_texts(blocks: Seq<JsonView>) -> Seq<Seq<char>>
    decreases blocks.len(),
{
    if blocks.len() == 0 {
        Seq::empty()
    } else {
        block_texts(blocks.drop_last()) + if is_text_kind(blocks.last()) {
            listed(json::str_in(blocks.last().get("text"@)))
        } else {
            Seq::empty()
        }
    }
}

/// The texts of an item of a response: its own, or those of its blocks.
pub open spec fn item_texts(item: JsonView) -> Seq<Seq<char>> {
    if is_text_kind(item) && json::str_in(item.get("text"@)) is Some {
        listed(json::str_in(item.get("text"@)))
    } else {
        match json::array_in(item.get("content"@)) {
            Some(blocks) => block_texts(blocks),
            None => Seq::empty(),
        }
    }
}

/// The texts of the items of a response, in order.
pub open spec fn output_texts(items: Seq<JsonView>) -> Seq<Seq<char>>
    decreases items.len(),
{
    if items.len() == 0 {
        Seq::empty()
    } else {
        output_texts(items.drop_last()) + item_texts(items.last())
    }
}

/// The items of a response.
pub open spec fn output_items(response: JsonView) -> Seq<JsonView> {
    match json::array_in(response.get("output"@)) {
        Some(items) => items,
        None => Seq::empty(),
    }
}

/// The text of a responses response: the one that it gives as a whole, or those
/// of its items together.
pub open spec fn responses_text(response: JsonView) -> Option<Seq<char>> {
    match text::unless_blank(json::str_in(response.get("output_text"@))) {
        Some(s) => Some(s),
        None => {
            let chunks = output_texts(output_items(response));
            if chunks.len() == 0 {
                None
            } else {
                Some(text::joined(chunks, ""@))
            }
        },
    }
}

fn collect_block_texts(chunks: &mut Vec<String>, blocks: &Vec<Json>)
    ensures
        text::texts(final(chunks)@) == text::texts(old(chunks)@) + block_texts(
            json::views_of(blocks@),
        ),
{
    let ghost before = text::texts(chunks@);
    let ghost all = json::views_of(blocks@);
    let mut i: usize = 0;
    assert(before + block_texts(all.take(0)) =~= before);
    while i < blocks.len()
        invariant
            i <= blocks.len(),
            all == json::views_of(blocks@),
            text::texts(chunks@) == before + block_texts(all.take(i as int)),
        decreases blocks.len() - i,
    {
        proof {
            json::lemma_views_of(blocks@);
            assert(all.take(i + 1).drop_last() =~= all.take(i as int));
        }
        if reads_as_text(&blocks[i]) {
            list(chunks, blocks[i].get_str("text"));
        }
        assert(text::texts(chunks@) =~= before + block_texts(all.take(i + 1)));
        i += 1;
    }
    proof {
        json::lemma_views_of(blocks@);
        assert(all.take(i as int) =~= all);
    }
}

fn collect_item_texts(chunks: &mut Vec<String>, item: &Json)
    ensures
        text::texts(final(chunks)@) == text::texts(old(chunks)@) + item_texts(item@),
{
    assert(text::texts(chunks@) + Seq::<Seq<char>>::empty() =~= text::texts(chunks@));
    if reads_as_text(item) && item.get_str("text").is_some() {
        list(chunks, item.get_str("text"));
        return;
    }
    match item.get_array("content") {
        Some(blocks) => {
            collect_block_texts(chunks, blocks);
        },
        None => {},
    }
}

/// The text of a responses response.
pub fn extract_responses_output_text(response: &Json) -> (r: Option<String>)
    ensures
        text::opt_text(r) == responses_text(response@),
{
    match text::spare_blank(response.get_str("output_text")) {
        Some(s) => {
            return Some(s.to_owned());
        },
        None => {},
    }
    let mut chunks: Vec<String> = Vec::new();
    assert(text::texts(chunks@) =~= Seq::<Seq<char>>::empty());
    match response.get_array("output") {
        Some(items) => {
            let ghost all = json::views_of(items@);
            let mut i: usize = 0;
            while i < items.len()
                invariant
                    i <= items.len(),
                    all == json::views_of(items@),
                    text::texts(chunks@) == output_texts(all.take(i as int)),
                decreases items.len() - i,
            {
                proof {
                    json::lemma_views_of(items@);
                    assert(all.take(i + 1).drop_last() =~= all.take(i as int));
                }
                collect_item_texts(&mut chunks, &items[i]);
                i += 1;
            }
            proof {
                json::lemma_views_of(items@);
                assert(all.take(i as int) =~= all);
            }
        },
        None => {},
    }
    assert(text::texts(chunks@).len() == chunks@.len());
    if chunks.len() == 0 {
        None
    } else {
        Some(text::join(&chunks, ""))
    }
}

/// The texts of the entries of a summary, in order.
pub open spec fn entry_texts(entries: Seq<JsonView>) -> Seq<Seq<char>>
    decreases entries.len(),
{
    if entries.len() == 0 {
        Seq::empty()
    } else {
        entry_texts(entries.drop_last()) + listed(json::str_in(entries.last().get("text"@)))
    }
}

/// The summary of an item of a response, where it is reasoning.
pub open spec fn item_summary(item: JsonView) -> Seq<Seq<char>> {
    if json::str_or_empty(item.get("type"@)) == "reasoning"@ {
        match item.get("summary"@) {
            Some(JsonView::Text(s)) => listed(Some(s)),
            Some(JsonView::Array(entries)) => entry_texts(entries),
            _ => Seq::empty(),
        }
    } else {
        Seq::empty()
    }
}

/// The summaries of the items of a response, in order.
pub open spec fn summary_texts(items: Seq<JsonView>) -> Seq<Seq<char>>
    decreases items.len(),
{
    if items.len() == 0 {
        Seq::empty()
    } else {
        summary_texts(items.drop_last()) + item_summary(items.last())
    }
}

/// The summary of the reasoning of a responses response.
pub open spec fn responses_summary(response: JsonView) -> Option<Seq<char>> {
    let chunks = summary_texts(output_items(response));
    if chunks.len() == 0 {
        None
    } else {
        Some(text::joined(chunks, "\n"@))
    }
}

fn collect_entry_texts(chunks: &mut Vec<String>, entries: &Vec<Json>)
    ensures
        text::texts(final(chunks)@) == text::texts(old(chunks)@) + entry_texts(
            json::views_of(entries@),
        ),
{
    let ghost before = text::texts(chunks@);
    let ghost all = json::views_of(entries@);
    let mut i: usize = 0;
    assert(before + entry_texts(all.take(0)) =~= before);
    while i < entries.len()
        invariant
            i <= entries.len(),
            all == json::views_of(entries@),
            text::texts(chunks@) == before + entry_texts(all.take(i as int)),
        decreases entries.len() - i,
    {
        proof {
            json::lemma_views_of(entries@);
            assert(all.take(i + 1).drop_last() =~= all.take(i as int));
        }
        list(chunks, entries[i].get_str("text"));
        assert(text::texts(chunks@) =~= before + entry_texts(all.take(i + 1)));
        i += 1;
    }
    proof {
        json::lemma_views_of(entries@);
        assert(all.take(i as int) =~= all);
    }
}

fn collect_item_summary(chunks: &mut Vec<String>, item: &Json)
    ensures
        text::texts(final(chunks)@) == text::texts(old(chunks)@) + item_summary(item@),
{
    assert(text::texts(chunks@) + Seq::<Seq<char>>::empty() =~= text::texts(chunks@));
    if !text::same(text::or_other(item.get_str("type"), ""), "reasoning") {
        return;
    }
    match item.get("summary") {
        Some(Json::Text(s)) => {
            list(chunks, Some(s.as_str()));
        },
        Some(Json::Array(entries)) => {
            collect_entry_texts(chunks, entries);
        },
        _ => {},
    }
}

/// The summary of the reasoning of a responses response.
pub fn extract_responses_reasoning_summary(response: &Json) -> (r: Option<String>)
    ensures
        text::opt_text(r) == responses_summary(response@),
{
    let mut chunks: Vec<String> = Vec::new();
    assert(text::texts(chunks@) =~= Seq::<Seq<char>>::empty());
    match response.get_array("output") {
        Some(items) => {
            let ghost all = json::views_of(items@);
            let mut i: usize = 0;
            while i < items.len()
                invariant
                    i <= items.len(),
                    all == json::views_of(items@),
                    text::texts(chunks@) == summary_texts(all.take(i as int)),
                decreases items.len() - i,
            {
                proof {
                    json::lemma_views_of(items@);
                    assert(all.take(i + 1).drop_last() =~= all.take(i as int));
                }
                collect_item_summary(&mut chunks, &items[i]);
                i += 1;
            }
            proof {
                json::lemma_views_of(items@);
                assert(all.take(i as int) =~= all);
            }
        },
        None => {},
    }
    assert(text::texts(chunks@).len() == chunks@.len());
    if chunks.len() == 0 {
        None
    } else {
        Some(text::join(&chunks, "\n"))
    }
}

/// The usage of these numbers, unless it says nothing at all.
pub open spec fn usage_unless_empty(
    input_tokens: Option<u64>,
    output_tokens: Option<u64>,
    cached: Option<u64>,
    reasoning: Option<u64>,
) -> Option<TokenUsage> {
    let usage = TokenUsage {
        input_tokens: match input_tokens {
            Some(n) => n,
            None => 0,
        },
        output_tokens: match output_tokens {
            Some(n) => n,
            None => 0,
        },
        cache_read_input_tokens: cached,
        cache_creation_input_tokens: None,
        reasoning_tokens: reasoning,
    };
    if usage == TokenUsage::nothing() {
        None
    } else {
        Some(usage)
    }
}

fn spare_empty_usage(
    input_tokens: Option<u64>,
    output_tokens: Option<u64>,
    cached: Option<u64>,
    reasoning: Option<u64>,
) -> (r: Option<TokenUsage>)
    ensures
        r == usage_unless_empty(input_tokens, output_tokens, cached, reasoning),
{
    let usage = TokenUsage {
        input_tokens: match input_tokens {
            Some(n) => n,
            None => 0,
        },
        output_tokens: match output_tokens {
            Some(n) => n,
            None => 0,
        },
        cache_read_input_tokens: cached,
        cache_creation_input_tokens: None,
        reasoning_tokens: reasoning,
    };
    if usage.is_empty() {
        None
    } else {
        Some(usage)
    }
}

/// The usage that a chat response or event reports.
pub open spec fn chat_usage(response: JsonView) -> Option<TokenUsage> {
    match response.get("usage"@) {
        Some(usage) => usage_unless_empty(
            json::u64_in(usage.get("prompt_tokens"@)),
            json::u64_in(usage.get("completion_tokens"@)),
            json::u64_in(json::get_in(usage.get("prompt_tokens_details"@), "cached_tokens"@)),
            json::u64_in(
                json::get_in(usage.get("completion_tokens_details"@), "reasoning_tokens"@),
            ),
        ),
        None => None,
    }
}

/// The usage that a chat response or event reports. The events before the last
/// carry a `null` there.
pub fn extract_openai_chat_usage(response: &Json) -> (r: Option<TokenUsage>)
    ensures
        r == chat_usage(response@),
{
    match response.get("usage") {
        Some(usage) => spare_empty_usage(
            usage.get_u64("prompt_tokens"),
            usage.get_u64("completion_tokens"),
            usage.get2_u64("prompt_tokens_details", "cached_tokens"),
            usage.get2_u64("completion_tokens_details", "reasoning_tokens"),
        ),
        None => None,
    }
}

/// The usage that a responses response reports.
pub open spec fn responses_usage(response: JsonView) -> Option<TokenUsage> {
    match response.get("usage"@) {
        Some(usage) => usage_unless_empty(
            json::u64_in(usage.get("input_tokens"@)),
            json::u64_in(usage.get("output_tokens"@)),
            json::u64_in(json::get_in(usage.get("input_tokens_details"@), "cached_tokens"@)),
            json::u64_in(json::get_in(usage.get("output_tokens_details"@), "reasoning_tokens"@)),
        ),
        None => None,
    }
}

/// The usage that a responses response reports.
pub fn extract_openai_responses_usage(response: &Json) -> (r: Option<TokenUsage>)
    ensures
        r == responses_usage(response@),
{
    match response.get("usage") {
        Some(usage) => spare_empty_usage(
            usage.get_u64("input_tokens"),
            usage.get_u64("output_tokens"),
            usage.get2_u64("input_tokens_details", "cached_tokens"),
            usage.get2_u64("output_tokens_details", "reasoning_tokens"),
        ),
        None => None,
    }
}

/// The usage that a responses event reports: the events that end a response do.
pub open spec fn responses_event_usage(event: JsonView) -> Option<TokenUsage> {
    let kind = json::str_or_empty(event.get("type"@));
    if kind == "response.completed"@ || kind == "response.incomplete"@ {
        match event.get("response"@) {
            Some(response) => responses_usage(response),
            None => None,
        }
    } else {
        None
    }
}

/// The usage that a responses event reports.
pub fn extract_openai_responses_event_usage(event: &Json) -> (r: Option<TokenUsage>)
    ensures
        r == responses_event_usage(event@),
{
    let kind = text::or_other(event.get_str("type"), "");
    if !text::same(kind, "response.completed") && !text::same(kind, "response.incomplete") {
        return None;
    }
    match event.get("response") {
        Some(response) => extract_openai_responses_usage(response),
        None => None,
    }
}

/// The usage, or none used where none is reported.
pub open spec fn usage_or_nothing(usage: Option<TokenUsage>) -> TokenUsage {
    match usage {
        Some(usage) => usage,
        None => TokenUsage::nothing(),
    }
}

fn usage_or_default(usage: Option<TokenUsage>) -> (r: TokenUsage)
    ensures
        r == usage_or_nothing(usage),
{
    match usage {
        Some(usage) => usage,
        None => TokenUsage::default(),
    }
}

/// What an answer gives: the text with the usage, or the complaint that there is
/// none.
pub open spec fn answer(content: Option<Seq<char>>, usage: Option<TokenUsage>) -> Result<
    (Seq<char>, TokenUsage),
    AttemptView,
> {
    match content {
        Some(content) => Ok((content, usage_or_nothing(usage))),
        None => Err(
            attempts::plain_failure("AI provider returned an unexpected response payload"@),
        ),
    }
}

fn unexpected_payload() -> (r: AttemptFailure)
    ensures
        r@ == attempts::plain_failure("AI provider returned an unexpected response payload"@),
{
    AttemptFailure::from("AI provider returned an unexpected response payload".to_owned())
}

/// What a whole chat response gives.
pub fn non_stream_chat_attempt(response: &Json) -> (r: Result<
    (String, TokenUsage),
    AttemptFailure,
>)
    ensures
        attempts::attempt_view(r) == answer(
            choice_text(response@, "message"@, "content"@),
            chat_usage(response@),
        ),
{
    match find_choice_text(response, "message", "content") {
        Some(content) => Ok(
            (content.to_owned(), usage_or_default(extract_openai_chat_usage(response))),
        ),
        None => Err(unexpected_payload()),
    }
}

/// What a whole responses response gives.
pub fn non_stream_responses_attempt(response: &Json) -> (r: Result<
    (String, TokenUsage),
    AttemptFailure,
>)
    ensures
        attempts::attempt_view(r) == answer(
            responses_text(response@),
            responses_usage(response@),
        ),
{
    match extract_responses_output_text(response) {
        Some(content) => Ok(
            (content, usage_or_default(extract_openai_responses_usage(response))),
        ),
        None => Err(unexpected_payload()),
    }
}

/// No responses event is both reasoning and text.
pub proof fn law_reasoning_is_no_text(event: JsonView)
    ensures
        responses_reasoning_delta(event) is None || responses_content_delta(event) is None,
{
}

/// An answer without any number reported counts as no report, not as zero tokens.
pub proof fn law_reported_usage_says_something(response: JsonView)
    ensures
        chat_usage(response) != Some(TokenUsage::nothing()),
        responses_usage(response) != Some(TokenUsage::nothing()),
{
}

proof fn lemma_deltas()
    ensures
        text::lowered("response.output_text.delta"@) == "response.output_text.delta"@,
        text::lowered("response.reasoning_summary_text.delta"@)
            == "response.reasoning_summary_text.delta"@,
        text::ends_with("response.output_text.delta"@, ".delta"@),
        text::ends_with("response.reasoning_summary_text.delta"@, ".delta"@),
        text::occurs("response.output_text.delta"@, "output_text"@),
        text::occurs("response.reasoning_summary_text.delta"@, "reasoning"@),
        !text::occurs("response.output_text.delta"@, "reasoning"@),
        !text::occurs("response.output_text.delta"@, "summary"@),
{
    let output = "response.output_text.delta"@;
    let summary = "response.reasoning_summary_text.delta"@;
    reveal_strlit("response.output_text.delta");
    reveal_strlit("response.reasoning_summary_text.delta");
    reveal_strlit(".delta");
    reveal_strlit("output_text");
    reveal_strlit("reasoning");
    reveal_strlit("summary");
    reveal_with_fuel(text::is_small_from, 40);
    text::lemma_small_text_stays(output);
    text::lemma_small_text_stays(summary);
    assert(output.subrange(20, 26) =~= ".delta"@);
    assert(summary.subrange(31, 37) =~= ".delta"@);
    assert(output.subrange(9, 20) =~= "output_text"@);
    assert(text::is_at(output, "output_text"@, 9));
    assert(summary.subrange(9, 18) =~= "reasoning"@);
    assert(text::is_at(summary, "reasoning"@, 9));
    reveal_with_fuel(text::is_free_of, 28);
    assert(text::is_free_of(output, 'g', 0, 26));
    text::lemma_free_of(output, 'g', 0, 26);
    if text::occurs(output, "reasoning"@) {
        let i = choose|i: int| text::is_at(output, "reasoning"@, i);
        assert(output.subrange(i, i + 9)[8] == output[i + 8]);
        assert("reasoning"@[8] == 'g');
    }
    assert(text::is_free_of(output, 'm', 0, 26));
    text::lemma_free_of(output, 'm', 0, 26);
    if text::occurs(output, "summary"@) {
        let i = choose|i: int| text::is_at(output, "summary"@, i);
        assert(output.subrange(i, i + 7)[2] == output[i + 2]);
        assert("summary"@[2] == 'm');
    }
}

/// What a chat says stands under the content of its first choice, and is taken as it
/// stands; what it reasons stands there under one of three names, the first of which
/// that is there counts.
pub proof fn law_chats_say_what_their_first_choice_says(
    value: JsonView,
    choices: Seq<JsonView>,
    part: Seq<char>,
    inner: JsonView,
    words: Seq<char>,
)
    requires
        value.get("choices"@) == Some(JsonView::Array(choices)),
        choices.len() > 0,
        choices[0].get(part) == Some(inner),
    ensures
        inner.get("content"@) == Some(JsonView::Text(words)) ==> choice_text(
            value,
            part,
            "content"@,
        ) == Some(words),
        !(inner.get("content"@) matches Some(JsonView::Text(_))) ==> choice_text(
            value,
            part,
            "content"@,
        ) is None,
        inner.get("reasoning_content"@) == Some(JsonView::Text(words)) ==> choice_reasoning(
            value,
            part,
        ) == Some(words),
        inner.get("reasoning_content"@) is None && inner.get("reasoning"@) == Some(
            JsonView::Text(words),
        ) ==> choice_reasoning(value, part) == Some(words),
        inner.get("reasoning_content"@) is None && inner.get("reasoning"@) is None && inner.get(
            "thinking"@,
        ) == Some(JsonView::Text(words)) ==> choice_reasoning(value, part) == Some(words),
{
}

/// A delta of output text brings its text as it stands, and no reasoning; a delta of
/// a reasoning summary brings its text as reasoning, and no output.
pub proof fn law_response_deltas_are_taken_as_they_stand(event: JsonView, words: Seq<char>)
    requires
        event.get("delta"@) == Some(JsonView::Text(words)),
    ensures
        event.get("type"@) == Some(JsonView::Text("response.output_text.delta"@))
            ==> responses_content_delta(event) == Some(words) && responses_reasoning_delta(event)
            is None,
        event.get("type"@) == Some(JsonView::Text("response.reasoning_summary_text.delta"@))
            ==> responses_reasoning_delta(event) == Some(words) && responses_content_delta(event)
            is None,
{
    lemma_deltas();
}

/// An event that is no delta brings nothing.
pub proof fn law_only_deltas_bring_text(event: JsonView)
    requires
        !(event.get("type"@) matches Some(JsonView::Text(kind)) && text::ends_with(
            text::lowered(kind),
            ".delta"@,
        )),
    ensures
        responses_content_delta(event) is None,
        responses_reasoning_delta(event) is None,
{
    reveal_strlit("");
    reveal_strlit(".delta");
    assert(""@.len() == 0 && ".delta"@.len() == 6);
}

/// The usage of a chat is read by its names: each figure is the one that stands under
/// its own name.
pub proof fn law_chat_usage_is_read_by_its_names(
    response: JsonView,
    usage: JsonView,
    prompt: JsonView,
    completion: JsonView,
    input: u64,
    output: u64,
    cached: u64,
    reasoning: u64,
)
    requires
        response.get("usage"@) == Some(usage),
        usage.get("prompt_tokens"@) == Some(JsonView::Int(input as int)),
        usage.get("completion_tokens"@) == Some(JsonView::Int(output as int)),
        usage.get("prompt_tokens_details"@) == Some(prompt),
        prompt.get("cached_tokens"@) == Some(JsonView::Int(cached as int)),
        usage.get("completion_tokens_details"@) == Some(completion),
        completion.get("reasoning_tokens"@) == Some(JsonView::Int(reasoning as int)),
    ensures
        chat_usage(response) == Some(
            TokenUsage {
                input_tokens: input,
                output_tokens: output,
                cache_read_input_tokens: Some(cached),
                cache_creation_input_tokens: None,
                reasoning_tokens: Some(reasoning),
            },
        ),
{
}

/// The usage of a response is read by its names, and an event that ends a response
/// reports that response's.
pub proof fn law_response_usage_is_read_by_its_names(
    response: JsonView,
    event: JsonView,
    usage: JsonView,
    given: JsonView,
    made: JsonView,
    input: u64,
    output: u64,
    cached: u64,
    reasoning: u64,
)
    requires
        response.get("usage"@) == Some(usage),
        usage.get("input_tokens"@) == Some(JsonView::Int(input as int)),
        usage.get("output_tokens"@) == Some(JsonView::Int(output as int)),
        usage.get("input_tokens_details"@) == Some(given),
        given.get("cached_tokens"@) == Some(JsonView::Int(cached as int)),
        usage.get("output_tokens_details"@) == Some(made),
        made.get("reasoning_tokens"@) == Some(JsonView::Int(reasoning as int)),
    ensures
        ({
            let read = Some(
                TokenUsage {
                    input_tokens: input,
                    output_tokens: output,
                    cache_read_input_tokens: Some(cached),
                    cache_creation_input_tokens: None,
                    reasoning_tokens: Some(reasoning),
                },
            );
            &&& responses_usage(response) == read
            &&& event.get("response"@) == Some(response) && (event.get("type"@) == Some(
                JsonView::Text("response.completed"@),
            ) || event.get("type"@) == Some(JsonView::Text("response.incomplete"@)))
                ==> responses_event_usage(event) == read
            &&& event.get("type"@) != Some(JsonView::Text("response.completed"@)) && event.get(
                "type"@,
            ) != Some(JsonView::Text("response.incomplete"@)) ==> responses_event_usage(event)
                is None
        }),
{
    reveal_strlit("");
    reveal_strlit("response.completed");
    reveal_strlit("response.incomplete");
    assert(""@.len() == 0 && "response.completed"@.len() == 18);
    assert("response.incomplete"@.len() == 19);
}

/// A figure that a usage does not report is zero where it must be there and absent
/// where it need not.
pub proof fn law_figures_not_reported_are_not_made_up(response: JsonView, usage: JsonView)
    requires
        response.get("usage"@) == Some(usage),
    ensures
        chat_usage(response) matches Some(read) ==> {
            &&& usage.get("prompt_tokens"@) is None ==> read.input_tokens == 0
            &&& usage.get("completion_tokens"@) is None ==> read.output_tokens == 0
            &&& usage.get("prompt_tokens_details"@) is None ==> read.cache_read_input_tokens is None
            &&& usage.get("completion_tokens_details"@) is None ==> read.reasoning_tokens is None
            &&& read.cache_creation_input_tokens is None
        },
        responses_usage(response) matches Some(read) ==> {
            &&& usage.get("input_tokens"@) is None ==> read.input_tokens == 0
            &&& usage.get("output_tokens"@) is None ==> read.output_tokens == 0
            &&& usage.get("input_tokens_details"@) is None ==> read.cache_read_input_tokens is None
            &&& usage.get("output_tokens_details"@) is None ==> read.reasoning_tokens is None
            &&& read.cache_creation_input_tokens is None
        },
{
}

/// A response that gives its text as a whole is taken at it; else its text grows by
/// each text of its items, as it stands.
pub proof fn law_responses_say_their_output(
    response: JsonView,
    longer: JsonView,
    items: Seq<JsonView>,
    item: JsonView,
    blocks: Seq<JsonView>,
    block: JsonView,
    words: Seq<char>,
)
    requires
        !text::is_blank(words),
    ensures
        response.get("output_text"@) == Some(JsonView::Text(words)) ==> responses_text(response)
            == Some(words),
        (item.get("type"@) == Some(JsonView::Text("output_text"@)) || item.get("type"@) == Some(
            JsonView::Text("text"@),
        )) && item.get("text"@) == Some(JsonView::Text(words)) ==> output_texts(items.push(item))
            == output_texts(items).push(words),
        (block.get("type"@) == Some(JsonView::Text("output_text"@)) || block.get("type"@) == Some(
            JsonView::Text("text"@),
        )) && block.get("text"@) == Some(JsonView::Text(words)) ==> block_texts(blocks.push(block))
            == block_texts(blocks).push(words),
        block.get("type"@) is None ==> block_texts(blocks.push(block)) == block_texts(blocks),
        item.get("text"@) is None && item.get("content"@) == Some(JsonView::Array(blocks))
            ==> output_texts(items.push(item)) == output_texts(items) + block_texts(blocks),
        response.get("output_text"@) is None && response.get("output"@) == Some(
            JsonView::Array(items),
        ) && output_texts(items) == seq![words] ==> responses_text(response) == Some(words),
        response.get("output_text"@) is None && response.get("output"@) == Some(
            JsonView::Array(items),
        ) && longer.get("output_text"@) is None && longer.get("output"@) == Some(
            JsonView::Array(items.push(item)),
        ) && output_texts(items).len() > 0 && output_texts(items.push(item)) == output_texts(
            items,
        ).push(words) ==> responses_text(longer) == Some(responses_text(response)->0 + words),
{
    reveal_strlit("");
    reveal_strlit("text");
    reveal_strlit("output_text");
    assert(""@.len() == 0 && "text"@.len() == 4 && "output_text"@.len() == 11);
    assert(items.push(item).drop_last() =~= items);
    assert(blocks.push(block).drop_last() =~= blocks);
    assert(output_texts(items) + seq![words] =~= output_texts(items).push(words));
    assert(block_texts(blocks) + seq![words] =~= block_texts(blocks).push(words));
    assert(block_texts(blocks) + Seq::<Seq<char>>::empty() =~= block_texts(blocks));
    text::law_joining_keeps_every_part(output_texts(items), seq![words], words, ""@);
    let before = text::joined(output_texts(items), ""@);
    assert(before + ""@ + words =~= before + words);
}

/// The summary of a response has a line for each summary of its reasoning, as it
/// stands.
pub proof fn law_summaries_are_taken_as_they_stand(
    items: Seq<JsonView>,
    item: JsonView,
    entries: Seq<JsonView>,
    entry: JsonView,
    words: Seq<char>,
)
    requires
        !text::is_blank(words),
    ensures
        item.get("type"@) == Some(JsonView::Text("reasoning"@)) && item.get("summary"@) == Some(
            JsonView::Text(words),
        ) ==> summary_texts(items.push(item)) == summary_texts(items).push(words),
        item.get("type"@) == Some(JsonView::Text("reasoning"@)) && item.get("summary"@) == Some(
            JsonView::Array(entries),
        ) ==> summary_texts(items.push(item)) == summary_texts(items) + entry_texts(entries),
        entry.get("text"@) == Some(JsonView::Text(words)) ==> entry_texts(entries.push(entry))
            == entry_texts(entries).push(words),
        item.get("type"@) != Some(JsonView::Text("reasoning"@)) ==> summary_texts(items.push(item))
            == summary_texts(items),
{
    reveal_strlit("");
    reveal_strlit("reasoning");
    assert(""@.len() == 0 && "reasoning"@.len() == 9);
    assert(items.push(item).drop_last() =~= items);
    assert(entries.push(entry).drop_last() =~= entries);
    assert(summary_texts(items) + seq![words] =~= summary_texts(items).push(words));
    assert(summary_texts(items) + Seq::<Seq<char>>::empty() =~= summary_texts(items));
    assert(entry_texts(entries) + seq![words] =~= entry_texts(entries).push(words));
}

/// An answer with a text is that text, unchanged, with the usage that was reported.
pub proof fn law_answers_are_their_text(words: Seq<char>, usage: TokenUsage)
    ensures
        answer(Some(words), Some(usage)) == Ok::<(Seq<char>, TokenUsage), AttemptView>(
            (words, usage),
        ),
        answer(Some(words), None) == Ok::<(Seq<char>, TokenUsage), AttemptView>(
            (words, TokenUsage::nothing()),
        ),
        answer(None, Some(usage)) is Err,
{
}

/// The summary of a response is that of its items, each as it stands, with a line feed
/// between two of them.
pub proof fn law_summaries_of_responses_are_those_of_their_items(
    response: JsonView,
    items: Seq<JsonView>,
    words: Seq<char>,
)
    requires
        response.get("output"@) == Some(JsonView::Array(items)),
    ensures
        summary_texts(items).len() == 0 ==> responses_summary(response) is None,
        summary_texts(items) == seq![words] ==> responses_summary(response) == Some(words),
        summary_texts(items).len() > 0 ==> responses_summary(response) == Some(
            text::joined(summary_texts(items), seq!['\n']),
        ),
{
    reveal_strlit("\n");
    assert("\n"@ =~= seq!['\n']);
}

/// A part of the summary is told by its own number, or else by that of the summary.
pub proof fn law_parts_are_told_by_their_numbers(event: JsonView, summary: JsonView, n: i64)
    ensures
        event.get("summary_index"@) == Some(JsonView::Int(n as int)) ==> summary_index(event)
            == Some(n),
        event.get("summary_index"@) is None && event.get("summary"@) == Some(summary)
            && summary.get("index"@) == Some(JsonView::Int(n as int)) ==> summary_index(event)
            == Some(n),
        event.get("summary_index"@) is None && event.get("summary"@) is None ==> summary_index(
            event,
        ) is None,
{
}

/// The kind of an event decides on what its delta is: reasoning where it speaks of
/// reasoning or of a summary, output where it speaks of output text or of a message,
/// and neither otherwise. A delta that does not stand under that name is looked for
/// as the text of the event, and then further in.
pub proof fn law_kinds_decide_on_deltas(
    event: JsonView,
    kind: Seq<char>,
    inner: JsonView,
    words: Seq<char>,
)
    requires
        event.get("type"@) == Some(JsonView::Text(kind)),
        text::ends_with(text::lowered(kind), ".delta"@),
    ensures
        ({
            let name = text::lowered(kind);
            let thinks = text::occurs(name, "reasoning"@) || text::occurs(name, "summary"@);
            let speaks = !thinks && (text::occurs(name, "output_text"@) || text::occurs(
                name,
                "message"@,
            ));
            let direct = event.get("delta"@) == Some(JsonView::Text(words));
            let by_text = event.get("delta"@) is None && event.get("text"@) == Some(
                JsonView::Text(words),
            );
            let apart = event.get("delta"@) is None && event.get("text"@) is None;
            &&& speaks && (direct || by_text) ==> responses_content_delta(event) == Some(words)
            &&& speaks && apart && event.get("content"@) == Some(inner) && inner.get("delta"@)
                == Some(JsonView::Text(words)) ==> responses_content_delta(event) == Some(words)
            &&& !speaks ==> responses_content_delta(event) is None
            &&& thinks && (direct || by_text) ==> responses_reasoning_delta(event) == Some(words)
            &&& thinks && apart && event.get("summary"@) == Some(inner) && inner.get("text"@)
                == Some(JsonView::Text(words)) ==> responses_reasoning_delta(event) == Some(words)
            &&& !thinks ==> responses_reasoning_delta(event) is None
        }),
{
}

} // verus!
