//! What the Messages API answers: the events of a stream and whole responses.
use crate::json::{self, Json, JsonView};
use crate::model::TokenUsage;
use crate::providers::attempts::{self, AttemptFailure, AttemptView};
use crate::text;
use vstd::prelude::*;
use vstd::string::StringExecFns;

verus! {

/// The type of an event in lower case.
pub open spec fn event_kind(event: JsonView) -> Seq<char> {
    text::lowered(json::str_or_empty(event.get("type"@)))
}

/// Whether a type is that of a piece of reasoning.
pub open spec fn is_reasoning_kind(kind: Seq<char>) -> bool {
    text::occurs(kind, "thinking"@) || text::occurs(kind, "reasoning"@)
}

fn reads_as_reasoning(kind: &str) -> (r: bool)
    ensures
        r == is_reasoning_kind(kind@),
{
    text::contains(kind, "thinking") || text::contains(kind, "reasoning")
}

/// The piece of reasoning in the part `part` of an event.
pub open spec fn reasoning_in(event: JsonView, part: Seq<char>) -> Option<Seq<char>> {
    if is_reasoning_kind(text::lowered(json::str_or_empty(json::get_in(event.get(part), "type"@)))) {
        text::first_text(
            json::str_in(json::get_in(event.get(part), "thinking"@)),
            json::str_in(json::get_in(event.get(part), "text"@)),
        )
    } else {
        None
    }
}

/// The piece of reasoning that an event brings.
pub open spec fn reasoning_delta(event: JsonView) -> Option<Seq<char>> {
    if event_kind(event) == "content_block_start"@ {
        reasoning_in(event, "content_block"@)
    } else if event_kind(event) == "content_block_delta"@ {
        reasoning_in(event, "delta"@)
    } else {
        None
    }
}

fn find_reasoning(event: &Json, part: &str) -> (r: Option<String>)
    ensures
        text::opt_text(r) == reasoning_in(event@, part@),
{
    let kind = text::lower(text::or_other(event.get2_str(part, "type"), ""));
    if !reads_as_reasoning(&kind) {
        return None;
    }
    match event.get2_str(part, "thinking") {
        Some(s) => Some(s.to_owned()),
        None => text::owned(event.get2_str(part, "text")),
    }
}

/// The piece of reasoning that an event brings.
pub fn extract_anthropic_reasoning_delta(event: &Json) -> (r: Option<String>)
    ensures
        text::opt_text(r) == reasoning_delta(event@),
{
    let kind = text::lower(text::or_other(event.get_str("type"), ""));
    if text::same(&kind, "content_block_start") {
        find_reasoning(event, "content_block")
    } else if text::same(&kind, "content_block_delta") {
        find_reasoning(event, "delta")
    } else {
        None
    }
}

/// The block that an event belongs to.
pub open spec fn block_index(event: JsonView) -> Option<i64> {
    if event_kind(event) == "content_block_start"@ || event_kind(event) == "content_block_delta"@ {
        json::i64_in(event.get("index"@))
    } else {
        None
    }
}

/// The block that an event belongs to.
pub fn extract_anthropic_reasoning_index(event: &Json) -> (r: Option<i64>)
    ensures
        r == block_index(event@),
{
    let kind = text::lower(text::or_other(event.get_str("type"), ""));
    if text::same(&kind, "content_block_start") || text::same(&kind, "content_block_delta") {
        match event.get("index") {
            Some(index) => index.as_i64(),
            None => None,
        }
    } else {
        None
    }
}

/// The piece of text in the part `part` of an event, where it is of this type.
pub open spec fn content_in(event: JsonView, part: Seq<char>, kind: Seq<char>) -> Option<
    Seq<char>,
> {
    if text::lowered(json::str_or_empty(json::get_in(event.get(part), "type"@))) == kind {
        json::str_in(json::get_in(event.get(part), "text"@))
    } else {
        None
    }
}

/// The piece of text that an event brings.
pub open spec fn content_delta(event: JsonView) -> Option<Seq<char>> {
    if event_kind(event) == "content_block_start"@ {
        content_in(event, "content_block"@, "text"@)
    } else if event_kind(event) == "content_block_delta"@ {
        content_in(event, "delta"@, "text_delta"@)
    } else {
        None
    }
}

fn find_content(event: &Json, part: &str, wanted: &str) -> (r: Option<String>)
    ensures
        text::opt_text(r) == content_in(event@, part@, wanted@),
{
    let kind = text::lower(text::or_other(event.get2_str(part, "type"), ""));
    if text::same(&kind, wanted) {
        text::owned(event.get2_str(part, "text"))
    } else {
        None
    }
}

/// The piece of text that an event brings.
pub fn extract_anthropic_content_delta(event: &Json) -> (r: Option<String>)
    ensures
        text::opt_text(r) == content_delta(event@),
{
    let kind = text::lower(text::or_other(event.get_str("type"), ""));
    if text::same(&kind, "content_block_start") {
        find_content(event, "content_block", "text")
    } else if text::same(&kind, "content_block_delta") {
        find_content(event, "delta", "text_delta")
    } else {
        None
    }
}

/// The number that an optional value is, or zero.
pub open spec fn u64_or_zero(value: Option<JsonView>) -> u64 {
    match json::u64_in(value) {
        Some(n) => n,
        None => 0,
    }
}

/// What a usage object reports.
pub open spec fn usage_in(usage: JsonView) -> TokenUsage {
    TokenUsage {
        input_tokens: u64_or_zero(usage.get("input_tokens"@)),
        output_tokens: u64_or_zero(usage.get("output_tokens"@)),
        cache_read_input_tokens: json::u64_in(usage.get("cache_read_input_tokens"@)),
        cache_creation_input_tokens: json::u64_in(usage.get("cache_creation_input_tokens"@)),
        reasoning_tokens: None,
    }
}

/// What a usage object reports.
pub fn read_anthropic_usage_object(usage: &Json) -> (r: TokenUsage)
    ensures
        r == usage_in(usage@),
{
    let input_tokens: u64 = match usage.get_u64("input_tokens") {
        Some(n) => n,
        None => 0,
    };
    let output_tokens: u64 = match usage.get_u64("output_tokens") {
        Some(n) => n,
        None => 0,
    };
    TokenUsage {
        input_tokens,
        output_tokens,
        cache_read_input_tokens: usage.get_u64("cache_read_input_tokens"),
        cache_creation_input_tokens: usage.get_u64("cache_creation_input_tokens"),
        reasoning_tokens: None,
    }
}

/// What a response reports as its usage.
pub open spec fn response_usage(response: JsonView) -> TokenUsage {
    match response.get("usage"@) {
        Some(usage) => usage_in(usage),
        None => TokenUsage::nothing(),
    }
}

/// What a response reports as its usage.
pub fn extract_anthropic_response_usage(response: &Json) -> (r: TokenUsage)
    ensures
        r == response_usage(response@),
{
    match response.get("usage") {
        Some(usage) => read_anthropic_usage_object(usage),
        None => TokenUsage::default(),
    }
}

/// The first of two optional numbers that is there.
pub open spec fn first_count(first: Option<u64>, second: Option<u64>) -> Option<u64> {
    if first is Some {
        first
    } else {
        second
    }
}

/// The usage known after an event. The start of a message reports its input; the
/// output is reported as it grows, each time in full.
pub open spec fn usage_after(event: JsonView, usage: TokenUsage) -> TokenUsage {
    let kind = json::str_or_empty(event.get("type"@));
    if kind == "message_start"@ {
        match json::get_in(event.get("message"@), "usage"@) {
            Some(reported) => {
                let parsed = usage_in(reported);
                TokenUsage {
                    input_tokens: parsed.input_tokens,
                    output_tokens: parsed.output_tokens,
                    cache_read_input_tokens: first_count(
                        parsed.cache_read_input_tokens,
                        usage.cache_read_input_tokens,
                    ),
                    cache_creation_input_tokens: first_count(
                        parsed.cache_creation_input_tokens,
                        usage.cache_creation_input_tokens,
                    ),
                    ..usage
                }
            },
            None => usage,
        }
    } else if kind == "message_delta"@ {
        match json::u64_in(json::get_in(event.get("usage"@), "output_tokens"@)) {
            Some(n) => TokenUsage { output_tokens: n, ..usage },
            None => usage,
        }
    } else {
        usage
    }
}

/// Takes the usage in that an event reports.
pub fn update_anthropic_usage_from_event(event: &Json, usage: &mut TokenUsage)
    ensures
        *final(usage) == usage_after(event@, *old(usage)),
{
    proof {
        reveal_strlit("message_start");
        reveal_strlit("message_delta");
        assert("message_start"@[8] != "message_delta"@[8]);
    }
    let kind = text::or_other(event.get_str("type"), "");
    if text::same(kind, "message_start") {
        match event.get2("message", "usage") {
            Some(reported) => {
                let parsed = read_anthropic_usage_object(reported);
                usage.input_tokens = parsed.input_tokens;
                usage.output_tokens = parsed.output_tokens;
                if parsed.cache_read_input_tokens.is_some() {
                    usage.cache_read_input_tokens = parsed.cache_read_input_tokens;
                }
                if parsed.cache_creation_input_tokens.is_some() {
                    usage.cache_creation_input_tokens = parsed.cache_creation_input_tokens;
                }
            },
            None => {},
        }
    } else if text::same(kind, "message_delta") {
        match event.get2_u64("usage", "output_tokens") {
            Some(n) => {
                usage.output_tokens = n;
            },
            None => {},
        }
    }
}

/// The text of a block, where it is one and not blank.
pub open spec fn block_text(block: JsonView) -> Option<Seq<char>> {
    if json::str_or_empty(block.get("type"@)) == "text"@ {
        text::unless_blank(json::str_in(block.get("text"@)))
    } else {
        None
    }
}

/// The reasoning of a block, where it is some and not blank.
pub open spec fn block_reasoning(block: JsonView) -> Option<Seq<char>> {
    if is_reasoning_kind(text::lowered(json::str_or_empty(block.get("type"@)))) {
        text::unless_blank(
            text::first_text(json::str_in(block.get("thinking"@)), json::str_in(block.get("text"@))),
        )
    } else {
        None
    }
}

/// The texts of the blocks, in order.
pub open spec fn block_texts(blocks: Seq<JsonView>) -> Seq<Seq<char>>
    decreases blocks.len(),
{
    if blocks.len() == 0 {
        Seq::empty()
    } else {
        match block_text(blocks.last()) {
            Some(s) => block_texts(blocks.drop_last()).push(s),
            None => block_texts(blocks.drop_last()),
        }
    }
}

/// The reasoning of the blocks, in order.
pub open spec fn block_reasonings(blocks: Seq<JsonView>) -> Seq<Seq<char>>
    decreases blocks.len(),
{
    if blocks.len() == 0 {
        Seq::empty()
    } else {
        match block_reasoning(blocks.last()) {
            Some(s) => block_reasonings(blocks.drop_last()).push(s),
            None => block_reasonings(blocks.drop_last()),
        }
    }
}

/// The blocks of a response.
pub open spec fn response_blocks(response: JsonView) -> Seq<JsonView> {
    match json::array_in(response.get("content"@)) {
        Some(blocks) => blocks,
        None => Seq::empty(),
    }
}

/// The text of a response: that of its text blocks, or that of its first block
/// whatever its type.
pub open spec fn response_text(response: JsonView) -> Option<Seq<char>> {
    let chunks = block_texts(response_blocks(response));
    if chunks.len() > 0 {
        Some(text::joined(chunks, ""@))
    } else {
        match response.get("content"@) {
            Some(content) => text::unless_blank(json::str_in(json::get_in(content.first(), "text"@))),
            None => None,
        }
    }
}

/// The reasoning of a response.
pub open spec fn response_reasoning(response: JsonView) -> Option<Seq<char>> {
    let chunks = block_reasonings(response_blocks(response));
    if chunks.len() > 0 {
        Some(text::joined(chunks, "\n"@))
    } else {
        None
    }
}

fn find_block_text(block: &Json) -> (r: Option<&str>)
    ensures
        text::opt_str(r) == block_text(block@),
{
    if text::same(text::or_other(block.get_str("type"), ""), "text") {
        text::spare_blank(block.get_str("text"))
    } else {
        None
    }
}

fn find_block_reasoning(block: &Json) -> (r: Option<&str>)
    ensures
        text::opt_str(r) == block_reasoning(block@),
{
    if !reads_as_reasoning(&text::lower(text::or_other(block.get_str("type"), ""))) {
        return None;
    }
    match block.get_str("thinking") {
        Some(s) => text::spare_blank(Some(s)),
        None => text::spare_blank(block.get_str("text")),
    }
}

/// The text of a response.
pub fn extract_anthropic_non_stream_content(response: &Json) -> (r: Option<String>)
    ensures
        text::opt_text(r) == response_text(response@),
{
    let mut chunks: Vec<String> = Vec::new();
    match response.get_array("content") {
        Some(blocks) => {
            let mut i: usize = 0;
            while i < blocks.len()
                invariant
                    i <= blocks.len(),
                    text::texts(chunks@) == block_texts(json::views_of(blocks@).take(i as int)),
                decreases blocks.len() - i,
            {
                proof {
                    json::lemma_views_of(blocks@);
                    let all = json::views_of(blocks@);
                    assert(all.take(i + 1).drop_last() =~= all.take(i as int));
                }
                match find_block_text(&blocks[i]) {
                    Some(s) => {
                        let ghost before = text::texts(chunks@);
                        chunks.push(s.to_owned());
                        assert(text::texts(chunks@) =~= before.push(s@));
                    },
                    None => {},
                }
                i += 1;
            }
            proof {
                json::lemma_views_of(blocks@);
                assert(json::views_of(blocks@).take(i as int) =~= json::views_of(blocks@));
            }
        },
        None => {},
    }
    assert(text::texts(chunks@) =~= block_texts(response_blocks(response@)));
    if chunks.len() == 0 {
        match response.get("content") {
            Some(content) => match content.first() {
                Some(block) => text::owned(text::spare_blank(block.get_str("text"))),
                None => None,
            },
            None => None,
        }
    } else {
        Some(text::join(&chunks, ""))
    }
}

/// The reasoning of a response.
pub fn extract_anthropic_non_stream_reasoning(response: &Json) -> (r: Option<String>)
    ensures
        text::opt_text(r) == response_reasoning(response@),
{
    let mut chunks: Vec<String> = Vec::new();
    match response.get_array("content") {
        Some(blocks) => {
            let mut i: usize = 0;
            while i < blocks.len()
                invariant
                    i <= blocks.len(),
                    text::texts(chunks@) == block_reasonings(
                        json::views_of(blocks@).take(i as int),
                    ),
                decreases blocks.len() - i,
            {
                proof {
                    json::lemma_views_of(blocks@);
                    let all = json::views_of(blocks@);
                    assert(all.take(i + 1).drop_last() =~= all.take(i as int));
                }
                match find_block_reasoning(&blocks[i]) {
                    Some(s) => {
                        let ghost before = text::texts(chunks@);
                        chunks.push(s.to_owned());
                        assert(text::texts(chunks@) =~= before.push(s@));
                    },
                    None => {},
                }
                i += 1;
            }
            proof {
                json::lemma_views_of(blocks@);
                assert(json::views_of(blocks@).take(i as int) =~= json::views_of(blocks@));
            }
        },
        None => {},
    }
    assert(text::texts(chunks@) =~= block_reasonings(response_blocks(response@)));
    if chunks.len() == 0 {
        None
    } else {
        Some(text::join(&chunks, "\n"))
    }
}

/// The token ceiling that a payload sets, in words.
pub open spec fn ceiling_text(payload: JsonView) -> Seq<char> {
    match json::u64_in(payload.get("max_tokens"@)) {
        Some(n) => text::decimal(n as nat),
        None => "unset"@,
    }
}

/// The failure that a turn without text stands for.
pub open spec fn no_text(
    payload: JsonView,
    stop_reason: Option<Seq<char>>,
    saw_thinking: bool,
    generic_message: Seq<char>,
) -> AttemptView {
    attempts::plain_failure(
        if stop_reason == Some("max_tokens"@) && saw_thinking {
            "the model spent its entire max_tokens budget ("@ + ceiling_text(payload)
                + ") on extended thinking and never emitted a text block; raise max_tokens or lower --reasoning-effort"@
        } else if stop_reason == Some("max_tokens"@) {
            "the response hit max_tokens ("@ + ceiling_text(payload)
                + ") before producing any text"@
        } else if saw_thinking {
            "the response contained a thinking block and no text (stop_reason: "@ + (
            match stop_reason {
                Some(reason) => reason,
                None => "unreported"@,
            }) + ")"@
        } else {
            generic_message
        },
    )
}

/// The failure that a turn without text stands for.
///
/// The usual cause is an exhausted budget: thinking spent every token on the
/// reasoning pass, so the turn ended with a thinking block and nothing after it.
pub fn empty_output_failure(
    payload: &Json,
    stop_reason: Option<&str>,
    saw_thinking: bool,
    generic_message: &str,
) -> (r: AttemptFailure)
    ensures
        r@ == no_text(payload@, text::opt_str(stop_reason), saw_thinking, generic_message@),
{
    let ceiling = match payload.get_u64("max_tokens") {
        Some(n) => text::decimal_text(n),
        None => "unset".to_owned(),
    };
    let exhausted = match stop_reason {
        Some(reason) => text::same(reason, "max_tokens"),
        None => false,
    };
    if exhausted {
        if saw_thinking {
            let mut report = "the model spent its entire max_tokens budget (".to_owned();
            report.append(&ceiling);
            report.append(
                ") on extended thinking and never emitted a text block; raise max_tokens or lower --reasoning-effort",
            );
            return AttemptFailure::from(report);
        }
        let mut report = "the response hit max_tokens (".to_owned();
        report.append(&ceiling);
        report.append(") before producing any text");
        return AttemptFailure::from(report);
    }
    if saw_thinking {
        let reason = match stop_reason {
            Some(reason) => reason,
            None => "unreported",
        };
        let mut report =
            "the response contained a thinking block and no text (stop_reason: ".to_owned();
        report.append(reason);
        report.append(")");
        return AttemptFailure::from(report);
    }
    AttemptFailure::from(generic_message.to_owned())
}

/// Whether the blocks hold one of type `thinking`.
pub open spec fn holds_thinking(blocks: Seq<JsonView>) -> bool {
    exists|i: int|
        0 <= i < blocks.len() && json::str_in((#[trigger] blocks[i]).get("type"@)) == Some(
            "thinking"@,
        )
}

fn find_thinking(response: &Json) -> (r: bool)
    ensures
        r == holds_thinking(response_blocks(response@)),
{
    match response.get_array("content") {
        Some(blocks) => {
            proof {
                json::lemma_views_of(blocks@);
            }
            let mut i: usize = 0;
            while i < blocks.len()
                invariant
                    i <= blocks.len(),
                    json::views_of(blocks@) == response_blocks(response@),
                    json::views_of(blocks@).len() == blocks.len(),
                    forall|j: int|
                        0 <= j < blocks.len() ==> #[trigger] json::views_of(blocks@)[j]
                            == json::view_of(blocks@[j]),
                    forall|j: int|
                        0 <= j < i ==> json::str_in(
                            (#[trigger] json::views_of(blocks@)[j]).get("type"@),
                        ) != Some("thinking"@),
                decreases blocks.len() - i,
            {
                match blocks[i].get_str("type") {
                    Some(kind) => {
                        if text::same(kind, "thinking") {
                            assert(json::str_in(
                                json::views_of(blocks@)[i as int].get("type"@),
                            ) == Some("thinking"@));
                            return true;
                        }
                    },
                    None => {},
                }
                i += 1;
            }
            false
        },
        None => false,
    }
}

/// What a whole response to `payload` gives.
pub open spec fn whole_response(payload: JsonView, response: JsonView) -> Result<
    (Seq<char>, TokenUsage),
    AttemptView,
> {
    match response_text(response) {
        Some(content) => Ok((content, response_usage(response))),
        None => Err(
            no_text(
                payload,
                json::str_in(response.get("stop_reason"@)),
                holds_thinking(response_blocks(response)),
                "Anthropic provider returned an unexpected response payload"@,
            ),
        ),
    }
}

/// What a whole response to `payload` gives.
pub fn non_stream_attempt(payload: &Json, response: &Json) -> (r: Result<
    (String, TokenUsage),
    AttemptFailure,
>)
    ensures
        attempts::attempt_view(r) == whole_response(payload@, response@),
{
    match extract_anthropic_non_stream_content(response) {
        Some(content) => Ok((content, extract_anthropic_response_usage(response))),
        None => Err(
            empty_output_failure(
                payload,
                response.get_str("stop_reason"),
                find_thinking(response),
                "Anthropic provider returned an unexpected response payload",
            ),
        ),
    }
}

proof fn lemma_event_kinds()
    ensures
        text::lowered("content_block_start"@) == "content_block_start"@,
        text::lowered("content_block_delta"@) == "content_block_delta"@,
        text::lowered("text"@) == "text"@,
        text::lowered("text_delta"@) == "text_delta"@,
        text::lowered("thinking_delta"@) == "thinking_delta"@,
        text::lowered("thinking"@) == "thinking"@,
        "content_block_start"@ != "content_block_delta"@,
        "text"@ != "thinking"@,
        "text_delta"@ != "thinking_delta"@,
        text::occurs("thinking_delta"@, "thinking"@),
        text::occurs("thinking"@, "thinking"@),
{
    reveal_strlit("content_block_start");
    reveal_strlit("content_block_delta");
    reveal_strlit("text");
    reveal_strlit("text_delta");
    reveal_strlit("thinking_delta");
    reveal_strlit("thinking");
    reveal_with_fuel(text::is_small_from, 21);
    text::lemma_small_text_stays("content_block_start"@);
    text::lemma_small_text_stays("content_block_delta"@);
    text::lemma_small_text_stays("text"@);
    text::lemma_small_text_stays("text_delta"@);
    text::lemma_small_text_stays("thinking_delta"@);
    text::lemma_small_text_stays("thinking"@);
    assert("content_block_start"@[14] != "content_block_delta"@[14]);
    assert("thinking_delta"@.subrange(0, 8) =~= "thinking"@);
    assert(text::is_at("thinking_delta"@, "thinking"@, 0));
    assert("thinking"@.subrange(0, 8) =~= "thinking"@);
    assert(text::is_at("thinking"@, "thinking"@, 0));
}

/// A piece of text is taken as it stands in the event that brings it: in a delta of
/// text, or in a block of text that starts.
pub proof fn law_pieces_of_text_are_taken_as_they_stand(
    event: JsonView,
    part: JsonView,
    words: Seq<char>,
)
    requires
        part.get("text"@) == Some(JsonView::Text(words)),
    ensures
        event.get("type"@) == Some(JsonView::Text("content_block_delta"@)) && event.get("delta"@)
            == Some(part) && part.get("type"@) == Some(JsonView::Text("text_delta"@))
            ==> content_delta(event) == Some(words),
        event.get("type"@) == Some(JsonView::Text("content_block_start"@)) && event.get(
            "content_block"@,
        ) == Some(part) && part.get("type"@) == Some(JsonView::Text("text"@)) ==> content_delta(
            event,
        ) == Some(words),
{
    lemma_event_kinds();
}

/// Nothing else brings text: no other event, and no delta or block of thinking.
pub proof fn law_nothing_else_brings_text(event: JsonView, part: JsonView)
    ensures
        !(event.get("type"@) matches Some(JsonView::Text(_))) ==> content_delta(event) is None,
        event.get("type"@) matches Some(JsonView::Text(kind)) && text::lowered(kind)
            != "content_block_start"@ && text::lowered(kind) != "content_block_delta"@
            ==> content_delta(event) is None,
        event.get("type"@) == Some(JsonView::Text("content_block_delta"@)) && event.get("delta"@)
            == Some(part) && part.get("type"@) == Some(JsonView::Text("thinking_delta"@))
            ==> content_delta(event) is None,
        event.get("type"@) == Some(JsonView::Text("content_block_start"@)) && event.get(
            "content_block"@,
        ) == Some(part) && part.get("type"@) == Some(JsonView::Text("thinking"@))
            ==> content_delta(event) is None,
{
    lemma_event_kinds();
    reveal_strlit("");
    reveal_strlit("content_block_start");
    reveal_strlit("content_block_delta");
    assert(""@.len() == 0 && "content_block_start"@.len() == 19);
    assert("content_block_delta"@.len() == 19);
}

/// A piece of reasoning is taken as it stands in the event that brings it.
pub proof fn law_pieces_of_reasoning_are_taken_as_they_stand(
    event: JsonView,
    part: JsonView,
    words: Seq<char>,
)
    requires
        part.get("thinking"@) == Some(JsonView::Text(words)),
    ensures
        event.get("type"@) == Some(JsonView::Text("content_block_delta"@)) && event.get("delta"@)
            == Some(part) && part.get("type"@) == Some(JsonView::Text("thinking_delta"@))
            ==> reasoning_delta(event) == Some(words),
        event.get("type"@) == Some(JsonView::Text("content_block_start"@)) && event.get(
            "content_block"@,
        ) == Some(part) && part.get("type"@) == Some(JsonView::Text("thinking"@))
            ==> reasoning_delta(event) == Some(words),
{
    lemma_event_kinds();
}

/// A usage object is read by its names: each figure is the one that stands under its
/// own name, and a figure that is not there is zero or absent.
pub proof fn law_usage_is_read_by_its_names(usage: JsonView, n: u64)
    ensures
        ({
            let read = usage_in(usage);
            let figure = Some(JsonView::Int(n as int));
            &&& usage.get("input_tokens"@) == figure ==> read.input_tokens == n
            &&& usage.get("output_tokens"@) == figure ==> read.output_tokens == n
            &&& usage.get("cache_read_input_tokens"@) == figure ==> read.cache_read_input_tokens
                == Some(n)
            &&& usage.get("cache_creation_input_tokens"@) == figure
                ==> read.cache_creation_input_tokens == Some(n)
            &&& usage.get("input_tokens"@) is None ==> read.input_tokens == 0
            &&& usage.get("output_tokens"@) is None ==> read.output_tokens == 0
            &&& usage.get("cache_read_input_tokens"@) is None ==> read.cache_read_input_tokens
                is None
            &&& usage.get("cache_creation_input_tokens"@) is None
                ==> read.cache_creation_input_tokens is None
            &&& read.reasoning_tokens is None
        }),
{
}

/// The start of a message sets what the message reports as its usage; each later
/// report replaces the output alone; no other event changes the usage.
pub proof fn law_usage_follows_the_reports(
    event: JsonView,
    usage: TokenUsage,
    message: JsonView,
    reported: JsonView,
    n: u64,
)
    ensures
        event.get("type"@) == Some(JsonView::Text("message_start"@)) && event.get("message"@)
            == Some(message) && message.get("usage"@) == Some(reported) ==> ({
            let next = usage_after(event, usage);
            &&& next.input_tokens == usage_in(reported).input_tokens
            &&& next.output_tokens == usage_in(reported).output_tokens
            &&& usage_in(reported).cache_read_input_tokens is Some ==> next.cache_read_input_tokens
                == usage_in(reported).cache_read_input_tokens
            &&& usage_in(reported).cache_read_input_tokens is None ==> next.cache_read_input_tokens
                == usage.cache_read_input_tokens
            &&& usage_in(reported).cache_creation_input_tokens is Some
                ==> next.cache_creation_input_tokens == usage_in(
                reported,
            ).cache_creation_input_tokens
            &&& usage_in(reported).cache_creation_input_tokens is None
                ==> next.cache_creation_input_tokens == usage.cache_creation_input_tokens
            &&& next.reasoning_tokens == usage.reasoning_tokens
        }),
        event.get("type"@) == Some(JsonView::Text("message_delta"@)) && event.get("usage"@) == Some(
            reported,
        ) && reported.get("output_tokens"@) == Some(JsonView::Int(n as int)) ==> usage_after(
            event,
            usage,
        ) == (TokenUsage { output_tokens: n, ..usage }),
        event.get("type"@) == Some(JsonView::Text("message_delta"@)) && event.get("usage"@) is None
            ==> usage_after(event, usage) == usage,
        event.get("type"@) != Some(JsonView::Text("message_start"@)) && event.get("type"@) != Some(
            JsonView::Text("message_delta"@),
        ) ==> usage_after(event, usage) == usage,
{
    reveal_strlit("message_start");
    reveal_strlit("message_delta");
    reveal_strlit("");
    assert("message_start"@[8] != "message_delta"@[8]);
    assert(""@.len() == 0 && "message_start"@.len() == 13 && "message_delta"@.len() == 13);
}

/// The text of a whole response grows by the text of each block of text, as it
/// stands, and by nothing of any other block.
pub proof fn law_every_block_of_text_counts(
    response: JsonView,
    longer: JsonView,
    blocks: Seq<JsonView>,
    block: JsonView,
    before: Seq<char>,
    words: Seq<char>,
)
    requires
        response.get("content"@) == Some(JsonView::Array(blocks)),
        longer.get("content"@) == Some(JsonView::Array(blocks.push(block))),
    ensures
        block.get("type"@) == Some(JsonView::Text("text"@)) && block.get("text"@) == Some(
            JsonView::Text(words),
        ) && !text::is_blank(words) && block_texts(blocks).len() == 0 ==> response_text(longer)
            == Some(words),
        block.get("type"@) == Some(JsonView::Text("text"@)) && block.get("text"@) == Some(
            JsonView::Text(words),
        ) && !text::is_blank(words) && block_texts(blocks).len() > 0 && response_text(response)
            == Some(before) ==> response_text(longer) == Some(before + words),
        block.get("type"@) != Some(JsonView::Text("text"@)) && block_texts(blocks).len() > 0
            ==> response_text(longer) == response_text(response),
{
    reveal_strlit("");
    reveal_strlit("text");
    assert(""@.len() == 0 && "text"@.len() == 4);
    assert(blocks.push(block).drop_last() =~= blocks);
    let chunks = block_texts(blocks);
    text::law_joining_keeps_every_part(chunks, seq![words], words, ""@);
    assert(chunks.push(words) =~= chunks + seq![words]);
    if chunks.len() == 0 {
        assert(chunks.push(words) =~= seq![words]);
    }
    assert(before + ""@ + words =~= before + words);
}

/// Whether a block brings text: it says so, and its text is not blank.
pub open spec fn brings_text(block: JsonView) -> bool {
    block.get("type"@) == Some(JsonView::Text("text"@)) && (block.get("text"@) matches Some(
        JsonView::Text(words),
    ) && !text::is_blank(words))
}

/// There are no chunks of text exactly where no block brings any.
pub proof fn law_text_comes_of_blocks_of_text(blocks: Seq<JsonView>)
    ensures
        block_texts(blocks).len() > 0 <==> exists|i: int|
            0 <= i < blocks.len() && #[trigger] brings_text(blocks[i]),
    decreases blocks.len(),
{
    reveal_strlit("");
    reveal_strlit("text");
    assert(""@.len() == 0 && "text"@.len() == 4);
    if blocks.len() > 0 {
        law_text_comes_of_blocks_of_text(blocks.drop_last());
        let front = blocks.drop_last();
        let last = blocks.len() - 1;
        assert(brings_text(blocks.last()) == (block_text(blocks.last()) is Some));
        if exists|i: int| 0 <= i < front.len() && #[trigger] brings_text(front[i]) {
            let i = choose|i: int| 0 <= i < front.len() && #[trigger] brings_text(front[i]);
            assert(brings_text(blocks[i]));
        }
        if exists|i: int| 0 <= i < blocks.len() && #[trigger] brings_text(blocks[i]) {
            let i = choose|i: int| 0 <= i < blocks.len() && #[trigger] brings_text(blocks[i]);
            if i < last {
                assert(brings_text(front[i]));
            }
        }
        if brings_text(blocks.last()) {
            assert(brings_text(blocks[last]));
        }
    }
}

/// A whole response with a text is an answer of that text and of the usage that it
/// reports; one without is a failure after which another payload may work.
pub proof fn law_responses_are_answers_where_they_have_text(payload: JsonView, response: JsonView)
    ensures
        response_text(response) matches Some(words) ==> whole_response(payload, response) == Ok::<
            (Seq<char>, TokenUsage),
            AttemptView,
        >((words, response_usage(response))),
        response_text(response) is None ==> (whole_response(payload, response) matches Err(failure)
            && failure.kind == attempts::FailureKind::NextVariant && failure.retry_after is None),
        response.get("usage"@) matches Some(usage) ==> response_usage(response) == usage_in(usage),
        response.get("usage"@) is None ==> response_usage(response) == TokenUsage::nothing(),
{
}

/// A turn that spent all its tokens on thinking is reported as that, with the ceiling
/// that it hit; one that thought and said nothing with the reason that it stopped for;
/// and any other with the words that it is given.
pub proof fn law_silent_turns_say_why(
    payload: JsonView,
    ceiling: u64,
    reason: Seq<char>,
    generic_message: Seq<char>,
)
    requires
        payload.get("max_tokens"@) == Some(JsonView::Int(ceiling as int)),
    ensures
        text::starts_with(
            no_text(payload, Some("max_tokens"@), true, generic_message).report,
            "the model spent its entire max_tokens budget ("@ + text::decimal(ceiling as nat)
                + ") on extended thinking"@,
        ),
        no_text(payload, Some("max_tokens"@), false, generic_message).report
            == "the response hit max_tokens ("@ + text::decimal(ceiling as nat)
            + ") before producing any text"@,
        reason != "max_tokens"@ ==> text::ends_with(
            no_text(payload, Some(reason), true, generic_message).report,
            " (stop_reason: "@ + reason + ")"@,
        ),
        reason != "max_tokens"@ ==> no_text(payload, Some(reason), false, generic_message).report
            == generic_message,
        no_text(payload, None, false, generic_message).report == generic_message,
{
    let spent = no_text(payload, Some("max_tokens"@), true, generic_message).report;
    reveal_strlit(
        ") on extended thinking and never emitted a text block; raise max_tokens or lower --reasoning-effort",
    );
    reveal_strlit(") on extended thinking");
    let start = "the model spent its entire max_tokens budget ("@ + text::decimal(ceiling as nat);
    let long =
        ") on extended thinking and never emitted a text block; raise max_tokens or lower --reasoning-effort"@;
    assert(long.take(22) =~= ") on extended thinking"@);
    let head = start + ") on extended thinking"@;
    assert(spent =~= start + long);
    assert(spent.subrange(0, head.len() as int) =~= start + long.take(22));
    let thought = no_text(payload, Some(reason), true, generic_message).report;
    let tail = " (stop_reason: "@ + reason + ")"@;
    reveal_strlit("the response contained a thinking block and no text (stop_reason: ");
    reveal_strlit(" (stop_reason: ");
    let opening = "the response contained a thinking block and no text (stop_reason: "@;
    assert(opening.skip(51) =~= " (stop_reason: "@);
    if reason != "max_tokens"@ {
        assert(thought =~= opening + reason + ")"@);
        assert(thought.subrange(thought.len() - tail.len(), thought.len() as int) =~= opening.skip(
            51,
        ) + reason + ")"@);
    }
}

/// Where no block brings text, the first block may give one, whatever its type.
pub proof fn law_the_first_block_may_stand_in(
    response: JsonView,
    blocks: Seq<JsonView>,
    words: Seq<char>,
)
    requires
        response.get("content"@) == Some(JsonView::Array(blocks)),
        forall|i: int| 0 <= i < blocks.len() ==> !#[trigger] brings_text(blocks[i]),
    ensures
        blocks.len() > 0 && blocks[0].get("text"@) == Some(JsonView::Text(words))
            && !text::is_blank(words) ==> response_text(response) == Some(words),
        blocks.len() == 0 || !(blocks[0].get("text"@) matches Some(JsonView::Text(_)))
            ==> response_text(response) is None,
{
    law_text_comes_of_blocks_of_text(blocks);
}

/// The reasoning of a whole response has a line for each block of thinking, as it
/// stands, and nothing of any block of text.
pub proof fn law_every_block_of_thinking_counts(
    blocks: Seq<JsonView>,
    block: JsonView,
    words: Seq<char>,
)
    ensures
        block.get("type"@) == Some(JsonView::Text("thinking"@)) && block.get("thinking"@) == Some(
            JsonView::Text(words),
        ) && !text::is_blank(words) ==> block_reasonings(blocks.push(block)) == block_reasonings(
            blocks,
        ).push(words),
        block.get("type"@) == Some(JsonView::Text("text"@)) ==> block_reasonings(blocks.push(block))
            == block_reasonings(blocks),
        block_reasonings(Seq::empty()).len() == 0,
{
    lemma_event_kinds();
    assert(blocks.push(block).drop_last() =~= blocks);
    reveal_strlit("text");
    reveal_strlit("thinking");
    reveal_strlit("reasoning");
    assert("text"@.len() == 4 && "thinking"@.len() == 8 && "reasoning"@.len() == 9);
}

/// A part whose type speaks of neither thinking nor reasoning brings no reasoning.
pub proof fn law_only_reasoning_is_reasoning(event: JsonView, part: JsonView, kind: Seq<char>)
    requires
        part.get("type"@) == Some(JsonView::Text(kind)),
        !text::occurs(text::lowered(kind), "thinking"@),
        !text::occurs(text::lowered(kind), "reasoning"@),
        event.get("delta"@) == Some(part) || event.get("delta"@) is None,
        event.get("content_block"@) == Some(part) || event.get("content_block"@) is None,
    ensures
        block_reasoning(part) is None,
        reasoning_delta(event) is None,
{
    reveal_strlit("");
    reveal_strlit("thinking");
    reveal_strlit("reasoning");
    assert(text::lowered(""@) =~= ""@);
    text::law_nothing_else_is_found(""@, "thinking"@);
    text::law_nothing_else_is_found(""@, "reasoning"@);
}

/// The reasoning of a response is that of its blocks, each as it stands, with a line
/// feed between two of them.
pub proof fn law_reasoning_of_responses_is_that_of_their_blocks(
    response: JsonView,
    blocks: Seq<JsonView>,
    words: Seq<char>,
)
    requires
        response.get("content"@) == Some(JsonView::Array(blocks)),
    ensures
        block_reasonings(blocks).len() == 0 ==> response_reasoning(response) is None,
        block_reasonings(blocks) == seq![words] ==> response_reasoning(response) == Some(words),
        block_reasonings(blocks).len() > 0 ==> response_reasoning(response) == Some(
            text::joined(block_reasonings(blocks), seq!['\n']),
        ),
{
    reveal_strlit("\n");
    assert("\n"@ =~= seq!['\n']);
}

/// The events of a block are told by its number; no other event belongs to one.
pub proof fn law_blocks_are_told_by_their_number(event: JsonView, kind: Seq<char>, n: i64)
    requires
        event.get("type"@) == Some(JsonView::Text(kind)),
        event.get("index"@) == Some(JsonView::Int(n as int)),
    ensures
        text::lowered(kind) == "content_block_start"@ || text::lowered(kind)
            == "content_block_delta"@ ==> block_index(event) == Some(n),
        text::lowered(kind) != "content_block_start"@ && text::lowered(kind)
            != "content_block_delta"@ ==> block_index(event) is None,
{
}

} // verus!
