//! A reply of the chat or the responses API while it arrives.
use crate::json::{Json, JsonView};
use crate::model::TokenUsage;
use crate::providers::attempts::{self, AttemptFailure, AttemptView};
use crate::providers::console::{self, ContentStreamState, ReasoningStreamState};
use crate::providers::events::{self, Line, LineView};
use crate::providers::openai::payload::ApiFamily;
use crate::providers::openai::replies;
use crate::text;
use vstd::prelude::*;
use vstd::string::{StrSliceExecFns, StringExecFns};

verus! {

/// A reply while it arrives.
#[derive(Debug)]
pub struct ReplyStream {
    family: ApiFamily,
    ai_logs: bool,
    pending: String,
    output: String,
    usage: TokenUsage,
    reasoning: ReasoningStreamState,
    content: ContentStreamState,
    screen: String,
}

/// A reply while it arrives, as a value.
pub struct StreamView {
    pub family: ApiFamily,
    pub ai_logs: bool,
    pub pending: Seq<char>,
    pub output: Seq<char>,
    pub usage: TokenUsage,
    pub reasoning: ReasoningStreamState,
    pub content: ContentStreamState,
    pub screen: Seq<char>,
}

impl View for ReplyStream {
    type V = StreamView;

    closed spec fn view(&self) -> StreamView {
        StreamView {
            family: self.family,
            ai_logs: self.ai_logs,
            pending: self.pending@,
            output: self.output@,
            usage: self.usage,
            reasoning: self.reasoning,
            content: self.content,
            screen: self.screen@,
        }
    }
}

/// A reply of which nothing has arrived.
pub open spec fn unheard(family: ApiFamily, ai_logs: bool) -> StreamView {
    StreamView {
        family,
        ai_logs,
        pending: Seq::empty(),
        output: Seq::empty(),
        usage: TokenUsage::nothing(),
        reasoning: ReasoningStreamState::untouched(),
        content: ContentStreamState::untouched(),
        screen: Seq::empty(),
    }
}

/// The usage that an event reports.
pub open spec fn event_usage(family: ApiFamily, event: JsonView) -> Option<TokenUsage> {
    match family {
        ApiFamily::ChatCompletions => replies::chat_usage(event),
        ApiFamily::Responses => replies::responses_event_usage(event),
    }
}

/// The piece of reasoning that an event brings.
pub open spec fn reasoning_delta(family: ApiFamily, event: JsonView) -> Option<Seq<char>> {
    match family {
        ApiFamily::ChatCompletions => replies::choice_reasoning(event, "delta"@),
        ApiFamily::Responses => replies::responses_reasoning_delta(event),
    }
}

/// The part of the reasoning that an event belongs to. A chat has no parts.
pub open spec fn reasoning_part(family: ApiFamily, event: JsonView) -> Option<i64> {
    match family {
        ApiFamily::ChatCompletions => None,
        ApiFamily::Responses => replies::summary_index(event),
    }
}

/// The piece of text that an event brings.
pub open spec fn content_delta(family: ApiFamily, event: JsonView) -> Option<Seq<char>> {
    match family {
        ApiFamily::ChatCompletions => replies::choice_text(event, "delta"@, "content"@),
        ApiFamily::Responses => replies::responses_content_delta(event),
    }
}

/// The state after the usage that an event reports: the last report counts.
pub open spec fn counted(state: StreamView, event: JsonView) -> StreamView {
    match event_usage(state.family, event) {
        Some(usage) => StreamView { usage, ..state },
        None => state,
    }
}

/// The state after the piece of reasoning that an event brings.
pub open spec fn reasoned(state: StreamView, event: JsonView) -> StreamView {
    match reasoning_delta(state.family, event) {
        Some(delta) => {
            let (parted, gap) = console::summary_changed(
                state.ai_logs,
                state.reasoning,
                reasoning_part(state.family, event),
            );
            let (shown, words) = console::reasoning_shown(state.ai_logs, parted, delta);
            StreamView { reasoning: shown, screen: state.screen + gap + words, ..state }
        },
        None => state,
    }
}

/// The state after the piece of text that an event brings.
pub open spec fn spoken(state: StreamView, event: JsonView) -> StreamView {
    match content_delta(state.family, event) {
        Some(delta) => {
            let (broken, gap) = console::reasoning_broken(state.ai_logs, state.reasoning, "\n"@);
            let (shown, words) = console::content_shown(state.ai_logs, state.content, delta);
            StreamView {
                reasoning: broken,
                content: shown,
                output: state.output + delta,
                screen: state.screen + gap + words,
                ..state
            }
        },
        None => state,
    }
}

/// The state after an event.
pub open spec fn after_event(state: StreamView, event: JsonView) -> StreamView {
    spoken(reasoned(counted(state, event), event), event)
}

/// The state after an event, as one step of many.
#[verifier::opaque]
pub open spec fn stepped(state: StreamView, event: JsonView) -> StreamView {
    after_event(state, event)
}

/// What the first line of the text says.
pub open spec fn first_line(pending: Seq<char>) -> LineView {
    events::said_by(pending.take(text::find_from(pending, '\n', 0)))
}

/// What follows the first line of the text.
pub open spec fn after_first_line(pending: Seq<char>) -> Seq<char> {
    pending.skip(text::find_from(pending, '\n', 0) + 1)
}

/// The state after the lines that have arrived whole, up to one that says that
/// nothing follows.
pub open spec fn drained(state: StreamView) -> StreamView
    decreases state.pending.len(),
{
    let end = text::find_from(state.pending, '\n', 0);
    if 0 <= end < state.pending.len() {
        let rest = StreamView { pending: after_first_line(state.pending), ..state };
        match first_line(state.pending) {
            LineView::Nothing => drained(rest),
            LineView::Done => rest,
            LineView::Event(event) => {
                proof {
                    reveal(stepped);
                }
                drained(stepped(rest, event))
            },
        }
    } else {
        state
    }
}

/// The state after some more text.
pub open spec fn heard(state: StreamView, chunk: Seq<char>) -> StreamView {
    drained(StreamView { pending: state.pending + chunk, ..state })
}

/// The state after some more bytes.
pub open spec fn fed(state: StreamView, chunk: Seq<u8>) -> StreamView {
    heard(state, text::utf8_lossy(chunk))
}

/// The complaint about a reply without text.
pub open spec fn no_text(family: ApiFamily) -> AttemptView {
    attempts::plain_failure(
        match family {
            ApiFamily::ChatCompletions => "Streaming response did not include content deltas"@,
            ApiFamily::Responses => "Streaming response did not include output text deltas"@,
        },
    )
}

/// What the reply comes to, once nothing more arrives.
pub open spec fn outcome(state: StreamView) -> Result<(Seq<char>, TokenUsage), AttemptView> {
    if state.output.len() == 0 {
        Err(no_text(state.family))
    } else {
        Ok((state.output, state.usage))
    }
}

/// What the terminal is still to be shown, once nothing more arrives.
pub open spec fn closing_screen(state: StreamView) -> Seq<char> {
    state.screen + console::content_ended(state.ai_logs, state.content).1
        + console::reasoning_broken(state.ai_logs, state.reasoning, "\n"@).1
}

proof fn lemma_events_leave_pending(state: StreamView, pending: Seq<char>, event: JsonView)
    ensures
        stepped(StreamView { pending, ..state }, event) == (StreamView {
            pending,
            ..stepped(state, event)
        }),
{
    reveal(stepped);
}

proof fn lemma_find_is_first(s: Seq<char>, from: int, end: int)
    requires
        0 <= from <= end <= s.len(),
        end < s.len() ==> s[end] == '\n',
        forall|i: int| from <= i < end ==> s[i] != '\n',
    ensures
        text::find_from(s, '\n', from) == end,
    decreases end - from,
{
    if from < end {
        lemma_find_is_first(s, from + 1, end);
    }
}

impl ReplyStream {
    /// A reply of which nothing has arrived.
    pub fn start(family: ApiFamily, ai_logs: bool) -> (r: ReplyStream)
        ensures
            r@ == unheard(family, ai_logs),
    {
        let r = ReplyStream {
            family,
            ai_logs,
            pending: String::new(),
            output: String::new(),
            usage: TokenUsage::default(),
            reasoning: ReasoningStreamState::default(),
            content: ContentStreamState::default(),
            screen: String::new(),
        };
        assert(r@.pending =~= Seq::<char>::empty());
        assert(r@.output =~= Seq::<char>::empty());
        assert(r@.screen =~= Seq::<char>::empty());
        r
    }

    fn count(&mut self, event: &Json)
        ensures
            final(self)@ == counted(old(self)@, event@),
    {
        let reported = match self.family {
            ApiFamily::ChatCompletions => replies::extract_openai_chat_usage(event),
            ApiFamily::Responses => replies::extract_openai_responses_event_usage(event),
        };
        match reported {
            Some(usage) => {
                self.usage = usage;
            },
            None => {},
        }
    }

    fn reason(&mut self, event: &Json)
        ensures
            final(self)@ == reasoned(old(self)@, event@),
    {
        let delta = match self.family {
            ApiFamily::ChatCompletions => replies::extract_chat_reasoning_delta(event),
            ApiFamily::Responses => replies::extract_responses_reasoning_delta(event),
        };
        match delta {
            Some(delta) => {
                let part = match self.family {
                    ApiFamily::ChatCompletions => None,
                    ApiFamily::Responses => replies::extract_summary_index(event),
                };
                let gap = console::maybe_emit_reasoning_line_break_on_summary_change(
                    self.ai_logs,
                    &mut self.reasoning,
                    part,
                );
                let words = console::stream_reasoning_delta_to_stdout(
                    self.ai_logs,
                    &mut self.reasoning,
                    &delta,
                );
                self.screen.append(&gap);
                self.screen.append(&words);
            },
            None => {},
        }
    }

    fn speak(&mut self, event: &Json)
        ensures
            final(self)@ == spoken(old(self)@, event@),
    {
        let delta = match self.family {
            ApiFamily::ChatCompletions => replies::extract_chat_content_delta(event),
            ApiFamily::Responses => replies::extract_responses_content_delta(event),
        };
        match delta {
            Some(delta) => {
                let gap = console::emit_reasoning_line_break(self.ai_logs, &mut self.reasoning);
                self.output.append(&delta);
                let words = console::stream_content_delta_to_stdout(
                    self.ai_logs,
                    &mut self.content,
                    &delta,
                );
                self.screen.append(&gap);
                self.screen.append(&words);
            },
            None => {},
        }
    }

    /// Takes an event in.
    pub fn take_event(&mut self, event: &Json)
        ensures
            final(self)@ == after_event(old(self)@, event@),
    {
        self.count(event);
        self.reason(event);
        self.speak(event);
    }

    fn step_event(&mut self, event: &Json)
        ensures
            final(self)@ == stepped(old(self)@, event@),
    {
        self.take_event(event);
        proof {
            reveal(stepped);
        }
    }

    /// Takes some more text in.
    pub fn feed_text(&mut self, chunk: &str)
        ensures
            final(self)@ == heard(old(self)@, chunk@),
    {
        let ghost before = self@;
        let mut arrived = self.pending.clone();
        arrived.append(chunk);
        let chars = text::chars_of(&arrived);
        self.pending = String::new();
        let mut start: usize = 0;
        let ghost target = heard(before, chunk@);
        assert(chars@.skip(0) =~= chars@);
        let mut going = true;
        while going
            invariant
                start <= chars.len(),
                chars@ == arrived@,
                going ==> target == drained(
                    StreamView { pending: chars@.skip(start as int), ..self@ },
                ),
                !going ==> target == (StreamView { pending: chars@.skip(start as int), ..self@ }),
            decreases
                chars.len() - start + if going {
                    1int
                } else {
                    0int
                },
        {
            let mut end: usize = start;
            while end < chars.len() && chars[end] != '\n'
                invariant
                    start <= end <= chars.len(),
                    forall|k: int| start <= k < end ==> chars@[k] != '\n',
                decreases chars.len() - end,
            {
                end += 1;
            }
            proof {
                let rest = chars@.skip(start as int);
                assert forall|k: int| 0 <= k < end - start implies rest[k] != '\n' by {
                    assert(rest[k] == chars@[start + k]);
                }
                lemma_find_is_first(rest, 0, end - start);
            }
            if end == chars.len() {
                going = false;
            } else {
                let line = arrived.as_str().substring_char(start, end);
                proof {
                    let rest = chars@.skip(start as int);
                    assert(rest.take(end - start) =~= chars@.subrange(start as int, end as int));
                    assert(after_first_line(rest) =~= chars@.skip(end + 1));
                }
                start = end + 1;
                match events::read_line(line) {
                    Line::Nothing => {},
                    Line::Done => {
                        going = false;
                    },
                    Line::Event(event) => {
                        proof {
                            lemma_events_leave_pending(
                                self@,
                                chars@.skip(start as int),
                                event@,
                            );
                        }
                        self.step_event(&event);
                    },
                }
            }
        }
        let rest = arrived.as_str().substring_char(start, chars.len());
        assert(rest@ =~= chars@.skip(start as int));
        self.pending = rest.to_owned();
    }

    /// Takes some more bytes in.
    pub fn feed(&mut self, chunk: &[u8])
        ensures
            final(self)@ == fed(old(self)@, chunk@),
    {
        self.feed_text(&text::lossy_text(chunk));
    }

    /// What the terminal is to be shown of what has arrived.
    pub fn take_screen(&mut self) -> (r: String)
        ensures
            r@ == old(self)@.screen,
            final(self)@ == (StreamView { screen: Seq::empty(), ..old(self)@ }),
    {
        let shown = self.screen.clone();
        self.screen = String::new();
        assert(self.screen@ =~= Seq::<char>::empty());
        shown
    }

    /// What the reply comes to, once nothing more arrives, and what the terminal
    /// is still to be shown of it.
    pub fn finish(self) -> (r: (Result<(String, TokenUsage), AttemptFailure>, String))
        ensures
            attempts::attempt_view(r.0) == outcome(self@),
            r.1@ == closing_screen(self@),
    {
        let ReplyStream {
            family,
            ai_logs,
            pending,
            output,
            usage,
            mut reasoning,
            mut content,
            mut screen,
        } = self;
        screen.append(&console::finalize_content_stdout(ai_logs, &mut content));
        screen.append(&console::finalize_reasoning_stdout(ai_logs, &mut reasoning));
        if output.as_str().is_empty() {
            let report = match family {
                ApiFamily::ChatCompletions => "Streaming response did not include content deltas",
                ApiFamily::Responses => "Streaming response did not include output text deltas",
            };
            return (Err(AttemptFailure::from(report.to_owned())), screen);
        }
        (Ok((output, usage)), screen)
    }
}

/// Whether no whole line of the text says that nothing follows.
pub open spec fn unending(pending: Seq<char>) -> bool
    decreases pending.len(),
{
    let end = text::find_from(pending, '\n', 0);
    0 <= end < pending.len() ==> first_line(pending) !is Done && unending(
        after_first_line(pending),
    )
}

proof fn lemma_drained_goes_on(state: StreamView, more: Seq<char>)
    requires
        unending(state.pending),
    ensures
        heard(drained(state), more) == heard(state, more),
    decreases state.pending.len(),
{
    text::lemma_find_from(state.pending, '\n', 0);
    let end = text::find_from(state.pending, '\n', 0);
    if end < state.pending.len() {
        let whole = state.pending + more;
        lemma_find_is_first(whole, 0, end);
        assert(whole.take(end) =~= state.pending.take(end));
        assert(whole.skip(end + 1) =~= state.pending.skip(end + 1) + more);
        let rest = StreamView { pending: after_first_line(state.pending), ..state };
        match first_line(state.pending) {
            LineView::Nothing => {
                lemma_drained_goes_on(rest, more);
            },
            LineView::Done => {},
            LineView::Event(event) => {
                lemma_events_leave_pending(rest, rest.pending, event);
                lemma_events_leave_pending(rest, rest.pending + more, event);
                lemma_drained_goes_on(stepped(rest, event), more);
            },
        }
    }
}

/// It makes no difference between which characters the text of a reply is cut: two
/// pieces come to what they come to as one. The first piece must not complete a
/// line that says that nothing follows.
pub proof fn law_texts_may_be_cut_anywhere(state: StreamView, first: Seq<char>, second: Seq<char>)
    requires
        unending(state.pending + first),
    ensures
        heard(heard(state, first), second) == heard(state, first + second),
{
    lemma_drained_goes_on(StreamView { pending: state.pending + first, ..state }, second);
    assert(state.pending + first + second =~= state.pending + (first + second));
}

/// The state after a series of events.
pub open spec fn after_events(state: StreamView, events: Seq<JsonView>) -> StreamView
    decreases events.len(),
{
    if events.len() == 0 {
        state
    } else {
        after_event(after_events(state, events.drop_last()), events.last())
    }
}

/// The pieces of text that the events bring, one after the other.
pub open spec fn text_of_events(family: ApiFamily, events: Seq<JsonView>) -> Seq<char>
    decreases events.len(),
{
    if events.len() == 0 {
        Seq::empty()
    } else {
        let before = text_of_events(family, events.drop_last());
        match content_delta(family, events.last()) {
            Some(delta) => before + delta,
            None => before,
        }
    }
}

/// The text of a reply is that of its events, in order.
pub proof fn law_output_is_the_text_of_the_events(
    family: ApiFamily,
    ai_logs: bool,
    events: Seq<JsonView>,
)
    ensures
        after_events(unheard(family, ai_logs), events).family == family,
        after_events(unheard(family, ai_logs), events).output == text_of_events(family, events),
    decreases events.len(),
{
    if events.len() > 0 {
        law_output_is_the_text_of_the_events(family, ai_logs, events.drop_last());
    }
}

/// Whether the event of this API brings exactly these words as output.
pub open spec fn is_piece_of_text(family: ApiFamily, event: JsonView, words: Seq<char>) -> bool {
    match family {
        ApiFamily::ChatCompletions => event.get("choices"@) matches Some(JsonView::Array(choices))
            && choices.len() > 0 && (choices[0].get("delta"@) matches Some(delta) && delta.get(
            "content"@,
        ) == Some(JsonView::Text(words))),
        ApiFamily::Responses => event.get("type"@) == Some(
            JsonView::Text("response.output_text.delta"@),
        ) && event.get("delta"@) == Some(JsonView::Text(words)),
    }
}

/// The words one after the other.
pub open spec fn concatenated(words: Seq<Seq<char>>) -> Seq<char>
    decreases words.len(),
{
    if words.len() == 0 {
        Seq::empty()
    } else {
        concatenated(words.drop_last()) + words.last()
    }
}

/// A piece of text makes the output longer by exactly that text.
pub proof fn law_pieces_of_text_grow_the_output(
    state: StreamView,
    event: JsonView,
    words: Seq<char>,
)
    requires
        is_piece_of_text(state.family, event, words),
    ensures
        after_event(state, event).output == state.output + words,
        after_event(state, event).family == state.family,
        after_event(state, event).pending == state.pending,
{
    match state.family {
        ApiFamily::ChatCompletions => {
            let choices = event.get("choices"@)->0->Array_0;
            let delta = choices[0].get("delta"@)->0;
            replies::law_chats_say_what_their_first_choice_says(
                event,
                choices,
                "delta"@,
                delta,
                words,
            );
        },
        ApiFamily::Responses => {
            replies::law_response_deltas_are_taken_as_they_stand(event, words);
        },
    }
}

/// The output of a reply of pieces of text is those texts, one after the other, as
/// they stand.
pub proof fn law_the_output_is_the_texts_in_order(
    family: ApiFamily,
    ai_logs: bool,
    events: Seq<JsonView>,
    words: Seq<Seq<char>>,
)
    requires
        events.len() == words.len(),
        forall|i: int|
            0 <= i < events.len() ==> #[trigger] is_piece_of_text(family, events[i], words[i]),
    ensures
        after_events(unheard(family, ai_logs), events).family == family,
        after_events(unheard(family, ai_logs), events).output == concatenated(words),
    decreases events.len(),
{
    if events.len() > 0 {
        let front = events.drop_last();
        let before = words.drop_last();
        assert forall|i: int| 0 <= i < front.len() implies #[trigger] is_piece_of_text(
            family,
            front[i],
            before[i],
        ) by {
            assert(is_piece_of_text(family, events[i], words[i]));
        }
        law_the_output_is_the_texts_in_order(family, ai_logs, front, before);
        let last = events.len() - 1;
        assert(is_piece_of_text(family, events[last], words[last]));
        law_pieces_of_text_grow_the_output(
            after_events(unheard(family, ai_logs), front),
            events.last(),
            words.last(),
        );
    }
}

/// The usage of a reply is what the last event that reports one reports.
pub proof fn law_the_last_reported_usage_counts(state: StreamView, event: JsonView)
    ensures
        event_usage(state.family, event) matches Some(usage) ==> after_event(state, event).usage
            == usage,
        event_usage(state.family, event) is None ==> after_event(state, event).usage == state.usage,
        event_usage(ApiFamily::ChatCompletions, event) == replies::chat_usage(event),
        event_usage(ApiFamily::Responses, event) == replies::responses_event_usage(event),
{
}

/// A reply with output is that output with its usage; one without is a failure after
/// which another payload may work.
pub proof fn law_replies_are_their_output(state: StreamView)
    ensures
        state.output.len() > 0 ==> outcome(state) == Ok::<(Seq<char>, TokenUsage), AttemptView>(
            (state.output, state.usage),
        ),
        state.output.len() == 0 ==> (outcome(state) matches Err(failure) && failure.kind
            == attempts::FailureKind::NextVariant),
{
}

/// A whole line is taken up at once, and a line that has not ended waits.
pub proof fn law_lines_are_taken_up_when_they_end(
    state: StreamView,
    line: Seq<char>,
    event: JsonView,
)
    requires
        state.pending.len() == 0,
        forall|i: int| 0 <= i < line.len() ==> #[trigger] line[i] != '\n',
    ensures
        heard(state, line) == (StreamView { pending: line, ..state }),
        events::said_by(line) == LineView::Event(event) ==> heard(state, line.push('\n'))
            == after_event(state, event),
        events::said_by(line) is Nothing ==> heard(state, line.push('\n')) == state,
{
    assert(state.pending + line =~= line);
    lemma_find_is_first(line, 0, line.len() as int);
    let whole = line.push('\n');
    assert(state.pending + whole =~= whole);
    lemma_find_is_first(whole, 0, line.len() as int);
    assert(whole.take(line.len() as int) =~= line);
    assert(after_first_line(whole) =~= state.pending);
    let rest = StreamView { pending: after_first_line(whole), ..state };
    assert(text::find_from(rest.pending, '\n', 0) == 0);
    assert(drained(rest) == rest);
    if let LineView::Event(event) = first_line(whole) {
        reveal(stepped);
        let next = stepped(rest, event);
        lemma_events_leave_pending(rest, rest.pending, event);
        assert(text::find_from(next.pending, '\n', 0) == 0);
        assert(drained(next) == next);
    }
}

/// Whether the event of this API brings exactly these words as reasoning, and nothing
/// else.
pub open spec fn is_piece_of_reasoning(
    family: ApiFamily,
    event: JsonView,
    words: Seq<char>,
) -> bool {
    match family {
        ApiFamily::ChatCompletions => event.get("choices"@) matches Some(JsonView::Array(choices))
            && choices.len() > 0 && (choices[0].get("delta"@) matches Some(delta) && delta.get(
            "reasoning_content"@,
        ) == Some(JsonView::Text(words)) && delta.get("content"@) is None),
        ApiFamily::Responses => event.get("type"@) == Some(
            JsonView::Text("response.reasoning_summary_text.delta"@),
        ) && event.get("delta"@) == Some(JsonView::Text(words)),
    }
}

/// A piece of reasoning adds nothing to the output.
pub proof fn law_reasoning_is_no_output(state: StreamView, event: JsonView, words: Seq<char>)
    requires
        is_piece_of_reasoning(state.family, event, words),
    ensures
        after_event(state, event).output == state.output,
        reasoning_delta(state.family, event) == Some(words),
{
    match state.family {
        ApiFamily::ChatCompletions => {
            let choices = event.get("choices"@)->0->Array_0;
            let delta = choices[0].get("delta"@)->0;
            replies::law_chats_say_what_their_first_choice_says(
                event,
                choices,
                "delta"@,
                delta,
                words,
            );
        },
        ApiFamily::Responses => {
            replies::law_response_deltas_are_taken_as_they_stand(event, words);
        },
    }
}

proof fn lemma_last_shown(before: Seq<char>, gap: Seq<char>, heading: Seq<char>, words: Seq<char>)
    ensures
        text::ends_with(before + gap + words, words),
        text::ends_with(before + gap + (heading + words), words),
{
    text::law_parts_are_found_where_they_stand(before + gap, words, words);
    text::law_parts_are_found_where_they_stand(before + gap + heading, words, words);
    assert(before + gap + (heading + words) =~= before + gap + heading + words);
}

/// Where the terminal shows replies, each piece of text is added to what it was shown,
/// as it stands and last.
pub proof fn law_the_terminal_shows_the_text(state: StreamView, event: JsonView, words: Seq<char>)
    requires
        words.len() > 0,
        state.ai_logs,
        is_piece_of_text(state.family, event, words),
    ensures
        text::ends_with(after_event(state, event).screen, words),
{
    match state.family {
        ApiFamily::ChatCompletions => {
            let choices = event.get("choices"@)->0->Array_0;
            let delta = choices[0].get("delta"@)->0;
            replies::law_chats_say_what_their_first_choice_says(
                event,
                choices,
                "delta"@,
                delta,
                words,
            );
        },
        ApiFamily::Responses => {
            replies::law_response_deltas_are_taken_as_they_stand(event, words);
        },
    }
    assert(content_delta(state.family, event) == Some(words));
    let thought = reasoned(counted(state, event), event);
    let gap = console::reasoning_broken(true, thought.reasoning, "\n"@).1;
    lemma_last_shown(thought.screen, gap, console::OUTPUT_HEADING@, words);
}

/// So is each piece of reasoning.
pub proof fn law_the_terminal_shows_the_reasoning(
    state: StreamView,
    event: JsonView,
    words: Seq<char>,
)
    requires
        words.len() > 0,
        state.ai_logs,
        is_piece_of_reasoning(state.family, event, words),
    ensures
        text::ends_with(after_event(state, event).screen, words),
{
    law_reasoning_is_no_output(state, event, words);
    match state.family {
        ApiFamily::ChatCompletions => {
            let choices = event.get("choices"@)->0->Array_0;
            let delta = choices[0].get("delta"@)->0;
            replies::law_chats_say_what_their_first_choice_says(
                event,
                choices,
                "delta"@,
                delta,
                words,
            );
        },
        ApiFamily::Responses => {
            replies::law_response_deltas_are_taken_as_they_stand(event, words);
        },
    }
    assert(content_delta(state.family, event) is None);
    let gap = console::summary_changed(
        true,
        state.reasoning,
        reasoning_part(state.family, event),
    ).1;
    lemma_last_shown(state.screen, gap, console::REASONING_HEADING@, words);
}

/// What the terminal was shown stays, and nothing is added to it where it shows no
/// replies.
pub proof fn law_what_was_shown_stays(state: StreamView, event: JsonView)
    ensures
        text::starts_with(after_event(state, event).screen, state.screen),
        !state.ai_logs ==> after_event(state, event).screen == state.screen,
{
    let thought = reasoned(counted(state, event), event);
    assert(thought.screen.subrange(0, state.screen.len() as int) =~= state.screen);
    let after = after_event(state, event).screen;
    assert(after.subrange(0, thought.screen.len() as int) =~= thought.screen);
    assert(after.subrange(0, state.screen.len() as int) =~= state.screen);
    if !state.ai_logs {
        assert(thought.screen =~= state.screen);
        assert(after =~= state.screen);
    }
}

/// At the end a line of output that has not ended is ended, and nothing else of what
/// the terminal was shown changes.
pub proof fn law_the_last_line_is_ended(state: StreamView)
    ensures
        text::starts_with(closing_screen(state), state.screen),
        !state.ai_logs ==> closing_screen(state) == state.screen,
        state.ai_logs && state.content.started && !state.content.ends_with_newline
            ==> text::starts_with(closing_screen(state), state.screen + seq!['\n']),
{
    let closing = closing_screen(state);
    assert(closing.subrange(0, state.screen.len() as int) =~= state.screen);
    if !state.ai_logs {
        assert(closing =~= state.screen);
    } else if state.content.started && !state.content.ends_with_newline {
        reveal_strlit("\n");
        let ended = state.screen + seq!['\n'];
        assert(closing.subrange(0, ended.len() as int) =~= ended);
    }
}

/// Behind the line that says that nothing follows, nothing is taken up.
pub proof fn law_nothing_follows_the_end(state: StreamView, line: Seq<char>, rest: Seq<char>)
    requires
        state.pending.len() == 0,
        forall|i: int| 0 <= i < line.len() ==> #[trigger] line[i] != '\n',
        events::said_by(line) is Done,
    ensures
        heard(state, line + seq!['\n'] + rest) == (StreamView { pending: rest, ..state }),
{
    let whole = line + seq!['\n'] + rest;
    assert(state.pending + whole =~= whole);
    lemma_find_is_first(whole, 0, line.len() as int);
    assert(whole.take(line.len() as int) =~= line);
    assert(after_first_line(whole) =~= rest);
}

/// The parts of the reasoning are those that the responses API numbers; a chat has none.
pub proof fn law_only_responses_number_their_parts(event: JsonView, n: i64)
    ensures
        reasoning_part(ApiFamily::ChatCompletions, event) is None,
        event.get("summary_index"@) == Some(JsonView::Int(n as int)) ==> reasoning_part(
            ApiFamily::Responses,
            event,
        ) == Some(n),
{
    replies::law_parts_are_told_by_their_numbers(event, event, n);
}

} // verus!
