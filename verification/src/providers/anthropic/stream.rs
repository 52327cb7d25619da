//! A reply of the Messages API while it arrives.
use crate::json::{self, Json, JsonView};
use crate::model::TokenUsage;
use crate::providers::anthropic::{failures, replies};
use crate::providers::attempts::{self, AttemptFailure, AttemptView};
use crate::providers::console::{self, ContentStreamState, ReasoningStreamState};
use crate::providers::events::{self, Line, LineView};
use crate::text;
use vstd::prelude::*;
use vstd::string::{StrSliceExecFns, StringExecFns};

verus! {

/// A reply while it arrives. The bytes that no line feed has followed yet are kept
/// as bytes: the network may cut a reply in the middle of a character.
#[derive(Debug)]
pub struct MessageStream {
    ai_logs: bool,
    pending: Vec<u8>,
    output: String,
    usage: TokenUsage,
    failure: Option<AttemptFailure>,
    stopped: bool,
    saw_thinking: bool,
    stop_reason: Option<String>,
    reasoning: ReasoningStreamState,
    content: ContentStreamState,
    screen: String,
}

/// A reply while it arrives, as a value.
pub struct StreamView {
    pub ai_logs: bool,
    pub pending: Seq<u8>,
    pub output: Seq<char>,
    pub usage: TokenUsage,
    pub failure: Option<AttemptView>,
    pub stopped: bool,
    pub saw_thinking: bool,
    pub stop_reason: Option<Seq<char>>,
    pub reasoning: ReasoningStreamState,
    pub content: ContentStreamState,
    pub screen: Seq<char>,
}

impl View for MessageStream {
    type V = StreamView;

    closed spec fn view(&self) -> StreamView {
        StreamView {
            ai_logs: self.ai_logs,
            pending: self.pending@,
            output: self.output@,
            usage: self.usage,
            failure: match self.failure {
                Some(failure) => Some(failure@),
                None => None,
            },
            stopped: self.stopped,
            saw_thinking: self.saw_thinking,
            stop_reason: text::opt_text(self.stop_reason),
            reasoning: self.reasoning,
            content: self.content,
            screen: self.screen@,
        }
    }
}

/// A reply of which nothing has arrived.
pub open spec fn unheard(ai_logs: bool) -> StreamView {
    StreamView {
        ai_logs,
        pending: Seq::empty(),
        output: Seq::empty(),
        usage: TokenUsage::nothing(),
        failure: None,
        stopped: false,
        saw_thinking: false,
        stop_reason: None,
        reasoning: ReasoningStreamState::untouched(),
        content: ContentStreamState::untouched(),
        screen: Seq::empty(),
    }
}

/// The state after what an event says of the message as a whole.
pub open spec fn noted(state: StreamView, event: JsonView) -> StreamView {
    StreamView {
        stopped: state.stopped || json::str_or_empty(event.get("type"@)) == "message_stop"@,
        stop_reason: text::first_text(
            json::str_in(json::get_in(event.get("delta"@), "stop_reason"@)),
            state.stop_reason,
        ),
        usage: replies::usage_after(event, state.usage),
        ..state
    }
}

/// The state after the piece of reasoning that an event brings.
pub open spec fn reasoned(state: StreamView, event: JsonView) -> StreamView {
    match replies::reasoning_delta(event) {
        Some(delta) => {
            let (parted, gap) = console::summary_changed(
                state.ai_logs,
                state.reasoning,
                replies::block_index(event),
            );
            let (shown, words) = console::reasoning_shown(state.ai_logs, parted, delta);
            StreamView {
                saw_thinking: true,
                reasoning: shown,
                screen: state.screen + gap + words,
                ..state
            }
        },
        None => state,
    }
}

/// The state after the piece of text that an event brings.
pub open spec fn spoken(state: StreamView, event: JsonView) -> StreamView {
    match replies::content_delta(event) {
        Some(delta) => {
            let (broken, gap) = console::reasoning_broken(state.ai_logs, state.reasoning, "\n"@);
            let (shown, words) = console::content_shown(state.ai_logs, state.content, delta);
            StreamView {
                reasoning: broken,
                content: shown,
                output: state.output + delta,
                screen: state.screen + gap + words,
                ..state
            }
        },
        None => state,
    }
}

/// The state after an event. An error ends the reply: what would follow it is
/// dropped.
pub open spec fn after_event(state: StreamView, event: JsonView) -> StreamView {
    if json::str_or_empty(event.get("type"@)) == "error"@ {
        StreamView {
            failure: Some(failures::stream_error(event)),
            pending: Seq::empty(),
            ..state
        }
    } else {
        spoken(reasoned(noted(state, event), event), event)
    }
}

/// The state after an event, as one step of many.
#[verifier::opaque]
pub open spec fn stepped(state: StreamView, event: JsonView) -> StreamView {
    after_event(state, event)
}

/// The first line feed at or after `from`; the number of bytes where there is
/// none.
pub open spec fn line_end(bytes: Seq<u8>, from: int) -> int
    decreases bytes.len() - from,
{
    if 0 <= from < bytes.len() && bytes[from] != 10 {
        line_end(bytes, from + 1)
    } else {
        from
    }
}

/// What the first line of the bytes says.
pub open spec fn first_line(bytes: Seq<u8>) -> LineView {
    events::said_by(text::utf8_lossy(bytes.take(line_end(bytes, 0))))
}

/// What follows the first line of the bytes.
pub open spec fn after_first_line(bytes: Seq<u8>) -> Seq<u8> {
    bytes.skip(line_end(bytes, 0) + 1)
}

proof fn lemma_line_end(bytes: Seq<u8>, from: int)
    requires
        0 <= from <= bytes.len(),
    ensures
        from <= line_end(bytes, from) <= bytes.len(),
        line_end(bytes, from) < bytes.len() ==> bytes[line_end(bytes, from)] == 10,
        forall|i: int| from <= i < line_end(bytes, from) ==> bytes[i] != 10,
    decreases bytes.len() - from,
{
    if from < bytes.len() && bytes[from] != 10 {
        lemma_line_end(bytes, from + 1);
    }
}

proof fn lemma_line_end_is_first(bytes: Seq<u8>, from: int, end: int)
    requires
        0 <= from <= end <= bytes.len(),
        end < bytes.len() ==> bytes[end] == 10,
        forall|i: int| from <= i < end ==> bytes[i] != 10,
    ensures
        line_end(bytes, from) == end,
    decreases end - from,
{
    if from < end {
        lemma_line_end_is_first(bytes, from + 1, end);
    }
}

/// The state after the lines that have arrived whole, up to one that says that
/// nothing follows.
pub open spec fn drained(state: StreamView) -> StreamView
    decreases state.pending.len(),
{
    let end = line_end(state.pending, 0);
    if 0 <= end < state.pending.len() {
        let rest = StreamView { pending: after_first_line(state.pending), ..state };
        match first_line(state.pending) {
            LineView::Nothing => drained(rest),
            LineView::Done => rest,
            LineView::Event(event) => {
                proof {
                    reveal(stepped);
                }
                let next = stepped(rest, event);
                if next.failure is Some {
                    next
                } else {
                    drained(next)
                }
            },
        }
    } else {
        state
    }
}

proof fn lemma_events_leave_pending(state: StreamView, pending: Seq<u8>, event: JsonView)
    requires
        state.failure is None,
    ensures
        ({
            let next = stepped(state, event);
            &&& next.ai_logs == state.ai_logs
            &&& stepped(StreamView { pending, ..state }, event) == if next.failure is Some {
                next
            } else {
                StreamView { pending, ..next }
            }
            &&& next.failure is Some ==> next.pending == Seq::<u8>::empty()
            &&& next.failure is None ==> next.pending == state.pending
        }),
{
    reveal(stepped);
}

/// The state after some more bytes. A reply that has failed takes none.
pub open spec fn fed(state: StreamView, chunk: Seq<u8>) -> StreamView {
    if state.failure is Some {
        state
    } else {
        drained(StreamView { pending: state.pending + chunk, ..state })
    }
}

/// What the reply comes to, once nothing more arrives.
pub open spec fn outcome(state: StreamView, payload: JsonView) -> Result<
    (Seq<char>, TokenUsage),
    AttemptView,
> {
    match state.failure {
        Some(failure) => Err(failure),
        None => if !state.stopped {
            Err(
                attempts::plain_failure(
                    "Streaming response ended before message_stop after "@ + text::decimal(
                        state.output.len(),
                    ) + " character(s) of output; the response was truncated"@,
                ),
            )
        } else if state.output.len() == 0 {
            Err(
                replies::no_text(
                    payload,
                    state.stop_reason,
                    state.saw_thinking,
                    "Streaming response did not include output text deltas"@,
                ),
            )
        } else {
            Ok((state.output, state.usage))
        },
    }
}

/// What the terminal is still to be shown, once nothing more arrives.
pub open spec fn closing_screen(state: StreamView) -> Seq<char> {
    state.screen + console::content_ended(state.ai_logs, state.content).1
        + console::reasoning_broken(state.ai_logs, state.reasoning, "\n"@).1
}

impl MessageStream {
    /// A reply of which nothing has arrived.
    pub fn start(ai_logs: bool) -> (r: MessageStream)
        ensures
            r@ == unheard(ai_logs),
    {
        let r = MessageStream {
            ai_logs,
            pending: Vec::new(),
            output: String::new(),
            usage: TokenUsage::default(),
            failure: None,
            stopped: false,
            saw_thinking: false,
            stop_reason: None,
            reasoning: ReasoningStreamState::default(),
            content: ContentStreamState::default(),
            screen: String::new(),
        };
        assert(r@.output =~= Seq::<char>::empty());
        assert(r@.screen =~= Seq::<char>::empty());
        r
    }

    fn note(&mut self, event: &Json)
        ensures
            final(self)@ == noted(old(self)@, event@),
    {
        match event.get_str("type") {
            Some(kind) => {
                if text::same(kind, "message_stop") {
                    self.stopped = true;
                }
            },
            None => {
                proof {
                    reveal_strlit("");
                    reveal_strlit("message_stop");
                    assert(""@.len() != "message_stop"@.len());
                }
            },
        }
        match event.get2_str("delta", "stop_reason") {
            Some(reason) => {
                self.stop_reason = Some(reason.to_owned());
            },
            None => {},
        }
        replies::update_anthropic_usage_from_event(event, &mut self.usage);
    }

    fn reason(&mut self, event: &Json)
        ensures
            final(self)@ == reasoned(old(self)@, event@),
    {
        match replies::extract_anthropic_reasoning_delta(event) {
            Some(delta) => {
                self.saw_thinking = true;
                let gap = console::maybe_emit_reasoning_line_break_on_summary_change(
                    self.ai_logs,
                    &mut self.reasoning,
                    replies::extract_anthropic_reasoning_index(event),
                );
                let words = console::stream_reasoning_delta_to_stdout(
                    self.ai_logs,
                    &mut self.reasoning,
                    &delta,
                );
                self.screen.append(&gap);
                self.screen.append(&words);
            },
            None => {},
        }
    }

    fn speak(&mut self, event: &Json)
        ensures
            final(self)@ == spoken(old(self)@, event@),
    {
        match replies::extract_anthropic_content_delta(event) {
            Some(delta) => {
                let gap = console::emit_reasoning_line_break(self.ai_logs, &mut self.reasoning);
                self.output.append(&delta);
                let words = console::stream_content_delta_to_stdout(
                    self.ai_logs,
                    &mut self.content,
                    &delta,
                );
                self.screen.append(&gap);
                self.screen.append(&words);
            },
            None => {},
        }
    }

    /// Takes an event in.
    pub fn take_event(&mut self, event: &Json)
        ensures
            final(self)@ == after_event(old(self)@, event@),
    {
        let failed = match event.get_str("type") {
            Some(kind) => text::same(kind, "error"),
            None => {
                proof {
                    reveal_strlit("");
                    reveal_strlit("error");
                }
                false
            },
        };
        if failed {
            self.failure = Some(failures::classify_stream_error_event(event));
            self.pending = Vec::new();
        } else {
            self.note(event);
            self.reason(event);
            self.speak(event);
        }
    }

    fn step_event(&mut self, event: &Json)
        ensures
            final(self)@ == stepped(old(self)@, event@),
    {
        self.take_event(event);
        proof {
            reveal(stepped);
        }
    }

    /// Takes some more bytes in.
    pub fn feed(&mut self, chunk: &[u8])
        ensures
            final(self)@ == fed(old(self)@, chunk@),
    {
        if self.failure.is_some() {
            return;
        }
        let ghost before = self@;
        let ghost all = self.pending@ + chunk@;
        let mut bytes: Vec<u8> = Vec::new();
        let mut i: usize = 0;
        while i < self.pending.len()
            invariant
                i <= self.pending.len(),
                bytes@ == self.pending@.take(i as int),
            decreases self.pending.len() - i,
        {
            bytes.push(self.pending[i]);
            i += 1;
            assert(bytes@ =~= self.pending@.take(i as int));
        }
        let mut j: usize = 0;
        assert(bytes@ =~= self.pending@ + chunk@.take(0));
        while j < chunk.len()
            invariant
                j <= chunk.len(),
                bytes@ == self.pending@ + chunk@.take(j as int),
            decreases chunk.len() - j,
        {
            bytes.push(chunk[j]);
            j += 1;
            assert(bytes@ =~= self.pending@ + chunk@.take(j as int));
        }
        assert(bytes@ =~= all);
        self.pending = Vec::new();
        let mut start: usize = 0;
        let ghost target = fed(before, chunk@);
        assert(all.skip(0) =~= all);
        let mut going = true;
        while going
            invariant
                start <= bytes.len(),
                going ==> self@.failure is None,
                going ==> target == drained(
                    StreamView { pending: bytes@.skip(start as int), ..self@ },
                ),
                !going ==> target == (StreamView { pending: bytes@.skip(start as int), ..self@ }),
            decreases
                bytes.len() - start + if going {
                    1int
                } else {
                    0int
                },
        {
            let ghost state = StreamView { pending: bytes@.skip(start as int), ..self@ };
            let mut end: usize = start;
            while end < bytes.len() && bytes[end] != 10
                invariant
                    start <= end <= bytes.len(),
                    forall|k: int| start <= k < end ==> bytes@[k] != 10,
                decreases bytes.len() - end,
            {
                end += 1;
            }
            proof {
                let rest = bytes@.skip(start as int);
                assert forall|k: int| 0 <= k < end - start implies rest[k] != 10 by {
                    assert(rest[k] == bytes@[start + k]);
                }
                lemma_line_end_is_first(rest, 0, end - start);
            }
            if end == bytes.len() {
                going = false;
            } else {
                let line = text::lossy_text(
                    vstd::slice::slice_subrange(bytes.as_slice(), start, end),
                );
                proof {
                    let rest = bytes@.skip(start as int);
                    assert(rest.take(end - start) =~= bytes@.subrange(start as int, end as int));
                    assert(after_first_line(rest) =~= bytes@.skip(end + 1));
                }
                start = end + 1;
                match events::read_line(&line) {
                    Line::Nothing => {},
                    Line::Done => {
                        going = false;
                    },
                    Line::Event(event) => {
                        proof {
                            lemma_events_leave_pending(
                                self@,
                                bytes@.skip(start as int),
                                event@,
                            );
                        }
                        self.step_event(&event);
                        if self.failure.is_some() {
                            start = bytes.len();
                            going = false;
                            assert(bytes@.skip(start as int) =~= Seq::<u8>::empty());
                        }
                    },
                }
            }
        }
        let mut rest: Vec<u8> = Vec::new();
        let mut k: usize = start;
        while k < bytes.len()
            invariant
                start <= k <= bytes.len(),
                rest@ == bytes@.subrange(start as int, k as int),
            decreases bytes.len() - k,
        {
            rest.push(bytes[k]);
            k += 1;
            assert(rest@ =~= bytes@.subrange(start as int, k as int));
        }
        assert(rest@ =~= bytes@.skip(start as int));
        self.pending = rest;
    }

    /// Whether the reply has failed, so that nothing more need be read.
    pub fn has_failed(&self) -> (r: bool)
        ensures
            r == (self@.failure is Some),
    {
        self.failure.is_some()
    }

    /// What the terminal is to be shown of what has arrived.
    pub fn take_screen(&mut self) -> (r: String)
        ensures
            r@ == old(self)@.screen,
            final(self)@ == (StreamView { screen: Seq::empty(), ..old(self)@ }),
    {
        let shown = self.screen.clone();
        self.screen = String::new();
        assert(self.screen@ =~= Seq::<char>::empty());
        shown
    }

    /// What the reply comes to, once nothing more arrives, and what the terminal
    /// is still to be shown of it. `payload` is what was sent.
    pub fn finish(self, payload: &Json) -> (r: (
        Result<(String, TokenUsage), AttemptFailure>,
        String,
    ))
        ensures
            attempts::attempt_view(r.0) == outcome(self@, payload@),
            r.1@ == closing_screen(self@),
    {
        let MessageStream {
            ai_logs,
            pending,
            output,
            usage,
            failure,
            stopped,
            saw_thinking,
            stop_reason,
            mut reasoning,
            mut content,
            mut screen,
        } = self;
        screen.append(&console::finalize_content_stdout(ai_logs, &mut content));
        screen.append(&console::finalize_reasoning_stdout(ai_logs, &mut reasoning));
        let result = match failure {
            Some(failure) => Err(failure),
            None => if !stopped {
                let mut report = "Streaming response ended before message_stop after ".to_owned();
                report.append(&text::decimal_text(output.as_str().unicode_len() as u64));
                report.append(" character(s) of output; the response was truncated");
                Err(AttemptFailure::from(report))
            } else if output.as_str().is_empty() {
                let reason = match &stop_reason {
                    Some(reason) => Some(reason.as_str()),
                    None => None,
                };
                Err(
                    replies::empty_output_failure(
                        payload,
                        reason,
                        saw_thinking,
                        "Streaming response did not include output text deltas",
                    ),
                )
            } else {
                Ok((output, usage))
            },
        };
        (result, screen)
    }
}

/// Whether no whole line of the bytes says that nothing follows.
pub open spec fn unending(bytes: Seq<u8>) -> bool
    decreases bytes.len(),
{
    let end = line_end(bytes, 0);
    0 <= end < bytes.len() ==> first_line(bytes) !is Done && unending(after_first_line(bytes))
}

proof fn lemma_first_line_stays(bytes: Seq<u8>, more: Seq<u8>)
    requires
        line_end(bytes, 0) < bytes.len(),
    ensures
        line_end(bytes + more, 0) == line_end(bytes, 0),
        first_line(bytes + more) == first_line(bytes),
        after_first_line(bytes + more) == after_first_line(bytes) + more,
{
    lemma_line_end(bytes, 0);
    let end = line_end(bytes, 0);
    lemma_line_end_is_first(bytes + more, 0, end);
    assert((bytes + more).take(end) =~= bytes.take(end));
    assert((bytes + more).skip(end + 1) =~= bytes.skip(end + 1) + more);
}

proof fn lemma_drained_goes_on(state: StreamView, more: Seq<u8>)
    requires
        state.failure is None,
        unending(state.pending),
    ensures
        fed(drained(state), more) == drained(
            StreamView { pending: state.pending + more, ..state },
        ),
    decreases state.pending.len(),
{
    lemma_line_end(state.pending, 0);
    if line_end(state.pending, 0) < state.pending.len() {
        lemma_first_line_stays(state.pending, more);
        let rest = StreamView { pending: after_first_line(state.pending), ..state };
        match first_line(state.pending) {
            LineView::Nothing => {
                lemma_drained_goes_on(rest, more);
            },
            LineView::Done => {},
            LineView::Event(event) => {
                lemma_events_leave_pending(rest, rest.pending + more, event);
                let next = stepped(rest, event);
                if next.failure is None {
                    lemma_drained_goes_on(next, more);
                }
            },
        }
    }
}

/// It makes no difference where the network cuts a reply, in the middle of a line
/// or of a character: two pieces come to what they come to as one. The first piece
/// must not complete a line that says that nothing follows.
pub proof fn law_replies_may_be_cut_anywhere(state: StreamView, first: Seq<u8>, second: Seq<u8>)
    requires
        unending(state.pending + first),
    ensures
        fed(fed(state, first), second) == fed(state, first + second),
{
    if state.failure is None {
        lemma_drained_goes_on(StreamView { pending: state.pending + first, ..state }, second);
        assert(state.pending + first + second =~= state.pending + (first + second));
    }
}

/// The pieces put together again.
pub open spec fn whole_of(pieces: Seq<Seq<u8>>) -> Seq<u8>
    decreases pieces.len(),
{
    if pieces.len() == 0 {
        Seq::empty()
    } else {
        whole_of(pieces.drop_last()) + pieces.last()
    }
}

/// The state after the pieces, one by one.
pub open spec fn fed_with(state: StreamView, pieces: Seq<Seq<u8>>) -> StreamView
    decreases pieces.len(),
{
    if pieces.len() == 0 {
        state
    } else {
        fed(fed_with(state, pieces.drop_last()), pieces.last())
    }
}

proof fn lemma_front_is_unending(bytes: Seq<u8>, more: Seq<u8>)
    requires
        unending(bytes + more),
    ensures
        unending(bytes),
    decreases bytes.len(),
{
    lemma_line_end(bytes, 0);
    if line_end(bytes, 0) < bytes.len() {
        lemma_first_line_stays(bytes, more);
        lemma_front_is_unending(after_first_line(bytes), more);
    }
}

/// A reply comes to the same in however many pieces it arrives, as long as no line
/// of it says that nothing follows.
pub proof fn law_replies_may_come_in_any_pieces(ai_logs: bool, pieces: Seq<Seq<u8>>)
    requires
        unending(whole_of(pieces)),
    ensures
        fed_with(unheard(ai_logs), pieces) == fed(unheard(ai_logs), whole_of(pieces)),
    decreases pieces.len(),
{
    let start = unheard(ai_logs);
    assert(forall|bytes: Seq<u8>| start.pending + bytes =~= bytes);
    if pieces.len() == 0 {
        assert(whole_of(pieces) =~= Seq::<u8>::empty());
        assert(line_end(Seq::<u8>::empty(), 0) == 0);
    } else {
        let front = pieces.drop_last();
        lemma_front_is_unending(whole_of(front), pieces.last());
        law_replies_may_come_in_any_pieces(ai_logs, front);
        law_replies_may_be_cut_anywhere(start, whole_of(front), pieces.last());
    }
}

/// A reply that was cut off, that failed or that brought no text is never taken
/// for an answer.
pub proof fn law_only_finished_replies_are_answers(state: StreamView, payload: JsonView)
    ensures
        outcome(state, payload) is Ok <==> state.failure is None && state.stopped
            && state.output.len() > 0,
{
}

/// A failed reply stays failed, with the same failure, whatever follows.
pub proof fn law_failed_replies_stay_failed(state: StreamView, chunk: Seq<u8>, payload: JsonView)
    requires
        state.failure is Some,
    ensures
        fed(state, chunk) == state,
        outcome(fed(state, chunk), payload) == Err::<(Seq<char>, TokenUsage), AttemptView>(
            state.failure->0,
        ),
{
}

/// The state after a series of events.
pub open spec fn after_events(state: StreamView, events: Seq<JsonView>) -> StreamView
    decreases events.len(),
{
    if events.len() == 0 {
        state
    } else {
        after_event(after_events(state, events.drop_last()), events.last())
    }
}

/// The pieces of text that the events bring, one after the other.
pub open spec fn text_of_events(events: Seq<JsonView>) -> Seq<char>
    decreases events.len(),
{
    if events.len() == 0 {
        Seq::empty()
    } else {
        let before = text_of_events(events.drop_last());
        match replies::content_delta(events.last()) {
            Some(delta) => before + delta,
            None => before,
        }
    }
}

/// The text of a reply is that of its events, in order.
pub proof fn law_output_is_the_text_of_the_events(ai_logs: bool, events: Seq<JsonView>)
    requires
        forall|i: int|
            0 <= i < events.len() ==> json::str_or_empty(
                (#[trigger] events[i]).get("type"@),
            ) != "error"@,
    ensures
        after_events(unheard(ai_logs), events).output == text_of_events(events),
    decreases events.len(),
{
    if events.len() > 0 {
        let before = events.drop_last();
        assert forall|i: int| 0 <= i < before.len() implies json::str_or_empty(
            (#[trigger] before[i]).get("type"@),
        ) != "error"@ by {
            assert(before[i] == events[i]);
        }
        law_output_is_the_text_of_the_events(ai_logs, before);
        assert(events.last() == events[events.len() - 1]);
    }
}

/// Nothing is shown of a reply where showing is off.
pub proof fn law_quiet_replies_show_nothing(state: StreamView, chunk: Seq<u8>)
    requires
        !state.ai_logs,
    ensures
        fed(state, chunk).screen == state.screen,
        closing_screen(fed(state, chunk)) == state.screen,
{
    lemma_quiet_drained(StreamView { pending: state.pending + chunk, ..state });
    assert(closing_screen(fed(state, chunk)) =~= state.screen);
}

proof fn lemma_quiet_drained(state: StreamView)
    requires
        !state.ai_logs,
    ensures
        drained(state).screen == state.screen,
        !drained(state).ai_logs,
    decreases state.pending.len(),
{
    lemma_line_end(state.pending, 0);
    if line_end(state.pending, 0) < state.pending.len() {
        let rest = StreamView { pending: after_first_line(state.pending), ..state };
        match first_line(state.pending) {
            LineView::Nothing => {
                lemma_quiet_drained(rest);
            },
            LineView::Done => {},
            LineView::Event(event) => {
                reveal(stepped);
                let next = stepped(rest, event);
                assert(next.screen =~= state.screen);
                if next.failure is None {
                    lemma_quiet_drained(next);
                }
            },
        }
    }
}

/// Whether the event brings exactly these words: as a delta of text, or as a block of
/// text that starts.
pub open spec fn is_piece_of_text(event: JsonView, words: Seq<char>) -> bool {
    ||| {
        &&& event.get("type"@) == Some(JsonView::Text("content_block_delta"@))
        &&& event.get("delta"@) matches Some(part) && part.get("type"@) == Some(
            JsonView::Text("text_delta"@),
        ) && part.get("text"@) == Some(JsonView::Text(words))
    }
    ||| {
        &&& event.get("type"@) == Some(JsonView::Text("content_block_start"@))
        &&& event.get("content_block"@) matches Some(part) && part.get("type"@) == Some(
            JsonView::Text("text"@),
        ) && part.get("text"@) == Some(JsonView::Text(words))
    }
}

/// The words one after the other.
pub open spec fn concatenated(words: Seq<Seq<char>>) -> Seq<char>
    decreases words.len(),
{
    if words.len() == 0 {
        Seq::empty()
    } else {
        concatenated(words.drop_last()) + words.last()
    }
}

proof fn lemma_types_differ()
    ensures
        "error"@ != "content_block_delta"@,
        "error"@ != "content_block_start"@,
        "error"@ != "message_stop"@,
        "error"@ != ""@,
        "message_stop"@ != ""@,
{
    reveal_strlit("error");
    reveal_strlit("content_block_delta");
    reveal_strlit("content_block_start");
    reveal_strlit("message_stop");
    reveal_strlit("");
    assert("error"@.len() == 5 && "message_stop"@.len() == 12 && ""@.len() == 0);
    assert("content_block_delta"@.len() == 19 && "content_block_start"@.len() == 19);
}

/// A piece of text makes the output longer by exactly that text and does not end the
/// reply.
pub proof fn law_pieces_of_text_grow_the_output(
    state: StreamView,
    event: JsonView,
    words: Seq<char>,
)
    requires
        is_piece_of_text(event, words),
    ensures
        after_event(state, event).output == state.output + words,
        after_event(state, event).failure == state.failure,
        after_event(state, event).usage == state.usage,
        after_event(state, event).pending == state.pending,
{
    lemma_types_differ();
    reveal_strlit("content_block_start");
    reveal_strlit("content_block_delta");
    assert("content_block_start"@[14] != "content_block_delta"@[14]);
    let part = if event.get("type"@) == Some(JsonView::Text("content_block_delta"@)) {
        event.get("delta"@)->0
    } else {
        event.get("content_block"@)->0
    };
    replies::law_pieces_of_text_are_taken_as_they_stand(event, part, words);
    reveal_strlit("message_start");
    reveal_strlit("message_delta");
    assert("message_start"@.len() == 13 && "message_delta"@.len() == 13);
    assert("content_block_start"@.len() == 19 && "content_block_delta"@.len() == 19);
    replies::law_usage_follows_the_reports(event, state.usage, event, event, 0);
}

/// The output of a reply of pieces of text is those texts, one after the other, as
/// they stand.
pub proof fn law_the_output_is_the_texts_in_order(
    ai_logs: bool,
    events: Seq<JsonView>,
    words: Seq<Seq<char>>,
)
    requires
        events.len() == words.len(),
        forall|i: int| 0 <= i < events.len() ==> #[trigger] is_piece_of_text(events[i], words[i]),
    ensures
        after_events(unheard(ai_logs), events).output == concatenated(words),
    decreases events.len(),
{
    if events.len() > 0 {
        let front = events.drop_last();
        let before = words.drop_last();
        assert forall|i: int| 0 <= i < front.len() implies #[trigger] is_piece_of_text(
            front[i],
            before[i],
        ) by {
            assert(is_piece_of_text(events[i], words[i]));
        }
        law_the_output_is_the_texts_in_order(ai_logs, front, before);
        let last = events.len() - 1;
        assert(is_piece_of_text(events[last], words[last]));
        law_pieces_of_text_grow_the_output(
            after_events(unheard(ai_logs), front),
            events.last(),
            words.last(),
        );
    }
}

/// No other event changes the output: neither thinking, nor what is said of the
/// message as a whole, nor an error.
pub proof fn law_other_events_leave_the_output(state: StreamView, event: JsonView)
    requires
        !(event.get("type"@) matches Some(JsonView::Text(kind)) && (text::lowered(kind)
            == "content_block_start"@ || text::lowered(kind) == "content_block_delta"@)),
    ensures
        after_event(state, event).output == state.output,
{
    replies::law_nothing_else_brings_text(event, event);
}

/// A reply is finished by the event that says so and by no other.
pub proof fn law_only_a_stop_finishes_a_reply(state: StreamView, event: JsonView)
    ensures
        event.get("type"@) == Some(JsonView::Text("message_stop"@)) ==> after_event(
            state,
            event,
        ).stopped,
        event.get("type"@) != Some(JsonView::Text("message_stop"@)) ==> after_event(
            state,
            event,
        ).stopped == state.stopped,
{
    lemma_types_differ();
}

/// The reason that a reply stops for is the last one that an event gives.
pub proof fn law_the_last_stop_reason_counts(
    state: StreamView,
    event: JsonView,
    delta: JsonView,
    reason: Seq<char>,
)
    requires
        event.get("type"@) != Some(JsonView::Text("error"@)),
    ensures
        event.get("delta"@) == Some(delta) && delta.get("stop_reason"@) == Some(
            JsonView::Text(reason),
        ) ==> after_event(state, event).stop_reason == Some(reason),
        event.get("delta"@) is None ==> after_event(state, event).stop_reason == state.stop_reason,
{
    lemma_types_differ();
}

/// An error ends the reply: nothing of what it had is taken for an answer.
pub proof fn law_errors_end_the_reply(state: StreamView, event: JsonView, payload: JsonView)
    requires
        event.get("type"@) == Some(JsonView::Text("error"@)),
    ensures
        after_event(state, event).failure is Some,
        after_event(state, event).pending.len() == 0,
        outcome(after_event(state, event), payload) == Err::<(Seq<char>, TokenUsage), AttemptView>(
            failures::stream_error(event),
        ),
{
}

/// Thinking is noted, and adds nothing to the output.
pub proof fn law_thinking_is_noted(
    state: StreamView,
    event: JsonView,
    part: JsonView,
    words: Seq<char>,
)
    requires
        event.get("type"@) == Some(JsonView::Text("content_block_delta"@)),
        event.get("delta"@) == Some(part),
        part.get("type"@) == Some(JsonView::Text("thinking_delta"@)),
        part.get("thinking"@) == Some(JsonView::Text(words)),
    ensures
        after_event(state, event).saw_thinking,
        after_event(state, event).output == state.output,
{
    lemma_types_differ();
    replies::law_pieces_of_reasoning_are_taken_as_they_stand(event, part, words);
    replies::law_nothing_else_brings_text(event, part);
}

/// A finished reply is its output with its usage; one that ended early is a failure
/// that says how much of it arrived.
pub proof fn law_finished_replies_are_their_output(state: StreamView, payload: JsonView)
    requires
        state.failure is None,
    ensures
        state.stopped && state.output.len() > 0 ==> outcome(state, payload) == Ok::<
            (Seq<char>, TokenUsage),
            AttemptView,
        >((state.output, state.usage)),
        !state.stopped ==> (outcome(state, payload) matches Err(failure) && failure.report
            == "Streaming response ended before message_stop after "@ + text::decimal(
            state.output.len(),
        ) + " character(s) of output; the response was truncated"@ && failure.kind
            == attempts::FailureKind::NextVariant),
{
}

/// A whole line is taken up at once, and a line that has not ended waits.
pub proof fn law_lines_are_taken_up_when_they_end(
    state: StreamView,
    line: Seq<u8>,
    event: JsonView,
)
    requires
        state.failure is None,
        state.pending.len() == 0,
        forall|i: int| 0 <= i < line.len() ==> #[trigger] line[i] != 10,
    ensures
        fed(state, line) == (StreamView { pending: line, ..state }),
        events::said_by(text::utf8_lossy(line)) == LineView::Event(event) ==> fed(
            state,
            line.push(10),
        ) == after_event(state, event),
        events::said_by(text::utf8_lossy(line)) is Nothing ==> fed(state, line.push(10)) == state,
{
    assert(state.pending + line =~= line);
    lemma_line_end_is_first(line, 0, line.len() as int);
    let whole = line.push(10);
    assert(state.pending + whole =~= whole);
    lemma_line_end_is_first(whole, 0, line.len() as int);
    assert(whole.take(line.len() as int) =~= line);
    assert(after_first_line(whole) =~= state.pending);
    let rest = StreamView { pending: after_first_line(whole), ..state };
    assert(line_end(rest.pending, 0) == 0);
    assert(drained(rest) == rest);
    if let LineView::Event(event) = first_line(whole) {
        reveal(stepped);
        let next = stepped(rest, event);
        lemma_events_leave_pending(rest, rest.pending, event);
        if next.failure is None {
            assert(line_end(next.pending, 0) == 0);
            assert(drained(next) == next);
        }
    }
}

/// Whether the event brings exactly these words as thinking.
pub open spec fn is_piece_of_thinking(event: JsonView, words: Seq<char>) -> bool {
    &&& event.get("type"@) == Some(JsonView::Text("content_block_delta"@))
    &&& event.get("delta"@) matches Some(part) && part.get("type"@) == Some(
        JsonView::Text("thinking_delta"@),
    ) && part.get("thinking"@) == Some(JsonView::Text(words))
}

proof fn lemma_last_shown(before: Seq<char>, gap: Seq<char>, heading: Seq<char>, words: Seq<char>)
    ensures
        text::ends_with(before + gap + words, words),
        text::ends_with(before + gap + (heading + words), words),
{
    text::law_parts_are_found_where_they_stand(before + gap, words, words);
    text::law_parts_are_found_where_they_stand(before + gap + heading, words, words);
    assert(before + gap + (heading + words) =~= before + gap + heading + words);
}

proof fn lemma_piece_of_text(event: JsonView, words: Seq<char>)
    requires
        is_piece_of_text(event, words),
    ensures
        replies::content_delta(event) == Some(words),
        json::str_or_empty(event.get("type"@)) != "error"@,
{
    lemma_types_differ();
    assert("content_block_start"@[14] != "content_block_delta"@[14]) by {
        reveal_strlit("content_block_start");
        reveal_strlit("content_block_delta");
    }
    let part = if event.get("type"@) == Some(JsonView::Text("content_block_delta"@)) {
        event.get("delta"@)->0
    } else {
        event.get("content_block"@)->0
    };
    replies::law_pieces_of_text_are_taken_as_they_stand(event, part, words);
}

/// Where the terminal shows replies, each piece of text is added to what it was shown,
/// as it stands and last.
pub proof fn law_the_terminal_shows_the_text(state: StreamView, event: JsonView, words: Seq<char>)
    requires
        words.len() > 0,
        state.ai_logs,
        is_piece_of_text(event, words),
    ensures
        text::ends_with(after_event(state, event).screen, words),
{
    lemma_piece_of_text(event, words);
    let thought = reasoned(noted(state, event), event);
    let gap = console::reasoning_broken(true, thought.reasoning, "\n"@).1;
    lemma_last_shown(thought.screen, gap, console::OUTPUT_HEADING@, words);
}

/// So is each piece of thinking.
pub proof fn law_the_terminal_shows_the_thinking(
    state: StreamView,
    event: JsonView,
    words: Seq<char>,
)
    requires
        words.len() > 0,
        state.ai_logs,
        is_piece_of_thinking(event, words),
    ensures
        text::ends_with(after_event(state, event).screen, words),
{
    lemma_types_differ();
    let part = event.get("delta"@)->0;
    replies::law_pieces_of_reasoning_are_taken_as_they_stand(event, part, words);
    replies::law_nothing_else_brings_text(event, part);
    let gap = console::summary_changed(true, state.reasoning, replies::block_index(event)).1;
    lemma_last_shown(state.screen, gap, console::REASONING_HEADING@, words);
}

/// What the terminal was shown stays, and nothing is added to it where it shows no
/// replies.
pub proof fn law_what_was_shown_stays(state: StreamView, event: JsonView)
    ensures
        text::starts_with(after_event(state, event).screen, state.screen),
        !state.ai_logs ==> after_event(state, event).screen == state.screen,
{
    let thought = reasoned(noted(state, event), event);
    assert(thought.screen.subrange(0, state.screen.len() as int) =~= state.screen);
    let after = after_event(state, event).screen;
    let spoken = spoken(thought, event).screen;
    assert(spoken.subrange(0, thought.screen.len() as int) =~= thought.screen);
    assert(spoken.subrange(0, state.screen.len() as int) =~= state.screen);
    assert(state.screen.subrange(0, state.screen.len() as int) =~= state.screen);
    if !state.ai_logs {
        assert(thought.screen =~= state.screen);
        assert(spoken =~= state.screen);
    }
}

/// At the end a line of output that has not ended is ended, and nothing else of what
/// the terminal was shown changes.
pub proof fn law_the_last_line_is_ended(state: StreamView)
    ensures
        text::starts_with(closing_screen(state), state.screen),
        !state.ai_logs ==> closing_screen(state) == state.screen,
        state.ai_logs && state.content.started && !state.content.ends_with_newline
            ==> text::starts_with(closing_screen(state), state.screen + seq!['\n']),
{
    let closing = closing_screen(state);
    assert(closing.subrange(0, state.screen.len() as int) =~= state.screen);
    if !state.ai_logs {
        assert(closing =~= state.screen);
    } else if state.content.started && !state.content.ends_with_newline {
        reveal_strlit("\n");
        let ended = state.screen + seq!['\n'];
        assert(closing.subrange(0, ended.len() as int) =~= ended);
    }
}

/// Behind the line that says that nothing follows, nothing is taken up.
pub proof fn law_nothing_follows_the_end(state: StreamView, line: Seq<u8>, rest: Seq<u8>)
    requires
        state.failure is None,
        state.pending.len() == 0,
        forall|i: int| 0 <= i < line.len() ==> #[trigger] line[i] != 10,
        events::said_by(text::utf8_lossy(line)) is Done,
    ensures
        fed(state, line + seq![10u8] + rest) == (StreamView { pending: rest, ..state }),
{
    let whole = line + seq![10u8] + rest;
    assert(state.pending + whole =~= whole);
    lemma_line_end_is_first(whole, 0, line.len() as int);
    assert(whole.take(line.len() as int) =~= line);
    assert(after_first_line(whole) =~= rest);
}

} // verus!
