//! What the terminal shows of a reply while it arrives.
use crate::text;
use vstd::prelude::*;
use vstd::string::StringExecFns;

verus! {

/// What the terminal was shown of a model's reasoning.
#[derive(Debug, Clone, Copy)]
pub struct ReasoningStreamState {
    pub started: bool,
    pub line_break_emitted: bool,
    pub last_summary_index: Option<i64>,
}

/// What the terminal was shown of a model's output.
#[derive(Debug, Clone, Copy)]
pub struct ContentStreamState {
    pub started: bool,
    pub ends_with_newline: bool,
}

impl ReasoningStreamState {
    /// Nothing shown yet.
    pub open spec fn untouched() -> ReasoningStreamState {
        ReasoningStreamState { started: false, line_break_emitted: false, last_summary_index: None }
    }
}

impl Default for ReasoningStreamState {
    fn default() -> (r: Self)
        ensures
            r == ReasoningStreamState::untouched(),
    {
        ReasoningStreamState { started: false, line_break_emitted: false, last_summary_index: None }
    }
}

impl ContentStreamState {
    /// Nothing shown yet.
    pub open spec fn untouched() -> ContentStreamState {
        ContentStreamState { started: false, ends_with_newline: false }
    }
}

impl Default for ContentStreamState {
    fn default() -> (r: Self)
        ensures
            r == ContentStreamState::untouched(),
    {
        ContentStreamState { started: false, ends_with_newline: false }
    }
}

/// The line above a model's reasoning.
pub const REASONING_HEADING: &'static str = "🤖 🧠 Reasoning summary:\n";

/// The words before a model's output.
pub const OUTPUT_HEADING: &'static str = "🤖 ↳ Output: ";

/// The state after a piece of reasoning, and what is shown of it.
pub open spec fn reasoning_shown(
    enabled: bool,
    state: ReasoningStreamState,
    delta: Seq<char>,
) -> (ReasoningStreamState, Seq<char>) {
    if !enabled || delta.len() == 0 {
        (state, Seq::empty())
    } else {
        (
            ReasoningStreamState { started: true, line_break_emitted: false, ..state },
            if state.started {
                delta
            } else {
                REASONING_HEADING@ + delta
            },
        )
    }
}

/// The state after a break in the reasoning, and what is shown of it. A break
/// comes only after reasoning, and only once.
pub open spec fn reasoning_broken(
    enabled: bool,
    state: ReasoningStreamState,
    mark: Seq<char>,
) -> (ReasoningStreamState, Seq<char>) {
    if !enabled || !state.started || state.line_break_emitted {
        (state, Seq::empty())
    } else {
        (ReasoningStreamState { line_break_emitted: true, ..state }, mark)
    }
}

/// The state after a piece of output, and what is shown of it.
pub open spec fn content_shown(
    enabled: bool,
    state: ContentStreamState,
    delta: Seq<char>,
) -> (ContentStreamState, Seq<char>) {
    if !enabled || delta.len() == 0 {
        (state, Seq::empty())
    } else {
        (
            ContentStreamState { started: true, ends_with_newline: text::ends_with(delta, "\n"@) },
            if state.started {
                delta
            } else {
                OUTPUT_HEADING@ + delta
            },
        )
    }
}

/// The state after the output, and what is shown of its end.
pub open spec fn content_ended(enabled: bool, state: ContentStreamState) -> (
    ContentStreamState,
    Seq<char>,
) {
    if !enabled || !state.started || state.ends_with_newline {
        (state, Seq::empty())
    } else {
        (ContentStreamState { ends_with_newline: true, ..state }, "\n"@)
    }
}

/// The state after a step to a part of the reasoning, and what is shown of it.
pub open spec fn summary_changed(
    enabled: bool,
    state: ReasoningStreamState,
    summary_index: Option<i64>,
) -> (ReasoningStreamState, Seq<char>) {
    match summary_index {
        None => (state, Seq::empty()),
        Some(current) => {
            let (broken, shown) = match state.last_summary_index {
                Some(previous) => if previous != current {
                    reasoning_broken(enabled, state, "\n\n"@)
                } else {
                    (state, Seq::empty())
                },
                None => (state, Seq::empty()),
            };
            (ReasoningStreamState { last_summary_index: Some(current), ..broken }, shown)
        },
    }
}

/// Shows a piece of reasoning: the text to write to the terminal.
pub fn stream_reasoning_delta_to_stdout(
    enabled: bool,
    state: &mut ReasoningStreamState,
    delta: &str,
) -> (shown: String)
    ensures
        (*final(state), shown@) == reasoning_shown(enabled, *old(state), delta@),
{
    if !enabled || delta.is_empty() {
        return String::new();
    }
    let shown = if !state.started {
        REASONING_HEADING.to_owned().concat(delta)
    } else {
        delta.to_owned()
    };
    state.started = true;
    state.line_break_emitted = false;
    shown
}

/// Ends a line of reasoning: the text to write to the terminal.
pub fn emit_reasoning_line_break(enabled: bool, state: &mut ReasoningStreamState) -> (shown: String)
    ensures
        (*final(state), shown@) == reasoning_broken(enabled, *old(state), "\n"@),
{
    if !enabled || !state.started || state.line_break_emitted {
        return String::new();
    }
    state.line_break_emitted = true;
    "\n".to_owned()
}

/// Ends a paragraph of reasoning: the text to write to the terminal.
pub fn emit_reasoning_double_line_break(enabled: bool, state: &mut ReasoningStreamState) -> (shown:
    String)
    ensures
        (*final(state), shown@) == reasoning_broken(enabled, *old(state), "\n\n"@),
{
    if !enabled || !state.started || state.line_break_emitted {
        return String::new();
    }
    state.line_break_emitted = true;
    "\n\n".to_owned()
}

/// Ends the reasoning: the text to write to the terminal.
pub fn finalize_reasoning_stdout(enabled: bool, state: &mut ReasoningStreamState) -> (shown: String)
    ensures
        (*final(state), shown@) == reasoning_broken(enabled, *old(state), "\n"@),
{
    emit_reasoning_line_break(enabled, state)
}

/// Shows a piece of output: the text to write to the terminal.
pub fn stream_content_delta_to_stdout(
    enabled: bool,
    state: &mut ContentStreamState,
    delta: &str,
) -> (shown: String)
    ensures
        (*final(state), shown@) == content_shown(enabled, *old(state), delta@),
{
    if !enabled || delta.is_empty() {
        return String::new();
    }
    let shown = if !state.started {
        OUTPUT_HEADING.to_owned().concat(delta)
    } else {
        delta.to_owned()
    };
    state.started = true;
    state.ends_with_newline = text::has_suffix(delta, "\n");
    shown
}

/// Ends the output: the text to write to the terminal.
pub fn finalize_content_stdout(enabled: bool, state: &mut ContentStreamState) -> (shown: String)
    ensures
        (*final(state), shown@) == content_ended(enabled, *old(state)),
{
    if !enabled || !state.started || state.ends_with_newline {
        return String::new();
    }
    state.ends_with_newline = true;
    "\n".to_owned()
}

/// Sets the parts of the reasoning apart: the text to write to the terminal when
/// a piece of the part `summary_index` follows.
pub fn maybe_emit_reasoning_line_break_on_summary_change(
    enabled: bool,
    state: &mut ReasoningStreamState,
    summary_index: Option<i64>,
) -> (shown: String)
    ensures
        (*final(state), shown@) == summary_changed(enabled, *old(state), summary_index),
{
    match summary_index {
        None => String::new(),
        Some(current) => {
            let shown = match state.last_summary_index {
                Some(previous) => if previous != current {
                    emit_reasoning_double_line_break(enabled, state)
                } else {
                    String::new()
                },
                None => String::new(),
            };
            state.last_summary_index = Some(current);
            shown
        },
    }
}

/// Nothing is shown where showing is off, and nothing is noted as shown.
pub proof fn law_disabled_console_is_silent(
    reasoning: ReasoningStreamState,
    content: ContentStreamState,
    delta: Seq<char>,
    mark: Seq<char>,
)
    ensures
        reasoning_shown(false, reasoning, delta) == (reasoning, Seq::<char>::empty()),
        reasoning_broken(false, reasoning, mark) == (reasoning, Seq::<char>::empty()),
        content_shown(false, content, delta) == (content, Seq::<char>::empty()),
        content_ended(false, content) == (content, Seq::<char>::empty()),
{
}

/// The reasoning is broken at most once between two pieces of it.
pub proof fn law_reasoning_breaks_once(
    enabled: bool,
    state: ReasoningStreamState,
    first: Seq<char>,
    second: Seq<char>,
)
    ensures
        ({
            let broken = reasoning_broken(enabled, state, first).0;
            reasoning_broken(enabled, broken, second) == (broken, Seq::<char>::empty())
        }),
{
}

/// The terminal shows pieces of output as they stand, one after the other, behind one
/// heading, and ends them with a line feed where they do not end with one.
pub proof fn law_output_is_shown_as_it_stands(first: Seq<char>, second: Seq<char>)
    requires
        first.len() > 0,
        second.len() > 0,
    ensures
        ({
            let (one, shown) = content_shown(true, ContentStreamState::untouched(), first);
            let (two, more) = content_shown(true, one, second);
            &&& shown == OUTPUT_HEADING@ + first
            &&& more == second
            &&& content_ended(true, two).1 == if second.last() == '\n' {
                Seq::<char>::empty()
            } else {
                "\n"@
            }
            &&& content_ended(true, ContentStreamState::untouched()).1.len() == 0
        }),
{
    reveal_strlit("\n");
    let end = second.subrange(second.len() - 1, second.len() as int);
    assert(end[0] == second.last());
    assert((second.last() == '\n') == (end =~= "\n"@));
}

/// The terminal shows pieces of reasoning as they stand, one after the other, behind
/// one heading, and sets two parts of it apart by a blank line.
pub proof fn law_reasoning_is_shown_as_it_stands(
    first: Seq<char>,
    second: Seq<char>,
    part: i64,
    next: i64,
)
    requires
        first.len() > 0,
        second.len() > 0,
    ensures
        ({
            let start = summary_changed(true, ReasoningStreamState::untouched(), Some(part));
            let (one, shown) = reasoning_shown(true, start.0, first);
            let (parted, gap) = summary_changed(true, one, Some(next));
            let (two, more) = reasoning_shown(true, parted, second);
            &&& start.1.len() == 0
            &&& shown == REASONING_HEADING@ + first
            &&& gap == if part == next {
                Seq::<char>::empty()
            } else {
                "\n\n"@
            }
            &&& more == second
            &&& reasoning_broken(true, two, "\n"@).1 == "\n"@
        }),
{
}

/// Whatever was shown before, every piece of output and of reasoning is shown as it
/// stands, behind a heading only where it is the first.
pub proof fn law_every_piece_is_shown(
    reasoning: ReasoningStreamState,
    content: ContentStreamState,
    delta: Seq<char>,
)
    requires
        delta.len() > 0,
    ensures
        reasoning.started ==> reasoning_shown(true, reasoning, delta).1 == delta,
        !reasoning.started ==> reasoning_shown(true, reasoning, delta).1
            == "🤖 🧠 Reasoning summary:\n"@ + delta,
        reasoning_shown(true, reasoning, delta).0.started,
        reasoning_shown(true, reasoning, delta).0.last_summary_index
            == reasoning.last_summary_index,
        reasoning_broken(true, reasoning_shown(true, reasoning, delta).0, delta).1 == delta,
        content.started ==> content_shown(true, content, delta).1 == delta,
        !content.started ==> content_shown(true, content, delta).1 == "🤖 ↳ Output: "@ + delta,
        content_shown(true, content, delta).0.started,
{
}

/// A step to another part of the reasoning sets it apart by a blank line, once; a step
/// within a part, or one that names no part, shows nothing.
pub proof fn law_parts_of_reasoning_are_set_apart(
    state: ReasoningStreamState,
    part: i64,
    next: i64,
)
    requires
        state.last_summary_index == Some(part),
    ensures
        part == next ==> summary_changed(true, state, Some(next)) == (state, Seq::<char>::empty()),
        part != next && state.started && !state.line_break_emitted ==> summary_changed(
            true,
            state,
            Some(next),
        ).1 == seq!['\n', '\n'],
        part != next && (!state.started || state.line_break_emitted) ==> summary_changed(
            true,
            state,
            Some(next),
        ).1.len() == 0,
        summary_changed(true, state, Some(next)).0.last_summary_index == Some(next),
        summary_changed(true, state, Some(next)).0.started == state.started,
        summary_changed(true, state, None) == (state, Seq::<char>::empty()),
{
    reveal_strlit("\n\n");
    assert("\n\n"@ =~= seq!['\n', '\n']);
}

} // verus!
