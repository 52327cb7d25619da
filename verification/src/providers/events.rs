//! The lines of an event stream.
use crate::json::{Json, JsonView};
use crate::text;
use crate::wire;
use vstd::prelude::*;

verus! {

/// What a line of an event stream says.
pub enum Line {
    /// Nothing that is understood.
    Nothing,
    /// That no events follow.
    Done,
    /// An event.
    Event(Json),
}

/// What a line of an event stream says, as a value.
pub enum LineView {
    Nothing,
    Done,
    Event(JsonView),
}

impl View for Line {
    type V = LineView;

    open spec fn view(&self) -> LineView {
        match self {
            Line::Nothing => LineView::Nothing,
            Line::Done => LineView::Done,
            Line::Event(event) => LineView::Event(event@),
        }
    }
}

/// The data that a line of an event stream carries.
pub open spec fn data_in(line: Seq<char>) -> Option<Seq<char>> {
    let line = text::trimmed(line);
    if text::starts_with(line, "data:"@) {
        Some(text::trimmed(line.skip(5)))
    } else {
        None
    }
}

/// What a line of an event stream says.
pub open spec fn said_by(line: Seq<char>) -> LineView {
    match data_in(line) {
        Some(data) => if data == "[DONE]"@ {
            LineView::Done
        } else {
            match wire::json_parse(data) {
                Some(event) => LineView::Event(event),
                None => LineView::Nothing,
            }
        },
        None => LineView::Nothing,
    }
}

/// The data that a line of an event stream carries.
pub fn event_data(line: &str) -> (r: Option<&str>)
    ensures
        text::opt_str(r) == data_in(line@),
{
    proof {
        reveal_strlit("data:");
    }
    match text::after_prefix(text::trim(line), "data:") {
        Some(data) => Some(text::trim(data)),
        None => None,
    }
}

/// What a line of an event stream says.
pub fn read_line(line: &str) -> (r: Line)
    ensures
        r@ == said_by(line@),
{
    match event_data(line) {
        Some(data) => if text::same(data, "[DONE]") {
            Line::Done
        } else {
            match wire::parse(data) {
                Some(event) => Line::Event(event),
                None => Line::Nothing,
            }
        },
        None => Line::Nothing,
    }
}

/// A line that starts with the word for data carries what follows it, padding aside;
/// any other line says nothing.
pub proof fn law_lines_of_data_carry_what_follows(line: Seq<char>, data: Seq<char>)
    requires
        data.len() > 0 ==> !text::is_space(data[0]) && !text::is_space(data.last()),
    ensures
        data_in("data:"@ + data) == Some(data),
        data_in("data: "@ + data) == Some(data),
        !text::starts_with(text::trimmed(line), "data:"@) ==> said_by(line) is Nothing,
{
    reveal_strlit("data:");
    reveal_strlit("data: ");
    let none = Seq::<char>::empty();
    let tight = "data:"@ + data;
    assert(none + tight + none =~= tight);
    text::law_trimming_takes_the_padding(none, tight, none);
    assert(tight.subrange(0, 5) =~= "data:"@);
    assert(tight.skip(5) =~= data);
    assert(none + data + none =~= data);
    text::law_trimming_takes_the_padding(none, data, none);
    let wide = "data: "@ + data;
    assert(wide.subrange(0, 5) =~= "data:"@);
    if data.len() > 0 {
        assert(none + wide + none =~= wide);
        text::law_trimming_takes_the_padding(none, wide, none);
        assert(wide.skip(5) =~= seq![' '] + data + none);
        text::law_trimming_takes_the_padding(seq![' '], data, none);
    } else {
        assert(wide =~= none + "data:"@ + seq![' ']);
        text::law_trimming_takes_the_padding(none, "data:"@, seq![' ']);
        assert("data:"@.subrange(0, 5) =~= "data:"@);
        assert("data:"@.skip(5) =~= data);
    }
}

/// A line of data is the event that its JSON writes, or the word that nothing
/// follows; data that is neither says nothing.
pub proof fn law_lines_of_data_are_events(line: Seq<char>, data: Seq<char>)
    requires
        data_in(line) == Some(data),
    ensures
        data == "[DONE]"@ ==> said_by(line) is Done,
        data != "[DONE]"@ ==> said_by(line) == match wire::json_parse(data) {
            Some(event) => LineView::Event(event),
            None => LineView::Nothing,
        },
{
}

} // verus!
