//! JSON text and `serde_json` values: reading them into the library's values
//! and writing the library's values out.
use crate::json::{self, Json, JsonView};
use crate::text;
use vstd::prelude::*;

verus! {

/// What a `serde_json::Value` holds.
pub uninterp spec fn value_contents(value: serde_json::Value) -> JsonView;

/// What `serde_json::from_str` reads from a text as a value; nothing where it
/// refuses the text.
pub uninterp spec fn json_parse(text: Seq<char>) -> Option<JsonView>;

/// The text that `serde_json::Value::to_string` writes for a value.
pub uninterp spec fn json_text(value: JsonView) -> Seq<char>;

/// The outermost layer of a `serde_json::Value`.
enum Layer {
    Null,
    Bool(bool),
    Number(serde_json::Number),
    Text(String),
    Array(Vec<serde_json::Value>),
    Object(Vec<(String, serde_json::Value)>),
}

spec fn contents_of(items: Seq<serde_json::Value>) -> Seq<JsonView> {
    Seq::new(items.len(), |i: int| value_contents(items[i]))
}

spec fn named_contents(entries: Seq<(String, serde_json::Value)>) -> Map<Seq<char>, JsonView>
    decreases entries.len(),
{
    if entries.len() == 0 {
        Map::empty()
    } else {
        named_contents(entries.drop_last()).insert(
            entries.last().0@,
            value_contents(entries.last().1),
        )
    }
}

spec fn layer_contents(layer: Layer) -> JsonView {
    match layer {
        Layer::Null => JsonView::Null,
        Layer::Bool(flag) => JsonView::Bool(flag),
        Layer::Number(number) => json::number_view(number),
        Layer::Text(text) => JsonView::Text(text@),
        Layer::Array(items) => JsonView::Array(contents_of(items@)),
        Layer::Object(entries) => JsonView::Object(named_contents(entries@)),
    }
}

spec fn names_differ(entries: Seq<(String, serde_json::Value)>) -> bool {
    forall|i: int, j: int|
        0 <= i < j < entries.len() ==> #[trigger] entries[i].0@ != #[trigger] entries[j].0@
}

/// The variants of `serde_json::Value`, told apart: the layer holds what the
/// value held, and the names of an object, which `serde_json::Map` keeps apart,
/// differ.
#[verifier::external_body]
fn take_layer(value: serde_json::Value) -> (layer: Layer)
    ensures
        value_contents(value) == layer_contents(layer),
        layer matches Layer::Object(entries) ==> names_differ(entries@),
{
    match value {
        serde_json::Value::Null => Layer::Null,
        serde_json::Value::Bool(flag) => Layer::Bool(flag),
        serde_json::Value::Number(number) => Layer::Number(number),
        serde_json::Value::String(text) => Layer::Text(text),
        serde_json::Value::Array(items) => Layer::Array(items),
        serde_json::Value::Object(entries) => Layer::Object(entries.into_iter().collect()),
    }
}

/// The constructors of `serde_json::Value`: the value holds what the layer
/// held. The names of an object differ, so that `serde_json::Map` keeps every
/// entry.
#[verifier::external_body]
fn make_value(layer: Layer) -> (value: serde_json::Value)
    requires
        layer matches Layer::Object(entries) ==> names_differ(entries@),
    ensures
        value_contents(value) == layer_contents(layer),
{
    match layer {
        Layer::Null => serde_json::Value::Null,
        Layer::Bool(flag) => serde_json::Value::Bool(flag),
        Layer::Number(number) => serde_json::Value::Number(number),
        Layer::Text(text) => serde_json::Value::String(text),
        Layer::Array(items) => serde_json::Value::Array(items),
        Layer::Object(entries) => serde_json::Value::Object(entries.into_iter().collect()),
    }
}

/// `serde_json::from_str` into a `serde_json::Value`: what comes back depends
/// on the text alone.
#[verifier::external_body]
fn parse_value(text: &str) -> (r: Result<serde_json::Value, serde_json::Error>)
    ensures
        json_parse(text@) == match r {
            Ok(value) => Some(value_contents(value)),
            Err(_) => None,
        },
{
    serde_json::from_str::<serde_json::Value>(text)
}

/// `serde_json::Value::to_string`: what is written depends on what the value
/// holds alone, since the members of an object are written in the order of
/// their names.
#[verifier::external_body]
fn value_text(value: &serde_json::Value) -> (r: String)
    ensures
        r@ == json_text(value_contents(*value)),
{
    value.to_string()
}

proof fn lemma_named_contents(entries: Seq<(String, serde_json::Value)>, i: int)
    requires
        names_differ(entries),
        0 <= i < entries.len(),
    ensures
        named_contents(entries).dom().finite(),
        named_contents(entries).dom().contains(entries[i].0@),
        named_contents(entries)[entries[i].0@] == value_contents(entries[i].1),
    decreases entries.len(),
{
    let front = entries.drop_last();
    if i < entries.len() - 1 {
        assert(names_differ(front)) by {
            assert forall|a: int, b: int| 0 <= a < b < front.len() implies #[trigger] front[a].0@
                != #[trigger] front[b].0@ by {
                assert(entries[a].0@ != entries[b].0@);
            }
        }
        lemma_named_contents(front, i);
        assert(entries[i].0@ != entries[entries.len() - 1].0@);
    } else {
        lemma_named_contents_finite(front);
    }
}

proof fn lemma_named_contents_finite(entries: Seq<(String, serde_json::Value)>)
    ensures
        named_contents(entries).dom().finite(),
    decreases entries.len(),
{
    if entries.len() > 0 {
        lemma_named_contents_finite(entries.drop_last());
    }
}

proof fn lemma_every_name_has_an_entry(
    entries: Seq<(String, serde_json::Value)>,
    name: Seq<char>,
)
    requires
        named_contents(entries).dom().contains(name),
    ensures
        exists|i: int| 0 <= i < entries.len() && (#[trigger] entries[i]).0@ == name,
    decreases entries.len(),
{
    let front = entries.drop_last();
    if entries.last().0@ == name {
        assert(entries[entries.len() - 1].0@ == name);
    } else {
        lemma_every_name_has_an_entry(front, name);
        let i = choose|i: int| 0 <= i < front.len() && (#[trigger] front[i]).0@ == name;
        assert(entries[i].0@ == name);
    }
}

fn holds_name(entries: &Vec<(String, serde_json::Value)>, name: &str) -> (r: bool)
    requires
        names_differ(entries@),
    ensures
        r == named_contents(entries@).dom().contains(name@),
{
    let mut i: usize = 0;
    while i < entries.len()
        invariant
            i <= entries.len(),
            names_differ(entries@),
            forall|j: int| 0 <= j < i ==> (#[trigger] entries@[j]).0@ != name@,
        decreases entries.len() - i,
    {
        if text::same(&entries[i].0, name) {
            proof {
                lemma_named_contents(entries@, i as int);
            }
            return true;
        }
        i += 1;
    }
    proof {
        if named_contents(entries@).dom().contains(name@) {
            lemma_every_name_has_an_entry(entries@, name@);
        }
    }
    false
}

/// The library's value for a `serde_json::Value`.
pub fn from_value(value: serde_json::Value) -> (r: Json)
    ensures
        r@ == value_contents(value),
    decreases value_contents(value),
{
    match take_layer(value) {
        Layer::Null => Json::Null,
        Layer::Bool(flag) => Json::Bool(flag),
        Layer::Number(number) => Json::Number(number),
        Layer::Text(text) => Json::Text(text),
        Layer::Array(items) => {
            let ghost all = items@;
            let mut out: Vec<Json> = Vec::new();
            for item in it: items
                invariant
                    it.seq() == all,
                    value_contents(value) == JsonView::Array(contents_of(all)),
                    json::views_of(out@) == contents_of(all).take(it.index() as int),
            {
                let ghost k = it.index() as int;
                assert(decreases_to!(value_contents(value) => value_contents(item))) by {
                    assert(decreases_to!(value_contents(value) => value_contents(value)->Array_0));
                    assert(decreases_to!(contents_of(all) => contents_of(all)[k]));
                }
                let read = from_value(item);
                proof {
                    json::lemma_views_of_push(out@, read);
                    assert(contents_of(all).take(k + 1) =~= contents_of(all).take(k).push(
                        value_contents(item),
                    ));
                }
                out.push(read);
            }
            assert(contents_of(all).take(all.len() as int) =~= contents_of(all));
            Json::Array(out)
        },
        Layer::Object(entries) => {
            let ghost all = entries@;
            let mut out: Vec<(String, Json)> = Vec::new();
            for entry in it: entries
                invariant
                    it.seq() == all,
                    names_differ(all),
                    value_contents(value) == JsonView::Object(named_contents(all)),
                    json::members_of(out@) == named_contents(all.take(it.index() as int)),
            {
                let ghost k = it.index() as int;
                assert(decreases_to!(value_contents(value) => value_contents(entry.1))) by {
                    let members = named_contents(all);
                    lemma_named_contents(all, k);
                    assert(decreases_to!(value_contents(value) => value_contents(value)->Object_0));
                    assert(decreases_to!(members => members[all[k].0@]));
                }
                let (name, inner) = entry;
                let read = from_value(inner);
                proof {
                    json::lemma_members_of_push(out@, (name, read));
                    assert(all.take(k + 1).drop_last() =~= all.take(k));
                }
                out.push((name, read));
            }
            assert(all.take(all.len() as int) =~= all);
            Json::Object(out)
        },
    }
}

/// The `serde_json::Value` for a value of the library. An entry whose name comes
/// again later in its object does not count and is left out.
pub fn to_value(json: &Json) -> (r: serde_json::Value)
    ensures
        value_contents(r) == json@,
    decreases json,
{
    match json {
        Json::Null => make_value(Layer::Null),
        Json::Bool(flag) => make_value(Layer::Bool(*flag)),
        Json::Number(number) => make_value(Layer::Number(number.clone())),
        Json::Text(text) => make_value(Layer::Text(text.clone())),
        Json::Array(items) => {
            let mut out: Vec<serde_json::Value> = Vec::new();
            let mut i: usize = 0;
            while i < items.len()
                invariant
                    i <= items.len(),
                    json == Json::Array(*items),
                    contents_of(out@) == json::views_of(items@.take(i as int)),
                decreases items.len() - i,
            {
                assert(decreases_to!(json => items@[i as int])) by {
                    assert(decreases_to!(json => json->Array_0));
                    assert(decreases_to!(*items => items@));
                    assert(decreases_to!(items@ => items@[i as int]));
                }
                let value = to_value(&items[i]);
                let ghost before = out@;
                out.push(value);
                proof {
                    json::lemma_views_of_push(items@.take(i as int), items@[i as int]);
                    assert(items@.take(i + 1) =~= items@.take(i as int).push(items@[i as int]));
                    assert(contents_of(out@) =~= contents_of(before).push(value_contents(value)));
                }
                i += 1;
            }
            assert(items@.take(i as int) =~= items@);
            make_value(Layer::Array(out))
        },
        Json::Object(entries) => {
            let mut out: Vec<(String, serde_json::Value)> = Vec::new();
            let mut i: usize = entries.len();
            proof {
                assert(entries@.take(i as int) =~= entries@);
                assert(json::members_of(entries@).union_prefer_right(Map::empty())
                    =~= json::members_of(entries@));
            }
            while i > 0
                invariant
                    i <= entries.len(),
                    json == Json::Object(*entries),
                    names_differ(out@),
                    json::members_of(entries@) == json::members_of(
                        entries@.take(i as int),
                    ).union_prefer_right(named_contents(out@)),
                decreases i,
            {
                i -= 1;
                let ghost before = out@;
                let ghost entry = entries@[i as int];
                proof {
                    assert(entries@.take(i + 1) =~= entries@.take(i as int).push(entry));
                    json::lemma_members_of_push(entries@.take(i as int), entry);
                }
                if !holds_name(&out, &entries[i].0) {
                    assert(decreases_to!(json => entries@[i as int].1)) by {
                        assert(decreases_to!(json => json->Object_0));
                        assert(decreases_to!(*entries => entries@));
                        assert(decreases_to!(entries@ => entries@[i as int]));
                        assert(decreases_to!(entries@[i as int] => entries@[i as int].1));
                    }
                    let value = to_value(&entries[i].1);
                    out.push((entries[i].0.clone(), value));
                    proof {
                        assert(out@.drop_last() =~= before);
                        assert forall|a: int, b: int| 0 <= a < b < out@.len() implies #[trigger] out@[a].0@
                            != #[trigger] out@[b].0@ by {
                            assert(out@[a] == before[a]);
                            lemma_named_contents(before, a);
                            if b < before.len() {
                                assert(out@[b] == before[b]);
                            }
                        }
                    }
                }
                assert(json::members_of(entries@) =~= json::members_of(
                    entries@.take(i as int),
                ).union_prefer_right(named_contents(out@)));
            }
            assert(entries@.take(0) =~= Seq::empty());
            assert(json::members_of(entries@) =~= named_contents(out@));
            make_value(Layer::Object(out))
        },
    }
}

/// The value that a JSON text writes, where it writes one.
pub fn parse(text: &str) -> (r: Option<Json>)
    ensures
        json_parse(text@) == match r {
            Some(json) => Some(json@),
            None => None,
        },
{
    match parse_value(text) {
        Ok(value) => Some(from_value(value)),
        Err(_) => None,
    }
}

/// The JSON text of a value.
pub fn render(json: &Json) -> (r: String)
    ensures
        r@ == json_text(json@),
{
    value_text(&to_value(json))
}

} // verus!
