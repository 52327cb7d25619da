//! JSON values: the type that the rest of the library reads and builds, its
//! mathematical model, and the crossing to `serde_json`.
use crate::text;
use vstd::prelude::*;

verus! {

/// `serde_json`'s number, carried through unchanged.
#[verifier::external_type_specification]
#[verifier::external_body]
pub struct ExNumber(serde_json::Number);

/// `serde_json`'s value: the form in which JSON crosses the library's edge.
#[verifier::external_type_specification]
#[verifier::external_body]
pub struct ExValue(serde_json::Value);

/// `serde_json`'s parse error.
#[verifier::external_type_specification]
#[verifier::external_body]
pub struct ExError(serde_json::Error);

/// What a JSON value is: a tree whose objects are maps from names to values.
pub enum JsonView {
    Null,
    Bool(bool),
    Int(int),
    /// A number that is no integer of 64 bits.
    Float(serde_json::Number),
    Text(Seq<char>),
    Array(Seq<JsonView>),
    Object(Map<Seq<char>, JsonView>),
}

impl JsonView {
    /// The member called `key`, where the value is an object that has one.
    pub open spec fn get(self, key: Seq<char>) -> Option<JsonView> {
        match self {
            JsonView::Object(members) => if members.dom().contains(key) {
                Some(members[key])
            } else {
                None
            },
            _ => None,
        }
    }

    /// What the path element `0` selects: the first item of an array, or the
    /// member of an object that is called `0`.
    pub open spec fn first(self) -> Option<JsonView> {
        match self {
            JsonView::Array(items) => if items.len() > 0 {
                Some(items[0])
            } else {
                None
            },
            _ => self.get("0"@),
        }
    }

    pub open spec fn as_str(self) -> Option<Seq<char>> {
        match self {
            JsonView::Text(text) => Some(text),
            _ => None,
        }
    }

    pub open spec fn as_array(self) -> Option<Seq<JsonView>> {
        match self {
            JsonView::Array(items) => Some(items),
            _ => None,
        }
    }

    pub open spec fn as_u64(self) -> Option<u64> {
        match self {
            JsonView::Int(n) => if 0 <= n <= u64::MAX {
                Some(n as u64)
            } else {
                None
            },
            _ => None,
        }
    }

    pub open spec fn as_i64(self) -> Option<i64> {
        match self {
            JsonView::Int(n) => if i64::MIN <= n <= i64::MAX {
                Some(n as i64)
            } else {
                None
            },
            _ => None,
        }
    }

    /// The members of an object; none of any other value.
    pub open spec fn members(self) -> Map<Seq<char>, JsonView> {
        match self {
            JsonView::Object(members) => members,
            _ => Map::empty(),
        }
    }

    /// An object without members.
    pub open spec fn object() -> JsonView {
        JsonView::Object(Map::empty())
    }

    /// The object with its member `key` set to `value`.
    pub open spec fn with(self, key: Seq<char>, value: JsonView) -> JsonView {
        JsonView::Object(self.members().insert(key, value))
    }
}

/// The value below `value` by one more member name.
pub open spec fn get_in(value: Option<JsonView>, key: Seq<char>) -> Option<JsonView> {
    match value {
        Some(value) => value.get(key),
        None => None,
    }
}

/// The text that an optional value is.
pub open spec fn str_in(value: Option<JsonView>) -> Option<Seq<char>> {
    match value {
        Some(value) => value.as_str(),
        None => None,
    }
}

/// The text that an optional value is, or the empty text.
pub open spec fn str_or_empty(value: Option<JsonView>) -> Seq<char> {
    text::or_text(str_in(value), ""@)
}

/// The array that an optional value is.
pub open spec fn array_in(value: Option<JsonView>) -> Option<Seq<JsonView>> {
    match value {
        Some(value) => value.as_array(),
        None => None,
    }
}

/// The unsigned integer that an optional value is.
pub open spec fn u64_in(value: Option<JsonView>) -> Option<u64> {
    match value {
        Some(value) => value.as_u64(),
        None => None,
    }
}

/// The signed integer that an optional value is.
pub open spec fn i64_in(value: Option<JsonView>) -> Option<i64> {
    match value {
        Some(value) => value.as_i64(),
        None => None,
    }
}

/// A JSON value. Where an object lists a name more than once, the last entry
/// counts.
#[derive(Debug)]
pub enum Json {
    Null,
    Bool(bool),
    Number(serde_json::Number),
    Text(String),
    Array(Vec<Json>),
    Object(Vec<(String, Json)>),
}

/// The integer that a `serde_json::Number` holds, where it holds one of 64 bits.
pub uninterp spec fn number_integer(number: serde_json::Number) -> Option<int>;

/// `serde_json::Number::as_u64`: the integer, where there is one and it is in
/// the range of `u64`.
pub assume_specification[ serde_json::Number::as_u64 ](number: &serde_json::Number) -> (r: Option<
    u64,
>)
    ensures
        r == match number_integer(*number) {
            Some(n) => JsonView::Int(n).as_u64(),
            None => None,
        },
;

/// `serde_json::Number::as_i64`: the integer, where there is one and it is in
/// the range of `i64`.
pub assume_specification[ serde_json::Number::as_i64 ](number: &serde_json::Number) -> (r: Option<
    i64,
>)
    ensures
        r == match number_integer(*number) {
            Some(n) => JsonView::Int(n).as_i64(),
            None => None,
        },
;

/// What a number is.
pub open spec fn number_view(number: serde_json::Number) -> JsonView {
    match number_integer(number) {
        Some(n) => JsonView::Int(n),
        None => JsonView::Float(number),
    }
}

/// What a value is.
pub open spec fn view_of(json: Json) -> JsonView
    decreases json,
{
    match json {
        Json::Null => JsonView::Null,
        Json::Bool(flag) => JsonView::Bool(flag),
        Json::Number(number) => number_view(number),
        Json::Text(text) => JsonView::Text(text@),
        Json::Array(items) => JsonView::Array(views_of(items@)),
        Json::Object(entries) => JsonView::Object(members_of(entries@)),
    }
}

/// What the items of an array are.
pub open spec fn views_of(items: Seq<Json>) -> Seq<JsonView>
    decreases items,
{
    if items.len() == 0 {
        Seq::empty()
    } else {
        views_of(items.drop_last()).push(view_of(items.last()))
    }
}

/// What the members of an object are.
pub open spec fn members_of(entries: Seq<(String, Json)>) -> Map<Seq<char>, JsonView>
    decreases entries,
{
    if entries.len() == 0 {
        Map::empty()
    } else {
        members_of(entries.drop_last()).insert(entries.last().0@, view_of(entries.last().1))
    }
}

impl View for Json {
    type V = JsonView;

    open spec fn view(&self) -> JsonView {
        view_of(*self)
    }
}

/// A JSON value as it is written: the members of an object stand one behind the
/// other.
pub enum WrittenView {
    Null,
    Bool(bool),
    Int(int),
    /// A number that is no integer of 64 bits.
    Float(serde_json::Number),
    Text(Seq<char>),
    Array(Seq<WrittenView>),
    Object(Seq<(Seq<char>, WrittenView)>),
}

impl WrittenView {
    /// The members of an object; none of any other value.
    pub open spec fn entries(self) -> Seq<(Seq<char>, WrittenView)> {
        match self {
            WrittenView::Object(entries) => entries,
            _ => Seq::empty(),
        }
    }

    /// An object without members.
    pub open spec fn object() -> WrittenView {
        WrittenView::Object(Seq::empty())
    }

    /// The object with one more member behind those it has.
    pub open spec fn with(self, key: Seq<char>, value: WrittenView) -> WrittenView {
        WrittenView::Object(self.entries().push((key, value)))
    }

    /// The names of the members, in order.
    pub open spec fn names(self) -> Seq<Seq<char>> {
        Seq::new(self.entries().len(), |i: int| self.entries()[i].0)
    }

    /// What the value is, the order of its members aside.
    pub open spec fn plain(self) -> JsonView
        decreases self,
    {
        match self {
            WrittenView::Null => JsonView::Null,
            WrittenView::Bool(flag) => JsonView::Bool(flag),
            WrittenView::Int(n) => JsonView::Int(n),
            WrittenView::Float(number) => JsonView::Float(number),
            WrittenView::Text(text) => JsonView::Text(text),
            WrittenView::Array(items) => JsonView::Array(plain_items(items)),
            WrittenView::Object(entries) => JsonView::Object(plain_members(entries)),
        }
    }
}

/// What the items are, the order of members aside.
pub open spec fn plain_items(items: Seq<WrittenView>) -> Seq<JsonView>
    decreases items,
{
    if items.len() == 0 {
        Seq::empty()
    } else {
        plain_items(items.drop_last()).push(items.last().plain())
    }
}

/// What the members are, their order aside: of a name's entries the last counts.
pub open spec fn plain_members(entries: Seq<(Seq<char>, WrittenView)>) -> Map<Seq<char>, JsonView>
    decreases entries,
{
    if entries.len() == 0 {
        Map::empty()
    } else {
        plain_members(entries.drop_last()).insert(entries.last().0, entries.last().1.plain())
    }
}

/// How a value is written.
pub open spec fn written_of(json: Json) -> WrittenView
    decreases json,
{
    match json {
        Json::Null => WrittenView::Null,
        Json::Bool(flag) => WrittenView::Bool(flag),
        Json::Number(number) => match number_integer(number) {
            Some(n) => WrittenView::Int(n),
            None => WrittenView::Float(number),
        },
        Json::Text(text) => WrittenView::Text(text@),
        Json::Array(items) => WrittenView::Array(written_items(items@)),
        Json::Object(entries) => WrittenView::Object(written_entries(entries@)),
    }
}

/// How the items of an array are written.
pub open spec fn written_items(items: Seq<Json>) -> Seq<WrittenView>
    decreases items,
{
    if items.len() == 0 {
        Seq::empty()
    } else {
        written_items(items.drop_last()).push(written_of(items.last()))
    }
}

/// How the members of an object are written.
pub open spec fn written_entries(entries: Seq<(String, Json)>) -> Seq<(Seq<char>, WrittenView)>
    decreases entries,
{
    if entries.len() == 0 {
        Seq::empty()
    } else {
        written_entries(entries.drop_last()).push(
            (entries.last().0@, written_of(entries.last().1)),
        )
    }
}

/// How items are written with one more of them.
pub proof fn lemma_written_items_push(items: Seq<Json>, item: Json)
    ensures
        written_items(items.push(item)) == written_items(items).push(written_of(item)),
{
    assert(items.push(item).drop_last() =~= items);
}

/// How members are written with one more of them.
pub proof fn lemma_written_entries_push(entries: Seq<(String, Json)>, entry: (String, Json))
    ensures
        written_entries(entries.push(entry)) == written_entries(entries).push(
            (entry.0@, written_of(entry.1)),
        ),
{
    assert(entries.push(entry).drop_last() =~= entries);
}

/// Setting one more member is the same with and without the order of members.
pub broadcast proof fn lemma_plain_with(object: WrittenView, key: Seq<char>, value: WrittenView)
    ensures
        #[trigger] object.with(key, value).plain() == object.plain().with(key, value.plain()),
{
    let entries = object.entries();
    assert(entries.push((key, value)).drop_last() =~= entries);
    assert(plain_members(entries) == object.plain().members());
}

/// A value is what is written of it, the order of members aside.
pub proof fn law_values_are_what_is_written(json: Json)
    ensures
        json@ == json.written().plain(),
    decreases json,
{
    match json {
        Json::Array(items) => {
            assert(decreases_to!(json => json->Array_0));
            assert(decreases_to!(items => items@));
            lemma_items_are_what_is_written(items@);
        },
        Json::Object(entries) => {
            assert(decreases_to!(json => json->Object_0));
            assert(decreases_to!(entries => entries@));
            lemma_members_are_what_is_written(entries@);
        },
        _ => {},
    }
}

proof fn lemma_items_are_what_is_written(items: Seq<Json>)
    ensures
        views_of(items) == plain_items(written_items(items)),
    decreases items,
{
    if items.len() > 0 {
        lemma_items_are_what_is_written(items.drop_last());
        law_values_are_what_is_written(items.last());
        assert(written_items(items).drop_last() =~= written_items(items.drop_last()));
    }
}

proof fn lemma_members_are_what_is_written(entries: Seq<(String, Json)>)
    ensures
        members_of(entries) == plain_members(written_entries(entries)),
    decreases entries,
{
    if entries.len() > 0 {
        lemma_members_are_what_is_written(entries.drop_last());
        law_values_are_what_is_written(entries.last().1);
        assert(written_entries(entries).drop_last() =~= written_entries(entries.drop_last()));
    }
}

/// `<serde_json::Number as Clone>::clone`: a copy of the number.
pub assume_specification[ <serde_json::Number as Clone>::clone ](
    number: &serde_json::Number,
) -> (r: serde_json::Number)
    ensures
        r == *number,
;

/// `serde_json::Number::from` for `u64`: a number that holds the integer.
#[verifier::external_body]
fn number_from_u64(n: u64) -> (r: serde_json::Number)
    ensures
        number_integer(r) == Some(n as int),
{
    serde_json::Number::from(n)
}

/// The models of array items, one by one.
pub broadcast proof fn lemma_views_of(items: Seq<Json>)
    ensures
        #[trigger] views_of(items).len() == items.len(),
        forall|i: int|
            0 <= i < items.len() ==> #[trigger] views_of(items)[i] == view_of(items[i]),
    decreases items.len(),
{
    if items.len() > 0 {
        lemma_views_of(items.drop_last());
        assert forall|i: int| 0 <= i < items.len() implies #[trigger] views_of(items)[i] == view_of(
            items[i],
        ) by {
            if i < items.len() - 1 {
                assert(items.drop_last()[i] == items[i]);
            }
        }
    }
}

/// The models of array items with one more of them.
pub proof fn lemma_views_of_push(items: Seq<Json>, item: Json)
    ensures
        views_of(items.push(item)) == views_of(items).push(view_of(item)),
{
    assert(items.push(item).drop_last() =~= items);
}

/// Adds an item to the end of a list of values.
pub fn add_item(items: &mut Vec<Json>, item: Json)
    ensures
        views_of(final(items)@) == views_of(old(items)@).push(item@),
        written_items(final(items)@) == written_items(old(items)@).push(item.written()),
{
    proof {
        lemma_views_of_push(items@, item);
        lemma_written_items_push(items@, item);
    }
    items.push(item);
}

/// The models of object members with one more of them.
pub proof fn lemma_members_of_push(entries: Seq<(String, Json)>, entry: (String, Json))
    ensures
        members_of(entries.push(entry)) == members_of(entries).insert(entry.0@, view_of(entry.1)),
{
    assert(entries.push(entry).drop_last() =~= entries);
}

impl Clone for Json {
    fn clone(&self) -> (r: Self)
        ensures
            r@ == self@,
            r.written() == self.written(),
        decreases self,
    {
        match self {
            Json::Null => Json::Null,
            Json::Bool(flag) => Json::Bool(*flag),
            Json::Number(number) => Json::Number(number.clone()),
            Json::Text(text) => Json::Text(text.clone()),
            Json::Array(items) => {
                let mut copy: Vec<Json> = Vec::new();
                let mut i: usize = 0;
                while i < items.len()
                    invariant
                        i <= items.len(),
                        self == Json::Array(*items),
                        views_of(copy@) == views_of(items@.take(i as int)),
                        written_items(copy@) == written_items(items@.take(i as int)),
                    decreases items.len() - i,
                {
                    assert(decreases_to!(self => items@[i as int])) by {
                        assert(decreases_to!(self => self->Array_0));
                        assert(decreases_to!(*items => items@));
                        assert(decreases_to!(items@ => items@[i as int]));
                    }
                    let item = items[i].clone();
                    proof {
                        lemma_views_of_push(copy@, item);
                        lemma_views_of_push(items@.take(i as int), items@[i as int]);
                        lemma_written_items_push(copy@, item);
                        lemma_written_items_push(items@.take(i as int), items@[i as int]);
                        assert(items@.take(i + 1) =~= items@.take(i as int).push(
                            items@[i as int],
                        ));
                    }
                    copy.push(item);
                    i += 1;
                }
                assert(items@.take(i as int) =~= items@);
                Json::Array(copy)
            },
            Json::Object(entries) => {
                let mut copy: Vec<(String, Json)> = Vec::new();
                let mut i: usize = 0;
                while i < entries.len()
                    invariant
                        i <= entries.len(),
                        self == Json::Object(*entries),
                        members_of(copy@) == members_of(entries@.take(i as int)),
                        written_entries(copy@) == written_entries(entries@.take(i as int)),
                    decreases entries.len() - i,
                {
                    assert(decreases_to!(self => entries@[i as int].1)) by {
                        assert(decreases_to!(self => self->Object_0));
                        assert(decreases_to!(*entries => entries@));
                        assert(decreases_to!(entries@ => entries@[i as int]));
                        assert(decreases_to!(entries@[i as int] => entries@[i as int].1));
                    }
                    let entry = (entries[i].0.clone(), entries[i].1.clone());
                    proof {
                        lemma_members_of_push(copy@, entry);
                        lemma_members_of_push(entries@.take(i as int), entries@[i as int]);
                        lemma_written_entries_push(copy@, entry);
                        lemma_written_entries_push(entries@.take(i as int), entries@[i as int]);
                        assert(entries@.take(i + 1) =~= entries@.take(i as int).push(
                            entries@[i as int],
                        ));
                    }
                    copy.push(entry);
                    i += 1;
                }
                assert(entries@.take(i as int) =~= entries@);
                Json::Object(copy)
            },
        }
    }
}

impl Json {
    /// How the value is written.
    pub open spec fn written(&self) -> WrittenView {
        written_of(*self)
    }

    /// The text as a value.
    pub fn text(s: &str) -> (r: Json)
        ensures
            r@ == JsonView::Text(s@),
            r.written() == WrittenView::Text(s@),
    {
        Json::Text(s.to_owned())
    }

    /// The number as a value.
    pub fn uint(n: u64) -> (r: Json)
        ensures
            r@ == JsonView::Int(n as int),
            r.written() == WrittenView::Int(n as int),
    {
        Json::Number(number_from_u64(n))
    }

    /// An object without members.
    pub fn object() -> (r: Json)
        ensures
            r@ == JsonView::object(),
            r.written() == WrittenView::object(),
    {
        Json::Object(Vec::new())
    }

    /// The array of one value.
    pub fn single(item: Json) -> (r: Json)
        ensures
            r@ == JsonView::Array(seq![item@]),
    {
        let mut items: Vec<Json> = Vec::new();
        items.push(item);
        proof {
            lemma_views_of(items@);
            assert(views_of(items@) =~= seq![item@]);
        }
        Json::Array(items)
    }

    /// The array of copies of the items.
    pub fn array_of(items: &[Json]) -> (r: Json)
        ensures
            r@ == JsonView::Array(views_of(items@)),
    {
        let mut copy: Vec<Json> = Vec::new();
        let mut i: usize = 0;
        while i < items.len()
            invariant
                i <= items.len(),
                views_of(copy@) == views_of(items@.take(i as int)),
            decreases items.len() - i,
        {
            let item = items[i].clone();
            proof {
                lemma_views_of_push(copy@, item);
                lemma_views_of_push(items@.take(i as int), items@[i as int]);
                assert(items@.take(i + 1) =~= items@.take(i as int).push(items@[i as int]));
            }
            copy.push(item);
            i += 1;
        }
        assert(items@.take(i as int) =~= items@);
        Json::Array(copy)
    }

    /// The object with its member `key` set to `value`. Anything that is no
    /// object counts as one without members.
    pub fn with(self, key: &str, value: Json) -> (r: Json)
        ensures
            r@ == self@.with(key@, value@),
            r.written() == self.written().with(key@, value.written()),
    {
        let mut entries: Vec<(String, Json)> = match self {
            Json::Object(entries) => entries,
            _ => Vec::new(),
        };
        let entry = (key.to_owned(), value);
        proof {
            lemma_members_of_push(entries@, entry);
            lemma_written_entries_push(entries@, entry);
        }
        entries.push(entry);
        Json::Object(entries)
    }

    /// The member called `key`, where the value is an object that has one.
    pub fn get(&self, key: &str) -> (r: Option<&Json>)
        ensures
            opt_view(r) == self@.get(key@),
    {
        match self {
            Json::Object(entries) => {
                let mut i: usize = entries.len();
                assert(entries@.take(i as int) =~= entries@);
                while i > 0
                    invariant
                        i <= entries.len(),
                        self@ == JsonView::Object(members_of(entries@)),
                        JsonView::Object(members_of(entries@)).get(key@) == JsonView::Object(
                            members_of(entries@.take(i as int)),
                        ).get(key@),
                    decreases i,
                {
                    let ghost now = entries@.take(i as int);
                    assert(now.drop_last() =~= entries@.take(i - 1));
                    if text::same(&entries[i - 1].0, key) {
                        return Some(&entries[i - 1].1);
                    }
                    i -= 1;
                }
                None
            },
            _ => None,
        }
    }

    /// What the path element `0` selects.
    pub fn first(&self) -> (r: Option<&Json>)
        ensures
            opt_view(r) == self@.first(),
    {
        match self {
            Json::Array(items) => {
                proof {
                    lemma_views_of(items@);
                }
                if items.len() > 0 {
                    Some(&items[0])
                } else {
                    None
                }
            },
            _ => self.get("0"),
        }
    }

    pub fn as_str(&self) -> (r: Option<&str>)
        ensures
            text::opt_str(r) == self@.as_str(),
    {
        match self {
            Json::Text(text) => Some(text.as_str()),
            _ => None,
        }
    }

    pub fn as_array(&self) -> (r: Option<&Vec<Json>>)
        ensures
            opt_views(r) == self@.as_array(),
    {
        match self {
            Json::Array(items) => Some(items),
            _ => None,
        }
    }

    pub fn as_u64(&self) -> (r: Option<u64>)
        ensures
            r == self@.as_u64(),
    {
        match self {
            Json::Number(number) => number.as_u64(),
            _ => None,
        }
    }

    pub fn as_i64(&self) -> (r: Option<i64>)
        ensures
            r == self@.as_i64(),
    {
        match self {
            Json::Number(number) => number.as_i64(),
            _ => None,
        }
    }

    /// The text of the member called `key`.
    pub fn get_str(&self, key: &str) -> (r: Option<&str>)
        ensures
            text::opt_str(r) == str_in(self@.get(key@)),
    {
        match self.get(key) {
            Some(value) => value.as_str(),
            None => None,
        }
    }

    /// The items of the member called `key`.
    pub fn get_array(&self, key: &str) -> (r: Option<&Vec<Json>>)
        ensures
            opt_views(r) == array_in(self@.get(key@)),
    {
        match self.get(key) {
            Some(value) => value.as_array(),
            None => None,
        }
    }

    /// The unsigned integer of the member called `key`.
    pub fn get_u64(&self, key: &str) -> (r: Option<u64>)
        ensures
            r == u64_in(self@.get(key@)),
    {
        match self.get(key) {
            Some(value) => value.as_u64(),
            None => None,
        }
    }

    /// The member `inner` of the member `outer`.
    pub fn get2(&self, outer: &str, inner: &str) -> (r: Option<&Json>)
        ensures
            opt_view(r) == get_in(self@.get(outer@), inner@),
    {
        match self.get(outer) {
            Some(value) => value.get(inner),
            None => None,
        }
    }

    /// The text of the member `inner` of the member `outer`.
    pub fn get2_str(&self, outer: &str, inner: &str) -> (r: Option<&str>)
        ensures
            text::opt_str(r) == str_in(get_in(self@.get(outer@), inner@)),
    {
        match self.get2(outer, inner) {
            Some(value) => value.as_str(),
            None => None,
        }
    }

    /// The unsigned integer of the member `inner` of the member `outer`.
    pub fn get2_u64(&self, outer: &str, inner: &str) -> (r: Option<u64>)
        ensures
            r == u64_in(get_in(self@.get(outer@), inner@)),
    {
        match self.get2(outer, inner) {
            Some(value) => value.as_u64(),
            None => None,
        }
    }
}

/// The model of an optional value.
pub open spec fn opt_view(value: Option<&Json>) -> Option<JsonView> {
    match value {
        Some(value) => Some(value@),
        None => None,
    }
}

/// The models of the items of an optional array.
pub open spec fn opt_views(items: Option<&Vec<Json>>) -> Option<Seq<JsonView>> {
    match items {
        Some(items) => Some(views_of(items@)),
        None => None,
    }
}

/// A member is read as it was set, whatever was set before, and setting it leaves
/// the other members alone.
pub proof fn law_members_are_read_as_set(
    object: JsonView,
    key: Seq<char>,
    value: JsonView,
    other: Seq<char>,
)
    ensures
        object.with(key, value).get(key) == Some(value),
        other != key ==> object.with(key, value).get(other) == object.get(other),
        JsonView::object().get(key) is None,
        !(object is Object) ==> object.get(key) is None,
{
}

/// A value is read as what it is and as nothing else.
pub proof fn law_values_are_read_as_what_they_are(
    value: JsonView,
    words: Seq<char>,
    items: Seq<JsonView>,
    n: int,
)
    ensures
        JsonView::Text(words).as_str() == Some(words),
        JsonView::Array(items).as_array() == Some(items),
        items.len() > 0 ==> JsonView::Array(items).first() == Some(items[0]),
        items.len() == 0 ==> JsonView::Array(items).first() is None,
        !(value is Text) ==> value.as_str() is None,
        !(value is Array) ==> value.as_array() is None,
        !(value is Int) ==> value.as_u64() is None && value.as_i64() is None,
        0 <= n <= u64::MAX ==> JsonView::Int(n).as_u64() == Some(n as u64),
        n < 0 || n > u64::MAX ==> JsonView::Int(n).as_u64() is None,
        i64::MIN <= n <= i64::MAX ==> JsonView::Int(n).as_i64() == Some(n as i64),
        n < i64::MIN || n > i64::MAX ==> JsonView::Int(n).as_i64() is None,
{
}

/// An optional text is the text that is there; an empty one stands in for it only
/// where there is none.
pub proof fn law_optional_texts_are_read_as_they_stand(value: JsonView, words: Seq<char>)
    ensures
        str_in(Some(JsonView::Text(words))) == Some(words),
        str_or_empty(Some(JsonView::Text(words))) == words,
        str_in(None) is None,
        str_or_empty(None).len() == 0,
        !(value is Text) ==> str_in(Some(value)) is None && str_or_empty(Some(value)).len() == 0,
{
    reveal_strlit("");
}

/// What is written is read back as the same value: texts, numbers and flags as they
/// stand, rows item by item, and of an object the member that was set last.
pub proof fn law_written_values_are_read_back(
    words: Seq<char>,
    n: int,
    flag: bool,
    items: Seq<WrittenView>,
    item: WrittenView,
    object: WrittenView,
    key: Seq<char>,
    other: Seq<char>,
)
    ensures
        WrittenView::Text(words).plain() == JsonView::Text(words),
        WrittenView::Int(n).plain() == JsonView::Int(n),
        WrittenView::Bool(flag).plain() == JsonView::Bool(flag),
        WrittenView::Null.plain() == JsonView::Null,
        WrittenView::Array(Seq::empty()).plain() == JsonView::Array(Seq::empty()),
        WrittenView::Array(items).plain() matches JsonView::Array(read) ==> WrittenView::Array(
            items.push(item),
        ).plain() == JsonView::Array(read.push(item.plain())),
        WrittenView::Array(items).plain() is Array,
        object.with(key, item).plain().get(key) == Some(item.plain()),
        object is Object && other != key ==> object.with(key, item).plain().get(other)
            == object.plain().get(other),
{
    assert(items.push(item).drop_last() =~= items);
    lemma_plain_with(object, key, item);
}

} // verus!
