//! Finding the JSON payload in a model's reply.
use crate::json::{Json, JsonView};
use crate::text;
use crate::wire;
use vstd::prelude::*;
use vstd::string::StringExecFns;
use vstd::string::StrSliceExecFns;

verus! {

/// How many characters of a reply an error message shows.
pub const MAX_PREVIEW_CHARS: usize = 600;

/// Where a reader of JSON text stands: how many objects are open, whether it is
/// inside a string, and whether the next character of that string is escaped.
pub struct Scan {
    pub depth: int,
    pub in_string: bool,
    pub escaped: bool,
}

/// The reader behind one more character.
pub open spec fn scan_step(scan: Scan, c: char) -> Scan {
    if scan.in_string {
        Scan {
            depth: scan.depth,
            in_string: scan.escaped || c != '"',
            escaped: !scan.escaped && c == '\\',
        }
    } else if c == '"' {
        Scan { depth: scan.depth, in_string: true, escaped: false }
    } else if c == '{' {
        Scan { depth: scan.depth + 1, in_string: false, escaped: false }
    } else if c == '}' {
        Scan { depth: scan.depth - 1, in_string: false, escaped: false }
    } else {
        scan
    }
}

/// The reader that started at `start`, when it stands before `end`.
pub open spec fn scan_to(s: Seq<char>, start: int, end: int) -> Scan
    decreases end - start,
{
    if end <= start {
        Scan { depth: 0, in_string: false, escaped: false }
    } else {
        scan_step(scan_to(s, start, end - 1), s[end - 1])
    }
}

/// Whether what was opened from `start` on is closed again before `end`.
pub open spec fn closed_before(s: Seq<char>, start: int, end: int) -> bool {
    start < end <= s.len() && scan_to(s, start, end).depth == 0
}

/// The first position, `from` or later, before which everything opened from
/// `start` on is closed again; nothing where there is none.
pub open spec fn object_end(s: Seq<char>, start: int, from: int) -> Option<int>
    decreases s.len() + 1 - from,
{
    if from > s.len() {
        None
    } else if closed_before(s, start, from) {
        Some(from)
    } else {
        object_end(s, start, from + 1)
    }
}

/// The object that starts at `start`, where a brace opens one there that is closed
/// again.
pub open spec fn object_at(s: Seq<char>, start: int) -> Option<Seq<char>> {
    if 0 <= start < s.len() && s[start] == '{' {
        match object_end(s, start, start + 1) {
            Some(end) => Some(s.subrange(start, end)),
            None => None,
        }
    } else {
        None
    }
}

/// Where the first opening brace at `from` or later stands; the end of the text
/// where there is none.
pub open spec fn brace_from(s: Seq<char>, from: int) -> int
    decreases s.len() - from,
{
    if from >= s.len() {
        s.len() as int
    } else if s[from] == '{' {
        from
    } else {
        brace_from(s, from + 1)
    }
}

/// Whether an opening brace stands at `i`, and not inside a string. Strings are
/// those of a reader that starts at the first opening brace.
pub open spec fn is_open_brace(s: Seq<char>, i: int) -> bool {
    0 <= i < s.len() && s[i] == '{' && !scan_to(s, brace_from(s, 0), i).in_string
}

/// Whether the text at `from`, blanks aside, goes on with a string.
pub open spec fn string_follows(s: Seq<char>, from: int) -> bool
    decreases s.len() - from,
{
    if from >= s.len() {
        false
    } else if s[from] == ' ' || s[from] == '\n' || s[from] == '\r' || s[from] == '\t' {
        string_follows(s, from + 1)
    } else {
        s[from] == '"'
    }
}

/// Whether an object with members starts at `start` and is cut off before it ends.
pub open spec fn is_cut_off(s: Seq<char>, start: int) -> bool {
    object_at(s, start) is None && string_follows(s, start + 1)
}

/// The first object that starts at `from` or later. Nothing behind the start of an
/// object that was cut off is one.
pub open spec fn first_object(s: Seq<char>, from: int) -> Option<Seq<char>>
    decreases s.len() - from,
{
    if from >= s.len() {
        None
    } else if !is_open_brace(s, from) {
        first_object(s, from + 1)
    } else {
        match object_at(s, from) {
            Some(object) => Some(object),
            None => if is_cut_off(s, from) {
                None
            } else {
                first_object(s, from + 1)
            },
        }
    }
}

/// The first balanced JSON object in the text, braces inside strings aside. A
/// brace in prose that is never closed opens none; an object that is cut off is
/// not taken apart.
pub open spec fn embedded_object(s: Seq<char>) -> Option<Seq<char>> {
    first_object(s, 0)
}

/// What a Markdown code fence that the text starts with encloses.
pub open spec fn fenced(s: Seq<char>) -> Option<Seq<char>> {
    let opened = if text::starts_with(s, "```json"@) {
        Some(text::trimmed(s.skip("```json"@.len() as int)))
    } else if text::starts_with(s, "```"@) {
        Some(text::trimmed(s.skip("```"@.len() as int)))
    } else {
        None
    };
    match opened {
        Some(body) => if text::ends_with(body, "```"@) {
            Some(text::trimmed(body.take(body.len() - "```"@.len())))
        } else {
            Some(text::trimmed(body))
        },
        None => None,
    }
}

/// The part as a list of one, or of none.
pub open spec fn optional_part(part: Option<Seq<char>>) -> Seq<Seq<char>> {
    match part {
        Some(part) => seq![part],
        None => Seq::empty(),
    }
}

/// The texts in which a reply's payload is looked for, in this order: the reply
/// itself, what its code fence encloses, and the first object in it.
pub open spec fn candidates(content: Seq<char>) -> Seq<Seq<char>> {
    let trimmed = text::trimmed(content);
    seq![content] + optional_part(fenced(trimmed)) + optional_part(embedded_object(trimmed))
}

/// What the first of the texts that is JSON writes.
pub open spec fn first_parsed(texts: Seq<Seq<char>>) -> Option<JsonView>
    decreases texts.len(),
{
    if texts.len() == 0 {
        None
    } else {
        match wire::json_parse(texts[0]) {
            Some(value) => Some(value),
            None => first_parsed(texts.skip(1)),
        }
    }
}

/// What an error message shows of a reply.
pub open spec fn preview(content: Seq<char>) -> Seq<char> {
    if content.len() == 0 {
        "(empty response)"@
    } else if content.len() > MAX_PREVIEW_CHARS {
        content.take(MAX_PREVIEW_CHARS as int) + "… (truncated)"@
    } else {
        content
    }
}

/// The complaint about a reply without a payload.
pub open spec fn not_json_message(content: Seq<char>) -> Seq<char> {
    "AI provider response is not valid JSON for structured findings. Raw response was: "@ + preview(
        text::trimmed(content),
    )
}

proof fn lemma_scan_stays_open(s: Seq<char>, start: int, end: int)
    requires
        0 <= start < end <= s.len(),
        s[start] == '{',
        forall|e: int| start < e <= end ==> !#[trigger] closed_before(s, start, e),
    ensures
        1 <= scan_to(s, start, end).depth <= end - start,
    decreases end - start,
{
    if end == start + 1 {
        assert(scan_to(s, start, start).depth == 0);
    } else {
        lemma_scan_stays_open(s, start, end - 1);
        assert(!closed_before(s, start, end));
    }
}

/// Where the object ends whose brace stands at `start`.
fn find_object_end(chars: &Vec<char>, start: usize) -> (r: Option<usize>)
    requires
        start < chars.len(),
        chars@[start as int] == '{',
    ensures
        match r {
            Some(end) => object_end(chars@, start as int, start + 1) == Some(end as int)
                && start < end <= chars.len(),
            None => object_end(chars@, start as int, start + 1) is None,
        },
{
    let mut depth: usize = 0;
    let mut in_string = false;
    let mut escaped = false;
    let mut at: usize = start;
    while at < chars.len()
        invariant
            start <= at <= chars.len(),
            start < chars.len(),
            chars@[start as int] == '{',
            scan_to(chars@, start as int, at as int) == (Scan {
                depth: depth as int,
                in_string,
                escaped,
            }),
            !in_string ==> !escaped,
            forall|e: int| start < e <= at ==> !#[trigger] closed_before(chars@, start as int, e),
            object_end(chars@, start as int, start + 1) == object_end(
                chars@,
                start as int,
                at + 1,
            ) || at == start,
        decreases chars.len() - at,
    {
        let c = chars[at];
        proof {
            if at > start {
                lemma_scan_stays_open(chars@, start as int, at as int);
            }
        }
        if in_string {
            if escaped {
                escaped = false;
            } else if c == '\\' {
                escaped = true;
            } else if c == '"' {
                in_string = false;
            }
        } else if c == '"' {
            in_string = true;
        } else if c == '{' {
            depth += 1;
        } else if c == '}' {
            depth -= 1;
            if depth == 0 {
                assert(closed_before(chars@, start as int, at + 1));
                return Some(at + 1);
            }
        }
        at += 1;
    }
    None
}

/// Where the first opening brace stands.
fn find_first_brace(chars: &Vec<char>) -> (r: usize)
    ensures
        r == brace_from(chars@, 0),
        r <= chars.len(),
        forall|i: int| 0 <= i < r ==> chars@[i] != '{',
{
    let mut at: usize = 0;
    while at < chars.len()
        invariant
            at <= chars.len(),
            brace_from(chars@, 0) == brace_from(chars@, at as int),
            forall|i: int| 0 <= i < at ==> chars@[i] != '{',
        decreases chars.len() - at,
    {
        if chars[at] == '{' {
            return at;
        }
        at += 1;
    }
    at
}

/// Whether the text at `from`, blanks aside, goes on with a string.
fn goes_on_with_string(chars: &Vec<char>, from: usize) -> (r: bool)
    requires
        from <= chars.len(),
    ensures
        r == string_follows(chars@, from as int),
{
    let mut at: usize = from;
    while at < chars.len()
        invariant
            at <= chars.len(),
            string_follows(chars@, from as int) == string_follows(chars@, at as int),
        decreases chars.len() - at,
    {
        let c = chars[at];
        if c != ' ' && c != '\n' && c != '\r' && c != '\t' {
            return c == '"';
        }
        at += 1;
    }
    false
}

proof fn lemma_nothing_before_first_brace(s: Seq<char>, first: int, from: int)
    requires
        0 <= from <= first <= s.len(),
        forall|i: int| 0 <= i < first ==> s[i] != '{',
    ensures
        first_object(s, from) == first_object(s, first),
    decreases first - from,
{
    if from < first {
        lemma_nothing_before_first_brace(s, first, from + 1);
    }
}

/// The first balanced JSON object in the text, braces inside strings aside.
pub fn find_embedded_json_object(content: &str) -> (r: Option<&str>)
    ensures
        text::opt_str(r) == embedded_object(content@),
{
    let chars = text::chars_of(content);
    let first = find_first_brace(&chars);
    proof {
        lemma_nothing_before_first_brace(content@, first as int, 0);
    }
    let mut in_string = false;
    let mut escaped = false;
    let mut at: usize = first;
    while at < chars.len()
        invariant
            first <= at <= chars.len(),
            chars@ == content@,
            first == brace_from(content@, 0),
            scan_to(content@, first as int, at as int).in_string == in_string,
            scan_to(content@, first as int, at as int).escaped == escaped,
            !in_string ==> !escaped,
            embedded_object(content@) == first_object(content@, at as int),
        decreases chars.len() - at,
    {
        let c = chars[at];
        if in_string {
            if escaped {
                escaped = false;
            } else if c == '\\' {
                escaped = true;
            } else if c == '"' {
                in_string = false;
            }
        } else if c == '"' {
            in_string = true;
        } else if c == '{' {
            assert(is_open_brace(content@, at as int));
            match find_object_end(&chars, at) {
                Some(end) => {
                    return Some(content.substring_char(at, end));
                },
                None => {
                    if goes_on_with_string(&chars, at + 1) {
                        return None;
                    }
                },
            }
        }
        at += 1;
    }
    None
}

/// The texts in which a reply's payload is looked for, in order.
pub fn payload_candidates(content: &str) -> (r: Vec<String>)
    ensures
        text::texts(r@) == candidates(content@),
{
    let mut r: Vec<String> = Vec::new();
    r.push(content.to_owned());
    let trimmed = text::trim(content);
    let opened = match text::after_prefix(trimmed, "```json") {
        Some(body) => Some(text::trim(body)),
        None => match text::after_prefix(trimmed, "```") {
            Some(body) => Some(text::trim(body)),
            None => None,
        },
    };
    match opened {
        Some(body) => {
            let inner = match text::before_suffix(body, "```") {
                Some(inner) => inner,
                None => body,
            };
            r.push(text::trim(inner).to_owned());
        },
        None => {},
    }
    assert(text::texts(r@) =~= seq![content@] + optional_part(fenced(trimmed@)));
    match find_embedded_json_object(trimmed) {
        Some(object) => {
            r.push(object.to_owned());
        },
        None => {},
    }
    assert(text::texts(r@) =~= candidates(content@));
    r
}

/// What the first of the texts that is JSON writes.
pub fn parse_first(texts: &Vec<String>) -> (r: Option<Json>)
    ensures
        first_parsed(text::texts(texts@)) == match r {
            Some(value) => Some(value@),
            None => None,
        },
{
    let ghost all = text::texts(texts@);
    let mut i: usize = 0;
    assert(all.skip(0) =~= all);
    while i < texts.len()
        invariant
            i <= texts.len(),
            all == text::texts(texts@),
            first_parsed(all) == first_parsed(all.skip(i as int)),
        decreases texts.len() - i,
    {
        assert(all.skip(i as int)[0] == texts@[i as int]@);
        assert(all.skip(i as int).skip(1) =~= all.skip(i + 1));
        match wire::parse(&texts[i]) {
            Some(value) => {
                return Some(value);
            },
            None => {},
        }
        i += 1;
    }
    None
}

/// The JSON payload of a model's reply, or the complaint that it has none.
pub fn parse_structured_content(content: &str) -> (r: Result<Json, String>)
    ensures
        match r {
            Ok(value) => first_parsed(candidates(content@)) == Some(value@),
            Err(message) => first_parsed(candidates(content@)) is None && message@
                == not_json_message(content@),
        },
{
    match parse_first(&payload_candidates(content)) {
        Some(value) => Ok(value),
        None => {
            let mut message =
                "AI provider response is not valid JSON for structured findings. Raw response was: ".to_owned();
            message.append(&preview_for_error(text::trim(content)));
            Err(message)
        },
    }
}

/// What an error message shows of a reply.
pub fn preview_for_error(content: &str) -> (r: String)
    ensures
        r@ == preview(content@),
{
    if content.is_empty() {
        return "(empty response)".to_owned();
    }
    if content.unicode_len() > MAX_PREVIEW_CHARS {
        let mut r = content.substring_char(0, MAX_PREVIEW_CHARS).to_owned();
        r.append("… (truncated)");
        r
    } else {
        content.to_owned()
    }
}

proof fn lemma_object_end(s: Seq<char>, start: int, from: int)
    ensures
        match object_end(s, start, from) {
            Some(end) => from <= end && closed_before(s, start, end) && forall|e: int|
                from <= e < end ==> !#[trigger] closed_before(s, start, e),
            None => forall|e: int| from <= e ==> !#[trigger] closed_before(s, start, e),
        },
    decreases s.len() + 1 - from,
{
    if from <= s.len() && !closed_before(s, start, from) {
        lemma_object_end(s, start, from + 1);
    }
}

/// Whether the search for an object passes over what stands at `i`: no brace
/// outside strings, or one in prose that is never closed.
pub open spec fn is_passed_over(s: Seq<char>, i: int) -> bool {
    is_open_brace(s, i) ==> object_at(s, i) is None && !is_cut_off(s, i)
}

proof fn lemma_first_object(s: Seq<char>, from: int, start: int)
    requires
        0 <= from <= start,
        forall|i: int| from <= i < start ==> #[trigger] is_passed_over(s, i),
        !is_passed_over(s, start),
    ensures
        first_object(s, from) == object_at(s, start),
    decreases start - from,
{
    if from < start {
        assert(is_passed_over(s, from));
        lemma_first_object(s, from + 1, start);
    }
}

proof fn lemma_no_object(s: Seq<char>, from: int)
    requires
        0 <= from,
        forall|i: int| from <= i ==> #[trigger] is_passed_over(s, i),
    ensures
        first_object(s, from) is None,
    decreases s.len() - from,
{
    if from < s.len() {
        assert(is_passed_over(s, from));
        lemma_no_object(s, from + 1);
    }
}

/// What decides is the first brace outside strings that opens an object, balanced
/// or cut off: a balanced one is what is found, and behind one that is cut off
/// nothing is.
pub proof fn law_the_first_object_decides(s: Seq<char>, start: int)
    requires
        0 <= start,
        !is_passed_over(s, start),
        forall|i: int| 0 <= i < start ==> #[trigger] is_passed_over(s, i),
    ensures
        embedded_object(s) == object_at(s, start),
        is_cut_off(s, start) ==> embedded_object(s) is None,
{
    lemma_first_object(s, 0, start);
}

/// Where no brace outside strings opens an object, nothing is found.
pub proof fn law_without_objects_nothing_is_found(s: Seq<char>)
    requires
        forall|i: int| 0 <= i ==> #[trigger] is_passed_over(s, i),
    ensures
        embedded_object(s) is None,
{
    lemma_no_object(s, 0);
}

proof fn lemma_found_object_starts(s: Seq<char>, from: int)
    requires
        0 <= from,
        first_object(s, from) is Some,
    ensures
        exists|start: int|
            from <= start && is_open_brace(s, start) && #[trigger] object_at(s, start)
                == first_object(s, from),
    decreases s.len() - from,
{
    if is_open_brace(s, from) && object_at(s, from) is Some {
        assert(object_at(s, from) == first_object(s, from));
    } else {
        lemma_found_object_starts(s, from + 1);
        let start = choose|start: int|
            from + 1 <= start && is_open_brace(s, start) && #[trigger] object_at(s, start)
                == first_object(s, from + 1);
        assert(object_at(s, start) == first_object(s, from));
    }
}

/// What is found as an embedded object stands in the text, outside strings, starts
/// with an opening brace and ends with the brace that closes it.
pub proof fn law_embedded_object_is_delimited(s: Seq<char>)
    ensures
        match embedded_object(s) {
            Some(object) => (exists|start: int|
                is_open_brace(s, start) && text::is_at(s, object, start)) && object.len() >= 2
                && object[0] == '{' && object.last() == '}',
            None => true,
        },
{
    if let Some(object) = embedded_object(s) {
        lemma_found_object_starts(s, 0);
        let start = choose|start: int|
            0 <= start && is_open_brace(s, start) && #[trigger] object_at(s, start)
                == first_object(s, 0);
        lemma_object_end(s, start, start + 1);
        let end = object_end(s, start, start + 1)->Some_0;
        assert(text::is_at(s, s.subrange(start, end), start));
        assert(scan_to(s, start, start).depth == 0);
        assert(scan_to(s, start, start + 1).depth == 1);
        assert(end > start + 1);
        lemma_scan_stays_open(s, start, end - 1);
    }
}

proof fn lemma_scan_is_local(
    before: Seq<char>,
    object: Seq<char>,
    after: Seq<char>,
    start: int,
    end: int,
)
    requires
        0 <= start <= end <= object.len(),
    ensures
        scan_to(before + object + after, before.len() + start, before.len() + end) == scan_to(
            object,
            start,
            end,
        ),
    decreases end - start,
{
    if start < end {
        lemma_scan_is_local(before, object, after, start, end - 1);
        assert((before + object + after)[before.len() + end - 1] == object[end - 1]);
    }
}

/// Whatever stands around an object does not keep it from being found, as long
/// as no other object starts before it, balanced or cut off, and no string is
/// open where it starts.
pub proof fn law_prose_around_an_object_is_ignored(
    before: Seq<char>,
    object: Seq<char>,
    after: Seq<char>,
)
    requires
        forall|i: int|
            0 <= i < before.len() ==> #[trigger] is_passed_over(before + object + after, i),
        is_open_brace(before + object + after, before.len() as int),
        object_at(object, 0) == Some(object),
    ensures
        embedded_object(before + object + after) == Some(object),
{
    let whole = before + object + after;
    let n = before.len() as int;
    lemma_object_end(object, 0, 1);
    let end = object_end(object, 0, 1)->Some_0;
    assert(object.subrange(0, end).len() == object.len());
    assert(end == object.len());
    assert(whole[n] == object[0]);
    lemma_scan_is_local(before, object, after, 0, end);
    assert(closed_before(whole, n, n + end));
    assert forall|e: int| n + 1 <= e < n + end implies !#[trigger] closed_before(whole, n, e) by {
        lemma_scan_is_local(before, object, after, 0, e - n);
        assert(!closed_before(object, 0, e - n));
    }
    lemma_object_end(whole, n, n + 1);
    assert(object_end(whole, n, n + 1) == Some(n + end));
    assert(whole.subrange(n, n + end) =~= object);
    lemma_first_object(whole, 0, n);
}

/// A reply that is JSON as it stands is taken as it stands.
pub proof fn law_plain_json_is_taken_as_it_stands(content: Seq<char>)
    requires
        wire::json_parse(content) is Some,
    ensures
        first_parsed(candidates(content)) == wire::json_parse(content),
{
    assert(candidates(content)[0] == content);
}

proof fn lemma_fence_marks()
    ensures
        "```"@ == seq!['`', '`', '`'],
        "```json"@ == seq!['`', '`', '`', 'j', 's', 'o', 'n'],
{
    reveal_strlit("```");
    reveal_strlit("```json");
    assert("```"@ =~= seq!['`', '`', '`']);
    assert("```json"@ =~= seq!['`', '`', '`', 'j', 's', 'o', 'n']);
}

proof fn lemma_closed_fence(front: Seq<char>, body: Seq<char>, back: Seq<char>)
    requires
        forall|i: int| 0 <= i < front.len() ==> text::is_space(#[trigger] front[i]),
        forall|i: int| 0 <= i < back.len() ==> text::is_space(#[trigger] back[i]),
        body.len() > 0,
        !text::is_space(body[0]),
        !text::is_space(body.last()),
    ensures
        ({
            let opened = text::trimmed(front + body + back + seq!['`', '`', '`']);
            &&& text::ends_with(opened, seq!['`', '`', '`'])
            &&& text::trimmed(opened.take(opened.len() - 3)) == body
        }),
{
    let mark = seq!['`', '`', '`'];
    let none = Seq::<char>::empty();
    let inner = body + back + mark;
    assert(front + body + back + mark =~= front + inner + none);
    assert(inner[0] == body[0] && inner.last() == '`');
    text::law_trimming_takes_the_padding(front, inner, none);
    assert(inner.subrange(inner.len() - 3, inner.len() as int) =~= mark);
    assert(inner.take(inner.len() - 3) =~= none + body + back);
    text::law_trimming_takes_the_padding(none, body, back);
}

/// What a code fence encloses is taken without the white space around it, whether or
/// not the fence says that it is JSON.
pub proof fn law_fences_enclose_their_text(front: Seq<char>, body: Seq<char>, back: Seq<char>)
    requires
        forall|i: int| 0 <= i < front.len() ==> text::is_space(#[trigger] front[i]),
        forall|i: int| 0 <= i < back.len() ==> text::is_space(#[trigger] back[i]),
        body.len() > 0,
        !text::is_space(body[0]),
        !text::is_space(body.last()),
    ensures
        fenced("```json"@ + front + body + back + "```"@) == Some(body),
        front.len() > 0 || body[0] != 'j' ==> fenced("```"@ + front + body + back + "```"@) == Some(
            body,
        ),
{
    lemma_fence_marks();
    lemma_closed_fence(front, body, back);
    let named = "```json"@ + front + body + back + "```"@;
    assert(named.subrange(0, 7) =~= "```json"@);
    assert(named.skip(7) =~= front + body + back + "```"@);
    let plain = "```"@ + front + body + back + "```"@;
    assert(plain.subrange(0, 3) =~= "```"@);
    assert(plain.skip(3) =~= front + body + back + "```"@);
    if front.len() > 0 || body[0] != 'j' {
        assert(plain[3] == if front.len() > 0 {
            front[0]
        } else {
            body[0]
        });
        if text::starts_with(plain, "```json"@) {
            assert(plain.subrange(0, 7)[3] == 'j');
        }
    }
}

/// A fence that is not closed encloses the rest of the text, and a text that does not
/// start with a fence has none.
pub proof fn law_open_fences_enclose_the_rest(front: Seq<char>, body: Seq<char>, back: Seq<char>)
    requires
        forall|i: int| 0 <= i < front.len() ==> text::is_space(#[trigger] front[i]),
        forall|i: int| 0 <= i < back.len() ==> text::is_space(#[trigger] back[i]),
        body.len() > 0,
        !text::is_space(body[0]),
        !text::is_space(body.last()),
        body.last() != '`',
    ensures
        fenced("```json"@ + front + body + back) == Some(body),
        body[0] != '`' ==> fenced(body + back) is None,
{
    lemma_fence_marks();
    let none = Seq::<char>::empty();
    let named = "```json"@ + front + body + back;
    assert(named.subrange(0, 7) =~= "```json"@);
    assert(named.skip(7) =~= front + body + back);
    text::law_trimming_takes_the_padding(front, body, back);
    if text::ends_with(body, "```"@) {
        assert(body.subrange(body.len() - 3, body.len() as int)[2] == '`');
    }
    assert(none + body + none =~= body);
    text::law_trimming_takes_the_padding(none, body, none);
    let bare = body + back;
    if body[0] != '`' {
        if text::starts_with(bare, "```"@) {
            assert(bare.subrange(0, 3)[0] == '`');
        }
        if text::starts_with(bare, "```json"@) {
            assert(bare.subrange(0, 7)[0] == '`');
        }
    }
}

/// A reply that is not JSON as it stands is what its code fence encloses where that
/// is JSON; else what the first object in it writes; and there is no payload where
/// none of these is JSON.
pub proof fn law_payloads_are_looked_for_in_order(content: Seq<char>)
    requires
        wire::json_parse(content) is None,
    ensures
        ({
            let inner = text::trimmed(content);
            &&& (fenced(inner) matches Some(body) && wire::json_parse(body) is Some)
                ==> first_parsed(candidates(content)) == wire::json_parse(fenced(inner)->0)
            &&& (fenced(inner) matches Some(body) ==> wire::json_parse(body) is None) && (
            embedded_object(inner) matches Some(object) && wire::json_parse(object) is Some)
                ==> first_parsed(candidates(content)) == wire::json_parse(
                embedded_object(inner)->0,
            )
            &&& (fenced(inner) matches Some(body) ==> wire::json_parse(body) is None) && (
            embedded_object(inner) matches Some(object) ==> wire::json_parse(object) is None)
                ==> first_parsed(candidates(content)) is None
        }),
{
    let inner = text::trimmed(content);
    let all = candidates(content);
    reveal_with_fuel(first_parsed, 4);
    assert(all[0] == content);
    let rest = all.skip(1);
    assert(rest =~= optional_part(fenced(inner)) + optional_part(embedded_object(inner)));
    if let Some(body) = fenced(inner) {
        assert(rest[0] == body);
        assert(rest.skip(1) =~= optional_part(embedded_object(inner)));
        if let Some(object) = embedded_object(inner) {
            assert(rest.skip(1)[0] == object);
            assert(rest.skip(1).skip(1) =~= Seq::<Seq<char>>::empty());
        }
    } else {
        assert(rest =~= optional_part(embedded_object(inner)));
        if let Some(object) = embedded_object(inner) {
            assert(rest[0] == object);
            assert(rest.skip(1) =~= Seq::<Seq<char>>::empty());
        }
    }
}

/// A complaint shows a short reply whole and of a long one the first six hundred
/// characters, with a note that it was cut.
pub proof fn law_complaints_show_the_reply(content: Seq<char>)
    ensures
        0 < content.len() <= 600 ==> preview(content) == content,
        content.len() > 600 ==> preview(content).len() > 600 && preview(content).take(600)
            == content.take(600) && preview(content).skip(600) == "… (truncated)"@,
        content.len() == 0 ==> preview(content) == "(empty response)"@,
        text::ends_with(not_json_message(content), preview(text::trimmed(content))),
{
    if content.len() > 600 {
        reveal_strlit("… (truncated)");
        assert(preview(content).take(600) =~= content.take(600));
        assert(preview(content).skip(600) =~= "… (truncated)"@);
    }
    let message = not_json_message(content);
    let shown = preview(text::trimmed(content));
    assert(message.subrange(message.len() - shown.len(), message.len() as int) =~= shown);
}
proof fn lemma_scan_of_longer(s: Seq<char>, more: Seq<char>, end: int)
    requires
        0 <= end <= s.len(),
    ensures
        scan_to(s + more, 0, end) == scan_to(s, 0, end),
        !scan_to(s, 0, end).in_string ==> !scan_to(s, 0, end).escaped,
    decreases end,
{
    if end > 0 {
        lemma_scan_of_longer(s, more, end - 1);
        assert((s + more)[end - 1] == s[end - 1]);
    }
}

/// Outside strings a brace opens or closes an object and any other character but a
/// quote leaves the reader where it stands. Inside a string nothing counts but the
/// quote that ends it, and behind a backslash not even that.
pub proof fn law_strings_hide_their_braces(before: Seq<char>, c: char)
    ensures
        ({
            let n = before.len() as int;
            let scan = scan_to(before, 0, n);
            let next = scan_to(before.push(c), 0, n + 1);
            let escaped = scan_to(before + seq!['\\', c], 0, n + 2);
            &&& !scan.in_string && c == '{' ==> next.depth == scan.depth + 1 && !next.in_string
            &&& !scan.in_string && c == '}' ==> next.depth == scan.depth - 1 && !next.in_string
            &&& !scan.in_string && c == '"' ==> next.depth == scan.depth && next.in_string
            &&& !scan.in_string && c != '{' && c != '}' && c != '"' ==> next == scan
            &&& scan.in_string ==> next.depth == scan.depth
            &&& scan.in_string && !scan.escaped ==> next.in_string == (c != '"')
            &&& scan.in_string && !scan.escaped && c != '\\' && c != '"' ==> next == scan
            &&& scan.in_string && !scan.escaped ==> escaped == scan
        }),
{
    let n = before.len() as int;
    let one = before + seq![c];
    assert(before.push(c) =~= one);
    lemma_scan_of_longer(before, seq![c], n);
    assert(one[n] == c);
    let two = before + seq!['\\', c];
    lemma_scan_of_longer(before, seq!['\\', c], n);
    assert(two[n] == '\\' && two[n + 1] == c);
    assert(scan_to(two, 0, n + 1) == scan_step(scan_to(two, 0, n), two[n]));
    assert(scan_to(two, 0, n + 2) == scan_step(scan_to(two, 0, n + 1), two[n + 1]));
}

proof fn lemma_string_after_blanks(s: Seq<char>, from: int, to: int)
    requires
        0 <= from <= to <= s.len(),
        forall|i: int|
            from <= i < to ==> (#[trigger] s[i]) == ' ' || s[i] == '\n' || s[i] == '\r' || s[i]
                == '\t',
        to < s.len() ==> s[to] != ' ' && s[to] != '\n' && s[to] != '\r' && s[to] != '\t',
    ensures
        string_follows(s, from) <==> to < s.len() && s[to] == '"',
    decreases to - from,
{
    if from < to {
        lemma_string_after_blanks(s, from + 1, to);
    }
}

/// Where no object ends, a brace is that of an object cut off exactly where a quote
/// follows it, blanks aside.
pub proof fn law_cut_off_objects_start_with_a_name(
    before: Seq<char>,
    blanks: Seq<char>,
    c: char,
    after: Seq<char>,
)
    requires
        forall|i: int|
            0 <= i < blanks.len() ==> (#[trigger] blanks[i]) == ' ' || blanks[i] == '\n'
                || blanks[i] == '\r' || blanks[i] == '\t',
        c != ' ' && c != '\n' && c != '\r' && c != '\t',
        object_at(before + seq!['{'] + blanks + seq![c] + after, before.len() as int) is None,
    ensures
        is_cut_off(before + seq!['{'] + blanks + seq![c] + after, before.len() as int) <==> c
            == '"',
{
    let s = before + seq!['{'] + blanks + seq![c] + after;
    let from = before.len() + 1;
    let to = from + blanks.len();
    assert forall|i: int| from <= i < to implies (#[trigger] s[i]) == ' ' || s[i] == '\n' || s[i]
        == '\r' || s[i] == '\t' by {
        assert(s[i] == blanks[i - from]);
    }
    assert(s[to as int] == c);
    lemma_string_after_blanks(s, from as int, to as int);
}

/// A balanced object is never one that was cut off, and a brace at the end of the text
/// opens nothing.
pub proof fn law_whole_objects_are_not_cut_off(s: Seq<char>, start: int)
    requires
        0 <= start < s.len(),
    ensures
        object_at(s, start) is Some ==> !is_cut_off(s, start),
        start == s.len() - 1 ==> !is_cut_off(s, start),
{
    if start == s.len() - 1 {
        lemma_string_after_blanks(s, start + 1, start + 1);
    }
}

proof fn lemma_flat_scan(s: Seq<char>, end: int)
    requires
        1 <= end <= s.len(),
        s[0] == '{',
        forall|i: int| 1 <= i < end ==> (#[trigger] s[i]) != '{' && s[i] != '}' && s[i] != '"',
    ensures
        scan_to(s, 0, end) == (Scan { depth: 1, in_string: false, escaped: false }),
    decreases end,
{
    if end == 1 {
        assert(scan_to(s, 0, 0).depth == 0);
    } else {
        lemma_flat_scan(s, end - 1);
    }
}

/// An object without strings or objects in it ends at its first closing brace.
pub proof fn law_flat_objects_end_at_their_brace(inner: Seq<char>, after: Seq<char>)
    requires
        forall|i: int|
            0 <= i < inner.len() ==> (#[trigger] inner[i]) != '{' && inner[i] != '}' && inner[i]
                != '"',
    ensures
        object_at(seq!['{'] + inner + seq!['}'] + after, 0) == Some(
            seq!['{'] + inner + seq!['}'],
        ),
{
    let s = seq!['{'] + inner + seq!['}'] + after;
    let end = inner.len() + 2;
    assert forall|i: int| 1 <= i < end - 1 implies (#[trigger] s[i]) != '{' && s[i] != '}' && s[i]
        != '"' by {
        assert(s[i] == inner[i - 1]);
    }
    assert(s[end - 1] == '}');
    lemma_flat_scan(s, end - 1);
    assert(closed_before(s, 0, end as int));
    assert forall|e: int| 1 <= e < end implies !#[trigger] closed_before(s, 0, e) by {
        lemma_flat_scan(s, e);
    }
    lemma_object_end(s, 0, 1);
    assert(object_end(s, 0, 1) == Some(end as int));
    assert(s.subrange(0, end as int) =~= seq!['{'] + inner + seq!['}']);
}

} // verus!
