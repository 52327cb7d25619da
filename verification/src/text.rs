//! Text as sequences of characters: what trimming, searching, replacing,
//! joining and number notation mean, and functions that do them.
use vstd::prelude::*;
use vstd::string::StringExecFns;
use vstd::string::StrSliceExecFns;

verus! {

/// `String::push`: appends the character.
pub assume_specification[ String::push ](s: &mut String, c: char)
    ensures
        final(s)@ == old(s)@.push(c),
;

/// The text that `String::from_utf8_lossy` reads from bytes.
pub uninterp spec fn utf8_lossy(bytes: Seq<u8>) -> Seq<char>;

/// `String::from_utf8_lossy`: the text depends on the bytes alone, and where
/// they are valid UTF-8 it is the text that they encode.
#[verifier::external_body]
pub(crate) fn lossy_text(bytes: &[u8]) -> (r: String)
    ensures
        r@ == utf8_lossy(bytes@),
        vstd::utf8::valid_utf8(bytes@) ==> r@ == vstd::utf8::decode_utf8(bytes@),
{
    String::from_utf8_lossy(bytes).into_owned()
}

/// The characters with the Unicode property `White_Space`.
pub open spec fn is_space(c: char) -> bool {
    ||| '\u{9}' <= c <= '\u{d}'
    ||| c == ' '
    ||| c == '\u{85}'
    ||| c == '\u{a0}'
    ||| c == '\u{1680}'
    ||| '\u{2000}' <= c <= '\u{200a}'
    ||| c == '\u{2028}'
    ||| c == '\u{2029}'
    ||| c == '\u{202f}'
    ||| c == '\u{205f}'
    ||| c == '\u{3000}'
}

/// The text without the white space that it starts with.
pub open spec fn trim_front(s: Seq<char>) -> Seq<char>
    decreases s.len(),
{
    if s.len() > 0 && is_space(s[0]) {
        trim_front(s.skip(1))
    } else {
        s
    }
}

/// The text without the white space that it ends with.
pub open spec fn trim_back(s: Seq<char>) -> Seq<char>
    decreases s.len(),
{
    if s.len() > 0 && is_space(s.last()) {
        trim_back(s.drop_last())
    } else {
        s
    }
}

/// The text without the white space around it.
pub open spec fn trimmed(s: Seq<char>) -> Seq<char> {
    trim_back(trim_front(s))
}

/// Whether the text is empty or white space alone.
pub open spec fn is_blank(s: Seq<char>) -> bool {
    trimmed(s).len() == 0
}

/// The lower-case letter of an ASCII capital; any other character itself.
pub open spec fn lower_char(c: char) -> char {
    if 'A' <= c <= 'Z' {
        (c as u8 + 32) as char
    } else {
        c
    }
}

/// The text with its ASCII capitals in lower case.
pub open spec fn lowered(s: Seq<char>) -> Seq<char> {
    Seq::new(s.len(), |i: int| lower_char(s[i]))
}

/// Whether `part` stands in `s` at position `i`.
pub open spec fn is_at(s: Seq<char>, part: Seq<char>, i: int) -> bool {
    0 <= i && i + part.len() <= s.len() && s.subrange(i, i + part.len()) == part
}

/// Whether `part` stands in `s` somewhere.
pub open spec fn occurs(s: Seq<char>, part: Seq<char>) -> bool {
    exists|i: int| is_at(s, part, i)
}

/// Whether the text starts with `part`.
pub open spec fn starts_with(s: Seq<char>, part: Seq<char>) -> bool {
    is_at(s, part, 0)
}

/// Whether the text ends with `part`.
pub open spec fn ends_with(s: Seq<char>, part: Seq<char>) -> bool {
    is_at(s, part, s.len() - part.len())
}

/// The text with every occurrence of `from`, taken from the left and not
/// overlapping, exchanged for `to`.
pub open spec fn replaced(s: Seq<char>, from: Seq<char>, to: Seq<char>) -> Seq<char>
    decreases s.len(),
{
    if from.len() == 0 || s.len() == 0 {
        s
    } else if starts_with(s, from) {
        to + replaced(s.skip(from.len() as int), from, to)
    } else {
        seq![s[0]] + replaced(s.skip(1), from, to)
    }
}

/// The parts one after the other, with `sep` between them.
pub open spec fn joined(parts: Seq<Seq<char>>, sep: Seq<char>) -> Seq<char>
    decreases parts.len(),
{
    if parts.len() == 0 {
        Seq::empty()
    } else if parts.len() == 1 {
        parts[0]
    } else {
        joined(parts.drop_last(), sep) + sep + parts.last()
    }
}

/// The texts that a sequence of strings holds.
pub open spec fn texts(strings: Seq<String>) -> Seq<Seq<char>> {
    Seq::new(strings.len(), |i: int| strings[i]@)
}

/// The text that an optional string holds.
pub open spec fn opt_text(text: Option<String>) -> Option<Seq<char>> {
    match text {
        Some(text) => Some(text@),
        None => None,
    }
}

/// The text that an optional slice holds.
pub open spec fn opt_str(text: Option<&str>) -> Option<Seq<char>> {
    match text {
        Some(text) => Some(text@),
        None => None,
    }
}

/// The text, unless it is absent or blank.
pub open spec fn unless_blank(s: Option<Seq<char>>) -> Option<Seq<char>> {
    match s {
        Some(s) => if is_blank(s) {
            None
        } else {
            Some(s)
        },
        None => None,
    }
}

/// The text, or another one where it is absent.
pub open spec fn or_text(s: Option<Seq<char>>, other: Seq<char>) -> Seq<char> {
    match s {
        Some(s) => s,
        None => other,
    }
}

/// The first of two texts that is there.
pub open spec fn first_text(first: Option<Seq<char>>, second: Option<Seq<char>>) -> Option<
    Seq<char>,
> {
    if first is Some {
        first
    } else {
        second
    }
}

/// The digit of a number below ten.
pub open spec fn digit(n: nat) -> char {
    (48 + n) as char
}

/// The number in decimal notation.
pub open spec fn decimal(n: nat) -> Seq<char>
    decreases n,
{
    if n < 10 {
        seq![digit(n)]
    } else {
        decimal(n / 10).push(digit(n % 10))
    }
}

/// The integer in decimal notation, with a sign where it is negative.
pub open spec fn decimal_int(n: int) -> Seq<char> {
    if n < 0 {
        seq!['-'] + decimal((-n) as nat)
    } else {
        decimal(n as nat)
    }
}

pub open spec fn is_digit(c: char) -> bool {
    '0' <= c <= '9'
}

/// The number that a row of decimal digits writes.
pub open spec fn digits_value(s: Seq<char>) -> nat
    decreases s.len(),
{
    if s.len() == 0 {
        0
    } else {
        10 * digits_value(s.drop_last()) + (s.last() as nat - 48) as nat
    }
}

/// The text without one leading plus sign.
pub open spec fn unsigned_part(s: Seq<char>) -> Seq<char> {
    if s.len() > 0 && s[0] == '+' {
        s.skip(1)
    } else {
        s
    }
}

/// The number that a text writes: digits, with at most one plus sign before them.
pub open spec fn number_in(s: Seq<char>) -> Option<nat> {
    let digits = unsigned_part(s);
    if digits.len() > 0 && forall|i: int| 0 <= i < digits.len() ==> is_digit(#[trigger] digits[i]) {
        Some(digits_value(digits))
    } else {
        None
    }
}

/// The characters of a text.
pub fn chars_of(s: &str) -> (chars: Vec<char>)
    ensures
        chars@ == s@,
{
    let mut chars: Vec<char> = Vec::new();
    for c in it: s.chars()
        invariant
            chars@ == s@.take(it.index() as int),
            it.seq() == s@,
    {
        chars.push(c);
        assert(s@.take(it.index() + 1) =~= s@.take(it.index() as int).push(c));
    }
    assert(s@.take(s@.len() as int) =~= s@);
    chars
}

/// Whether two texts are the same.
pub fn same(a: &str, b: &str) -> (r: bool)
    ensures
        r == (a@ == b@),
{
    let left = chars_of(a);
    let right = chars_of(b);
    if left.len() != right.len() {
        return false;
    }
    let mut i: usize = 0;
    while i < left.len()
        invariant
            i <= left.len(),
            left.len() == right.len(),
            left@ == a@,
            right@ == b@,
            forall|j: int| 0 <= j < i ==> left@[j] == right@[j],
        decreases left.len() - i,
    {
        if left[i] != right[i] {
            return false;
        }
        i += 1;
    }
    assert(a@ =~= b@);
    true
}

fn space(c: char) -> (r: bool)
    ensures
        r == is_space(c),
{
    ('\u{9}' <= c && c <= '\u{d}') || c == ' ' || c == '\u{85}' || c == '\u{a0}' || c == '\u{1680}'
        || ('\u{2000}' <= c && c <= '\u{200a}') || c == '\u{2028}' || c == '\u{2029}' || c
        == '\u{202f}' || c == '\u{205f}' || c == '\u{3000}'
}

/// The text without the white space around it.
pub fn trim(s: &str) -> (r: &str)
    ensures
        r@ == trimmed(s@),
{
    let chars = chars_of(s);
    let mut start: usize = 0;
    assert(s@.skip(0) =~= s@);
    while start < chars.len() && space(chars[start])
        invariant
            start <= chars.len(),
            chars@ == s@,
            trim_front(s@) == trim_front(s@.skip(start as int)),
        decreases chars.len() - start,
    {
        assert(s@.skip(start as int).skip(1) =~= s@.skip(start + 1));
        start += 1;
    }
    let ghost front = s@.skip(start as int);
    assert(trim_front(s@) == front);
    let mut end: usize = chars.len();
    assert(front =~= s@.subrange(start as int, end as int));
    while end > start && space(chars[end - 1])
        invariant
            start <= end <= chars.len(),
            chars@ == s@,
            trim_back(front) == trim_back(s@.subrange(start as int, end as int)),
        decreases end,
    {
        assert(s@.subrange(start as int, end as int).drop_last() =~= s@.subrange(
            start as int,
            end - 1,
        ));
        assert(s@.subrange(start as int, end as int).last() == chars@[end - 1]);
        end -= 1;
    }
    s.substring_char(start, end)
}

/// Whether the text is empty or white space alone.
pub fn blank(s: &str) -> (r: bool)
    ensures
        r == is_blank(s@),
{
    trim(s).is_empty()
}

/// The text, unless it is absent or blank.
pub fn spare_blank<'a>(s: Option<&'a str>) -> (r: Option<&'a str>)
    ensures
        opt_str(r) == unless_blank(opt_str(s)),
{
    match s {
        Some(s) => if blank(s) {
            None
        } else {
            Some(s)
        },
        None => None,
    }
}

/// The text, or another one where it is absent.
pub fn or_other<'a>(s: Option<&'a str>, other: &'a str) -> (r: &'a str)
    ensures
        r@ == or_text(opt_str(s), other@),
{
    match s {
        Some(s) => s,
        None => other,
    }
}

/// A copy of the text, where it is there.
pub fn owned(s: Option<&str>) -> (r: Option<String>)
    ensures
        opt_text(r) == opt_str(s),
{
    match s {
        Some(s) => Some(s.to_owned()),
        None => None,
    }
}

/// The text with its ASCII capitals in lower case.
pub fn lower(s: &str) -> (r: String)
    ensures
        r@ == lowered(s@),
{
    let chars = chars_of(s);
    let mut r = String::new();
    let mut i: usize = 0;
    while i < chars.len()
        invariant
            i <= chars.len(),
            chars@ == s@,
            r@ == lowered(s@).take(i as int),
        decreases chars.len() - i,
    {
        let c = chars[i];
        if 'A' <= c && c <= 'Z' {
            r.push((c as u8 + 32) as char);
        } else {
            r.push(c);
        }
        assert(lowered(s@).take(i + 1) =~= lowered(s@).take(i as int).push(lower_char(c)));
        i += 1;
    }
    assert(lowered(s@).take(i as int) =~= lowered(s@));
    r
}

/// Whether two texts differ at most in the case of ASCII letters.
pub fn same_ignoring_case(a: &str, b: &str) -> (r: bool)
    ensures
        r == (lowered(a@) == lowered(b@)),
{
    let left = lower(a);
    let right = lower(b);
    same(&left, &right)
}

/// Whether `part` stands among the characters at position `i`.
pub fn found_at(chars: &Vec<char>, part: &Vec<char>, i: usize) -> (r: bool)
    ensures
        r == is_at(chars@, part@, i as int),
{
    if i > chars.len() || part.len() > chars.len() - i {
        return false;
    }
    let mut k: usize = 0;
    while k < part.len()
        invariant
            k <= part.len(),
            i + part.len() <= chars.len(),
            forall|j: int| 0 <= j < k ==> chars@[i + j] == part@[j],
        decreases part.len() - k,
    {
        if chars[i + k] != part[k] {
            assert(chars@.subrange(i as int, i + part.len())[k as int] != part@[k as int]);
            return false;
        }
        k += 1;
    }
    assert(chars@.subrange(i as int, i + part.len()) =~= part@);
    true
}

/// Whether the character is a decimal digit.
pub fn reads_as_digit(c: char) -> (r: bool)
    ensures
        r == is_digit(c),
{
    '0' <= c && c <= '9'
}

/// Whether `part` stands in `s` somewhere.
pub fn contains(s: &str, part: &str) -> (r: bool)
    ensures
        r == occurs(s@, part@),
{
    let chars = chars_of(s);
    let wanted = chars_of(part);
    let mut i: usize = 0;
    while i < chars.len()
        invariant
            i <= chars.len(),
            chars@ == s@,
            wanted@ == part@,
            forall|j: int| 0 <= j < i ==> !is_at(s@, part@, j),
        decreases chars.len() - i,
    {
        if found_at(&chars, &wanted, i) {
            return true;
        }
        i += 1;
    }
    let r = found_at(&chars, &wanted, i);
    assert(r == occurs(s@, part@)) by {
        assert forall|j: int| is_at(s@, part@, j) implies j <= i by {}
    }
    r
}

/// Whether the text starts with `part`.
pub fn has_prefix(s: &str, part: &str) -> (r: bool)
    ensures
        r == starts_with(s@, part@),
{
    found_at(&chars_of(s), &chars_of(part), 0)
}

/// Whether the text ends with `part`.
pub fn has_suffix(s: &str, part: &str) -> (r: bool)
    ensures
        r == ends_with(s@, part@),
{
    let chars = chars_of(s);
    let wanted = chars_of(part);
    wanted.len() <= chars.len() && found_at(&chars, &wanted, chars.len() - wanted.len())
}

/// The text behind `part`, where the text starts with it.
pub fn after_prefix<'a>(s: &'a str, part: &str) -> (r: Option<&'a str>)
    ensures
        opt_str(r) == if starts_with(s@, part@) {
            Some(s@.skip(part@.len() as int))
        } else {
            None
        },
{
    if has_prefix(s, part) {
        Some(s.substring_char(part.unicode_len(), s.unicode_len()))
    } else {
        None
    }
}

/// The text before `part`, where the text ends with it.
pub fn before_suffix<'a>(s: &'a str, part: &str) -> (r: Option<&'a str>)
    ensures
        opt_str(r) == if ends_with(s@, part@) {
            Some(s@.take(s@.len() - part@.len()))
        } else {
            None
        },
{
    if has_suffix(s, part) {
        Some(s.substring_char(0, s.unicode_len() - part.unicode_len()))
    } else {
        None
    }
}

/// The text with every occurrence of `from` exchanged for `to`.
pub fn replace(s: &str, from: &str, to: &str) -> (r: String)
    requires
        from@.len() > 0,
    ensures
        r@ == replaced(s@, from@, to@),
{
    let chars = chars_of(s);
    let wanted = chars_of(from);
    let mut r = String::new();
    let mut i: usize = 0;
    assert(s@.skip(0) =~= s@);
    assert(r@ + replaced(s@, from@, to@) =~= replaced(s@, from@, to@));
    while i < chars.len()
        invariant
            i <= chars.len(),
            chars@ == s@,
            wanted@ == from@,
            wanted@.len() > 0,
            replaced(s@, from@, to@) == r@ + replaced(s@.skip(i as int), from@, to@),
        decreases chars.len() - i,
    {
        let ghost rest = s@.skip(i as int);
        let ghost done = r@;
        if found_at(&chars, &wanted, i) {
            assert(rest.subrange(0, from@.len() as int) =~= s@.subrange(
                i as int,
                i + from@.len(),
            ));
            r.append(to);
            i += wanted.len();
            assert(rest.skip(from@.len() as int) =~= s@.skip(i as int));
            assert(done + (to@ + replaced(s@.skip(i as int), from@, to@)) =~= r@ + replaced(
                s@.skip(i as int),
                from@,
                to@,
            ));
        } else {
            assert(!starts_with(rest, from@)) by {
                if starts_with(rest, from@) {
                    assert(rest.subrange(0, from@.len() as int) =~= s@.subrange(
                        i as int,
                        i + from@.len(),
                    ));
                }
            }
            r.push(chars[i]);
            i += 1;
            assert(rest.skip(1) =~= s@.skip(i as int));
            assert(done + (seq![rest[0]] + replaced(s@.skip(i as int), from@, to@)) =~= r@
                + replaced(s@.skip(i as int), from@, to@));
        }
    }
    assert(s@.skip(i as int).len() == 0);
    assert(r@ + s@.skip(i as int) =~= r@);
    r
}

/// Copies of the texts.
pub fn copies(strings: &Vec<String>) -> (r: Vec<String>)
    ensures
        texts(r@) == texts(strings@),
{
    let mut r: Vec<String> = Vec::new();
    let mut i: usize = 0;
    while i < strings.len()
        invariant
            i <= strings.len(),
            r.len() == i,
            forall|k: int| 0 <= k < i ==> #[trigger] r@[k]@ == strings@[k]@,
        decreases strings.len() - i,
    {
        r.push(strings[i].clone());
        i += 1;
    }
    assert(texts(r@) =~= texts(strings@));
    r
}

/// The parts one after the other, with `sep` between them.
pub fn join(parts: &Vec<String>, sep: &str) -> (r: String)
    ensures
        r@ == joined(texts(parts@), sep@),
{
    let mut r = String::new();
    let mut i: usize = 0;
    while i < parts.len()
        invariant
            i <= parts.len(),
            r@ == joined(texts(parts@).take(i as int), sep@),
        decreases parts.len() - i,
    {
        let ghost before = texts(parts@).take(i as int);
        let ghost now = texts(parts@).take(i + 1);
        assert(now.drop_last() =~= before);
        if i > 0 {
            r.append(sep);
            r.append(&parts[i]);
        } else {
            r = parts[0].clone();
        }
        i += 1;
    }
    assert(texts(parts@).take(i as int) =~= texts(parts@));
    r
}

/// The number in decimal notation.
pub fn decimal_text(n: u64) -> (r: String)
    ensures
        r@ == decimal(n as nat),
    decreases n,
{
    let last = ((n % 10) as u8 + 48) as char;
    if n < 10 {
        let mut r = String::new();
        r.push(last);
        assert(r@ =~= seq![digit(n as nat)]);
        r
    } else {
        let mut r = decimal_text(n / 10);
        r.push(last);
        r
    }
}

/// The integer in decimal notation, with a sign where it is negative.
pub fn decimal_int_text(n: i64) -> (r: String)
    ensures
        r@ == decimal_int(n as int),
{
    if n < 0 {
        let magnitude: u64 = (0 - n as i128) as u64;
        let mut r = "-".to_owned();
        r.append(&decimal_text(magnitude));
        proof {
            reveal_strlit("-");
        }
        assert("-"@ =~= seq!['-']);
        r
    } else {
        decimal_text(n as u64)
    }
}

/// The number that the text writes, where it is one and fits.
pub fn parse_u64(s: &str) -> (r: Option<u64>)
    ensures
        r == match number_in(s@) {
            Some(n) => if n <= u64::MAX {
                Some(n as u64)
            } else {
                None
            },
            None => None,
        },
{
    let chars = chars_of(s);
    let start: usize = if chars.len() > 0 && chars[0] == '+' {
        1
    } else {
        0
    };
    let ghost digits = unsigned_part(s@);
    assert(digits =~= s@.skip(start as int));
    if start == chars.len() {
        return None;
    }
    let mut value: u64 = 0;
    let mut overflow = false;
    let mut i: usize = start;
    assert(digits.take(0) =~= Seq::<char>::empty());
    while i < chars.len()
        invariant
            start <= i <= chars.len(),
            chars@ == s@,
            digits == s@.skip(start as int),
            digits == unsigned_part(s@),
            forall|j: int| 0 <= j < i - start ==> is_digit(#[trigger] digits[j]),
            overflow ==> digits_value(digits.take(i - start)) > u64::MAX,
            !overflow ==> digits_value(digits.take(i - start)) == value,
        decreases chars.len() - i,
    {
        let c = chars[i];
        assert(digits[i - start] == c);
        if c < '0' || c > '9' {
            assert(!is_digit(digits[i - start]));
            return None;
        }
        let d = (c as u8 - 48) as u64;
        assert(digits.take(i + 1 - start).drop_last() =~= digits.take(i - start));
        assert(digits_value(digits.take(i + 1 - start)) == 10 * digits_value(
            digits.take(i - start),
        ) + d);
        if overflow || value > (u64::MAX - d) / 10 {
            overflow = true;
        } else {
            value = value * 10 + d;
        }
        i += 1;
    }
    assert(digits.take(i - start) =~= digits);
    if overflow {
        None
    } else {
        Some(value)
    }
}

/// The number that the text writes, where it is one and fits.
pub fn parse_usize(s: &str) -> (r: Option<usize>)
    ensures
        r == match number_in(s@) {
            Some(n) => if n <= usize::MAX {
                Some(n as usize)
            } else {
                None
            },
            None => None,
        },
{
    match parse_u64(s) {
        Some(n) => if n <= usize::MAX as u64 {
            Some(n as usize)
        } else {
            None
        },
        None => None,
    }
}

/// The first position at or after `from` that holds `c`; the length of the text
/// where none does.
pub open spec fn find_from(s: Seq<char>, c: char, from: int) -> int
    decreases s.len() - from,
{
    if 0 <= from < s.len() && s[from] != c {
        find_from(s, c, from + 1)
    } else {
        from
    }
}

/// `find_from` finds the first position, where there is one.
pub proof fn lemma_find_from(s: Seq<char>, c: char, from: int)
    requires
        0 <= from <= s.len(),
    ensures
        from <= find_from(s, c, from) <= s.len(),
        find_from(s, c, from) < s.len() ==> s[find_from(s, c, from)] == c,
        forall|i: int| from <= i < find_from(s, c, from) ==> #[trigger] s[i] != c,
    decreases s.len() - from,
{
    if from < s.len() && s[from] != c {
        lemma_find_from(s, c, from + 1);
    }
}

/// The line without the carriage return that it ends with.
pub open spec fn without_return(line: Seq<char>) -> Seq<char> {
    if line.len() > 0 && line.last() == '\r' {
        line.drop_last()
    } else {
        line
    }
}

/// The lines of the text from position `from` on: each ends with a line feed,
/// which may follow a carriage return, or with the text.
pub open spec fn lines_from(s: Seq<char>, from: int) -> Seq<Seq<char>>
    decreases s.len() - from,
{
    let end = find_from(s, '\n', from);
    if from < 0 || from >= s.len() || end < from {
        Seq::empty()
    } else if end < s.len() {
        seq![without_return(s.subrange(from, end))] + lines_from(s, end + 1)
    } else {
        seq![s.subrange(from, end)]
    }
}

/// The last position behind white space in the text; zero where there is none.
pub open spec fn word_start(s: Seq<char>) -> int
    decreases s.len(),
{
    if s.len() == 0 || is_space(s.last()) {
        s.len() as int
    } else {
        word_start(s.drop_last())
    }
}

/// The last word of the text, where it has one.
pub open spec fn last_word_of(s: Seq<char>) -> Option<Seq<char>> {
    let front = trim_back(s);
    if front.len() == 0 {
        None
    } else {
        Some(front.skip(word_start(front)))
    }
}

/// The lines of the text.
pub fn lines(s: &str) -> (r: Vec<String>)
    ensures
        texts(r@) == lines_from(s@, 0),
{
    let chars = chars_of(s);
    let mut r: Vec<String> = Vec::new();
    let mut from: usize = 0;
    assert(texts(r@) + lines_from(s@, 0) =~= lines_from(s@, 0));
    while from < chars.len()
        invariant
            from <= chars.len(),
            chars@ == s@,
            lines_from(s@, 0) == texts(r@) + lines_from(s@, from as int),
        decreases chars.len() - from,
    {
        let ghost before = texts(r@);
        let mut end: usize = from;
        while end < chars.len() && chars[end] != '\n'
            invariant
                from <= end <= chars.len(),
                chars@ == s@,
                find_from(s@, '\n', from as int) == find_from(s@, '\n', end as int),
            decreases chars.len() - end,
        {
            end += 1;
        }
        assert(find_from(s@, '\n', from as int) == end);
        let ghost whole = s@.subrange(from as int, end as int);
        if end < chars.len() {
            let stop: usize = if end > from && chars[end - 1] == '\r' {
                end - 1
            } else {
                end
            };
            assert(s@.subrange(from as int, stop as int) =~= without_return(whole));
            r.push(s.substring_char(from, stop).to_owned());
            assert(texts(r@) =~= before.push(without_return(whole)));
            assert(before + (seq![without_return(whole)] + lines_from(s@, end + 1)) =~= texts(r@)
                + lines_from(s@, end + 1));
            from = end + 1;
        } else {
            r.push(s.substring_char(from, end).to_owned());
            assert(texts(r@) =~= before.push(whole));
            assert(lines_from(s@, end as int) =~= Seq::empty());
            assert(before + seq![whole] =~= texts(r@) + lines_from(s@, end as int));
            from = end;
        }
    }
    assert(texts(r@) + lines_from(s@, from as int) =~= texts(r@));
    r
}

/// The last word of the text, where it has one.
pub fn last_word(s: &str) -> (r: Option<&str>)
    ensures
        opt_str(r) == last_word_of(s@),
{
    let chars = chars_of(s);
    let mut end: usize = chars.len();
    assert(s@.take(end as int) =~= s@);
    while end > 0 && space(chars[end - 1])
        invariant
            end <= chars.len(),
            chars@ == s@,
            trim_back(s@) == trim_back(s@.take(end as int)),
        decreases end,
    {
        assert(s@.take(end as int).drop_last() =~= s@.take(end - 1));
        end -= 1;
    }
    let ghost front = s@.take(end as int);
    assert(trim_back(s@) == front);
    if end == 0 {
        return None;
    }
    let mut start: usize = end;
    assert(front.take(start as int) =~= front);
    while start > 0 && !space(chars[start - 1])
        invariant
            start <= end <= chars.len(),
            chars@ == s@,
            front == s@.take(end as int),
            word_start(front) == word_start(front.take(start as int)),
        decreases start,
    {
        assert(front.take(start as int).drop_last() =~= front.take(start - 1));
        assert(front.take(start as int).last() == chars@[start - 1]);
        start -= 1;
    }
    assert(word_start(front) == start);
    assert(front.skip(start as int) =~= s@.subrange(start as int, end as int));
    Some(s.substring_char(start, end))
}

/// Whether no ASCII capital stands in the text at `from` or later.
pub open spec fn is_small_from(s: Seq<char>, from: int) -> bool
    decreases s.len() - from,
{
    from >= s.len() || (!('A' <= s[from] <= 'Z') && is_small_from(s, from + 1))
}

/// Whether `c` stands nowhere in the text from `from` up to `to`.
pub open spec fn is_free_of(s: Seq<char>, c: char, from: int, to: int) -> bool
    decreases to - from,
{
    from >= to || (s[from] != c && is_free_of(s, c, from + 1, to))
}

proof fn lemma_small_from(s: Seq<char>, from: int)
    requires
        0 <= from,
        is_small_from(s, from),
    ensures
        forall|i: int| from <= i < s.len() ==> !('A' <= #[trigger] s[i] <= 'Z'),
    decreases s.len() - from,
{
    if from < s.len() {
        lemma_small_from(s, from + 1);
    }
}

/// A text without capitals is its own lower case.
pub proof fn lemma_small_text_stays(s: Seq<char>)
    requires
        is_small_from(s, 0),
    ensures
        lowered(s) == s,
{
    lemma_small_from(s, 0);
    assert(lowered(s) =~= s);
}

/// What is free of a character holds it nowhere.
pub proof fn lemma_free_of(s: Seq<char>, c: char, from: int, to: int)
    requires
        is_free_of(s, c, from, to),
    ensures
        forall|i: int| from <= i < to ==> #[trigger] s[i] != c,
    decreases to - from,
{
    if from < to {
        lemma_free_of(s, c, from + 1, to);
    }
}

/// Lower case makes each ASCII capital the letter thirty-two places behind it, and
/// changes nothing else.
pub proof fn law_lower_case_changes_capitals_only(s: Seq<char>)
    ensures
        lowered(s).len() == s.len(),
        forall|i: int|
            0 <= i < s.len() ==> #[trigger] lowered(s)[i] as int == if 'A' <= s[i] <= 'Z' {
                s[i] as int + 32
            } else {
                s[i] as int
            },
{
}

proof fn lemma_trim_front_padded(front: Seq<char>, rest: Seq<char>)
    requires
        forall|i: int| 0 <= i < front.len() ==> is_space(#[trigger] front[i]),
        rest.len() == 0 || !is_space(rest[0]),
    ensures
        trim_front(front + rest) == rest,
    decreases front.len(),
{
    if front.len() > 0 {
        assert((front + rest)[0] == front[0]);
        assert((front + rest).skip(1) =~= front.skip(1) + rest);
        lemma_trim_front_padded(front.skip(1), rest);
    } else {
        assert(front + rest =~= rest);
    }
}

proof fn lemma_trim_back_padded(rest: Seq<char>, back: Seq<char>)
    requires
        forall|i: int| 0 <= i < back.len() ==> is_space(#[trigger] back[i]),
        rest.len() == 0 || !is_space(rest.last()),
    ensures
        trim_back(rest + back) == rest,
    decreases back.len(),
{
    if back.len() > 0 {
        assert((rest + back).last() == back.last());
        assert((rest + back).drop_last() =~= rest + back.drop_last());
        lemma_trim_back_padded(rest, back.drop_last());
    } else {
        assert(rest + back =~= rest);
    }
}

/// Trimming takes the white space around a text and nothing of the text.
pub proof fn law_trimming_takes_the_padding(front: Seq<char>, core: Seq<char>, back: Seq<char>)
    requires
        forall|i: int| 0 <= i < front.len() ==> is_space(#[trigger] front[i]),
        forall|i: int| 0 <= i < back.len() ==> is_space(#[trigger] back[i]),
        core.len() > 0 ==> !is_space(core[0]) && !is_space(core.last()),
    ensures
        trimmed(front + core + back) == core,
{
    if core.len() > 0 {
        assert(front + core + back =~= front + (core + back));
        assert((core + back)[0] == core[0]);
        lemma_trim_front_padded(front, core + back);
        lemma_trim_back_padded(core, back);
    } else {
        let all = front + core + back;
        assert forall|i: int| 0 <= i < all.len() implies is_space(#[trigger] all[i]) by {
            if i >= front.len() {
                assert(all[i] == back[i - front.len()]);
            }
        }
        assert(all + Seq::<char>::empty() =~= all);
        lemma_trim_front_padded(all, Seq::empty());
        assert(core =~= Seq::empty());
    }
}

/// The blanks, tabs and line ends of plain text are white space; nothing that can
/// be seen in it is.
pub proof fn law_white_space_in_plain_text(c: char)
    requires
        c as int <= 126,
    ensures
        is_space(c) <==> c == ' ' || c == '\t' || c == '\n' || c == '\r' || c as int == 11
            || c as int == 12,
{
}

/// Where something is replaced, what replaces it stands in the result as a whole.
pub proof fn law_replacements_stand_whole(s: Seq<char>, from: Seq<char>, to: Seq<char>)
    requires
        from.len() > 0,
        occurs(s, from),
    ensures
        occurs(replaced(s, from, to), to),
    decreases s.len(),
{
    let i = choose|i: int| is_at(s, from, i);
    if starts_with(s, from) {
        let rest = replaced(s.skip(from.len() as int), from, to);
        assert((to + rest).subrange(0, to.len() as int) =~= to);
        assert(is_at(replaced(s, from, to), to, 0));
    } else {
        assert(s.skip(1).subrange(i - 1, i - 1 + from.len()) =~= s.subrange(i, i + from.len()));
        assert(is_at(s.skip(1), from, i - 1));
        law_replacements_stand_whole(s.skip(1), from, to);
        let rest = replaced(s.skip(1), from, to);
        let k = choose|k: int| is_at(rest, to, k);
        assert((seq![s[0]] + rest).subrange(k + 1, k + 1 + to.len()) =~= rest.subrange(
            k,
            k + to.len(),
        ));
        assert(is_at(replaced(s, from, to), to, k + 1));
    }
}

/// A text without the part to replace stays as it is.
pub proof fn law_nothing_else_is_replaced(s: Seq<char>, from: Seq<char>, to: Seq<char>)
    requires
        !occurs(s, from),
    ensures
        replaced(s, from, to) == s,
    decreases s.len(),
{
    if from.len() > 0 && s.len() > 0 {
        if occurs(s.skip(1), from) {
            let i = choose|i: int| is_at(s.skip(1), from, i);
            assert(s.skip(1).subrange(i, i + from.len()) =~= s.subrange(
                i + 1,
                i + 1 + from.len(),
            ));
            assert(is_at(s, from, i + 1));
        }
        assert(!starts_with(s, from));
        law_nothing_else_is_replaced(s.skip(1), from, to);
        assert(seq![s[0]] + s.skip(1) =~= s);
    }
}

/// The first occurrence of a part is exchanged where it stands; what is before it
/// stays, and what is behind it is treated in the same way.
pub proof fn law_the_first_occurrence_is_replaced(
    before: Seq<char>,
    from: Seq<char>,
    after: Seq<char>,
    to: Seq<char>,
)
    requires
        from.len() > 0,
        forall|i: int| 0 <= i < before.len() ==> !#[trigger] is_at(before + from + after, from, i),
    ensures
        replaced(before + from + after, from, to) == before + to + replaced(after, from, to),
    decreases before.len(),
{
    let whole = before + from + after;
    if before.len() == 0 {
        assert(whole.subrange(0, from.len() as int) =~= from);
        assert(whole.skip(from.len() as int) =~= after);
        assert(before + to + replaced(after, from, to) =~= to + replaced(after, from, to));
    } else {
        let rest = before.skip(1);
        assert(whole.skip(1) =~= rest + from + after);
        assert(!is_at(whole, from, 0));
        assert forall|i: int| 0 <= i < rest.len() implies !#[trigger] is_at(
            rest + from + after,
            from,
            i,
        ) by {
            assert(!is_at(whole, from, i + 1));
            if is_at(rest + from + after, from, i) {
                assert(whole.subrange(i + 1, i + 1 + from.len()) =~= (rest + from
                    + after).subrange(i, i + from.len()));
            }
        }
        law_the_first_occurrence_is_replaced(rest, from, after, to);
        assert(seq![whole[0]] + (rest + to + replaced(after, from, to)) =~= before + to
            + replaced(after, from, to));
    }
}

/// What is joined of one part is that part, and what is joined of two rows of
/// parts is what each row joins to, with the separator between them.
pub proof fn law_joining_keeps_every_part(
    left: Seq<Seq<char>>,
    right: Seq<Seq<char>>,
    part: Seq<char>,
    sep: Seq<char>,
)
    ensures
        joined(seq![part], sep) == part,
        left.len() > 0 && right.len() > 0 ==> joined(left + right, sep) == joined(left, sep) + sep
            + joined(right, sep),
    decreases right.len(),
{
    if left.len() > 0 && right.len() > 1 {
        law_joining_keeps_every_part(left, right.drop_last(), part, sep);
        assert((left + right).drop_last() =~= left + right.drop_last());
        assert((left + right).last() == right.last());
        assert(joined(left + right, sep) =~= joined(left, sep) + sep + joined(right, sep));
    } else if left.len() > 0 && right.len() == 1 {
        assert((left + right).drop_last() =~= left);
        assert((left + right).last() == right[0]);
    }
}

proof fn lemma_decimal(n: nat)
    ensures
        decimal(n).len() > 0,
        forall|i: int| 0 <= i < decimal(n).len() ==> is_digit(#[trigger] decimal(n)[i]),
        digits_value(decimal(n)) == n,
    decreases n,
{
    if n >= 10 {
        lemma_decimal(n / 10);
        assert(decimal(n).drop_last() =~= decimal(n / 10));
        assert(decimal(n).last() == digit(n % 10));
    } else {
        assert(decimal(n).drop_last() =~= Seq::empty());
        assert(digits_value(Seq::<char>::empty()) == 0);
    }
}

/// A number written in decimal notation is read as that number, with and without a
/// plus sign before it.
pub proof fn law_written_numbers_are_read_back(n: nat)
    ensures
        number_in(decimal(n)) == Some(n),
        number_in(seq!['+'] + decimal(n)) == Some(n),
        forall|i: int| 0 <= i < decimal(n).len() ==> '0' <= #[trigger] decimal(n)[i] <= '9',
        decimal(n).len() > 1 ==> decimal(n)[0] != '0',
    decreases n,
{
    lemma_decimal(n);
    assert(is_digit(decimal(n)[0]));
    assert((seq!['+'] + decimal(n)).skip(1) =~= decimal(n));
    if n >= 10 {
        law_written_numbers_are_read_back(n / 10);
        assert(decimal(n)[0] == decimal(n / 10)[0]);
        if n / 10 < 10 {
            assert(decimal(n / 10) =~= seq![digit(n / 10)]);
        } else {
            lemma_decimal(n / 10 / 10);
            assert(decimal(n / 10).len() > 1);
        }
    }
}

/// A line ends with its line feed, and what follows is read as if it stood alone.
pub proof fn law_lines_end_with_line_feeds(line: Seq<char>, rest: Seq<char>)
    requires
        !line.contains('\n'),
        line.len() > 0 ==> line.last() != '\r',
    ensures
        lines_from(line + seq!['\n'] + rest, 0) == seq![line] + lines_from(rest, 0),
        lines_from(line + seq!['\r', '\n'] + rest, 0) == seq![line] + lines_from(rest, 0),
        line.len() > 0 ==> lines_from(line, 0) == seq![line],
{
    let fed = line + seq!['\n'] + rest;
    let returned = line + seq!['\r', '\n'] + rest;
    let n = line.len() as int;
    assert forall|i: int| 0 <= i < n implies line[i] != '\n' by {
        assert(line.contains(line[i]));
    }
    lemma_found_first(fed, '\n', 0, n);
    assert(fed.subrange(0, n) =~= line);
    assert(without_return(line) == line);
    assert(fed.skip(n + 1) =~= rest);
    lemma_lines_shift(fed, rest, n + 1, 0);
    lemma_found_first(returned, '\n', 0, n + 1);
    assert(returned.subrange(0, n + 1).drop_last() =~= line);
    assert(returned.subrange(0, n + 1).last() == '\r');
    assert(returned.skip(n + 2) =~= rest);
    lemma_lines_shift(returned, rest, n + 2, 0);
    if n > 0 {
        lemma_found_first(line, '\n', 0, n);
        assert(line.subrange(0, n) =~= line);
    }
}

proof fn lemma_found_first(s: Seq<char>, c: char, from: int, end: int)
    requires
        0 <= from <= end <= s.len(),
        end < s.len() ==> s[end] == c,
        forall|i: int| from <= i < end ==> s[i] != c,
    ensures
        find_from(s, c, from) == end,
    decreases end - from,
{
    if from < end {
        lemma_found_first(s, c, from + 1, end);
    }
}

proof fn lemma_lines_shift(s: Seq<char>, rest: Seq<char>, shift: int, from: int)
    requires
        0 <= shift <= s.len(),
        s.skip(shift) == rest,
        0 <= from <= rest.len(),
    ensures
        lines_from(s, shift + from) == lines_from(rest, from),
    decreases rest.len() - from,
{
    if from < rest.len() {
        lemma_find_from(rest, '\n', from);
        let end = find_from(rest, '\n', from);
        assert forall|i: int| shift + from <= i < shift + end implies s[i] != '\n' by {
            assert(rest[i - shift] == s[i]);
        }
        if end < rest.len() {
            assert(rest[end] == s[shift + end]);
        }
        lemma_found_first(s, '\n', shift + from, shift + end);
        assert(s.subrange(shift + from, shift + end) =~= rest.subrange(from, end));
        if end < rest.len() {
            lemma_lines_shift(s, rest, shift, end + 1);
        }
    }
}

proof fn lemma_word_start(front: Seq<char>, word: Seq<char>)
    requires
        front.len() == 0 || is_space(front.last()),
        forall|i: int| 0 <= i < word.len() ==> !is_space(#[trigger] word[i]),
    ensures
        word_start(front + word) == front.len(),
    decreases word.len(),
{
    if word.len() > 0 {
        assert((front + word).drop_last() =~= front + word.drop_last());
        assert((front + word).last() == word.last());
        lemma_word_start(front, word.drop_last());
    } else {
        assert(front + word =~= front);
    }
}

/// The last word of a text is what stands behind its last white space, the padding
/// at its end aside.
pub proof fn law_the_last_word_stands_last(front: Seq<char>, word: Seq<char>, back: Seq<char>)
    requires
        front.len() == 0 || is_space(front.last()),
        word.len() > 0,
        forall|i: int| 0 <= i < word.len() ==> !is_space(#[trigger] word[i]),
        forall|i: int| 0 <= i < back.len() ==> is_space(#[trigger] back[i]),
    ensures
        last_word_of(front + word + back) == Some(word),
{
    assert((front + word).last() == word.last());
    lemma_trim_back_padded(front + word, back);
    lemma_word_start(front, word);
    assert((front + word).skip(front.len() as int) =~= word);
}

proof fn lemma_trim_back_of_white_space(s: Seq<char>)
    requires
        trim_back(s).len() == 0,
    ensures
        forall|i: int| 0 <= i < s.len() ==> is_space(#[trigger] s[i]),
    decreases s.len(),
{
    if s.len() > 0 {
        lemma_trim_back_of_white_space(s.drop_last());
        assert forall|i: int| 0 <= i < s.len() implies is_space(#[trigger] s[i]) by {
            if i < s.len() - 1 {
                assert(s.drop_last()[i] == s[i]);
            }
        }
    }
}

proof fn lemma_trim_front_of_white_space(s: Seq<char>, rest: Seq<char>)
    requires
        trim_front(s) == rest,
        forall|i: int| 0 <= i < rest.len() ==> is_space(#[trigger] rest[i]),
    ensures
        forall|i: int| 0 <= i < s.len() ==> is_space(#[trigger] s[i]),
    decreases s.len(),
{
    if s.len() > 0 && is_space(s[0]) {
        lemma_trim_front_of_white_space(s.skip(1), rest);
        assert forall|i: int| 0 <= i < s.len() implies is_space(#[trigger] s[i]) by {
            if i > 0 {
                assert(s.skip(1)[i - 1] == s[i]);
            }
        }
    }
}

/// A text is blank where it is white space throughout, and nowhere else.
pub proof fn law_blank_texts_are_white_space(s: Seq<char>)
    ensures
        is_blank(s) <==> forall|i: int| 0 <= i < s.len() ==> is_space(#[trigger] s[i]),
        is_blank(s) ==> unless_blank(Some(s)) is None,
        !is_blank(s) ==> unless_blank(Some(s)) == Some(s),
        unless_blank(None) is None,
{
    let none = Seq::<char>::empty();
    if forall|i: int| 0 <= i < s.len() ==> is_space(#[trigger] s[i]) {
        assert(s + none + none =~= s);
        law_trimming_takes_the_padding(s, none, none);
    }
    if is_blank(s) {
        lemma_trim_back_of_white_space(trim_front(s));
        lemma_trim_front_of_white_space(s, trim_front(s));
    }
}

/// A text starts and ends with what stands at its front and its back, and holds what
/// stands in it anywhere.
pub proof fn law_parts_are_found_where_they_stand(
    front: Seq<char>,
    part: Seq<char>,
    back: Seq<char>,
)
    ensures
        starts_with(part + back, part),
        ends_with(front + part, part),
        occurs(front + part + back, part),
{
    assert((part + back).subrange(0, part.len() as int) =~= part);
    let n = front.len() as int;
    assert((front + part).subrange(n, n + part.len()) =~= part);
    assert((front + part + back).subrange(n, n + part.len()) =~= part);
    assert(is_at(front + part + back, part, n));
}

/// A text that starts or ends with a part is that part with something behind or before
/// it, and one that is shorter than the part does not hold it.
pub proof fn law_nothing_else_is_found(s: Seq<char>, part: Seq<char>)
    ensures
        starts_with(s, part) ==> s == part + s.skip(part.len() as int),
        ends_with(s, part) ==> s == s.take(s.len() - part.len()) + part,
        s.len() < part.len() ==> !occurs(s, part),
        s.len() == part.len() && s != part ==> !occurs(s, part),
{
    if starts_with(s, part) {
        assert(s =~= s.subrange(0, part.len() as int) + s.skip(part.len() as int));
    }
    if ends_with(s, part) {
        let k = s.len() - part.len();
        assert(s =~= s.take(k) + s.subrange(k, k + part.len()));
    }
    if s.len() == part.len() && occurs(s, part) {
        let i = choose|i: int| is_at(s, part, i);
        assert(i == 0);
        assert(s.subrange(0, s.len() as int) =~= s);
    }
}

/// A text that is there is taken as it stands before any other; one that is absent
/// leaves the other.
pub proof fn law_texts_stand_in_for_absent_ones(
    s: Seq<char>,
    other: Seq<char>,
    second: Option<Seq<char>>,
)
    ensures
        or_text(Some(s), other) == s,
        or_text(None, other) == other,
        first_text(Some(s), second) == Some(s),
        first_text(None, second) == second,
{
}

/// An integer is written as the digits of its size, behind a minus sign where it is
/// negative.
pub proof fn law_integers_are_written_with_their_sign(n: int)
    ensures
        n >= 0 ==> number_in(decimal_int(n)) == Some(n as nat),
        n < 0 ==> decimal_int(n).len() > 1 && decimal_int(n)[0] == '-' && number_in(
            decimal_int(n).skip(1),
        ) == Some((-n) as nat),
{
    if n >= 0 {
        law_written_numbers_are_read_back(n as nat);
    } else {
        law_written_numbers_are_read_back((-n) as nat);
        lemma_decimal((-n) as nat);
        assert(decimal_int(n).skip(1) =~= decimal((-n) as nat));
    }
}

} // verus!
