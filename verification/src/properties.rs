//! Note properties as the editor and the inspector edit them: the typed
//! value a new property gets from what the user typed, and the text a
//! property value is shown as.
use vstd::prelude::*;
use vstd::std_specs::iter::IteratorSpec;
use crate::editor::{is_whitespace, is_whitespace_spec};
use crate::text::{char_count_fits, decimal_digits, decimal_text, digit_char, push_decimal_i64, same_text};

verus! {

/// Number of whitespace characters at the start of `p`.
pub open spec fn leading_ws(p: Seq<char>) -> nat
    decreases p.len(),
{
    if p.len() == 0 || !is_whitespace_spec(p[0]) {
        0
    } else {
        1 + leading_ws(p.drop_first())
    }
}

/// Number of whitespace characters at the end of `p`.
pub open spec fn trailing_ws(p: Seq<char>) -> nat
    decreases p.len(),
{
    if p.len() == 0 || !is_whitespace_spec(p.last()) {
        0
    } else {
        1 + trailing_ws(p.drop_last())
    }
}

/// `p` without its leading and trailing whitespace (what `str::trim` gives).
pub open spec fn trim_spec(p: Seq<char>) -> Seq<char> {
    if leading_ws(p) == p.len() {
        Seq::empty()
    } else {
        p.subrange(leading_ws(p) as int, p.len() - trailing_ws(p))
    }
}

/// The leading-whitespace count is the first non-whitespace position.
pub proof fn lemma_leading_ws_is_first_non_ws(p: Seq<char>, a: int)
    requires
        0 <= a <= p.len(),
        forall|j: int| 0 <= j < a ==> is_whitespace_spec(#[trigger] p[j]),
        a == p.len() || !is_whitespace_spec(p[a]),
    ensures
        leading_ws(p) == a,
    decreases a,
{
    if a > 0 {
        assert forall|j: int| 0 <= j < a - 1 implies is_whitespace_spec(#[trigger] p.drop_first()[j]) by {
            assert(p.drop_first()[j] == p[j + 1]);
        }
        lemma_leading_ws_is_first_non_ws(p.drop_first(), a - 1);
    }
}

/// The trailing-whitespace count is the distance back to the last
/// non-whitespace character.
pub proof fn lemma_trailing_ws_is_last_non_ws(p: Seq<char>, b: int)
    requires
        0 <= b <= p.len(),
        forall|j: int| b <= j < p.len() ==> is_whitespace_spec(#[trigger] p[j]),
        b == 0 || !is_whitespace_spec(p[b - 1]),
    ensures
        trailing_ws(p) == p.len() - b,
    decreases p.len() - b,
{
    if b < p.len() {
        assert forall|j: int| b <= j < p.len() - 1 implies is_whitespace_spec(#[trigger] p.drop_last()[j]) by {
            assert(p.drop_last()[j] == p[j]);
        }
        lemma_trailing_ws_is_last_non_ws(p.drop_last(), b);
    }
}

/// The characters of `s`, in order.
pub fn chars_of(s: &str) -> (chars: Vec<char>)
    ensures
        chars@ == s@,
{
    char_count_fits(s);
    let mut chars: Vec<char> = Vec::new();
    let mut it = s.chars();
    let ghost text = s@;
    proof {
        broadcast use vstd::string::axiom_spec_iter;
        assert(text.skip(0) =~= text);
    }
    loop
        invariant
            chars@.len() <= text.len(),
            text.len() <= usize::MAX,
            it.obeys_prophetic_iter_laws(),
            it.remaining() == text.skip(chars@.len() as int),
            chars@ == text.take(chars@.len() as int),
        ensures
            chars@ == text,
        decreases text.len() - chars@.len(),
    {
        proof {
            broadcast use vstd::string::next_postcondition;
        }
        match it.next() {
            Some(c) => {
                let ghost n = chars@.len() as int;
                chars.push(c);
                proof {
                    assert(chars@ =~= text.take(n + 1));
                    assert(text.skip(n + 1) =~= text.skip(n).drop_first());
                }
            },
            None => {
                proof {
                    assert(text.take(chars@.len() as int) =~= text);
                }
                break;
            },
        }
    }
    chars
}

/// Bounds of `chars[start..end]` without its surrounding whitespace.
fn trimmed_bounds(chars: &Vec<char>, start: usize, end: usize) -> (bounds: (usize, usize))
    requires
        start <= end <= chars@.len(),
    ensures
        ({
            let p = chars@.subrange(start as int, end as int);
            &&& start <= bounds.0 <= bounds.1 <= end
            &&& (bounds.0 == bounds.1) == (trim_spec(p).len() == 0)
            &&& trim_spec(p) == chars@.subrange(bounds.0 as int, bounds.1 as int)
        }),
{
    let ghost p = chars@.subrange(start as int, end as int);
    let mut a = start;
    while a < end && is_whitespace(chars[a])
        invariant
            start <= a <= end <= chars@.len(),
            p == chars@.subrange(start as int, end as int),
            forall|j: int| 0 <= j < a - start ==> is_whitespace_spec(#[trigger] p[j]),
        decreases end - a,
    {
        a = a + 1;
    }
    proof {
        lemma_leading_ws_is_first_non_ws(p, a - start);
    }
    if a == end {
        return (a, a);
    }
    let mut b = end;
    while b > a && is_whitespace(chars[b - 1])
        invariant
            start <= a < end,
            a <= b <= end <= chars@.len(),
            p == chars@.subrange(start as int, end as int),
            !is_whitespace_spec(p[a - start]),
            forall|j: int| b - start <= j < p.len() ==> is_whitespace_spec(#[trigger] p[j]),
        decreases b - a,
    {
        b = b - 1;
    }
    proof {
        lemma_trailing_ws_is_last_non_ws(p, b - start);
        assert(trim_spec(p) =~= chars@.subrange(a as int, b as int));
    }
    (a, b)
}

/// `s` without its leading and trailing whitespace.
pub fn trim_text(s: &str) -> (trimmed: String)
    ensures
        trimmed@ == trim_spec(s@),
        trimmed@.len() <= s@.len(),
{
    let chars = chars_of(s);
    let (a, b) = trimmed_bounds(&chars, 0, chars.len());
    proof {
        assert(chars@.subrange(0, chars@.len() as int) =~= s@);
    }
    String::from_str(s.substring_char(a, b))
}


/// The pieces of `s` between commas (what `split(',')` yields).
pub open spec fn comma_pieces(s: Seq<char>) -> Seq<Seq<char>>
    decreases s.len(),
{
    if s.len() == 0 {
        seq![Seq::empty()]
    } else {
        let prev = comma_pieces(s.drop_last());
        if s.last() == ',' {
            prev.push(Seq::empty())
        } else {
            prev.update(prev.len() - 1, prev.last().push(s.last()))
        }
    }
}

/// Splitting always yields at least one piece.
pub proof fn lemma_comma_pieces_nonempty(s: Seq<char>)
    ensures
        comma_pieces(s).len() >= 1,
    decreases s.len(),
{
    if s.len() > 0 {
        lemma_comma_pieces_nonempty(s.drop_last());
    }
}

/// The trimmed pieces that are not empty, in order.
pub open spec fn list_items(pieces: Seq<Seq<char>>) -> Seq<Seq<char>>
    decreases pieces.len(),
{
    if pieces.len() == 0 {
        Seq::empty()
    } else {
        list_items(pieces.drop_last()) + if trim_spec(pieces.last()).len() > 0 {
            seq![trim_spec(pieces.last())]
        } else {
            Seq::empty()
        }
    }
}

/// The texts of a list of strings.
pub open spec fn text_views(items: Seq<String>) -> Seq<Seq<char>> {
    items.map_values(|x: String| x@)
}

/// Appends the trimmed piece `s[start..end]` when it is not empty.
fn push_trimmed_piece(s: &str, chars: &Vec<char>, start: usize, end: usize, items: &mut Vec<String>)
    requires
        chars@ == s@,
        start <= end <= chars@.len(),
    ensures
        text_views(final(items)@) == text_views(old(items)@) + if trim_spec(s@.subrange(start as int, end as int)).len() > 0 {
            seq![trim_spec(s@.subrange(start as int, end as int))]
        } else {
            Seq::empty()
        },
{
    let (a, b) = trimmed_bounds(chars, start, end);
    if a < b {
        items.push(String::from_str(s.substring_char(a, b)));
        proof {
            assert(text_views(items@) =~= text_views(old(items)@).push(s@.subrange(a as int, b as int)));
        }
    } else {
        assert(text_views(items@) =~= text_views(old(items)@) + Seq::empty());
    }
}

/// The items of a comma-separated list: each piece between commas,
/// trimmed, keeping the pieces that are not empty.
pub fn parse_list(s: &str) -> (items: Vec<String>)
    ensures
        text_views(items@) == list_items(comma_pieces(s@)),
{
    let chars = chars_of(s);
    let n = chars.len();
    let mut items: Vec<String> = Vec::new();
    let mut start: usize = 0;
    let mut i: usize = 0;
    let ghost mut done: Seq<Seq<char>> = Seq::empty();
    proof {
        assert(s@.take(0) =~= Seq::<char>::empty());
        assert(comma_pieces(s@.take(0)) =~= done.push(s@.subrange(0, 0)));
    }
    while i < n
        invariant
            n == chars@.len(),
            chars@ == s@,
            start <= i <= n,
            comma_pieces(s@.take(i as int)) == done.push(s@.subrange(start as int, i as int)),
            text_views(items@) == list_items(done),
        decreases n - i,
    {
        proof {
            assert(s@.take(i + 1).drop_last() =~= s@.take(i as int));
            assert(s@.take(i + 1).last() == s@[i as int]);
        }
        if chars[i] == ',' {
            push_trimmed_piece(s, &chars, start, i, &mut items);
            proof {
                let piece = s@.subrange(start as int, i as int);
                assert(comma_pieces(s@.take(i + 1)) == comma_pieces(s@.take(i as int)).push(Seq::empty()));
                assert(done.push(piece).drop_last() =~= done);
                assert(list_items(done.push(piece)) == list_items(done) + if trim_spec(piece).len() > 0 {
                    seq![trim_spec(piece)]
                } else {
                    Seq::empty()
                });
                done = done.push(piece);
                assert(s@.subrange(i + 1, i + 1) =~= Seq::<char>::empty());
                assert(comma_pieces(s@.take(i + 1)) =~= done.push(s@.subrange(i + 1, i + 1)));
            }
            start = i + 1;
        } else {
            proof {
                let prev = done.push(s@.subrange(start as int, i as int));
                assert(s@.subrange(start as int, i as int).push(s@[i as int]) =~= s@.subrange(start as int, i + 1));
                assert(prev.update(prev.len() - 1, prev.last().push(s@[i as int])) =~= done.push(
                    s@.subrange(start as int, i + 1),
                ));
            }
        }
        i = i + 1;
    }
    push_trimmed_piece(s, &chars, start, n, &mut items);
    proof {
        let piece = s@.subrange(start as int, n as int);
        assert(s@.take(n as int) =~= s@);
        assert(done.push(piece).drop_last() =~= done);
    }
    items
}


/// The character is an ASCII digit.
pub open spec fn is_digit(c: char) -> bool {
    '0' <= c <= '9'
}

/// Every character of `s` is an ASCII digit.
pub open spec fn all_digits(s: Seq<char>) -> bool {
    forall|i: int| 0 <= i < s.len() ==> is_digit(#[trigger] s[i])
}

/// The number written by the decimal digits `s`.
pub open spec fn digits_value(s: Seq<char>) -> int
    decreases s.len(),
{
    if s.len() == 0 {
        0
    } else {
        digits_value(s.drop_last()) * 10 + (s.last() as int - '0' as int)
    }
}

/// What `str::parse::<i64>` gives: an optional '+' or '-', then at least
/// one decimal digit, and a value that fits in an `i64`.
pub open spec fn parse_i64_spec(s: Seq<char>) -> Option<i64> {
    let negative = s.len() > 0 && s[0] == '-';
    let body = if s.len() > 0 && (s[0] == '-' || s[0] == '+') { s.drop_first() } else { s };
    let value = if negative { -digits_value(body) } else { digits_value(body) };
    if body.len() == 0 || !all_digits(body) || value < i64::MIN || value > i64::MAX {
        None
    } else {
        Some(value as i64)
    }
}

/// Digit strings only grow in value as digits are appended.
pub proof fn lemma_digits_value_grows(s: Seq<char>, k: int)
    requires
        all_digits(s),
        0 <= k <= s.len(),
    ensures
        0 <= digits_value(s.take(k)) <= digits_value(s),
    decreases s.len() - k,
{
    if k < s.len() {
        lemma_digits_value_grows(s, k + 1);
        assert(s.take(k + 1).drop_last() =~= s.take(k));
        assert(is_digit(s[k]));
    } else {
        assert(s.take(k) =~= s);
        lemma_digits_value_nonnegative(s);
    }
}

/// Digit strings have non-negative values.
pub proof fn lemma_digits_value_nonnegative(s: Seq<char>)
    requires
        all_digits(s),
    ensures
        digits_value(s) >= 0,
    decreases s.len(),
{
    if s.len() > 0 {
        assert(all_digits(s.drop_last())) by {
            assert forall|i: int| 0 <= i < s.drop_last().len() implies is_digit(#[trigger] s.drop_last()[i]) by {
                assert(s.drop_last()[i] == s[i]);
            }
        }
        lemma_digits_value_nonnegative(s.drop_last());
        assert(is_digit(s.last()));
    }
}

/// Parses a decimal `i64` as `str::parse` does; `None` when the text is
/// not one or the value does not fit.
pub fn parse_i64(text: &str) -> (value: Option<i64>)
    ensures
        value == parse_i64_spec(text@),
{
    let chars = chars_of(text);
    let n = chars.len();
    let ghost s = text@;
    let negative = n > 0 && chars[0] == '-';
    let start: usize = if n > 0 && (chars[0] == '-' || chars[0] == '+') { 1 } else { 0 };
    let ghost body = if s.len() > 0 && (s[0] == '-' || s[0] == '+') { s.drop_first() } else { s };
    proof {
        assert(body =~= s.subrange(start as int, n as int));
    }
    if start == n {
        return None;
    }
    let limit: u128 = if negative { 9223372036854775808 } else { 9223372036854775807 };
    let mut magnitude: u128 = 0;
    let mut i = start;
    while i < n
        invariant
            s == text@,
            body == (if s.len() > 0 && (s[0] == '-' || s[0] == '+') { s.drop_first() } else { s }),
            negative == (s.len() > 0 && s[0] == '-'),
            chars@ == s,
            n == s.len(),
            start <= i <= n,
            body == s.subrange(start as int, n as int),
            limit == (if negative { 9223372036854775808u128 } else { 9223372036854775807u128 }),
            magnitude <= limit,
            magnitude == digits_value(body.take(i - start)),
            all_digits(body.take(i - start)),
        decreases n - i,
    {
        let c = chars[i];
        proof {
            assert(body.take(i - start + 1).drop_last() =~= body.take(i - start));
            assert(body.take(i - start + 1).last() == c);
            assert(body[i - start] == c);
        }
        if !('0' <= c && c <= '9') {
            assert(!is_digit(body[i - start]));
            assert(!all_digits(body));
            assert(parse_i64_spec(text@) is None);
            return None;
        }
        magnitude = magnitude * 10 + (c as u128 - '0' as u128);
        assert(magnitude == digits_value(body.take(i - start + 1)));
        proof {
            assert(all_digits(body.take(i - start + 1))) by {
                assert forall|j: int| 0 <= j < i - start + 1 implies is_digit(#[trigger] body.take(i - start + 1)[j]) by {
                    if j < i - start {
                        assert(body.take(i - start + 1)[j] == body.take(i - start)[j]);
                    }
                }
            }
        }
        if magnitude > limit {
            proof {
                if all_digits(body) {
                    lemma_digits_value_grows(body, i - start + 1);
                    assert(digits_value(body) > limit);
                }
                assert(parse_i64_spec(text@) is None);
            }
            return None;
        }
        i = i + 1;
    }
    proof {
        assert(body.take(n - start) =~= body);
    }
    if negative {
        if magnitude == 9223372036854775808 {
            Some(i64::MIN)
        } else {
            Some(-(magnitude as i64))
        }
    } else {
        Some(magnitude as i64)
    }
}


/// An item of a list-valued property: text, or a value of another kind.
#[derive(Debug, Clone)]
pub enum ListItem {
    Text(String),
    NonText,
}

/// The value of a note property.
#[derive(Debug, Clone)]
pub enum PropertyValue {
    Text(String),
    Number(i64),
    Bool(bool),
    List(Vec<ListItem>),
    /// A value the editor only shows, with the text it is shown as.
    Other(String),
}

/// The text is "true" in any mix of ASCII case.
pub open spec fn is_true_text(s: Seq<char>) -> bool {
    &&& s.len() == 4
    &&& (s[0] == 't' || s[0] == 'T')
    &&& (s[1] == 'r' || s[1] == 'R')
    &&& (s[2] == 'u' || s[2] == 'U')
    &&& (s[3] == 'e' || s[3] == 'E')
}

/// The texts of list items that are all text.
pub open spec fn item_views(items: Seq<ListItem>) -> Seq<Option<Seq<char>>> {
    items.map_values(|item: ListItem| match item {
        ListItem::Text(t) => Some(t@),
        ListItem::NonText => None,
    })
}

/// The value a property of kind `kind` gets from the (trimmed) text `raw`:
/// a number when it parses as one (else the text), a checkbox that is
/// ticked for "true" in any ASCII case or "1", a list of the non-empty
/// trimmed comma-separated items, or the text itself.
pub open spec fn property_value_from(value: PropertyValue, kind: Seq<char>, raw: Seq<char>) -> bool {
    if kind == "number"@ {
        match parse_i64_spec(raw) {
            Some(n) => value == PropertyValue::Number(n),
            None => value matches PropertyValue::Text(t) && t@ == raw,
        }
    } else if kind == "checkbox"@ {
        value == PropertyValue::Bool(is_true_text(raw) || raw == "1"@)
    } else if kind == "list"@ {
        value matches PropertyValue::List(items) && item_views(items@) == list_items(comma_pieces(raw)).map_values(
            |t: Seq<char>| Some(t),
        )
    } else {
        value matches PropertyValue::Text(t) && t@ == raw
    }
}

/// Whether the text is "true" in any mix of ASCII case.
fn is_true_word(s: &str) -> (yes: bool)
    ensures
        yes == is_true_text(s@),
{
    if s.unicode_len() != 4 {
        return false;
    }
    let c0 = s.get_char(0);
    let c1 = s.get_char(1);
    let c2 = s.get_char(2);
    let c3 = s.get_char(3);
    (c0 == 't' || c0 == 'T') && (c1 == 'r' || c1 == 'R') && (c2 == 'u' || c2 == 'U') && (c3 == 'e' || c3 == 'E')
}

/// The value a new property of kind `kind` gets from the text `raw`.
pub fn parse_property_value(kind: &str, raw: &str) -> (value: PropertyValue)
    ensures
        property_value_from(value, kind@, raw@),
{
    proof {
        reveal_strlit("1");
    }
    if same_text(kind, "number") {
        match parse_i64(raw) {
            Some(n) => PropertyValue::Number(n),
            None => PropertyValue::Text(String::from_str(raw)),
        }
    } else if same_text(kind, "checkbox") {
        PropertyValue::Bool(is_true_word(raw) || same_text(raw, "1"))
    } else if same_text(kind, "list") {
        let texts = parse_list(raw);
        let mut items: Vec<ListItem> = Vec::new();
        let mut i: usize = 0;
        while i < texts.len()
            invariant
                0 <= i <= texts.len(),
                item_views(items@) == text_views(texts@).take(i as int).map_values(|t: Seq<char>| Some(t)),
            decreases texts.len() - i,
        {
            let t = texts[i].clone();
            assert(t@ == text_views(texts@)[i as int]);
            let ghost before = items@;
            items.push(ListItem::Text(t));
            proof {
                assert(item_views(items@) =~= item_views(before).push(Some(text_views(texts@)[i as int])));
                assert(text_views(texts@).take(i + 1).map_values(|t: Seq<char>| Some(t)) =~= text_views(texts@).take(
                    i as int,
                ).map_values(|t: Seq<char>| Some(t)).push(Some(text_views(texts@)[i as int])));
            }
            i = i + 1;
        }
        proof {
            assert(text_views(texts@).take(texts@.len() as int) =~= text_views(texts@));
        }
        PropertyValue::List(items)
    } else {
        PropertyValue::Text(String::from_str(raw))
    }
}

/// Adding a property: the key and the value are trimmed; nothing is added
/// when the key is empty, else the value is typed by `kind`.
pub fn new_property(key_input: &str, value_input: &str, kind: &str) -> (property: Option<(String, PropertyValue)>)
    ensures
        trim_spec(key_input@).len() == 0 <==> property is None,
        property matches Some((key, value)) ==> key@ == trim_spec(key_input@) && property_value_from(
            value,
            kind@,
            trim_spec(value_input@),
        ),
{
    let key = trim_text(key_input);
    if key.as_str().unicode_len() == 0 {
        return None;
    }
    let raw = trim_text(value_input);
    let value = parse_property_value(kind, raw.as_str());
    Some((key, value))
}

/// The texts of the text items, in order.
pub open spec fn text_items(items: Seq<ListItem>) -> Seq<Seq<char>>
    decreases items.len(),
{
    if items.len() == 0 {
        Seq::empty()
    } else {
        text_items(items.drop_last()) + match items.last() {
            ListItem::Text(t) => seq![t@],
            ListItem::NonText => Seq::empty(),
        }
    }
}

/// The parts joined with ", " between them.
pub open spec fn join_with_commas(parts: Seq<Seq<char>>) -> Seq<char>
    decreases parts.len(),
{
    if parts.len() == 0 {
        Seq::empty()
    } else if parts.len() == 1 {
        parts[0]
    } else {
        join_with_commas(parts.drop_last()) + ", "@ + parts.last()
    }
}

/// The text a property value is shown as.
pub open spec fn display_text_spec(value: PropertyValue) -> Seq<char> {
    match value {
        PropertyValue::Text(t) => t@,
        PropertyValue::Number(n) => decimal_text(n as int),
        PropertyValue::Bool(b) => if b { "true"@ } else { "false"@ },
        PropertyValue::List(items) => join_with_commas(text_items(items@)),
        PropertyValue::Other(t) => t@,
    }
}

/// The text a property value is shown as: lists show their text items
/// separated by ", ".
pub fn property_display_text(value: &PropertyValue) -> (text: String)
    ensures
        text@ == display_text_spec(*value),
{
    match value {
        PropertyValue::Text(t) => t.clone(),
        PropertyValue::Number(n) => {
            let mut s = String::new();
            push_decimal_i64(&mut s, *n);
            s
        },
        PropertyValue::Bool(b) => if *b {
            String::from_str("true")
        } else {
            String::from_str("false")
        },
        PropertyValue::List(items) => {
            let mut s = String::new();
            let mut count: usize = 0;
            let mut i: usize = 0;
            while i < items.len()
                invariant
                    0 <= i <= items.len(),
                    count as int == text_items(items@.take(i as int)).len(),
                    count <= i,
                    s@ == join_with_commas(text_items(items@.take(i as int))),
                decreases items.len() - i,
            {
                let ghost parts = text_items(items@.take(i as int));
                proof {
                    assert(items@.take(i + 1).drop_last() =~= items@.take(i as int));
                }
                match &items[i] {
                    ListItem::Text(t) => {
                        if count > 0 {
                            s.append(", ");
                        }
                        s.append(t.as_str());
                        count = count + 1;
                        proof {
                            let next = text_items(items@.take(i + 1));
                            assert(next =~= parts.push(t@));
                            assert(next.drop_last() =~= parts);
                            if parts.len() == 0 {
                                assert(s@ =~= next[0]);
                            }
                        }
                    },
                    ListItem::NonText => {
                        proof {
                            assert(text_items(items@.take(i + 1)) =~= parts);
                        }
                    },
                }
                i = i + 1;
            }
            proof {
                assert(items@.take(items@.len() as int) =~= items@);
            }
            s
        },
        PropertyValue::Other(t) => t.clone(),
    }
}


/// A checkbox shown as text reads back as the same checkbox.
pub proof fn lemma_checkbox_display_round_trip(b: bool, value: PropertyValue)
    requires
        property_value_from(value, "checkbox"@, display_text_spec(PropertyValue::Bool(b))),
    ensures
        value == PropertyValue::Bool(b),
{
    reveal_strlit("checkbox");
    reveal_strlit("number");
    reveal_strlit("list");
    assert("checkbox"@.len() == 8 && "number"@.len() == 6 && "list"@.len() == 4);
    reveal_strlit("true");
    reveal_strlit("false");
    reveal_strlit("1");
}

/// A decimal digit character stands for its digit.
pub proof fn lemma_digit_char_value(k: int)
    requires
        0 <= k < 10,
    ensures
        is_digit(digit_char(k)),
        digit_char(k) as int - '0' as int == k,
{
}

/// Decimal digits are digits, and read back as the number they write.
pub proof fn lemma_decimal_digits_value(m: nat)
    ensures
        decimal_digits(m).len() > 0,
        all_digits(decimal_digits(m)),
        digits_value(decimal_digits(m)) == m,
    decreases m,
{
    let d = decimal_digits(m);
    if m >= 10 {
        lemma_decimal_digits_value(m / 10);
        lemma_digit_char_value((m % 10) as int);
        assert(d.drop_last() =~= decimal_digits(m / 10));
        assert(d.last() == digit_char((m % 10) as int));
        assert((m / 10) * 10 + m % 10 == m) by (nonlinear_arith);
        assert(digits_value(d) == digits_value(d.drop_last()) * 10 + (d.last() as int - '0' as int));
        assert forall|i: int| 0 <= i < d.len() implies is_digit(#[trigger] d[i]) by {
            if i < d.len() - 1 {
                assert(d[i] == decimal_digits(m / 10)[i]);
            }
        }
    } else {
        lemma_digit_char_value(m as int);
        assert(d.drop_last() =~= Seq::<char>::empty());
        assert(digits_value(d.drop_last()) == 0);
        assert(d.last() == digit_char(m as int));
    }
}

/// A number shown as text reads back as the same number.
pub proof fn lemma_number_display_round_trip(n: i64, value: PropertyValue)
    requires
        property_value_from(value, "number"@, display_text_spec(PropertyValue::Number(n))),
    ensures
        value == PropertyValue::Number(n),
{
    reveal_strlit("checkbox");
    reveal_strlit("number");
    reveal_strlit("list");
    assert("checkbox"@.len() == 8 && "number"@.len() == 6 && "list"@.len() == 4);
    let t = decimal_text(n as int);
    if n < 0 {
        let m = (-(n as int)) as nat;
        lemma_decimal_digits_value(m);
        assert(t.drop_first() =~= decimal_digits(m));
    } else {
        lemma_decimal_digits_value(n as nat);
        let d = decimal_digits(n as nat);
        assert(is_digit(d[0]));
    }
    assert(parse_i64_spec(t) == Some(n));
}

/// A list item that reads back unchanged: not empty, without commas, and
/// without whitespace at either end.
pub open spec fn is_plain_item(p: Seq<char>) -> bool {
    &&& p.len() > 0
    &&& forall|i: int| 0 <= i < p.len() ==> #[trigger] p[i] != ','
    &&& !is_whitespace_spec(p[0])
    &&& !is_whitespace_spec(p.last())
}

/// Appending text without commas extends the last piece.
pub proof fn lemma_comma_pieces_append(x: Seq<char>, y: Seq<char>)
    requires
        forall|i: int| 0 <= i < y.len() ==> #[trigger] y[i] != ',',
    ensures
        comma_pieces(x + y) == comma_pieces(x).update(
            comma_pieces(x).len() - 1,
            comma_pieces(x).last() + y,
        ),
        comma_pieces(x + y).len() == comma_pieces(x).len(),
    decreases y.len(),
{
    lemma_comma_pieces_nonempty(x);
    if y.len() == 0 {
        assert(x + y =~= x);
        assert(comma_pieces(x).last() + y =~= comma_pieces(x).last());
        assert(comma_pieces(x).update(comma_pieces(x).len() - 1, comma_pieces(x).last()) =~= comma_pieces(x));
    } else {
        let y0 = y.drop_last();
        assert forall|i: int| 0 <= i < y0.len() implies #[trigger] y0[i] != ',' by {
            assert(y0[i] == y[i]);
        }
        assert(y[y.len() - 1] != ',');
        lemma_comma_pieces_append(x, y0);
        assert((x + y).drop_last() =~= x + y0);
        assert((x + y).last() == y.last());
        let p = comma_pieces(x);
        assert((p.last() + y0).push(y.last()) =~= p.last() + y);
        assert(comma_pieces(x + y) =~= p.update(p.len() - 1, p.last() + y));
    }
}

/// A plain item is its own trim, also after one leading space.
pub proof fn lemma_plain_item_trims_to_itself(p: Seq<char>)
    requires
        is_plain_item(p),
    ensures
        trim_spec(p) == p,
        trim_spec(seq![' '] + p) == p,
{
    lemma_leading_ws_is_first_non_ws(p, 0);
    lemma_trailing_ws_is_last_non_ws(p, p.len() as int);
    assert(p.subrange(0, p.len() as int) =~= p);
    let q = seq![' '] + p;
    assert(q[1] == p[0]);
    lemma_leading_ws_is_first_non_ws(q, 1);
    assert(q.last() == p.last());
    lemma_trailing_ws_is_last_non_ws(q, q.len() as int);
    assert(q.subrange(1, q.len() as int) =~= p);
}

/// A list of plain items shown as text reads back as the same items.
pub proof fn lemma_list_display_round_trip(parts: Seq<Seq<char>>)
    requires
        forall|i: int| 0 <= i < parts.len() ==> is_plain_item(#[trigger] parts[i]),
    ensures
        list_items(comma_pieces(join_with_commas(parts))) == parts,
    decreases parts.len(),
{
    reveal_strlit(", ");
    assert(list_items(Seq::<Seq<char>>::empty()) == Seq::<Seq<char>>::empty());
    if parts.len() == 0 {
        assert(join_with_commas(parts) == Seq::<char>::empty());
        let pieces = comma_pieces(Seq::<char>::empty());
        assert(pieces =~= seq![Seq::<char>::empty()]);
        assert(pieces.drop_last() =~= Seq::<Seq<char>>::empty());
        assert(trim_spec(Seq::<char>::empty()) =~= Seq::<char>::empty());
        assert(list_items(pieces) =~= parts);
    } else if parts.len() == 1 {
        let p0 = parts[0];
        lemma_plain_item_trims_to_itself(p0);
        lemma_comma_pieces_append(Seq::empty(), p0);
        assert(Seq::<char>::empty() + p0 =~= p0);
        let pieces = comma_pieces(p0);
        assert(Seq::<char>::empty() + p0 =~= p0);
        assert(pieces =~= seq![p0]);
        assert(pieces.drop_last() =~= Seq::<Seq<char>>::empty());
        assert(list_items(pieces) =~= parts);
    } else {
        let init = parts.drop_last();
        let last = parts.last();
        assert forall|i: int| 0 <= i < init.len() implies is_plain_item(#[trigger] init[i]) by {
            assert(init[i] == parts[i]);
        }
        lemma_list_display_round_trip(init);
        lemma_plain_item_trims_to_itself(last);
        let head = join_with_commas(init) + seq![','];
        let tail = seq![' '] + last;
        assert(join_with_commas(parts) =~= head + tail);
        assert(head.drop_last() =~= join_with_commas(init));
        lemma_comma_pieces_nonempty(join_with_commas(init));
        assert(comma_pieces(head) == comma_pieces(join_with_commas(init)).push(Seq::empty()));
        assert forall|i: int| 0 <= i < tail.len() implies #[trigger] tail[i] != ',' by {
            if i > 0 {
                assert(tail[i] == last[i - 1]);
            }
        }
        lemma_comma_pieces_append(head, tail);
        let pieces = comma_pieces(head + tail);
        assert(Seq::<char>::empty() + tail =~= tail);
        assert(pieces =~= comma_pieces(join_with_commas(init)).push(tail));
        assert(pieces.drop_last() =~= comma_pieces(join_with_commas(init)));
        assert(pieces.last() == tail);
        assert(trim_spec(tail) == last);
        assert(list_items(pieces) == list_items(comma_pieces(join_with_commas(init))) + seq![last]);
        assert(init.push(last) =~= parts);
        assert(list_items(pieces) =~= parts);
    }
}


/// A list of plain text items, shown as text and read back as a list,
/// gives the same items.
pub proof fn lemma_list_property_round_trip(items: Vec<ListItem>, value: PropertyValue)
    requires
        forall|i: int| 0 <= i < items@.len() ==> (#[trigger] items@[i] matches ListItem::Text(t) && is_plain_item(t@)),
        property_value_from(value, "list"@, display_text_spec(PropertyValue::List(items))),
    ensures
        value matches PropertyValue::List(out) && item_views(out@) == item_views(items@),
{
    reveal_strlit("checkbox");
    reveal_strlit("number");
    reveal_strlit("list");
    assert("checkbox"@.len() == 8 && "number"@.len() == 6 && "list"@.len() == 4);
    lemma_text_items_of_text_list(items@);
    let parts = text_items(items@);
    lemma_list_display_round_trip(parts);
    assert(parts.map_values(|t: Seq<char>| Some(t)) =~= item_views(items@));
}

/// For a list of text items only, the text items are the items' texts, one
/// each, and they are plain when the items are.
pub proof fn lemma_text_items_of_text_list(items: Seq<ListItem>)
    requires
        forall|i: int| 0 <= i < items.len() ==> (#[trigger] items[i] matches ListItem::Text(t) && is_plain_item(t@)),
    ensures
        text_items(items).len() == items.len(),
        forall|i: int| 0 <= i < items.len() ==> is_plain_item(#[trigger] text_items(items)[i]),
        forall|i: int| 0 <= i < items.len() ==> Some(#[trigger] text_items(items)[i]) == item_views(items)[i],
    decreases items.len(),
{
    if items.len() > 0 {
        let init = items.drop_last();
        assert forall|i: int| 0 <= i < init.len() implies (#[trigger] init[i] matches ListItem::Text(t) && is_plain_item(t@)) by {
            assert(init[i] == items[i]);
        }
        lemma_text_items_of_text_list(init);
        let last = items[items.len() - 1];
        assert(last matches ListItem::Text(t) && is_plain_item(t@));
        assert forall|i: int| 0 <= i < items.len() implies is_plain_item(#[trigger] text_items(items)[i]) && Some(
            text_items(items)[i],
        ) == item_views(items)[i] by {
            if i < items.len() - 1 {
                assert(text_items(items)[i] == text_items(init)[i]);
                assert(item_views(items)[i] == item_views(init)[i]);
            }
        }
    }
}


/// The text is "false" in any mix of ASCII case.
pub open spec fn is_false_text(s: Seq<char>) -> bool {
    &&& s.len() == 5
    &&& (s[0] == 'f' || s[0] == 'F')
    &&& (s[1] == 'a' || s[1] == 'A')
    &&& (s[2] == 'l' || s[2] == 'L')
    &&& (s[3] == 's' || s[3] == 'S')
    &&& (s[4] == 'e' || s[4] == 'E')
}

/// Whether the text is "false" in any mix of ASCII case.
fn is_false_word(s: &str) -> (yes: bool)
    ensures
        yes == is_false_text(s@),
{
    if s.unicode_len() != 5 {
        return false;
    }
    let c0 = s.get_char(0);
    let c1 = s.get_char(1);
    let c2 = s.get_char(2);
    let c3 = s.get_char(3);
    let c4 = s.get_char(4);
    (c0 == 'f' || c0 == 'F') && (c1 == 'a' || c1 == 'A') && (c2 == 'l' || c2 == 'L') && (c3 == 's' || c3 == 'S')
        && (c4 == 'e' || c4 == 'E')
}

/// The value an existing property gets when its text is edited: a number
/// when the text parses as one, a checkbox for "true" or "false" in any
/// ASCII case, else the text as typed.
pub open spec fn edited_value_from(value: PropertyValue, text: Seq<char>) -> bool {
    match parse_i64_spec(text) {
        Some(n) => value == PropertyValue::Number(n),
        None => if is_true_text(text) {
            value == PropertyValue::Bool(true)
        } else if is_false_text(text) {
            value == PropertyValue::Bool(false)
        } else {
            value matches PropertyValue::Text(t) && t@ == text
        },
    }
}

/// Types the edited text of an existing property.
pub fn edited_property_value(text: &str) -> (value: PropertyValue)
    ensures
        edited_value_from(value, text@),
{
    match parse_i64(text) {
        Some(n) => PropertyValue::Number(n),
        None => {
            if is_true_word(text) {
                PropertyValue::Bool(true)
            } else if is_false_word(text) {
                PropertyValue::Bool(false)
            } else {
                PropertyValue::Text(String::from_str(text))
            }
        },
    }
}

/// A checkbox change event carries "true" exactly when the box is ticked
/// (anything that does not parse as a boolean counts as unticked).
pub fn checkbox_event_value(text: &str) -> (checked: bool)
    ensures
        checked == (text@ == "true"@),
{
    same_text(text, "true")
}

/// The texts of a list of tags.
pub open spec fn tag_views(tags: Seq<String>) -> Seq<Seq<char>> {
    tags.map_values(|t: String| t@)
}

/// The tags after adding the trimmed `input`: appended when it is not
/// empty and not already there.
pub open spec fn tags_after_add(tags: Seq<Seq<char>>, input: Seq<char>) -> Seq<Seq<char>> {
    let tag = trim_spec(input);
    if tag.len() > 0 && !tags.contains(tag) {
        tags.push(tag)
    } else {
        tags
    }
}

/// Adds the trimmed `input` as a tag when it is not empty and not already
/// there; says whether the tags changed (and so need saving).
pub fn add_tag(tags: &mut Vec<String>, input: &str) -> (added: bool)
    ensures
        added == (trim_spec(input@).len() > 0 && !tag_views(old(tags)@).contains(trim_spec(input@))),
        tag_views(final(tags)@) == tags_after_add(tag_views(old(tags)@), input@),
        !added ==> final(tags)@ == old(tags)@,
{
    let tag = trim_text(input);
    if tag.as_str().unicode_len() == 0 {
        return false;
    }
    let mut i: usize = 0;
    while i < tags.len()
        invariant
            0 <= i <= tags.len(),
            tag@ == trim_spec(input@),
            forall|j: int| 0 <= j < i ==> tags@[j]@ != tag@,
        decreases tags.len() - i,
    {
        if tags[i] == tag {
            assert(tag_views(tags@)[i as int] == tag@);
            return false;
        }
        i = i + 1;
    }
    proof {
        if tag_views(tags@).contains(tag@) {
            let j = choose|j: int| 0 <= j < tag_views(tags@).len() && tag_views(tags@)[j] == tag@;
            assert(tags@[j]@ == tag@);
        }
    }
    let ghost before = tags@;
    tags.push(tag);
    proof {
        assert(tag_views(tags@) =~= tag_views(before).push(trim_spec(input@)));
    }
    true
}

/// Removes the tag at `index` when there is one; says whether it did.
pub fn remove_tag(tags: &mut Vec<String>, index: usize) -> (removed: bool)
    ensures
        removed == (index < old(tags)@.len()),
        removed ==> final(tags)@ == old(tags)@.remove(index as int),
        !removed ==> final(tags)@ == old(tags)@,
{
    if index < tags.len() {
        tags.remove(index);
        true
    } else {
        false
    }
}

/// Adding the same tag twice adds it once.
pub proof fn lemma_add_tag_idempotent(tags: Seq<Seq<char>>, input: Seq<char>)
    ensures
        tags_after_add(tags_after_add(tags, input), input) == tags_after_add(tags, input),
{
    let tag = trim_spec(input);
    if tag.len() > 0 && !tags.contains(tag) {
        assert(tags.push(tag)[tags.len() as int] == tag);
    }
}

/// Adding tags keeps a list of tags free of repeats.
pub proof fn lemma_add_tag_keeps_tags_distinct(tags: Seq<Seq<char>>, input: Seq<char>)
    requires
        tags.no_duplicates(),
    ensures
        tags_after_add(tags, input).no_duplicates(),
{
    let tag = trim_spec(input);
    if tag.len() > 0 && !tags.contains(tag) {
        let t1 = tags.push(tag);
        assert forall|i: int, j: int| 0 <= i < t1.len() && 0 <= j < t1.len() && i != j implies t1[i] != t1[j] by {
            if i < tags.len() && j < tags.len() {
                assert(t1[i] == tags[i] && t1[j] == tags[j]);
            } else if i < tags.len() {
                assert(t1[i] == tags[i]);
            } else if j < tags.len() {
                assert(t1[j] == tags[j]);
            }
        }
    }
}

/// Removing the last tag right after a tag was added gives back the tags
/// as they were.
pub proof fn lemma_remove_undoes_add(tags: Seq<Seq<char>>, input: Seq<char>)
    requires
        tags_after_add(tags, input).len() > tags.len(),
    ensures
        tags_after_add(tags, input).remove(tags.len() as int) == tags,
{
    assert(tags_after_add(tags, input).remove(tags.len() as int) =~= tags);
}

/// `s` spells `lower` with each letter in either case: each character is
/// the one of `lower` or the one of `upper` at the same place.
pub open spec fn spelled_in_any_case(s: Seq<char>, lower: Seq<char>, upper: Seq<char>) -> bool {
    &&& s.len() == lower.len()
    &&& forall|i: int| 0 <= i < s.len() ==> #[trigger] s[i] == lower[i] || s[i] == upper[i]
}

/// The boolean words are "true" and "false" in any mix of ASCII case, and
/// only those.
pub proof fn lemma_boolean_words_ignore_case(s: Seq<char>)
    ensures
        is_true_text(s) <==> spelled_in_any_case(s, "true"@, "TRUE"@),
        is_false_text(s) <==> spelled_in_any_case(s, "false"@, "FALSE"@),
{
    reveal_strlit("true");
    reveal_strlit("TRUE");
    reveal_strlit("false");
    reveal_strlit("FALSE");
    if spelled_in_any_case(s, "true"@, "TRUE"@) {
        assert(s[0] == "true"@[0] || s[0] == "TRUE"@[0]);
        assert(s[1] == "true"@[1] || s[1] == "TRUE"@[1]);
        assert(s[2] == "true"@[2] || s[2] == "TRUE"@[2]);
        assert(s[3] == "true"@[3] || s[3] == "TRUE"@[3]);
    }
    if spelled_in_any_case(s, "false"@, "FALSE"@) {
        assert(s[0] == "false"@[0] || s[0] == "FALSE"@[0]);
        assert(s[1] == "false"@[1] || s[1] == "FALSE"@[1]);
        assert(s[2] == "false"@[2] || s[2] == "FALSE"@[2]);
        assert(s[3] == "false"@[3] || s[3] == "FALSE"@[3]);
        assert(s[4] == "false"@[4] || s[4] == "FALSE"@[4]);
    }
    if is_true_text(s) {
        assert forall|i: int| 0 <= i < s.len() implies #[trigger] s[i] == "true"@[i] || s[i] == "TRUE"@[i] by {
            assert(i == 0 || i == 1 || i == 2 || i == 3);
        }
    }
    if is_false_text(s) {
        assert forall|i: int| 0 <= i < s.len() implies #[trigger] s[i] == "false"@[i] || s[i] == "FALSE"@[i] by {
            assert(i == 0 || i == 1 || i == 2 || i == 3 || i == 4);
        }
    }
}

/// Editing a property's text to "true" or "false", in any mix of ASCII
/// case, makes it a ticked or an unticked checkbox.
pub proof fn lemma_edited_boolean_words(s: Seq<char>, value: PropertyValue)
    requires
        edited_value_from(value, s),
    ensures
        spelled_in_any_case(s, "true"@, "TRUE"@) ==> value == PropertyValue::Bool(true),
        spelled_in_any_case(s, "false"@, "FALSE"@) ==> value == PropertyValue::Bool(false),
{
    lemma_boolean_words_ignore_case(s);
    reveal_strlit("true");
    reveal_strlit("TRUE");
    reveal_strlit("false");
    reveal_strlit("FALSE");
    if spelled_in_any_case(s, "true"@, "TRUE"@) || spelled_in_any_case(s, "false"@, "FALSE"@) {
        assert(s.len() > 0);
        assert(s[0] == 't' || s[0] == 'T' || s[0] == 'f' || s[0] == 'F') by {
            assert(s[0] == "true"@[0] || s[0] == "TRUE"@[0] || s[0] == "false"@[0] || s[0] == "FALSE"@[0]);
        }
        assert(!is_digit(s[0]));
        assert(parse_i64_spec(s) is None);
    }
}

/// A checkbox property is ticked exactly for "1" and for "true" in any mix
/// of ASCII case.
pub proof fn lemma_checkbox_ticked_words(raw: Seq<char>, value: PropertyValue)
    requires
        property_value_from(value, "checkbox"@, raw),
    ensures
        value == PropertyValue::Bool(spelled_in_any_case(raw, "true"@, "TRUE"@) || raw == "1"@),
{
    lemma_boolean_words_ignore_case(raw);
    reveal_strlit("checkbox");
    reveal_strlit("number");
    reveal_strlit("list");
    assert("checkbox"@.len() == 8 && "number"@.len() == 6 && "list"@.len() == 4);
}

} // verus!
