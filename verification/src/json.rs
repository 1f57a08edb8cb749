//! JSON values, built and written out by `serde_json`.

use crate::text;
use vstd::prelude::*;

verus! {

/// `serde_json::Value`, of which only `value_text` is known.
#[verifier::external_type_specification]
#[verifier::external_body]
pub struct ExValue(serde_json::Value);

/// `serde_json::Map`, of which only `members` is known.
#[verifier::external_type_specification]
#[verifier::external_body]
#[verifier::reject_recursive_types(K)]
#[verifier::reject_recursive_types(V)]
pub struct ExMap<K, V>(serde_json::Map<K, V>);

/// The compact text of a JSON value, which `serde_json` writes out for it.
pub uninterp spec fn value_text(value: serde_json::Value) -> Seq<char>;

/// The members that a `serde_json` object holds, in the order in which they
/// are written out: each name with the compact text of its value.
pub uninterp spec fn members(
    object: serde_json::Map<String, serde_json::Value>,
) -> Seq<(Seq<char>, Seq<char>)>;

/// A hexadecimal digit, in lower case.
pub open spec fn hex_digit(d: int) -> char {
    if d < 10 {
        (('0' as int) + d) as char
    } else {
        (('a' as int) + d - 10) as char
    }
}

/// How one character stands in a JSON string.
pub open spec fn escaped_char(c: char) -> Seq<char> {
    let code = c as int;
    if c == '"' || c == '\\' {
        seq!['\\', c]
    } else if code == 0x8 {
        seq!['\\', 'b']
    } else if code == 0x9 {
        seq!['\\', 't']
    } else if code == 0xa {
        seq!['\\', 'n']
    } else if code == 0xc {
        seq!['\\', 'f']
    } else if code == 0xd {
        seq!['\\', 'r']
    } else if code < 0x20 {
        seq!['\\', 'u', '0', '0', hex_digit(code / 16), hex_digit(code % 16)]
    } else {
        seq![c]
    }
}

/// How a text stands between the quotes of a JSON string.
pub open spec fn escaped(s: Seq<char>) -> Seq<char>
    decreases s.len(),
{
    if s.len() == 0 {
        Seq::empty()
    } else {
        escaped(s.drop_last()) + escaped_char(s.last())
    }
}

/// A JSON string.
pub open spec fn quoted(s: Seq<char>) -> Seq<char> {
    seq!['"'] + escaped(s) + seq!['"']
}

/// The order of strings, by the first character in which they differ.
pub open spec fn sorts_before(a: Seq<char>, b: Seq<char>) -> bool
    decreases b.len(),
{
    if b.len() == 0 {
        false
    } else if a.len() == 0 {
        true
    } else if a.first() != b.first() {
        (a.first() as int) < (b.first() as int)
    } else {
        sorts_before(a.drop_first(), b.drop_first())
    }
}

/// Members sorted by name, with one of them set.
pub open spec fn with_member(
    sorted: Seq<(Seq<char>, Seq<char>)>,
    name: Seq<char>,
    text: Seq<char>,
) -> Seq<(Seq<char>, Seq<char>)>
    decreases sorted.len(),
{
    if sorted.len() == 0 || sorts_before(sorted.last().0, name) {
        sorted.push((name, text))
    } else if sorted.last().0 == name {
        sorted.drop_last().push((name, text))
    } else {
        with_member(sorted.drop_last(), name, text).push(sorted.last())
    }
}

/// A member of a JSON object, written out.
pub open spec fn member_text(member: (Seq<char>, Seq<char>)) -> Seq<char> {
    quoted(member.0).push(':') + member.1
}

/// A JSON object, written out.
pub open spec fn object_text(members: Seq<(Seq<char>, Seq<char>)>) -> Seq<char> {
    seq!['{'] + text::joined(
        members.map_values(|member: (Seq<char>, Seq<char>)| member_text(member)),
        ',',
    ) + seq!['}']
}

/// A JSON array, written out.
pub open spec fn array_text(items: Seq<Seq<char>>) -> Seq<char> {
    seq!['['] + text::joined(items, ',') + seq![']']
}

/// `serde_json::Value::String`: a JSON string, which is written out between
/// quotes, with quotes, backslashes and control characters escaped.
#[verifier::external_body]
pub(crate) fn json_string(s: &str) -> (value: serde_json::Value)
    ensures
        value_text(value) == quoted(s@),
{
    serde_json::Value::String(s.to_owned())
}

/// `<serde_json::Value as From<u32>>::from`: a JSON number, which is written
/// out in decimal.
#[verifier::external_body]
pub(crate) fn json_number(n: u32) -> (value: serde_json::Value)
    ensures
        value_text(value) == text::decimal(n as nat),
{
    serde_json::Value::from(n)
}

/// `serde_json::Map::new`: an object without members.
#[verifier::external_body]
pub(crate) fn json_members() -> (object: serde_json::Map<String, serde_json::Value>)
    ensures
        members(object) == Seq::<(Seq<char>, Seq<char>)>::empty(),
{
    serde_json::Map::new()
}

/// `serde_json::Map::insert`: sets a member of an object, whose members are
/// kept sorted by name, as the map is a `BTreeMap` unless the crate's feature
/// `preserve_order` is on. What the map gives back of an earlier value is let
/// go.
#[verifier::external_body]
pub(crate) fn set_json_member(
    object: &mut serde_json::Map<String, serde_json::Value>,
    name: &str,
    value: serde_json::Value,
)
    ensures
        members(*final(object)) == with_member(members(*old(object)), name@, value_text(value)),
{
    object.insert(name.to_owned(), value);
}

/// `serde_json::Value::Object`: a JSON object, which is written out as its
/// members in order, between braces and with commas between them.
#[verifier::external_body]
pub(crate) fn json_object(
    object: serde_json::Map<String, serde_json::Value>,
) -> (value: serde_json::Value)
    ensures
        value_text(value) == object_text(members(object)),
{
    serde_json::Value::Object(object)
}

/// `serde_json::Value::Array`: a JSON array, which is written out as its items
/// in order, between brackets and with commas between them.
#[verifier::external_body]
pub(crate) fn json_array(items: Vec<serde_json::Value>) -> (value: serde_json::Value)
    ensures
        value_text(value) == array_text(
            items@.map_values(|item: serde_json::Value| value_text(item)),
        ),
{
    serde_json::Value::Array(items)
}

/// `<serde_json::Value as ToString>::to_string`: writes a value out compactly.
#[verifier::external_body]
pub(crate) fn json_text(value: &serde_json::Value) -> (text: String)
    ensures
        text@ == value_text(*value),
{
    value.to_string()
}

/// Text is escaped character by character.
pub proof fn law_escaping_splits(first: Seq<char>, second: Seq<char>)
    ensures
        escaped(first + second) == escaped(first) + escaped(second),
    decreases second.len(),
{
    if second.len() == 0 {
        assert(first + second =~= first);
        assert(escaped(second) =~= Seq::empty());
        assert(escaped(first) + escaped(second) =~= escaped(first));
    } else {
        law_escaping_splits(first, second.drop_last());
        assert((first + second).drop_last() =~= first + second.drop_last());
        assert(escaped(first + second) =~= escaped(first) + escaped(second));
    }
}

/// A character that is neither a quote, a backslash nor a control character
/// stands for itself. Quotes and backslashes stand behind a backslash. Control
/// characters stand behind a backslash as their letter, or as `u` and their
/// number in four hexadecimal digits.
pub proof fn law_one_character_escaped(c: char)
    ensures
        c as int >= 0x20 && c != '"' && c != '\\' ==> escaped(seq![c]) == seq![c],
        c == '"' || c == '\\' ==> escaped(seq![c]) == seq!['\\', c],
        c as int == 0x8 ==> escaped(seq![c]) == seq!['\\', 'b'],
        c as int == 0x9 ==> escaped(seq![c]) == seq!['\\', 't'],
        c as int == 0xa ==> escaped(seq![c]) == seq!['\\', 'n'],
        c as int == 0xc ==> escaped(seq![c]) == seq!['\\', 'f'],
        c as int == 0xd ==> escaped(seq![c]) == seq!['\\', 'r'],
        (c as int) < 0x20 && !(0x8 <= c as int <= 0xd && c as int != 0xb) ==> {
            let out = escaped(seq![c]);
            &&& out.len() == 6
            &&& out.take(4) == seq!['\\', 'u', '0', '0']
            &&& out[4] as int == 0x30 + c as int / 16
            &&& c as int % 16 < 10 ==> out[5] as int == 0x30 + c as int % 16
            &&& c as int % 16 >= 10 ==> out[5] as int == 0x61 + c as int % 16 - 10
        },
{
    let one = seq![c];
    assert(one.drop_last() =~= Seq::empty());
    assert(escaped(Seq::empty()) =~= Seq::empty());
    assert(escaped(one) =~= escaped_char(c));
    if (c as int) < 0x20 {
        assert(escaped_char(c).len() == 6 ==> escaped_char(c).take(4) =~= seq![
            '\\',
            'u',
            '0',
            '0',
        ]);
    }
}

/// Text of plain characters is left as it is.
pub(crate) proof fn lemma_escaped_plain(s: Seq<char>)
    requires
        forall|i: int|
            0 <= i < s.len() ==> (#[trigger] s[i]) as int >= 0x20 && s[i] != '"' && s[i] != '\\',
    ensures
        escaped(s) == s,
    decreases s.len(),
{
    if s.len() > 0 {
        assert(s[s.len() - 1] == s.last());
        lemma_escaped_plain(s.drop_last());
        assert(escaped(s) =~= s);
    }
}

proof fn lemma_escaped_char_lacks_nul(c: char)
    ensures
        text::lacks_nul(escaped_char(c)),
{
    let code = c as int;
    if code < 0x20 {
        assert(hex_digit(code / 16) != '\0');
        assert(hex_digit(code % 16) != '\0');
    }
}

/// No JSON string holds a NUL.
pub(crate) proof fn lemma_quoted_lacks_nul(s: Seq<char>)
    ensures
        text::lacks_nul(escaped(s)),
        text::lacks_nul(quoted(s)),
    decreases s.len(),
{
    if s.len() > 0 {
        lemma_quoted_lacks_nul(s.drop_last());
        lemma_escaped_char_lacks_nul(s.last());
    }
}

} // verus!
