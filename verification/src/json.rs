//! JSON documents as the runtime reads and writes them.
//!
//! Parsing goes through `serde_json`. A parsed document keeps its top-level
//! node decoded (scalars as plain values, members and items as their own
//! compact JSON text) together with the compact text of the whole value, so
//! the rest of the library works on plain strings.
use vstd::prelude::*;
use crate::text::{string_of, chars_of, text_eq};

verus! {

#[verifier::external_type_specification]
#[verifier::external_body]
pub struct ExJsonError(serde_json::Error);

/// Top level of a parsed JSON value. Numbers keep `serde_json`'s own text for
/// them; array items and object members keep their compact JSON text.
pub enum JsonNode {
    Null,
    Bool(bool),
    Number(String),
    Str(String),
    Array(Vec<String>),
    Object(Vec<(String, String)>),
}

/// Mathematical view of a [`JsonNode`].
pub enum JsonNodeV {
    Null,
    Bool(bool),
    Number(Seq<char>),
    Str(Seq<char>),
    Array(Seq<Seq<char>>),
    Object(Seq<(Seq<char>, Seq<char>)>),
}

/// A parsed JSON text: its top-level node and the compact text of the whole value.
pub struct JsonDoc {
    pub node: JsonNode,
    pub text: String,
}

pub struct JsonDocV {
    pub node: JsonNodeV,
    pub text: Seq<char>,
}

impl View for JsonNode {
    type V = JsonNodeV;

    open spec fn view(&self) -> JsonNodeV {
        match self {
            JsonNode::Null => JsonNodeV::Null,
            JsonNode::Bool(b) => JsonNodeV::Bool(*b),
            JsonNode::Number(n) => JsonNodeV::Number(n@),
            JsonNode::Str(s) => JsonNodeV::Str(s@),
            JsonNode::Array(items) => JsonNodeV::Array(items@.map_values(|t: String| t@)),
            JsonNode::Object(ms) => JsonNodeV::Object(
                ms@.map_values(|m: (String, String)| (m.0@, m.1@)),
            ),
        }
    }
}

impl View for JsonDoc {
    type V = JsonDocV;

    open spec fn view(&self) -> JsonDocV {
        JsonDocV { node: self.node@, text: self.text@ }
    }
}

/// What `serde_json::from_str::<serde_json::Value>` makes of a text, seen through
/// [`JsonDocV`]; `None` when the text is not JSON.
pub uninterp spec fn json_parse(text: Seq<char>) -> Option<JsonDocV>;

/// Lowercase hexadecimal digit of `n` (below 16).
pub open spec fn hex_digit(n: u32) -> char {
    if n < 10 {
        (('0' as u32) + n) as char
    } else {
        (('a' as u32) + n - 10) as char
    }
}

/// How `serde_json` writes one character inside a string: `"` and `\` and
/// the control characters with a short escape get it, other characters
/// below U+0020 become `\u00xx` (lowercase hex), the rest stay as they are.
pub open spec fn json_char_escape(c: char) -> Seq<char> {
    let u = c as u32;
    if c == '"' {
        seq!['\\', '"']
    } else if c == '\\' {
        seq!['\\', '\\']
    } else if u == 0x08 {
        seq!['\\', 'b']
    } else if u == 0x09 {
        seq!['\\', 't']
    } else if u == 0x0a {
        seq!['\\', 'n']
    } else if u == 0x0c {
        seq!['\\', 'f']
    } else if u == 0x0d {
        seq!['\\', 'r']
    } else if u < 0x20 {
        seq!['\\', 'u', '0', '0', hex_digit(u / 16), hex_digit(u % 16)]
    } else {
        seq![c]
    }
}

/// The characters of `s`, each escaped as `serde_json` writes it.
pub open spec fn json_escaped(s: Seq<char>) -> Seq<char>
    decreases s.len(),
{
    if s.len() == 0 {
        Seq::empty()
    } else {
        json_escaped(s.drop_last()) + json_char_escape(s.last())
    }
}

/// What `serde_json` writes for a JSON string holding `s`: the escaped
/// characters between double quotes.
pub open spec fn json_quoted(s: Seq<char>) -> Seq<char> {
    seq!['"'] + json_escaped(s) + seq!['"']
}

/// Calls `serde_json::from_str::<serde_json::Value>` and converts the value's top
/// level, member by member, with `Value`'s `Display` (compact JSON text).
/// Claims only that the outcome is `json_parse` of the text.
#[verifier::external_body]
pub(crate) fn parse_json(text: &str) -> (r: Result<JsonDoc, serde_json::Error>)
    ensures
        match r {
            Ok(d) => json_parse(text@) == Some(d@),
            Err(_) => json_parse(text@) is None,
        },
{
    serde_json::from_str::<serde_json::Value>(text).map(|v| JsonDoc {
        text: v.to_string(),
        node: match v {
            serde_json::Value::Null => JsonNode::Null,
            serde_json::Value::Bool(b) => JsonNode::Bool(b),
            serde_json::Value::Number(n) => JsonNode::Number(n.to_string()),
            serde_json::Value::String(s) => JsonNode::Str(s),
            serde_json::Value::Array(a) => JsonNode::Array(a.iter().map(|x| x.to_string()).collect()),
            serde_json::Value::Object(m) => JsonNode::Object(m.iter().map(|(k, x)| (k.clone(), x.to_string())).collect()),
        },
    })
}

/// The message `serde_json::Error`'s `Display` gives. Nothing is claimed of it.
#[verifier::external_body]
pub(crate) fn json_error_text(e: &serde_json::Error) -> String {
    e.to_string()
}

/// First member named `key` in `ms`.
pub open spec fn lookup(ms: Seq<(Seq<char>, Seq<char>)>, key: Seq<char>) -> Option<Seq<char>>
    decreases ms.len(),
{
    if ms.len() == 0 {
        None
    } else if ms[0].0 == key {
        Some(ms[0].1)
    } else {
        lookup(ms.drop_first(), key)
    }
}

/// The text of member `key` of a document that is an object (`Value::get`).
pub open spec fn doc_member(d: JsonDocV, key: Seq<char>) -> Option<Seq<char>> {
    match d.node {
        JsonNodeV::Object(ms) => lookup(ms, key),
        _ => None,
    }
}

/// The string a JSON text holds, when it holds one (`Value::as_str`).
pub open spec fn text_as_str(t: Seq<char>) -> Option<Seq<char>> {
    match json_parse(t) {
        Some(d) => match d.node {
            JsonNodeV::Str(s) => Some(s),
            _ => None,
        },
        None => None,
    }
}

/// The number text a JSON text holds, when it holds a number.
pub open spec fn text_as_number(t: Seq<char>) -> Option<Seq<char>> {
    match json_parse(t) {
        Some(d) => match d.node {
            JsonNodeV::Number(n) => Some(n),
            _ => None,
        },
        None => None,
    }
}

/// The string member `key` of `d` holds (`value.get(key).and_then(as_str)`).
pub open spec fn member_str(d: JsonDocV, key: Seq<char>) -> Option<Seq<char>> {
    match doc_member(d, key) {
        Some(t) => text_as_str(t),
        None => None,
    }
}

/// The number member `key` of `d` holds.
pub open spec fn member_number(d: JsonDocV, key: Seq<char>) -> Option<Seq<char>> {
    match doc_member(d, key) {
        Some(t) => text_as_number(t),
        None => None,
    }
}

/// Decimal value of a digit text.
pub open spec fn digits_value(s: Seq<char>) -> nat
    decreases s.len(),
{
    if s.len() == 0 {
        0
    } else {
        digits_value(s.drop_last()) * 10 + ((s.last() as u32) - ('0' as u32)) as nat
    }
}

pub open spec fn all_digits(s: Seq<char>) -> bool {
    forall|i: int| 0 <= i < s.len() ==> '0' <= #[trigger] s[i] <= '9'
}

/// The unsigned integer a number text denotes (`Number::as_u64`): digits only and
/// within `u64`; a negative or fractional number, written by `serde_json` with a
/// sign, a point or an exponent, has none.
pub open spec fn number_u64(t: Seq<char>) -> Option<u64> {
    if t.len() > 0 && all_digits(t) && digits_value(t) <= u64::MAX {
        Some(digits_value(t) as u64)
    } else {
        None
    }
}

impl JsonDoc {
    /// Text of member `key`, when this document is an object that has it.
    pub fn member(&self, key: &str) -> (r: Option<String>)
        ensures
            match r {
                Some(t) => doc_member(self@, key@) == Some(t@),
                None => doc_member(self@, key@) is None,
            },
    {
        match &self.node {
            JsonNode::Object(ms) => {
                let mut i: usize = 0;
                let ghost mv = ms@.map_values(|m: (String, String)| (m.0@, m.1@));
                assert(mv.skip(0) =~= mv);
                while i < ms.len()
                    invariant
                        i <= ms@.len(),
                        mv == ms@.map_values(|m: (String, String)| (m.0@, m.1@)),
                        self@.node == JsonNodeV::Object(mv),
                        lookup(mv, key@) == lookup(mv.skip(i as int), key@),
                    decreases ms@.len() - i,
                {
                    proof {
                        assert(mv.skip(i as int).drop_first() =~= mv.skip(i + 1));
                        assert(mv.skip(i as int)[0] == mv[i as int]);
                    }
                    if text_eq(ms[i].0.as_str(), key) {
                        assert(mv[i as int] == (ms@[i as int].0@, ms@[i as int].1@));
                        return Some(ms[i].1.clone());
                    }
                    i = i + 1;
                }
                None
            },
            _ => None,
        }
    }
}

/// The string a JSON text holds, when it holds one.
pub fn str_of_text(t: &str) -> (r: Option<String>)
    ensures
        match r {
            Some(s) => text_as_str(t@) == Some(s@),
            None => text_as_str(t@) is None,
        },
{
    match parse_json(t) {
        Ok(d) => match d.node {
            JsonNode::Str(s) => Some(s),
            _ => None,
        },
        Err(_) => None,
    }
}

/// The number text a JSON text holds, when it holds a number.
pub fn number_of_text(t: &str) -> (r: Option<String>)
    ensures
        match r {
            Some(s) => text_as_number(t@) == Some(s@),
            None => text_as_number(t@) is None,
        },
{
    match parse_json(t) {
        Ok(d) => match d.node {
            JsonNode::Number(s) => Some(s),
            _ => None,
        },
        Err(_) => None,
    }
}

/// String member `key` of `d`.
pub fn get_str(d: &JsonDoc, key: &str) -> (r: Option<String>)
    ensures
        match r {
            Some(s) => member_str(d@, key@) == Some(s@),
            None => member_str(d@, key@) is None,
        },
{
    match d.member(key) {
        Some(t) => str_of_text(t.as_str()),
        None => None,
    }
}

/// Number member `key` of `d`, as its number text.
pub fn get_number(d: &JsonDoc, key: &str) -> (r: Option<String>)
    ensures
        match r {
            Some(s) => member_number(d@, key@) == Some(s@),
            None => member_number(d@, key@) is None,
        },
{
    match d.member(key) {
        Some(t) => number_of_text(t.as_str()),
        None => None,
    }
}

/// The unsigned integer a number text denotes, if any.
pub fn number_as_u64(t: &str) -> (r: Option<u64>)
    ensures
        r == number_u64(t@),
{
    let x = chars_of(t);
    if x.len() == 0 {
        return None;
    }
    let mut acc: u64 = 0;
    let mut i: usize = 0;
    while i < x.len()
        invariant
            x@ == t@,
            i <= x@.len(),
            all_digits(x@.take(i as int)),
            acc as nat == digits_value(x@.take(i as int)),
        decreases x@.len() - i,
    {
        let c = x[i];
        proof {
            assert(x@.take(i + 1).drop_last() =~= x@.take(i as int));
        }
        if c < '0' || c > '9' {
            assert(!all_digits(t@)) by {
                assert(t@[i as int] == c);
            }
            return None;
        }
        let d = (c as u32 - '0' as u32) as u64;
        if acc > (u64::MAX - d) / 10 {
            proof {
                assert(x@.take(i + 1).last() == c);
                assert(digits_value(x@.take(i + 1)) == acc * 10 + d);
                assert(acc * 10 + d > u64::MAX) by (nonlinear_arith)
                    requires acc > (u64::MAX - d) / 10, d <= 9;
                if all_digits(t@) {
                    assert(x@.take(x@.len() as int) =~= x@);
                    lemma_digits_value_prefix_le(x@, x@.len() as int);
                    assert(digits_value(x@.take(i + 1)) <= digits_value(t@));
                }
            }
            return None;
        }
        acc = acc * 10 + d;
        i = i + 1;
        proof {
            assert forall|k: int| 0 <= k < i implies '0' <= #[trigger] x@.take(i as int)[k] <= '9' by {
                if k < i - 1 {
                    assert(x@.take(i as int)[k] == x@.take(i - 1)[k]);
                }
            }
        }
    }
    assert(x@.take(x@.len() as int) =~= x@);
    Some(acc)
}

/// A digit text's value never shrinks as digits are appended.
pub proof fn lemma_digits_value_prefix_le(s: Seq<char>, j: int)
    requires
        0 <= j <= s.len(),
        all_digits(s.take(j)),
    ensures
        forall|k: int| 0 <= k <= j ==> digits_value(#[trigger] s.take(k)) <= digits_value(s.take(j)),
    decreases j,
{
    if j > 0 {
        assert(s.take(j).drop_last() =~= s.take(j - 1));
        assert(all_digits(s.take(j - 1))) by {
            assert forall|i: int| 0 <= i < j - 1 implies '0' <= #[trigger] s.take(j - 1)[i] <= '9' by {
                assert(s.take(j - 1)[i] == s.take(j)[i]);
            }
        }
        assert('0' <= s.take(j)[j - 1] <= '9');
        lemma_digits_value_prefix_le(s, j - 1);
    }
}

/// Lowercase hexadecimal digit of `n`.
fn hex_char(n: u32) -> (r: char)
    requires
        n < 16,
    ensures
        r == hex_digit(n),
{
    let digits = ['0', '1', '2', '3', '4', '5', '6', '7', '8', '9', 'a', 'b', 'c', 'd', 'e', 'f'];
    proof {
        assert(digits@ =~= seq!['0', '1', '2', '3', '4', '5', '6', '7', '8', '9', 'a', 'b', 'c', 'd', 'e', 'f']);
    }
    let r = digits[n as usize];
    assert(r == hex_digit(n)) by {
        assert(('0' as u32) == 48 && ('a' as u32) == 97);
        assert(r as u32 == if n < 10 { 48 + n } else { 97 + n - 10 });
    }
    r
}

/// Appends the escape of `c` inside a JSON string to `out`.
fn push_escaped_char(out: &mut String, c: char)
    ensures
        final(out)@ == old(out)@ + json_char_escape(c),
{
    let u = c as u32;
    let ghost start = out@;
    if c == '"' {
        out.push('\\');
        out.push('"');
    } else if c == '\\' {
        out.push('\\');
        out.push('\\');
    } else if u == 0x08 {
        out.push('\\');
        out.push('b');
    } else if u == 0x09 {
        out.push('\\');
        out.push('t');
    } else if u == 0x0a {
        out.push('\\');
        out.push('n');
    } else if u == 0x0c {
        out.push('\\');
        out.push('f');
    } else if u == 0x0d {
        out.push('\\');
        out.push('r');
    } else if u < 0x20 {
        out.push('\\');
        out.push('u');
        out.push('0');
        out.push('0');
        out.push(hex_char(u / 16));
        out.push(hex_char(u % 16));
    } else {
        out.push(c);
    }
    assert(out@ =~= start + json_char_escape(c));
}

/// Appends `s` as a JSON string literal to `out`, escaped as `serde_json`
/// writes it.
fn push_quoted(out: &mut String, s: &str)
    ensures
        final(out)@ == old(out)@ + json_quoted(s@),
{
    let cs = chars_of(s);
    let ghost start = out@;
    out.push('"');
    let mut i: usize = 0;
    while i < cs.len()
        invariant
            i <= cs@.len(),
            cs@ == s@,
            out@ == start + seq!['"'] + json_escaped(cs@.take(i as int)),
        decreases cs@.len() - i,
    {
        push_escaped_char(out, cs[i]);
        proof {
            assert(cs@.take(i + 1).drop_last() =~= cs@.take(i as int));
            assert(cs@.take(i + 1).last() == cs@[i as int]);
        }
        i = i + 1;
    }
    out.push('"');
    assert(cs@.take(cs@.len() as int) =~= cs@);
    assert(out@ =~= start + json_quoted(s@));
}

/// Compact JSON text of an object whose members, in this order, are the given
/// keys and member texts.
pub open spec fn object_text(ms: Seq<(Seq<char>, Seq<char>)>) -> Seq<char> {
    seq!['{'] + members_text(ms) + seq!['}']
}

pub open spec fn members_text(ms: Seq<(Seq<char>, Seq<char>)>) -> Seq<char>
    decreases ms.len(),
{
    if ms.len() == 0 {
        Seq::empty()
    } else if ms.len() == 1 {
        json_quoted(ms[0].0) + seq![':'] + ms[0].1
    } else {
        members_text(ms.drop_last()) + seq![','] + json_quoted(ms.last().0) + seq![':'] + ms.last().1
    }
}

/// Compact JSON text of an array whose items, in this order, have the given texts.
pub open spec fn array_text(items: Seq<Seq<char>>) -> Seq<char> {
    seq!['['] + items_text(items) + seq![']']
}

pub open spec fn items_text(items: Seq<Seq<char>>) -> Seq<char>
    decreases items.len(),
{
    if items.len() == 0 {
        Seq::empty()
    } else if items.len() == 1 {
        items[0]
    } else {
        items_text(items.drop_last()) + seq![','] + items.last()
    }
}

/// JSON text of an object with the given members, keys in the given order.
pub fn object_json(ms: &Vec<(String, String)>) -> (r: String)
    ensures
        r@ == object_text(ms@.map_values(|m: (String, String)| (m.0@, m.1@))),
{
    let ghost mv = ms@.map_values(|m: (String, String)| (m.0@, m.1@));
    let mut out = String::new();
    out.push('{');
    let mut i: usize = 0;
    while i < ms.len()
        invariant
            i <= ms@.len(),
            mv == ms@.map_values(|m: (String, String)| (m.0@, m.1@)),
            out@ == seq!['{'] + members_text(mv.take(i as int)),
        decreases ms@.len() - i,
    {
        proof {
            assert(mv.take(i + 1).drop_last() =~= mv.take(i as int));
            assert(mv.take(i + 1).last() == mv[i as int]);
        }
        if i > 0 {
            out.push(',');
        }
        push_quoted(&mut out, ms[i].0.as_str());
        out.push(':');
        out.append(ms[i].1.as_str());
        i = i + 1;
        proof {
            if i == 1 {
                assert(mv.take(0) =~= Seq::<(Seq<char>, Seq<char>)>::empty());
            }
            assert(out@ =~= seq!['{'] + members_text(mv.take(i as int)));
        }
    }
    out.push('}');
    assert(mv.take(ms@.len() as int) =~= mv);
    assert(out@ =~= object_text(mv));
    out
}

/// JSON text of an array with the given item texts, in order.
pub fn array_json(items: &Vec<String>) -> (r: String)
    ensures
        r@ == array_text(items@.map_values(|t: String| t@)),
{
    let ghost iv = items@.map_values(|t: String| t@);
    let mut out = String::new();
    out.push('[');
    let mut i: usize = 0;
    while i < items.len()
        invariant
            i <= items@.len(),
            iv == items@.map_values(|t: String| t@),
            out@ == seq!['['] + items_text(iv.take(i as int)),
        decreases items@.len() - i,
    {
        proof {
            assert(iv.take(i + 1).drop_last() =~= iv.take(i as int));
            assert(iv.take(i + 1).last() == iv[i as int]);
        }
        if i > 0 {
            out.push(',');
        }
        out.append(items[i].as_str());
        i = i + 1;
        proof {
            if i == 1 {
                assert(iv.take(0) =~= Seq::<Seq<char>>::empty());
            }
            assert(out@ =~= seq!['['] + items_text(iv.take(i as int)));
        }
    }
    out.push(']');
    assert(iv.take(items@.len() as int) =~= iv);
    assert(out@ =~= array_text(iv));
    out
}

/// JSON string literal holding `s`.
pub fn quoted_json(s: &str) -> (r: String)
    ensures
        r@ == json_quoted(s@),
{
    let mut out = String::new();
    push_quoted(&mut out, s);
    out
}

} // verus!
