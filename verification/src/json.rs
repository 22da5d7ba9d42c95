//! A small generic JSON value type.
//!
//! `JsonValue` is the in-memory shape of one JSON document. Numbers are kept
//! as their literal text so that the type stays exact for every document; the
//! callers of this crate only ever read strings, objects and arrays out of
//! it. `JsonVal` is the mathematical model of a `JsonValue`, used by every
//! contract in the crate.

use vstd::prelude::*;
use vstd::string::StringExecFns;

verus! {

/// The mathematical model of a JSON document: what a `JsonValue` denotes.
pub enum JsonVal {
    Null,
    Bool(bool),
    Num(Seq<char>),
    Str(Seq<char>),
    Arr(Seq<JsonVal>),
    Obj(Seq<(Seq<char>, JsonVal)>),
}

/// One JSON document, held by value.
///
/// An object keeps its members in order as a sequence of [`JsonMember`];
/// a number keeps the literal text it was written with.
#[derive(Debug, PartialEq)]
pub enum JsonValue {
    Null,
    Bool(bool),
    Num(String),
    Str(String),
    Arr(Vec<JsonValue>),
    Obj(Vec<JsonMember>),
}

/// One `key: value` member of a JSON object.
#[derive(Debug, PartialEq)]
pub struct JsonMember {
    pub key: String,
    pub value: JsonValue,
}

impl JsonValue {
    /// The model this value denotes.
    pub open spec fn view(&self) -> JsonVal
        decreases *self, 0int,
    {
        match self {
            JsonValue::Null => JsonVal::Null,
            JsonValue::Bool(b) => JsonVal::Bool(*b),
            JsonValue::Num(n) => JsonVal::Num(n@),
            JsonValue::Str(s) => JsonVal::Str(s@),
            JsonValue::Arr(items) => JsonVal::Arr(view_arr_to(*items, items.len() as int)),
            JsonValue::Obj(members) => JsonVal::Obj(view_obj_to(*members, members.len() as int)),
        }
    }
}

/// The models of the first `n` elements of an array, in order.
pub open spec fn view_arr_to(items: Vec<JsonValue>, n: int) -> Seq<JsonVal>
    decreases items, n,
{
    if n <= 0 || items.len() < n {
        Seq::empty()
    } else {
        view_arr_to(items, n - 1).push(items[n - 1].view())
    }
}

/// The models of the first `n` members of an object, in order.
pub open spec fn view_obj_to(members: Vec<JsonMember>, n: int) -> Seq<(Seq<char>, JsonVal)>
    decreases members, n,
{
    if n <= 0 || members.len() < n {
        Seq::empty()
    } else {
        view_obj_to(members, n - 1).push((members[n - 1].key@, members[n - 1].value.view()))
    }
}

pub proof fn lemma_view_arr_to(items: Vec<JsonValue>, n: int)
    requires
        0 <= n <= items.len(),
    ensures
        view_arr_to(items, n).len() == n,
        forall|j: int| 0 <= j < n ==> view_arr_to(items, n)[j] == items[j]@,
    decreases n,
{
    if n > 0 {
        lemma_view_arr_to(items, n - 1);
    }
}

pub proof fn lemma_view_obj_to(members: Vec<JsonMember>, n: int)
    requires
        0 <= n <= members.len(),
    ensures
        view_obj_to(members, n).len() == n,
        forall|j: int| 0 <= j < n ==> view_obj_to(members, n)[j] == (
            members[j].key@,
            members[j].value@,
        ),
    decreases n,
{
    if n > 0 {
        lemma_view_obj_to(members, n - 1);
    }
}

/// The value under `key` among the members `ms`: the first member whose key
/// matches, as a JSON object with duplicate keys is read by its first match.
pub open spec fn obj_get(ms: Seq<(Seq<char>, JsonVal)>, key: Seq<char>) -> Option<JsonVal>
    decreases ms.len(),
{
    if ms.len() == 0 {
        None
    } else if ms[0].0 == key {
        Some(ms[0].1)
    } else {
        obj_get(ms.subrange(1, ms.len() as int), key)
    }
}

/// The value under `key` in `j`, if `j` is an object with such a member.
pub open spec fn json_get(j: JsonVal, key: Seq<char>) -> Option<JsonVal> {
    match j {
        JsonVal::Obj(ms) => obj_get(ms, key),
        _ => None,
    }
}

/// Skipping members whose keys all miss does not change the lookup.
pub proof fn lemma_obj_get_skip(ms: Seq<(Seq<char>, JsonVal)>, key: Seq<char>, i: int)
    requires
        0 <= i <= ms.len(),
        forall|j: int| 0 <= j < i ==> ms[j].0 != key,
    ensures
        obj_get(ms, key) == obj_get(ms.subrange(i, ms.len() as int), key),
    decreases i,
{
    if i == 0 {
        assert(ms.subrange(0, ms.len() as int) =~= ms);
    } else {
        lemma_obj_get_skip(ms, key, i - 1);
        let tail = ms.subrange(i - 1, ms.len() as int);
        assert(tail[0] == ms[i - 1]);
        assert(tail.subrange(1, tail.len() as int) =~= ms.subrange(i, ms.len() as int));
    }
}

/// The sixteen hexadecimal digit characters, lower case.
pub open spec fn spec_hex_digit(n: int) -> char {
    if n == 0 {
        '0'
    } else if n == 1 {
        '1'
    } else if n == 2 {
        '2'
    } else if n == 3 {
        '3'
    } else if n == 4 {
        '4'
    } else if n == 5 {
        '5'
    } else if n == 6 {
        '6'
    } else if n == 7 {
        '7'
    } else if n == 8 {
        '8'
    } else if n == 9 {
        '9'
    } else if n == 10 {
        'a'
    } else if n == 11 {
        'b'
    } else if n == 12 {
        'c'
    } else if n == 13 {
        'd'
    } else if n == 14 {
        'e'
    } else {
        'f'
    }
}

/// How one character appears inside a JSON string literal: quote and
/// backslash are escaped, the common control characters get their short
/// escapes, the remaining control characters a `\u00XX` escape, and every
/// other character stands for itself.
pub open spec fn spec_escape_char(c: char) -> Seq<char> {
    if c == '"' {
        seq!['\\', '"']
    } else if c == '\\' {
        seq!['\\', '\\']
    } else if c == '\n' {
        seq!['\\', 'n']
    } else if c == '\r' {
        seq!['\\', 'r']
    } else if c == '\t' {
        seq!['\\', 't']
    } else if (c as u32) < 32 {
        seq!['\\', 'u', '0', '0', spec_hex_digit((c as u32) as int / 16), spec_hex_digit(
            (c as u32) as int % 16,
        )]
    } else {
        seq![c]
    }
}

/// The body of a JSON string literal holding the characters `s`.
pub open spec fn spec_escape(s: Seq<char>) -> Seq<char>
    decreases s.len(),
{
    if s.len() == 0 {
        Seq::empty()
    } else {
        spec_escape(s.subrange(0, s.len() - 1)) + spec_escape_char(s[s.len() - 1])
    }
}

/// The text of a JSON document: each value in its canonical compact form,
/// members and items separated by single commas, no added whitespace,
/// numbers by their literal text.
pub open spec fn spec_json_text(j: JsonVal) -> Seq<char>
    decreases j, 0int, 0int,
{
    match j {
        JsonVal::Null => "null"@,
        JsonVal::Bool(b) => if b {
            "true"@
        } else {
            "false"@
        },
        JsonVal::Num(n) => n,
        JsonVal::Str(s) => seq!['"'] + spec_escape(s) + seq!['"'],
        JsonVal::Arr(items) => seq!['['] + spec_arr_body(items, items.len() as int) + seq![']'],
        JsonVal::Obj(ms) => seq!['{'] + spec_obj_body(ms, ms.len() as int) + seq!['}'],
    }
}

/// The comma-separated text of the first `n` items of an array.
pub open spec fn spec_arr_body(items: Seq<JsonVal>, n: int) -> Seq<char>
    decreases items, 1int, n,
{
    if n <= 0 || items.len() < n {
        Seq::empty()
    } else if n == 1 {
        spec_json_text(items[0])
    } else {
        spec_arr_body(items, n - 1) + seq![','] + spec_json_text(items[n - 1])
    }
}

/// The comma-separated text of the first `n` members of an object, each as
/// a quoted key, a colon and the value.
pub open spec fn spec_obj_body(ms: Seq<(Seq<char>, JsonVal)>, n: int) -> Seq<char>
    decreases ms, 1int, n,
{
    if n <= 0 || ms.len() < n {
        Seq::empty()
    } else if n == 1 {
        seq!['"'] + spec_escape(ms[0].0) + seq!['"', ':'] + spec_json_text(ms[0].1)
    } else {
        spec_obj_body(ms, n - 1) + seq![','] + seq!['"'] + spec_escape(ms[n - 1].0) + seq![
            '"',
            ':',
        ] + spec_json_text(ms[n - 1].1)
    }
}

/// Relies on `String::push`: appends exactly the one given character.
#[verifier::external_body]
fn push_char(out: &mut String, c: char)
    ensures
        final(out)@ == old(out)@ + seq![c],
{
    out.push(c);
}

/// One hexadecimal digit character, lower case.
fn hex_digit(n: u32) -> (c: char)
    requires
        n < 16,
    ensures
        c == spec_hex_digit(n as int),
{
    if n == 0 {
        '0'
    } else if n == 1 {
        '1'
    } else if n == 2 {
        '2'
    } else if n == 3 {
        '3'
    } else if n == 4 {
        '4'
    } else if n == 5 {
        '5'
    } else if n == 6 {
        '6'
    } else if n == 7 {
        '7'
    } else if n == 8 {
        '8'
    } else if n == 9 {
        '9'
    } else if n == 10 {
        'a'
    } else if n == 11 {
        'b'
    } else if n == 12 {
        'c'
    } else if n == 13 {
        'd'
    } else if n == 14 {
        'e'
    } else {
        'f'
    }
}

/// Appends to `out` the escaped form of `s`, as it appears inside a JSON
/// string literal.
fn append_escaped(out: &mut String, s: &str)
    ensures
        final(out)@ == old(out)@ + spec_escape(s@),
{
    let n = s.unicode_len();
    let mut i: usize = 0;
    while i < n
        invariant
            n == s@.len(),
            0 <= i <= n,
            out@ == old(out)@ + spec_escape(s@.subrange(0, i as int)),
        decreases n - i,
    {
        let c = s.get_char(i);
        let code = c as u32;
        if c == '"' {
            push_char(out, '\\');
            push_char(out, '"');
        } else if c == '\\' {
            push_char(out, '\\');
            push_char(out, '\\');
        } else if c == '\n' {
            push_char(out, '\\');
            push_char(out, 'n');
        } else if c == '\r' {
            push_char(out, '\\');
            push_char(out, 'r');
        } else if c == '\t' {
            push_char(out, '\\');
            push_char(out, 't');
        } else if code < 32 {
            push_char(out, '\\');
            push_char(out, 'u');
            push_char(out, '0');
            push_char(out, '0');
            push_char(out, hex_digit(code / 16));
            push_char(out, hex_digit(code % 16));
        } else {
            push_char(out, c);
        }
        proof {
            let pre = s@.subrange(0, i as int);
            let cur = s@.subrange(0, i + 1);
            assert(cur.subrange(0, cur.len() - 1) =~= pre);
            assert(cur[cur.len() - 1] == s@[i as int]);
            assert(out@ =~= old(out)@ + spec_escape(cur));
        }
        i += 1;
    }
    proof {
        assert(s@.subrange(0, n as int) =~= s@);
    }
}

/// Whether a `String` reads as the same characters as a `&str`.
pub fn string_eq_str(a: &String, b: &str) -> (r: bool)
    ensures
        r == (a@ == b@),
{
    let b2 = b.to_string();
    proof {
        vstd::string::to_string_from_display_ensures_for_str(b, b2);
    }
    *a == b2
}

impl JsonValue {
    /// The canonical compact text of this value: [`spec_json_text`] of its
    /// model.
    #[verifier::loop_isolation(false)]
    pub fn to_text(&self) -> (r: String)
        ensures
            r@ == spec_json_text(self@),
        decreases *self,
    {
        match self {
            JsonValue::Null => String::from_str("null"),
            JsonValue::Bool(b) => if *b {
                String::from_str("true")
            } else {
                String::from_str("false")
            },
            JsonValue::Num(n) => n.clone(),
            JsonValue::Str(s) => {
                let mut out = String::from_str("\"");
                append_escaped(&mut out, s.as_str());
                push_char(&mut out, '"');
                proof {
                    reveal_strlit("\"");
                    assert(out@ =~= seq!['"'] + spec_escape(s@) + seq!['"']);
                }
                out
            },
            JsonValue::Arr(items) => {
                let ghost va = view_arr_to(*items, items.len() as int);
                proof {
                    lemma_view_arr_to(*items, items.len() as int);
                    reveal_strlit("[");
                }
                let mut out = String::from_str("[");
                let mut i: usize = 0;
                while i < items.len()
                    invariant
                        va == view_arr_to(*items, items.len() as int),
                        va.len() == items.len(),
                        forall|j: int| 0 <= j < va.len() ==> va[j] == items[j]@,
                        0 <= i <= items.len(),
                        out@ == seq!['['] + spec_arr_body(va, i as int),
                    decreases items.len() - i,
                {
                    if i > 0 {
                        push_char(&mut out, ',');
                    }
                    proof {
                        assert(decreases_to!(*self => *items));
                        assert(decreases_to!(*items => items[i as int]));
                        assert(decreases_to!(*self => items[i as int]));
                    }
                    let t = items[i].to_text();
                    out.append(t.as_str());
                    proof {
                        assert(out@ =~= seq!['['] + spec_arr_body(va, i + 1));
                    }
                    i += 1;
                }
                push_char(&mut out, ']');
                proof {
                    assert(out@ =~= spec_json_text(self@));
                }
                out
            },
            JsonValue::Obj(members) => {
                let ghost mo = view_obj_to(*members, members.len() as int);
                proof {
                    lemma_view_obj_to(*members, members.len() as int);
                    reveal_strlit("{");
                }
                let mut out = String::from_str("{");
                let mut i: usize = 0;
                while i < members.len()
                    invariant
                        mo == view_obj_to(*members, members.len() as int),
                        mo.len() == members.len(),
                        forall|j: int| 0 <= j < mo.len() ==> mo[j] == (
                            members[j].key@,
                            members[j].value@,
                        ),
                        0 <= i <= members.len(),
                        out@ == seq!['{'] + spec_obj_body(mo, i as int),
                    decreases members.len() - i,
                {
                    if i > 0 {
                        push_char(&mut out, ',');
                    }
                    push_char(&mut out, '"');
                    append_escaped(&mut out, members[i].key.as_str());
                    push_char(&mut out, '"');
                    push_char(&mut out, ':');
                    proof {
                        assert(decreases_to!(*self => *members));
                        assert(decreases_to!(*members => members[i as int]));
                        assert(decreases_to!(members[i as int] => members[i as int].value));
                        assert(decreases_to!(*self => members[i as int].value));
                    }
                    let t = members[i].value.to_text();
                    out.append(t.as_str());
                    proof {
                        assert(out@ =~= seq!['{'] + spec_obj_body(mo, i + 1));
                    }
                    i += 1;
                }
                push_char(&mut out, '}');
                proof {
                    assert(out@ =~= spec_json_text(self@));
                }
                out
            },
        }
    }

    /// A value denoting the same document as this one, member for member.
    #[verifier::loop_isolation(false)]
    pub fn duplicate(&self) -> (r: JsonValue)
        ensures
            r@ == self@,
        decreases *self,
    {
        match self {
            JsonValue::Null => JsonValue::Null,
            JsonValue::Bool(b) => JsonValue::Bool(*b),
            JsonValue::Num(n) => JsonValue::Num(n.clone()),
            JsonValue::Str(s) => JsonValue::Str(s.clone()),
            JsonValue::Arr(items) => {
                proof {
                    lemma_view_arr_to(*items, items.len() as int);
                }
                let mut out: Vec<JsonValue> = Vec::new();
                let mut i: usize = 0;
                while i < items.len()
                    invariant
                        0 <= i <= items.len(),
                        out@.len() == i,
                        forall|j: int| 0 <= j < i ==> out@[j]@ == items[j]@,
                    decreases items.len() - i,
                {
                    proof {
                        assert(decreases_to!(*self => *items));
                        assert(decreases_to!(*items => items[i as int]));
                    }
                    let d = items[i].duplicate();
                    out.push(d);
                    i += 1;
                }
                proof {
                    lemma_view_arr_to(out, out.len() as int);
                    assert(view_arr_to(out, out.len() as int) =~= view_arr_to(
                        *items,
                        items.len() as int,
                    ));
                }
                JsonValue::Arr(out)
            },
            JsonValue::Obj(members) => {
                proof {
                    lemma_view_obj_to(*members, members.len() as int);
                }
                let mut out: Vec<JsonMember> = Vec::new();
                let mut i: usize = 0;
                while i < members.len()
                    invariant
                        0 <= i <= members.len(),
                        out@.len() == i,
                        forall|j: int| 0 <= j < i ==> out@[j].key@ == members[j].key@
                            && out@[j].value@ == members[j].value@,
                    decreases members.len() - i,
                {
                    proof {
                        assert(decreases_to!(*self => *members));
                        assert(decreases_to!(*members => members[i as int]));
                        assert(decreases_to!(members[i as int] => members[i as int].value));
                    }
                    let d = members[i].value.duplicate();
                    out.push(JsonMember { key: members[i].key.clone(), value: d });
                    i += 1;
                }
                proof {
                    lemma_view_obj_to(out, out.len() as int);
                    assert(view_obj_to(out, out.len() as int) =~= view_obj_to(
                        *members,
                        members.len() as int,
                    ));
                }
                JsonValue::Obj(out)
            },
        }
    }

    /// Looks up `key` in this value, when it is an object; the first member
    /// whose key matches wins.
    pub fn get<'a>(&'a self, key: &str) -> (r: Option<&'a JsonValue>)
        ensures
            match r {
                Some(v) => json_get(self@, key@) == Some(v@),
                None => json_get(self@, key@) is None,
            },
    {
        match self {
            JsonValue::Obj(members) => {
                let ghost ms = view_obj_to(*members, members.len() as int);
                proof {
                    lemma_view_obj_to(*members, members.len() as int);
                }
                let mut i: usize = 0;
                while i < members.len()
                    invariant
                        0 <= i <= members.len(),
                        ms == view_obj_to(*members, members.len() as int),
                        ms.len() == members.len(),
                        self@ == JsonVal::Obj(ms),
                        forall|j: int| 0 <= j < ms.len() ==> ms[j] == (
                            members[j].key@,
                            members[j].value@,
                        ),
                        forall|j: int| 0 <= j < i ==> ms[j].0 != key@,
                    decreases members.len() - i,
                {
                    if string_eq_str(&members[i].key, key) {
                        proof {
                            lemma_obj_get_skip(ms, key@, i as int);
                            let tail = ms.subrange(i as int, ms.len() as int);
                            assert(tail[0] == ms[i as int]);
                        }
                        return Some(&members[i].value);
                    }
                    i += 1;
                }
                proof {
                    lemma_obj_get_skip(ms, key@, ms.len() as int);
                    assert(ms.subrange(ms.len() as int, ms.len() as int) =~= Seq::<(
                        Seq<char>,
                        JsonVal,
                    )>::empty());
                }
                None
            },
            _ => None,
        }
    }
}

} // verus!
