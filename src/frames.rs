use vstd::prelude::*;

verus! {

/// A JSON document, as received in an inbound protocol frame. Numbers are
/// kept as their JSON text.
#[derive(Debug, PartialEq, Eq)]
pub enum JsonValue {
    Null,
    Bool(bool),
    Number(String),
    Str(String),
    Array(Vec<JsonValue>),
    Object(Vec<JsonMember>),
}

/// One member of a JSON object.
#[derive(Debug, PartialEq, Eq)]
pub struct JsonMember {
    pub key: String,
    pub value: JsonValue,
}

/// The value of the first member of `members` named `key`.
pub open spec fn member(members: Seq<JsonMember>, key: Seq<char>) -> Option<JsonValue>
    decreases members.len(),
{
    if members.len() == 0 {
        None
    } else if members[0].key@ == key {
        Some(members[0].value)
    } else {
        member(members.drop_first(), key)
    }
}

/// The member `key` of `v`, when `v` is an object that has one.
pub open spec fn field_of(v: JsonValue, key: Seq<char>) -> Option<JsonValue> {
    match v {
        JsonValue::Object(ms) => member(ms@, key),
        _ => None,
    }
}

/// Hexadecimal digit `d`, in lower case.
pub open spec fn hex_digit(d: nat) -> char {
    if d < 10 {
        ((d + 48) as u32) as char
    } else {
        ((d + 87) as u32) as char
    }
}

/// How character `c` is written inside a JSON string.
pub open spec fn escape_char(c: char) -> Seq<char> {
    if c == '"' {
        "\\\""@
    } else if c == '\\' {
        "\\\\"@
    } else if c == '\n' {
        "\\n"@
    } else if c == '\r' {
        "\\r"@
    } else if c == '\t' {
        "\\t"@
    } else if c == '\x08' {
        "\\b"@
    } else if c == '\x0c' {
        "\\f"@
    } else if (c as u32) < 32 {
        "\\u00"@ + seq![hex_digit((c as u32 / 16) as nat), hex_digit((c as u32 % 16) as nat)]
    } else {
        seq![c]
    }
}

/// The characters of `s`, each written as inside a JSON string.
pub open spec fn escaped(s: Seq<char>) -> Seq<char>
    decreases s.len(),
{
    if s.len() == 0 {
        Seq::empty()
    } else {
        escaped(s.drop_last()) + escape_char(s.last())
    }
}

/// `s` as a JSON string literal.
pub open spec fn quoted(s: Seq<char>) -> Seq<char> {
    "\""@ + escaped(s) + "\""@
}

/// The compact JSON text of `v`: no spaces, object members in the order held.
pub open spec fn json_text(v: JsonValue) -> Seq<char>
    decreases v, 0nat,
{
    match v {
        JsonValue::Null => "null"@,
        JsonValue::Bool(b) => if b {
            "true"@
        } else {
            "false"@
        },
        JsonValue::Number(t) => t@,
        JsonValue::Str(s) => quoted(s@),
        JsonValue::Array(items) => "["@ + items_text(items@, items@.len()) + "]"@,
        JsonValue::Object(ms) => "{"@ + members_text(ms@, ms@.len()) + "}"@,
    }
}

/// The JSON texts of the first `n` items, separated by commas.
pub open spec fn items_text(items: Seq<JsonValue>, n: nat) -> Seq<char>
    decreases items, n,
{
    if n == 0 || n > items.len() {
        Seq::empty()
    } else if n == 1 {
        json_text(items[0])
    } else {
        items_text(items, (n - 1) as nat) + ","@ + json_text(items[n - 1])
    }
}

/// The first `n` members as `"key":value`, separated by commas.
pub open spec fn members_text(ms: Seq<JsonMember>, n: nat) -> Seq<char>
    decreases ms, n,
{
    if n == 0 || n > ms.len() {
        Seq::empty()
    } else if n == 1 {
        quoted(ms[0].key@) + ":"@ + json_text(ms[0].value)
    } else {
        members_text(ms, (n - 1) as nat) + ","@ + quoted(ms[n - 1].key@) + ":"@ + json_text(
            ms[n - 1].value,
        )
    }
}

fn hex_str(d: u32) -> (r: &'static str)
    requires
        d < 16,
    ensures
        r@ == seq![hex_digit(d as nat)],
{
    match d {
        0 => {
            proof {
                reveal_strlit("0");
            }
            "0"
        },
        1 => {
            proof {
                reveal_strlit("1");
            }
            "1"
        },
        2 => {
            proof {
                reveal_strlit("2");
            }
            "2"
        },
        3 => {
            proof {
                reveal_strlit("3");
            }
            "3"
        },
        4 => {
            proof {
                reveal_strlit("4");
            }
            "4"
        },
        5 => {
            proof {
                reveal_strlit("5");
            }
            "5"
        },
        6 => {
            proof {
                reveal_strlit("6");
            }
            "6"
        },
        7 => {
            proof {
                reveal_strlit("7");
            }
            "7"
        },
        8 => {
            proof {
                reveal_strlit("8");
            }
            "8"
        },
        9 => {
            proof {
                reveal_strlit("9");
            }
            "9"
        },
        10 => {
            proof {
                reveal_strlit("a");
            }
            "a"
        },
        11 => {
            proof {
                reveal_strlit("b");
            }
            "b"
        },
        12 => {
            proof {
                reveal_strlit("c");
            }
            "c"
        },
        13 => {
            proof {
                reveal_strlit("d");
            }
            "d"
        },
        14 => {
            proof {
                reveal_strlit("e");
            }
            "e"
        },
        _ => {
            proof {
                reveal_strlit("f");
            }
            "f"
        },
    }
}

fn push_escaped(out: &mut String, s: &str)
    ensures
        final(out)@ == old(out)@ + escaped(s@),
{
    let n = s.unicode_len();
    let mut i: usize = 0;
    while i < n
        invariant
            n == s@.len(),
            i <= n,
            out@ == old(out)@ + escaped(s@.subrange(0, i as int)),
        decreases n - i,
    {
        let c = s.get_char(i);
        let ghost before = out@;
        assert(s@.subrange(0, i + 1).drop_last() =~= s@.subrange(0, i as int));
        assert(s@.subrange(0, i + 1).last() == c);
        if c == '"' {
            out.append("\\\"");
        } else if c == '\\' {
            out.append("\\\\");
        } else if c == '\n' {
            out.append("\\n");
        } else if c == '\r' {
            out.append("\\r");
        } else if c == '\t' {
            out.append("\\t");
        } else if c == '\x08' {
            out.append("\\b");
        } else if c == '\x0c' {
            out.append("\\f");
        } else if (c as u32) < 32 {
            out.append("\\u00");
            out.append(hex_str(c as u32 / 16));
            out.append(hex_str(c as u32 % 16));
            assert(out@ =~= before + escape_char(c));
        } else {
            let one = s.substring_char(i, i + 1);
            assert(one@ =~= seq![c]);
            out.append(one);
        }
        assert(out@ =~= old(out)@ + escaped(s@.subrange(0, i + 1)));
        i += 1;
    }
    assert(s@.subrange(0, n as int) =~= s@);
}

fn push_quoted(out: &mut String, s: &String)
    ensures
        final(out)@ == old(out)@ + quoted(s@),
{
    out.append("\"");
    push_escaped(out, s.as_str());
    out.append("\"");
    assert(out@ =~= old(out)@ + quoted(s@));
}

/// Appends the compact JSON text of `v` to `out`.
pub fn write_json(v: &JsonValue, out: &mut String)
    ensures
        final(out)@ == old(out)@ + json_text(*v),
    decreases *v,
{
    match v {
        JsonValue::Null => out.append("null"),
        JsonValue::Bool(b) => if *b {
            out.append("true")
        } else {
            out.append("false")
        },
        JsonValue::Number(t) => out.append(t.as_str()),
        JsonValue::Str(s) => push_quoted(out, s),
        JsonValue::Array(items) => {
            out.append("[");
            let ghost start = out@;
            let mut i: usize = 0;
            while i < items.len()
                invariant
                    i <= items.len(),
                    *v == JsonValue::Array(*items),
                    out@ == start + items_text(items@, i as nat),
                decreases items.len() - i,
            {
                if i > 0 {
                    out.append(",");
                }
                proof {
                    vstd::std_specs::vec::axiom_vec_index_decreases(*items, i as int);
                    assert(decreases_to!(*v => (*v)->Array_0));
                    assert(decreases_to!(*items => items@));
                    assert(decreases_to!(items@ => items@[i as int]));
                    assert(decreases_to!(*v => items[i as int]));
                }
                write_json(&items[i], out);
                assert(out@ =~= start + items_text(items@, (i + 1) as nat));
                i += 1;
            }
            out.append("]");
            assert(out@ =~= old(out)@ + json_text(*v));
        },
        JsonValue::Object(ms) => {
            out.append("{");
            let ghost start = out@;
            let mut i: usize = 0;
            while i < ms.len()
                invariant
                    i <= ms.len(),
                    *v == JsonValue::Object(*ms),
                    out@ == start + members_text(ms@, i as nat),
                decreases ms.len() - i,
            {
                if i > 0 {
                    out.append(",");
                }
                push_quoted(out, &ms[i].key);
                out.append(":");
                proof {
                    vstd::std_specs::vec::axiom_vec_index_decreases(*ms, i as int);
                    assert(decreases_to!(*v => (*v)->Object_0));
                    assert(decreases_to!(*ms => ms[i as int]));
                    assert(decreases_to!(ms[i as int] => ms[i as int].value));
                    assert(decreases_to!(*ms => ms@));
                    assert(decreases_to!(ms@ => ms@[i as int]));
                    assert(decreases_to!(*v => ms[i as int].value));
                }
                write_json(&ms[i].value, out);
                assert(out@ =~= start + members_text(ms@, (i + 1) as nat));
                i += 1;
            }
            out.append("}");
            assert(out@ =~= old(out)@ + json_text(*v));
        },
    }
}

/// The text shown for a polled value: a string as it is, `null` as the
/// empty text, any other value as its JSON text.
pub open spec fn value_text(v: JsonValue) -> Seq<char> {
    match v {
        JsonValue::Null => Seq::empty(),
        JsonValue::Str(s) => s@,
        _ => json_text(v),
    }
}

/// The polled value carried by a result frame `{"result": {"result": {"value": v}}}`:
/// an absent value is the empty text; a frame of another shape carries none.
pub open spec fn poll_value_of(frame: JsonValue) -> Option<Seq<char>> {
    match field_of(frame, "result"@) {
        Some(outer) => match field_of(outer, "result"@) {
            Some(inner) => if inner is Object {
                match field_of(inner, "value"@) {
                    None => Some(Seq::empty()),
                    Some(v) => Some(value_text(v)),
                }
            } else {
                None
            },
            None => None,
        },
        None => None,
    }
}

fn find_member<'a>(members: &'a Vec<JsonMember>, key: &String) -> (r: Option<&'a JsonValue>)
    ensures
        member(members@, key@) == match r {
            Some(v) => Some(*v),
            None => None::<JsonValue>,
        },
{
    let mut i: usize = 0;
    assert(members@.subrange(0, members@.len() as int) == members@);
    while i < members.len()
        invariant
            i <= members.len(),
            member(members@, key@) == member(members@.subrange(i as int, members@.len() as int), key@),
        decreases members.len() - i,
    {
        let ghost rest = members@.subrange(i as int, members@.len() as int);
        assert(rest.drop_first() =~= members@.subrange(i + 1, members@.len() as int));
        assert(rest[0] == members@[i as int]);
        if members[i].key == *key {
            return Some(&members[i].value);
        }
        i += 1;
    }
    None
}

fn field<'a>(v: &'a JsonValue, key: &String) -> (r: Option<&'a JsonValue>)
    ensures
        field_of(*v, key@) == match r {
            Some(x) => Some(*x),
            None => None::<JsonValue>,
        },
{
    match v {
        JsonValue::Object(ms) => find_member(ms, key),
        _ => None,
    }
}

fn text_of(v: &JsonValue) -> (r: String)
    ensures
        r@ == value_text(*v),
{
    match v {
        JsonValue::Null => String::new(),
        JsonValue::Str(s) => s.clone(),
        _ => {
            let mut out = String::new();
            write_json(v, &mut out);
            assert(out@ =~= json_text(*v));
            out
        },
    }
}

/// The polled value of a result frame, as text; `None` for a frame of
/// another shape, which is logged as it came.
pub fn poll_value(frame: &JsonValue) -> (r: Option<String>)
    ensures
        poll_value_of(*frame) == match r {
            Some(s) => Some(s@),
            None => None::<Seq<char>>,
        },
{
    let result_key = String::from_str("result");
    let value_key = String::from_str("value");
    match field(frame, &result_key) {
        Some(outer) => match field(outer, &result_key) {
            Some(inner) => match inner {
                JsonValue::Object(_) => match field(inner, &value_key) {
                    None => Some(String::new()),
                    Some(v) => Some(text_of(v)),
                },
                _ => None,
            },
            None => None,
        },
        None => None,
    }
}

/// A result frame whose inner result has no `value` member decodes to the
/// empty text, not to a failure.
pub proof fn lemma_absent_value_is_empty(frame: JsonValue, outer: JsonValue, inner: JsonValue)
    requires
        field_of(frame, "result"@) == Some(outer),
        field_of(outer, "result"@) == Some(inner),
        inner is Object,
        field_of(inner, "value"@) is None,
    ensures
        poll_value_of(frame) == Some(Seq::<char>::empty()),
{
}

} // verus!
