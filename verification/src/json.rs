//! A structured JSON value, its mathematical model, and a verified
//! serializer and parser.
//!
//! The wire protocol exchanges whole JSON texts, so the library carries its
//! own value type and does its own framing. Numbers are modelled as 64-bit
//! integers: a numeric token with a fraction or an exponent, or one outside
//! the signed 64-bit range, is rejected as unparseable.
use vstd::prelude::*;
use crate::text::{
    all_digits, chars_to_string, dec_int, digit_val, digits_val, is_digit,
    lemma_digits_val_prefix_le, push_dec_i64,
};

verus! {

/// A JSON value: the structured data carried by requests and responses.
#[verifier::ext_equal]
pub enum JsonValue {
    Null,
    Bool(bool),
    Int(i64),
    Str(String),
    Arr(Vec<JsonValue>),
    Obj(Vec<(String, JsonValue)>),
}

/// The mathematical model of a JSON value, over sequences and unbounded
/// integers.
#[verifier::ext_equal]
pub enum JsonModel {
    Null,
    Bool(bool),
    Int(int),
    Str(Seq<char>),
    Arr(Seq<JsonModel>),
    Obj(Seq<(Seq<char>, JsonModel)>),
}

/// The model of a value.
pub open spec fn model(v: JsonValue) -> JsonModel
    decreases v,
{
    match v {
        JsonValue::Null => JsonModel::Null,
        JsonValue::Bool(b) => JsonModel::Bool(b),
        JsonValue::Int(i) => JsonModel::Int(i as int),
        JsonValue::Str(s) => JsonModel::Str(s@),
        JsonValue::Arr(items) => JsonModel::Arr(model_seq(items@)),
        JsonValue::Obj(fields) => JsonModel::Obj(model_fields(fields@)),
    }
}

/// The models of a sequence of values.
pub open spec fn model_seq(items: Seq<JsonValue>) -> Seq<JsonModel>
    decreases items,
{
    if items.len() == 0 {
        Seq::empty()
    } else {
        model_seq(items.drop_last()).push(model(items.last()))
    }
}

/// The models of a sequence of object fields.
pub open spec fn model_fields(fields: Seq<(String, JsonValue)>) -> Seq<(Seq<char>, JsonModel)>
    decreases fields,
{
    if fields.len() == 0 {
        Seq::empty()
    } else {
        model_fields(fields.drop_last()).push((fields.last().0@, model(fields.last().1)))
    }
}

impl View for JsonValue {
    type V = JsonModel;

    open spec fn view(&self) -> JsonModel {
        model(*self)
    }
}

pub proof fn lemma_model_seq(items: Seq<JsonValue>)
    ensures
        model_seq(items).len() == items.len(),
        forall|k: int| 0 <= k < items.len() ==> model_seq(items)[k] == model(#[trigger] items[k]),
    decreases items,
{
    if items.len() > 0 {
        lemma_model_seq(items.drop_last());
        assert forall|k: int| 0 <= k < items.len() implies model_seq(items)[k] == model(
            #[trigger] items[k],
        ) by {
            if k < items.len() - 1 {
                assert(items.drop_last()[k] == items[k]);
                assert(model_seq(items.drop_last())[k] == model(items.drop_last()[k]));
            }
        }
    }
}

pub proof fn lemma_model_fields(fields: Seq<(String, JsonValue)>)
    ensures
        model_fields(fields).len() == fields.len(),
        forall|k: int| 0 <= k < fields.len() ==> #[trigger] model_fields(fields)[k] == (
        fields[k].0@,
        model(fields[k].1),
        ),
    decreases fields,
{
    if fields.len() > 0 {
        lemma_model_fields(fields.drop_last());
        assert forall|k: int| 0 <= k < fields.len() implies #[trigger] model_fields(fields)[k] == (
            fields[k].0@,
            model(fields[k].1),
        ) by {
            if k < fields.len() - 1 {
                assert(fields.drop_last()[k] == fields[k]);
                assert(model_fields(fields.drop_last())[k] == (
                    fields.drop_last()[k].0@,
                    model(fields.drop_last()[k].1),
                ));
            }
        }
    }
}

impl Clone for JsonValue {
    /// A deep copy with the same model.
    #[verifier::loop_isolation(false)]
    fn clone(&self) -> (r: Self)
        ensures
            r@ == self@,
        decreases *self,
    {
        match self {
            JsonValue::Null => JsonValue::Null,
            JsonValue::Bool(b) => JsonValue::Bool(*b),
            JsonValue::Int(i) => JsonValue::Int(*i),
            JsonValue::Str(s) => JsonValue::Str(s.clone()),
            JsonValue::Arr(items) => {
                let mut out: Vec<JsonValue> = Vec::new();
                let mut i: usize = 0;
                while i < items.len()
                    invariant
                        i <= items.len(),
                        out@.len() == i,
                        forall|k: int| 0 <= k < i ==> (#[trigger] out@[k])@ == items@[k]@,
                    decreases items.len() - i,
                {
                    proof {
                        assert(decreases_to!(*self => self->Arr_0));
                        assert(decreases_to!(self->Arr_0 => items@));
                        assert(decreases_to!(items@ => items@[i as int]));
                    }
                    let c = items[i].clone();
                    out.push(c);
                    i = i + 1;
                }
                proof {
                    lemma_model_seq(out@);
                    lemma_model_seq(items@);
                    assert forall|k: int| 0 <= k < items@.len() implies model_seq(out@)[k]
                        == model_seq(items@)[k] by {
                        assert(out@[k]@ == items@[k]@);
                    }
                    assert(model_seq(out@) =~= model_seq(items@));
                }
                JsonValue::Arr(out)
            },
            JsonValue::Obj(fields) => {
                let mut out: Vec<(String, JsonValue)> = Vec::new();
                let mut i: usize = 0;
                while i < fields.len()
                    invariant
                        i <= fields.len(),
                        out@.len() == i,
                        forall|k: int| 0 <= k < i ==> (#[trigger] out@[k]).0@ == fields@[k].0@
                            && out@[k].1@ == fields@[k].1@,
                    decreases fields.len() - i,
                {
                    proof {
                        assert(decreases_to!(*self => self->Obj_0));
                        assert(decreases_to!(self->Obj_0 => fields@));
                        assert(decreases_to!(fields@ => fields@[i as int]));
                        assert(decreases_to!(fields@[i as int] => fields@[i as int].1));
                    }
                    let name = fields[i].0.clone();
                    let val = fields[i].1.clone();
                    out.push((name, val));
                    i = i + 1;
                }
                proof {
                    lemma_model_fields(out@);
                    lemma_model_fields(fields@);
                    assert forall|k: int| 0 <= k < fields@.len() implies model_fields(out@)[k]
                        == model_fields(fields@)[k] by {
                        assert(out@[k].0@ == fields@[k].0@ && out@[k].1@ == fields@[k].1@);
                    }
                    assert(model_fields(out@) =~= model_fields(fields@));
                }
                JsonValue::Obj(out)
            },
        }
    }
}

/// The first field of an object with the given name, if any.
pub open spec fn lookup_field(fields: Seq<(Seq<char>, JsonModel)>, key: Seq<char>) -> Option<
    JsonModel,
>
    decreases fields.len(),
{
    if fields.len() == 0 {
        None
    } else if fields[0].0 == key {
        Some(fields[0].1)
    } else {
        lookup_field(fields.drop_first(), key)
    }
}

/// Looks up the first field with the given name.
#[verifier::loop_isolation(false)]
pub fn obj_get<'a>(fields: &'a Vec<(String, JsonValue)>, key: &str) -> (r: Option<&'a JsonValue>)
    ensures
        match r {
            Some(v) => lookup_field(model_fields(fields@), key@) == Some(v@),
            None => lookup_field(model_fields(fields@), key@) is None,
        },
{
    proof {
        lemma_model_fields(fields@);
        assert(model_fields(fields@).skip(0) =~= model_fields(fields@));
    }
    let mut j: usize = 0;
    while j < fields.len()
        invariant
            j <= fields.len(),
            lookup_field(model_fields(fields@), key@) == lookup_field(
                model_fields(fields@).skip(j as int),
                key@,
            ),
        decreases fields.len() - j,
    {
        proof {
            assert(model_fields(fields@).skip(j as int)[0] == model_fields(fields@)[j as int]);
        }
        if crate::text::str_eq(fields[j].0.as_str(), key) {
            return Some(&fields[j].1);
        }
        proof {
            assert(model_fields(fields@).skip(j as int).drop_first() =~= model_fields(
                fields@,
            ).skip(j + 1));
        }
        j = j + 1;
    }
    proof {
        assert(model_fields(fields@).skip(fields@.len() as int) =~= Seq::<(
            Seq<char>,
            JsonModel,
        )>::empty());
    }
    None
}

// ----------------------------------------------------------------------
// Serialization
// ----------------------------------------------------------------------
/// The hexadecimal digit character for a value in 0..=15, lower case.
pub open spec fn hex_char(d: int) -> char {
    if d == 0 {
        '0'
    } else if d == 1 {
        '1'
    } else if d == 2 {
        '2'
    } else if d == 3 {
        '3'
    } else if d == 4 {
        '4'
    } else if d == 5 {
        '5'
    } else if d == 6 {
        '6'
    } else if d == 7 {
        '7'
    } else if d == 8 {
        '8'
    } else if d == 9 {
        '9'
    } else if d == 10 {
        'a'
    } else if d == 11 {
        'b'
    } else if d == 12 {
        'c'
    } else if d == 13 {
        'd'
    } else if d == 14 {
        'e'
    } else {
        'f'
    }
}

/// The JSON escape of one string character.
pub open spec fn esc_char(c: char) -> Seq<char> {
    if c == '"' {
        seq!['\\', '"']
    } else if c == '\\' {
        seq!['\\', '\\']
    } else if c == '\n' {
        seq!['\\', 'n']
    } else if c == '\r' {
        seq!['\\', 'r']
    } else if c == '\t' {
        seq!['\\', 't']
    } else if c == '\u{8}' {
        seq!['\\', 'b']
    } else if c == '\u{c}' {
        seq!['\\', 'f']
    } else if (c as u32) < 0x20 {
        seq!['\\', 'u', '0', '0', hex_char(c as int / 16), hex_char(c as int % 16)]
    } else {
        seq![c]
    }
}

/// The JSON escape of a whole string body.
pub open spec fn esc_seq(s: Seq<char>) -> Seq<char>
    decreases s.len(),
{
    if s.len() == 0 {
        Seq::empty()
    } else {
        esc_seq(s.drop_last()) + esc_char(s.last())
    }
}

/// The serialized text of a value: no added whitespace, object fields in
/// stored order, strings escaped as JSON requires.
pub open spec fn ser(m: JsonModel) -> Seq<char>
    decreases m, 1int,
{
    match m {
        JsonModel::Null => seq!['n', 'u', 'l', 'l'],
        JsonModel::Bool(b) => if b {
            seq!['t', 'r', 'u', 'e']
        } else {
            seq!['f', 'a', 'l', 's', 'e']
        },
        JsonModel::Int(i) => dec_int(i),
        JsonModel::Str(s) => seq!['"'] + esc_seq(s) + seq!['"'],
        JsonModel::Arr(items) => seq!['['] + ser_items(items) + seq![']'],
        JsonModel::Obj(fields) => seq!['{'] + ser_fields(fields) + seq!['}'],
    }
}

/// The comma-separated serialized texts of array elements.
pub open spec fn ser_items(items: Seq<JsonModel>) -> Seq<char>
    decreases items, 0int,
{
    if items.len() == 0 {
        Seq::empty()
    } else if items.len() == 1 {
        ser(items[0])
    } else {
        ser_items(items.drop_last()) + seq![','] + ser(items.last())
    }
}

/// The comma-separated serialized texts of object fields.
pub open spec fn ser_field(f: (Seq<char>, JsonModel)) -> Seq<char>
    decreases f,
{
    seq!['"'] + esc_seq(f.0) + seq!['"', ':'] + ser(f.1)
}

pub open spec fn ser_fields(fields: Seq<(Seq<char>, JsonModel)>) -> Seq<char>
    decreases fields, 0int,
{
    if fields.len() == 0 {
        Seq::empty()
    } else if fields.len() == 1 {
        ser_field(fields[0])
    } else {
        ser_fields(fields.drop_last()) + seq![','] + ser_field(fields.last())
    }
}

fn hex_to_char(d: u32) -> (r: char)
    requires
        d < 16,
    ensures
        r == hex_char(d as int),
{
    if d == 0 {
        '0'
    } else if d == 1 {
        '1'
    } else if d == 2 {
        '2'
    } else if d == 3 {
        '3'
    } else if d == 4 {
        '4'
    } else if d == 5 {
        '5'
    } else if d == 6 {
        '6'
    } else if d == 7 {
        '7'
    } else if d == 8 {
        '8'
    } else if d == 9 {
        '9'
    } else if d == 10 {
        'a'
    } else if d == 11 {
        'b'
    } else if d == 12 {
        'c'
    } else if d == 13 {
        'd'
    } else if d == 14 {
        'e'
    } else {
        'f'
    }
}

/// Appends the JSON escape of `c` to `out`.
fn push_escaped_char(out: &mut Vec<char>, c: char)
    ensures
        final(out)@ == old(out)@ + esc_char(c),
{
    if c == '"' {
        out.push('\\');
        out.push('"');
    } else if c == '\\' {
        out.push('\\');
        out.push('\\');
    } else if c == '\n' {
        out.push('\\');
        out.push('n');
    } else if c == '\r' {
        out.push('\\');
        out.push('r');
    } else if c == '\t' {
        out.push('\\');
        out.push('t');
    } else if c == '\u{8}' {
        out.push('\\');
        out.push('b');
    } else if c == '\u{c}' {
        out.push('\\');
        out.push('f');
    } else if (c as u32) < 0x20 {
        let u = c as u32;
        out.push('\\');
        out.push('u');
        out.push('0');
        out.push('0');
        out.push(hex_to_char(u / 16));
        out.push(hex_to_char(u % 16));
    } else {
        out.push(c);
    }
    proof {
        assert(out@ =~= old(out)@ + esc_char(c));
    }
}

/// Appends the escaped body of `s` to `out`.
#[verifier::loop_isolation(false)]
fn push_escaped_str(out: &mut Vec<char>, s: &str)
    ensures
        final(out)@ == old(out)@ + esc_seq(s@),
{
    let len = s.unicode_len();
    let mut i: usize = 0;
    while i < len
        invariant
            i <= len,
            out@ == old(out)@ + esc_seq(s@.take(i as int)),
        decreases len - i,
    {
        let c = s.get_char(i);
        proof {
            assert(s@.take(i + 1).drop_last() =~= s@.take(i as int));
            assert(s@.take(i + 1).last() == s@[i as int]);
        }
        push_escaped_char(out, c);
        i = i + 1;
    }
    proof {
        assert(s@.take(len as int) =~= s@);
    }
}

/// Appends the serialized text of `v` to `out`.
#[verifier::loop_isolation(false)]
#[verifier::rlimit(60)]
pub fn write_json(v: &JsonValue, out: &mut Vec<char>)
    ensures
        final(out)@ == old(out)@ + ser(v@),
    decreases *v,
{
    match v {
        JsonValue::Null => {
            out.push('n');
            out.push('u');
            out.push('l');
            out.push('l');
            proof {
                assert(out@ =~= old(out)@ + ser(v@));
            }
        },
        JsonValue::Bool(b) => {
            if *b {
                out.push('t');
                out.push('r');
                out.push('u');
                out.push('e');
            } else {
                out.push('f');
                out.push('a');
                out.push('l');
                out.push('s');
                out.push('e');
            }
            proof {
                assert(out@ =~= old(out)@ + ser(v@));
            }
        },
        JsonValue::Int(i) => {
            push_dec_i64(out, *i);
        },
        JsonValue::Str(s) => {
            out.push('"');
            push_escaped_str(out, s.as_str());
            out.push('"');
            proof {
                assert(out@ =~= old(out)@ + ser(v@));
            }
        },
        JsonValue::Arr(items) => {
            proof {
                lemma_model_seq(items@);
            }
            out.push('[');
            let ghost ms = model_seq(items@);
            let mut i: usize = 0;
            while i < items.len()
                invariant
                    i <= items.len(),
                    out@ == old(out)@ + seq!['['] + ser_items(ms.take(i as int)),
                decreases items.len() - i,
            {
                proof {
                    assert(decreases_to!(*v => v->Arr_0));
                    assert(decreases_to!(v->Arr_0 => items@));
                    assert(decreases_to!(items@ => items@[i as int]));
                }
                if i > 0 {
                    out.push(',');
                }
                write_json(&items[i], out);
                proof {
                    assert(ms.take(i + 1).drop_last() =~= ms.take(i as int));
                    assert(ms.take(i + 1).last() == ms[i as int]);
                    if i == 0 {
                        assert(ms.take(1) =~= seq![ms[0]]);
                        assert(ser_items(ms.take(1)) == ser(ms[0]));
                    }
                    assert(out@ =~= old(out)@ + seq!['['] + ser_items(ms.take(i + 1)));
                }
                i = i + 1;
            }
            out.push(']');
            proof {
                assert(ms.take(items@.len() as int) =~= ms);
                assert(out@ =~= old(out)@ + ser(v@));
            }
        },
        JsonValue::Obj(fields) => {
            proof {
                lemma_model_fields(fields@);
            }
            out.push('{');
            let ghost ms = model_fields(fields@);
            let mut i: usize = 0;
            while i < fields.len()
                invariant
                    i <= fields.len(),
                    out@ == old(out)@ + seq!['{'] + ser_fields(ms.take(i as int)),
                decreases fields.len() - i,
            {
                proof {
                    assert(decreases_to!(*v => v->Obj_0));
                    assert(decreases_to!(v->Obj_0 => fields@));
                    assert(decreases_to!(fields@ => fields@[i as int]));
                    assert(decreases_to!(fields@[i as int] => fields@[i as int].1));
                }
                if i > 0 {
                    out.push(',');
                }
                let ghost mid = out@;
                out.push('"');
                push_escaped_str(out, fields[i].0.as_str());
                out.push('"');
                out.push(':');
                write_json(&fields[i].1, out);
                proof {
                    assert(ms[i as int].0 == fields@[i as int].0@);
                    assert(ms[i as int].1 == model(fields@[i as int].1));
                    assert(out@ =~= mid + ser_field(ms[i as int]));
                    assert(ms.take(i + 1).drop_last() =~= ms.take(i as int));
                    assert(ms.take(i + 1).last() == ms[i as int]);
                    if i == 0 {
                        assert(ms.take(1) =~= seq![ms[0]]);
                        assert(ser_fields(ms.take(1)) == ser_field(ms[0]));
                    } else {
                        assert(ser_fields(ms.take(i + 1)) == ser_fields(ms.take(i as int))
                            + seq![','] + ser_field(ms[i as int]));
                    }
                    assert(out@ =~= old(out)@ + seq!['{'] + ser_fields(ms.take(i + 1)));
                }
                i = i + 1;
            }
            out.push('}');
            proof {
                assert(ms.take(fields@.len() as int) =~= ms);
                assert(out@ =~= old(out)@ + ser(v@));
            }
        },
    }
}

/// The serialized text of a value, as a string.
pub fn to_json_text(v: &JsonValue) -> (r: String)
    ensures
        r@ == ser(v@),
{
    let mut out: Vec<char> = Vec::new();
    write_json(v, &mut out);
    chars_to_string(&out)
}

// ----------------------------------------------------------------------
// Parsing
// ----------------------------------------------------------------------
/// JSON insignificant whitespace.
pub open spec fn is_ws(c: char) -> bool {
    c == ' ' || c == '\t' || c == '\n' || c == '\r'
}

/// The first index at or after `i` holding no whitespace.
pub open spec fn skip_ws(s: Seq<char>, i: int) -> int
    decreases s.len() - i,
{
    if 0 <= i < s.len() && is_ws(s[i]) {
        skip_ws(s, i + 1)
    } else {
        i
    }
}

/// A hexadecimal digit.
pub open spec fn is_hex(c: char) -> bool {
    is_digit(c) || ('a' <= c && c <= 'f') || ('A' <= c && c <= 'F')
}

/// Numeric value of a hexadecimal digit.
pub open spec fn hex_digit_val(c: char) -> int {
    if is_digit(c) {
        digit_val(c)
    } else if 'a' <= c && c <= 'f' {
        c as int - 'a' as int + 10
    } else {
        c as int - 'A' as int + 10
    }
}

/// Four hexadecimal digits starting at `i`, as a value, if present.
pub open spec fn hexquad(s: Seq<char>, i: int) -> Option<int> {
    if i + 4 <= s.len() && is_hex(s[i]) && is_hex(s[i + 1]) && is_hex(s[i + 2]) && is_hex(
        s[i + 3],
    ) {
        Some(
            hex_digit_val(s[i]) * 4096 + hex_digit_val(s[i + 1]) * 256 + hex_digit_val(s[i + 2])
                * 16 + hex_digit_val(s[i + 3]),
        )
    } else {
        None
    }
}

/// The meaning of a short escape after a backslash.
pub open spec fn esc_short(e: char) -> Option<char> {
    if e == '"' {
        Some('"')
    } else if e == '\\' {
        Some('\\')
    } else if e == '/' {
        Some('/')
    } else if e == 'b' {
        Some('\u{8}')
    } else if e == 'f' {
        Some('\u{c}')
    } else if e == 'n' {
        Some('\n')
    } else if e == 'r' {
        Some('\r')
    } else if e == 't' {
        Some('\t')
    } else {
        None
    }
}

/// Parses a string body beginning just after the opening quote at `i - 1`:
/// the decoded characters and the index just past the closing quote.
pub open spec fn sp_string(s: Seq<char>, i: int) -> Option<(Seq<char>, int)>
    decreases s.len() - i,
{
    if !(0 <= i < s.len()) {
        None
    } else {
        let c = s[i];
        if c == '"' {
            Some((Seq::empty(), i + 1))
        } else if c == '\\' {
            if i + 1 >= s.len() {
                None
            } else {
                let e = s[i + 1];
                if e == 'u' {
                    if i + 6 > s.len() {
                        None
                    } else {
                        match hexquad(s, i + 2) {
                            None => None,
                            Some(code) => {
                                if 0xD800 <= code < 0xDC00 {
                                    if i + 12 > s.len() || s[i + 6] != '\\' || s[i + 7] != 'u' {
                                        None
                                    } else {
                                        match hexquad(s, i + 8) {
                                            None => None,
                                            Some(lo) => {
                                                if 0xDC00 <= lo < 0xE000 {
                                                    let cp = 0x10000 + (code - 0xD800) * 0x400 + (
                                                    lo - 0xDC00);
                                                    match sp_string(s, i + 12) {
                                                        Some((cs, k)) => Some(
                                                            (seq![cp as char] + cs, k),
                                                        ),
                                                        None => None,
                                                    }
                                                } else {
                                                    None
                                                }
                                            },
                                        }
                                    }
                                } else if 0xDC00 <= code < 0xE000 {
                                    None
                                } else {
                                    match sp_string(s, i + 6) {
                                        Some((cs, k)) => Some((seq![code as char] + cs, k)),
                                        None => None,
                                    }
                                }
                            },
                        }
                    }
                } else {
                    match esc_short(e) {
                        None => None,
                        Some(c2) => match sp_string(s, i + 2) {
                            Some((cs, k)) => Some((seq![c2] + cs, k)),
                            None => None,
                        },
                    }
                }
            }
        } else if (c as u32) < 0x20 {
            None
        } else {
            match sp_string(s, i + 1) {
                Some((cs, k)) => Some((seq![c] + cs, k)),
                None => None,
            }
        }
    }
}

/// The first index at or after `i` holding no decimal digit.
pub open spec fn digits_end(s: Seq<char>, i: int) -> int
    decreases s.len() - i,
{
    if 0 <= i < s.len() && is_digit(s[i]) {
        digits_end(s, i + 1)
    } else {
        i
    }
}

/// Parses a number token at `i`: an optional minus sign and digits without a
/// leading zero, provided no fraction or exponent follows and the value fits
/// a signed 64-bit integer.
pub open spec fn sp_number(s: Seq<char>, i: int) -> Option<(JsonModel, int)> {
    let d0 = if 0 <= i < s.len() && s[i] == '-' {
        i + 1
    } else {
        i
    };
    if !(0 <= d0 < s.len()) || !is_digit(s[d0]) {
        None
    } else {
        let de = digits_end(s, d0);
        if s[d0] == '0' && de != d0 + 1 {
            None
        } else if de < s.len() && (s[de] == '.' || s[de] == 'e' || s[de] == 'E') {
            None
        } else {
            let v = if d0 == i + 1 {
                -digits_val(s.subrange(d0, de))
            } else {
                digits_val(s.subrange(d0, de))
            };
            if i64::MIN <= v <= i64::MAX {
                Some((JsonModel::Int(v), de))
            } else {
                None
            }
        }
    }
}

/// Parses one JSON value beginning at or after `i`, leading whitespace
/// skipped. `fuel` bounds the recursion depth; any fuel beyond the remaining
/// length gives the same answer.
pub open spec fn sp_value(s: Seq<char>, i: int, fuel: nat) -> Option<(JsonModel, int)>
    decreases fuel, 0int,
{
    if fuel == 0 {
        None
    } else {
        let j = skip_ws(s, i);
        if !(0 <= j < s.len()) {
            None
        } else {
            let c = s[j];
            if c == 'n' {
                if j + 4 <= s.len() && s.subrange(j, j + 4) == seq!['n', 'u', 'l', 'l'] {
                    Some((JsonModel::Null, j + 4))
                } else {
                    None
                }
            } else if c == 't' {
                if j + 4 <= s.len() && s.subrange(j, j + 4) == seq!['t', 'r', 'u', 'e'] {
                    Some((JsonModel::Bool(true), j + 4))
                } else {
                    None
                }
            } else if c == 'f' {
                if j + 5 <= s.len() && s.subrange(j, j + 5) == seq!['f', 'a', 'l', 's', 'e'] {
                    Some((JsonModel::Bool(false), j + 5))
                } else {
                    None
                }
            } else if c == '"' {
                match sp_string(s, j + 1) {
                    Some((cs, k)) => Some((JsonModel::Str(cs), k)),
                    None => None,
                }
            } else if c == '[' {
                let k = skip_ws(s, j + 1);
                if k < s.len() && s[k] == ']' {
                    Some((JsonModel::Arr(Seq::empty()), k + 1))
                } else {
                    match sp_items(s, j + 1, (fuel - 1) as nat) {
                        Some((items, m)) => Some((JsonModel::Arr(items), m)),
                        None => None,
                    }
                }
            } else if c == '{' {
                let k = skip_ws(s, j + 1);
                if k < s.len() && s[k] == '}' {
                    Some((JsonModel::Obj(Seq::empty()), k + 1))
                } else {
                    match sp_members(s, j + 1, (fuel - 1) as nat) {
                        Some((fields, m)) => Some((JsonModel::Obj(fields), m)),
                        None => None,
                    }
                }
            } else if c == '-' || is_digit(c) {
                sp_number(s, j)
            } else {
                None
            }
        }
    }
}

/// Parses one or more comma-separated array elements and the closing
/// bracket.
pub open spec fn sp_items(s: Seq<char>, i: int, fuel: nat) -> Option<(Seq<JsonModel>, int)>
    decreases fuel, 1int,
{
    if fuel == 0 {
        None
    } else {
        match sp_value(s, i, fuel) {
            None => None,
            Some((v, p)) => {
                let q = skip_ws(s, p);
                if q < s.len() && s[q] == ']' {
                    Some((seq![v], q + 1))
                } else if q < s.len() && s[q] == ',' {
                    match sp_items(s, q + 1, (fuel - 1) as nat) {
                        Some((rest, k)) => Some((seq![v] + rest, k)),
                        None => None,
                    }
                } else {
                    None
                }
            },
        }
    }
}

/// Parses one or more comma-separated object members and the closing brace.
pub open spec fn sp_members(s: Seq<char>, i: int, fuel: nat) -> Option<
    (Seq<(Seq<char>, JsonModel)>, int),
>
    decreases fuel, 1int,
{
    if fuel == 0 {
        None
    } else {
        let j = skip_ws(s, i);
        if !(0 <= j < s.len()) || s[j] != '"' {
            None
        } else {
            match sp_string(s, j + 1) {
                None => None,
                Some((key, k2)) => {
                    let m = skip_ws(s, k2);
                    if !(m < s.len()) || s[m] != ':' {
                        None
                    } else {
                        match sp_value(s, m + 1, fuel) {
                            None => None,
                            Some((v, p)) => {
                                let q = skip_ws(s, p);
                                if q < s.len() && s[q] == '}' {
                                    Some((seq![(key, v)], q + 1))
                                } else if q < s.len() && s[q] == ',' {
                                    match sp_members(s, q + 1, (fuel - 1) as nat) {
                                        Some((rest, k)) => Some((seq![(key, v)] + rest, k)),
                                        None => None,
                                    }
                                } else {
                                    None
                                }
                            },
                        }
                    }
                }
            }
        }
    }
}

/// The JSON value denoted by a whole text: one value, with nothing but
/// whitespace around it.
pub open spec fn json_of(s: Seq<char>) -> Option<JsonModel> {
    match sp_value(s, 0, (s.len() + 1) as nat) {
        None => None,
        Some((m, k)) => {
            if skip_ws(s, k) == s.len() {
                Some(m)
            } else {
                None
            }
        },
    }
}

/// The first index at or after `i` holding no whitespace.
#[verifier::loop_isolation(false)]
pub fn skip_ws_at(s: &Vec<char>, i: usize) -> (r: usize)
    requires
        i <= s@.len(),
    ensures
        r == skip_ws(s@, i as int),
        i <= r <= s@.len(),
{
    let slen: usize = s.len();
    let mut j: usize = i;
    while j < slen && (s[j] == ' ' || s[j] == '\t' || s[j] == '\n' || s[j] == '\r')
        invariant
            i <= j <= slen,
            skip_ws(s@, i as int) == skip_ws(s@, j as int),
        decreases slen - j,
    {
        j = j + 1;
    }
    j
}

/// Relies on `char::from_u32`: `Some` exactly for Unicode scalar values,
/// holding that code point.
#[verifier::external_body]
fn char_from_u32(v: u32) -> (r: Option<char>)
    ensures
        r == if v < 0xD800 || (0xE000 <= v && v <= 0x10FFFF) {
            Some(v as char)
        } else {
            None::<char>
        },
{
    char::from_u32(v)
}

fn hex_digit_of(c: char) -> (r: Option<u32>)
    ensures
        r == if is_hex(c) {
            Some(hex_digit_val(c) as u32)
        } else {
            None::<u32>
        },
{
    if c >= '0' && c <= '9' {
        Some(c as u32 - 48)
    } else if c >= 'a' && c <= 'f' {
        Some(c as u32 - 97 + 10)
    } else if c >= 'A' && c <= 'F' {
        Some(c as u32 - 65 + 10)
    } else {
        None
    }
}

/// Four hexadecimal digits starting at `i`, as a value.
fn hexquad_at(s: &Vec<char>, i: usize) -> (r: Option<u32>)
    requires
        i + 4 <= s@.len(),
    ensures
        r == match hexquad(s@, i as int) {
            Some(v) => Some(v as u32),
            None => None::<u32>,
        },
        r is Some ==> 0 <= r->0 <= 0xFFFF,
{
    let slen: usize = s.len();
    let h0 = match hex_digit_of(s[i]) {
        Some(h) => h,
        None => {
            return None;
        },
    };
    let h1 = match hex_digit_of(s[i + 1]) {
        Some(h) => h,
        None => {
            return None;
        },
    };
    let h2 = match hex_digit_of(s[i + 2]) {
        Some(h) => h,
        None => {
            return None;
        },
    };
    let h3 = match hex_digit_of(s[i + 3]) {
        Some(h) => h,
        None => {
            return None;
        },
    };
    Some(h0 * 4096 + h1 * 256 + h2 * 16 + h3)
}

/// Parses a string body beginning just after an opening quote.
#[verifier::loop_isolation(false)]
#[verifier::rlimit(80)]
fn parse_string_at(s: &Vec<char>, i: usize) -> (r: Option<(String, usize)>)
    requires
        i <= s@.len(),
    ensures
        match r {
            Some((cs, k)) => i < k <= s@.len() && sp_string(s@, i as int) == Some(
                (cs@, k as int),
            ),
            None => sp_string(s@, i as int) is None,
        },
{
    let slen: usize = s.len();
    let mut j: usize = i;
    let mut acc: Vec<char> = Vec::new();
    loop
        invariant
            i <= j <= slen,
            sp_string(s@, i as int) == match sp_string(s@, j as int) {
                Some((cs, k)) => Some::<(Seq<char>, int)>((acc@ + cs, k)),
                None => None::<(Seq<char>, int)>,
            },
        decreases slen - j,
    {
        if j >= slen {
            return None;
        }
        let c = s[j];
        if c == '"' {
            proof {
                assert(acc@ + Seq::<char>::empty() =~= acc@);
            }
            let out = chars_to_string(&acc);
            return Some((out, j + 1));
        }
        if c == '\\' {
            if j + 1 >= slen {
                return None;
            }
            let e = s[j + 1];
            if e == 'u' {
                if slen - j < 6 {
                    return None;
                }
                let code = match hexquad_at(s, j + 2) {
                    Some(v) => v,
                    None => {
                        return None;
                    },
                };
                if 0xD800 <= code && code < 0xDC00 {
                    if slen - j < 12 {
                        return None;
                    }
                    if s[j + 6] != '\\' || s[j + 7] != 'u' {
                        return None;
                    }
                    let lo = match hexquad_at(s, j + 8) {
                        Some(v) => v,
                        None => {
                            return None;
                        },
                    };
                    if !(0xDC00 <= lo && lo < 0xE000) {
                        return None;
                    }
                    let cp: u32 = 0x10000 + (code - 0xD800) * 0x400 + (lo - 0xDC00);
                    let ch = match char_from_u32(cp) {
                        Some(ch) => ch,
                        None => {
                            proof {
                                assert(false);
                            }
                            return None;
                        },
                    };
                    proof {
                        let rest = sp_string(s@, j + 12);
                        match rest {
                            Some((cs, k)) => {
                                assert(acc@ + (seq![ch] + cs) =~= (acc@ + seq![ch]) + cs);
                            },
                            None => {},
                        }
                    }
                    acc.push(ch);
                    j = j + 12;
                } else if 0xDC00 <= code && code < 0xE000 {
                    return None;
                } else {
                    let ch = match char_from_u32(code) {
                        Some(ch) => ch,
                        None => {
                            proof {
                                assert(false);
                            }
                            return None;
                        },
                    };
                    proof {
                        let rest = sp_string(s@, j + 6);
                        match rest {
                            Some((cs, k)) => {
                                assert(acc@ + (seq![ch] + cs) =~= (acc@ + seq![ch]) + cs);
                            },
                            None => {},
                        }
                    }
                    acc.push(ch);
                    j = j + 6;
                }
            } else {
                let c2 = if e == '"' {
                    '"'
                } else if e == '\\' {
                    '\\'
                } else if e == '/' {
                    '/'
                } else if e == 'b' {
                    '\u{8}'
                } else if e == 'f' {
                    '\u{c}'
                } else if e == 'n' {
                    '\n'
                } else if e == 'r' {
                    '\r'
                } else if e == 't' {
                    '\t'
                } else {
                    return None;
                };
                proof {
                    let rest = sp_string(s@, j + 2);
                    match rest {
                        Some((cs, k)) => {
                            assert(acc@ + (seq![c2] + cs) =~= (acc@ + seq![c2]) + cs);
                        },
                        None => {},
                    }
                }
                acc.push(c2);
                j = j + 2;
            }
        } else if (c as u32) < 0x20 {
            return None;
        } else {
            proof {
                let rest = sp_string(s@, j + 1);
                match rest {
                    Some((cs, k)) => {
                        assert(acc@ + (seq![c] + cs) =~= (acc@ + seq![c]) + cs);
                    },
                    None => {},
                }
            }
            acc.push(c);
            j = j + 1;
        }
    }
}

/// Parses a number token at `i`.
#[verifier::loop_isolation(false)]
#[verifier::rlimit(60)]
fn parse_number_at(s: &Vec<char>, i: usize) -> (r: Option<(JsonValue, usize)>)
    requires
        i < s@.len(),
    ensures
        match r {
            Some((v, k)) => i < k <= s@.len() && sp_number(s@, i as int) == Some(
                (v@, k as int),
            ),
            None => sp_number(s@, i as int) is None,
        },
{
    let slen: usize = s.len();
    let d0: usize = if s[i] == '-' {
        i + 1
    } else {
        i
    };
    if d0 >= slen {
        return None;
    }
    if !(s[d0] >= '0' && s[d0] <= '9') {
        return None;
    }
    let mut de: usize = d0;
    while de < slen && s[de] >= '0' && s[de] <= '9'
        invariant
            d0 <= de <= slen,
            digits_end(s@, d0 as int) == digits_end(s@, de as int),
            forall|k: int| d0 <= k < de ==> is_digit(#[trigger] s@[k]),
        decreases slen - de,
    {
        de = de + 1;
    }
    let ghost digits = s@.subrange(d0 as int, de as int);
    proof {
        assert(all_digits(digits));
    }
    if s[d0] == '0' && de != d0 + 1 {
        return None;
    }
    if de < slen && (s[de] == '.' || s[de] == 'e' || s[de] == 'E') {
        return None;
    }
    let mut p: usize = d0;
    let mut mag: u128 = 0;
    while p < de
        invariant
            d0 <= p <= de,
            mag == digits_val(digits.take(p - d0)),
            mag <= 0x8000_0000_0000_0000u128,
        decreases de - p,
    {
        let c = s[p];
        let d: u128 = (c as u32 - 48) as u128;
        proof {
            assert(c == digits[p - d0]);
            assert(d == digit_val(digits[p - d0]));
            assert(digits.take(p - d0 + 1).drop_last() =~= digits.take(p - d0));
            assert(digits.take(p - d0 + 1).last() == digits[p - d0]);
        }
        mag = mag * 10 + d;
        p = p + 1;
        if mag > 0x8000_0000_0000_0000u128 {
            proof {
                lemma_digits_val_prefix_le(digits, p - d0);
                assert(digits_val(digits) > i64::MAX);
                assert(-digits_val(digits) < i64::MIN);
            }
            return None;
        }
    }
    proof {
        assert(digits.take(de - d0) =~= digits);
    }
    if d0 == i + 1 {
        if mag == 0x8000_0000_0000_0000u128 {
            Some((JsonValue::Int(i64::MIN), de))
        } else {
            Some((JsonValue::Int(-(mag as i64)), de))
        }
    } else {
        if mag == 0x8000_0000_0000_0000u128 {
            None
        } else {
            Some((JsonValue::Int(mag as i64), de))
        }
    }
}

/// Parses one JSON value beginning at or after `i`.
#[verifier::loop_isolation(false)]
#[verifier::rlimit(100)]
fn parse_value_at(s: &Vec<char>, i: usize) -> (r: Option<(JsonValue, usize)>)
    requires
        i <= s@.len(),
    ensures
        match r {
            Some((v, k)) => i < k <= s@.len() && (forall|f: nat|
                f > s@.len() - i ==> sp_value(s@, i as int, f) == Some::<(JsonModel, int)>(
                    (v@, k as int),
                )),
            None => forall|f: nat| f > s@.len() - i ==> sp_value(s@, i as int, f) is None,
        },
    decreases s@.len() - i, 0int,
{
    let slen: usize = s.len();
    let j = skip_ws_at(s, i);
    if j >= slen {
        return None;
    }
    let c = s[j];
    if c == 'n' || c == 't' {
        if slen - j < 4 {
            proof {
                if j + 4 <= s@.len() {
                    assert(false);
                }
            }
            return None;
        }
        if c == 'n' {
            if s[j + 1] != 'u' {
                proof {
                    assert(s@.subrange(j as int, j + 4)[1] != seq!['n', 'u', 'l', 'l'][1]);
                }
                return None;
            }
            if s[j + 2] != 'l' {
                proof {
                    assert(s@.subrange(j as int, j + 4)[2] != seq!['n', 'u', 'l', 'l'][2]);
                }
                return None;
            }
            if s[j + 3] != 'l' {
                proof {
                    assert(s@.subrange(j as int, j + 4)[3] != seq!['n', 'u', 'l', 'l'][3]);
                }
                return None;
            }
            proof {
                assert(s@.subrange(j as int, j + 4) =~= seq!['n', 'u', 'l', 'l']);
            }
            return Some((JsonValue::Null, j + 4));
        } else {
            if s[j + 1] != 'r' {
                proof {
                    assert(s@.subrange(j as int, j + 4)[1] != seq!['t', 'r', 'u', 'e'][1]);
                }
                return None;
            }
            if s[j + 2] != 'u' {
                proof {
                    assert(s@.subrange(j as int, j + 4)[2] != seq!['t', 'r', 'u', 'e'][2]);
                }
                return None;
            }
            if s[j + 3] != 'e' {
                proof {
                    assert(s@.subrange(j as int, j + 4)[3] != seq!['t', 'r', 'u', 'e'][3]);
                }
                return None;
            }
            proof {
                assert(s@.subrange(j as int, j + 4) =~= seq!['t', 'r', 'u', 'e']);
            }
            return Some((JsonValue::Bool(true), j + 4));
        }
    }
    if c == 'f' {
        if slen - j < 5 {
            proof {
                if j + 5 <= s@.len() {
                    assert(false);
                }
            }
            return None;
        }
        if s[j + 1] != 'a' {
            proof {
                assert(s@.subrange(j as int, j + 5)[1] != seq!['f', 'a', 'l', 's', 'e'][1]);
            }
            return None;
        }
        if s[j + 2] != 'l' {
            proof {
                assert(s@.subrange(j as int, j + 5)[2] != seq!['f', 'a', 'l', 's', 'e'][2]);
            }
            return None;
        }
        if s[j + 3] != 's' {
            proof {
                assert(s@.subrange(j as int, j + 5)[3] != seq!['f', 'a', 'l', 's', 'e'][3]);
            }
            return None;
        }
        if s[j + 4] != 'e' {
            proof {
                assert(s@.subrange(j as int, j + 5)[4] != seq!['f', 'a', 'l', 's', 'e'][4]);
            }
            return None;
        }
        proof {
            assert(s@.subrange(j as int, j + 5) =~= seq!['f', 'a', 'l', 's', 'e']);
        }
        return Some((JsonValue::Bool(false), j + 5));
    }
    if c == '"' {
        match parse_string_at(s, j + 1) {
            Some((cs, k)) => {
                return Some((JsonValue::Str(cs), k));
            },
            None => {
                return None;
            },
        }
    }
    if c == '[' {
        let k = skip_ws_at(s, j + 1);
        if k < slen && s[k] == ']' {
            let vs: Vec<JsonValue> = Vec::new();
            proof {
                assert(model_seq(vs@) =~= Seq::<JsonModel>::empty());
            }
            return Some((JsonValue::Arr(vs), k + 1));
        }
        match parse_items_at(s, j + 1) {
            Some((vs, m)) => {
                proof {
                    assert forall|f: nat| f > s@.len() - i implies sp_value(s@, i as int, f)
                        == Some::<(JsonModel, int)>((JsonValue::Arr(vs)@, m as int)) by {
                        assert((f - 1) as nat > s@.len() - (j + 1));
                        assert(sp_items(s@, j + 1, (f - 1) as nat) == Some::<
                            (Seq<JsonModel>, int),
                        >((model_seq(vs@), m as int)));
                    }
                }
                return Some((JsonValue::Arr(vs), m));
            },
            None => {
                proof {
                    assert forall|f: nat| f > s@.len() - i implies sp_value(s@, i as int, f)
                        is None by {
                        assert((f - 1) as nat > s@.len() - (j + 1));
                        assert(sp_items(s@, j + 1, (f - 1) as nat) is None);
                    }
                }
                return None;
            },
        }
    }
    if c == '{' {
        let k = skip_ws_at(s, j + 1);
        if k < slen && s[k] == '}' {
            let vs: Vec<(String, JsonValue)> = Vec::new();
            proof {
                assert(model_fields(vs@) =~= Seq::<(Seq<char>, JsonModel)>::empty());
            }
            return Some((JsonValue::Obj(vs), k + 1));
        }
        match parse_members_at(s, j + 1) {
            Some((vs, m)) => {
                proof {
                    assert forall|f: nat| f > s@.len() - i implies sp_value(s@, i as int, f)
                        == Some::<(JsonModel, int)>((JsonValue::Obj(vs)@, m as int)) by {
                        assert((f - 1) as nat > s@.len() - (j + 1));
                        assert(sp_members(s@, j + 1, (f - 1) as nat) == Some::<
                            (Seq<(Seq<char>, JsonModel)>, int),
                        >((model_fields(vs@), m as int)));
                    }
                }
                return Some((JsonValue::Obj(vs), m));
            },
            None => {
                proof {
                    assert forall|f: nat| f > s@.len() - i implies sp_value(s@, i as int, f)
                        is None by {
                        assert((f - 1) as nat > s@.len() - (j + 1));
                        assert(sp_members(s@, j + 1, (f - 1) as nat) is None);
                    }
                }
                return None;
            },
        }
    }
    if c == '-' || (c >= '0' && c <= '9') {
        match parse_number_at(s, j) {
            Some((v, k)) => {
                return Some((v, k));
            },
            None => {
                return None;
            },
        }
    }
    None
}

/// Parses the elements of a non-empty array and its closing bracket.
#[verifier::loop_isolation(false)]
#[verifier::rlimit(100)]
fn parse_items_at(s: &Vec<char>, i: usize) -> (r: Option<(Vec<JsonValue>, usize)>)
    requires
        i <= s@.len(),
    ensures
        match r {
            Some((vs, k)) => i < k <= s@.len() && (forall|f: nat|
                f > s@.len() - i ==> sp_items(s@, i as int, f) == Some::<(Seq<JsonModel>, int)>(
                    (model_seq(vs@), k as int),
                )),
            None => forall|f: nat| f > s@.len() - i ==> sp_items(s@, i as int, f) is None,
        },
    decreases s@.len() - i, 1int,
{
    let slen: usize = s.len();
    match parse_value_at(s, i) {
        None => {
            proof {
                assert forall|f: nat| f > s@.len() - i implies sp_items(s@, i as int, f)
                    is None by {
                    assert(sp_value(s@, i as int, f) is None);
                }
            }
            return None;
        },
        Some((v, p)) => {
            let q = skip_ws_at(s, p);
            if q < slen && s[q] == ']' {
                let mut vs: Vec<JsonValue> = Vec::new();
                vs.push(v);
                proof {
                    assert(model_seq(vs@.drop_last()) =~= Seq::<JsonModel>::empty());
                    assert(model_seq(vs@) =~= seq![v@]);
                    assert forall|f: nat| f > s@.len() - i implies sp_items(s@, i as int, f)
                        == Some::<(Seq<JsonModel>, int)>((model_seq(vs@), q + 1)) by {
                        assert(sp_value(s@, i as int, f) == Some::<(JsonModel, int)>(
                            (v@, p as int),
                        ));
                    }
                }
                return Some((vs, q + 1));
            }
            if q < slen && s[q] == ',' {
                match parse_items_at(s, q + 1) {
                    None => {
                        proof {
                            assert forall|f: nat| f > s@.len() - i implies sp_items(
                                s@,
                                i as int,
                                f,
                            ) is None by {
                                assert(sp_value(s@, i as int, f) == Some::<(JsonModel, int)>(
                                    (v@, p as int),
                                ));
                                assert((f - 1) as nat > s@.len() - (q + 1));
                                assert(sp_items(s@, q + 1, (f - 1) as nat) is None);
                            }
                        }
                        return None;
                    },
                    Some((rest, k)) => {
                        let ghost rest0 = rest@;
                        let mut vs: Vec<JsonValue> = Vec::new();
                        vs.push(v);
                        let mut rest = rest;
                        vs.append(&mut rest);
                        proof {
                            lemma_model_seq(vs@);
                            lemma_model_seq(rest0);
                            assert(vs@ =~= seq![v] + rest0);
                            assert forall|t: int| 0 <= t < vs@.len() implies model_seq(vs@)[t]
                                == (seq![v@] + model_seq(rest0))[t] by {
                                if t > 0 {
                                    assert(vs@[t] == rest0[t - 1]);
                                }
                            }
                            assert(model_seq(vs@) =~= seq![v@] + model_seq(rest0));
                            assert forall|f: nat| f > s@.len() - i implies sp_items(
                                s@,
                                i as int,
                                f,
                            ) == Some::<(Seq<JsonModel>, int)>((model_seq(vs@), k as int)) by {
                                assert(sp_value(s@, i as int, f) == Some::<(JsonModel, int)>(
                                    (v@, p as int),
                                ));
                                assert((f - 1) as nat > s@.len() - (q + 1));
                                assert(sp_items(s@, q + 1, (f - 1) as nat) == Some::<
                                    (Seq<JsonModel>, int),
                                >((model_seq(rest0), k as int)));
                            }
                        }
                        return Some((vs, k));
                    },
                }
            }
            proof {
                assert forall|f: nat| f > s@.len() - i implies sp_items(s@, i as int, f)
                    is None by {
                    assert(sp_value(s@, i as int, f) == Some::<(JsonModel, int)>((v@, p as int)));
                }
            }
            None
        },
    }
}

/// Parses the members of a non-empty object and its closing brace.
#[verifier::loop_isolation(false)]
#[verifier::rlimit(100)]
fn parse_members_at(s: &Vec<char>, i: usize) -> (r: Option<(Vec<(String, JsonValue)>, usize)>)
    requires
        i <= s@.len(),
    ensures
        match r {
            Some((vs, k)) => i < k <= s@.len() && (forall|f: nat|
                f > s@.len() - i ==> sp_members(s@, i as int, f) == Some::<
                    (Seq<(Seq<char>, JsonModel)>, int),
                >((model_fields(vs@), k as int))),
            None => forall|f: nat| f > s@.len() - i ==> sp_members(s@, i as int, f) is None,
        },
    decreases s@.len() - i, 1int,
{
    let slen: usize = s.len();
    let j = skip_ws_at(s, i);
    if j >= slen {
        return None;
    }
    if s[j] != '"' {
        return None;
    }
    match parse_string_at(s, j + 1) {
        None => {
            return None;
        },
        Some((key, k2)) => {
            let m = skip_ws_at(s, k2);
            if m >= slen {
                return None;
            }
            if s[m] != ':' {
                return None;
            }
            match parse_value_at(s, m + 1) {
                None => {
                    proof {
                        assert forall|f: nat| f > s@.len() - i implies sp_members(s@, i as int, f)
                            is None by {
                            assert(f > s@.len() - (m + 1));
                            assert(sp_value(s@, m + 1, f) is None);
                        }
                    }
                    return None;
                },
                Some((v, p)) => {
                    let q = skip_ws_at(s, p);
                    if q < slen && s[q] == '}' {
                        let ghost keyc = key@;
                        let mut vs: Vec<(String, JsonValue)> = Vec::new();
                        vs.push((key, v));
                        proof {
                            assert(model_fields(vs@.drop_last()) =~= Seq::<
                                (Seq<char>, JsonModel),
                            >::empty());
                            assert(model_fields(vs@) =~= seq![(keyc, v@)]);
                            assert forall|f: nat| f > s@.len() - i implies sp_members(
                                s@,
                                i as int,
                                f,
                            ) == Some::<(Seq<(Seq<char>, JsonModel)>, int)>(
                                (model_fields(vs@), q + 1),
                            ) by {
                                assert(f > s@.len() - (m + 1));
                                assert(sp_value(s@, m + 1, f) == Some::<(JsonModel, int)>(
                                    (v@, p as int),
                                ));
                            }
                        }
                        return Some((vs, q + 1));
                    }
                    if q < slen && s[q] == ',' {
                        match parse_members_at(s, q + 1) {
                            None => {
                                proof {
                                    assert forall|f: nat| f > s@.len() - i implies sp_members(
                                        s@,
                                        i as int,
                                        f,
                                    ) is None by {
                                        assert(f > s@.len() - (m + 1));
                                        assert(sp_value(s@, m + 1, f) == Some::<(JsonModel, int)>(
                                            (v@, p as int),
                                        ));
                                        assert((f - 1) as nat > s@.len() - (q + 1));
                                        assert(sp_members(s@, q + 1, (f - 1) as nat) is None);
                                    }
                                }
                                return None;
                            },
                            Some((rest, k)) => {
                                let ghost keyc = key@;
                                let ghost rest0 = rest@;
                                let mut vs: Vec<(String, JsonValue)> = Vec::new();
                                vs.push((key, v));
                                let mut rest = rest;
                                vs.append(&mut rest);
                                proof {
                                    lemma_model_fields(vs@);
                                    lemma_model_fields(rest0);
                                    assert(vs@.len() == 1 + rest0.len());
                                    assert forall|t: int| 0 <= t < vs@.len() implies
                                        model_fields(vs@)[t] == (seq![(keyc, v@)] + model_fields(
                                        rest0,
                                    ))[t] by {
                                        if t > 0 {
                                            assert(vs@[t] == rest0[t - 1]);
                                        }
                                    }
                                    assert(model_fields(vs@) =~= seq![(keyc, v@)] + model_fields(
                                        rest0,
                                    ));
                                    assert forall|f: nat| f > s@.len() - i implies sp_members(
                                        s@,
                                        i as int,
                                        f,
                                    ) == Some::<(Seq<(Seq<char>, JsonModel)>, int)>(
                                        (model_fields(vs@), k as int),
                                    ) by {
                                        assert(f > s@.len() - (m + 1));
                                        assert(sp_value(s@, m + 1, f) == Some::<(JsonModel, int)>(
                                            (v@, p as int),
                                        ));
                                        assert((f - 1) as nat > s@.len() - (q + 1));
                                        assert(sp_members(s@, q + 1, (f - 1) as nat) == Some::<
                                            (Seq<(Seq<char>, JsonModel)>, int),
                                        >((model_fields(rest0), k as int)));
                                    }
                                }
                                return Some((vs, k));
                            },
                        }
                    }
                    proof {
                        assert forall|f: nat| f > s@.len() - i implies sp_members(s@, i as int, f)
                            is None by {
                            assert(f > s@.len() - (m + 1));
                            assert(sp_value(s@, m + 1, f) == Some::<(JsonModel, int)>(
                                (v@, p as int),
                            ));
                        }
                    }
                    None
                },
            }
        }
    }
}

/// Parses a whole JSON text: one value with nothing but whitespace around
/// it.
pub fn parse_json_text(s: &str) -> (r: Option<JsonValue>)
    ensures
        match r {
            Some(v) => json_of(s@) == Some(v@),
            None => json_of(s@) is None,
        },
{
    let chars = crate::text::chars_of(s);
    match parse_value_at(&chars, 0) {
        None => None,
        Some((v, k)) => {
            let e = skip_ws_at(&chars, k);
            if e == chars.len() {
                Some(v)
            } else {
                None
            }
        },
    }
}

} // verus!
