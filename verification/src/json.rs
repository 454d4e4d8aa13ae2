//! A small JSON model: the values the protocol reads from its bootstrap
//! context and writes into its message envelopes.
//!
//! Numbers that fit an `i64` are held as integers; any other number keeps
//! its decimal text, so nothing is lost when a document is carried through.
use vstd::prelude::*;

verus! {

/// An executable JSON value.
///
/// Object members keep their order; the serializer writes them as given.
#[derive(Debug, PartialEq, Eq)]
pub enum JsonValue {
    Null,
    Bool(bool),
    Int(i64),
    /// A number that does not fit an `i64`, kept as its decimal text.
    Num(String),
    Str(String),
    Arr(Vec<JsonValue>),
    Obj(Vec<(String, JsonValue)>),
}

/// The mathematical model of a [`JsonValue`].
#[verifier::ext_equal]
pub enum JsonSpecValue {
    NullV,
    BoolV(bool),
    IntV(i64),
    NumV(Seq<char>),
    StrV(Seq<char>),
    ArrV(Seq<JsonSpecValue>),
    ObjV(Seq<(Seq<char>, JsonSpecValue)>),
}

/// The model of one executable JSON value.
pub open spec fn jview(v: JsonValue) -> JsonSpecValue
    decreases v,
{
    match v {
        JsonValue::Null => JsonSpecValue::NullV,
        JsonValue::Bool(b) => JsonSpecValue::BoolV(b),
        JsonValue::Int(i) => JsonSpecValue::IntV(i),
        JsonValue::Num(t) => JsonSpecValue::NumV(t@),
        JsonValue::Str(s) => JsonSpecValue::StrV(s@),
        JsonValue::Arr(items) => JsonSpecValue::ArrV(jview_seq(items@)),
        JsonValue::Obj(pairs) => JsonSpecValue::ObjV(jview_pairs(pairs@)),
    }
}

/// The models of the elements of a JSON array.
pub open spec fn jview_seq(items: Seq<JsonValue>) -> Seq<JsonSpecValue>
    decreases items,
{
    if items.len() == 0 {
        Seq::empty()
    } else {
        jview_seq(items.drop_last()).push(jview(items.last()))
    }
}

/// The models of the members of a JSON object.
pub open spec fn jview_pairs(pairs: Seq<(String, JsonValue)>) -> Seq<(Seq<char>, JsonSpecValue)>
    decreases pairs,
{
    if pairs.len() == 0 {
        Seq::empty()
    } else {
        jview_pairs(pairs.drop_last()).push((pairs.last().0@, jview(pairs.last().1)))
    }
}

impl View for JsonValue {
    type V = JsonSpecValue;

    open spec fn view(&self) -> JsonSpecValue {
        jview(*self)
    }
}

/// The elements of a JSON array are modelled one by one, in order.
pub proof fn lemma_jview_seq(items: Seq<JsonValue>)
    ensures
        jview_seq(items).len() == items.len(),
        forall|i: int| 0 <= i < items.len() ==> jview_seq(items)[i] == jview(items[i]),
    decreases items.len(),
{
    if items.len() > 0 {
        lemma_jview_seq(items.drop_last());
        assert forall|i: int| 0 <= i < items.len() implies jview_seq(items)[i] == jview(
            items[i],
        ) by {
            if i < items.len() - 1 {
                assert(items.drop_last()[i] == items[i]);
            }
        }
    }
}

/// The members of a JSON object are modelled one by one, in order.
pub proof fn lemma_jview_pairs(pairs: Seq<(String, JsonValue)>)
    ensures
        jview_pairs(pairs).len() == pairs.len(),
        forall|i: int| 0 <= i < pairs.len() ==> jview_pairs(pairs)[i] == (
            pairs[i].0@,
            jview(pairs[i].1),
        ),
    decreases pairs.len(),
{
    if pairs.len() > 0 {
        lemma_jview_pairs(pairs.drop_last());
        assert forall|i: int| 0 <= i < pairs.len() implies jview_pairs(pairs)[i] == (
            pairs[i].0@,
            jview(pairs[i].1),
        ) by {
            if i < pairs.len() - 1 {
                assert(pairs.drop_last()[i] == pairs[i]);
            }
        }
    }
}

/// The decimal digit for a value below ten.
pub open spec fn dec_digit(n: nat) -> char {
    if n == 0 {
        '0'
    } else if n == 1 {
        '1'
    } else if n == 2 {
        '2'
    } else if n == 3 {
        '3'
    } else if n == 4 {
        '4'
    } else if n == 5 {
        '5'
    } else if n == 6 {
        '6'
    } else if n == 7 {
        '7'
    } else if n == 8 {
        '8'
    } else {
        '9'
    }
}

/// The decimal text of a natural number, without leading zeros.
pub open spec fn dec_text(n: nat) -> Seq<char>
    decreases n,
{
    if n < 10 {
        seq![dec_digit(n)]
    } else {
        dec_text(n / 10).push(dec_digit(n % 10))
    }
}

/// The decimal text of an integer: a minus sign where it is negative.
pub open spec fn int_text(i: int) -> Seq<char> {
    if i < 0 {
        seq!['-'] + dec_text((-i) as nat)
    } else {
        dec_text(i as nat)
    }
}

/// The lower-case hexadecimal digit for a value below sixteen.
pub open spec fn hex_digit(n: nat) -> char {
    if n < 10 {
        dec_digit(n)
    } else if n == 10 {
        'a'
    } else if n == 11 {
        'b'
    } else if n == 12 {
        'c'
    } else if n == 13 {
        'd'
    } else if n == 14 {
        'e'
    } else {
        'f'
    }
}

/// How one character is written inside a JSON string literal.
pub open spec fn escape_char(c: char) -> Seq<char> {
    if c == '"' {
        seq!['\\', '"']
    } else if c == '\\' {
        seq!['\\', '\\']
    } else if c == '\u{8}' {
        seq!['\\', 'b']
    } else if c == '\u{c}' {
        seq!['\\', 'f']
    } else if c == '\n' {
        seq!['\\', 'n']
    } else if c == '\r' {
        seq!['\\', 'r']
    } else if c == '\t' {
        seq!['\\', 't']
    } else if (c as u32) < 32 {
        seq!['\\', 'u', '0', '0', hex_digit((c as u32 / 16) as nat), hex_digit(
            (c as u32 % 16) as nat,
        )]
    } else {
        seq![c]
    }
}

/// How a whole string body is escaped, character by character.
pub open spec fn escape_seq(s: Seq<char>) -> Seq<char>
    decreases s.len(),
{
    if s.len() == 0 {
        Seq::empty()
    } else {
        escape_seq(s.drop_last()) + escape_char(s.last())
    }
}

/// A JSON string literal: the escaped body between double quotes.
pub open spec fn str_text(s: Seq<char>) -> Seq<char> {
    seq!['"'] + escape_seq(s) + seq!['"']
}

/// The serialized text of a JSON value.
pub open spec fn ser(v: JsonSpecValue) -> Seq<char>
    decreases v,
{
    match v {
        JsonSpecValue::NullV => "null"@,
        JsonSpecValue::BoolV(b) => if b {
            "true"@
        } else {
            "false"@
        },
        JsonSpecValue::IntV(i) => int_text(i as int),
        JsonSpecValue::NumV(t) => t,
        JsonSpecValue::StrV(s) => str_text(s),
        JsonSpecValue::ArrV(items) => seq!['['] + ser_list(items) + seq![']'],
        JsonSpecValue::ObjV(pairs) => seq!['{'] + ser_pairs(pairs) + seq!['}'],
    }
}

/// The comma-separated texts of an array's elements.
pub open spec fn ser_list(items: Seq<JsonSpecValue>) -> Seq<char>
    decreases items,
{
    if items.len() == 0 {
        Seq::empty()
    } else if items.len() == 1 {
        ser(items[0])
    } else {
        ser_list(items.drop_last()) + seq![','] + ser(items.last())
    }
}

/// The comma-separated `"key":value` texts of an object's members.
pub open spec fn ser_pairs(pairs: Seq<(Seq<char>, JsonSpecValue)>) -> Seq<char>
    decreases pairs,
{
    if pairs.len() == 0 {
        Seq::empty()
    } else if pairs.len() == 1 {
        str_text(pairs[0].0) + seq![':'] + ser(pairs[0].1)
    } else {
        ser_pairs(pairs.drop_last()) + seq![','] + str_text(pairs.last().0) + seq![':'] + ser(
            pairs.last().1,
        )
    }
}

/// Relies on `String::push`: appends exactly one character.
#[verifier::external_body]
fn push_char(out: &mut String, c: char)
    ensures
        final(out)@ == old(out)@.push(c),
{
    out.push(c);
}

/// The character of one decimal digit.
fn dec_digit_char(n: u64) -> (c: char)
    requires
        n < 10,
    ensures
        c == dec_digit(n as nat),
{
    if n == 0 {
        '0'
    } else if n == 1 {
        '1'
    } else if n == 2 {
        '2'
    } else if n == 3 {
        '3'
    } else if n == 4 {
        '4'
    } else if n == 5 {
        '5'
    } else if n == 6 {
        '6'
    } else if n == 7 {
        '7'
    } else if n == 8 {
        '8'
    } else {
        '9'
    }
}

/// The character of one lower-case hexadecimal digit.
fn hex_digit_char(n: u32) -> (c: char)
    requires
        n < 16,
    ensures
        c == hex_digit(n as nat),
{
    if n < 10 {
        dec_digit_char(n as u64)
    } else if n == 10 {
        'a'
    } else if n == 11 {
        'b'
    } else if n == 12 {
        'c'
    } else if n == 13 {
        'd'
    } else if n == 14 {
        'e'
    } else {
        'f'
    }
}

/// Appends the decimal text of a natural number.
fn append_u64(out: &mut String, n: u64)
    ensures
        final(out)@ == old(out)@ + dec_text(n as nat),
    decreases n,
{
    if n < 10 {
        push_char(out, dec_digit_char(n));
        assert(out@ =~= old(out)@ + dec_text(n as nat));
    } else {
        append_u64(out, n / 10);
        push_char(out, dec_digit_char(n % 10));
        assert(out@ =~= old(out)@ + dec_text(n as nat));
    }
}

/// Appends the decimal text of a signed integer.
fn append_i64(out: &mut String, i: i64)
    ensures
        final(out)@ == old(out)@ + int_text(i as int),
{
    proof {
        reveal_strlit("-");
    }
    if i < 0 {
        out.append("-");
        assert(out@ =~= old(out)@ + seq!['-']);
        if i == i64::MIN {
            append_u64(out, 9223372036854775808u64);
        } else {
            append_u64(out, (-i) as u64);
        }
        assert(out@ =~= old(out)@ + int_text(i as int));
    } else {
        append_u64(out, i as u64);
    }
}

/// Appends the escaped body of a string.
fn append_escaped(out: &mut String, s: &str)
    ensures
        final(out)@ == old(out)@ + escape_seq(s@),
{
    let len = s.unicode_len();
    let mut i: usize = 0;
    while i < len
        invariant
            i <= len,
            len == s@.len(),
            out@ == old(out)@ + escape_seq(s@.subrange(0, i as int)),
        decreases len - i,
    {
        proof {
            reveal_strlit("\\\"");
            reveal_strlit("\\\\");
            reveal_strlit("\\b");
            reveal_strlit("\\f");
            reveal_strlit("\\n");
            reveal_strlit("\\r");
            reveal_strlit("\\t");
            reveal_strlit("\\u00");
        }
        let ghost prefix = s@.subrange(0, i as int);
        let c = s.get_char(i);
        let code = c as u32;
        if c == '"' {
            out.append("\\\"");
        } else if c == '\\' {
            out.append("\\\\");
        } else if code == 8 {
            out.append("\\b");
        } else if code == 12 {
            out.append("\\f");
        } else if c == '\n' {
            out.append("\\n");
        } else if c == '\r' {
            out.append("\\r");
        } else if c == '\t' {
            out.append("\\t");
        } else if code < 32 {
            out.append("\\u00");
            push_char(out, hex_digit_char(code / 16));
            push_char(out, hex_digit_char(code % 16));
        } else {
            push_char(out, c);
        }
        proof {
            let next = s@.subrange(0, i as int + 1);
            assert(next.drop_last() =~= prefix);
            assert(next.last() == s@[i as int]);
            assert(out@ =~= old(out)@ + escape_seq(next));
        }
        i = i + 1;
    }
    proof {
        assert(s@.subrange(0, s@.len() as int) =~= s@);
    }
}

/// Appends a JSON string literal with the given body.
fn append_quoted(out: &mut String, s: &str)
    ensures
        final(out)@ == old(out)@ + str_text(s@),
{
    proof {
        reveal_strlit("\"");
    }
    out.append("\"");
    assert(out@ =~= old(out)@ + seq!['"']);
    append_escaped(out, s);
    out.append("\"");
    assert(out@ =~= old(out)@ + str_text(s@));
}

/// Appends the serialized text of a JSON value.
#[verifier::loop_isolation(false)]
pub fn append_json(out: &mut String, v: &JsonValue)
    ensures
        final(out)@ == old(out)@ + ser(v@),
    decreases v,
{
    match v {
        JsonValue::Null => {
            out.append("null");
        },
        JsonValue::Bool(b) => {
            if *b {
                out.append("true");
            } else {
                out.append("false");
            }
        },
        JsonValue::Int(i) => {
            append_i64(out, *i);
        },
        JsonValue::Num(t) => {
            out.append(t.as_str());
        },
        JsonValue::Str(s) => {
            append_quoted(out, s.as_str());
        },
        JsonValue::Arr(items) => {
            proof {
                reveal_strlit("[");
                reveal_strlit("]");
                reveal_strlit(",");
                lemma_jview_seq(items@);
            }
            let ghost model = jview_seq(items@);
            out.append("[");
            assert(out@ =~= old(out)@ + seq!['[']);
            let n = items.len();
            let mut i: usize = 0;
            while i < n
                invariant
                    i <= n,
                    n == items@.len(),
                    model == jview_seq(items@),
                    model.len() == items@.len(),
                    forall|k: int| 0 <= k < items@.len() ==> model[k] == jview(items@[k]),
                    out@ == old(out)@ + seq!['['] + ser_list(model.subrange(0, i as int)),
                decreases n - i,
            {
                proof {
                    reveal_strlit(",");
                }
                let ghost prefix = model.subrange(0, i as int);
                if i > 0 {
                    out.append(",");
                    assert(out@ =~= old(out)@ + seq!['['] + prefix_with_comma(prefix));
                }
                let item = &items[i];
                proof {
                    assert(*items == (*v)->Arr_0);
                    assert(decreases_to!(*v => (*v)->Arr_0));
                    assert(decreases_to!((*v)->Arr_0 => (*v)->Arr_0@));
                    assert(decreases_to!((*v)->Arr_0@ => (*v)->Arr_0@[i as int]));
                    assert(*item == (*v)->Arr_0@[i as int]);
                }
                append_json(out, item);
                proof {
                    let next = model.subrange(0, i as int + 1);
                    assert(next.drop_last() =~= prefix);
                    assert(next.last() == model[i as int]);
                    assert(out@ =~= old(out)@ + seq!['['] + ser_list(next));
                }
                i = i + 1;
            }
            proof {
                assert(model.subrange(0, model.len() as int) =~= model);
            }
            out.append("]");
            assert(out@ =~= old(out)@ + ser(v@));
        },
        JsonValue::Obj(pairs) => {
            proof {
                reveal_strlit("{");
                reveal_strlit("}");
                reveal_strlit(",");
                reveal_strlit(":");
                lemma_jview_pairs(pairs@);
            }
            let ghost model = jview_pairs(pairs@);
            out.append("{");
            assert(out@ =~= old(out)@ + seq!['{']);
            let n = pairs.len();
            let mut i: usize = 0;
            while i < n
                invariant
                    i <= n,
                    n == pairs@.len(),
                    model == jview_pairs(pairs@),
                    model.len() == pairs@.len(),
                    forall|k: int| 0 <= k < pairs@.len() ==> model[k] == (
                        pairs@[k].0@,
                        jview(pairs@[k].1),
                    ),
                    out@ == old(out)@ + seq!['{'] + ser_pairs(model.subrange(0, i as int)),
                decreases n - i,
            {
                proof {
                    reveal_strlit(",");
                    reveal_strlit(":");
                }
                let ghost prefix = model.subrange(0, i as int);
                if i > 0 {
                    out.append(",");
                }
                append_quoted(out, pairs[i].0.as_str());
                out.append(":");
                assert(out@ =~= old(out)@ + seq!['{'] + pairs_with_key(prefix, model[i as int].0));
                let member = &pairs[i].1;
                proof {
                    assert(*pairs == (*v)->Obj_0);
                    assert(decreases_to!(*v => (*v)->Obj_0));
                    assert(decreases_to!((*v)->Obj_0 => (*v)->Obj_0@));
                    assert(decreases_to!((*v)->Obj_0@ => (*v)->Obj_0@[i as int]));
                    assert(decreases_to!((*v)->Obj_0@[i as int] => (*v)->Obj_0@[i as int].1));
                    assert(*member == (*v)->Obj_0@[i as int].1);
                }
                append_json(out, member);
                proof {
                    let next = model.subrange(0, i as int + 1);
                    assert(next.drop_last() =~= prefix);
                    assert(next.last() == model[i as int]);
                    assert(out@ =~= old(out)@ + seq!['{'] + ser_pairs(next));
                }
                i = i + 1;
            }
            proof {
                assert(model.subrange(0, model.len() as int) =~= model);
            }
            out.append("}");
            assert(out@ =~= old(out)@ + ser(v@));
        },
    }
}

/// The text of a list prefix followed by the separating comma.
spec fn prefix_with_comma(prefix: Seq<JsonSpecValue>) -> Seq<char> {
    ser_list(prefix) + seq![',']
}

/// The text of an object prefix up to and including one more key and its colon.
spec fn pairs_with_key(prefix: Seq<(Seq<char>, JsonSpecValue)>, key: Seq<char>) -> Seq<char> {
    if prefix.len() == 0 {
        str_text(key) + seq![':']
    } else {
        ser_pairs(prefix) + seq![','] + str_text(key) + seq![':']
    }
}

/// Text that stays on one sink line: it holds no line break.
pub open spec fn single_line(s: Seq<char>) -> bool {
    forall|i: int| 0 <= i < s.len() ==> s[i] != '\n' && s[i] != '\r'
}

/// A value whose number texts hold no line break. Everything else — the
/// characters of strings included — is escaped away by the serializer.
pub open spec fn single_line_value(v: JsonSpecValue) -> bool
    decreases v,
{
    match v {
        JsonSpecValue::NumV(t) => single_line(t),
        JsonSpecValue::ArrV(items) => forall|i: int|
            0 <= i < items.len() ==> single_line_value(#[trigger] items[i]),
        JsonSpecValue::ObjV(pairs) => forall|i: int|
            0 <= i < pairs.len() ==> single_line_value(#[trigger] pairs[i].1),
        _ => true,
    }
}

/// An escaped string body never holds a line break.
pub proof fn lemma_escape_single_line(s: Seq<char>)
    ensures
        single_line(escape_seq(s)),
    decreases s.len(),
{
    if s.len() > 0 {
        lemma_escape_single_line(s.drop_last());
    }
}

/// Decimal text never holds a line break.
pub proof fn lemma_dec_text_single_line(n: nat)
    ensures
        single_line(dec_text(n)),
    decreases n,
{
    if n >= 10 {
        lemma_dec_text_single_line(n / 10);
    }
}

/// Integer text never holds a line break.
pub proof fn lemma_int_text_single_line(i: int)
    ensures
        single_line(int_text(i)),
{
    if i < 0 {
        lemma_dec_text_single_line((-i) as nat);
    } else {
        lemma_dec_text_single_line(i as nat);
    }
}

/// The serialized text of a single-line value holds no line break.
pub proof fn lemma_ser_single_line(v: JsonSpecValue)
    requires
        single_line_value(v),
    ensures
        single_line(ser(v)),
    decreases v,
{
    reveal_strlit("null");
    reveal_strlit("true");
    reveal_strlit("false");
    match v {
        JsonSpecValue::IntV(i) => {
            lemma_int_text_single_line(i as int);
        },
        JsonSpecValue::StrV(s) => {
            lemma_escape_single_line(s);
        },
        JsonSpecValue::ArrV(items) => {
            lemma_ser_list_single_line(items);
        },
        JsonSpecValue::ObjV(pairs) => {
            lemma_ser_pairs_single_line(pairs);
        },
        _ => {},
    }
}

/// The comma-separated element texts hold no line break.
pub proof fn lemma_ser_list_single_line(items: Seq<JsonSpecValue>)
    requires
        forall|i: int| 0 <= i < items.len() ==> single_line_value(#[trigger] items[i]),
    ensures
        single_line(ser_list(items)),
    decreases items,
{
    if items.len() == 1 {
        lemma_ser_single_line(items[0]);
    } else if items.len() > 1 {
        lemma_ser_list_single_line(items.drop_last());
        lemma_ser_single_line(items.last());
    }
}

/// The comma-separated member texts hold no line break.
pub proof fn lemma_ser_pairs_single_line(pairs: Seq<(Seq<char>, JsonSpecValue)>)
    requires
        forall|i: int| 0 <= i < pairs.len() ==> single_line_value((#[trigger] pairs[i]).1),
    ensures
        single_line(ser_pairs(pairs)),
    decreases pairs,
{
    if pairs.len() == 1 {
        lemma_escape_single_line(pairs[0].0);
        lemma_ser_single_line(pairs[0].1);
    } else if pairs.len() > 1 {
        lemma_ser_pairs_single_line(pairs.drop_last());
        lemma_escape_single_line(pairs.last().0);
        lemma_ser_single_line(pairs.last().1);
    }
}

/// Clones a JSON value: the copy has the very same model.
#[verifier::loop_isolation(false)]
pub fn clone_json(v: &JsonValue) -> (r: JsonValue)
    ensures
        r@ == v@,
    decreases v,
{
    match v {
        JsonValue::Null => JsonValue::Null,
        JsonValue::Bool(b) => JsonValue::Bool(*b),
        JsonValue::Int(i) => JsonValue::Int(*i),
        JsonValue::Num(t) => JsonValue::Num(t.clone()),
        JsonValue::Str(s) => JsonValue::Str(s.clone()),
        JsonValue::Arr(items) => {
            proof {
                lemma_jview_seq(items@);
            }
            let mut out: Vec<JsonValue> = Vec::new();
            let n = items.len();
            let mut i: usize = 0;
            while i < n
                invariant
                    i <= n,
                    n == items@.len(),
                    out@.len() == i,
                    forall|k: int| #![trigger out@[k]] 0 <= k < i ==> jview(out@[k]) == jview(
                        items@[k],
                    ),
                decreases n - i,
            {
                let item = &items[i];
                proof {
                    assert(decreases_to!(*v => (*v)->Arr_0));
                    assert(decreases_to!((*v)->Arr_0 => (*v)->Arr_0@));
                    assert(decreases_to!((*v)->Arr_0@ => (*v)->Arr_0@[i as int]));
                    assert(*item == (*v)->Arr_0@[i as int]);
                }
                let copy = clone_json(item);
                out.push(copy);
                i = i + 1;
            }
            let r = JsonValue::Arr(out);
            proof {
                lemma_jview_seq(out@);
                assert(jview_seq(out@) =~= jview_seq(items@));
            }
            r
        },
        JsonValue::Obj(pairs) => {
            proof {
                lemma_jview_pairs(pairs@);
            }
            let mut out: Vec<(String, JsonValue)> = Vec::new();
            let n = pairs.len();
            let mut i: usize = 0;
            while i < n
                invariant
                    i <= n,
                    n == pairs@.len(),
                    out@.len() == i,
                    forall|k: int| #![trigger out@[k]]
                        0 <= k < i ==> out@[k].0@ == pairs@[k].0@ && jview(out@[k].1) == jview(
                            pairs@[k].1,
                        ),
                decreases n - i,
            {
                let name = pairs[i].0.clone();
                let member = &pairs[i].1;
                proof {
                    assert(decreases_to!(*v => (*v)->Obj_0));
                    assert(decreases_to!((*v)->Obj_0 => (*v)->Obj_0@));
                    assert(decreases_to!((*v)->Obj_0@ => (*v)->Obj_0@[i as int]));
                    assert(decreases_to!((*v)->Obj_0@[i as int] => (*v)->Obj_0@[i as int].1));
                    assert(*member == (*v)->Obj_0@[i as int].1);
                }
                let copy = clone_json(member);
                out.push((name, copy));
                i = i + 1;
            }
            let r = JsonValue::Obj(out);
            proof {
                lemma_jview_pairs(out@);
                assert(jview_pairs(out@) =~= jview_pairs(pairs@));
            }
            r
        },
    }
}

#[verifier::external_type_specification]
#[verifier::external_body]
pub struct ExSerdeValue(serde_json::Value);

/// What `serde_json::from_str` makes of a text, rendered in the library's
/// model: nothing where the text is not a JSON document, else the document.
pub uninterp spec fn json_model_of(s: Seq<char>) -> Option<JsonSpecValue>;

/// The library's model of what a `serde_json::Value` holds.
pub uninterp spec fn value_model(v: serde_json::Value) -> JsonSpecValue;

/// Relies on `serde_json::from_str`: whether a text parses, and to what
/// value, depends on the text alone.
#[verifier::external_body]
fn parse_json_raw(s: &str) -> (r: Option<serde_json::Value>)
    ensures
        (r is Some) == (json_model_of(s@) is Some),
        r is Some ==> value_model(r->0) == json_model_of(s@)->0,
{
    serde_json::from_str::<serde_json::Value>(s).ok()
}

/// Relies on `serde_json::Value`'s variants: each is carried one for one
/// into the library's own value, children included. A number that fits an
/// `i64` becomes `Int`; any other keeps its decimal text.
#[verifier::external_body]
fn from_value(v: serde_json::Value) -> (r: JsonValue)
    ensures
        r@ == value_model(v),
{
    match v {
        serde_json::Value::Null => JsonValue::Null,
        serde_json::Value::Bool(b) => JsonValue::Bool(b),
        serde_json::Value::Number(n) => match n.as_i64() {
            Some(i) => JsonValue::Int(i),
            None => JsonValue::Num(n.to_string()),
        },
        serde_json::Value::String(s) => JsonValue::Str(s),
        serde_json::Value::Array(a) => JsonValue::Arr(a.into_iter().map(from_value).collect()),
        serde_json::Value::Object(m) => JsonValue::Obj(
            m.into_iter().map(|p| (p.0, from_value(p.1))).collect(),
        ),
    }
}

/// Parses a JSON document into the library's own value.
pub fn parse_json(s: &str) -> (r: Option<JsonValue>)
    ensures
        (r is Some) == (json_model_of(s@) is Some),
        r is Some ==> r->0@ == json_model_of(s@)->0,
{
    match parse_json_raw(s) {
        Some(v) => Some(from_value(v)),
        None => None,
    }
}

/// Serializes a JSON value to its text.
pub fn to_json_text(v: &JsonValue) -> (s: String)
    ensures
        s@ == ser(v@),
{
    let mut out = String::new();
    append_json(&mut out, v);
    proof {
        assert(out@ =~= ser(v@));
    }
    out
}

} // verus!
