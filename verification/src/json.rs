use vstd::prelude::*;

use crate::strutil::{push_char, push_i64, spec_i64_string};


verus! {

/// A JSON value, as plain data. Wire frames carry one such value.
#[derive(Debug)]
pub enum Json {
    Null,
    Bool(bool),
    Int(i64),
    Str(String),
    Arr(Vec<Json>),
    Obj(Vec<(String, Json)>),
}

/// The character for a hexadecimal digit.
pub open spec fn spec_hex_char(d: int) -> char {
    if d < 10 {
        crate::strutil::spec_digit_char(d)
    } else if d == 10 {
        'a'
    } else if d == 11 {
        'b'
    } else if d == 12 {
        'c'
    } else if d == 13 {
        'd'
    } else if d == 14 {
        'e'
    } else {
        'f'
    }
}

/// How one character appears inside a JSON string literal: quotes and
/// backslashes are escaped, control characters become `\u00XX`, and
/// everything else stands for itself.
pub open spec fn spec_escape_char(c: char) -> Seq<char> {
    if c == '"' {
        seq!['\\', '"']
    } else if c == '\\' {
        seq!['\\', '\\']
    } else if (c as u32) < 32 {
        seq!['\\', 'u', '0', '0', spec_hex_char(c as int / 16), spec_hex_char(c as int % 16)]
    } else {
        seq![c]
    }
}

/// A string's characters, escaped for a JSON string literal.
pub open spec fn spec_escape(s: Seq<char>) -> Seq<char>
    decreases s.len(),
{
    if s.len() == 0 {
        Seq::empty()
    } else {
        spec_escape(s.drop_last()) + spec_escape_char(s.last())
    }
}

/// A JSON string literal: a quote, the escaped characters, a quote.
pub open spec fn spec_print_string(s: Seq<char>) -> Seq<char> {
    seq!['"'] + spec_escape(s) + seq!['"']
}

/// The canonical text of a JSON value.
pub open spec fn spec_print(j: Json) -> Seq<char>
    decreases j,
{
    match j {
        Json::Null => "null"@,
        Json::Bool(b) => if b {
            "true"@
        } else {
            "false"@
        },
        Json::Int(n) => spec_i64_string(n as int),
        Json::Str(s) => spec_print_string(s@),
        Json::Arr(items) => seq!['['] + spec_print_items(items@) + seq![']'],
        Json::Obj(fields) => seq!['{'] + spec_print_fields(fields@) + seq!['}'],
    }
}

/// The comma-separated texts of array items.
pub open spec fn spec_print_items(items: Seq<Json>) -> Seq<char>
    decreases items,
{
    if items.len() == 0 {
        Seq::empty()
    } else if items.len() == 1 {
        spec_print(items.last())
    } else {
        spec_print_items(items.drop_last()) + seq![','] + spec_print(items.last())
    }
}

/// The comma-separated texts of object members.
pub open spec fn spec_print_fields(fields: Seq<(String, Json)>) -> Seq<char>
    decreases fields,
{
    if fields.len() == 0 {
        Seq::empty()
    } else if fields.len() == 1 {
        spec_print_string(fields.last().0@) + seq![':'] + spec_print(fields.last().1)
    } else {
        spec_print_fields(fields.drop_last()) + seq![','] + spec_print_string(fields.last().0@)
            + seq![':'] + spec_print(fields.last().1)
    }
}

/// The character for a hexadecimal digit.
fn hex_char(d: u8) -> (c: char)
    requires
        d < 16,
    ensures
        c == spec_hex_char(d as int),
{
    if d < 10 {
        crate::strutil::digit_char(d)
    } else {
        match d {
            10 => 'a',
            11 => 'b',
            12 => 'c',
            13 => 'd',
            14 => 'e',
            _ => 'f',
        }
    }
}

/// Append one character of a JSON string literal, escaped as needed.
fn push_escaped_char(out: &mut String, c: char)
    ensures
        final(out)@ == old(out)@ + spec_escape_char(c),
{
    let code = c as u32;
    if c == '"' {
        push_char(out, '\\');
        push_char(out, '"');
        proof {
            assert(old(out)@.push('\\').push('"') =~= old(out)@ + spec_escape_char(c));
        }
    } else if c == '\\' {
        push_char(out, '\\');
        push_char(out, '\\');
        proof {
            assert(old(out)@.push('\\').push('\\') =~= old(out)@ + spec_escape_char(c));
        }
    } else if code < 32 {
        push_char(out, '\\');
        push_char(out, 'u');
        push_char(out, '0');
        push_char(out, '0');
        push_char(out, hex_char((code / 16) as u8));
        push_char(out, hex_char((code % 16) as u8));
        proof {
            assert(old(out)@.push('\\').push('u').push('0').push('0').push(
                spec_hex_char(c as int / 16),
            ).push(spec_hex_char(c as int % 16)) =~= old(out)@ + spec_escape_char(c));
        }
    } else {
        push_char(out, c);
        proof {
            assert(old(out)@.push(c) =~= old(out)@ + spec_escape_char(c));
        }
    }
}

/// Append a JSON string literal.
fn push_string_literal(out: &mut String, s: &str)
    ensures
        final(out)@ == old(out)@ + spec_print_string(s@),
{
    push_char(out, '"');
    let n = s.unicode_len();
    let mut i: usize = 0;
    while i < n
        invariant
            n == s@.len(),
            0 <= i <= n,
            out@ == old(out)@ + seq!['"'] + spec_escape(s@.take(i as int)),
        decreases n - i,
    {
        proof {
            assert(s@.take(i as int + 1).drop_last() =~= s@.take(i as int));
        }
        push_escaped_char(out, s.get_char(i));
        i = i + 1;
    }
    push_char(out, '"');
    proof {
        assert(s@.take(n as int) =~= s@);
        assert((old(out)@ + seq!['"'] + spec_escape(s@)).push('"') =~= old(out)@
            + spec_print_string(s@));
        assert(old(out)@.push('"') =~= old(out)@ + seq!['"'] + spec_escape(
            s@.take(0),
        )) by {
            assert(s@.take(0) =~= Seq::<char>::empty());
        }
    }
}

/// Append the canonical text of a JSON value.
pub fn push_json(out: &mut String, j: &Json)
    ensures
        final(out)@ == old(out)@ + spec_print(*j),
    decreases *j,
{
    match j {
        Json::Null => {
            proof {
                reveal_strlit("null");
            }
            out.append("null");
        },
        Json::Bool(b) => {
            proof {
                reveal_strlit("true");
                reveal_strlit("false");
            }
            if *b {
                out.append("true");
            } else {
                out.append("false");
            }
        },
        Json::Int(n) => {
            push_i64(out, *n);
        },
        Json::Str(s) => {
            push_string_literal(out, s.as_str());
        },
        Json::Arr(items) => {
            push_char(out, '[');
            let ghost base = old(out)@ + seq!['['];
            let n = items.len();
            let mut i: usize = 0;
            while i < n
                invariant
                    n == items@.len(),
                    0 <= i <= n,
                    out@ == base + spec_print_items(items@.take(i as int)),
                    *j == Json::Arr(*items),
                decreases n - i,
            {
                proof {
                    assert(items@.take(i as int + 1).drop_last() =~= items@.take(i as int));
                    assert(items@.take(i as int + 1).last() == items@[i as int]);
                }
                if i > 0 {
                    push_char(out, ',');
                }
                proof {
                    broadcast use vstd::std_specs::vec::group_vec_axioms;
                    assert(j->Arr_0 == *items);
                    assert(decreases_to!(*j => j->Arr_0));
                }
                push_json(out, &items[i]);
                proof {
                    if i == 0 {
                        assert(spec_print_items(items@.take(1)) =~= spec_print(items@[0]));
                        assert(base + Seq::<char>::empty() =~= base);
                        assert(base + spec_print(items@[0]) =~= out@);
                    } else {
                        assert((base + spec_print_items(items@.take(i as int))).push(',')
                            + spec_print(items@[i as int]) =~= base + spec_print_items(
                            items@.take(i as int + 1),
                        ));
                    }
                }
                i = i + 1;
            }
            push_char(out, ']');
            proof {
                assert(items@.take(n as int) =~= items@);
                assert(base + spec_print_items(items@.take(0)) =~= base) by {
                    assert(items@.take(0) =~= Seq::<Json>::empty());
                }
                assert((base + spec_print_items(items@)).push(']') =~= old(out)@ + spec_print(
                    *j,
                ));
            }
        },
        Json::Obj(fields) => {
            push_char(out, '{');
            let ghost base = old(out)@ + seq!['{'];
            let n = fields.len();
            let mut i: usize = 0;
            while i < n
                invariant
                    n == fields@.len(),
                    0 <= i <= n,
                    out@ == base + spec_print_fields(fields@.take(i as int)),
                    *j == Json::Obj(*fields),
                decreases n - i,
            {
                proof {
                    assert(fields@.take(i as int + 1).drop_last() =~= fields@.take(i as int));
                    assert(fields@.take(i as int + 1).last() == fields@[i as int]);
                }
                if i > 0 {
                    push_char(out, ',');
                }
                let ghost mark = out@;
                push_string_literal(out, fields[i].0.as_str());
                push_char(out, ':');
                proof {
                    broadcast use vstd::std_specs::vec::group_vec_axioms;
                    assert(j->Obj_0 == *fields);
                    assert(decreases_to!(*j => j->Obj_0));
                }
                push_json(out, &fields[i].1);
                proof {
                    let name = spec_print_string(fields@[i as int].0@);
                    let val = spec_print(fields@[i as int].1);
                    assert(out@ =~= (mark + name).push(':') + val);
                    if i == 0 {
                        assert(spec_print_fields(fields@.take(1)) =~= name + seq![':'] + val);
                        assert(base + Seq::<char>::empty() =~= base);
                        assert(out@ =~= base + spec_print_fields(fields@.take(1)));
                    } else {
                        assert(out@ =~= base + spec_print_fields(fields@.take(i as int + 1)));
                    }
                }
                i = i + 1;
            }
            push_char(out, '}');
            proof {
                assert(fields@.take(n as int) =~= fields@);
                assert(base + spec_print_fields(fields@.take(0)) =~= base) by {
                    assert(fields@.take(0) =~= Seq::<(String, Json)>::empty());
                }
                assert((base + spec_print_fields(fields@)).push('}') =~= old(out)@ + spec_print(
                    *j,
                ));
            }
        },
    }
}

/// The canonical text of a JSON value.
pub fn print_json(j: &Json) -> (r: String)
    ensures
        r@ == spec_print(*j),
{
    let mut out = String::new();
    push_json(&mut out, j);
    proof {
        assert(Seq::<char>::empty() + spec_print(*j) =~= spec_print(*j));
    }
    out
}

/// The member an object holds under a name: the first pair whose key
/// matches.
pub open spec fn spec_obj_get(fields: Seq<(String, Json)>, key: Seq<char>) -> Option<Json>
    decreases fields.len(),
{
    if fields.len() == 0 {
        None
    } else if fields[0].0@ == key {
        Some(fields[0].1)
    } else {
        spec_obj_get(fields.drop_first(), key)
    }
}

/// The member under a name: the first pair whose key matches.
pub fn obj_get<'a>(fields: &'a Vec<(String, Json)>, key: &str) -> (r: Option<&'a Json>)
    ensures
        match r {
            Some(v) => spec_obj_get(fields@, key@) == Some(*v),
            None => spec_obj_get(fields@, key@) is None,
        },
{
    let needle = key.to_owned();
    proof {
        assert(fields@.skip(0) =~= fields@);
    }
    let mut i: usize = 0;
    while i < fields.len()
        invariant
            needle@ == key@,
            0 <= i <= fields@.len(),
            spec_obj_get(fields@, key@) == spec_obj_get(fields@.skip(i as int), key@),
        decreases fields@.len() - i,
    {
        proof {
            assert(fields@.skip(i as int)[0] == fields@[i as int]);
            assert(fields@.skip(i as int).drop_first() =~= fields@.skip(i as int + 1));
        }
        if fields[i].0.eq(&needle) {
            return Some(&fields[i].1);
        }
        i = i + 1;
    }
    proof {
        assert(fields@.skip(fields@.len() as int) =~= Seq::<(String, Json)>::empty());
    }
    None
}

/// Whether a held string equals a literal.
pub fn str_is(s: &String, lit: &str) -> (r: bool)
    ensures
        r == (s@ == lit@),
{
    let l = lit.to_owned();
    s.eq(&l)
}

} // verus!
