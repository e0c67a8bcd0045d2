use vstd::prelude::*;

use crate::text::int_text;
use crate::text::nat_text;
use crate::text::i64_text;
use crate::text::u64_text;
use crate::text::push_char;
use crate::value::Val;
use crate::value::mj_value;
use crate::value::entries_view;
use crate::value::items_view;
use crate::value::lemma_entries_view;
use crate::value::lemma_items_view;

verus! {

/// The character for the hexadecimal digit `d` (lower case), which is
/// expected to lie below sixteen.
pub open spec fn hex_digit_char(d: int) -> char {
    if d == 0 {
        '0'
    } else if d == 1 {
        '1'
    } else if d == 2 {
        '2'
    } else if d == 3 {
        '3'
    } else if d == 4 {
        '4'
    } else if d == 5 {
        '5'
    } else if d == 6 {
        '6'
    } else if d == 7 {
        '7'
    } else if d == 8 {
        '8'
    } else if d == 9 {
        '9'
    } else if d == 10 {
        'a'
    } else if d == 11 {
        'b'
    } else if d == 12 {
        'c'
    } else if d == 13 {
        'd'
    } else if d == 14 {
        'e'
    } else {
        'f'
    }
}

/// How one character appears inside a JSON string literal: quotes and
/// backslashes are escaped, the common control characters take their short
/// escapes, every other control character takes a `\u00..` escape, and any
/// other character stands for itself.
pub open spec fn escape_char(c: char) -> Seq<char> {
    if c == '"' {
        seq!['\\', '"']
    } else if c == '\\' {
        seq!['\\', '\\']
    } else if c == '\n' {
        seq!['\\', 'n']
    } else if c == '\r' {
        seq!['\\', 'r']
    } else if c == '\t' {
        seq!['\\', 't']
    } else if (c as u32) < 32 {
        seq!['\\', 'u', '0', '0', hex_digit_char(c as u32 as int / 16), hex_digit_char(
            c as u32 as int % 16,
        )]
    } else {
        seq![c]
    }
}

/// The body of a JSON string literal: each character escaped in turn.
pub open spec fn escaped(s: Seq<char>) -> Seq<char>
    decreases s.len(),
{
    if s.len() == 0 {
        Seq::empty()
    } else {
        escaped(s.drop_last()) + escape_char(s.last())
    }
}

/// A JSON string literal: the escaped body between double quotes.
pub open spec fn quoted(s: Seq<char>) -> Seq<char> {
    seq!['"'] + escaped(s) + seq!['"']
}

/// The JSON text of a value: objects for maps, arrays for lists, literals
/// for the scalars.  Map entries appear in insertion order.
pub open spec fn json_of(v: Val) -> Seq<char>
    decreases v,
{
    match v {
        Val::Mapping(es) => seq!['{'] + json_of_entries(es) + seq!['}'],
        Val::Listing(vs) => seq!['['] + json_of_items(vs) + seq![']'],
        Val::Str(s) => quoted(s),
        Val::Bool(b) => if b {
            "true"@
        } else {
            "false"@
        },
        Val::I8(x) => int_text(x as int),
        Val::I16(x) => int_text(x as int),
        Val::I32(x) => int_text(x as int),
        Val::I64(x) => int_text(x as int),
        Val::U8(x) => nat_text(x as nat),
        Val::U16(x) => nat_text(x as nat),
        Val::U32(x) => nat_text(x as nat),
        Val::U64(x) => nat_text(x as nat),
        Val::F32Text(t) => t,
        Val::F64Text(t) => t,
    }
}

/// The JSON text of one map entry: the quoted key, a colon, the value.
pub open spec fn entry_text(e: (Seq<char>, Val)) -> Seq<char>
    decreases e,
{
    quoted(e.0) + seq![':'] + json_of(e.1)
}

/// The JSON text of a run of map entries, comma-separated.
pub open spec fn json_of_entries(es: Seq<(Seq<char>, Val)>) -> Seq<char>
    decreases es,
{
    if es.len() == 0 {
        Seq::empty()
    } else if es.len() == 1 {
        entry_text(es[0])
    } else {
        json_of_entries(es.drop_last()) + seq![','] + entry_text(es.last())
    }
}

/// The JSON text of a run of list items, comma-separated.
pub open spec fn json_of_items(vs: Seq<Val>) -> Seq<char>
    decreases vs,
{
    if vs.len() == 0 {
        Seq::empty()
    } else if vs.len() == 1 {
        json_of(vs[0])
    } else {
        json_of_items(vs.drop_last()) + seq![','] + json_of(vs.last())
    }
}

/// The character for the hexadecimal digit `d`, which must lie below
/// sixteen.
fn hex_digit(d: u32) -> (c: char)
    requires
        d < 16,
    ensures
        c == hex_digit_char(d as int),
{
    if d == 0 {
        '0'
    } else if d == 1 {
        '1'
    } else if d == 2 {
        '2'
    } else if d == 3 {
        '3'
    } else if d == 4 {
        '4'
    } else if d == 5 {
        '5'
    } else if d == 6 {
        '6'
    } else if d == 7 {
        '7'
    } else if d == 8 {
        '8'
    } else if d == 9 {
        '9'
    } else if d == 10 {
        'a'
    } else if d == 11 {
        'b'
    } else if d == 12 {
        'c'
    } else if d == 13 {
        'd'
    } else if d == 14 {
        'e'
    } else {
        'f'
    }
}

/// Appends the escape of one character to the output.
fn push_escape(r: &mut String, c: char)
    ensures
        final(r)@ == old(r)@ + escape_char(c),
{
    let ghost base = old(r)@;
    let u = c as u32;
    if c == '"' {
        push_char(r, '\\');
        push_char(r, '"');
        proof {
            assert(r@ =~= base + escape_char(c));
        }
    } else if c == '\\' {
        push_char(r, '\\');
        push_char(r, '\\');
        proof {
            assert(r@ =~= base + escape_char(c));
        }
    } else if c == '\n' {
        push_char(r, '\\');
        push_char(r, 'n');
        proof {
            assert(r@ =~= base + escape_char(c));
        }
    } else if c == '\r' {
        push_char(r, '\\');
        push_char(r, 'r');
        proof {
            assert(r@ =~= base + escape_char(c));
        }
    } else if c == '\t' {
        push_char(r, '\\');
        push_char(r, 't');
        proof {
            assert(r@ =~= base + escape_char(c));
        }
    } else if u < 32 {
        push_char(r, '\\');
        push_char(r, 'u');
        push_char(r, '0');
        push_char(r, '0');
        let hi = hex_digit(u / 16);
        push_char(r, hi);
        let lo = hex_digit(u % 16);
        push_char(r, lo);
        proof {
            assert(r@ =~= base + escape_char(c));
        }
    } else {
        push_char(r, c);
        proof {
            assert(r@ =~= base + escape_char(c));
        }
    }
}

/// Appends the JSON string literal for `s` to the output.
fn quote_into(r: &mut String, s: &str)
    ensures
        final(r)@ == old(r)@ + quoted(s@),
{
    let ghost base = old(r)@;
    let n = s.unicode_len();
    push_char(r, '"');
    let mut i: usize = 0;
    while i < n
        invariant
            i <= n,
            n == s@.len(),
            r@ == base + seq!['"'] + escaped(s@.take(i as int)),
        decreases n - i,
    {
        let c = s.get_char(i);
        push_escape(r, c);
        proof {
            assert(s@.take(i + 1).drop_last() =~= s@.take(i as int));
            assert(s@.take(i + 1).last() == s@[i as int]);
            assert(r@ =~= base + seq!['"'] + escaped(s@.take(i + 1)));
        }
        i = i + 1;
    }
    push_char(r, '"');
    proof {
        assert(s@.take(s@.len() as int) =~= s@);
        assert(r@ =~= base + quoted(s@));
    }
}

impl mj_value {
    /// Renders the value as its JSON text.
    #[verifier::loop_isolation(false)]
    pub fn to_json(&self) -> (r: String)
        ensures
            r@ == json_of(self@),
        decreases self,
    {
        match self {
            mj_value::Mapping(es) => {
                let ghost ves = entries_view(es@);
                proof {
                    lemma_entries_view(es@);
                }
                let mut r = String::new();
                push_char(&mut r, '{');
                let mut i: usize = 0;
                while i < es.len()
                    invariant
                        i <= es.len(),
                        r@ == seq!['{'] + json_of_entries(ves.take(i as int)),
                    decreases es.len() - i,
                {
                    if i > 0 {
                        push_char(&mut r, ',');
                    }
                    quote_into(&mut r, es[i].0.as_str());
                    push_char(&mut r, ':');
                    let sub = es[i].1.to_json();
                    r.append(sub.as_str());
                    proof {
                        assert(ves.take(i + 1).drop_last() =~= ves.take(i as int));
                        assert(ves.take(i + 1).last() == ves[i as int]);
                        assert(ves[i as int] == (es@[i as int].0@, es@[i as int].1@));
                        if i == 0 {
                            assert(json_of_entries(ves.take(1)) == entry_text(ves.take(1)[0]));
                            assert(ves.take(1)[0] == ves[0]);
                        } else {
                            assert(json_of_entries(ves.take(i + 1)) == json_of_entries(
                                ves.take(i as int),
                            ) + seq![','] + entry_text(ves[i as int]));
                        }
                        assert(r@ =~= seq!['{'] + json_of_entries(ves.take(i + 1)));
                    }
                    i = i + 1;
                }
                push_char(&mut r, '}');
                proof {
                    assert(ves.take(ves.len() as int) =~= ves);
                    assert(r@ =~= seq!['{'] + json_of_entries(ves) + seq!['}']);
                }
                r
            },
            mj_value::Listing(vs) => {
                let ghost vvs = items_view(vs@);
                proof {
                    lemma_items_view(vs@);
                }
                let mut r = String::new();
                push_char(&mut r, '[');
                let mut i: usize = 0;
                while i < vs.len()
                    invariant
                        i <= vs.len(),
                        r@ == seq!['['] + json_of_items(vvs.take(i as int)),
                    decreases vs.len() - i,
                {
                    if i > 0 {
                        push_char(&mut r, ',');
                    }
                    let sub = vs[i].to_json();
                    r.append(sub.as_str());
                    proof {
                        assert(vvs.take(i + 1).drop_last() =~= vvs.take(i as int));
                        assert(vvs.take(i + 1).last() == vvs[i as int]);
                        assert(vvs[i as int] == vs@[i as int]@);
                        if i == 0 {
                            assert(json_of_items(vvs.take(1)) == json_of(vvs.take(1)[0]));
                            assert(vvs.take(1)[0] == vvs[0]);
                        } else {
                            assert(json_of_items(vvs.take(i + 1)) == json_of_items(
                                vvs.take(i as int),
                            ) + seq![','] + json_of(vvs[i as int]));
                        }
                        assert(r@ =~= seq!['['] + json_of_items(vvs.take(i + 1)));
                    }
                    i = i + 1;
                }
                push_char(&mut r, ']');
                proof {
                    assert(vvs.take(vvs.len() as int) =~= vvs);
                    assert(r@ =~= seq!['['] + json_of_items(vvs) + seq![']']);
                }
                r
            },
            mj_value::Str(s) => {
                let mut r = String::new();
                quote_into(&mut r, s.as_str());
                r
            },
            mj_value::Bool(b) => {
                if *b {
                    String::from_str("true")
                } else {
                    String::from_str("false")
                }
            },
            mj_value::I8(x) => i64_text(*x as i64),
            mj_value::I16(x) => i64_text(*x as i64),
            mj_value::I32(x) => i64_text(*x as i64),
            mj_value::I64(x) => i64_text(*x),
            mj_value::U8(x) => u64_text(*x as u64),
            mj_value::U16(x) => u64_text(*x as u64),
            mj_value::U32(x) => u64_text(*x as u64),
            mj_value::U64(x) => u64_text(*x),
            mj_value::F32Text(t) => t.clone(),
            mj_value::F64Text(t) => t.clone(),
        }
    }
}

} // verus!
