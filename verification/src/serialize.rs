use vstd::prelude::*;

use crate::json::{
    lemma_size_entries_elem, lemma_size_seq_elem, lemma_view_entries, lemma_view_seq, spec_size,
    JsonValue, SpecJson,
};
use crate::text::push_char;

verus! {

/// Compact JSON serialization with an exact character-level specification:
/// no whitespace, `,` and `:` separators, strings escaped the way common
/// JSON serializers escape them (quote, backslash, and control characters).

/// The lower-case hexadecimal digit for `n` in `0..16`.
pub open spec fn spec_hex_digit(n: int) -> char {
    if n < 10 {
        ((48 + n) as u8) as char
    } else {
        ((87 + n) as u8) as char
    }
}

/// How one character appears inside a JSON string literal.
pub open spec fn spec_escape_char(c: char) -> Seq<char> {
    if c == '"' {
        seq!['\\', '"']
    } else if c == '\\' {
        seq!['\\', '\\']
    } else if c == '\n' {
        seq!['\\', 'n']
    } else if c == '\r' {
        seq!['\\', 'r']
    } else if c == '\t' {
        seq!['\\', 't']
    } else if c == '\u{8}' {
        seq!['\\', 'b']
    } else if c == '\u{c}' {
        seq!['\\', 'f']
    } else if (c as u32) < 32 {
        seq![
            '\\',
            'u',
            '0',
            '0',
            spec_hex_digit((c as u32) as int / 16),
            spec_hex_digit((c as u32) as int % 16),
        ]
    } else {
        seq![c]
    }
}

pub open spec fn spec_escape(s: Seq<char>) -> Seq<char>
    decreases s.len(),
{
    if s.len() == 0 {
        Seq::empty()
    } else {
        spec_escape_char(s[0]) + spec_escape(s.skip(1))
    }
}

/// A string literal: quotes around the escaped characters.
pub open spec fn spec_string_text(s: Seq<char>) -> Seq<char> {
    seq!['"'] + spec_escape(s) + seq!['"']
}

/// The compact text of a document.
pub open spec fn spec_json_text(v: SpecJson) -> Seq<char>
    decreases v,
{
    match v {
        SpecJson::Null => seq!['n', 'u', 'l', 'l'],
        SpecJson::Bool(b) => if b {
            seq!['t', 'r', 'u', 'e']
        } else {
            seq!['f', 'a', 'l', 's', 'e']
        },
        SpecJson::Num(s) => s,
        SpecJson::Str(s) => spec_string_text(s),
        SpecJson::Arr(a) => seq!['['] + spec_items_text(a) + seq![']'],
        SpecJson::Obj(m) => seq!['{'] + spec_entries_text(m) + seq!['}'],
    }
}

pub open spec fn spec_items_text(a: Seq<SpecJson>) -> Seq<char>
    decreases a,
{
    if a.len() == 0 {
        Seq::empty()
    } else {
        spec_json_text(a[0]) + spec_items_rest(a.skip(1))
    }
}

pub open spec fn spec_items_rest(a: Seq<SpecJson>) -> Seq<char>
    decreases a,
{
    if a.len() == 0 {
        Seq::empty()
    } else {
        seq![','] + spec_json_text(a[0]) + spec_items_rest(a.skip(1))
    }
}

pub open spec fn spec_entry_text(e: (Seq<char>, SpecJson)) -> Seq<char>
    decreases e,
{
    spec_string_text(e.0) + seq![':'] + spec_json_text(e.1)
}

pub open spec fn spec_entries_text(m: Seq<(Seq<char>, SpecJson)>) -> Seq<char>
    decreases m,
{
    if m.len() == 0 {
        Seq::empty()
    } else {
        spec_entry_text(m[0]) + spec_entries_rest(m.skip(1))
    }
}

pub open spec fn spec_entries_rest(m: Seq<(Seq<char>, SpecJson)>) -> Seq<char>
    decreases m,
{
    if m.len() == 0 {
        Seq::empty()
    } else {
        seq![','] + spec_entry_text(m[0]) + spec_entries_rest(m.skip(1))
    }
}

proof fn lemma_escape_snoc(s: Seq<char>, c: char)
    ensures
        spec_escape(s.push(c)) == spec_escape(s) + spec_escape_char(c),
    decreases s.len(),
{
    if s.len() == 0 {
        assert(s.push(c)[0] == c);
        assert(s.push(c).skip(1) =~= Seq::<char>::empty());
        assert(s.push(c).len() == 1);
        assert(spec_escape(s.push(c)) == spec_escape_char(c) + spec_escape(s.push(c).skip(1)));
        assert(spec_escape(s.push(c).skip(1)) == Seq::<char>::empty());
        assert(spec_escape(s) == Seq::<char>::empty());
        assert(spec_escape_char(c) + Seq::<char>::empty()
            =~= Seq::<char>::empty() + spec_escape_char(c));
    } else {
        assert(s.push(c)[0] == s[0]);
        assert(s.push(c).skip(1) =~= s.skip(1).push(c));
        lemma_escape_snoc(s.skip(1), c);
        assert(spec_escape(s.push(c)) == spec_escape_char(s[0])
            + (spec_escape(s.skip(1)) + spec_escape_char(c)));
        assert(spec_escape_char(s[0]) + (spec_escape(s.skip(1)) + spec_escape_char(c))
            =~= (spec_escape_char(s[0]) + spec_escape(s.skip(1))) + spec_escape_char(c));
    }
}

proof fn lemma_items_rest_snoc(a: Seq<SpecJson>, x: SpecJson)
    ensures
        spec_items_rest(a.push(x)) == spec_items_rest(a) + seq![','] + spec_json_text(x),
    decreases a.len(),
{
    if a.len() == 0 {
        assert(a.push(x)[0] == x);
        assert(a.push(x).skip(1) =~= Seq::<SpecJson>::empty());
        assert(spec_items_rest(a.push(x)) == seq![','] + spec_json_text(x)
            + spec_items_rest(a.push(x).skip(1)));
        assert(spec_items_rest(a.push(x).skip(1)) == Seq::<char>::empty());
        assert(spec_items_rest(a) == Seq::<char>::empty());
        assert(seq![','] + spec_json_text(x) + Seq::<char>::empty()
            =~= Seq::<char>::empty() + seq![','] + spec_json_text(x));
    } else {
        assert(a.push(x)[0] == a[0]);
        assert(a.push(x).skip(1) =~= a.skip(1).push(x));
        lemma_items_rest_snoc(a.skip(1), x);
        assert(spec_items_rest(a.push(x)) == seq![','] + spec_json_text(a[0])
            + (spec_items_rest(a.skip(1)) + seq![','] + spec_json_text(x)));
        assert(seq![','] + spec_json_text(a[0]) + (spec_items_rest(a.skip(1)) + seq![',']
            + spec_json_text(x)) =~= (seq![','] + spec_json_text(a[0])
            + spec_items_rest(a.skip(1))) + seq![','] + spec_json_text(x));
    }
}

proof fn lemma_items_snoc(a: Seq<SpecJson>, x: SpecJson)
    ensures
        spec_items_text(a.push(x)) == if a.len() == 0 {
            spec_json_text(x)
        } else {
            spec_items_text(a) + seq![','] + spec_json_text(x)
        },
{
    if a.len() == 0 {
        assert(a.push(x)[0] == x);
        assert(a.push(x).skip(1) =~= Seq::<SpecJson>::empty());
        assert(spec_items_text(a.push(x)) =~= spec_json_text(x));
    } else {
        assert(a.push(x)[0] == a[0]);
        assert(a.push(x).skip(1) =~= a.skip(1).push(x));
        lemma_items_rest_snoc(a.skip(1), x);
        assert(spec_items_text(a.push(x)) =~= spec_items_text(a) + seq![','] + spec_json_text(x));
    }
}

proof fn lemma_entries_rest_snoc(m: Seq<(Seq<char>, SpecJson)>, x: (Seq<char>, SpecJson))
    ensures
        spec_entries_rest(m.push(x)) == spec_entries_rest(m) + seq![','] + spec_entry_text(x),
    decreases m.len(),
{
    if m.len() == 0 {
        assert(m.push(x)[0] == x);
        assert(m.push(x).skip(1) =~= Seq::<(Seq<char>, SpecJson)>::empty());
        assert(spec_entries_rest(m.push(x)) == seq![','] + spec_entry_text(x)
            + spec_entries_rest(m.push(x).skip(1)));
        assert(spec_entries_rest(m.push(x).skip(1)) == Seq::<char>::empty());
        assert(spec_entries_rest(m) == Seq::<char>::empty());
        assert(seq![','] + spec_entry_text(x) + Seq::<char>::empty()
            =~= Seq::<char>::empty() + seq![','] + spec_entry_text(x));
    } else {
        assert(m.push(x)[0] == m[0]);
        assert(m.push(x).skip(1) =~= m.skip(1).push(x));
        lemma_entries_rest_snoc(m.skip(1), x);
        assert(spec_entries_rest(m.push(x)) == seq![','] + spec_entry_text(m[0])
            + (spec_entries_rest(m.skip(1)) + seq![','] + spec_entry_text(x)));
        assert(seq![','] + spec_entry_text(m[0]) + (spec_entries_rest(m.skip(1)) + seq![',']
            + spec_entry_text(x)) =~= (seq![','] + spec_entry_text(m[0])
            + spec_entries_rest(m.skip(1))) + seq![','] + spec_entry_text(x));
    }
}

proof fn lemma_entries_snoc(m: Seq<(Seq<char>, SpecJson)>, x: (Seq<char>, SpecJson))
    ensures
        spec_entries_text(m.push(x)) == if m.len() == 0 {
            spec_entry_text(x)
        } else {
            spec_entries_text(m) + seq![','] + spec_entry_text(x)
        },
{
    if m.len() == 0 {
        assert(m.push(x)[0] == x);
        assert(m.push(x).skip(1) =~= Seq::<(Seq<char>, SpecJson)>::empty());
        assert(spec_entries_text(m.push(x)) =~= spec_entry_text(x));
    } else {
        assert(m.push(x)[0] == m[0]);
        assert(m.push(x).skip(1) =~= m.skip(1).push(x));
        lemma_entries_rest_snoc(m.skip(1), x);
        assert(spec_entries_text(m.push(x)) =~= spec_entries_text(m) + seq![',']
            + spec_entry_text(x));
    }
}

/// Appends the escaped form of `s` to `out`.
fn write_escaped(s: &str, out: &mut String)
    ensures
        final(out)@ == old(out)@ + spec_escape(s@),
{
    let chars = crate::text::str_chars(s);
    let mut i: usize = 0;
    while i < chars.len()
        invariant
            i <= chars@.len(),
            chars@ == s@,
            out@ == old(out)@ + spec_escape(s@.take(i as int)),
        decreases chars@.len() - i,
    {
        let c = chars[i];
        let ghost pre = out@;
        if c == '"' {
            push_char(out, '\\');
            push_char(out, '"');
        } else if c == '\\' {
            push_char(out, '\\');
            push_char(out, '\\');
        } else if c == '\n' {
            push_char(out, '\\');
            push_char(out, 'n');
        } else if c == '\r' {
            push_char(out, '\\');
            push_char(out, 'r');
        } else if c == '\t' {
            push_char(out, '\\');
            push_char(out, 't');
        } else if c == '\u{8}' {
            push_char(out, '\\');
            push_char(out, 'b');
        } else if c == '\u{c}' {
            push_char(out, '\\');
            push_char(out, 'f');
        } else if (c as u32) < 32 {
            let v = c as u32;
            let hi: u32 = v / 16;
            let lo: u32 = v % 16;
            proof {
                assert(hi as int == (c as u32) as int / 16);
                assert(lo as int == (c as u32) as int % 16);
            }
            push_char(out, '\\');
            push_char(out, 'u');
            push_char(out, '0');
            push_char(out, '0');
            push_char(out, hex_digit_char(hi as u8));
            push_char(out, hex_digit_char(lo as u8));
        } else {
            push_char(out, c);
        }
        proof {
            assert(out@ =~= pre + spec_escape_char(c));
            lemma_escape_snoc(s@.take(i as int), c);
            assert(s@.take(i as int).push(c) =~= s@.take(i as int + 1));
            assert(out@ =~= old(out)@ + spec_escape(s@.take(i as int + 1)));
        }
        i = i + 1;
    }
    proof {
        assert(s@.take(s@.len() as int) =~= s@);
    }
}

/// The lower-case hexadecimal digit character for `n` in `0..16`.
pub fn hex_digit_char(n: u8) -> (c: char)
    requires
        n < 16,
    ensures
        c == spec_hex_digit(n as int),
{
    if n < 10 {
        (48 + n) as char
    } else {
        (87 + n) as char
    }
}

/// Appends the compact JSON text of `v` to `out`.
pub fn write_json_text(v: &JsonValue, out: &mut String)
    ensures
        final(out)@ == old(out)@ + spec_json_text(v@),
    decreases spec_size(v@),
{
    match v {
        JsonValue::Null => {
            push_char(out, 'n');
            push_char(out, 'u');
            push_char(out, 'l');
            push_char(out, 'l');
            proof {
                assert(out@ =~= old(out)@ + spec_json_text(v@));
            }
        },
        JsonValue::Bool(b) => {
            if *b {
                push_char(out, 't');
                push_char(out, 'r');
                push_char(out, 'u');
                push_char(out, 'e');
            } else {
                push_char(out, 'f');
                push_char(out, 'a');
                push_char(out, 'l');
                push_char(out, 's');
                push_char(out, 'e');
            }
            proof {
                assert(out@ =~= old(out)@ + spec_json_text(v@));
            }
        },
        JsonValue::Num(s) => {
            out.append(s.as_str());
        },
        JsonValue::Str(s) => {
            push_char(out, '"');
            write_escaped(s.as_str(), out);
            push_char(out, '"');
            proof {
                assert(out@ =~= old(out)@ + spec_string_text(s@));
            }
        },
        JsonValue::Arr(a) => {
            let ghost va = JsonValue::view_seq(a@);
            proof {
                lemma_view_seq(a@);
            }
            push_char(out, '[');
            let mut i: usize = 0;
            while i < a.len()
                invariant
                    i <= a@.len(),
                    va == JsonValue::view_seq(a@),
                    v@ == SpecJson::Arr(va),
                    va.len() == a@.len(),
                    forall|j: int| 0 <= j < a@.len() ==> va[j] == a@[j]@,
                    out@ == old(out)@ + seq!['['] + spec_items_text(va.take(i as int)),
                decreases a@.len() - i,
            {
                if i > 0 {
                    push_char(out, ',');
                }
                proof {
                    lemma_size_seq_elem(va, i as int);
                }
                let ghost pre = out@;
                write_json_text(&a[i], out);
                proof {
                    lemma_items_snoc(va.take(i as int), va[i as int]);
                    assert(va.take(i as int).push(va[i as int]) =~= va.take(i as int + 1));
                    assert(out@ =~= old(out)@ + seq!['[']
                        + spec_items_text(va.take(i as int + 1)));
                }
                i = i + 1;
            }
            push_char(out, ']');
            proof {
                assert(va.take(va.len() as int) =~= va);
                assert(out@ =~= old(out)@ + spec_json_text(v@));
            }
        },
        JsonValue::Obj(m) => {
            let ghost vm = JsonValue::view_entries(m@);
            proof {
                lemma_view_entries(m@);
            }
            push_char(out, '{');
            let mut i: usize = 0;
            while i < m.len()
                invariant
                    i <= m@.len(),
                    vm == JsonValue::view_entries(m@),
                    v@ == SpecJson::Obj(vm),
                    vm.len() == m@.len(),
                    forall|j: int| 0 <= j < m@.len() ==> vm[j] == (m@[j].0@, m@[j].1@),
                    out@ == old(out)@ + seq!['{'] + spec_entries_text(vm.take(i as int)),
                decreases m@.len() - i,
            {
                if i > 0 {
                    push_char(out, ',');
                }
                proof {
                    lemma_size_entries_elem(vm, i as int);
                }
                let entry = &m[i];
                push_char(out, '"');
                write_escaped(entry.0.as_str(), out);
                push_char(out, '"');
                push_char(out, ':');
                write_json_text(&entry.1, out);
                proof {
                    lemma_entries_snoc(vm.take(i as int), vm[i as int]);
                    assert(vm.take(i as int).push(vm[i as int]) =~= vm.take(i as int + 1));
                    assert(out@ =~= old(out)@ + seq!['{']
                        + spec_entries_text(vm.take(i as int + 1)));
                }
                i = i + 1;
            }
            push_char(out, '}');
            proof {
                assert(vm.take(vm.len() as int) =~= vm);
                assert(out@ =~= old(out)@ + spec_json_text(v@));
            }
        },
    }
}

/// The compact JSON text of `v`.
pub fn to_json_text(v: &JsonValue) -> (r: String)
    ensures
        r@ == spec_json_text(v@),
{
    let mut out = String::new();
    write_json_text(v, &mut out);
    proof {
        assert(Seq::<char>::empty() + spec_json_text(v@) =~= spec_json_text(v@));
    }
    out
}

} // verus!
