//! The serializer: encodes an ordered record sequence as one JSON array,
//! deterministically, with the escaping JSON requires for string values.

use vstd::prelude::*;
use vstd::string::{StrSliceExecFns, StringExecFns};
use crate::record::{Item, ItemView};

verus! {

/// Relies on `String::push`: appends the given character to the end of
/// the string.
pub assume_specification[ String::push ](s: &mut String, ch: char)
    ensures
        final(s)@ == old(s)@.push(ch),
;

/// The lower-case hexadecimal digit for a value below sixteen.
pub open spec fn spec_hex_digit(n: u32) -> char {
    if n == 0 {
        '0'
    } else if n == 1 {
        '1'
    } else if n == 2 {
        '2'
    } else if n == 3 {
        '3'
    } else if n == 4 {
        '4'
    } else if n == 5 {
        '5'
    } else if n == 6 {
        '6'
    } else if n == 7 {
        '7'
    } else if n == 8 {
        '8'
    } else if n == 9 {
        '9'
    } else if n == 10 {
        'a'
    } else if n == 11 {
        'b'
    } else if n == 12 {
        'c'
    } else if n == 13 {
        'd'
    } else if n == 14 {
        'e'
    } else {
        'f'
    }
}

/// How one character of a string value is encoded: quotes and backslashes
/// get a backslash escape, control characters a short or `\u00..` escape,
/// and every other character stands for itself.
pub open spec fn escape_char(c: char) -> Seq<char> {
    if c == '"' {
        seq!['\\', '"']
    } else if c == '\\' {
        seq!['\\', '\\']
    } else if c == '\u{8}' {
        seq!['\\', 'b']
    } else if c == '\t' {
        seq!['\\', 't']
    } else if c == '\n' {
        seq!['\\', 'n']
    } else if c == '\u{c}' {
        seq!['\\', 'f']
    } else if c == '\r' {
        seq!['\\', 'r']
    } else if (c as u32) < 32 {
        seq!['\\', 'u', '0', '0', spec_hex_digit((c as u32) / 16), spec_hex_digit((c as u32) % 16)]
    } else {
        seq![c]
    }
}

/// The encoding of a whole character sequence, character by character.
pub open spec fn escape_seq(s: Seq<char>) -> Seq<char>
    decreases s.len(),
{
    if s.len() == 0 {
        Seq::empty()
    } else {
        escape_char(s[0]) + escape_seq(s.drop_first())
    }
}

/// A JSON string value: the escaped characters between double quotes.
pub open spec fn quoted(s: Seq<char>) -> Seq<char> {
    seq!['"'] + escape_seq(s) + seq!['"']
}

/// The JSON object for one record, with the two fixed field names.
pub open spec fn record_json(it: ItemView) -> Seq<char> {
    "{\"name\":"@ + quoted(it.name) + ",\"ty\":"@ + quoted(it.ty) + "}"@
}

/// The comma-separated encodings of a record sequence, in order.
pub open spec fn joined(items: Seq<ItemView>) -> Seq<char>
    decreases items.len(),
{
    if items.len() == 0 {
        Seq::empty()
    } else if items.len() == 1 {
        record_json(items[0])
    } else {
        record_json(items[0]) + ","@ + joined(items.drop_first())
    }
}

/// The complete document for a record sequence: a JSON array, one object
/// per record, in order; `[]` for the empty sequence.
pub open spec fn array_json(items: Seq<ItemView>) -> Seq<char> {
    "["@ + joined(items) + "]"@
}

/// Appending one character extends the escaped sequence by that
/// character's escape.
pub proof fn lemma_escape_seq_push(s: Seq<char>, c: char)
    ensures
        escape_seq(s.push(c)) == escape_seq(s) + escape_char(c),
    decreases s.len(),
{
    if s.len() == 0 {
        assert(s.push(c)[0] == c);
        assert(s.push(c).drop_first() =~= s);
        assert(escape_seq(s.push(c)) == escape_char(c) + escape_seq(s));
        assert((escape_char(c) + escape_seq(s)) =~= (escape_seq(s) + escape_char(c)));
    } else {
        assert(s.push(c).drop_first() =~= s.drop_first().push(c));
        lemma_escape_seq_push(s.drop_first(), c);
        assert(s.push(c)[0] == s[0]);
        assert((escape_char(s[0]) + (escape_seq(s.drop_first()) + escape_char(c))) =~= (
        (escape_char(s[0]) + escape_seq(s.drop_first())) + escape_char(c)));
        assert(escape_seq(s.push(c)) =~= escape_seq(s) + escape_char(c));
    }
}

/// Appending one record extends the joined encoding by a comma (after a
/// non-empty prefix) and that record's object.
pub proof fn lemma_joined_push(items: Seq<ItemView>, it: ItemView)
    ensures
        joined(items.push(it)) == if items.len() == 0 {
            record_json(it)
        } else {
            joined(items) + ","@ + record_json(it)
        },
    decreases items.len(),
{
    let p = items.push(it);
    if items.len() == 0 {
        assert(p.len() == 1);
        assert(p[0] == it);
    } else {
        assert(p[0] == items[0]);
        assert(p.drop_first() =~= items.drop_first().push(it));
        lemma_joined_push(items.drop_first(), it);
        if items.len() == 1 {
            assert(joined(p) == record_json(items[0]) + ","@ + record_json(it));
            assert(joined(items) == record_json(items[0]));
        } else {
            assert(joined(p) == record_json(items[0]) + ","@ + (joined(items.drop_first())
                + ","@ + record_json(it)));
            assert((record_json(items[0]) + ","@ + (joined(items.drop_first()) + ","@
                + record_json(it))) =~= ((record_json(items[0]) + ","@
                + joined(items.drop_first())) + ","@ + record_json(it)));
        }
    }
}

/// An empty compilation unit yields exactly the empty JSON array.
pub proof fn lemma_empty_unit_document()
    ensures
        array_json(Seq::<ItemView>::empty()) == "[]"@,
{
    reveal_strlit("[");
    reveal_strlit("]");
    reveal_strlit("[]");
    assert(array_json(Seq::<ItemView>::empty()) =~= "[]"@);
}

/// The lower-case hexadecimal digit for a value below sixteen.
fn hex_digit(n: u32) -> (c: char)
    requires
        n < 16,
    ensures
        c == spec_hex_digit(n),
{
    if n == 0 {
        '0'
    } else if n == 1 {
        '1'
    } else if n == 2 {
        '2'
    } else if n == 3 {
        '3'
    } else if n == 4 {
        '4'
    } else if n == 5 {
        '5'
    } else if n == 6 {
        '6'
    } else if n == 7 {
        '7'
    } else if n == 8 {
        '8'
    } else if n == 9 {
        '9'
    } else if n == 10 {
        'a'
    } else if n == 11 {
        'b'
    } else if n == 12 {
        'c'
    } else if n == 13 {
        'd'
    } else if n == 14 {
        'e'
    } else {
        'f'
    }
}

/// Appends the escape of one character to the output.
fn push_escaped_char(out: &mut String, c: char)
    ensures
        final(out)@ == old(out)@ + escape_char(c),
{
    if c == '"' {
        out.append("\\\"");
        proof {
            reveal_strlit("\\\"");
            assert(out@ =~= old(out)@ + escape_char(c));
        }
    } else if c == '\\' {
        out.append("\\\\");
        proof {
            reveal_strlit("\\\\");
            assert(out@ =~= old(out)@ + escape_char(c));
        }
    } else if c == '\u{8}' {
        out.append("\\b");
        proof {
            reveal_strlit("\\b");
            assert(out@ =~= old(out)@ + escape_char(c));
        }
    } else if c == '\t' {
        out.append("\\t");
        proof {
            reveal_strlit("\\t");
            assert(out@ =~= old(out)@ + escape_char(c));
        }
    } else if c == '\n' {
        out.append("\\n");
        proof {
            reveal_strlit("\\n");
            assert(out@ =~= old(out)@ + escape_char(c));
        }
    } else if c == '\u{c}' {
        out.append("\\f");
        proof {
            reveal_strlit("\\f");
            assert(out@ =~= old(out)@ + escape_char(c));
        }
    } else if c == '\r' {
        out.append("\\r");
        proof {
            reveal_strlit("\\r");
            assert(out@ =~= old(out)@ + escape_char(c));
        }
    } else if (c as u32) < 32 {
        let n: u32 = c as u32;
        out.append("\\u00");
        let hi = hex_digit(n / 16);
        let lo = hex_digit(n % 16);
        out.push(hi);
        out.push(lo);
        proof {
            reveal_strlit("\\u00");
            assert(out@ =~= old(out)@ + escape_char(c));
        }
    } else {
        out.push(c);
        proof {
            assert(out@ =~= old(out)@ + escape_char(c));
        }
    }
}

/// Appends a JSON string value for `s` to the output.
fn push_quoted(out: &mut String, s: &str)
    ensures
        final(out)@ == old(out)@ + quoted(s@),
{
    let ghost base: Seq<char> = out@;
    out.push('"');
    proof {
        assert(out@ =~= base + seq!['"']);
    }
    let n = s.unicode_len();
    let mut i: usize = 0;
    while i < n
        invariant
            n == s@.len(),
            i <= n,
            out@ == base + seq!['"'] + escape_seq(s@.subrange(0, i as int)),
        decreases n - i,
    {
        let c = s.get_char(i);
        push_escaped_char(out, c);
        proof {
            assert(s@.subrange(0, i + 1) =~= s@.subrange(0, i as int).push(s@[i as int]));
            lemma_escape_seq_push(s@.subrange(0, i as int), s@[i as int]);
            assert(out@ =~= base + seq!['"'] + escape_seq(s@.subrange(0, i + 1)));
        }
        i += 1;
    }
    out.push('"');
    proof {
        assert(s@.subrange(0, s@.len() as int) =~= s@);
        assert(out@ =~= base + quoted(s@));
    }
}

/// Appends the JSON object for one record to the output.
fn push_record(out: &mut String, it: &Item)
    ensures
        final(out)@ == old(out)@ + record_json(it@),
{
    let ghost base: Seq<char> = out@;
    out.append("{\"name\":");
    push_quoted(out, it.name.as_str());
    out.append(",\"ty\":");
    push_quoted(out, it.ty.as_str());
    out.append("}");
    proof {
        assert(out@ =~= base + record_json(it@));
    }
}

/// Encodes the ordered record sequence as one self-contained JSON document.
pub fn serialize_items(items: &Vec<Item>) -> (r: String)
    ensures
        r@ == array_json(items.deep_view()),
{
    let ghost v = items.deep_view();
    let mut out = String::from_str("[");
    let mut i: usize = 0;
    while i < items.len()
        invariant
            v == items.deep_view(),
            i <= items.len(),
            out@ == "["@ + joined(v.subrange(0, i as int)),
        decreases items.len() - i,
    {
        if i > 0 {
            out.append(",");
        }
        push_record(&mut out, &items[i]);
        proof {
            assert(v[i as int] == items@[i as int].deep_view());
            assert(v.subrange(0, i + 1) =~= v.subrange(0, i as int).push(v[i as int]));
            lemma_joined_push(v.subrange(0, i as int), v[i as int]);
            assert(out@ =~= "["@ + joined(v.subrange(0, i + 1)));
        }
        i += 1;
    }
    out.append("]");
    proof {
        assert(v.subrange(0, v.len() as int) =~= v);
        assert(out@ =~= array_json(v));
    }
    out
}

} // verus!
