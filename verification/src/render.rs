//! Compact JSON text for the values this library writes: string escaping,
//! one reading as an object, a day's readings as an array.

use vstd::prelude::*;
use crate::project::Reading;
use crate::project::ReadingView;
use crate::project::spec_views;

verus! {

pub open spec fn spec_hex_digit(d: int) -> char {
    if d == 0 {
        '0'
    } else if d == 1 {
        '1'
    } else if d == 2 {
        '2'
    } else if d == 3 {
        '3'
    } else if d == 4 {
        '4'
    } else if d == 5 {
        '5'
    } else if d == 6 {
        '6'
    } else if d == 7 {
        '7'
    } else if d == 8 {
        '8'
    } else if d == 9 {
        '9'
    } else if d == 10 {
        'a'
    } else if d == 11 {
        'b'
    } else if d == 12 {
        'c'
    } else if d == 13 {
        'd'
    } else if d == 14 {
        'e'
    } else {
        'f'
    }
}

/// How one character stands inside a JSON string: quote and backslash get a
/// backslash, the named control characters their short escape, the other
/// control characters a `\u00..` escape, everything else stands as it is.
pub open spec fn spec_escape_char(c: char) -> Seq<char> {
    if c == '"' {
        seq!['\\', '"']
    } else if c == '\\' {
        seq!['\\', '\\']
    } else if c == '\u{8}' {
        seq!['\\', 'b']
    } else if c == '\u{c}' {
        seq!['\\', 'f']
    } else if c == '\n' {
        seq!['\\', 'n']
    } else if c == '\r' {
        seq!['\\', 'r']
    } else if c == '\t' {
        seq!['\\', 't']
    } else if (c as u32) < 32 {
        seq!['\\', 'u', '0', '0', spec_hex_digit((c as u32) as int / 16), spec_hex_digit(
            (c as u32) as int % 16,
        )]
    } else {
        seq![c]
    }
}

pub open spec fn spec_escape(s: Seq<char>) -> Seq<char>
    decreases s.len(),
{
    if s.len() == 0 {
        Seq::empty()
    } else {
        spec_escape(s.drop_last()) + spec_escape_char(s.last())
    }
}

/// A string as JSON writes it: escaped, between double quotes.
pub open spec fn spec_quote(s: Seq<char>) -> Seq<char> {
    seq!['"'] + spec_escape(s) + seq!['"']
}

fn hex_digit_str(d: u32) -> (r: &'static str)
    requires
        d < 16,
    ensures
        r@ == seq![spec_hex_digit(d as int)],
{
    proof {
        reveal_strlit("0");
        reveal_strlit("1");
        reveal_strlit("2");
        reveal_strlit("3");
        reveal_strlit("4");
        reveal_strlit("5");
        reveal_strlit("6");
        reveal_strlit("7");
        reveal_strlit("8");
        reveal_strlit("9");
        reveal_strlit("a");
        reveal_strlit("b");
        reveal_strlit("c");
        reveal_strlit("d");
        reveal_strlit("e");
        reveal_strlit("f");
    }
    let r = if d == 0 {
        "0"
    } else if d == 1 {
        "1"
    } else if d == 2 {
        "2"
    } else if d == 3 {
        "3"
    } else if d == 4 {
        "4"
    } else if d == 5 {
        "5"
    } else if d == 6 {
        "6"
    } else if d == 7 {
        "7"
    } else if d == 8 {
        "8"
    } else if d == 9 {
        "9"
    } else if d == 10 {
        "a"
    } else if d == 11 {
        "b"
    } else if d == 12 {
        "c"
    } else if d == 13 {
        "d"
    } else if d == 14 {
        "e"
    } else {
        "f"
    };
    proof {
        assert(r@ =~= seq![spec_hex_digit(d as int)]);
    }
    r
}

/// Appends a string in its quoted, escaped JSON form.
pub fn append_quoted(out: &mut String, s: &str)
    ensures
        final(out)@ == old(out)@ + spec_quote(s@),
{
    proof {
        reveal_strlit("\"");
        reveal_strlit("\\\"");
        reveal_strlit("\\\\");
        reveal_strlit("\\b");
        reveal_strlit("\\f");
        reveal_strlit("\\n");
        reveal_strlit("\\r");
        reveal_strlit("\\t");
        reveal_strlit("\\u00");
    }
    out.append("\"");
    let n = s.unicode_len();
    let mut i: usize = 0;
    while i < n
        invariant
            0 <= i <= n,
            n == s@.len(),
            out@ == old(out)@ + seq!['"'] + spec_escape(s@.take(i as int)),
        decreases n - i,
    {
        proof {
            reveal_strlit("\\\"");
            reveal_strlit("\\\\");
            reveal_strlit("\\b");
            reveal_strlit("\\f");
            reveal_strlit("\\n");
            reveal_strlit("\\r");
            reveal_strlit("\\t");
            reveal_strlit("\\u00");
            assert(s@.take(i + 1).drop_last() =~= s@.take(i as int));
            assert(s@.take(i + 1).last() == s@[i as int]);
        }
        let c = s.get_char(i);
        let u = c as u32;
        if c == '"' {
            out.append("\\\"");
        } else if c == '\\' {
            out.append("\\\\");
        } else if u == 8 {
            out.append("\\b");
        } else if u == 12 {
            out.append("\\f");
        } else if u == 10 {
            out.append("\\n");
        } else if u == 13 {
            out.append("\\r");
        } else if u == 9 {
            out.append("\\t");
        } else if u < 32 {
            out.append("\\u00");
            out.append(hex_digit_str(u / 16));
            out.append(hex_digit_str(u % 16));
        } else {
            out.append(s.substring_char(i, i + 1));
        }
        proof {
            assert(out@ =~= old(out)@ + seq!['"'] + spec_escape(s@.take(i + 1)));
        }
        i = i + 1;
    }
    out.append("\"");
    proof {
        assert(s@.take(n as int) =~= s@);
        assert(out@ =~= old(out)@ + spec_quote(s@));
    }
}

/// One reading as a JSON object with the three upstream field names.
pub open spec fn spec_render_reading(rv: ReadingView) -> Seq<char> {
    "{\"ref\":"@ + spec_quote(rv.reference) + ",\"titre\":"@ + spec_quote(rv.title)
        + ",\"contenu\":"@ + spec_quote(rv.content) + "}"@
}

/// The body of a readings array: the rendered readings, comma-separated.
pub open spec fn spec_readings_body(rs: Seq<ReadingView>) -> Seq<char>
    decreases rs.len(),
{
    if rs.len() == 0 {
        Seq::empty()
    } else if rs.len() == 1 {
        spec_render_reading(rs[0])
    } else {
        spec_readings_body(rs.drop_last()) + seq![','] + spec_render_reading(rs.last())
    }
}

/// A day's readings as a JSON array, in their order.
pub open spec fn spec_render_readings(rs: Seq<ReadingView>) -> Seq<char> {
    seq!['['] + spec_readings_body(rs) + seq![']']
}

fn append_reading(out: &mut String, rd: &Reading)
    ensures
        final(out)@ == old(out)@ + spec_render_reading(rd@),
{
    out.append("{\"ref\":");
    append_quoted(out, rd.reference.as_str());
    out.append(",\"titre\":");
    append_quoted(out, rd.title.as_str());
    out.append(",\"contenu\":");
    append_quoted(out, rd.content.as_str());
    out.append("}");
    proof {
        assert(out@ =~= old(out)@ + spec_render_reading(rd@));
    }
}

/// Appends a day's readings as a JSON array.
pub fn append_readings(out: &mut String, rs: &Vec<Reading>)
    ensures
        final(out)@ == old(out)@ + spec_render_readings(spec_views(rs@)),
{
    proof {
        reveal_strlit("[");
        reveal_strlit("]");
        reveal_strlit(",");
    }
    out.append("[");
    let n = rs.len();
    let mut i: usize = 0;
    while i < n
        invariant
            0 <= i <= n,
            n == rs@.len(),
            out@ == old(out)@ + seq!['['] + spec_readings_body(spec_views(rs@).take(i as int)),
        decreases n - i,
    {
        proof {
            reveal_strlit(",");
            assert(spec_views(rs@).take(i + 1).drop_last() =~= spec_views(rs@).take(i as int));
            assert(spec_views(rs@).take(i + 1).last() == rs@[i as int]@);
        }
        if i > 0 {
            out.append(",");
        }
        append_reading(out, &rs[i]);
        proof {
            assert(out@ =~= old(out)@ + seq!['['] + spec_readings_body(
                spec_views(rs@).take(i + 1),
            ));
        }
        i = i + 1;
    }
    out.append("]");
    proof {
        assert(spec_views(rs@).take(n as int) =~= spec_views(rs@));
        assert(out@ =~= old(out)@ + spec_render_readings(spec_views(rs@)));
    }
}

} // verus!
