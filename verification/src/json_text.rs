//! Rendering of the evaluator input document.
//!
//! The admission pipeline materializes one JSON document per request and
//! hands its text to the embedded policy engine.  Everything here is spelled
//! out at the character level so that the document handed over is pinned by
//! the contracts.

use vstd::prelude::*;

verus! {

use vstd::string::*;
use crate::kv::Pairs;
use crate::strutil::{lemma_take_succ, lemma_take_full};

/// Lower-case hexadecimal digit for `d`.
pub open spec fn hex_digit(d: int) -> char {
    if d == 0 {
        '0'
    } else if d == 1 {
        '1'
    } else if d == 2 {
        '2'
    } else if d == 3 {
        '3'
    } else if d == 4 {
        '4'
    } else if d == 5 {
        '5'
    } else if d == 6 {
        '6'
    } else if d == 7 {
        '7'
    } else if d == 8 {
        '8'
    } else if d == 9 {
        '9'
    } else if d == 10 {
        'a'
    } else if d == 11 {
        'b'
    } else if d == 12 {
        'c'
    } else if d == 13 {
        'd'
    } else if d == 14 {
        'e'
    } else {
        'f'
    }
}

/// JSON escape of a single character: quotes and backslashes are escaped,
/// control characters become `\u00XX`, everything else passes through.
pub open spec fn esc_char(c: char) -> Seq<char> {
    if c == '"' {
        seq!['\\', '"']
    } else if c == '\\' {
        seq!['\\', '\\']
    } else if (c as int) < 32 {
        seq!['\\', 'u', '0', '0', hex_digit((c as int) / 16), hex_digit((c as int) % 16)]
    } else {
        seq![c]
    }
}

/// JSON escape of a whole character sequence.
pub open spec fn json_escaped(s: Seq<char>) -> Seq<char>
    decreases s.len(),
{
    if s.len() == 0 {
        Seq::empty()
    } else {
        json_escaped(s.drop_last()) + esc_char(s.last())
    }
}

/// A JSON string literal holding `s`.
pub open spec fn json_string(s: Seq<char>) -> Seq<char> {
    seq!['"'] + json_escaped(s) + seq!['"']
}

/// One `"key":"value"` member.
pub open spec fn json_member(p: (Seq<char>, Seq<char>)) -> Seq<char> {
    json_string(p.0) + seq![':'] + json_string(p.1)
}

/// Comma-separated members of an object, in list order.
pub open spec fn json_members(pairs: Pairs) -> Seq<char>
    decreases pairs.len(),
{
    if pairs.len() == 0 {
        Seq::empty()
    } else if pairs.len() == 1 {
        json_member(pairs[0])
    } else {
        json_members(pairs.drop_last()) + seq![','] + json_member(pairs.last())
    }
}

/// A flat JSON object of string keys and string values.
pub open spec fn json_object(pairs: Pairs) -> Seq<char> {
    seq!['{'] + json_members(pairs) + seq!['}']
}

/// Append one lower-case hex digit to `out`.
fn append_hex_digit(out: &mut String, d: u32)
    requires
        d < 16,
    ensures
        final(out)@ == old(out)@ + seq![hex_digit(d as int)],
{
    proof {
        reveal_strlit("0");
        reveal_strlit("1");
        reveal_strlit("2");
        reveal_strlit("3");
        reveal_strlit("4");
        reveal_strlit("5");
        reveal_strlit("6");
        reveal_strlit("7");
        reveal_strlit("8");
        reveal_strlit("9");
        reveal_strlit("a");
        reveal_strlit("b");
        reveal_strlit("c");
        reveal_strlit("d");
        reveal_strlit("e");
        reveal_strlit("f");
    }
    if d == 0 {
        out.append("0");
        assert(final(out)@ =~= old(out)@ + seq![hex_digit(d as int)]);
    } else if d == 1 {
        out.append("1");
        assert(final(out)@ =~= old(out)@ + seq![hex_digit(d as int)]);
    } else if d == 2 {
        out.append("2");
        assert(final(out)@ =~= old(out)@ + seq![hex_digit(d as int)]);
    } else if d == 3 {
        out.append("3");
        assert(final(out)@ =~= old(out)@ + seq![hex_digit(d as int)]);
    } else if d == 4 {
        out.append("4");
        assert(final(out)@ =~= old(out)@ + seq![hex_digit(d as int)]);
    } else if d == 5 {
        out.append("5");
        assert(final(out)@ =~= old(out)@ + seq![hex_digit(d as int)]);
    } else if d == 6 {
        out.append("6");
        assert(final(out)@ =~= old(out)@ + seq![hex_digit(d as int)]);
    } else if d == 7 {
        out.append("7");
        assert(final(out)@ =~= old(out)@ + seq![hex_digit(d as int)]);
    } else if d == 8 {
        out.append("8");
        assert(final(out)@ =~= old(out)@ + seq![hex_digit(d as int)]);
    } else if d == 9 {
        out.append("9");
        assert(final(out)@ =~= old(out)@ + seq![hex_digit(d as int)]);
    } else if d == 10 {
        out.append("a");
        assert(final(out)@ =~= old(out)@ + seq![hex_digit(d as int)]);
    } else if d == 11 {
        out.append("b");
        assert(final(out)@ =~= old(out)@ + seq![hex_digit(d as int)]);
    } else if d == 12 {
        out.append("c");
        assert(final(out)@ =~= old(out)@ + seq![hex_digit(d as int)]);
    } else if d == 13 {
        out.append("d");
        assert(final(out)@ =~= old(out)@ + seq![hex_digit(d as int)]);
    } else if d == 14 {
        out.append("e");
        assert(final(out)@ =~= old(out)@ + seq![hex_digit(d as int)]);
    } else {
        out.append("f");
        assert(final(out)@ =~= old(out)@ + seq![hex_digit(d as int)]);
    }
}

/// Append the JSON escape of `s` to `out`.
pub fn append_escaped(out: &mut String, s: &str)
    ensures
        final(out)@ == old(out)@ + json_escaped(s@),
{
    let ghost base = out@;
    let len = s.unicode_len();
    let mut i: usize = 0;
    while i < len
        invariant
            len == s@.len(),
            i <= len,
            out@ == base + json_escaped(s@.take(i as int)),
        decreases len - i,
    {
        let ghost before = out@;
        let c = s.get_char(i);
        if c == '"' {
            proof {
                reveal_strlit("\\\"");
            }
            out.append("\\\"");
            assert(out@ =~= before + esc_char(c));
        } else if c == '\\' {
            proof {
                reveal_strlit("\\\\");
            }
            out.append("\\\\");
            assert(out@ =~= before + esc_char(c));
        } else if (c as u32) < 32 {
            proof {
                reveal_strlit("\\u00");
            }
            out.append("\\u00");
            let code = c as u32;
            append_hex_digit(out, code / 16);
            append_hex_digit(out, code % 16);
            assert(out@ =~= before + esc_char(c));
        } else {
            let piece = s.substring_char(i, i + 1);
            out.append(piece);
            assert(piece@ =~= seq![c]);
            assert(out@ =~= before + esc_char(c));
        }
        proof {
            lemma_take_succ(s@, i as int);
            assert(s@.take(i + 1).last() == c);
            assert(out@ =~= base + json_escaped(s@.take(i + 1)));
        }
        i += 1;
    }
    proof {
        lemma_take_full(s@);
    }
}

/// Append the JSON string literal holding `s` to `out`.
pub fn append_json_string(out: &mut String, s: &str)
    ensures
        final(out)@ == old(out)@ + json_string(s@),
{
    proof {
        reveal_strlit("\"");
    }
    out.append("\"");
    append_escaped(out, s);
    out.append("\"");
    assert(final(out)@ =~= old(out)@ + json_string(s@));
}

/// Append the flat JSON object rendering `pairs` to `out`.
pub fn append_json_object(out: &mut String, pairs: &Vec<(String, String)>)
    ensures
        final(out)@ == old(out)@ + json_object(pairs.deep_view()),
{
    let ghost base = out@;
    let ghost dv = pairs.deep_view();
    proof {
        reveal_strlit("{");
        reveal_strlit("}");
        reveal_strlit(",");
        reveal_strlit(":");
    }
    out.append("{");
    let mut i: usize = 0;
    while i < pairs.len()
        invariant
            dv == pairs.deep_view(),
            dv.len() == pairs.len(),
            i <= pairs.len(),
            out@ == base + seq!['{'] + json_members(dv.take(i as int)),
            "{"@ =~= seq!['{'],
            "}"@ =~= seq!['}'],
            ","@ =~= seq![','],
            ":"@ =~= seq![':'],
        decreases pairs.len() - i,
    {
        let ghost before = out@;
        assert(dv[i as int] == (pairs@[i as int].0@, pairs@[i as int].1@));
        if i > 0 {
            out.append(",");
        }
        append_json_string(out, pairs[i].0.as_str());
        out.append(":");
        append_json_string(out, pairs[i].1.as_str());
        proof {
            lemma_take_succ(dv, i as int);
            if i > 0 {
                assert(out@ =~= before + seq![','] + json_member(dv[i as int]));
            } else {
                assert(out@ =~= before + json_member(dv[i as int]));
            }
            assert(out@ =~= base + seq!['{'] + json_members(dv.take(i + 1)));
        }
        i += 1;
    }
    out.append("}");
    proof {
        lemma_take_full(dv);
        assert(final(out)@ =~= base + json_object(dv));
    }
}

} // verus!
