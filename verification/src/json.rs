//! A small JSON writer for audit details.
//!
//! Every audit entry carries a `details` text: a one-level JSON object whose
//! last member is always `"version"`.  The writer escapes string values, so
//! the text is well-formed JSON for any input.

use vstd::prelude::*;

use crate::money::{dec_str, digit_char, digit_str};

verus! {

/// The hexadecimal digit character for `d` (0 through 15).
pub open spec fn hex_char(d: int) -> char {
    if d < 10 {
        digit_char(d)
    } else if d == 10 {
        'a'
    } else if d == 11 {
        'b'
    } else if d == 12 {
        'c'
    } else if d == 13 {
        'd'
    } else if d == 14 {
        'e'
    } else {
        'f'
    }
}

/// The one-character string for a hexadecimal digit.
pub fn hex_str(d: u8) -> (r: &'static str)
    requires
        d < 16,
    ensures
        r@ =~= seq![hex_char(d as int)],
{
    if d < 10 {
        digit_str(d)
    } else {
        proof {
            reveal_strlit("a");
            reveal_strlit("b");
            reveal_strlit("c");
            reveal_strlit("d");
            reveal_strlit("e");
            reveal_strlit("f");
        }
        match d {
            10 => "a",
            11 => "b",
            12 => "c",
            13 => "d",
            14 => "e",
            _ => "f",
        }
    }
}

/// How one character is written inside a JSON string.
pub open spec fn esc_char(c: char) -> Seq<char> {
    if c == '"' {
        seq!['\\', '"']
    } else if c == '\\' {
        seq!['\\', '\\']
    } else if c == '\n' {
        seq!['\\', 'n']
    } else if c == '\r' {
        seq!['\\', 'r']
    } else if c == '\t' {
        seq!['\\', 't']
    } else if (c as u32) < 32 {
        seq!['\\', 'u', '0', '0', hex_char(c as u32 as int / 16), hex_char(c as u32 as int % 16)]
    } else {
        seq![c]
    }
}

/// How a whole text is written inside a JSON string.
pub open spec fn json_escape(s: Seq<char>) -> Seq<char>
    decreases s.len(),
{
    if s.len() == 0 {
        Seq::empty()
    } else {
        json_escape(s.drop_last()) + esc_char(s.last())
    }
}

proof fn lemma_json_escape_step(s: Seq<char>, i: int)
    requires
        0 <= i < s.len(),
    ensures
        json_escape(s.take(i + 1)) == json_escape(s.take(i)) + esc_char(s[i]),
{
    assert(s.take(i + 1).drop_last() =~= s.take(i));
    assert(s.take(i + 1).last() == s[i]);
}

/// Writes `s` as the body of a JSON string.
pub fn escape_json(s: &str) -> (r: String)
    ensures
        r@ == json_escape(s@),
{
    let n = s.unicode_len();
    let mut out = String::new();
    let mut i: usize = 0;
    while i < n
        invariant
            0 <= i <= n,
            n == s@.len(),
            out@ == json_escape(s@.take(i as int)),
        decreases n - i,
    {
        let c = s.get_char(i);
        proof {
            lemma_json_escape_step(s@, i as int);
        }
        if c == '"' {
            proof {
                reveal_strlit("\\\"");
            }
            assert("\\\""@ =~= esc_char(c));
            out.append("\\\"");
        } else if c == '\\' {
            proof {
                reveal_strlit("\\\\");
            }
            assert("\\\\"@ =~= esc_char(c));
            out.append("\\\\");
        } else if c == '\n' {
            proof {
                reveal_strlit("\\n");
            }
            assert("\\n"@ =~= esc_char(c));
            out.append("\\n");
        } else if c == '\r' {
            proof {
                reveal_strlit("\\r");
            }
            assert("\\r"@ =~= esc_char(c));
            out.append("\\r");
        } else if c == '\t' {
            proof {
                reveal_strlit("\\t");
            }
            assert("\\t"@ =~= esc_char(c));
            out.append("\\t");
        } else if (c as u32) < 32 {
            let u = c as u32;
            proof {
                reveal_strlit("\\u00");
            }
            out.append("\\u00");
            out.append(hex_str((u / 16) as u8));
            out.append(hex_str((u % 16) as u8));
            assert(out@ =~= json_escape(s@.take(i as int)) + esc_char(c));
        } else {
            let piece = s.substring_char(i, i + 1);
            assert(piece@ =~= esc_char(c));
            out.append(piece);
        }
        i = i + 1;
    }
    proof {
        assert(s@.take(n as int) =~= s@);
    }
    out
}

/// A value of one member of a details object, at the specification level.
pub ghost enum JsonVal {
    Text(Seq<char>),
    Num(int),
}

/// A value of one member of a details object.
#[derive(Debug, Clone)]
pub enum DetailVal {
    Text(String),
    Num(u64),
}

impl DetailVal {
    /// The specification-level value this carries.
    pub open spec fn view_val(self) -> JsonVal {
        match self {
            DetailVal::Text(s) => JsonVal::Text(s@),
            DetailVal::Num(n) => JsonVal::Num(n as int),
        }
    }
}

/// The specification-level members a list of exec members denotes.
pub open spec fn spec_pairs(ps: Seq<(String, DetailVal)>) -> Seq<(Seq<char>, JsonVal)> {
    ps.map_values(|p: (String, DetailVal)| (p.0@, p.1.view_val()))
}

/// How one value is written.
pub open spec fn val_str(v: JsonVal) -> Seq<char> {
    match v {
        JsonVal::Text(s) => seq!['"'] + json_escape(s) + seq!['"'],
        JsonVal::Num(n) => dec_str(n),
    }
}

/// How one member and its trailing comma are written.
pub open spec fn member_str(key: Seq<char>, v: JsonVal) -> Seq<char> {
    seq!['"'] + json_escape(key) + seq!['"', ':'] + val_str(v) + seq![',']
}

/// How the leading members of a details object are written.
pub open spec fn members_str(ps: Seq<(Seq<char>, JsonVal)>) -> Seq<char>
    decreases ps.len(),
{
    if ps.len() == 0 {
        Seq::empty()
    } else {
        members_str(ps.drop_last()) + member_str(ps.last().0, ps.last().1)
    }
}

/// The member every details object ends with.
pub open spec fn version_member(version: int) -> Seq<char> {
    seq!['"', 'v', 'e', 'r', 's', 'i', 'o', 'n', '"', ':'] + dec_str(version)
}

/// The full details text: the given members, then the version, in braces.
pub open spec fn details_str(ps: Seq<(Seq<char>, JsonVal)>, version: int) -> Seq<char> {
    seq!['{'] + members_str(ps) + version_member(version) + seq!['}']
}

fn write_val(out: &mut String, v: &DetailVal)
    ensures
        final(out)@ == old(out)@ + val_str(v.view_val()),
{
    match v {
        DetailVal::Text(s) => {
            proof {
                reveal_strlit("\"");
            }
            out.append("\"");
            let body = escape_json(s.as_str());
            out.append(body.as_str());
            out.append("\"");
            assert(final(out)@ =~= old(out)@ + val_str(v.view_val()));
        },
        DetailVal::Num(n) => {
            let t = crate::money::format_u64(*n);
            out.append(t.as_str());
        },
    }
}

/// Writes the details object for an audit entry: the given members, then a
/// final `"version"` member holding `version`.
pub fn audit_details(pairs: &Vec<(String, DetailVal)>, version: u64) -> (r: String)
    ensures
        r@ == details_str(spec_pairs(pairs@), version as int),
{
    proof {
        reveal_strlit("{");
        reveal_strlit("}");
        reveal_strlit("\"");
        reveal_strlit("\":");
        reveal_strlit("\"version\":");
    }
    let ghost sp = spec_pairs(pairs@);
    let mut out = String::new();
    out.append("{");
    assert(out@ =~= seq!['{'] + members_str(sp.take(0)));
    let mut i: usize = 0;
    while i < pairs.len()
        invariant
            0 <= i <= pairs@.len(),
            sp == spec_pairs(pairs@),
            sp.len() == pairs@.len(),
            out@ == seq!['{'] + members_str(sp.take(i as int)),
        decreases pairs@.len() - i,
    {
        proof {
            reveal_strlit("\"");
            reveal_strlit("\":");
            assert(sp.take(i + 1).drop_last() =~= sp.take(i as int));
        }
        let p = &pairs[i];
        out.append("\"");
        let key = escape_json(p.0.as_str());
        out.append(key.as_str());
        out.append("\":");
        write_val(&mut out, &p.1);
        out.append(",");
        proof {
            reveal_strlit(",");
            assert(sp[i as int] == (pairs@[i as int].0@, pairs@[i as int].1.view_val()));
            assert(member_str(sp[i as int].0, sp[i as int].1) =~= seq!['"'] + json_escape(
                pairs@[i as int].0@,
            ) + seq!['"', ':'] + val_str(pairs@[i as int].1.view_val()) + seq![',']);
            assert("\":"@ =~= seq!['"', ':']);
            assert(out@ =~= seq!['{'] + members_str(sp.take(i + 1)));
        }
        i = i + 1;
    }
    proof {
        assert(sp.take(sp.len() as int) =~= sp);
    }
    out.append("\"version\":");
    assert("\"version\":"@ =~= seq!['"', 'v', 'e', 'r', 's', 'i', 'o', 'n', '"', ':']);
    let num = crate::money::format_u64(version);
    out.append(num.as_str());
    out.append("}");
    assert(out@ =~= details_str(sp, version as int));
    out
}

/// Every audit details text opens an object, closes it, and ends with a
/// `"version"` member: the shape that makes the recorded version readable.
pub proof fn lemma_audit_details_shape(ps: Seq<(Seq<char>, JsonVal)>, version: int)
    ensures
        details_str(ps, version).len() > 0,
        details_str(ps, version)[0] == '{',
        details_str(ps, version).last() == '}',
        details_str(ps, version) == seq!['{'] + members_str(ps) + version_member(version)
            + seq!['}'],
{
    let d = details_str(ps, version);
    assert(d[0] == '{');
    assert(d.last() == '}');
}

} // verus!
