//! Verified framing of JSON text: string escaping and objects of string
//! fields, built character by character with an exact statement of the
//! produced text.

use vstd::prelude::*;
use vstd::string::{StrSliceExecFns, StringExecFns};

verus! {

/// The hexadecimal digit for a value below sixteen, lower case.
pub open spec fn hex_char(d: nat) -> char {
    if d == 0 {
        '0'
    } else if d == 1 {
        '1'
    } else if d == 2 {
        '2'
    } else if d == 3 {
        '3'
    } else if d == 4 {
        '4'
    } else if d == 5 {
        '5'
    } else if d == 6 {
        '6'
    } else if d == 7 {
        '7'
    } else if d == 8 {
        '8'
    } else if d == 9 {
        '9'
    } else if d == 10 {
        'a'
    } else if d == 11 {
        'b'
    } else if d == 12 {
        'c'
    } else if d == 13 {
        'd'
    } else if d == 14 {
        'e'
    } else {
        'f'
    }
}

/// How one character appears inside a JSON string: quotes and backslashes
/// are escaped, the named control characters by letter, any other control
/// character numerically, and everything else stands as itself.
pub open spec fn escape_char(c: char) -> Seq<char> {
    if c == '"' {
        "\\\""@
    } else if c == '\\' {
        "\\\\"@
    } else if c == '\n' {
        "\\n"@
    } else if c == '\r' {
        "\\r"@
    } else if c == '\t' {
        "\\t"@
    } else if (c as u32) < 32 {
        "\\u00"@ + seq![hex_char(((c as u32) / 16) as nat), hex_char(((c as u32) % 16) as nat)]
    } else {
        seq![c]
    }
}

/// The JSON escape of a whole text.
pub open spec fn json_escape(s: Seq<char>) -> Seq<char>
    decreases s.len(),
{
    if s.len() == 0 {
        Seq::empty()
    } else {
        escape_char(s[0]) + json_escape(s.skip(1))
    }
}

/// A JSON string: the escaped text between quotes.
pub open spec fn json_string(s: Seq<char>) -> Seq<char> {
    "\""@ + json_escape(s) + "\""@
}

/// One `"key":"value"` member of a JSON object.
pub open spec fn json_member(field: (Seq<char>, Seq<char>)) -> Seq<char> {
    json_string(field.0) + ":"@ + json_string(field.1)
}

/// The members of a JSON object, comma-separated, in the given order.
pub open spec fn json_members(fields: Seq<(Seq<char>, Seq<char>)>) -> Seq<char>
    decreases fields.len(),
{
    if fields.len() == 0 {
        Seq::empty()
    } else if fields.len() == 1 {
        json_member(fields[0])
    } else {
        json_member(fields[0]) + ","@ + json_members(fields.skip(1))
    }
}

/// A JSON object of string fields, in the given order.
pub open spec fn json_object(fields: Seq<(Seq<char>, Seq<char>)>) -> Seq<char> {
    "{"@ + json_members(fields) + "}"@
}

/// The views of a list of owned string pairs.
pub open spec fn pair_views(fields: Seq<(String, String)>) -> Seq<(Seq<char>, Seq<char>)> {
    fields.map_values(|p: (String, String)| (p.0@, p.1@))
}

/// Escaping distributes over appending one character.
proof fn lemma_json_escape_snoc(s: Seq<char>, c: char)
    ensures
        json_escape(s.push(c)) == json_escape(s) + escape_char(c),
    decreases s.len(),
{
    if s.len() == 0 {
        assert(s.push(c)[0] == c);
        assert(s.push(c).skip(1) =~= Seq::<char>::empty());
        assert(json_escape(s.push(c)) == escape_char(c) + json_escape(Seq::<char>::empty()));
        assert(escape_char(c) + Seq::<char>::empty() =~= escape_char(c));
        assert(Seq::<char>::empty() + escape_char(c) =~= escape_char(c));
    } else {
        assert(s.push(c)[0] == s[0]);
        assert(s.push(c).skip(1) =~= s.skip(1).push(c));
        lemma_json_escape_snoc(s.skip(1), c);
        assert(escape_char(s[0]) + (json_escape(s.skip(1)) + escape_char(c)) =~= (escape_char(s[0])
            + json_escape(s.skip(1))) + escape_char(c));
    }
}

/// The object members gain one trailing member when a field is appended.
proof fn lemma_json_members_snoc(fields: Seq<(Seq<char>, Seq<char>)>, f: (Seq<char>, Seq<char>))
    ensures
        json_members(fields.push(f)) == if fields.len() == 0 {
            json_member(f)
        } else {
            json_members(fields) + ","@ + json_member(f)
        },
    decreases fields.len(),
{
    let pushed = fields.push(f);
    if fields.len() == 0 {
        assert(pushed.len() == 1);
        assert(pushed[0] == f);
    } else {
        assert(pushed[0] == fields[0]);
        assert(pushed.skip(1) =~= fields.skip(1).push(f));
        lemma_json_members_snoc(fields.skip(1), f);
        if fields.len() == 1 {
            assert(pushed.len() == 2);
            assert(json_members(pushed) == json_member(fields[0]) + ","@ + json_member(f));
        } else {
            assert(json_member(fields[0]) + ","@ + (json_members(fields.skip(1)) + ","@
                + json_member(f)) =~= (json_member(fields[0]) + ","@ + json_members(
                fields.skip(1),
            )) + ","@ + json_member(f));
        }
    }
}

/// The hexadecimal digit for `d`, as a string slice.
fn hex_str(d: u32) -> (r: &'static str)
    requires
        d < 16,
    ensures
        r@ == seq![hex_char(d as nat)],
{
    if d == 0 {
        proof {
            reveal_strlit("0");
            assert("0"@ =~= seq![hex_char(0)]);
        }
        "0"
    } else if d == 1 {
        proof {
            reveal_strlit("1");
            assert("1"@ =~= seq![hex_char(1)]);
        }
        "1"
    } else if d == 2 {
        proof {
            reveal_strlit("2");
            assert("2"@ =~= seq![hex_char(2)]);
        }
        "2"
    } else if d == 3 {
        proof {
            reveal_strlit("3");
            assert("3"@ =~= seq![hex_char(3)]);
        }
        "3"
    } else if d == 4 {
        proof {
            reveal_strlit("4");
            assert("4"@ =~= seq![hex_char(4)]);
        }
        "4"
    } else if d == 5 {
        proof {
            reveal_strlit("5");
            assert("5"@ =~= seq![hex_char(5)]);
        }
        "5"
    } else if d == 6 {
        proof {
            reveal_strlit("6");
            assert("6"@ =~= seq![hex_char(6)]);
        }
        "6"
    } else if d == 7 {
        proof {
            reveal_strlit("7");
            assert("7"@ =~= seq![hex_char(7)]);
        }
        "7"
    } else if d == 8 {
        proof {
            reveal_strlit("8");
            assert("8"@ =~= seq![hex_char(8)]);
        }
        "8"
    } else if d == 9 {
        proof {
            reveal_strlit("9");
            assert("9"@ =~= seq![hex_char(9)]);
        }
        "9"
    } else if d == 10 {
        proof {
            reveal_strlit("a");
            assert("a"@ =~= seq![hex_char(10)]);
        }
        "a"
    } else if d == 11 {
        proof {
            reveal_strlit("b");
            assert("b"@ =~= seq![hex_char(11)]);
        }
        "b"
    } else if d == 12 {
        proof {
            reveal_strlit("c");
            assert("c"@ =~= seq![hex_char(12)]);
        }
        "c"
    } else if d == 13 {
        proof {
            reveal_strlit("d");
            assert("d"@ =~= seq![hex_char(13)]);
        }
        "d"
    } else if d == 14 {
        proof {
            reveal_strlit("e");
            assert("e"@ =~= seq![hex_char(14)]);
        }
        "e"
    } else {
        proof {
            reveal_strlit("f");
            assert("f"@ =~= seq![hex_char(15)]);
        }
        "f"
    }
}

/// Append the JSON escape of `piece` to `out`.
pub fn append_json_escaped(out: &mut String, piece: &str)
    ensures
        final(out)@ == old(out)@ + json_escape(piece@),
{
    let ghost base = out@;
    let n = piece.unicode_len();
    let mut i: usize = 0;
    while i < n
        invariant
            n == piece@.len(),
            i <= n,
            out@ == base + json_escape(piece@.take(i as int)),
        decreases n - i,
    {
        let c = piece.get_char(i);
        proof {
            assert(piece@.take(i as int + 1) =~= piece@.take(i as int).push(c));
            lemma_json_escape_snoc(piece@.take(i as int), c);
        }
        if c == '"' {
            out.append("\\\"");
        } else if c == '\\' {
            out.append("\\\\");
        } else if c == '\n' {
            out.append("\\n");
        } else if c == '\r' {
            out.append("\\r");
        } else if c == '\t' {
            out.append("\\t");
        } else if (c as u32) < 32 {
            let v = c as u32;
            out.append("\\u00");
            out.append(hex_str(v / 16));
            out.append(hex_str(v % 16));
            proof {
                assert(((base + json_escape(piece@.take(i as int)) + "\\u00"@) + seq![
                    hex_char((v / 16) as nat),
                ]) + seq![hex_char((v % 16) as nat)] =~= base + json_escape(piece@.take(i as int))
                    + escape_char(c));
            }
        } else {
            let piece_char = piece.substring_char(i, i + 1);
            proof {
                assert(piece_char@ =~= seq![c]);
            }
            out.append(piece_char);
        }
        proof {
            assert(out@ =~= base + json_escape(piece@.take(i as int + 1)));
        }
        i = i + 1;
    }
    proof {
        assert(piece@.take(n as int) =~= piece@);
    }
}

/// Append `piece` to `out` as a JSON string, quotes included.
pub fn append_json_string(out: &mut String, piece: &str)
    ensures
        final(out)@ == old(out)@ + json_string(piece@),
{
    out.append("\"");
    append_json_escaped(out, piece);
    out.append("\"");
    proof {
        assert(out@ =~= old(out)@ + json_string(piece@));
    }
}

/// Append the fields to `out` as a JSON object of strings, in order.
pub fn append_json_object(out: &mut String, fields: &Vec<(String, String)>)
    ensures
        final(out)@ == old(out)@ + json_object(pair_views(fields@)),
{
    let ghost base = out@;
    out.append("{");
    let n = fields.len();
    let mut i: usize = 0;
    while i < n
        invariant
            n == fields@.len(),
            i <= n,
            out@ == base + "{"@ + json_members(pair_views(fields@).take(i as int)),
        decreases n - i,
    {
        let ghost members = pair_views(fields@);
        proof {
            assert(members.take(i as int + 1) =~= members.take(i as int).push(members[i as int]));
            lemma_json_members_snoc(members.take(i as int), members[i as int]);
        }
        if i > 0 {
            out.append(",");
        }
        append_json_string(out, fields[i].0.as_str());
        out.append(":");
        append_json_string(out, fields[i].1.as_str());
        proof {
            assert(members[i as int] == (fields@[i as int].0@, fields@[i as int].1@));
            assert(out@ =~= base + "{"@ + json_members(members.take(i as int + 1)));
        }
        i = i + 1;
    }
    out.append("}");
    proof {
        assert(pair_views(fields@).take(n as int) =~= pair_views(fields@));
        assert(out@ =~= base + json_object(pair_views(fields@)));
    }
}

} // verus!
