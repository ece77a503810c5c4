//! Generated stream identifiers.
//!
//! A plain stream's identifier is generated from the circuit's identifier and
//! the clock reading at connect time, as `{circuit}-stream-{millis}`. The
//! decimal rendering is written and proved here, and identifiers generated at
//! distinct clock readings are proved distinct.

use vstd::prelude::*;
use vstd::string::StringExecFns;

verus! {

/// The decimal digit for a value below ten.
pub open spec fn digit_char(d: nat) -> char {
    if d == 0 {
        '0'
    } else if d == 1 {
        '1'
    } else if d == 2 {
        '2'
    } else if d == 3 {
        '3'
    } else if d == 4 {
        '4'
    } else if d == 5 {
        '5'
    } else if d == 6 {
        '6'
    } else if d == 7 {
        '7'
    } else if d == 8 {
        '8'
    } else {
        '9'
    }
}

/// The decimal rendering of a number: no sign, no leading zeroes.
pub open spec fn decimal_digits(n: nat) -> Seq<char>
    decreases n,
{
    if n < 10 {
        seq![digit_char(n)]
    } else {
        decimal_digits(n / 10).push(digit_char(n % 10))
    }
}

/// The identifier generated for a stream opened through `circuit` at clock
/// reading `millis`.
pub open spec fn stream_ident(circuit: Seq<char>, millis: nat) -> Seq<char> {
    circuit + "-stream-"@ + decimal_digits(millis)
}

/// The decimal digit for `d`, as a string slice.
fn digit_str(d: u64) -> (r: &'static str)
    requires
        d < 10,
    ensures
        r@ == seq![digit_char(d as nat)],
{
    if d == 0 {
        proof {
            reveal_strlit("0");
            assert("0"@ =~= seq![digit_char(0)]);
        }
        "0"
    } else if d == 1 {
        proof {
            reveal_strlit("1");
            assert("1"@ =~= seq![digit_char(1)]);
        }
        "1"
    } else if d == 2 {
        proof {
            reveal_strlit("2");
            assert("2"@ =~= seq![digit_char(2)]);
        }
        "2"
    } else if d == 3 {
        proof {
            reveal_strlit("3");
            assert("3"@ =~= seq![digit_char(3)]);
        }
        "3"
    } else if d == 4 {
        proof {
            reveal_strlit("4");
            assert("4"@ =~= seq![digit_char(4)]);
        }
        "4"
    } else if d == 5 {
        proof {
            reveal_strlit("5");
            assert("5"@ =~= seq![digit_char(5)]);
        }
        "5"
    } else if d == 6 {
        proof {
            reveal_strlit("6");
            assert("6"@ =~= seq![digit_char(6)]);
        }
        "6"
    } else if d == 7 {
        proof {
            reveal_strlit("7");
            assert("7"@ =~= seq![digit_char(7)]);
        }
        "7"
    } else if d == 8 {
        proof {
            reveal_strlit("8");
            assert("8"@ =~= seq![digit_char(8)]);
        }
        "8"
    } else {
        proof {
            reveal_strlit("9");
            assert("9"@ =~= seq![digit_char(9)]);
        }
        "9"
    }
}

/// Render `n` in decimal.
pub fn format_u64(n: u64) -> (s: String)
    ensures
        s@ == decimal_digits(n as nat),
    decreases n,
{
    if n < 10 {
        String::from_str(digit_str(n))
    } else {
        let mut s = format_u64(n / 10);
        let d = digit_str(n % 10);
        s.append(d);
        proof {
            assert(s@ =~= decimal_digits((n / 10) as nat).push(digit_char((n % 10) as nat)));
        }
        s
    }
}

/// Build the identifier for a stream opened through `circuit` at clock
/// reading `millis`.
pub fn make_stream_ident(circuit: &str, millis: u64) -> (s: String)
    ensures
        s@ == stream_ident(circuit@, millis as nat),
{
    let mut s = String::from_str(circuit);
    s.append("-stream-");
    let digits = format_u64(millis);
    s.append(digits.as_str());
    s
}

/// A decimal rendering is never empty, and has at least two digits from ten
/// upward.
proof fn lemma_decimal_digits_len(n: nat)
    ensures
        decimal_digits(n).len() >= 1,
        n >= 10 ==> decimal_digits(n).len() >= 2,
    decreases n,
{
    if n >= 10 {
        lemma_decimal_digits_len(n / 10);
    }
}

/// Distinct numbers have distinct decimal renderings.
proof fn lemma_decimal_digits_injective(a: nat, b: nat)
    requires
        decimal_digits(a) == decimal_digits(b),
    ensures
        a == b,
    decreases a,
{
    lemma_decimal_digits_len(a);
    lemma_decimal_digits_len(b);
    if a < 10 && b < 10 {
        assert(decimal_digits(a) == seq![digit_char(a)]);
        assert(decimal_digits(b) == seq![digit_char(b)]);
        assert(seq![digit_char(a)][0] == digit_char(a));
        assert(seq![digit_char(b)][0] == digit_char(b));
        assert(digit_char(a) == digit_char(b));
    } else if a >= 10 && b >= 10 {
        let sa = decimal_digits(a / 10);
        let sb = decimal_digits(b / 10);
        assert(sa.push(digit_char(a % 10)) == sb.push(digit_char(b % 10)));
        assert(sa =~= sa.push(digit_char(a % 10)).drop_last());
        assert(sb =~= sb.push(digit_char(b % 10)).drop_last());
        assert(digit_char(a % 10) == sa.push(digit_char(a % 10)).last());
        assert(digit_char(b % 10) == sb.push(digit_char(b % 10)).last());
        lemma_decimal_digits_injective(a / 10, b / 10);
        assert(a % 10 == b % 10);
        assert(a == (a / 10) * 10 + a % 10) by (nonlinear_arith);
        assert(b == (b / 10) * 10 + b % 10) by (nonlinear_arith);
    } else {
        assert(decimal_digits(a).len() == decimal_digits(b).len());
        assert(false);
    }
}

/// Identifiers generated for one circuit at distinct clock readings are
/// distinct; at one and the same reading the generated identifiers coincide,
/// so such a collision is detectable by comparing them.
pub proof fn lemma_stream_ident_distinct(circuit: Seq<char>, m1: nat, m2: nat)
    requires
        m1 != m2,
    ensures
        stream_ident(circuit, m1) != stream_ident(circuit, m2),
{
    if stream_ident(circuit, m1) == stream_ident(circuit, m2) {
        let prefix = circuit + "-stream-"@;
        let s1 = stream_ident(circuit, m1);
        let s2 = stream_ident(circuit, m2);
        assert(s1.len() == prefix.len() + decimal_digits(m1).len());
        assert(decimal_digits(m1) =~= s1.subrange(prefix.len() as int, s1.len() as int));
        assert(decimal_digits(m2) =~= s2.subrange(prefix.len() as int, s2.len() as int));
        lemma_decimal_digits_injective(m1, m2);
    }
}

} // verus!
