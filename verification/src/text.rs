//! Character-level building blocks for the textual parts of the protocol:
//! decimal rendering of integers and JSON string escaping.

use vstd::prelude::*;

verus! {

use vstd::string::{StrSliceExecFns, StringExecFns};

/// The decimal digit character for a value below ten.
pub open spec fn dec_digit(d: nat) -> char {
    if d == 0 {
        '0'
    } else if d == 1 {
        '1'
    } else if d == 2 {
        '2'
    } else if d == 3 {
        '3'
    } else if d == 4 {
        '4'
    } else if d == 5 {
        '5'
    } else if d == 6 {
        '6'
    } else if d == 7 {
        '7'
    } else if d == 8 {
        '8'
    } else {
        '9'
    }
}

/// The decimal rendering of `n`, most significant digit first, with no
/// leading zeroes (a single `0` for zero).
pub open spec fn dec_chars(n: nat) -> Seq<char>
    decreases n,
{
    if n < 10 {
        seq![dec_digit(n)]
    } else {
        dec_chars(n / 10) + seq![dec_digit(n % 10)]
    }
}

/// The lower-case hexadecimal digit character for a value below sixteen.
pub open spec fn hex_digit(v: nat) -> char {
    if v < 10 {
        dec_digit(v)
    } else if v == 10 {
        'a'
    } else if v == 11 {
        'b'
    } else if v == 12 {
        'c'
    } else if v == 13 {
        'd'
    } else if v == 14 {
        'e'
    } else {
        'f'
    }
}

/// How one character is written inside a JSON string: quote and backslash
/// get a backslash, control characters become `\u00` and two hex digits,
/// everything else stands as it is.
pub open spec fn escape_char(c: char) -> Seq<char> {
    if c == '"' {
        "\\\""@
    } else if c == '\\' {
        "\\\\"@
    } else if (c as u32) < 32 {
        "\\u00"@ + seq![hex_digit(((c as u32) / 16) as nat), hex_digit(((c as u32) % 16) as nat)]
    } else {
        seq![c]
    }
}

/// A character sequence written inside a JSON string, character by character.
pub open spec fn escape_chars(s: Seq<char>) -> Seq<char>
    decreases s.len(),
{
    if s.len() == 0 {
        Seq::empty()
    } else {
        escape_char(s[0]) + escape_chars(s.skip(1))
    }
}

pub proof fn lemma_escape_chars_append(a: Seq<char>, b: Seq<char>)
    ensures
        escape_chars(a + b) == escape_chars(a) + escape_chars(b),
    decreases a.len(),
{
    if a.len() == 0 {
        assert(a + b =~= b);
        assert(escape_chars(a) + escape_chars(b) =~= escape_chars(b));
    } else {
        assert((a + b).len() > 0);
        assert((a + b)[0] == a[0]);
        assert((a + b).skip(1) =~= a.skip(1) + b);
        lemma_escape_chars_append(a.skip(1), b);
        assert((escape_char(a[0]) + escape_chars(a.skip(1))) + escape_chars(b) =~= escape_char(a[0])
            + (escape_chars(a.skip(1)) + escape_chars(b)));
    }
}

fn digit_str(d: u64) -> (r: &'static str)
    requires
        d < 10,
    ensures
        r@ == seq![dec_digit(d as nat)],
{
    if d == 0 {
        proof {
            reveal_strlit("0");
            assert("0"@ =~= seq![dec_digit(0)]);
        }
        "0"
    } else if d == 1 {
        proof {
            reveal_strlit("1");
            assert("1"@ =~= seq![dec_digit(1)]);
        }
        "1"
    } else if d == 2 {
        proof {
            reveal_strlit("2");
            assert("2"@ =~= seq![dec_digit(2)]);
        }
        "2"
    } else if d == 3 {
        proof {
            reveal_strlit("3");
            assert("3"@ =~= seq![dec_digit(3)]);
        }
        "3"
    } else if d == 4 {
        proof {
            reveal_strlit("4");
            assert("4"@ =~= seq![dec_digit(4)]);
        }
        "4"
    } else if d == 5 {
        proof {
            reveal_strlit("5");
            assert("5"@ =~= seq![dec_digit(5)]);
        }
        "5"
    } else if d == 6 {
        proof {
            reveal_strlit("6");
            assert("6"@ =~= seq![dec_digit(6)]);
        }
        "6"
    } else if d == 7 {
        proof {
            reveal_strlit("7");
            assert("7"@ =~= seq![dec_digit(7)]);
        }
        "7"
    } else if d == 8 {
        proof {
            reveal_strlit("8");
            assert("8"@ =~= seq![dec_digit(8)]);
        }
        "8"
    } else {
        proof {
            reveal_strlit("9");
            assert("9"@ =~= seq![dec_digit(9)]);
        }
        "9"
    }
}

fn hex_str(v: u32) -> (r: &'static str)
    requires
        v < 16,
    ensures
        r@ == seq![hex_digit(v as nat)],
{
    if v < 10 {
        digit_str(v as u64)
    } else if v == 10 {
        proof {
            reveal_strlit("a");
            assert("a"@ =~= seq![hex_digit(10)]);
        }
        "a"
    } else if v == 11 {
        proof {
            reveal_strlit("b");
            assert("b"@ =~= seq![hex_digit(11)]);
        }
        "b"
    } else if v == 12 {
        proof {
            reveal_strlit("c");
            assert("c"@ =~= seq![hex_digit(12)]);
        }
        "c"
    } else if v == 13 {
        proof {
            reveal_strlit("d");
            assert("d"@ =~= seq![hex_digit(13)]);
        }
        "d"
    } else if v == 14 {
        proof {
            reveal_strlit("e");
            assert("e"@ =~= seq![hex_digit(14)]);
        }
        "e"
    } else {
        proof {
            reveal_strlit("f");
            assert("f"@ =~= seq![hex_digit(15)]);
        }
        "f"
    }
}

/// Appends the decimal rendering of `n`.
pub fn push_dec(s: &mut String, n: u64)
    ensures
        final(s)@ == old(s)@ + dec_chars(n as nat),
    decreases n,
{
    if n < 10 {
        s.append(digit_str(n));
    } else {
        push_dec(s, n / 10);
        s.append(digit_str(n % 10));
        proof {
            assert((old(s)@ + dec_chars((n / 10) as nat)) + seq![dec_digit((n % 10) as nat)]
                =~= old(s)@ + (dec_chars((n / 10) as nat) + seq![dec_digit((n % 10) as nat)]));
        }
    }
}

/// Appends `k` with every character JSON-escaped.
pub fn push_escaped(s: &mut String, k: &str)
    ensures
        final(s)@ == old(s)@ + escape_chars(k@),
{
    let len = k.unicode_len();
    let mut i: usize = 0;
    proof {
        assert(k@.take(0) =~= Seq::<char>::empty());
        assert(s@ + Seq::<char>::empty() =~= s@);
    }
    while i < len
        invariant
            i <= len,
            len == k@.len(),
            s@ == old(s)@ + escape_chars(k@.take(i as int)),
        decreases len - i,
    {
        let ghost pre = s@;
        let ghost c0 = k@[i as int];
        let c = k.get_char(i);
        if c == '"' {
            s.append("\\\"");
        } else if c == '\\' {
            s.append("\\\\");
        } else {
            let v: u32 = c as u32;
            if v < 32 {
                s.append("\\u00");
                s.append(hex_str(v / 16));
                s.append(hex_str(v % 16));
                proof {
                    assert(((pre + "\\u00"@) + seq![hex_digit((v / 16) as nat)]) + seq![
                        hex_digit((v % 16) as nat),
                    ] =~= pre + ("\\u00"@ + seq![
                        hex_digit((v / 16) as nat),
                        hex_digit((v % 16) as nat),
                    ]));
                }
            } else {
                s.append(k.substring_char(i, i + 1));
                proof {
                    assert(k@.subrange(i as int, i as int + 1) =~= seq![c0]);
                }
            }
        }
        proof {
            assert(s@ == pre + escape_char(c0));
            assert(k@.take(i as int + 1) =~= k@.take(i as int) + seq![c0]);
            lemma_escape_chars_append(k@.take(i as int), seq![c0]);
            assert(seq![c0].skip(1) =~= Seq::<char>::empty());
            assert(escape_char(c0) + Seq::<char>::empty() =~= escape_char(c0));
            assert(seq![c0].len() == 1 && seq![c0][0] == c0);
            assert(escape_chars(seq![c0]) == escape_char(seq![c0][0]) + escape_chars(
                seq![c0].skip(1),
            ));
            assert(escape_chars(seq![c0]) == escape_char(c0));
            assert((old(s)@ + escape_chars(k@.take(i as int))) + escape_char(c0) =~= old(s)@ + (
            escape_chars(k@.take(i as int)) + escape_char(c0)));
        }
        i = i + 1;
    }
    proof {
        assert(k@.take(len as int) =~= k@);
    }
}

} // verus!
