use vstd::prelude::*;

use vstd::string::StringExecFns;

verus! {

/// The character for one digit value, decimal or hexadecimal, lowercase.
pub open spec fn digit_char(d: int) -> char {
    if d == 0 {
        '0'
    } else if d == 1 {
        '1'
    } else if d == 2 {
        '2'
    } else if d == 3 {
        '3'
    } else if d == 4 {
        '4'
    } else if d == 5 {
        '5'
    } else if d == 6 {
        '6'
    } else if d == 7 {
        '7'
    } else if d == 8 {
        '8'
    } else if d == 9 {
        '9'
    } else if d == 10 {
        'a'
    } else if d == 11 {
        'b'
    } else if d == 12 {
        'c'
    } else if d == 13 {
        'd'
    } else if d == 14 {
        'e'
    } else {
        'f'
    }
}

/// The decimal digits of a nonnegative integer, most significant first.
pub open spec fn dec_digits(n: int) -> Seq<char>
    decreases n,
{
    if n < 10 {
        seq![digit_char(n)]
    } else {
        dec_digits(n / 10) + seq![digit_char(n % 10)]
    }
}

/// The decimal rendering of a signed value: a minus sign for negatives, then
/// the digits of the magnitude.
pub open spec fn dec_str(v: int) -> Seq<char> {
    if v < 0 {
        seq!['-'] + dec_digits(-v)
    } else {
        dec_digits(v)
    }
}

/// The 16 hexadecimal digits of a 64-bit value, most significant nibble
/// first, lowercase, zero-padded to fixed width.
pub open spec fn hex16(v: u64) -> Seq<char> {
    Seq::new(16, |i: int| digit_char((v >> ((60 - 4 * i) as u64) & 0xf) as int))
}

/// The lowercase hexadecimal rendering of a byte string: two digits per
/// byte, in byte order, high nibble first.
pub open spec fn hex_of(bs: Seq<u8>) -> Seq<char> {
    Seq::new(
        bs.len() * 2,
        |i: int|
            if i % 2 == 0 {
                digit_char((bs[i / 2] >> 4) as int)
            } else {
                digit_char((bs[i / 2] & 0xf) as int)
            },
    )
}

/// The one-character string for a digit value.
fn digit_str(d: u64) -> (s: &'static str)
    requires
        d < 16,
    ensures
        s@ == seq![digit_char(d as int)],
{
    if d == 0 {
        proof {
            reveal_strlit("0");
        }
        "0"
    } else if d == 1 {
        proof {
            reveal_strlit("1");
        }
        "1"
    } else if d == 2 {
        proof {
            reveal_strlit("2");
        }
        "2"
    } else if d == 3 {
        proof {
            reveal_strlit("3");
        }
        "3"
    } else if d == 4 {
        proof {
            reveal_strlit("4");
        }
        "4"
    } else if d == 5 {
        proof {
            reveal_strlit("5");
        }
        "5"
    } else if d == 6 {
        proof {
            reveal_strlit("6");
        }
        "6"
    } else if d == 7 {
        proof {
            reveal_strlit("7");
        }
        "7"
    } else if d == 8 {
        proof {
            reveal_strlit("8");
        }
        "8"
    } else if d == 9 {
        proof {
            reveal_strlit("9");
        }
        "9"
    } else if d == 10 {
        proof {
            reveal_strlit("a");
        }
        "a"
    } else if d == 11 {
        proof {
            reveal_strlit("b");
        }
        "b"
    } else if d == 12 {
        proof {
            reveal_strlit("c");
        }
        "c"
    } else if d == 13 {
        proof {
            reveal_strlit("d");
        }
        "d"
    } else if d == 14 {
        proof {
            reveal_strlit("e");
        }
        "e"
    } else {
        proof {
            reveal_strlit("f");
        }
        "f"
    }
}

/// Appends the decimal digits of `n` to a string.
fn push_dec_digits(s: &mut String, n: u64)
    ensures
        final(s)@ == old(s)@ + dec_digits(n as int),
    decreases n,
{
    if n >= 10 {
        push_dec_digits(s, n / 10);
    }
    let ghost mid = s@;
    s.append(digit_str(n % 10));
    proof {
        if n >= 10 {
            assert(s@ =~= old(s)@ + dec_digits(n as int));
        } else {
            assert(s@ =~= old(s)@ + dec_digits(n as int));
        }
    }
}

/// The decimal rendering of a signed 64-bit value.
pub fn i64_to_decimal(v: i64) -> (s: String)
    ensures
        s@ == dec_str(v as int),
{
    let mut s = String::new();
    if v < 0 {
        proof {
            reveal_strlit("-");
        }
        s.append("-");
        let magnitude = (-(v as i128)) as u64;
        push_dec_digits(&mut s, magnitude);
        proof {
            assert(s@ =~= dec_str(v as int));
        }
    } else {
        push_dec_digits(&mut s, v as u64);
        proof {
            assert(s@ =~= dec_str(v as int));
        }
    }
    s
}

/// The fixed-width, 16-digit lowercase hexadecimal rendering of a 64-bit
/// value, most significant nibble first.
pub fn u64_to_hex16(v: u64) -> (s: String)
    ensures
        s@ == hex16(v),
{
    let mut s = String::new();
    let mut i: usize = 0;
    while i < 16
        invariant
            i <= 16,
            s@ == hex16(v).take(i as int),
        decreases 16 - i,
    {
        let shift: u64 = 60 - 4 * (i as u64);
        let nibble = (v >> shift) & 0xf;
        proof {
            assert(nibble < 16) by (bit_vector)
                requires
                    nibble == (v >> shift) & 0xf,
            ;
        }
        s.append(digit_str(nibble));
        proof {
            assert(s@ =~= hex16(v).take(i + 1));
        }
        i = i + 1;
    }
    proof {
        assert(hex16(v).take(16) =~= hex16(v));
    }
    s
}

} // verus!
