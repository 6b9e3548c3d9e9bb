//! Kind-specific text rendering for extracted argument values: decimal and
//! hexadecimal digit strings, and the diagnostic placeholder used for
//! argument kinds the decoder does not support.

use vstd::prelude::*;
use vstd::string::StringExecFns;
use crate::classify::ArgType;

verus! {

/// The digit character for a value below the radix; letters above nine are
/// upper or lower case as asked.
pub open spec fn digit_char(d: int, upper: bool) -> char {
    if d == 0 {
        '0'
    } else if d == 1 {
        '1'
    } else if d == 2 {
        '2'
    } else if d == 3 {
        '3'
    } else if d == 4 {
        '4'
    } else if d == 5 {
        '5'
    } else if d == 6 {
        '6'
    } else if d == 7 {
        '7'
    } else if d == 8 {
        '8'
    } else if d == 9 {
        '9'
    } else if d == 10 {
        if upper {
            'A'
        } else {
            'a'
        }
    } else if d == 11 {
        if upper {
            'B'
        } else {
            'b'
        }
    } else if d == 12 {
        if upper {
            'C'
        } else {
            'c'
        }
    } else if d == 13 {
        if upper {
            'D'
        } else {
            'd'
        }
    } else if d == 14 {
        if upper {
            'E'
        } else {
            'e'
        }
    } else {
        if upper {
            'F'
        } else {
            'f'
        }
    }
}

/// The digit string of `n` in the given radix, most significant digit
/// first, with no leading zeros (a lone zero for `n == 0`).
pub open spec fn radix_seq(n: nat, base: nat, upper: bool) -> Seq<char>
    decreases n,
    when base >= 2
    via radix_seq_decreases
{
    if n < base {
        seq![digit_char(n as int, upper)]
    } else {
        radix_seq(n / base, base, upper) + seq![digit_char((n % base) as int, upper)]
    }
}

#[via_fn]
proof fn radix_seq_decreases(n: nat, base: nat, upper: bool) {
    if base >= 2 && n >= base {
        vstd::arithmetic::div_mod::lemma_div_decreases(n as int, base as int);
    }
}

/// The decimal digit string of a signed value, `-`-prefixed when negative.
pub open spec fn signed_dec_seq(i: int) -> Seq<char> {
    if i >= 0 {
        radix_seq(i as nat, 10, false)
    } else {
        seq!['-'] + radix_seq((-i) as nat, 10, false)
    }
}

/// The digit characters of a digit list read back to front: what a loop
/// that collected least-significant digits first has produced.
pub open spec fn rev_digit_chars(ds: Seq<u64>, upper: bool) -> Seq<char>
    decreases ds.len(),
{
    if ds.len() == 0 {
        Seq::<char>::empty()
    } else {
        seq![digit_char(ds.last() as int, upper)] + rev_digit_chars(ds.drop_last(), upper)
    }
}

/// The one-character string for a digit value below sixteen.
fn digit_str(d: u64, upper: bool) -> (r: &'static str)
    requires
        d < 16,
    ensures
        r@ == seq![digit_char(d as int, upper)],
{
    proof {
        reveal_strlit("0");
        reveal_strlit("1");
        reveal_strlit("2");
        reveal_strlit("3");
        reveal_strlit("4");
        reveal_strlit("5");
        reveal_strlit("6");
        reveal_strlit("7");
        reveal_strlit("8");
        reveal_strlit("9");
        reveal_strlit("A");
        reveal_strlit("B");
        reveal_strlit("C");
        reveal_strlit("D");
        reveal_strlit("E");
        reveal_strlit("F");
        reveal_strlit("a");
        reveal_strlit("b");
        reveal_strlit("c");
        reveal_strlit("d");
        reveal_strlit("e");
        reveal_strlit("f");
    }
    match d {
        0 => "0",
        1 => "1",
        2 => "2",
        3 => "3",
        4 => "4",
        5 => "5",
        6 => "6",
        7 => "7",
        8 => "8",
        9 => "9",
        10 => if upper {
            "A"
        } else {
            "a"
        },
        11 => if upper {
            "B"
        } else {
            "b"
        },
        12 => if upper {
            "C"
        } else {
            "c"
        },
        13 => if upper {
            "D"
        } else {
            "d"
        },
        14 => if upper {
            "E"
        } else {
            "e"
        },
        _ => if upper {
            "F"
        } else {
            "f"
        },
    }
}

/// Renders `n` in the given radix (decimal or hexadecimal), without any
/// prefix or padding.
pub fn render_radix(n: u64, base: u64, upper: bool) -> (r: String)
    requires
        base == 10 || base == 16,
    ensures
        r@ == radix_seq(n as nat, base as nat, upper),
{
    let mut digits: Vec<u64> = Vec::new();
    let mut m = n;
    while m >= base
        invariant
            base == 10 || base == 16,
            radix_seq(n as nat, base as nat, upper) == radix_seq(m as nat, base as nat, upper)
                + rev_digit_chars(digits@, upper),
            forall|k: int| 0 <= k < digits@.len() ==> #[trigger] digits@[k] < base,
        decreases m,
    {
        let d = m % base;
        proof {
            let ds = digits@.push(d);
            assert(ds.drop_last() =~= digits@);
            assert(radix_seq(m as nat, base as nat, upper) == radix_seq(
                (m / base) as nat,
                base as nat,
                upper,
            ) + seq![digit_char(d as int, upper)]);
            assert(radix_seq(n as nat, base as nat, upper) =~= radix_seq(
                (m / base) as nat,
                base as nat,
                upper,
            ) + rev_digit_chars(ds, upper));
        }
        digits.push(d);
        m = m / base;
    }
    proof {
        let ds = digits@.push(m);
        assert(ds.drop_last() =~= digits@);
        assert(radix_seq(n as nat, base as nat, upper) =~= rev_digit_chars(ds, upper));
    }
    digits.push(m);
    let mut r = String::new();
    proof {
        assert(digits@.take(digits@.len() as int) =~= digits@);
        assert(r@ + rev_digit_chars(digits@, upper) =~= rev_digit_chars(digits@, upper));
    }
    let mut k = digits.len();
    while k > 0
        invariant
            base == 10 || base == 16,
            k <= digits@.len(),
            forall|j: int| 0 <= j < digits@.len() ==> #[trigger] digits@[j] < base,
            r@ + rev_digit_chars(digits@.take(k as int), upper) == rev_digit_chars(
                digits@,
                upper,
            ),
        decreases k,
    {
        let d = digits[k - 1];
        proof {
            let pre = digits@.take(k as int);
            assert(pre.last() == digits@[k - 1]);
            assert(pre.drop_last() =~= digits@.take(k - 1));
            assert(r@ + seq![digit_char(d as int, upper)] + rev_digit_chars(
                digits@.take(k - 1),
                upper,
            ) =~= r@ + rev_digit_chars(pre, upper));
        }
        r.append(digit_str(d, upper));
        k = k - 1;
    }
    proof {
        assert(digits@.take(0) =~= Seq::<u64>::empty());
        assert(r@ =~= rev_digit_chars(digits@, upper));
    }
    r
}

/// Renders a signed value in decimal, `-`-prefixed when negative.
pub fn render_signed_dec(n: i64) -> (r: String)
    ensures
        r@ == signed_dec_seq(n as int),
{
    if n >= 0 {
        render_radix(n as u64, 10, false)
    } else {
        let mut r = String::from_str("-");
        proof {
            reveal_strlit("-");
        }
        let mag: u64 = if n == i64::MIN {
            9223372036854775808u64
        } else {
            (-n) as u64
        };
        let digits = render_radix(mag, 10, false);
        r.append(digits.as_str());
        proof {
            assert(r@ =~= signed_dec_seq(n as int));
        }
        r
    }
}

/// The name under which an argument kind is reported.
pub open spec fn kind_name(k: ArgType) -> Seq<char> {
    match k {
        ArgType::Integer => "Integer"@,
        ArgType::UnsignedInteger => "UnsignedInteger"@,
        ArgType::UnsignedIntegerHex => "UnsignedIntegerHex"@,
        ArgType::FloatingPoint => "FloatingPoint"@,
        ArgType::Character => "Character"@,
        ArgType::String => "String"@,
        ArgType::Pointer => "Pointer"@,
        ArgType::WriteBytes => "WriteBytes"@,
        ArgType::Literal => "Literal"@,
        ArgType::Unknown => "Unknown"@,
    }
}

/// The diagnostic text rendered in place of a value for argument kinds the
/// decoder does not support: mismatches stay visible in the log instead of
/// being skipped silently.
pub open spec fn placeholder(k: ArgType) -> Seq<char> {
    "Unsupported argument type: "@ + kind_name(k)
}

/// Renders the diagnostic placeholder for an unsupported argument kind.
pub fn render_placeholder(k: ArgType) -> (r: String)
    ensures
        r@ == placeholder(k),
{
    let mut r = String::from_str("Unsupported argument type: ");
    match k {
        ArgType::Integer => r.append("Integer"),
        ArgType::UnsignedInteger => r.append("UnsignedInteger"),
        ArgType::UnsignedIntegerHex => r.append("UnsignedIntegerHex"),
        ArgType::FloatingPoint => r.append("FloatingPoint"),
        ArgType::Character => r.append("Character"),
        ArgType::String => r.append("String"),
        ArgType::Pointer => r.append("Pointer"),
        ArgType::WriteBytes => r.append("WriteBytes"),
        ArgType::Literal => r.append("Literal"),
        ArgType::Unknown => r.append("Unknown"),
    }
    r
}

} // verus!
