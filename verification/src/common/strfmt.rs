//! Verified decimal and hexadecimal rendering of integers, used by the
//! human-readable `to_string` methods of the runtime's types.

use vstd::prelude::*;
use vstd::string::*;

verus! {

/// The character for one digit value in `0..16`, lower case.
pub open spec fn spec_digit(d: nat) -> char {
    if d == 0 {
        '0'
    } else if d == 1 {
        '1'
    } else if d == 2 {
        '2'
    } else if d == 3 {
        '3'
    } else if d == 4 {
        '4'
    } else if d == 5 {
        '5'
    } else if d == 6 {
        '6'
    } else if d == 7 {
        '7'
    } else if d == 8 {
        '8'
    } else if d == 9 {
        '9'
    } else if d == 10 {
        'a'
    } else if d == 11 {
        'b'
    } else if d == 12 {
        'c'
    } else if d == 13 {
        'd'
    } else if d == 14 {
        'e'
    } else {
        'f'
    }
}

/// The usual decimal rendering of n, without leading zeroes.
pub open spec fn spec_udec(n: nat) -> Seq<char>
    decreases n,
{
    if n < 10 {
        seq![spec_digit(n)]
    } else {
        spec_udec(n / 10) + seq![spec_digit(n % 10)]
    }
}

/// Zero-padded decimal rendering: at least `width` characters.
pub open spec fn spec_udec_pad(n: nat, width: nat) -> Seq<char> {
    if spec_udec(n).len() >= width {
        spec_udec(n)
    } else {
        Seq::new((width - spec_udec(n).len()) as nat, |i: int| '0') + spec_udec(n)
    }
}

/// Two lower-case hex characters for one byte.
pub open spec fn spec_hex2(b: u8) -> Seq<char> {
    seq![spec_digit((b / 16) as nat), spec_digit((b % 16) as nat)]
}

/// One digit value in `0..16` as a string slice of one character.
pub fn digit_str(d: u64) -> (r: &'static str)
    requires
        d < 16,
    ensures
        r@ == seq![spec_digit(d as nat)],
{
    proof {
        reveal_strlit("0");
        reveal_strlit("1");
        reveal_strlit("2");
        reveal_strlit("3");
        reveal_strlit("4");
        reveal_strlit("5");
        reveal_strlit("6");
        reveal_strlit("7");
        reveal_strlit("8");
        reveal_strlit("9");
        reveal_strlit("a");
        reveal_strlit("b");
        reveal_strlit("c");
        reveal_strlit("d");
        reveal_strlit("e");
        reveal_strlit("f");
    }
    if d == 0 {
        "0"
    } else if d == 1 {
        "1"
    } else if d == 2 {
        "2"
    } else if d == 3 {
        "3"
    } else if d == 4 {
        "4"
    } else if d == 5 {
        "5"
    } else if d == 6 {
        "6"
    } else if d == 7 {
        "7"
    } else if d == 8 {
        "8"
    } else if d == 9 {
        "9"
    } else if d == 10 {
        "a"
    } else if d == 11 {
        "b"
    } else if d == 12 {
        "c"
    } else if d == 13 {
        "d"
    } else if d == 14 {
        "e"
    } else {
        "f"
    }
}

/// Decimal rendering of an unsigned 64-bit value.
pub fn u64_to_dec(n: u64) -> (r: String)
    ensures
        r@ == spec_udec(n as nat),
    decreases n,
{
    if n < 10 {
        digit_str(n).to_owned()
    } else {
        let mut s = u64_to_dec(n / 10);
        s.append(digit_str(n % 10));
        s
    }
}

/// Decimal rendering of a signed 64-bit value.
pub fn i64_to_dec(n: i64) -> (r: String)
    ensures
        n >= 0 ==> r@ == spec_udec(n as nat),
        n < 0 ==> r@ == seq!['-'] + spec_udec((-(n as int)) as nat),
{
    proof {
        reveal_strlit("-");
    }
    if n >= 0 {
        u64_to_dec(n as u64)
    } else {
        let m: u64 = if n == i64::MIN {
            9223372036854775808u64
        } else {
            (-n) as u64
        };
        let mut s = "-".to_owned();
        s.append(u64_to_dec(m).as_str());
        s
    }
}

/// Number of characters in the decimal rendering of n.
pub fn dec_width(n: u64) -> (r: usize)
    ensures
        r == spec_udec(n as nat).len(),
        r >= 1,
{
    proof {
        lemma_udec_len_bound(n as nat);
    }
    let mut m: u64 = n;
    let mut k: usize = 1;
    while m >= 10
        invariant
            k >= 1,
            k + spec_udec(m as nat).len() == 1 + spec_udec(n as nat).len(),
            spec_udec(n as nat).len() <= 20,
            spec_udec(m as nat).len() >= 1,
        decreases m,
    {
        m = m / 10;
        k = k + 1;
        proof {
            lemma_udec_len_bound(m as nat);
        }
    }
    k
}

/// The decimal rendering of a u64 never exceeds 20 characters.
pub proof fn lemma_udec_len_bound(n: nat)
    ensures
        spec_udec(n).len() >= 1,
        n <= u64::MAX ==> spec_udec(n).len() <= 20,
    decreases n,
{
    if n >= 10 {
        lemma_udec_len_bound(n / 10);
        if n <= u64::MAX {
            assert(spec_udec(n / 10).len() <= 19) by {
                reveal_with_fuel(pow10, 20);
                assert(pow10(19) == 10000000000000000000);
                lemma_udec_small(n / 10, 19);
            }
        }
    }
}

/// A value below 10^k renders in at most k characters (k >= 1).
pub proof fn lemma_udec_small(n: nat, k: nat)
    requires
        k >= 1,
        n < pow10(k),
    ensures
        spec_udec(n).len() <= k,
    decreases k,
{
    if n < 10 {
    } else if k == 1 {
        assert(pow10(1) == 10) by {
            reveal_with_fuel(pow10, 2);
        }
    } else {
        assert(n / 10 < pow10((k - 1) as nat)) by (nonlinear_arith)
            requires
                n < pow10(k),
                pow10(k) == 10 * pow10((k - 1) as nat),
        ;
        lemma_udec_small(n / 10, (k - 1) as nat);
    }
}

/// Ten to the k-th power.
pub open spec fn pow10(k: nat) -> nat
    decreases k,
{
    if k == 0 {
        1
    } else {
        10 * pow10((k - 1) as nat)
    }
}

/// Zero-padded decimal rendering, at least `width` characters.
pub fn u64_to_dec_pad(n: u64, width: usize) -> (r: String)
    ensures
        r@ == spec_udec_pad(n as nat, width as nat),
{
    proof {
        reveal_strlit("0");
    }
    let w = dec_width(n);
    let mut s = String::new();
    if w < width {
        let mut i: usize = 0;
        let pad: usize = width - w;
        while i < pad
            invariant
                i <= pad,
                s@ =~= Seq::new(i as nat, |j: int| '0'),
            decreases pad - i,
        {
            s.append("0");
            proof {
                reveal_strlit("0");
                assert("0"@ =~= seq!['0']);
                assert(s@ =~= Seq::new((i + 1) as nat, |j: int| '0'));
            }
            i = i + 1;
        }
    }
    s.append(u64_to_dec(n).as_str());
    proof {
        assert(s@ =~= spec_udec_pad(n as nat, width as nat));
    }
    s
}

/// Two lower-case hex characters for one byte.
pub fn u8_to_hex2(b: u8) -> (r: String)
    ensures
        r@ == spec_hex2(b),
{
    let mut s = digit_str((b / 16) as u64).to_owned();
    s.append(digit_str((b % 16) as u64));
    s
}

} // verus!
