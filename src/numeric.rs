//! Integer values of byte sequences, two's complement and decimal text.

use vstd::prelude::*;

verus! {

/// Unsigned value of `b` read least-significant byte first.
pub open spec fn le_value(b: Seq<u8>) -> nat
    decreases b.len(),
{
    if b.len() == 0 {
        0
    } else {
        b[0] as nat + 256 * le_value(b.drop_first())
    }
}

/// Unsigned value of `b` read most-significant byte first.
pub open spec fn be_value(b: Seq<u8>) -> nat
    decreases b.len(),
{
    if b.len() == 0 {
        0
    } else {
        be_value(b.drop_last()) * 256 + b.last() as nat
    }
}

/// Unsigned value of `b` in the given byte order.
pub open spec fn unsigned_value(b: Seq<u8>, little: bool) -> nat {
    if little {
        le_value(b)
    } else {
        be_value(b)
    }
}

/// `256` raised to `n`.
pub open spec fn pow256(n: nat) -> nat
    decreases n,
{
    if n == 0 {
        1
    } else {
        256 * pow256((n - 1) as nat)
    }
}

/// Two's-complement reading of the unsigned value `u` held in `width` bytes.
pub open spec fn twos_complement(u: nat, width: nat) -> int {
    if 2 * u < pow256(width) {
        u as int
    } else {
        u - pow256(width)
    }
}

/// The decimal digit character for `d`.
pub open spec fn digit_char(d: nat) -> char {
    if d == 0 {
        '0'
    } else if d == 1 {
        '1'
    } else if d == 2 {
        '2'
    } else if d == 3 {
        '3'
    } else if d == 4 {
        '4'
    } else if d == 5 {
        '5'
    } else if d == 6 {
        '6'
    } else if d == 7 {
        '7'
    } else if d == 8 {
        '8'
    } else {
        '9'
    }
}

/// Decimal text of `n`, without leading zeros.
pub open spec fn decimal_nat(n: nat) -> Seq<char>
    decreases n,
{
    if n < 10 {
        seq![digit_char(n)]
    } else {
        decimal_nat(n / 10).push(digit_char(n % 10))
    }
}

/// Decimal text of `v`, with a leading `-` when it is negative.
pub open spec fn decimal_int(v: int) -> Seq<char> {
    if v < 0 {
        seq!['-'] + decimal_nat((-v) as nat)
    } else {
        decimal_nat(v as nat)
    }
}

proof fn lemma_pow256_8()
    ensures
        pow256(8) == 0x1_0000_0000_0000_0000,
        pow256(4) == 0x1_0000_0000,
        pow256(2) == 0x1_0000,
{
    reveal_with_fuel(pow256, 9);
}

proof fn lemma_pow256_step(n: nat)
    ensures
        pow256(n + 1) == 256 * pow256(n),
        pow256(n) >= 1,
    decreases n,
{
    if n > 0 {
        lemma_pow256_step((n - 1) as nat);
    }
}

proof fn lemma_pow256_mono(a: nat, b: nat)
    requires
        a <= b,
    ensures
        pow256(a) <= pow256(b),
    decreases b - a,
{
    if a < b {
        lemma_pow256_mono(a, (b - 1) as nat);
        lemma_pow256_step((b - 1) as nat);
    }
}

proof fn lemma_next_bound(acc: nat, byte: nat, n: nat)
    requires
        acc < pow256(n),
        byte < 256,
    ensures
        acc * 256 + byte < pow256(n + 1),
{
    lemma_pow256_step(n);
    let p = pow256(n);
    assert(acc * 256 + byte < p * 256) by (nonlinear_arith)
        requires
            acc < p,
            byte < 256,
    ;
}

/// Unsigned value of at most eight bytes in the given byte order.
pub fn read_unsigned(b: &[u8], little: bool) -> (r: u64)
    requires
        b@.len() <= 8,
    ensures
        r as nat == unsigned_value(b@, little),
        (r as nat) < pow256(b@.len()),
{
    let n = b.len();
    let mut acc: u64 = 0;
    if little {
        let mut i: usize = n;
        while i > 0
            invariant
                i <= n,
                n == b@.len(),
                n <= 8,
                acc as nat == le_value(b@.subrange(i as int, n as int)),
                (acc as nat) < pow256((n - i) as nat),
            decreases i,
        {
            let ghost prev = b@.subrange(i as int, n as int);
            let ghost next = b@.subrange(i - 1, n as int);
            assert(next.drop_first() =~= prev);
            proof {
                lemma_next_bound(acc as nat, b@[i - 1] as nat, (n - i) as nat);
                lemma_pow256_mono((n - i + 1) as nat, 8);
                lemma_pow256_8();
            }
            acc = acc * 256 + b[i - 1] as u64;
            i = i - 1;
        }
        assert(b@.subrange(0, n as int) =~= b@);
    } else {
        let mut i: usize = 0;
        while i < n
            invariant
                i <= n,
                n == b@.len(),
                n <= 8,
                acc as nat == be_value(b@.subrange(0, i as int)),
                (acc as nat) < pow256(i as nat),
            decreases n - i,
        {
            let ghost prev = b@.subrange(0, i as int);
            let ghost next = b@.subrange(0, i + 1);
            assert(next.drop_last() =~= prev);
            proof {
                lemma_next_bound(acc as nat, b@[i as int] as nat, i as nat);
                lemma_pow256_mono((i + 1) as nat, 8);
                lemma_pow256_8();
            }
            acc = acc * 256 + b[i] as u64;
            i = i + 1;
        }
        assert(b@.subrange(0, n as int) =~= b@);
    }
    acc
}

/// The two's-complement value of `u` held in `width` bytes.
pub fn to_signed(u: u64, width: usize) -> (r: i64)
    requires
        width == 2 || width == 4 || width == 8,
        (u as nat) < pow256(width as nat),
    ensures
        r as int == twos_complement(u as nat, width as nat),
{
    proof {
        lemma_pow256_8();
    }
    if width == 8 {
        if u <= 0x7fff_ffff_ffff_ffff {
            u as i64
        } else {
            let low = (u - 0x8000_0000_0000_0000) as i64;
            low - 0x7fff_ffff_ffff_ffff - 1
        }
    } else {
        let full: i64 = if width == 4 { 0x1_0000_0000 } else { 0x1_0000 };
        if (u as i64) * 2 < full {
            u as i64
        } else {
            u as i64 - full
        }
    }
}

/// The single-character text of a digit below sixteen, upper case past nine.
pub fn upper_digit(d: u8) -> (r: &'static str)
    requires
        d < 16,
    ensures
        r@ == seq![upper_digit_char(d as nat)],
{
    proof {
        reveal_strlit("0");
        reveal_strlit("1");
        reveal_strlit("2");
        reveal_strlit("3");
        reveal_strlit("4");
        reveal_strlit("5");
        reveal_strlit("6");
        reveal_strlit("7");
        reveal_strlit("8");
        reveal_strlit("9");
        reveal_strlit("A");
        reveal_strlit("B");
        reveal_strlit("C");
        reveal_strlit("D");
        reveal_strlit("E");
        reveal_strlit("F");
    }
    match d {
        0 => "0",
        1 => "1",
        2 => "2",
        3 => "3",
        4 => "4",
        5 => "5",
        6 => "6",
        7 => "7",
        8 => "8",
        9 => "9",
        10 => "A",
        11 => "B",
        12 => "C",
        13 => "D",
        14 => "E",
        _ => "F",
    }
}

/// Upper-case hexadecimal digit character for `d`.
pub open spec fn upper_digit_char(d: nat) -> char {
    if d < 10 {
        digit_char(d)
    } else if d == 10 {
        'A'
    } else if d == 11 {
        'B'
    } else if d == 12 {
        'C'
    } else if d == 13 {
        'D'
    } else if d == 14 {
        'E'
    } else {
        'F'
    }
}

/// Appends the decimal text of `n` to `s`.
pub fn push_decimal(s: &mut String, n: u64)
    ensures
        final(s)@ == old(s)@ + decimal_nat(n as nat),
    decreases n,
{
    if n >= 10 {
        push_decimal(s, n / 10);
    }
    let d = (n % 10) as u8;
    s.append(upper_digit(d));
    assert(final(s)@ =~= old(s)@ + decimal_nat(n as nat));
}

/// Decimal text of an unsigned integer.
pub fn decimal_of_u64(n: u64) -> (r: String)
    ensures
        r@ == decimal_nat(n as nat),
{
    let mut s = String::new();
    push_decimal(&mut s, n);
    assert(s@ =~= decimal_nat(n as nat));
    s
}

/// Decimal text of a signed integer.
pub fn decimal_of_i64(v: i64) -> (r: String)
    ensures
        r@ == decimal_int(v as int),
{
    let mut s = String::new();
    if v < 0 {
        proof {
            reveal_strlit("-");
        }
        s.append("-");
        let magnitude: u64 = if v == i64::MIN {
            0x8000_0000_0000_0000
        } else {
            (-v) as u64
        };
        push_decimal(&mut s, magnitude);
        assert(s@ =~= decimal_int(v as int));
    } else {
        push_decimal(&mut s, v as u64);
        assert(s@ =~= decimal_int(v as int));
    }
    s
}

} // verus!
