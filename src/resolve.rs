//! Turning a line of text into a byte buffer under an input mode.

use vstd::prelude::*;
use vstd::slice::{slice_subrange, slice_to_vec};
use vstd::string::StringSliceAdditionalSpecFns;

use crate::numeric::{be_value, le_value, pow256, unsigned_value};
use crate::transformer::{hex_lower, lower_digit_char};

verus! {

/// ASCII bytes that literals are made of.
pub const DIGIT_ZERO: u8 = 0x30;
pub const DIGIT_NINE: u8 = 0x39;
pub const LOWER_A: u8 = 0x61;
pub const LOWER_F: u8 = 0x66;
pub const UPPER_A: u8 = 0x41;
pub const UPPER_F: u8 = 0x46;
pub const MINUS: u8 = 0x2d;
pub const PLUS: u8 = 0x2b;
/// The letters after a leading `0` that mark a hexadecimal, octal or binary literal.
pub const TAG_HEX: u8 = 0x78;
pub const TAG_OCTAL: u8 = 0x6f;
pub const TAG_BINARY: u8 = 0x62;

/// How the text is read: as its own bytes, or as a prefixed literal.
#[derive(Clone, Copy, Debug, PartialEq, Eq, Structural)]
pub enum InputMode {
    Raw,
    Smart,
}

/// The other mode.
pub open spec fn toggled(m: InputMode) -> InputMode {
    match m {
        InputMode::Raw => InputMode::Smart,
        InputMode::Smart => InputMode::Raw,
    }
}

/// The display name of a mode.
pub open spec fn mode_name(m: InputMode) -> Seq<char> {
    match m {
        InputMode::Raw => seq!['R', 'a', 'w'],
        InputMode::Smart => seq!['S', 'm', 'a', 'r', 't'],
    }
}

impl InputMode {
    /// The mode's display name.
    pub fn name(&self) -> (r: &'static str)
        ensures
            r@ == mode_name(*self),
    {
        proof {
            reveal_strlit("Raw");
            reveal_strlit("Smart");
        }
        match self {
            InputMode::Raw => {
                let r = "Raw";
                assert(r@ =~= seq!['R', 'a', 'w']);
                r
            },
            InputMode::Smart => {
                let r = "Smart";
                assert(r@ =~= seq!['S', 'm', 'a', 'r', 't']);
                r
            },
        }
    }

    /// The other mode.
    pub fn toggle(&self) -> (r: InputMode)
        ensures
            r == toggled(*self),
    {
        match self {
            InputMode::Raw => InputMode::Smart,
            InputMode::Smart => InputMode::Raw,
        }
    }
}

/// The value of a hexadecimal digit byte of either case.
pub open spec fn hex_digit_value(c: u8) -> Option<nat> {
    if DIGIT_ZERO <= c <= DIGIT_NINE {
        Some((c - DIGIT_ZERO) as nat)
    } else if LOWER_A <= c <= LOWER_F {
        Some((c - LOWER_A + 10) as nat)
    } else if UPPER_A <= c <= UPPER_F {
        Some((c - UPPER_A + 10) as nat)
    } else {
        None
    }
}

/// The bytes that pairs of hexadecimal digits spell, high digit first; none
/// for an odd length or a byte that is no hexadecimal digit.
pub open spec fn hex_decode(s: Seq<u8>) -> Option<Seq<u8>> {
    if s.len() % 2 == 0 && forall|i: int| 0 <= i < s.len() ==> #[trigger] hex_digit_value(s[i]) is Some {
        Some(
            Seq::new(
                s.len() / 2,
                |i: int| (hex_digit_value(s[2 * i])->0 * 16 + hex_digit_value(s[2 * i + 1])->0) as u8,
            ),
        )
    } else {
        None
    }
}

/// Relies on `hex::decode`: an error for an odd length or a byte outside
/// `0-9a-fA-F`, else one byte per pair of digits, high digit first.
#[verifier::external_body]
fn decode_hex(s: &[u8]) -> (r: Option<Vec<u8>>)
    ensures
        match r {
            Some(v) => hex_decode(s@) == Some(v@),
            None => hex_decode(s@) is None,
        },
{
    hex::decode(s).ok()
}

/// The value of a digit byte in a radix of at most ten.
pub open spec fn radix_digit(c: u8, radix: nat) -> Option<nat> {
    if DIGIT_ZERO <= c && (c - DIGIT_ZERO) < radix {
        Some((c - DIGIT_ZERO) as nat)
    } else {
        None
    }
}

/// Every byte of `s` is a digit in `radix`.
pub open spec fn all_digits(s: Seq<u8>, radix: nat) -> bool {
    forall|i: int| 0 <= i < s.len() ==> #[trigger] radix_digit(s[i], radix) is Some
}

/// The value of the digits `s` in `radix`, most significant first.
pub open spec fn digits_value(s: Seq<u8>, radix: nat) -> nat
    decreases s.len(),
{
    if s.len() == 0 {
        0
    } else {
        digits_value(s.drop_last(), radix) * radix + radix_digit(s.last(), radix)->0
    }
}

/// The integer that `s` writes in `radix`: an optional `+` or `-`, then at
/// least one digit.
pub open spec fn literal_value(s: Seq<u8>, radix: nat) -> Option<int> {
    let signed = s.len() > 0 && (s[0] == MINUS || s[0] == PLUS);
    let digits = if signed {
        s.drop_first()
    } else {
        s
    };
    if digits.len() > 0 && all_digits(digits, radix) {
        if signed && s[0] == MINUS {
            Some(-digits_value(digits, radix))
        } else {
            Some(digits_value(digits, radix) as int)
        }
    } else {
        None
    }
}

/// The literal's value when it is one and fits a native signed word.
pub open spec fn parse_word(s: Seq<u8>, radix: nat) -> Option<int> {
    match literal_value(s, radix) {
        Some(v) => if isize::MIN <= v <= isize::MAX {
            Some(v)
        } else {
            None
        },
        None => None,
    }
}

proof fn lemma_digits_prefix(s: Seq<u8>, radix: nat, k: int)
    requires
        all_digits(s, radix),
        radix >= 1,
        0 <= k <= s.len(),
    ensures
        digits_value(s.subrange(0, k), radix) <= digits_value(s, radix),
    decreases s.len(),
{
    if k < s.len() {
        let t = s.drop_last();
        assert(t.subrange(0, k) =~= s.subrange(0, k));
        assert(all_digits(t, radix)) by {
            assert forall|i: int| 0 <= i < t.len() implies #[trigger] radix_digit(t[i], radix) is Some by {
                assert(t[i] == s[i]);
            }
        }
        lemma_digits_prefix(t, radix, k);
        let tv = digits_value(t, radix);
        assert(tv <= tv * radix) by (nonlinear_arith)
            requires
                radix >= 1,
        ;
    } else {
        assert(s.subrange(0, k) =~= s);
    }
}

/// Parses a signed literal in radix two or eight into a native signed word,
/// as `isize::from_str_radix` does.
pub fn parse_radix(s: &[u8], radix: u8) -> (r: Option<isize>)
    requires
        radix == 2 || radix == 8,
    ensures
        match r {
            Some(v) => parse_word(s@, radix as nat) == Some(v as int),
            None => parse_word(s@, radix as nat) is None,
        },
{
    let n = s.len();
    if n == 0 {
        return None;
    }
    let negative = s[0] == MINUS;
    let start: usize = if s[0] == MINUS || s[0] == PLUS { 1 } else { 0 };
    let ghost digits = s@.subrange(start as int, n as int);
    assert(digits =~= (if start == 1 { s@.drop_first() } else { s@ }));
    if start == n {
        return None;
    }
    let mut acc: isize = 0;
    let mut i: usize = start;
    while i < n
        invariant
            start <= i <= n,
            n == s@.len(),
            start == 0 || start == 1,
            radix == 2 || radix == 8,
            digits == s@.subrange(start as int, n as int),
            digits == (if start == 1 { s@.drop_first() } else { s@ }),
            n > 0,
            (start == 1) == (s@[0] == MINUS || s@[0] == PLUS),
            negative == (start == 1 && s@[0] == MINUS),
            all_digits(digits.subrange(0, i - start), radix as nat),
            acc as int == (if negative {
                -digits_value(digits.subrange(0, i - start), radix as nat)
            } else {
                digits_value(digits.subrange(0, i - start), radix as nat) as int
            }),
        decreases n - i,
    {
        let c = s[i];
        let ghost k = i - start;
        let ghost prev = digits.subrange(0, k);
        let ghost next = digits.subrange(0, k + 1);
        assert(next.drop_last() =~= prev);
        assert(digits[k] == c);
        if c < DIGIT_ZERO || c - DIGIT_ZERO >= radix {
            assert(!all_digits(digits, radix as nat)) by {
                assert(radix_digit(digits[k], radix as nat) is None);
            }
            return None;
        }
        assert(all_digits(next, radix as nat)) by {
            assert forall|j: int| 0 <= j < next.len() implies #[trigger] radix_digit(next[j], radix as nat) is Some by {
                if j < k {
                    assert(next[j] == prev[j]);
                }
            }
        }
        let d = (c - DIGIT_ZERO) as isize;
        let step = acc.checked_mul(radix as isize);
        let moved = match step {
            Some(m) => if negative {
                m.checked_sub(d)
            } else {
                m.checked_add(d)
            },
            None => None,
        };
        match moved {
            Some(m) => {
                acc = m;
            },
            None => {
                proof {
                    let pv = digits_value(prev, radix as nat);
                    let nv = digits_value(next, radix as nat);
                    assert(nv == pv * radix + (c - DIGIT_ZERO));
                    assert(pv * radix <= nv);
                    if all_digits(digits, radix as nat) {
                        lemma_digits_prefix(digits, radix as nat, k + 1);
                    }
                }
                return None;
            },
        }
        i = i + 1;
    }
    assert(digits.subrange(0, n - start) =~= digits);
    Some(acc)
}

/// `s` without its leading zero bytes.
pub open spec fn strip_zeros(s: Seq<u8>) -> Seq<u8>
    decreases s.len(),
{
    if s.len() > 0 && s[0] == 0 {
        strip_zeros(s.drop_first())
    } else {
        s
    }
}

/// `s` in reverse order.
pub open spec fn reversed(s: Seq<u8>) -> Seq<u8> {
    Seq::new(s.len(), |i: int| s[s.len() - 1 - i])
}

proof fn lemma_strip_push(s: Seq<u8>, x: u8)
    ensures
        strip_zeros(s.push(x)) == (if strip_zeros(s).len() == 0 && x == 0 {
            Seq::<u8>::empty()
        } else {
            strip_zeros(s).push(x)
        }),
    decreases s.len(),
{
    if s.len() > 0 && s[0] == 0 {
        assert(s.push(x).drop_first() =~= s.drop_first().push(x));
        lemma_strip_push(s.drop_first(), x);
    } else if s.len() == 0 {
        assert(s.push(x).drop_first() =~= Seq::<u8>::empty());
        if x == 0 {
            assert(strip_zeros(Seq::<u8>::empty()) == Seq::<u8>::empty());
        }
    }
}

/// The bytes of `bytes` from last to first, without the zero bytes that come
/// first in that order.
pub fn drop_leading_zeros(bytes: &[u8]) -> (r: Vec<u8>)
    ensures
        r@ == strip_zeros(reversed(bytes@)),
{
    let n = bytes.len();
    let mut leading = true;
    let mut out: Vec<u8> = Vec::new();
    let mut i: usize = n;
    while i > 0
        invariant
            i <= n,
            n == bytes@.len(),
            out@ == strip_zeros(reversed(bytes@).subrange(0, n - i)),
            leading == (out@.len() == 0),
        decreases i,
    {
        let byte = bytes[i - 1];
        proof {
            let rs = reversed(bytes@);
            assert(rs.subrange(0, n - i + 1) =~= rs.subrange(0, n - i).push(byte));
            lemma_strip_push(rs.subrange(0, n - i), byte);
        }
        if byte != 0 {
            leading = false;
        }
        if !leading {
            out.push(byte);
        }
        i = i - 1;
    }
    assert(reversed(bytes@).subrange(0, n as int) =~= reversed(bytes@));
    out
}

/// The `len` low bytes of the two's-complement form of `v`, least
/// significant first.
pub open spec fn le_bytes(v: int, len: nat) -> Seq<u8>
    decreases len,
{
    if len == 0 {
        Seq::empty()
    } else {
        seq![(v % 256) as u8] + le_bytes(v / 256, (len - 1) as nat)
    }
}

/// The number of bytes in a native signed word.
pub open spec fn word_size() -> nat {
    vstd::layout::size_of::<isize>() as nat
}

/// Relies on `isize::to_le_bytes`: the word's two's-complement bytes, least
/// significant first.
#[verifier::external_body]
fn le_word_bytes(v: isize) -> (r: Vec<u8>)
    ensures
        r@ == le_bytes(v as int, word_size()),
{
    v.to_le_bytes().to_vec()
}

/// Relies on `isize::to_ne_bytes`: the word's two's-complement bytes, in the
/// machine's byte order, which is little- or big-endian.
#[verifier::external_body]
fn native_bytes(v: isize) -> (r: Vec<u8>)
    ensures
        r@ == le_bytes(v as int, word_size()) || r@ == reversed(le_bytes(v as int, word_size())),
{
    v.to_ne_bytes().to_vec()
}

/// Whether this machine stores a word least significant byte first.
pub fn host_is_little_endian() -> bool {
    let probe = native_bytes(1);
    probe.len() > 0 && probe[0] == 1
}

/// `s` without the zero bytes at its end.
pub open spec fn strip_trailing_zeros(s: Seq<u8>) -> Seq<u8>
    decreases s.len(),
{
    if s.len() > 0 && s.last() == 0 {
        strip_trailing_zeros(s.drop_last())
    } else {
        s
    }
}

/// `bytes` without the zero bytes at its end.
pub fn trim_trailing_zeros(bytes: &[u8]) -> (r: Vec<u8>)
    ensures
        r@ == strip_trailing_zeros(bytes@),
{
    let mut i: usize = bytes.len();
    assert(bytes@.subrange(0, i as int) =~= bytes@);
    while i > 0 && bytes[i - 1] == 0
        invariant
            i <= bytes@.len(),
            strip_trailing_zeros(bytes@.subrange(0, i as int)) == strip_trailing_zeros(bytes@),
        decreases i,
    {
        assert(bytes@.subrange(0, i as int).drop_last() =~= bytes@.subrange(0, i - 1));
        i = i - 1;
    }
    slice_to_vec(slice_subrange(bytes, 0, i))
}

/// The bytes of the word `v` in the given byte order, without the zero bytes
/// at its most significant end.
pub open spec fn word_bytes(v: int, little: bool) -> Seq<u8> {
    let le = le_bytes(v, word_size());
    if little {
        strip_trailing_zeros(le)
    } else {
        strip_zeros(reversed(le))
    }
}

/// The bytes of `v` in the given byte order, most significant zero bytes
/// dropped.
pub fn word_to_bytes(v: isize, little: bool) -> (r: Vec<u8>)
    ensures
        r@ == word_bytes(v as int, little),
{
    let le = le_word_bytes(v);
    if little {
        trim_trailing_zeros(le.as_slice())
    } else {
        drop_leading_zeros(le.as_slice())
    }
}

/// `s` starts with `0` then `c`.
pub open spec fn has_prefix(s: Seq<u8>, c: u8) -> bool {
    s.len() >= 2 && s[0] == DIGIT_ZERO && s[1] == c
}

/// What the text with bytes `raw` resolves to under `mode`, on a machine
/// with the given byte order.
pub open spec fn resolution(raw: Seq<u8>, mode: InputMode, little: bool) -> Seq<u8> {
    let rest = raw.subrange(2, raw.len() as int);
    if raw.len() == 0 {
        Seq::<u8>::empty()
    } else if mode == InputMode::Raw {
        raw
    } else if has_prefix(raw, TAG_HEX) {
        match hex_decode(rest) {
            Some(v) => v,
            None => Seq::<u8>::empty(),
        }
    } else if has_prefix(raw, TAG_OCTAL) || has_prefix(raw, TAG_BINARY) {
        match parse_word(rest, if has_prefix(raw, TAG_OCTAL) { 8 } else { 2 }) {
            Some(v) => word_bytes(v, little),
            None => Seq::<u8>::empty(),
        }
    } else {
        raw
    }
}

/// The byte buffer that `raw` stands for under `mode`, with words laid out in
/// the given byte order.
pub fn resolve_in_order(raw: &str, mode: InputMode, little: bool) -> (r: Vec<u8>)
    ensures
        r@ == resolution(raw.spec_bytes(), mode, little),
{
    let bytes = raw.as_bytes();
    let n = bytes.len();
    if n == 0 {
        return Vec::new();
    }
    if mode == InputMode::Raw {
        return slice_to_vec(bytes);
    }
    if n >= 2 && bytes[0] == DIGIT_ZERO {
        let tag = bytes[1];
        let rest = slice_subrange(bytes, 2, n);
        if tag == TAG_HEX {
            return match decode_hex(rest) {
                Some(v) => v,
                None => Vec::new(),
            };
        } else if tag == TAG_OCTAL || tag == TAG_BINARY {
            let radix: u8 = if tag == TAG_OCTAL { 8 } else { 2 };
            return match parse_radix(rest, radix) {
                Some(v) => word_to_bytes(v, little),
                None => Vec::new(),
            };
        }
    }
    slice_to_vec(bytes)
}

/// The byte buffer that `raw` stands for under `mode`, with words laid out in
/// this machine's byte order.
pub fn resolve(raw: &str, mode: InputMode) -> (r: Vec<u8>)
    ensures
        r@ == resolution(raw.spec_bytes(), mode, true) || r@ == resolution(
            raw.spec_bytes(),
            mode,
            false,
        ),
        mode == InputMode::Raw ==> r@ == raw.spec_bytes(),
        raw@.len() == 0 ==> r@.len() == 0,
{
    resolve_in_order(raw, mode, host_is_little_endian())
}

/// The bytes of a sequence of ASCII characters.
pub open spec fn ascii_bytes(s: Seq<char>) -> Seq<u8> {
    Seq::new(s.len(), |i: int| s[i] as u8)
}

proof fn lemma_lower_digit_value(d: nat)
    requires
        d < 16,
    ensures
        hex_digit_value(lower_digit_char(d) as u8) == Some(d),
{
    if d == 0 {
    } else if d == 1 {
    } else if d == 2 {
    } else if d == 3 {
    } else if d == 4 {
    } else if d == 5 {
    } else if d == 6 {
    } else if d == 7 {
    } else if d == 8 {
    } else if d == 9 {
    } else if d == 10 {
    } else if d == 11 {
    } else if d == 12 {
    } else if d == 13 {
    } else if d == 14 {
    } else {
    }
}

/// Decoding the lower-case hexadecimal text of a buffer gives the buffer
/// back, and so does resolving that text behind `0x` in smart mode.
pub proof fn lemma_hex_round_trip(b: Seq<u8>, little: bool)
    ensures
        hex_decode(ascii_bytes(hex_lower(b))) == Some(b),
        resolution(seq![DIGIT_ZERO, TAG_HEX] + ascii_bytes(hex_lower(b)), InputMode::Smart, little)
            == b,
{
    let s = ascii_bytes(hex_lower(b));
    assert forall|i: int| 0 <= i < s.len() implies #[trigger] hex_digit_value(s[i]) is Some by {
        let q = i / 2;
        if i % 2 == 0 {
            lemma_lower_digit_value((b[q] / 16) as nat);
        } else {
            lemma_lower_digit_value((b[q] % 16) as nat);
        }
    }
    assert forall|i: int| 0 <= i < b.len() implies (hex_digit_value(#[trigger] s[2 * i])->0 * 16
        + hex_digit_value(s[2 * i + 1])->0) as u8 == b[i] by {
        assert((2 * i) / 2 == i && (2 * i) % 2 == 0);
        assert((2 * i + 1) / 2 == i && (2 * i + 1) % 2 == 1);
        lemma_lower_digit_value((b[i] / 16) as nat);
        lemma_lower_digit_value((b[i] % 16) as nat);
    }
    assert(hex_decode(s)->0 =~= b);
    let raw = seq![DIGIT_ZERO, TAG_HEX] + s;
    assert(raw.subrange(2, raw.len() as int) =~= s);
}

proof fn lemma_le_bytes_value(v: int, k: nat)
    requires
        0 <= v < pow256(k),
    ensures
        le_value(le_bytes(v, k)) == v,
    decreases k,
{
    if k > 0 {
        let p = pow256((k - 1) as nat);
        assert(v / 256 < p) by (nonlinear_arith)
            requires
                0 <= v < 256 * p,
        ;
        lemma_le_bytes_value(v / 256, (k - 1) as nat);
        let s = le_bytes(v, k);
        assert(s.drop_first() =~= le_bytes(v / 256, (k - 1) as nat));
    }
}

proof fn lemma_le_drop_zero_last(s: Seq<u8>)
    requires
        s.len() > 0,
        s.last() == 0,
    ensures
        le_value(s) == le_value(s.drop_last()),
    decreases s.len(),
{
    if s.len() == 1 {
        assert(s[0] == s.last());
        assert(le_value(s.drop_first()) == 0);
        assert(le_value(s.drop_last()) == 0);
    } else {
        assert(s.drop_first().last() == s.last());
        lemma_le_drop_zero_last(s.drop_first());
        assert(s.drop_last().drop_first() =~= s.drop_first().drop_last());
        assert(s.drop_last()[0] == s[0]);
    }
}

proof fn lemma_le_strip_trailing(s: Seq<u8>)
    ensures
        le_value(strip_trailing_zeros(s)) == le_value(s),
    decreases s.len(),
{
    if s.len() > 0 && s.last() == 0 {
        lemma_le_drop_zero_last(s);
        lemma_le_strip_trailing(s.drop_last());
    }
}

proof fn lemma_be_reversed(s: Seq<u8>)
    ensures
        be_value(reversed(s)) == le_value(s),
    decreases s.len(),
{
    if s.len() > 0 {
        assert(reversed(s).drop_last() =~= reversed(s.drop_first()));
        lemma_be_reversed(s.drop_first());
    }
}

proof fn lemma_be_drop_zero_first(s: Seq<u8>)
    requires
        s.len() > 0,
        s[0] == 0,
    ensures
        be_value(s) == be_value(s.drop_first()),
    decreases s.len(),
{
    if s.len() == 1 {
        assert(s[0] == s.last());
        assert(be_value(s.drop_last()) == 0);
        assert(be_value(s.drop_first()) == 0);
    } else {
        assert(s.drop_last()[0] == s[0]);
        lemma_be_drop_zero_first(s.drop_last());
        assert(s.drop_first().drop_last() =~= s.drop_last().drop_first());
        assert(s.drop_first().last() == s.last());
    }
}

proof fn lemma_be_strip_zeros(s: Seq<u8>)
    ensures
        be_value(strip_zeros(s)) == be_value(s),
    decreases s.len(),
{
    if s.len() > 0 && s[0] == 0 {
        lemma_be_drop_zero_first(s);
        lemma_be_strip_zeros(s.drop_first());
    }
}

proof fn lemma_pow256_is_pow(n: nat)
    ensures
        pow256(n) == vstd::arithmetic::power::pow(256, n),
    decreases n,
{
    reveal(vstd::arithmetic::power::pow);
    if n > 0 {
        lemma_pow256_is_pow((n - 1) as nat);
    }
}

/// A non-negative literal's bytes, read back in the byte order they were
/// laid out in, give its value: dropping the most significant zero bytes
/// loses nothing.
pub proof fn lemma_word_bytes_value(v: int, little: bool)
    requires
        0 <= v <= isize::MAX,
    ensures
        unsigned_value(word_bytes(v, little), little) == v,
{
    vstd::layout::signed_int_min_max_values();
    lemma_pow256_is_pow(word_size());
    let le = le_bytes(v, word_size());
    lemma_le_bytes_value(v, word_size());
    if little {
        lemma_le_strip_trailing(le);
    } else {
        lemma_be_strip_zeros(reversed(le));
        lemma_be_reversed(le);
    }
}

} // verus!
