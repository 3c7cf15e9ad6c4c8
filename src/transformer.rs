//! Stateless byte-to-text transformers, one per panel.

use vstd::prelude::*;

use crate::numeric::{
    decimal_int, decimal_nat, decimal_of_i64, decimal_of_u64, digit_char, read_unsigned,
    to_signed, twos_complement, unsigned_value, upper_digit, upper_digit_char,
};

verus! {

/// The text a transformer shows when it has nothing to render.
pub const NONE_PLACEHOLDER: &'static str = "<none>";

/// The characters of the placeholder.
pub open spec fn placeholder() -> Seq<char> {
    seq!['<', 'n', 'o', 'n', 'e', '>']
}

/// A fresh copy of the placeholder text.
pub fn placeholder_text() -> (r: String)
    ensures
        r@ == placeholder(),
{
    proof {
        reveal_strlit("<none>");
    }
    let r = String::from_str(NONE_PLACEHOLDER);
    assert(r@ =~= placeholder());
    r
}

/// The longest buffer a transformer takes: its text, up to four characters
/// per byte, must fit in memory that Rust can allocate.
pub open spec fn max_input_len() -> int {
    isize::MAX / 4
}

/// A stateless conversion from a byte buffer to display text, with a label.
pub trait Transformer {
    /// The label of this transformer.
    spec fn spec_label(&self) -> Seq<char>;

    /// The text this transformer renders for `input`.
    spec fn spec_transform(&self, input: Seq<u8>) -> Seq<char>;

    fn label(&self) -> (r: &'static str)
        ensures
            r@ == self.spec_label(),
    ;

    fn transform(&self, input: &[u8]) -> (r: String)
        requires
            input@.len() <= max_input_len(),
        ensures
            r@ == self.spec_transform(input@),
    ;
}

/// Lower-case hexadecimal digit character for `d`.
pub open spec fn lower_digit_char(d: nat) -> char {
    if d < 10 {
        digit_char(d)
    } else if d == 10 {
        'a'
    } else if d == 11 {
        'b'
    } else if d == 12 {
        'c'
    } else if d == 13 {
        'd'
    } else if d == 14 {
        'e'
    } else {
        'f'
    }
}

/// Two lower-case hexadecimal digits per byte, high nibble first.
pub open spec fn hex_lower(b: Seq<u8>) -> Seq<char> {
    Seq::new(
        2 * b.len(),
        |i: int|
            if i % 2 == 0 {
                lower_digit_char((b[i / 2] / 16) as nat)
            } else {
                lower_digit_char((b[i / 2] % 16) as nat)
            },
    )
}

/// `\xHH` with upper-case digits for each byte, concatenated.
pub open spec fn c_escapes(b: Seq<u8>) -> Seq<char> {
    Seq::new(
        4 * b.len(),
        |i: int|
            if i % 4 == 0 {
                '\\'
            } else if i % 4 == 1 {
                'x'
            } else if i % 4 == 2 {
                upper_digit_char((b[i / 4] / 16) as nat)
            } else {
                upper_digit_char((b[i / 4] % 16) as nat)
            },
    )
}

/// `2` raised to `n`.
pub open spec fn pow2(n: nat) -> nat
    decreases n,
{
    if n == 0 {
        1
    } else {
        2 * pow2((n - 1) as nat)
    }
}

/// Byte `k` of `b`, or zero past its end.
pub open spec fn byte_or_zero(b: Seq<u8>, k: int) -> nat {
    if 0 <= k < b.len() {
        b[k] as nat
    } else {
        0
    }
}

/// The `width` bits (at most eight) that start at bit `p` of the bit stream of
/// `b`, each byte's most significant bit first, with zero bits past the end.
pub open spec fn bits_at(b: Seq<u8>, p: int, width: nat) -> nat {
    let window = byte_or_zero(b, p / 8) * 256 + byte_or_zero(b, p / 8 + 1);
    (window / pow2((16 - p % 8 - width) as nat)) % pow2(width)
}

/// The standard base64 alphabet.
pub open spec fn base64_alphabet() -> Seq<char> {
    seq![
        'A', 'B', 'C', 'D', 'E', 'F', 'G', 'H', 'I', 'J', 'K', 'L', 'M', 'N', 'O', 'P', 'Q', 'R', 'S', 'T', 'U', 'V', 'W', 'X', 'Y', 'Z', 'a', 'b', 'c', 'd', 'e', 'f', 'g', 'h', 'i', 'j', 'k', 'l', 'm', 'n', 'o', 'p', 'q', 'r', 's', 't', 'u', 'v', 'w', 'x', 'y', 'z', '0', '1', '2', '3', '4', '5', '6', '7', '8', '9', '+', '/',
    ]
}

/// The RFC 4648 base32 alphabet.
pub open spec fn base32_alphabet() -> Seq<char> {
    seq![
        'A', 'B', 'C', 'D', 'E', 'F', 'G', 'H', 'I', 'J', 'K', 'L', 'M', 'N', 'O', 'P', 'Q', 'R', 'S', 'T', 'U', 'V', 'W', 'X', 'Y', 'Z', '2', '3', '4', '5', '6', '7',
    ]
}

/// Base64 without padding: one letter for each six bits, the last group
/// filled with zero bits.
pub open spec fn base64_text(b: Seq<u8>) -> Seq<char> {
    Seq::new((8 * b.len() + 5) / 6, |i: int| base64_alphabet()[bits_at(b, 6 * i, 6) as int])
}

/// Base32 without padding: one letter for each five bits, the last group
/// filled with zero bits.
pub open spec fn base32_text(b: Seq<u8>) -> Seq<char> {
    Seq::new((8 * b.len() + 4) / 5, |i: int| base32_alphabet()[bits_at(b, 5 * i, 5) as int])
}

/// Relies on `base64::encode_config` with `STANDARD_NO_PAD`: one letter of the
/// standard alphabet per six bits, most significant first, the last group
/// filled with zero bits, no `=`. It panics when its output buffer cannot be
/// allocated.
#[verifier::external_body]
fn encode_base64(b: &[u8]) -> (r: String)
    requires
        b@.len() <= max_input_len(),
    ensures
        r@ == base64_text(b@),
{
    base64::encode_config(b, base64::STANDARD_NO_PAD)
}

/// Relies on `base32::encode` with the RFC 4648 alphabet and no padding: one
/// letter per five bits, most significant first, the last group filled with
/// zero bits, no `=`. It panics when its output buffer cannot be allocated.
#[verifier::external_body]
fn encode_base32(b: &[u8]) -> (r: String)
    requires
        b@.len() <= max_input_len(),
    ensures
        r@ == base32_text(b@),
{
    base32::encode(base32::Alphabet::RFC4648 { padding: false }, b)
}

/// Relies on `hex::encode`: two lower-case digits per byte, high nibble first.
/// The output buffer must be allocatable.
#[verifier::external_body]
fn encode_hex(b: &[u8]) -> (r: String)
    requires
        b@.len() <= max_input_len(),
    ensures
        r@ == hex_lower(b@),
{
    hex::encode(b)
}

/// `text` unless `input` is empty, in which case the placeholder.
pub open spec fn or_placeholder(input: Seq<u8>, text: Seq<char>) -> Seq<char> {
    if input.len() == 0 {
        placeholder()
    } else {
        text
    }
}

/// Replaces an empty rendering by the placeholder.
fn nonempty_or_placeholder(s: String) -> (r: String)
    ensures
        r@ == (if s@.len() == 0 {
            placeholder()
        } else {
            s@
        }),
{
    if s.as_str().is_empty() {
        placeholder_text()
    } else {
        s
    }
}

/// The `\xHH` escapes of `input`, or the placeholder when it is empty.
pub fn render_c_escapes(input: &[u8]) -> (r: String)
    ensures
        r@ == or_placeholder(input@, c_escapes(input@)),
{
    let mut s = String::new();
    let n = input.len();
    let mut i: usize = 0;
    while i < n
        invariant
            i <= n,
            n == input@.len(),
            s@ == c_escapes(input@.subrange(0, i as int)),
        decreases n - i,
    {
        let byte = input[i];
        let ghost before = s@;
        proof {
            reveal_strlit("\\x");
        }
        s.append("\\x");
        s.append(upper_digit(byte / 16));
        s.append(upper_digit(byte % 16));
        proof {
            let next = input@.subrange(0, i + 1);
            let prev = input@.subrange(0, i as int);
            let k = i as int;
            assert(s@ =~= before + seq!['\\', 'x'] + seq![upper_digit_char((byte / 16) as nat)]
                + seq![upper_digit_char((byte % 16) as nat)]);
            assert forall|j: int| 0 <= j < 4 * k + 4 implies #[trigger] c_escapes(next)[j] == s@[j] by {
                if j < 4 * k {
                    assert(j / 4 < k && j / 4 >= 0) by (nonlinear_arith)
                        requires
                            0 <= j < 4 * k,
                    ;
                    assert(next[j / 4] == prev[j / 4]);
                } else {
                    assert(j / 4 == k && j % 4 == j - 4 * k) by (nonlinear_arith)
                        requires
                            4 * k <= j < 4 * k + 4,
                    ;
                }
            }
            assert(s@ =~= c_escapes(next));
        }
        i = i + 1;
    }
    assert(input@.subrange(0, n as int) =~= input@);
    nonempty_or_placeholder(s)
}

/// The decimal text of the integer held in exactly `width` bytes, or the
/// placeholder when the length differs.
pub open spec fn fixed_text(b: Seq<u8>, width: nat, little: bool, signed: bool) -> Seq<char> {
    if b.len() != width {
        placeholder()
    } else if signed {
        decimal_int(twos_complement(unsigned_value(b, little), width))
    } else {
        decimal_nat(unsigned_value(b, little))
    }
}

/// Decimal text of the integer held in exactly `width` bytes of `input`.
pub fn render_fixed(input: &[u8], width: usize, little: bool, signed: bool) -> (r: String)
    requires
        width == 2 || width == 4 || width == 8,
    ensures
        r@ == fixed_text(input@, width as nat, little, signed),
{
    if input.len() != width {
        return placeholder_text();
    }
    let u = read_unsigned(input, little);
    if signed {
        decimal_of_i64(to_signed(u, width))
    } else {
        decimal_of_u64(u)
    }
}

/// Standard base64 without padding.
pub struct Base64;

impl Transformer for Base64 {
    open spec fn spec_label(&self) -> Seq<char> {
        seq!['b', 'a', 's', 'e', '6', '4']
    }

    open spec fn spec_transform(&self, input: Seq<u8>) -> Seq<char> {
        or_placeholder(input, base64_text(input))
    }

    fn label(&self) -> (r: &'static str) {
        proof {
            reveal_strlit("base64");
        }
        let r = "base64";
        assert(r@ =~= self.spec_label());
        r
    }

    fn transform(&self, input: &[u8]) -> (r: String) {
        nonempty_or_placeholder(encode_base64(input))
    }
}

/// RFC 4648 base32 without padding.
pub struct Base32;

impl Transformer for Base32 {
    open spec fn spec_label(&self) -> Seq<char> {
        seq!['b', 'a', 's', 'e', '3', '2']
    }

    open spec fn spec_transform(&self, input: Seq<u8>) -> Seq<char> {
        or_placeholder(input, base32_text(input))
    }

    fn label(&self) -> (r: &'static str) {
        proof {
            reveal_strlit("base32");
        }
        let r = "base32";
        assert(r@ =~= self.spec_label());
        r
    }

    fn transform(&self, input: &[u8]) -> (r: String) {
        nonempty_or_placeholder(encode_base32(input))
    }
}

/// Lower-case hexadecimal digit pairs.
pub struct Hex;

impl Transformer for Hex {
    open spec fn spec_label(&self) -> Seq<char> {
        seq!['h', 'e', 'x']
    }

    open spec fn spec_transform(&self, input: Seq<u8>) -> Seq<char> {
        or_placeholder(input, hex_lower(input))
    }

    fn label(&self) -> (r: &'static str) {
        proof {
            reveal_strlit("hex");
        }
        let r = "hex";
        assert(r@ =~= self.spec_label());
        r
    }

    fn transform(&self, input: &[u8]) -> (r: String) {
        nonempty_or_placeholder(encode_hex(input))
    }
}

/// C-style `\xHH` escapes.
pub struct CHex;

impl Transformer for CHex {
    open spec fn spec_label(&self) -> Seq<char> {
        seq!['c', 'h', 'e', 'x']
    }

    open spec fn spec_transform(&self, input: Seq<u8>) -> Seq<char> {
        or_placeholder(input, c_escapes(input))
    }

    fn label(&self) -> (r: &'static str) {
        proof {
            reveal_strlit("chex");
        }
        let r = "chex";
        assert(r@ =~= self.spec_label());
        r
    }

    fn transform(&self, input: &[u8]) -> (r: String) {
        render_c_escapes(input)
    }
}

/// Little-endian unsigned 16-bit integer, in decimal.
pub struct LittleEndianU16;

impl Transformer for LittleEndianU16 {
    open spec fn spec_label(&self) -> Seq<char> {
        seq!['l', 'e', 'u', '1', '6']
    }

    open spec fn spec_transform(&self, input: Seq<u8>) -> Seq<char> {
        fixed_text(input, 2, true, false)
    }

    fn label(&self) -> (r: &'static str) {
        proof {
            reveal_strlit("leu16");
        }
        let r = "leu16";
        assert(r@ =~= self.spec_label());
        r
    }

    fn transform(&self, input: &[u8]) -> (r: String) {
        render_fixed(input, 2, true, false)
    }
}

/// Big-endian unsigned 16-bit integer, in decimal.
pub struct BigEndianU16;

impl Transformer for BigEndianU16 {
    open spec fn spec_label(&self) -> Seq<char> {
        seq!['b', 'e', 'u', '1', '6']
    }

    open spec fn spec_transform(&self, input: Seq<u8>) -> Seq<char> {
        fixed_text(input, 2, false, false)
    }

    fn label(&self) -> (r: &'static str) {
        proof {
            reveal_strlit("beu16");
        }
        let r = "beu16";
        assert(r@ =~= self.spec_label());
        r
    }

    fn transform(&self, input: &[u8]) -> (r: String) {
        render_fixed(input, 2, false, false)
    }
}

/// Little-endian unsigned 32-bit integer, in decimal.
pub struct LittleEndianU32;

impl Transformer for LittleEndianU32 {
    open spec fn spec_label(&self) -> Seq<char> {
        seq!['l', 'e', 'u', '3', '2']
    }

    open spec fn spec_transform(&self, input: Seq<u8>) -> Seq<char> {
        fixed_text(input, 4, true, false)
    }

    fn label(&self) -> (r: &'static str) {
        proof {
            reveal_strlit("leu32");
        }
        let r = "leu32";
        assert(r@ =~= self.spec_label());
        r
    }

    fn transform(&self, input: &[u8]) -> (r: String) {
        render_fixed(input, 4, true, false)
    }
}

/// Big-endian unsigned 32-bit integer, in decimal.
pub struct BigEndianU32;

impl Transformer for BigEndianU32 {
    open spec fn spec_label(&self) -> Seq<char> {
        seq!['b', 'e', 'u', '3', '2']
    }

    open spec fn spec_transform(&self, input: Seq<u8>) -> Seq<char> {
        fixed_text(input, 4, false, false)
    }

    fn label(&self) -> (r: &'static str) {
        proof {
            reveal_strlit("beu32");
        }
        let r = "beu32";
        assert(r@ =~= self.spec_label());
        r
    }

    fn transform(&self, input: &[u8]) -> (r: String) {
        render_fixed(input, 4, false, false)
    }
}

/// Little-endian unsigned 64-bit integer, in decimal.
pub struct LittleEndianU64;

impl Transformer for LittleEndianU64 {
    open spec fn spec_label(&self) -> Seq<char> {
        seq!['l', 'e', 'u', '6', '4']
    }

    open spec fn spec_transform(&self, input: Seq<u8>) -> Seq<char> {
        fixed_text(input, 8, true, false)
    }

    fn label(&self) -> (r: &'static str) {
        proof {
            reveal_strlit("leu64");
        }
        let r = "leu64";
        assert(r@ =~= self.spec_label());
        r
    }

    fn transform(&self, input: &[u8]) -> (r: String) {
        render_fixed(input, 8, true, false)
    }
}

/// Big-endian unsigned 64-bit integer, in decimal.
pub struct BigEndianU64;

impl Transformer for BigEndianU64 {
    open spec fn spec_label(&self) -> Seq<char> {
        seq!['b', 'e', 'u', '6', '4']
    }

    open spec fn spec_transform(&self, input: Seq<u8>) -> Seq<char> {
        fixed_text(input, 8, false, false)
    }

    fn label(&self) -> (r: &'static str) {
        proof {
            reveal_strlit("beu64");
        }
        let r = "beu64";
        assert(r@ =~= self.spec_label());
        r
    }

    fn transform(&self, input: &[u8]) -> (r: String) {
        render_fixed(input, 8, false, false)
    }
}

/// Little-endian signed 16-bit integer, in decimal.
pub struct LittleEndianI16;

impl Transformer for LittleEndianI16 {
    open spec fn spec_label(&self) -> Seq<char> {
        seq!['l', 'e', 'i', '1', '6']
    }

    open spec fn spec_transform(&self, input: Seq<u8>) -> Seq<char> {
        fixed_text(input, 2, true, true)
    }

    fn label(&self) -> (r: &'static str) {
        proof {
            reveal_strlit("lei16");
        }
        let r = "lei16";
        assert(r@ =~= self.spec_label());
        r
    }

    fn transform(&self, input: &[u8]) -> (r: String) {
        render_fixed(input, 2, true, true)
    }
}

/// Big-endian signed 16-bit integer, in decimal.
pub struct BigEndianI16;

impl Transformer for BigEndianI16 {
    open spec fn spec_label(&self) -> Seq<char> {
        seq!['b', 'e', 'i', '1', '6']
    }

    open spec fn spec_transform(&self, input: Seq<u8>) -> Seq<char> {
        fixed_text(input, 2, false, true)
    }

    fn label(&self) -> (r: &'static str) {
        proof {
            reveal_strlit("bei16");
        }
        let r = "bei16";
        assert(r@ =~= self.spec_label());
        r
    }

    fn transform(&self, input: &[u8]) -> (r: String) {
        render_fixed(input, 2, false, true)
    }
}

/// Little-endian signed 32-bit integer, in decimal.
pub struct LittleEndianI32;

impl Transformer for LittleEndianI32 {
    open spec fn spec_label(&self) -> Seq<char> {
        seq!['l', 'e', 'i', '3', '2']
    }

    open spec fn spec_transform(&self, input: Seq<u8>) -> Seq<char> {
        fixed_text(input, 4, true, true)
    }

    fn label(&self) -> (r: &'static str) {
        proof {
            reveal_strlit("lei32");
        }
        let r = "lei32";
        assert(r@ =~= self.spec_label());
        r
    }

    fn transform(&self, input: &[u8]) -> (r: String) {
        render_fixed(input, 4, true, true)
    }
}

/// Big-endian signed 32-bit integer, in decimal.
pub struct BigEndianI32;

impl Transformer for BigEndianI32 {
    open spec fn spec_label(&self) -> Seq<char> {
        seq!['b', 'e', 'i', '3', '2']
    }

    open spec fn spec_transform(&self, input: Seq<u8>) -> Seq<char> {
        fixed_text(input, 4, false, true)
    }

    fn label(&self) -> (r: &'static str) {
        proof {
            reveal_strlit("bei32");
        }
        let r = "bei32";
        assert(r@ =~= self.spec_label());
        r
    }

    fn transform(&self, input: &[u8]) -> (r: String) {
        render_fixed(input, 4, false, true)
    }
}

/// Little-endian signed 64-bit integer, in decimal.
pub struct LittleEndianI64;

impl Transformer for LittleEndianI64 {
    open spec fn spec_label(&self) -> Seq<char> {
        seq!['l', 'e', 'i', '6', '4']
    }

    open spec fn spec_transform(&self, input: Seq<u8>) -> Seq<char> {
        fixed_text(input, 8, true, true)
    }

    fn label(&self) -> (r: &'static str) {
        proof {
            reveal_strlit("lei64");
        }
        let r = "lei64";
        assert(r@ =~= self.spec_label());
        r
    }

    fn transform(&self, input: &[u8]) -> (r: String) {
        render_fixed(input, 8, true, true)
    }
}

/// Big-endian signed 64-bit integer, in decimal.
pub struct BigEndianI64;

impl Transformer for BigEndianI64 {
    open spec fn spec_label(&self) -> Seq<char> {
        seq!['b', 'e', 'i', '6', '4']
    }

    open spec fn spec_transform(&self, input: Seq<u8>) -> Seq<char> {
        fixed_text(input, 8, false, true)
    }

    fn label(&self) -> (r: &'static str) {
        proof {
            reveal_strlit("bei64");
        }
        let r = "bei64";
        assert(r@ =~= self.spec_label());
        r
    }

    fn transform(&self, input: &[u8]) -> (r: String) {
        render_fixed(input, 8, false, true)
    }
}

} // verus!
