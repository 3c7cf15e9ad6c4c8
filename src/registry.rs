//! The fixed, ordered set of transformers and the registry that holds them.

use vstd::prelude::*;

use crate::transformer::{
    max_input_len, placeholder, Base32, Base64, BigEndianI16, BigEndianI32, BigEndianI64,
    BigEndianU16, BigEndianU32, BigEndianU64, CHex, Hex, LittleEndianI16, LittleEndianI32,
    LittleEndianI64, LittleEndianU16, LittleEndianU32, LittleEndianU64, Transformer,
};

verus! {

/// One tag per transformer; the set is closed.
#[derive(Clone, Copy, Debug, PartialEq, Eq, Structural)]
pub enum TransformerKind {
    Base64,
    Base32,
    Hex,
    CHex,
    LittleEndianU16,
    BigEndianU16,
    LittleEndianU32,
    BigEndianU32,
    LittleEndianU64,
    BigEndianU64,
    LittleEndianI16,
    BigEndianI16,
    LittleEndianI32,
    BigEndianI32,
    LittleEndianI64,
    BigEndianI64,
}

impl Transformer for TransformerKind {
    open spec fn spec_label(&self) -> Seq<char> {
        match self {
            TransformerKind::Base64 => Base64.spec_label(),
            TransformerKind::Base32 => Base32.spec_label(),
            TransformerKind::Hex => Hex.spec_label(),
            TransformerKind::CHex => CHex.spec_label(),
            TransformerKind::LittleEndianU16 => LittleEndianU16.spec_label(),
            TransformerKind::BigEndianU16 => BigEndianU16.spec_label(),
            TransformerKind::LittleEndianU32 => LittleEndianU32.spec_label(),
            TransformerKind::BigEndianU32 => BigEndianU32.spec_label(),
            TransformerKind::LittleEndianU64 => LittleEndianU64.spec_label(),
            TransformerKind::BigEndianU64 => BigEndianU64.spec_label(),
            TransformerKind::LittleEndianI16 => LittleEndianI16.spec_label(),
            TransformerKind::BigEndianI16 => BigEndianI16.spec_label(),
            TransformerKind::LittleEndianI32 => LittleEndianI32.spec_label(),
            TransformerKind::BigEndianI32 => BigEndianI32.spec_label(),
            TransformerKind::LittleEndianI64 => LittleEndianI64.spec_label(),
            TransformerKind::BigEndianI64 => BigEndianI64.spec_label(),
        }
    }

    open spec fn spec_transform(&self, input: Seq<u8>) -> Seq<char> {
        match self {
            TransformerKind::Base64 => Base64.spec_transform(input),
            TransformerKind::Base32 => Base32.spec_transform(input),
            TransformerKind::Hex => Hex.spec_transform(input),
            TransformerKind::CHex => CHex.spec_transform(input),
            TransformerKind::LittleEndianU16 => LittleEndianU16.spec_transform(input),
            TransformerKind::BigEndianU16 => BigEndianU16.spec_transform(input),
            TransformerKind::LittleEndianU32 => LittleEndianU32.spec_transform(input),
            TransformerKind::BigEndianU32 => BigEndianU32.spec_transform(input),
            TransformerKind::LittleEndianU64 => LittleEndianU64.spec_transform(input),
            TransformerKind::BigEndianU64 => BigEndianU64.spec_transform(input),
            TransformerKind::LittleEndianI16 => LittleEndianI16.spec_transform(input),
            TransformerKind::BigEndianI16 => BigEndianI16.spec_transform(input),
            TransformerKind::LittleEndianI32 => LittleEndianI32.spec_transform(input),
            TransformerKind::BigEndianI32 => BigEndianI32.spec_transform(input),
            TransformerKind::LittleEndianI64 => LittleEndianI64.spec_transform(input),
            TransformerKind::BigEndianI64 => BigEndianI64.spec_transform(input),
        }
    }

    fn label(&self) -> (r: &'static str) {
        match self {
            TransformerKind::Base64 => Base64.label(),
            TransformerKind::Base32 => Base32.label(),
            TransformerKind::Hex => Hex.label(),
            TransformerKind::CHex => CHex.label(),
            TransformerKind::LittleEndianU16 => LittleEndianU16.label(),
            TransformerKind::BigEndianU16 => BigEndianU16.label(),
            TransformerKind::LittleEndianU32 => LittleEndianU32.label(),
            TransformerKind::BigEndianU32 => BigEndianU32.label(),
            TransformerKind::LittleEndianU64 => LittleEndianU64.label(),
            TransformerKind::BigEndianU64 => BigEndianU64.label(),
            TransformerKind::LittleEndianI16 => LittleEndianI16.label(),
            TransformerKind::BigEndianI16 => BigEndianI16.label(),
            TransformerKind::LittleEndianI32 => LittleEndianI32.label(),
            TransformerKind::BigEndianI32 => BigEndianI32.label(),
            TransformerKind::LittleEndianI64 => LittleEndianI64.label(),
            TransformerKind::BigEndianI64 => BigEndianI64.label(),
        }
    }

    fn transform(&self, input: &[u8]) -> (r: String) {
        match self {
            TransformerKind::Base64 => Base64.transform(input),
            TransformerKind::Base32 => Base32.transform(input),
            TransformerKind::Hex => Hex.transform(input),
            TransformerKind::CHex => CHex.transform(input),
            TransformerKind::LittleEndianU16 => LittleEndianU16.transform(input),
            TransformerKind::BigEndianU16 => BigEndianU16.transform(input),
            TransformerKind::LittleEndianU32 => LittleEndianU32.transform(input),
            TransformerKind::BigEndianU32 => BigEndianU32.transform(input),
            TransformerKind::LittleEndianU64 => LittleEndianU64.transform(input),
            TransformerKind::BigEndianU64 => BigEndianU64.transform(input),
            TransformerKind::LittleEndianI16 => LittleEndianI16.transform(input),
            TransformerKind::BigEndianI16 => BigEndianI16.transform(input),
            TransformerKind::LittleEndianI32 => LittleEndianI32.transform(input),
            TransformerKind::BigEndianI32 => BigEndianI32.transform(input),
            TransformerKind::LittleEndianI64 => LittleEndianI64.transform(input),
            TransformerKind::BigEndianI64 => BigEndianI64.transform(input),
        }
    }
}

impl TransformerKind {
    /// The exact buffer length a fixed-width transformer needs; none for the
    /// encoders, which take any length.
    pub open spec fn expected_width(&self) -> Option<nat> {
        match self {
            TransformerKind::Base64 => None,
            TransformerKind::Base32 => None,
            TransformerKind::Hex => None,
            TransformerKind::CHex => None,
            TransformerKind::LittleEndianU16 => Some(2),
            TransformerKind::BigEndianU16 => Some(2),
            TransformerKind::LittleEndianU32 => Some(4),
            TransformerKind::BigEndianU32 => Some(4),
            TransformerKind::LittleEndianU64 => Some(8),
            TransformerKind::BigEndianU64 => Some(8),
            TransformerKind::LittleEndianI16 => Some(2),
            TransformerKind::BigEndianI16 => Some(2),
            TransformerKind::LittleEndianI32 => Some(4),
            TransformerKind::BigEndianI32 => Some(4),
            TransformerKind::LittleEndianI64 => Some(8),
            TransformerKind::BigEndianI64 => Some(8),
        }
    }
}

/// A fixed-width transformer shows the placeholder for every buffer whose
/// length is not its width.
pub proof fn lemma_wrong_width_placeholder(k: TransformerKind, b: Seq<u8>)
    requires
        k.expected_width() is Some,
        b.len() != k.expected_width()->0,
    ensures
        k.spec_transform(b) == placeholder(),
{
}

/// Reads a transformer back from its label.
pub open spec fn kind_of_label(l: Seq<char>) -> TransformerKind {
    if l.len() == 3 {
        TransformerKind::Hex
    } else if l.len() == 4 {
        TransformerKind::CHex
    } else if l.len() == 6 {
        if l[4] == '6' {
            TransformerKind::Base64
        } else {
            TransformerKind::Base32
        }
    } else if l[0] == 'l' {
        if l[2] == 'u' {
            if l[3] == '1' {
                TransformerKind::LittleEndianU16
            } else if l[3] == '3' {
                TransformerKind::LittleEndianU32
            } else {
                TransformerKind::LittleEndianU64
            }
        } else if l[3] == '1' {
            TransformerKind::LittleEndianI16
        } else if l[3] == '3' {
            TransformerKind::LittleEndianI32
        } else {
            TransformerKind::LittleEndianI64
        }
    } else if l[2] == 'u' {
        if l[3] == '1' {
            TransformerKind::BigEndianU16
        } else if l[3] == '3' {
            TransformerKind::BigEndianU32
        } else {
            TransformerKind::BigEndianU64
        }
    } else if l[3] == '1' {
        TransformerKind::BigEndianI16
    } else if l[3] == '3' {
        TransformerKind::BigEndianI32
    } else {
        TransformerKind::BigEndianI64
    }
}

/// Each transformer's label names it alone.
pub proof fn lemma_label_names_kind(k: TransformerKind)
    ensures
        kind_of_label(k.spec_label()) == k,
{
}

/// Two transformers with the same label are the same transformer.
pub proof fn lemma_label_injective(a: TransformerKind, b: TransformerKind)
    ensures
        a.spec_label() == b.spec_label() <==> a == b,
{
    lemma_label_names_kind(a);
    lemma_label_names_kind(b);
}

/// No two entries of `s` share a label.
pub open spec fn labels_distinct(s: Seq<TransformerKind>) -> bool {
    forall|i: int, j: int|
        0 <= i < j < s.len() ==> #[trigger] s[i].spec_label() != #[trigger] s[j].spec_label()
}

/// The transformers in panel order.
pub open spec fn standard_kinds() -> Seq<TransformerKind> {
    seq![
        TransformerKind::Base64,
        TransformerKind::Base32,
        TransformerKind::Hex,
        TransformerKind::CHex,
        TransformerKind::LittleEndianU16,
        TransformerKind::BigEndianU16,
        TransformerKind::LittleEndianU32,
        TransformerKind::BigEndianU32,
        TransformerKind::LittleEndianU64,
        TransformerKind::BigEndianU64,
        TransformerKind::LittleEndianI16,
        TransformerKind::BigEndianI16,
        TransformerKind::LittleEndianI32,
        TransformerKind::BigEndianI32,
        TransformerKind::LittleEndianI64,
        TransformerKind::BigEndianI64,
    ]
}

/// The number of transformers in the standard registry.
pub const TRANSFORMER_COUNT: u16 = 16;

/// An ordered list of transformers whose labels are pairwise distinct.
pub struct Registry {
    kinds: Vec<TransformerKind>,
}

impl View for Registry {
    type V = Seq<TransformerKind>;

    closed spec fn view(&self) -> Seq<TransformerKind> {
        self.kinds@
    }
}

impl Registry {
    #[verifier::type_invariant]
    spec fn inv(&self) -> bool {
        labels_distinct(self.kinds@)
    }

    /// A registry of `kinds` in the given order, or none when two of them
    /// share a label.
    pub fn new(kinds: Vec<TransformerKind>) -> (r: Option<Registry>)
        ensures
            r is Some <==> labels_distinct(kinds@),
            r matches Some(reg) ==> reg@ == kinds@,
    {
        let n = kinds.len();
        let mut i: usize = 0;
        while i < n
            invariant
                n == kinds@.len(),
                i <= n,
                forall|a: int, b: int|
                    0 <= a < i && a < b < n ==> #[trigger] kinds@[a] != #[trigger] kinds@[b],
            decreases n - i,
        {
            let mut j: usize = i + 1;
            while j < n
                invariant
                    n == kinds@.len(),
                    i < n,
                    i + 1 <= j <= n,
                    forall|a: int, b: int|
                        0 <= a < i && a < b < n ==> #[trigger] kinds@[a] != #[trigger] kinds@[b],
                    forall|b: int| i < b < j ==> kinds@[i as int] != #[trigger] kinds@[b],
                decreases n - j,
            {
                if kinds[i] == kinds[j] {
                    proof {
                        lemma_label_injective(kinds@[i as int], kinds@[j as int]);
                        assert(kinds@[i as int].spec_label() == kinds@[j as int].spec_label());
                        assert(!labels_distinct(kinds@));
                    }
                    return None;
                }
                j = j + 1;
            }
            i = i + 1;
        }
        assert forall|a: int, b: int| 0 <= a < b < n implies #[trigger] kinds@[a].spec_label()
            != #[trigger] kinds@[b].spec_label() by {
            lemma_label_injective(kinds@[a], kinds@[b]);
        }
        Some(Registry { kinds })
    }

    /// The standard registry: every transformer once, in panel order.
    pub fn standard() -> (r: Registry)
        ensures
            r@ == standard_kinds(),
    {
        let kinds = vec![
            TransformerKind::Base64,
            TransformerKind::Base32,
            TransformerKind::Hex,
            TransformerKind::CHex,
            TransformerKind::LittleEndianU16,
            TransformerKind::BigEndianU16,
            TransformerKind::LittleEndianU32,
            TransformerKind::BigEndianU32,
            TransformerKind::LittleEndianU64,
            TransformerKind::BigEndianU64,
            TransformerKind::LittleEndianI16,
            TransformerKind::BigEndianI16,
            TransformerKind::LittleEndianI32,
            TransformerKind::BigEndianI32,
            TransformerKind::LittleEndianI64,
            TransformerKind::BigEndianI64,
        ];
        assert(kinds@ =~= standard_kinds());
        assert forall|a: int, b: int| 0 <= a < b < kinds@.len() implies #[trigger] kinds@[a].spec_label()
            != #[trigger] kinds@[b].spec_label() by {
            lemma_label_injective(kinds@[a], kinds@[b]);
        }
        Registry { kinds }
    }

    /// The number of transformers; no two of them share a label.
    pub fn len(&self) -> (r: usize)
        ensures
            r == self@.len(),
            labels_distinct(self@),
    {
        proof {
            use_type_invariant(self);
        }
        self.kinds.len()
    }

    /// The transformer at position `i`.
    pub fn get(&self, i: usize) -> (r: TransformerKind)
        requires
            i < self@.len(),
        ensures
            r == self@[i as int],
    {
        self.kinds[i]
    }

    /// Renders `input` through every transformer, once each, in order.
    pub fn render_all(&self, input: &[u8]) -> (r: Vec<String>)
        requires
            input@.len() <= max_input_len(),
        ensures
            r@.len() == self@.len(),
            forall|i: int| 0 <= i < r@.len() ==> #[trigger] r@[i]@ == self@[i].spec_transform(input@),
    {
        let mut out: Vec<String> = Vec::new();
        let n = self.kinds.len();
        let mut i: usize = 0;
        while i < n
            invariant
                n == self@.len(),
                i <= n,
                input@.len() <= max_input_len(),
                out@.len() == i,
                forall|k: int| 0 <= k < i ==> #[trigger] out@[k]@ == self@[k].spec_transform(input@),
            decreases n - i,
        {
            out.push(self.kinds[i].transform(input));
            i = i + 1;
        }
        out
    }
}

} // verus!
