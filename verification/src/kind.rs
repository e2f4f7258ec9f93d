//! The three value types a column can declare.

use vstd::prelude::*;
use vstd::utf8::*;

verus! {

/// The declared type of a column. It alone decides how wide a value is and
/// how its bytes are read.
#[derive(Debug, Clone, Copy, PartialEq, Eq, Structural)]
pub enum ValueKind {
    Int,
    Float,
    Str,
}

/// The kind that a type tag names, if any.
pub open spec fn kind_of_tag(tag: Seq<char>) -> Option<ValueKind> {
    if tag == "int"@ {
        Some(ValueKind::Int)
    } else if tag == "float"@ {
        Some(ValueKind::Float)
    } else if tag == "str"@ {
        Some(ValueKind::Str)
    } else {
        None
    }
}

fn bytes_equal(a: &[u8], b: &[u8]) -> (r: bool)
    ensures
        r == (a@ == b@),
{
    if a.len() != b.len() {
        return false;
    }
    let mut i: usize = 0;
    while i < a.len()
        invariant
            a.len() == b.len(),
            i <= a.len(),
            a@.subrange(0, i as int) == b@.subrange(0, i as int),
        decreases a.len() - i,
    {
        if a[i] != b[i] {
            return false;
        }
        assert(a@.subrange(0, i + 1) == a@.subrange(0, i as int).push(a@[i as int]));
        assert(b@.subrange(0, i + 1) == b@.subrange(0, i as int).push(b@[i as int]));
        i = i + 1;
    }
    assert(a@ == a@.subrange(0, i as int));
    assert(b@ == b@.subrange(0, i as int));
    true
}

/// Whether two strings hold the same text.
pub(crate) fn same_text(a: &str, b: &str) -> (r: bool)
    ensures
        r == (a@ == b@),
{
    proof {
        encode_utf8_decode_utf8(a@);
        encode_utf8_decode_utf8(b@);
    }
    bytes_equal(a.as_bytes(), b.as_bytes())
}

/// The values of a block take no more bytes than a length of 64 bits holds.
pub proof fn lemma_block_bytes(kind: ValueKind, count: int)
    requires
        0 <= count <= i32::MAX,
    ensures
        0 <= kind.spec_width() * count <= 32 * 0x7fff_ffff,
        kind.spec_width() * count == count * kind.spec_width(),
{
    let width = kind.spec_width();
    assert(0 <= width * count <= 32 * 0x7fff_ffff && width * count == count * width)
        by (nonlinear_arith)
        requires
            0 <= width <= 32,
            0 <= count <= 0x7fff_ffff,
    ;
}

impl ValueKind {
    /// Reads a type tag: `int`, `float` or `str`.
    pub fn parse(tag: &str) -> (r: Option<ValueKind>)
        ensures
            r == kind_of_tag(tag@),
    {
        if same_text(tag, "int") {
            Some(ValueKind::Int)
        } else if same_text(tag, "float") {
            Some(ValueKind::Float)
        } else if same_text(tag, "str") {
            Some(ValueKind::Str)
        } else {
            None
        }
    }

    /// The tag that names this kind.
    pub fn tag(self) -> (r: &'static str)
        ensures
            kind_of_tag(r@) == Some(self),
    {
        proof {
            reveal_strlit("int");
            reveal_strlit("float");
            reveal_strlit("str");
            assert("int"@.len() != "float"@.len());
            assert("int"@[0] != "str"@[0]);
        }
        match self {
            ValueKind::Int => "int",
            ValueKind::Float => "float",
            ValueKind::Str => "str",
        }
    }

    /// Bytes that one value takes in a block.
    pub open spec fn spec_width(self) -> int {
        match self {
            ValueKind::Int => 4,
            ValueKind::Float => 4,
            ValueKind::Str => 32,
        }
    }

    /// Bytes that one value takes in a block: 4 for a number, 32 for a string.
    pub fn width(self) -> (r: u64)
        ensures
            r == self.spec_width(),
    {
        match self {
            ValueKind::Int => 4,
            ValueKind::Float => 4,
            ValueKind::Str => 32,
        }
    }
}

} // verus!
