//! The value tree and its mathematical model.
use vstd::prelude::*;

verus! {

/// Tag ids of the format.
pub const END_ID: u8 = 0;
pub const BYTE_ID: u8 = 1;
pub const SHORT_ID: u8 = 2;
pub const INT_ID: u8 = 3;
pub const LONG_ID: u8 = 4;
pub const FLOAT_ID: u8 = 5;
pub const DOUBLE_ID: u8 = 6;
pub const BYTE_ARRAY_ID: u8 = 7;
pub const STRING_ID: u8 = 8;
pub const LIST_ID: u8 = 9;
pub const COMPOUND_ID: u8 = 10;
pub const INT_ARRAY_ID: u8 = 11;
pub const LONG_ARRAY_ID: u8 = 12;

/// One node of a decoded document.
///
/// Floating-point values are kept as their IEEE-754 bit patterns, and text as
/// the bytes that the document holds, so that a tree re-encodes bit for bit.
#[derive(Debug, PartialEq)]
pub enum Tag {
    Byte(i8),
    Short(i16),
    Int(i32),
    Long(i64),
    Float(u32),
    Double(u64),
    ByteArray(Vec<i8>),
    Str(Vec<u8>),
    /// The declared element kind, then the elements.
    List(u8, Vec<Tag>),
    /// Named children, in document order, as the document holds them.
    Compound(Vec<Entry>),
    IntArray(Vec<i32>),
    LongArray(Vec<i64>),
}

/// A named node: a child of a compound, or the root of a document.
#[derive(Debug, PartialEq)]
pub struct Entry {
    pub name: Vec<u8>,
    pub value: Tag,
}

/// The mathematical model of a `Tag`.
pub enum Nbt {
    Byte(i8),
    Short(i16),
    Int(i32),
    Long(i64),
    Float(u32),
    Double(u64),
    ByteArray(Seq<i8>),
    Str(Seq<u8>),
    List(u8, Seq<Nbt>),
    Compound(Seq<(Seq<u8>, Nbt)>),
    IntArray(Seq<i32>),
    LongArray(Seq<i64>),
}

impl Tag {
    pub open spec fn model(self) -> Nbt
        decreases self,
    {
        match self {
            Tag::Byte(x) => Nbt::Byte(x),
            Tag::Short(x) => Nbt::Short(x),
            Tag::Int(x) => Nbt::Int(x),
            Tag::Long(x) => Nbt::Long(x),
            Tag::Float(x) => Nbt::Float(x),
            Tag::Double(x) => Nbt::Double(x),
            Tag::ByteArray(v) => Nbt::ByteArray(v@),
            Tag::Str(v) => Nbt::Str(v@),
            Tag::List(k, v) => Nbt::List(
                k,
                Seq::new(
                    v.len() as nat,
                    |i: int|
                        if 0 <= i < v.len() {
                            v[i].model()
                        } else {
                            Nbt::Byte(0)
                        },
                ),
            ),
            Tag::Compound(v) => Nbt::Compound(
                Seq::new(
                    v.len() as nat,
                    |i: int|
                        if 0 <= i < v.len() {
                            (v[i].name@, v[i].value.model())
                        } else {
                            (Seq::empty(), Nbt::Byte(0))
                        },
                ),
            ),
            Tag::IntArray(v) => Nbt::IntArray(v@),
            Tag::LongArray(v) => Nbt::LongArray(v@),
        }
    }
}

impl View for Tag {
    type V = Nbt;

    open spec fn view(&self) -> Nbt {
        self.model()
    }
}

/// The tag id of a node.
pub open spec fn kind(t: Nbt) -> u8 {
    match t {
        Nbt::Byte(_) => BYTE_ID,
        Nbt::Short(_) => SHORT_ID,
        Nbt::Int(_) => INT_ID,
        Nbt::Long(_) => LONG_ID,
        Nbt::Float(_) => FLOAT_ID,
        Nbt::Double(_) => DOUBLE_ID,
        Nbt::ByteArray(_) => BYTE_ARRAY_ID,
        Nbt::Str(_) => STRING_ID,
        Nbt::List(_, _) => LIST_ID,
        Nbt::Compound(_) => COMPOUND_ID,
        Nbt::IntArray(_) => INT_ARRAY_ID,
        Nbt::LongArray(_) => LONG_ARRAY_ID,
    }
}

/// The lengths that the format can write: names and text under 2^16 bytes,
/// arrays and lists under 2^32 elements.
pub open spec fn fits_u16(n: nat) -> bool {
    n < 0x1_0000
}

pub open spec fn fits_u32(n: nat) -> bool {
    n < 0x1_0000_0000
}

/// A tree that the encoder can write and the decoder reads back: every length
/// fits its prefix, and every list holds elements of its declared kind, which
/// is a real kind unless the list is empty.
pub open spec fn wf(t: Nbt) -> bool
    decreases t,
{
    match t {
        Nbt::ByteArray(s) => fits_u32(s.len()),
        Nbt::Str(s) => fits_u16(s.len()),
        Nbt::IntArray(s) => fits_u32(s.len()),
        Nbt::LongArray(s) => fits_u32(s.len()),
        Nbt::List(k, s) => fits_u32(s.len()) && k <= LONG_ARRAY_ID && (k == END_ID ==> s.len() == 0)
            && forall|i: int| 0 <= i < s.len() ==> kind(#[trigger] s[i]) == k && wf(s[i]),
        Nbt::Compound(es) => (forall|i: int| 0 <= i < es.len() ==> fits_u16(#[trigger] es[i].0.len()))
            && (forall|i: int| 0 <= i < es.len() ==> wf(#[trigger] es[i].1)),
        _ => true,
    }
}

pub proof fn lemma_wf_entry(es: Seq<(Seq<u8>, Nbt)>, i: int)
    requires
        wf(Nbt::Compound(es)),
        0 <= i < es.len(),
    ensures
        wf(es[i].1),
        fits_u16(es[i].0.len()),
{
    reveal_with_fuel(wf, 2);
    let t = Nbt::Compound(es);
    assert(t is Compound);
    assert(t->Compound_0 == es);
}

pub proof fn lemma_wf_item(k: u8, s: Seq<Nbt>, i: int)
    requires
        wf(Nbt::List(k, s)),
        0 <= i < s.len(),
    ensures
        kind(s[i]) == k,
        wf(s[i]),
{
    reveal_with_fuel(wf, 2);
}

pub proof fn lemma_wf_list_intro(k: u8, s: Seq<Nbt>)
    requires
        fits_u32(s.len()),
        k <= LONG_ARRAY_ID,
        k == END_ID ==> s.len() == 0,
        forall|i: int| 0 <= i < s.len() ==> kind(#[trigger] s[i]) == k && wf(s[i]),
    ensures
        wf(Nbt::List(k, s)),
{
    reveal_with_fuel(wf, 2);
}

pub proof fn lemma_wf_compound_intro(es: Seq<(Seq<u8>, Nbt)>)
    requires
        forall|i: int| 0 <= i < es.len() ==> fits_u16((#[trigger] es[i]).0.len()) && wf(es[i].1),
    ensures
        wf(Nbt::Compound(es)),
{
    reveal_with_fuel(wf, 2);
}

/// The kind of a node.
pub fn tag_id(t: &Tag) -> (r: u8)
    ensures
        r == kind(t@),
{
    match t {
        Tag::Byte(_) => BYTE_ID,
        Tag::Short(_) => SHORT_ID,
        Tag::Int(_) => INT_ID,
        Tag::Long(_) => LONG_ID,
        Tag::Float(_) => FLOAT_ID,
        Tag::Double(_) => DOUBLE_ID,
        Tag::ByteArray(_) => BYTE_ARRAY_ID,
        Tag::Str(_) => STRING_ID,
        Tag::List(_, _) => LIST_ID,
        Tag::Compound(_) => COMPOUND_ID,
        Tag::IntArray(_) => INT_ARRAY_ID,
        Tag::LongArray(_) => LONG_ARRAY_ID,
    }
}

/// The short type label of a kind, as the diagnostic dump prints it.
pub open spec fn kind_label(k: u8) -> &'static str {
    if k == BYTE_ID {
        "i8"
    } else if k == SHORT_ID {
        "i16"
    } else if k == INT_ID {
        "i32"
    } else if k == LONG_ID {
        "i64"
    } else if k == FLOAT_ID {
        "f32"
    } else if k == DOUBLE_ID {
        "f64"
    } else if k == STRING_ID {
        "string"
    } else if k == BYTE_ARRAY_ID {
        "[i8]"
    } else if k == INT_ARRAY_ID {
        "[i32]"
    } else if k == LONG_ARRAY_ID {
        "[i64]"
    } else if k == LIST_ID {
        "List"
    } else {
        "{}"
    }
}

/// The type label of a node.
pub fn tag_to_str(t: &Tag) -> (r: &'static str)
    ensures
        r == kind_label(kind(t@)),
{
    match t {
        Tag::Byte(_) => "i8",
        Tag::Short(_) => "i16",
        Tag::Int(_) => "i32",
        Tag::Long(_) => "i64",
        Tag::Float(_) => "f32",
        Tag::Double(_) => "f64",
        Tag::Str(_) => "string",
        Tag::ByteArray(_) => "[i8]",
        Tag::IntArray(_) => "[i32]",
        Tag::LongArray(_) => "[i64]",
        Tag::List(_, _) => "List",
        Tag::Compound(_) => "{}",
    }
}

/// A node was read as a kind that it is not.
#[derive(Debug, PartialEq, Eq, Structural, Clone, Copy)]
pub struct TypeMismatch {
    /// The kind that the node has.
    pub found: u8,
}

impl Tag {
    pub fn as_byte(&self) -> (r: Result<i8, TypeMismatch>)
        ensures
            match r {
                Ok(x) => self@ == Nbt::Byte(x),
                Err(e) => !(self@ is Byte) && e.found == kind(self@),
            },
    {
        match self {
            Tag::Byte(x) => Ok(*x),
            _ => Err(TypeMismatch { found: tag_id(self) }),
        }
    }

    pub fn as_short(&self) -> (r: Result<i16, TypeMismatch>)
        ensures
            match r {
                Ok(x) => self@ == Nbt::Short(x),
                Err(e) => !(self@ is Short) && e.found == kind(self@),
            },
    {
        match self {
            Tag::Short(x) => Ok(*x),
            _ => Err(TypeMismatch { found: tag_id(self) }),
        }
    }

    pub fn as_int(&self) -> (r: Result<i32, TypeMismatch>)
        ensures
            match r {
                Ok(x) => self@ == Nbt::Int(x),
                Err(e) => !(self@ is Int) && e.found == kind(self@),
            },
    {
        match self {
            Tag::Int(x) => Ok(*x),
            _ => Err(TypeMismatch { found: tag_id(self) }),
        }
    }

    pub fn as_long(&self) -> (r: Result<i64, TypeMismatch>)
        ensures
            match r {
                Ok(x) => self@ == Nbt::Long(x),
                Err(e) => !(self@ is Long) && e.found == kind(self@),
            },
    {
        match self {
            Tag::Long(x) => Ok(*x),
            _ => Err(TypeMismatch { found: tag_id(self) }),
        }
    }

    pub fn as_float_bits(&self) -> (r: Result<u32, TypeMismatch>)
        ensures
            match r {
                Ok(x) => self@ == Nbt::Float(x),
                Err(e) => !(self@ is Float) && e.found == kind(self@),
            },
    {
        match self {
            Tag::Float(x) => Ok(*x),
            _ => Err(TypeMismatch { found: tag_id(self) }),
        }
    }

    pub fn as_double_bits(&self) -> (r: Result<u64, TypeMismatch>)
        ensures
            match r {
                Ok(x) => self@ == Nbt::Double(x),
                Err(e) => !(self@ is Double) && e.found == kind(self@),
            },
    {
        match self {
            Tag::Double(x) => Ok(*x),
            _ => Err(TypeMismatch { found: tag_id(self) }),
        }
    }

    /// The bytes of a string node.
    pub fn as_str_bytes(&self) -> (r: Result<&Vec<u8>, TypeMismatch>)
        ensures
            match r {
                Ok(v) => self@ == Nbt::Str(v@),
                Err(e) => !(self@ is Str) && e.found == kind(self@),
            },
    {
        match self {
            Tag::Str(v) => Ok(v),
            _ => Err(TypeMismatch { found: tag_id(self) }),
        }
    }

    /// The elements of a list node, in order.
    pub fn as_list(&self) -> (r: Result<&Vec<Tag>, TypeMismatch>)
        ensures
            match r {
                Ok(v) => self@ is List && self@->List_1.len() == v@.len() && forall|i: int|
                    0 <= i < v@.len() ==> #[trigger] self@->List_1[i] == v@[i]@,
                Err(e) => !(self@ is List) && e.found == kind(self@),
            },
    {
        match self {
            Tag::List(_, v) => Ok(v),
            _ => Err(TypeMismatch { found: tag_id(self) }),
        }
    }

    /// The named children of a compound node, in document order.
    pub fn as_compound(&self) -> (r: Result<&Vec<Entry>, TypeMismatch>)
        ensures
            match r {
                Ok(v) => self@ is Compound && self@->Compound_0.len() == v@.len() && forall|i: int|
                    0 <= i < v@.len() ==> #[trigger] self@->Compound_0[i] == (v@[i].name@, v@[i].value@),
                Err(e) => !(self@ is Compound) && e.found == kind(self@),
            },
    {
        match self {
            Tag::Compound(v) => Ok(v),
            _ => Err(TypeMismatch { found: tag_id(self) }),
        }
    }
}

} // verus!
