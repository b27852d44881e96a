//! The byte layout of a document, as spec functions: what the encoder writes
//! and what the decoder reads.
use vstd::prelude::*;
use crate::le::{u16_at, u16_le, u32_at, u32_le, u64_at, u64_le};
use crate::tag::{
    kind, Nbt, BYTE_ARRAY_ID, BYTE_ID, COMPOUND_ID, DOUBLE_ID, END_ID, FLOAT_ID, INT_ARRAY_ID, INT_ID,
    LIST_ID, LONG_ARRAY_ID, LONG_ID, SHORT_ID, STRING_ID,
};

verus! {

/// Why a byte stream is not a document.
#[derive(Debug, PartialEq, Eq, Structural, Clone, Copy)]
pub enum DecodeError {
    /// A tag id outside the known set, or the end marker where a node must stand.
    UnknownTagId(u8),
    /// A read at this offset needs more bytes than remain.
    TruncatedInput(usize),
}

pub open spec fn enc_i8s(s: Seq<i8>) -> Seq<u8>
    decreases s.len(),
{
    if s.len() == 0 {
        Seq::empty()
    } else {
        enc_i8s(s.subrange(0, s.len() - 1)).push(s[s.len() - 1] as u8)
    }
}

pub open spec fn enc_i32s(s: Seq<i32>) -> Seq<u8>
    decreases s.len(),
{
    if s.len() == 0 {
        Seq::empty()
    } else {
        enc_i32s(s.subrange(0, s.len() - 1)) + u32_le(s[s.len() - 1] as u32)
    }
}

pub open spec fn enc_i64s(s: Seq<i64>) -> Seq<u8>
    decreases s.len(),
{
    if s.len() == 0 {
        Seq::empty()
    } else {
        enc_i64s(s.subrange(0, s.len() - 1)) + u64_le(s[s.len() - 1] as u64)
    }
}

/// The bytes of a node without its tag id and name.
pub open spec fn enc_payload(t: Nbt) -> Seq<u8>
    decreases t,
{
    match t {
        Nbt::Byte(x) => seq![x as u8],
        Nbt::Short(x) => u16_le(x as u16),
        Nbt::Int(x) => u32_le(x as u32),
        Nbt::Long(x) => u64_le(x as u64),
        Nbt::Float(x) => u32_le(x),
        Nbt::Double(x) => u64_le(x),
        Nbt::ByteArray(s) => u32_le(s.len() as u32) + enc_i8s(s),
        Nbt::Str(s) => u16_le(s.len() as u16) + s,
        Nbt::List(k, s) => seq![k] + u32_le(s.len() as u32) + enc_items(s),
        Nbt::Compound(es) => enc_entries(es) + seq![END_ID],
        Nbt::IntArray(s) => u32_le(s.len() as u32) + enc_i32s(s),
        Nbt::LongArray(s) => u32_le(s.len() as u32) + enc_i64s(s),
    }
}

/// List elements, one after another, unnamed.
pub open spec fn enc_items(s: Seq<Nbt>) -> Seq<u8>
    decreases s,
{
    if s.len() == 0 {
        Seq::empty()
    } else {
        enc_items(s.subrange(0, s.len() - 1)) + enc_payload(s[s.len() - 1])
    }
}

/// Compound children, one after another, without the end marker.
pub open spec fn enc_entries(es: Seq<(Seq<u8>, Nbt)>) -> Seq<u8>
    decreases es,
{
    if es.len() == 0 {
        Seq::empty()
    } else {
        let (name, t) = es[es.len() - 1];
        enc_entries(es.subrange(0, es.len() - 1)) + seq![kind(t)] + u16_le(name.len() as u16) + name
            + enc_payload(t)
    }
}

/// A named node: tag id, name length, name, payload.
pub open spec fn enc_named(name: Seq<u8>, t: Nbt) -> Seq<u8> {
    seq![kind(t)] + u16_le(name.len() as u16) + name + enc_payload(t)
}

} // verus!

verus! {

/// Puts `s` in front of the elements of a successful parse.
pub open spec fn prepend<A>(s: Seq<A>, r: Result<(Seq<A>, int), DecodeError>) -> Result<
    (Seq<A>, int),
    DecodeError,
> {
    match r {
        Ok((s2, e)) => Ok((s + s2, e)),
        Err(x) => Err(x),
    }
}

/// Reads the payload of a node of kind `k` at `p`: the node and the offset
/// just past it.
pub open spec fn parse_payload(b: Seq<u8>, p: int, k: u8) -> Result<(Nbt, int), DecodeError>
    decreases b.len() - p, 2nat, 0nat,
{
    let len = b.len() as int;
    if !(0 <= p <= len) {
        Err(DecodeError::TruncatedInput(0))
    } else if k == BYTE_ID {
        if p + 1 > len {
            Err(DecodeError::TruncatedInput(p as usize))
        } else {
            Ok((Nbt::Byte(b[p] as i8), p + 1))
        }
    } else if k == SHORT_ID {
        if p + 2 > len {
            Err(DecodeError::TruncatedInput(p as usize))
        } else {
            Ok((Nbt::Short(u16_at(b, p) as i16), p + 2))
        }
    } else if k == INT_ID || k == FLOAT_ID {
        if p + 4 > len {
            Err(DecodeError::TruncatedInput(p as usize))
        } else if k == INT_ID {
            Ok((Nbt::Int(u32_at(b, p) as i32), p + 4))
        } else {
            Ok((Nbt::Float(u32_at(b, p)), p + 4))
        }
    } else if k == LONG_ID || k == DOUBLE_ID {
        if p + 8 > len {
            Err(DecodeError::TruncatedInput(p as usize))
        } else if k == LONG_ID {
            Ok((Nbt::Long(u64_at(b, p) as i64), p + 8))
        } else {
            Ok((Nbt::Double(u64_at(b, p)), p + 8))
        }
    } else if k == STRING_ID {
        if p + 2 > len {
            Err(DecodeError::TruncatedInput(p as usize))
        } else if p + 2 + u16_at(b, p) > len {
            Err(DecodeError::TruncatedInput((p + 2) as usize))
        } else {
            let e = p + 2 + u16_at(b, p);
            Ok((Nbt::Str(b.subrange(p + 2, e)), e))
        }
    } else if k == BYTE_ARRAY_ID || k == INT_ARRAY_ID || k == LONG_ARRAY_ID {
        let w: int = if k == BYTE_ARRAY_ID {
            1
        } else if k == INT_ARRAY_ID {
            4
        } else {
            8
        };
        if p + 4 > len {
            Err(DecodeError::TruncatedInput(p as usize))
        } else if p + 4 + w * u32_at(b, p) > len {
            Err(DecodeError::TruncatedInput((p + 4) as usize))
        } else {
            let n = u32_at(b, p) as nat;
            let d = p + 4;
            if k == BYTE_ARRAY_ID {
                Ok((Nbt::ByteArray(Seq::new(n, |j: int| b[d + j] as i8)), d + n))
            } else if k == INT_ARRAY_ID {
                Ok((Nbt::IntArray(Seq::new(n, |j: int| u32_at(b, d + 4 * j) as i32)), d + 4 * n))
            } else {
                Ok((Nbt::LongArray(Seq::new(n, |j: int| u64_at(b, d + 8 * j) as i64)), d + 8 * n))
            }
        }
    } else if k == LIST_ID {
        if p + 5 > len {
            Err(DecodeError::TruncatedInput(p as usize))
        } else if b[p] > LONG_ARRAY_ID {
            Err(DecodeError::UnknownTagId(b[p]))
        } else {
            match parse_items(b, p + 5, b[p], u32_at(b, p + 1) as nat) {
                Ok((s, e)) => Ok((Nbt::List(b[p], s), e)),
                Err(x) => Err(x),
            }
        }
    } else if k == COMPOUND_ID {
        match parse_entries(b, p) {
            Ok((es, e)) => Ok((Nbt::Compound(es), e)),
            Err(x) => Err(x),
        }
    } else {
        Err(DecodeError::UnknownTagId(k))
    }
}

/// Reads `n` unnamed nodes of kind `k` from `p` on.
pub open spec fn parse_items(b: Seq<u8>, p: int, k: u8, n: nat) -> Result<
    (Seq<Nbt>, int),
    DecodeError,
>
    decreases b.len() - p, 3nat, n,
{
    if !(0 <= p <= b.len()) {
        Err(DecodeError::TruncatedInput(0))
    } else if n == 0 {
        Ok((Seq::empty(), p))
    } else {
        match parse_payload(b, p, k) {
            Ok((t, q)) => if q <= p || q > b.len() {
                Err(DecodeError::TruncatedInput(p as usize))
            } else {
                prepend(seq![t], parse_items(b, q, k, (n - 1) as nat))
            },
            Err(x) => Err(x),
        }
    }
}

/// Reads named nodes from `p` on, up to and including the end marker.
pub open spec fn parse_entries(b: Seq<u8>, p: int) -> Result<
    (Seq<(Seq<u8>, Nbt)>, int),
    DecodeError,
>
    decreases b.len() - p, 1nat, 0nat,
{
    if !(0 <= p <= b.len()) {
        Err(DecodeError::TruncatedInput(0))
    } else if p + 1 > b.len() {
        Err(DecodeError::TruncatedInput(p as usize))
    } else if b[p] == END_ID {
        Ok((Seq::empty(), p + 1))
    } else {
        match parse_named(b, p) {
            Ok((ne, q)) => if q <= p || q > b.len() {
                Err(DecodeError::TruncatedInput(p as usize))
            } else {
                prepend(seq![ne], parse_entries(b, q))
            },
            Err(x) => Err(x),
        }
    }
}

/// Reads a named node at `p`: tag id, name, payload.
pub open spec fn parse_named(b: Seq<u8>, p: int) -> Result<((Seq<u8>, Nbt), int), DecodeError>
    decreases b.len() - p, 0nat, 0nat,
{
    let len = b.len() as int;
    if !(0 <= p <= len) {
        Err(DecodeError::TruncatedInput(0))
    } else if p + 1 > len {
        Err(DecodeError::TruncatedInput(p as usize))
    } else if b[p] == END_ID || b[p] > LONG_ARRAY_ID {
        Err(DecodeError::UnknownTagId(b[p]))
    } else if p + 3 > len {
        Err(DecodeError::TruncatedInput((p + 1) as usize))
    } else if p + 3 + u16_at(b, p + 1) > len {
        Err(DecodeError::TruncatedInput((p + 3) as usize))
    } else {
        let q = p + 3 + u16_at(b, p + 1);
        match parse_payload(b, q, b[p]) {
            Ok((t, e)) => Ok(((b.subrange(p + 3, q), t), e)),
            Err(x) => Err(x),
        }
    }
}

} // verus!
