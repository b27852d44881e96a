//! Decoder and encoder of little-endian documents.
use vstd::prelude::*;
use crate::le::{read_u16, read_u32, read_u64, u32_at, u64_at, write_u16, write_u32, write_u64};
use crate::layout::{
    enc_entries, enc_i32s, enc_i64s, enc_i8s, enc_items, enc_named, enc_payload, parse_entries,
    parse_items, parse_named, parse_payload, prepend, DecodeError,
};
use crate::tag::{
    kind, lemma_wf_entry, tag_id, wf, fits_u16, Entry, Nbt, Tag, BYTE_ARRAY_ID, BYTE_ID, COMPOUND_ID, DOUBLE_ID, END_ID, FLOAT_ID,
    INT_ARRAY_ID, INT_ID, LIST_ID, LONG_ARRAY_ID, LONG_ID, SHORT_ID, STRING_ID,
};

verus! {

/// The models of a sequence of nodes.
pub open spec fn tags_model(v: Seq<Tag>) -> Seq<Nbt> {
    Seq::new(v.len(), |i: int| v[i]@)
}

/// The models of a sequence of named nodes.
pub open spec fn entries_model(v: Seq<Entry>) -> Seq<(Seq<u8>, Nbt)> {
    Seq::new(v.len(), |i: int| (v[i].name@, v[i].value@))
}

/// `r` is the result that the spec parser gives as `s`.
pub open spec fn tag_res(r: Result<(Tag, usize), DecodeError>, s: Result<(Nbt, int), DecodeError>) -> bool {
    match r {
        Ok((t, e)) => s == Ok::<(Nbt, int), DecodeError>((t@, e as int)),
        Err(x) => s == Err::<(Nbt, int), DecodeError>(x),
    }
}

/// `r` is the result that the spec parser gives as `s`.
pub open spec fn named_res(
    r: Result<(Entry, usize), DecodeError>,
    s: Result<((Seq<u8>, Nbt), int), DecodeError>,
) -> bool {
    match r {
        Ok((t, e)) => s == Ok::<((Seq<u8>, Nbt), int), DecodeError>(((t.name@, t.value@), e as int)),
        Err(x) => s == Err::<((Seq<u8>, Nbt), int), DecodeError>(x),
    }
}

pub proof fn lemma_prepend_empty<A>(r: Result<(Seq<A>, int), DecodeError>)
    ensures
        prepend(Seq::<A>::empty(), r) == r,
{
    match r {
        Ok((s, e)) => assert(Seq::<A>::empty() + s =~= s),
        Err(_) => {},
    }
}

pub proof fn lemma_prepend_assoc<A>(s: Seq<A>, t: Seq<A>, r: Result<(Seq<A>, int), DecodeError>)
    ensures
        prepend(s, prepend(t, r)) == prepend(s + t, r),
{
    match r {
        Ok((u, e)) => assert(s + (t + u) =~= (s + t) + u),
        Err(_) => {},
    }
}

fn copy_bytes(b: &[u8], from: usize, n: usize) -> (r: Vec<u8>)
    requires
        from + n <= b@.len(),
    ensures
        r@ == b@.subrange(from as int, from + n),
{
    let len = b.len();
    let mut v: Vec<u8> = Vec::new();
    let mut i: usize = 0;
    while i < n
        invariant
            i <= n,
            from + n <= b@.len(),
            len == b@.len(),
            v@ == b@.subrange(from as int, from + i),
        decreases n - i,
    {
        v.push(b[from + i]);
        i = i + 1;
        assert(v@ =~= b@.subrange(from as int, from + i));
    }
    v
}

fn read_i8s(b: &[u8], d: usize, n: usize) -> (r: Vec<i8>)
    requires
        d + n <= b@.len(),
    ensures
        r@ == Seq::new(n as nat, |j: int| b@[d + j] as i8),
{
    let len = b.len();
    let mut v: Vec<i8> = Vec::new();
    let mut i: usize = 0;
    while i < n
        invariant
            i <= n,
            d + n <= b@.len(),
            len == b@.len(),
            v@ == Seq::new(i as nat, |j: int| b@[d + j] as i8),
        decreases n - i,
    {
        v.push(b[d + i] as i8);
        i = i + 1;
        assert(v@ =~= Seq::new(i as nat, |j: int| b@[d + j] as i8));
    }
    v
}

fn read_i32s(b: &[u8], d: usize, n: usize) -> (r: Vec<i32>)
    requires
        d + 4 * n <= b@.len(),
    ensures
        r@ == Seq::new(n as nat, |j: int| u32_at(b@, d + 4 * j) as i32),
{
    let len = b.len();
    let mut v: Vec<i32> = Vec::new();
    let mut i: usize = 0;
    while i < n
        invariant
            i <= n,
            d + 4 * n <= b@.len(),
            len == b@.len(),
            v@ == Seq::new(i as nat, |j: int| u32_at(b@, d + 4 * j) as i32),
        decreases n - i,
    {
        v.push(read_u32(b, d + 4 * i) as i32);
        i = i + 1;
        assert(v@ =~= Seq::new(i as nat, |j: int| u32_at(b@, d + 4 * j) as i32));
    }
    v
}

fn read_i64s(b: &[u8], d: usize, n: usize) -> (r: Vec<i64>)
    requires
        d + 8 * n <= b@.len(),
    ensures
        r@ == Seq::new(n as nat, |j: int| u64_at(b@, d + 8 * j) as i64),
{
    let len = b.len();
    let mut v: Vec<i64> = Vec::new();
    let mut i: usize = 0;
    while i < n
        invariant
            i <= n,
            d + 8 * n <= b@.len(),
            len == b@.len(),
            v@ == Seq::new(i as nat, |j: int| u64_at(b@, d + 8 * j) as i64),
        decreases n - i,
    {
        v.push(read_u64(b, d + 8 * i) as i64);
        i = i + 1;
        assert(v@ =~= Seq::new(i as nat, |j: int| u64_at(b@, d + 8 * j) as i64));
    }
    v
}

/// Reads the payload of a node of kind `k` at offset `p`; returns the node
/// and the offset just past it.
pub fn read_payload(b: &[u8], p: usize, k: u8) -> (r: Result<(Tag, usize), DecodeError>)
    requires
        p <= b@.len(),
    ensures
        tag_res(r, parse_payload(b@, p as int, k)),
        r matches Ok((_, e)) ==> p < e <= b@.len(),
    decreases b@.len() - p, 2nat,
{
    let len = b.len();
    if k == BYTE_ID {
        if len - p < 1 {
            return Err(DecodeError::TruncatedInput(p));
        }
        Ok((Tag::Byte(b[p] as i8), p + 1))
    } else if k == SHORT_ID {
        if len - p < 2 {
            return Err(DecodeError::TruncatedInput(p));
        }
        Ok((Tag::Short(read_u16(b, p) as i16), p + 2))
    } else if k == INT_ID || k == FLOAT_ID {
        if len - p < 4 {
            return Err(DecodeError::TruncatedInput(p));
        }
        let x = read_u32(b, p);
        if k == INT_ID {
            Ok((Tag::Int(x as i32), p + 4))
        } else {
            Ok((Tag::Float(x), p + 4))
        }
    } else if k == LONG_ID || k == DOUBLE_ID {
        if len - p < 8 {
            return Err(DecodeError::TruncatedInput(p));
        }
        let x = read_u64(b, p);
        if k == LONG_ID {
            Ok((Tag::Long(x as i64), p + 8))
        } else {
            Ok((Tag::Double(x), p + 8))
        }
    } else if k == STRING_ID {
        if len - p < 2 {
            return Err(DecodeError::TruncatedInput(p));
        }
        let n = read_u16(b, p) as usize;
        if len - (p + 2) < n {
            return Err(DecodeError::TruncatedInput(p + 2));
        }
        Ok((Tag::Str(copy_bytes(b, p + 2, n)), p + 2 + n))
    } else if k == BYTE_ARRAY_ID || k == INT_ARRAY_ID || k == LONG_ARRAY_ID {
        let w: u64 = if k == BYTE_ARRAY_ID {
            1
        } else if k == INT_ARRAY_ID {
            4
        } else {
            8
        };
        if len - p < 4 {
            return Err(DecodeError::TruncatedInput(p));
        }
        let n = read_u32(b, p);
        let d = p + 4;
        if w * (n as u64) > (len - d) as u64 {
            return Err(DecodeError::TruncatedInput(d));
        }
        let n = n as usize;
        if k == BYTE_ARRAY_ID {
            Ok((Tag::ByteArray(read_i8s(b, d, n)), d + n))
        } else if k == INT_ARRAY_ID {
            Ok((Tag::IntArray(read_i32s(b, d, n)), d + 4 * n))
        } else {
            Ok((Tag::LongArray(read_i64s(b, d, n)), d + 8 * n))
        }
    } else if k == LIST_ID {
        if len - p < 5 {
            return Err(DecodeError::TruncatedInput(p));
        }
        let ek = b[p];
        if ek > LONG_ARRAY_ID {
            return Err(DecodeError::UnknownTagId(ek));
        }
        let n = read_u32(b, p + 1);
        let mut v: Vec<Tag> = Vec::new();
        let mut q: usize = p + 5;
        let mut i: u32 = 0;
        proof {
            assert(tags_model(v@) =~= Seq::<Nbt>::empty());
            lemma_prepend_empty(parse_items(b@, q as int, ek, n as nat));
        }
        while i < n
            invariant
                p + 5 <= q <= b@.len(),
                len == b@.len(),
                k == LIST_ID,
                ek == b@[p as int],
                ek <= LONG_ARRAY_ID,
                p + 5 <= len,
                i <= n,
                n == u32_at(b@, p + 1),
                parse_items(b@, p + 5, ek, n as nat) == prepend(
                    tags_model(v@),
                    parse_items(b@, q as int, ek, (n - i) as nat),
                ),
            decreases n - i,
        {
            match read_payload(b, q, ek) {
                Err(x) => {
                    return Err(x);
                },
                Ok((t, q2)) => {
                    proof {
                        lemma_prepend_assoc(tags_model(v@), seq![t@], parse_items(b@, q2 as int, ek, (n - i - 1) as nat));
                        assert(tags_model(v@.push(t)) =~= tags_model(v@) + seq![t@]);
                    }
                    v.push(t);
                    q = q2;
                    i = i + 1;
                },
            }
        }
        proof {
            assert(tags_model(v@) + Seq::<Nbt>::empty() =~= tags_model(v@));
            assert(Tag::List(ek, v)@ == Nbt::List(ek, tags_model(v@))) by {
                assert(Tag::List(ek, v)@->List_1 =~= tags_model(v@));
            }
        }
        Ok((Tag::List(ek, v), q))
    } else if k == COMPOUND_ID {
        let mut v: Vec<Entry> = Vec::new();
        let mut q: usize = p;
        proof {
            assert(entries_model(v@) =~= Seq::<(Seq<u8>, Nbt)>::empty());
            lemma_prepend_empty(parse_entries(b@, q as int));
        }
        loop
            invariant
                p <= q <= b@.len(),
                len == b@.len(),
                k == COMPOUND_ID,
                parse_entries(b@, p as int) == prepend(entries_model(v@), parse_entries(b@, q as int)),
            decreases b@.len() - q,
        {
            if q >= len {
                return Err(DecodeError::TruncatedInput(q));
            }
            if b[q] == END_ID {
                proof {
                    assert(entries_model(v@) + Seq::<(Seq<u8>, Nbt)>::empty() =~= entries_model(v@));
                    assert(Tag::Compound(v)@ == Nbt::Compound(entries_model(v@))) by {
                        assert(Tag::Compound(v)@->Compound_0 =~= entries_model(v@));
                    }
                }
                return Ok((Tag::Compound(v), q + 1));
            }
            match read_named(b, q) {
                Err(x) => {
                    return Err(x);
                },
                Ok((ent, q2)) => {
                    proof {
                        lemma_prepend_assoc(entries_model(v@), seq![(ent.name@, ent.value@)], parse_entries(b@, q2 as int));
                        assert(entries_model(v@.push(ent)) =~= entries_model(v@) + seq![(ent.name@, ent.value@)]);
                    }
                    v.push(ent);
                    q = q2;
                },
            }
        }
    } else {
        Err(DecodeError::UnknownTagId(k))
    }
}

/// Reads a named node at offset `p`; returns it and the offset just past it.
pub fn read_named(b: &[u8], p: usize) -> (r: Result<(Entry, usize), DecodeError>)
    requires
        p <= b@.len(),
    ensures
        named_res(r, parse_named(b@, p as int)),
        r matches Ok((_, e)) ==> p < e <= b@.len(),
    decreases b@.len() - p, 0nat,
{
    let len = b.len();
    if len - p < 1 {
        return Err(DecodeError::TruncatedInput(p));
    }
    let id = b[p];
    if id == END_ID || id > LONG_ARRAY_ID {
        return Err(DecodeError::UnknownTagId(id));
    }
    if len - p < 3 {
        return Err(DecodeError::TruncatedInput(p + 1));
    }
    let n = read_u16(b, p + 1) as usize;
    if len - (p + 3) < n {
        return Err(DecodeError::TruncatedInput(p + 3));
    }
    let name = copy_bytes(b, p + 3, n);
    match read_payload(b, p + 3 + n, id) {
        Err(x) => Err(x),
        Ok((value, e)) => Ok((Entry { name, value }, e)),
    }
}

/// Decodes the document at the start of `b`: its root node, and the number
/// of bytes that the root takes.
pub fn decode(b: &[u8]) -> (r: Result<(Entry, usize), DecodeError>)
    ensures
        named_res(r, parse_named(b@, 0)),
        r matches Ok((_, e)) ==> 0 < e <= b@.len(),
{
    read_named(b, 0)
}

fn write_bytes(out: &mut Vec<u8>, s: &Vec<u8>)
    ensures
        final(out)@ == old(out)@ + s@,
{
    let mut i: usize = 0;
    while i < s.len()
        invariant
            i <= s@.len(),
            out@ == old(out)@ + s@.take(i as int),
        decreases s@.len() - i,
    {
        out.push(s[i]);
        i = i + 1;
        assert(out@ =~= old(out)@ + s@.take(i as int));
    }
    assert(s@.take(i as int) =~= s@);
}

/// Appends the payload of `t`.
pub fn write_payload(t: &Tag, out: &mut Vec<u8>)
    requires
        wf(t@),
    ensures
        final(out)@ == old(out)@ + enc_payload(t@),
    decreases t,
{
    match t {
        Tag::Byte(x) => {
            out.push(*x as u8);
        },
        Tag::Short(x) => {
            write_u16(out, *x as u16);
        },
        Tag::Int(x) => {
            write_u32(out, *x as u32);
        },
        Tag::Long(x) => {
            write_u64(out, *x as u64);
        },
        Tag::Float(x) => {
            write_u32(out, *x);
        },
        Tag::Double(x) => {
            write_u64(out, *x);
        },
        Tag::Str(v) => {
            write_u16(out, v.len() as u16);
            write_bytes(out, v);
            assert(out@ =~= old(out)@ + enc_payload(t@));
        },
        Tag::ByteArray(v) => {
            write_u32(out, v.len() as u32);
            let ghost start = out@;
            let mut i: usize = 0;
            while i < v.len()
                invariant
                    i <= v@.len(),
                    out@ == start + enc_i8s(v@.take(i as int)),
                decreases v@.len() - i,
            {
                out.push(v[i] as u8);
                assert(v@.take(i + 1).subrange(0, i as int) =~= v@.take(i as int));
                i = i + 1;
                assert(out@ =~= start + enc_i8s(v@.take(i as int)));
            }
            assert(v@.take(i as int) =~= v@);
            assert(out@ =~= old(out)@ + enc_payload(t@));
        },
        Tag::IntArray(v) => {
            write_u32(out, v.len() as u32);
            let ghost start = out@;
            let mut i: usize = 0;
            while i < v.len()
                invariant
                    i <= v@.len(),
                    out@ == start + enc_i32s(v@.take(i as int)),
                decreases v@.len() - i,
            {
                write_u32(out, v[i] as u32);
                assert(v@.take(i + 1).subrange(0, i as int) =~= v@.take(i as int));
                i = i + 1;
                assert(out@ =~= start + enc_i32s(v@.take(i as int)));
            }
            assert(v@.take(i as int) =~= v@);
            assert(out@ =~= old(out)@ + enc_payload(t@));
        },
        Tag::LongArray(v) => {
            write_u32(out, v.len() as u32);
            let ghost start = out@;
            let mut i: usize = 0;
            while i < v.len()
                invariant
                    i <= v@.len(),
                    out@ == start + enc_i64s(v@.take(i as int)),
                decreases v@.len() - i,
            {
                write_u64(out, v[i] as u64);
                assert(v@.take(i + 1).subrange(0, i as int) =~= v@.take(i as int));
                i = i + 1;
                assert(out@ =~= start + enc_i64s(v@.take(i as int)));
            }
            assert(v@.take(i as int) =~= v@);
            assert(out@ =~= old(out)@ + enc_payload(t@));
        },
        Tag::List(k, v) => {
            let ghost s = tags_model(v@);
            assert(t@ == Nbt::List(*k, s)) by {
                assert(t@->List_1 =~= s);
            }
            out.push(*k);
            write_u32(out, v.len() as u32);
            let ghost start = out@;
            let mut i: usize = 0;
            while i < v.len()
                invariant
                    i <= v@.len(),
                    s == tags_model(v@),
                    *t == Tag::List(*k, *v),
                    t@ == Nbt::List(*k, s),
                    wf(t@),
                    out@ == start + enc_items(s.take(i as int)),
                decreases v@.len() - i,
            {
                assert(s[i as int] == v[i as int]@);
                write_payload(&v[i], out);
                assert(s.take(i + 1).subrange(0, i as int) =~= s.take(i as int));
                i = i + 1;
                assert(out@ =~= start + enc_items(s.take(i as int)));
            }
            assert(s.take(i as int) =~= s);
            assert(out@ =~= old(out)@ + enc_payload(t@));
        },
        Tag::Compound(v) => {
            let ghost s = entries_model(v@);
            assert(t@ == Nbt::Compound(s)) by {
                assert(t@->Compound_0 =~= s);
            }
            let ghost start = out@;
            let mut i: usize = 0;
            while i < v.len()
                invariant
                    i <= v@.len(),
                    s == entries_model(v@),
                    *t == Tag::Compound(*v),
                    t@ == Nbt::Compound(s),
                    wf(t@),
                    out@ == start + enc_entries(s.take(i as int)),
                decreases v@.len() - i,
            {
                let e = &v[i];
                assert(s[i as int] == (e.name@, e.value@));
                proof {
                    lemma_wf_entry(s, i as int);
                }
                out.push(tag_id(&e.value));
                write_u16(out, e.name.len() as u16);
                write_bytes(out, &e.name);
                write_payload(&e.value, out);
                assert(s.take(i + 1).subrange(0, i as int) =~= s.take(i as int));
                i = i + 1;
                assert(out@ =~= start + enc_entries(s.take(i as int)));
            }
            assert(s.take(i as int) =~= s);
            out.push(END_ID);
            assert(out@ =~= old(out)@ + enc_payload(t@));
        },
    }
}

/// Encodes a document whose root is `root`.
pub fn encode(root: &Entry) -> (r: Vec<u8>)
    requires
        fits_u16(root.name@.len()),
        wf(root.value@),
    ensures
        r@ == enc_named(root.name@, root.value@),
{
    let mut out: Vec<u8> = Vec::new();
    out.push(tag_id(&root.value));
    write_u16(&mut out, root.name.len() as u16);
    write_bytes(&mut out, &root.name);
    write_payload(&root.value, &mut out);
    assert(out@ =~= enc_named(root.name@, root.value@));
    out
}

} // verus!
