//! What holds across the decoder and the encoder.
use vstd::prelude::*;
use crate::le::{u16_at, lemma_u16_at, lemma_u32_at, lemma_u64_at, u16_le, u32_at, u32_le, u64_at, u64_le};
use crate::layout::{
    enc_entries, enc_i32s, enc_i64s, enc_i8s, enc_items, enc_named, enc_payload, parse_entries,
    parse_items, parse_named, parse_payload, };
use crate::tag::{
    fits_u16, kind, lemma_wf_compound_intro, lemma_wf_entry, lemma_wf_list_intro, wf, COMPOUND_ID, LIST_ID, Nbt, BYTE_ARRAY_ID, END_ID, INT_ARRAY_ID,
    LONG_ARRAY_ID,
};

verus! {

proof fn lemma_split(b: Seq<u8>, p: int, x: Seq<u8>, y: Seq<u8>)
    requires
        0 <= p,
        p + x.len() + y.len() <= b.len(),
        b.subrange(p, p + x.len() + y.len()) == x + y,
    ensures
        b.subrange(p, p + x.len()) == x,
        b.subrange(p + x.len(), p + x.len() + y.len()) == y,
{
    let s = b.subrange(p, p + x.len() + y.len());
    assert(b.subrange(p, p + x.len()) =~= s.subrange(0, x.len() as int));
    assert((x + y).subrange(0, x.len() as int) =~= x);
    assert(b.subrange(p + x.len(), p + x.len() + y.len()) =~= s.subrange(
        x.len() as int,
        (x.len() + y.len()) as int,
    ));
    assert((x + y).subrange(x.len() as int, (x.len() + y.len()) as int) =~= y);
}

proof fn lemma_enc_i8s(s: Seq<i8>)
    ensures
        enc_i8s(s).len() == s.len(),
        forall|j: int| 0 <= j < s.len() ==> #[trigger] enc_i8s(s)[j] == s[j] as u8,
    decreases s.len(),
{
    if s.len() > 0 {
        let t = s.subrange(0, s.len() - 1);
        lemma_enc_i8s(t);
        assert forall|j: int| 0 <= j < s.len() implies #[trigger] enc_i8s(s)[j] == s[j] as u8 by {
            if j < s.len() - 1 {
                assert(t[j] == s[j]);
            }
        }
    }
}

proof fn lemma_enc_i32s(s: Seq<i32>)
    ensures
        enc_i32s(s).len() == 4 * s.len(),
        forall|j: int|
            0 <= j < s.len() ==> #[trigger] enc_i32s(s).subrange(4 * j, 4 * j + 4) == u32_le(
                s[j] as u32,
            ),
    decreases s.len(),
{
    if s.len() > 0 {
        let t = s.subrange(0, s.len() - 1);
        lemma_enc_i32s(t);
        let e = enc_i32s(s);
        assert forall|j: int| 0 <= j < s.len() implies #[trigger] e.subrange(4 * j, 4 * j + 4)
            == u32_le(s[j] as u32) by {
            if j < s.len() - 1 {
                assert(t[j] == s[j]);
                assert(e.subrange(4 * j, 4 * j + 4) =~= enc_i32s(t).subrange(4 * j, 4 * j + 4));
            } else {
                assert(e.subrange(4 * j, 4 * j + 4) =~= u32_le(s[j] as u32));
            }
        }
    }
}

proof fn lemma_enc_i64s(s: Seq<i64>)
    ensures
        enc_i64s(s).len() == 8 * s.len(),
        forall|j: int|
            0 <= j < s.len() ==> #[trigger] enc_i64s(s).subrange(8 * j, 8 * j + 8) == u64_le(
                s[j] as u64,
            ),
    decreases s.len(),
{
    if s.len() > 0 {
        let t = s.subrange(0, s.len() - 1);
        lemma_enc_i64s(t);
        let e = enc_i64s(s);
        assert forall|j: int| 0 <= j < s.len() implies #[trigger] e.subrange(8 * j, 8 * j + 8)
            == u64_le(s[j] as u64) by {
            if j < s.len() - 1 {
                assert(t[j] == s[j]);
                assert(e.subrange(8 * j, 8 * j + 8) =~= enc_i64s(t).subrange(8 * j, 8 * j + 8));
            } else {
                assert(e.subrange(8 * j, 8 * j + 8) =~= u64_le(s[j] as u64));
            }
        }
    }
}

/// The items of a list, written front first.
proof fn lemma_enc_items_front(s: Seq<Nbt>)
    requires
        s.len() > 0,
    ensures
        enc_items(s) == enc_payload(s[0]) + enc_items(s.subrange(1, s.len() as int)),
    decreases s.len(),
{
    let n = s.len() as int;
    if n == 1 {
        assert(s.subrange(0, 0) =~= Seq::<Nbt>::empty());
        assert(s.subrange(1, 1) =~= Seq::<Nbt>::empty());
        assert(enc_items(s) =~= enc_payload(s[0]) + enc_items(s.subrange(1, n)));
    } else {
        let t = s.subrange(0, n - 1);
        lemma_enc_items_front(t);
        let r = s.subrange(1, n);
        assert(r.subrange(0, r.len() - 1) =~= t.subrange(1, t.len() as int));
        assert(r[r.len() - 1] == s[n - 1]);
        assert(t[0] == s[0]);
        assert(enc_items(s) =~= enc_payload(s[0]) + enc_items(r));
    }
}

/// The children of a compound, written front first.
proof fn lemma_enc_entries_front(es: Seq<(Seq<u8>, Nbt)>)
    requires
        es.len() > 0,
    ensures
        enc_entries(es) == enc_named(es[0].0, es[0].1) + enc_entries(es.subrange(1, es.len() as int)),
    decreases es.len(),
{
    let n = es.len() as int;
    if n == 1 {
        assert(es.subrange(0, 0) =~= Seq::<(Seq<u8>, Nbt)>::empty());
        assert(es.subrange(1, 1) =~= Seq::<(Seq<u8>, Nbt)>::empty());
        assert(enc_entries(es) =~= enc_named(es[0].0, es[0].1) + enc_entries(es.subrange(1, n)));
    } else {
        let t = es.subrange(0, n - 1);
        lemma_enc_entries_front(t);
        let r = es.subrange(1, n);
        assert(r.subrange(0, r.len() - 1) =~= t.subrange(1, t.len() as int));
        assert(r[r.len() - 1] == es[n - 1]);
        assert(t[0] == es[0]);
        assert(enc_entries(es) =~= enc_named(es[0].0, es[0].1) + enc_entries(r));
    }
}

proof fn lemma_payload_nonempty(t: Nbt)
    ensures
        enc_payload(t).len() >= 1,
{
    match t {
        Nbt::Compound(es) => {
            assert(enc_payload(t) == enc_entries(es) + seq![END_ID]);
        },
        _ => {},
    }
}

proof fn lemma_parse_payload(t: Nbt, b: Seq<u8>, p: int)
    requires
        wf(t),
        0 <= p,
        p + enc_payload(t).len() <= b.len(),
        b.subrange(p, p + enc_payload(t).len()) == enc_payload(t),
    ensures
        parse_payload(b, p, kind(t)) == Ok::<(Nbt, int), crate::layout::DecodeError>((t, p + enc_payload(t).len())),
    decreases t,
{
    let e = enc_payload(t);
    let n = e.len() as int;
    assert forall|i: int| 0 <= i < n implies b[p + i] == e[i] by {
        assert(b.subrange(p, p + n)[i] == b[p + i]);
    }
    match t {
        Nbt::Byte(x) => {
            assert(b[p] == e[0]);
            assert(((x as u8) as i8) == x) by (bit_vector);
            assert(parse_payload(b, p, kind(t)) == Ok::<(Nbt, int), crate::layout::DecodeError>((t, p + n)));
        },
        Nbt::Short(x) => {
            lemma_u16_at(b, p, x as u16);
            assert(((x as u16) as i16) == x) by (bit_vector);
            assert(parse_payload(b, p, kind(t)) == Ok::<(Nbt, int), crate::layout::DecodeError>((t, p + n)));
        },
        Nbt::Int(x) => {
            lemma_u32_at(b, p, x as u32);
            assert(((x as u32) as i32) == x) by (bit_vector);
            assert(parse_payload(b, p, kind(t)) == Ok::<(Nbt, int), crate::layout::DecodeError>((t, p + n)));
        },
        Nbt::Long(x) => {
            lemma_u64_at(b, p, x as u64);
            assert(((x as u64) as i64) == x) by (bit_vector);
            assert(parse_payload(b, p, kind(t)) == Ok::<(Nbt, int), crate::layout::DecodeError>((t, p + n)));
        },
        Nbt::Float(x) => {
            lemma_u32_at(b, p, x);
            assert(parse_payload(b, p, kind(t)) == Ok::<(Nbt, int), crate::layout::DecodeError>((t, p + n)));
        },
        Nbt::Double(x) => {
            lemma_u64_at(b, p, x);
            assert(parse_payload(b, p, kind(t)) == Ok::<(Nbt, int), crate::layout::DecodeError>((t, p + n)));
        },
        Nbt::Str(s) => {
            lemma_split(b, p, u16_le(s.len() as u16), s);
            lemma_u16_at(b, p, s.len() as u16);
            assert(parse_payload(b, p, kind(t)) == Ok::<(Nbt, int), crate::layout::DecodeError>((t, p + n)));
        },
        Nbt::ByteArray(s) => {
            let h = u32_le(s.len() as u32);
            lemma_enc_i8s(s);
            lemma_split(b, p, h, enc_i8s(s));
            lemma_u32_at(b, p, s.len() as u32);
            let d = p + 4;
            assert forall|j: int| 0 <= j < s.len() implies (b[d + j] as i8) == s[j] by {
                assert(b.subrange(d, d + s.len())[j] == b[d + j]);
                let y = s[j];
                assert(((y as u8) as i8) == y) by (bit_vector);
            }
            assert(Seq::new(s.len(), |j: int| b[d + j] as i8) =~= s);
            assert(parse_payload(b, p, kind(t)) == Ok::<(Nbt, int), crate::layout::DecodeError>((t, p + n)));
        },
        Nbt::IntArray(s) => {
            let h = u32_le(s.len() as u32);
            lemma_enc_i32s(s);
            lemma_split(b, p, h, enc_i32s(s));
            lemma_u32_at(b, p, s.len() as u32);
            let d = p + 4;
            assert forall|j: int| 0 <= j < s.len() implies (u32_at(b, d + 4 * j) as i32) == s[j] by {
                assert(b.subrange(d + 4 * j, d + 4 * j + 4) =~= enc_i32s(s).subrange(4 * j, 4 * j + 4));
                lemma_u32_at(b, d + 4 * j, s[j] as u32);
                let y = s[j];
                assert(((y as u32) as i32) == y) by (bit_vector);
            }
            assert(Seq::new(s.len(), |j: int| u32_at(b, d + 4 * j) as i32) =~= s);
            assert(parse_payload(b, p, kind(t)) == Ok::<(Nbt, int), crate::layout::DecodeError>((t, p + n)));
        },
        Nbt::LongArray(s) => {
            let h = u32_le(s.len() as u32);
            lemma_enc_i64s(s);
            lemma_split(b, p, h, enc_i64s(s));
            lemma_u32_at(b, p, s.len() as u32);
            let d = p + 4;
            assert forall|j: int| 0 <= j < s.len() implies (u64_at(b, d + 8 * j) as i64) == s[j] by {
                assert(b.subrange(d + 8 * j, d + 8 * j + 8) =~= enc_i64s(s).subrange(8 * j, 8 * j + 8));
                lemma_u64_at(b, d + 8 * j, s[j] as u64);
                let y = s[j];
                assert(((y as u64) as i64) == y) by (bit_vector);
            }
            assert(Seq::new(s.len(), |j: int| u64_at(b, d + 8 * j) as i64) =~= s);
            assert(parse_payload(b, p, kind(t)) == Ok::<(Nbt, int), crate::layout::DecodeError>((t, p + n)));
        },
        Nbt::List(k, s) => {
            let h = seq![k] + u32_le(s.len() as u32);
            assert(e == h + enc_items(s));
            lemma_split(b, p, h, enc_items(s));
            lemma_split(b, p, seq![k], u32_le(s.len() as u32));
            lemma_u32_at(b, p + 1, s.len() as u32);
            assert(b[p] == b.subrange(p, p + 1)[0]);
            assert(b[p] == k);
            assert(u32_at(b, p + 1) as nat == s.len());
            lemma_parse_items(s, k, b, p + 5);
            assert(parse_items(b, p + 5, b[p], u32_at(b, p + 1) as nat) == Ok::<(Seq<Nbt>, int), crate::layout::DecodeError>((s, p + n)));
            assert(parse_payload(b, p, kind(t)) == Ok::<(Nbt, int), crate::layout::DecodeError>((t, p + n)));
        },
        Nbt::Compound(es) => {
            lemma_parse_entries(es, b, p);
            assert(parse_payload(b, p, kind(t)) == Ok::<(Nbt, int), crate::layout::DecodeError>((t, p + n)));
        },
    }
}

proof fn lemma_parse_items(s: Seq<Nbt>, k: u8, b: Seq<u8>, p: int)
    requires
        forall|i: int| 0 <= i < s.len() ==> kind(#[trigger] s[i]) == k && wf(s[i]),
        0 <= p,
        p + enc_items(s).len() <= b.len(),
        b.subrange(p, p + enc_items(s).len()) == enc_items(s),
    ensures
        parse_items(b, p, k, s.len()) == Ok::<(Seq<Nbt>, int), crate::layout::DecodeError>((s, p + enc_items(s).len())),
    decreases s,
{
    if s.len() > 0 {
        let n = s.len() as int;
        let rest = s.subrange(1, n);
        lemma_enc_items_front(s);
        lemma_split(b, p, enc_payload(s[0]), enc_items(rest));
        lemma_payload_nonempty(s[0]);
        lemma_parse_payload(s[0], b, p);
        let q = p + enc_payload(s[0]).len();
        assert(decreases_to!(s => rest)) by {
            vstd::seq::axiom_seq_subrange_decreases(s, 1, n);
        }
        assert forall|i: int| 0 <= i < rest.len() implies kind(#[trigger] rest[i]) == k && wf(rest[i]) by {
            assert(rest[i] == s[i + 1]);
        }
        lemma_parse_items(rest, k, b, q);
        assert(seq![s[0]] + rest =~= s);
    } else {
        assert(s =~= Seq::<Nbt>::empty());
    }
}

proof fn lemma_parse_entries(es: Seq<(Seq<u8>, Nbt)>, b: Seq<u8>, p: int)
    requires
        wf(Nbt::Compound(es)),
        0 <= p,
        p + enc_entries(es).len() + 1 <= b.len(),
        b.subrange(p, p + enc_entries(es).len() + 1) == enc_entries(es) + seq![END_ID],
    ensures
        parse_entries(b, p) == Ok::<(Seq<(Seq<u8>, Nbt)>, int), crate::layout::DecodeError>((es, p + enc_entries(es).len() + 1)),
    decreases es,
{
    let m = enc_entries(es).len() as int;
    assert(b[p + m] == b.subrange(p, p + m + 1)[m]);
    if es.len() > 0 {
        let n = es.len() as int;
        let rest = es.subrange(1, n);
        let (name, t) = es[0];
        lemma_wf_entry(es, 0);
        lemma_enc_entries_front(es);
        let h = seq![kind(t)] + u16_le(name.len() as u16) + name;
        assert(enc_named(name, t) == h + enc_payload(t));
        assert(enc_entries(es) + seq![END_ID] =~= h + (enc_payload(t) + (enc_entries(rest) + seq![END_ID])));
        lemma_split(b, p, h, enc_payload(t) + (enc_entries(rest) + seq![END_ID]));
        lemma_split(b, p + h.len(), enc_payload(t), enc_entries(rest) + seq![END_ID]);
        lemma_split(b, p, seq![kind(t)] + u16_le(name.len() as u16), name);
        lemma_split(b, p, seq![kind(t)], u16_le(name.len() as u16));
        assert(b[p] == b.subrange(p, p + 1)[0]);
        lemma_u16_at(b, p + 1, name.len() as u16);
        lemma_payload_nonempty(t);
        assert(decreases_to!(es => t)) by {
            assert(decreases_to!(es => es[0]));
        }
        lemma_parse_payload(t, b, p + h.len());
        let q = p + h.len() + enc_payload(t).len();
        assert(decreases_to!(es => rest)) by {
            vstd::seq::axiom_seq_subrange_decreases(es, 1, n);
        }
        assert forall|i: int| 0 <= i < rest.len() implies fits_u16((#[trigger] rest[i]).0.len()) && wf(rest[i].1) by {
            lemma_wf_entry(es, i + 1);
        }
        assert(wf(Nbt::Compound(rest))) by {
            reveal_with_fuel(wf, 2);
        }
        lemma_parse_entries(rest, b, q);
        assert(seq![(name, t)] + rest =~= es);
        assert(b[p] == kind(t));
        assert(u16_at(b, p + 1) == name.len());
        assert(b.subrange(p + 3, p + 3 + name.len()) == name);
        assert(parse_payload(b, p + 3 + name.len(), b[p]) == Ok::<(Nbt, int), crate::layout::DecodeError>((t, q)));
        assert(parse_named(b, p) == Ok::<((Seq<u8>, Nbt), int), crate::layout::DecodeError>(((name, t), q)));
        assert(q + enc_entries(rest).len() + 1 == p + enc_entries(es).len() + 1);
    } else {
        assert(es =~= Seq::<(Seq<u8>, Nbt)>::empty());
        assert(enc_entries(es) =~= Seq::<u8>::empty());
    }
}

/// Decoding the encoding of a well-formed document gives back its root name
/// and tree, and consumes the encoding exactly.
pub proof fn lemma_decode_encode(name: Seq<u8>, t: Nbt)
    requires
        fits_u16(name.len()),
        wf(t),
    ensures
        parse_named(enc_named(name, t), 0) == Ok::<((Seq<u8>, Nbt), int), crate::layout::DecodeError>(((name, t), enc_named(name, t).len() as int)),
{
    let b = enc_named(name, t);
    let h = seq![kind(t)] + u16_le(name.len() as u16) + name;
    assert(b == h + enc_payload(t));
    assert(b.subrange(0, b.len() as int) =~= b);
    lemma_split(b, 0, h, enc_payload(t));
    lemma_split(b, 0, seq![kind(t)] + u16_le(name.len() as u16), name);
    lemma_split(b, 0, seq![kind(t)], u16_le(name.len() as u16));
    lemma_u16_at(b, 1, name.len() as u16);
    lemma_parse_payload(t, b, h.len() as int);
}

proof fn lemma_payload_wf(b: Seq<u8>, p: int, k: u8)
    ensures
        parse_payload(b, p, k) matches Ok((t, e)) ==> wf(t) && kind(t) == k && p < e <= b.len(),
    decreases b.len() - p, 2nat, 0nat,
{
    if 0 <= p <= b.len() {
        if k == LIST_ID && p + 5 <= b.len() && b[p] <= LONG_ARRAY_ID {
            let n = u32_at(b, p + 1) as nat;
            lemma_items_wf(b, p + 5, b[p], n);
            if let Ok((s, e)) = parse_items(b, p + 5, b[p], n) {
                if b[p] == END_ID && n > 0 {
                    assert(parse_payload(b, p + 5, END_ID) is Err);
                }
                lemma_wf_list_intro(b[p], s);
            }
        } else if k == COMPOUND_ID {
            lemma_entries_wf(b, p);
            if let Ok((es, e)) = parse_entries(b, p) {
                lemma_wf_compound_intro(es);
            }
        }
    }
}

proof fn lemma_items_wf(b: Seq<u8>, p: int, k: u8, n: nat)
    ensures
        parse_items(b, p, k, n) matches Ok((s, e)) ==> s.len() == n && p <= e <= b.len() && (forall|i: int|
            0 <= i < s.len() ==> kind(#[trigger] s[i]) == k && wf(s[i])),
    decreases b.len() - p, 3nat, n,
{
    if 0 <= p <= b.len() && n > 0 {
        lemma_payload_wf(b, p, k);
        if let Ok((t, q)) = parse_payload(b, p, k) {
            if p < q <= b.len() {
                lemma_items_wf(b, q, k, (n - 1) as nat);
                if let Ok((s2, e)) = parse_items(b, q, k, (n - 1) as nat) {
                    let s = seq![t] + s2;
                    assert forall|i: int| 0 <= i < s.len() implies kind(#[trigger] s[i]) == k && wf(s[i]) by {
                        if i > 0 {
                            assert(s[i] == s2[i - 1]);
                        }
                    }
                }
            }
        }
    }
}

proof fn lemma_entries_wf(b: Seq<u8>, p: int)
    ensures
        parse_entries(b, p) matches Ok((es, e)) ==> p < e <= b.len() && (forall|i: int|
            0 <= i < es.len() ==> fits_u16((#[trigger] es[i]).0.len()) && wf(es[i].1)),
    decreases b.len() - p, 1nat, 0nat,
{
    if 0 <= p && p + 1 <= b.len() && b[p] != END_ID {
        lemma_named_wf(b, p);
        if let Ok((ne, q)) = parse_named(b, p) {
            if p < q <= b.len() {
                lemma_entries_wf(b, q);
                if let Ok((es2, e)) = parse_entries(b, q) {
                    let es = seq![ne] + es2;
                    assert forall|i: int| 0 <= i < es.len() implies fits_u16((#[trigger] es[i]).0.len()) && wf(es[i].1) by {
                        if i > 0 {
                            assert(es[i] == es2[i - 1]);
                        }
                    }
                }
            }
        }
    }
}

proof fn lemma_named_wf(b: Seq<u8>, p: int)
    ensures
        parse_named(b, p) matches Ok(((n, t), e)) ==> fits_u16(n.len()) && wf(t) && p < e <= b.len(),
    decreases b.len() - p, 0nat, 0nat,
{
    if 0 <= p && p + 3 <= b.len() && p + 3 + u16_at(b, p + 1) <= b.len() {
        lemma_payload_wf(b, p + 3 + u16_at(b, p + 1), b[p]);
    }
}

/// Every document that the decoder accepts is well formed, so the encoder
/// can write it back.
pub proof fn lemma_decoded_wf(b: Seq<u8>)
    ensures
        parse_named(b, 0) matches Ok(((n, t), e)) ==> fits_u16(n.len()) && wf(t) && 0 < e <= b.len(),
{
    lemma_named_wf(b, 0);
}

/// Round trip: a tree that the decoder produced, once encoded, decodes to the
/// same root name and tree, consuming exactly the encoding.
pub proof fn lemma_round_trip(b: Seq<u8>)
    ensures
        parse_named(b, 0) matches Ok(((n, t), _)) ==> parse_named(enc_named(n, t), 0) == Ok::<((Seq<u8>, Nbt), int), crate::layout::DecodeError>(((n, t), enc_named(n, t).len() as int)),
{
    lemma_decoded_wf(b);
    if let Ok(((n, t), _)) = parse_named(b, 0) {
        lemma_decode_encode(n, t);
    }
}

/// Re-encoding is stable: encoding a decoded tree, decoding that and encoding
/// again gives the same bytes.
pub proof fn lemma_reencode_stable(b: Seq<u8>)
    ensures
        parse_named(b, 0) matches Ok(((n, t), _)) ==> parse_named(enc_named(n, t), 0) matches Ok(((n2, t2), _)) && enc_named(n2, t2) == enc_named(n, t),
{
    lemma_round_trip(b);
}

/// An empty list of any declared kind decodes from its five-byte header (the
/// kind, then a zero count) to an empty list of that kind, and encodes back to
/// the same five bytes.
pub proof fn lemma_empty_list(k: u8)
    requires
        k <= LONG_ARRAY_ID,
    ensures
        parse_payload(seq![k, 0u8, 0u8, 0u8, 0u8], 0, LIST_ID) == Ok::<(Nbt, int), crate::layout::DecodeError>((Nbt::List(k, Seq::empty()), 5)),
        enc_payload(Nbt::List(k, Seq::empty())) == seq![k, 0u8, 0u8, 0u8, 0u8],
{
    let b = seq![k, 0u8, 0u8, 0u8, 0u8];
    assert(u32_at(b, 1) == 0) by {
        assert(b[1] == 0 && b[2] == 0 && b[3] == 0 && b[4] == 0);
        assert(((0u8 as u32) | ((0u8 as u32) << 8u32) | ((0u8 as u32) << 16u32) | ((0u8 as u32) << 24u32)) == 0u32) by (bit_vector);
    }
    assert(enc_items(Seq::<Nbt>::empty()) == Seq::<u8>::empty());
    assert(u32_le(0u32) == seq![0u8, 0u8, 0u8, 0u8]) by {
        assert(((0u32 >> 0u32) & 0xff) as u8 == 0u8 && ((0u32 >> 8u32) & 0xff) as u8 == 0u8 && ((0u32 >> 16u32) & 0xff) as u8 == 0u8 && ((0u32 >> 24u32) & 0xff) as u8 == 0u8) by (bit_vector);
    }
    assert(enc_payload(Nbt::List(k, Seq::empty())) =~= seq![k, 0u8, 0u8, 0u8, 0u8]);
}

/// An array whose count claims more elements than the bytes that remain fails
/// as truncated input, at the offset where its elements would start.
pub proof fn lemma_array_overrun(b: Seq<u8>, p: int, k: u8)
    requires
        k == BYTE_ARRAY_ID || k == INT_ARRAY_ID || k == LONG_ARRAY_ID,
        0 <= p,
        p + 4 <= b.len(),
        p + 4 + (if k == BYTE_ARRAY_ID { 1int } else if k == INT_ARRAY_ID { 4int } else { 8int }) * u32_at(b, p) > b.len(),
    ensures
        parse_payload(b, p, k) == Err::<(Nbt, int), crate::layout::DecodeError>(crate::layout::DecodeError::TruncatedInput((p + 4) as usize)),
{
}

} // verus!
