//! Reading and writing a level document as a whole.
use vstd::prelude::*;
use crate::codec::{decode, encode, entries_model, tags_model};
use crate::schema::{bind_level, lower_level, BindError, LevelDat};
use crate::layout::{enc_named, parse_named, DecodeError};
use crate::tag::{fits_u16, kind, lemma_wf_entry, lemma_wf_item, tag_id, wf, Entry, Nbt, Tag, END_ID, LONG_ARRAY_ID};

verus! {

/// Whether a tree can be encoded: the lengths fit their prefixes and every
/// list holds elements of its declared kind.
pub fn is_wf(t: &Tag) -> (r: bool)
    ensures
        r == wf(t@),
    decreases t,
{
    match t {
        Tag::ByteArray(v) => (v.len() as u64) < 0x1_0000_0000u64,
        Tag::IntArray(v) => (v.len() as u64) < 0x1_0000_0000u64,
        Tag::LongArray(v) => (v.len() as u64) < 0x1_0000_0000u64,
        Tag::Str(v) => v.len() < 0x1_0000,
        Tag::List(k, v) => {
            let ghost s = tags_model(v@);
            assert(t@ == Nbt::List(*k, s)) by {
                assert(t@->List_1 =~= s);
            }
            if !((v.len() as u64) < 0x1_0000_0000u64 && *k <= LONG_ARRAY_ID && (*k != END_ID || v.len() == 0)) {
                return false;
            }
            let mut i: usize = 0;
            while i < v.len()
                invariant
                    i <= v@.len(),
                    s == tags_model(v@),
                    *t == Tag::List(*k, *v),
                    t@ == Nbt::List(*k, s),
                    forall|j: int| 0 <= j < i ==> kind(#[trigger] s[j]) == *k && wf(s[j]),
                decreases v@.len() - i,
            {
                assert(s[i as int] == v[i as int]@);
                proof {
                    if wf(Nbt::List(*k, s)) {
                        lemma_wf_item(*k, s, i as int);
                    }
                }
                if tag_id(&v[i]) != *k {
                    assert(!wf(t@));
                    return false;
                }
                assert(decreases_to!(*t => *v));
                assert(decreases_to!(*v => v[i as int]));
                let ok = is_wf(&v[i]);
                if !ok {
                    return false;
                }
                i = i + 1;
            }
            proof {
                reveal_with_fuel(wf, 2);
            }
            true
        },
        Tag::Compound(v) => {
            let ghost s = entries_model(v@);
            assert(t@ == Nbt::Compound(s)) by {
                assert(t@->Compound_0 =~= s);
            }
            let mut i: usize = 0;
            while i < v.len()
                invariant
                    i <= v@.len(),
                    s == entries_model(v@),
                    *t == Tag::Compound(*v),
                    t@ == Nbt::Compound(s),
                    forall|j: int| 0 <= j < i ==> fits_u16((#[trigger] s[j]).0.len()) && wf(s[j].1),
                decreases v@.len() - i,
            {
                assert(s[i as int] == (v[i as int].name@, v[i as int].value@));
                let mut ok = v[i].name.len() < 0x1_0000;
                if ok {
                    assert(decreases_to!(*v => v[i as int]));
                    ok = is_wf(&v[i].value);
                }
                if !ok {
                    proof {
                        if wf(Nbt::Compound(s)) {
                            lemma_wf_entry(s, i as int);
                        }
                    }
                    return false;
                }
                i = i + 1;
            }
            proof {
                reveal_with_fuel(wf, 2);
            }
            true
        },
        _ => true,
    }
}

/// Why a level document could not be read.
#[derive(Debug, PartialEq, Eq, Structural, Clone, Copy)]
pub enum LoadError {
    Decode(DecodeError),
    Bind(BindError),
}

/// Decodes a level document and binds its root to the level record.
pub fn load_nbt(b: &[u8]) -> (r: Result<LevelDat, LoadError>)
    ensures
        match parse_named(b@, 0) {
            Err(x) => r == Err::<LevelDat, LoadError>(LoadError::Decode(x)),
            Ok(((_, m), _)) => match bind_level(m) {
                Err(y) => r == Err::<LevelDat, LoadError>(LoadError::Bind(y)),
                Ok(p) => r matches Ok(l) && lower_level(l) == p,
            },
        },
{
    match decode(b) {
        Err(x) => Err(LoadError::Decode(x)),
        Ok((root, _)) => match LevelDat::from_tag(&root.value) {
            Err(y) => Err(LoadError::Bind(y)),
            Ok(l) => Ok(l),
        },
    }
}

/// Encodes a level record as a document with an empty root name; `None` where
/// a length does not fit the format (a level name of 2^16 bytes or more, or a
/// list of 2^32 items or more).
pub fn save_level(l: &LevelDat) -> (r: Option<Vec<u8>>)
    ensures
        r is Some <==> wf(lower_level(*l)),
        r matches Some(v) ==> v@ == enc_named(Seq::empty(), lower_level(*l)),
{
    let t = l.to_tag();
    if !is_wf(&t) {
        return None;
    }
    let root = Entry { name: Vec::new(), value: t };
    assert(root.name@ =~= Seq::<u8>::empty());
    Some(encode(&root))
}

} // verus!
