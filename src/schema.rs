//! Typed records bound to a compound node, field by field.
//!
//! Binding looks each field of a record up by name (the first child of that
//! name), demands the exact kind and width that the record declares, and
//! checks enumerated fields against their legal values; the first field that
//! fails, in the record's own order, decides the error. Children that a record
//! does not name are dropped: lowering writes exactly the record's fields, in
//! its order. The spec function `bind_level` states what binding yields as the
//! node that the bound record lowers to.
#![allow(non_snake_case)]
use vstd::prelude::*;
use vstd::string::StringSliceAdditionalSpecFns;
use vstd::utf8::{decode_utf8, encode_utf8, valid_utf8, decode_utf8_encode_utf8};
use crate::codec::{entries_model, tags_model};
use crate::tag::{kind, Entry, Nbt, Tag, BYTE_ID, COMPOUND_ID, INT_ID, LIST_ID, LONG_ID, SHORT_ID, STRING_ID};

verus! {

/// Why a node does not fit a record shape.
#[derive(Debug, PartialEq, Eq, Structural, Clone, Copy)]
pub enum BindError {
    /// A field of the shape is not among the compound's children.
    MissingField,
    /// A node is not of the kind that the shape declares for it.
    FieldTypeMismatch,
    /// An enumerated field holds an integer outside its legal set.
    InvalidEnumDiscriminant,
    /// A text field does not hold UTF-8.
    InvalidText,
}

/// The first child named `name`.
pub open spec fn lookup(es: Seq<(Seq<u8>, Nbt)>, name: Seq<u8>) -> Option<Nbt>
    decreases es.len(),
{
    if es.len() == 0 {
        None
    } else if es[0].0 == name {
        Some(es[0].1)
    } else {
        lookup(es.subrange(1, es.len() as int), name)
    }
}

/// The child named `name`, which must be of kind `k`.
pub open spec fn field(es: Seq<(Seq<u8>, Nbt)>, name: Seq<u8>, k: u8) -> Result<Nbt, BindError> {
    match lookup(es, name) {
        None => Err(BindError::MissingField),
        Some(v) => if kind(v) == k {
            Ok(v)
        } else {
            Err(BindError::FieldTypeMismatch)
        },
    }
}

/// A bound field in front of the fields bound after it; the first error wins.
pub open spec fn join(
    name: Seq<u8>,
    r: Result<Nbt, BindError>,
    rest: Result<Seq<(Seq<u8>, Nbt)>, BindError>,
) -> Result<Seq<(Seq<u8>, Nbt)>, BindError> {
    match r {
        Err(e) => Err(e),
        Ok(v) => match rest {
            Err(e) => Err(e),
            Ok(s) => Ok(seq![(name, v)] + s),
        },
    }
}

pub open spec fn done() -> Result<Seq<(Seq<u8>, Nbt)>, BindError> {
    Ok(Seq::empty())
}

pub open spec fn compound_of(r: Result<Seq<(Seq<u8>, Nbt)>, BindError>) -> Result<Nbt, BindError> {
    match r {
        Ok(s) => Ok(Nbt::Compound(s)),
        Err(e) => Err(e),
    }
}

/// The children of a compound node.
pub open spec fn children(m: Nbt) -> Result<Seq<(Seq<u8>, Nbt)>, BindError> {
    match m {
        Nbt::Compound(es) => Ok(es),
        _ => Err(BindError::FieldTypeMismatch),
    }
}

/// An enumerated field of kind `k` whose legal values are 0 and 1.
pub open spec fn flag_field(es: Seq<(Seq<u8>, Nbt)>, name: Seq<u8>, k: u8) -> Result<Nbt, BindError> {
    match field(es, name, k) {
        Ok(Nbt::Byte(x)) => if x == 0 || x == 1 {
            Ok(Nbt::Byte(x))
        } else {
            Err(BindError::InvalidEnumDiscriminant)
        },
        Ok(Nbt::Int(x)) => if x == 0 || x == 1 {
            Ok(Nbt::Int(x))
        } else {
            Err(BindError::InvalidEnumDiscriminant)
        },
        other => other,
    }
}

/// A boolean field: a byte, of which any value but 0 reads as true.
pub open spec fn bool_field(es: Seq<(Seq<u8>, Nbt)>, name: Seq<u8>) -> Result<Nbt, BindError> {
    match field(es, name, BYTE_ID) {
        Ok(Nbt::Byte(x)) => Ok(Nbt::Byte(if x != 0 { 1 } else { 0 })),
        other => other,
    }
}

/// A text field: a string node holding UTF-8.
pub open spec fn text_field(es: Seq<(Seq<u8>, Nbt)>, name: Seq<u8>) -> Result<Nbt, BindError> {
    match field(es, name, STRING_ID) {
        Ok(Nbt::Str(s)) => if valid_utf8(s) {
            Ok(Nbt::Str(s))
        } else {
            Err(BindError::InvalidText)
        },
        other => other,
    }
}

/// A list field whose elements are compounds, each bound by `f`.
pub open spec fn record_list_field(
    es: Seq<(Seq<u8>, Nbt)>,
    name: Seq<u8>,
    f: spec_fn(Nbt) -> Result<Nbt, BindError>,
) -> Result<Nbt, BindError> {
    match field(es, name, LIST_ID) {
        Ok(Nbt::List(k, s)) => if k != COMPOUND_ID {
            Err(BindError::FieldTypeMismatch)
        } else {
            match bind_each(s, f) {
                Ok(s2) => Ok(Nbt::List(COMPOUND_ID, s2)),
                Err(e) => Err(e),
            }
        },
        other => other,
    }
}

/// Binds every element with `f`; the first error wins.
pub open spec fn bind_each(s: Seq<Nbt>, f: spec_fn(Nbt) -> Result<Nbt, BindError>) -> Result<
    Seq<Nbt>,
    BindError,
>
    decreases s.len(),
{
    if s.len() == 0 {
        Ok(Seq::empty())
    } else {
        match f(s[0]) {
            Err(e) => Err(e),
            Ok(v) => match bind_each(s.subrange(1, s.len() as int), f) {
                Ok(r) => Ok(seq![v] + r),
                Err(e) => Err(e),
            },
        }
    }
}

/// The child named `name`, bound by `f`.
pub open spec fn record_field(
    es: Seq<(Seq<u8>, Nbt)>,
    name: Seq<u8>,
    f: spec_fn(Nbt) -> Result<Nbt, BindError>,
) -> Result<Nbt, BindError> {
    match field(es, name, COMPOUND_ID) {
        Ok(v) => f(v),
        other => other,
    }
}

/// Every element of `s` in front of the elements of a successful binding.
pub open spec fn cons_all(s: Seq<Nbt>, r: Result<Seq<Nbt>, BindError>) -> Result<Seq<Nbt>, BindError> {
    match r {
        Ok(s2) => Ok(s + s2),
        Err(e) => Err(e),
    }
}

fn same_bytes(a: &[u8], b: &[u8]) -> (r: bool)
    ensures
        r == (a@ == b@),
{
    if a.len() != b.len() {
        return false;
    }
    let mut i: usize = 0;
    while i < a.len()
        invariant
            i <= a@.len(),
            a@.len() == b@.len(),
            a@.take(i as int) == b@.take(i as int),
        decreases a@.len() - i,
    {
        if a[i] != b[i] {
            assert(a@[i as int] != b@[i as int]);
            return false;
        }
        i = i + 1;
        assert(a@.take(i as int) =~= b@.take(i as int)) by {
            assert(a@.take(i as int) =~= a@.take(i - 1).push(a@[i - 1]));
            assert(b@.take(i as int) =~= b@.take(i - 1).push(b@[i - 1]));
        }
    }
    assert(a@ =~= a@.take(i as int));
    assert(b@ =~= b@.take(i as int));
    true
}

/// The bytes of a name.
fn name_bytes(s: &str) -> (r: Vec<u8>)
    ensures
        r@ == s.spec_bytes(),
{
    let b = s.as_bytes();
    let mut v: Vec<u8> = Vec::new();
    let mut i: usize = 0;
    while i < b.len()
        invariant
            i <= b@.len(),
            v@ == b@.take(i as int),
        decreases b@.len() - i,
    {
        v.push(b[i]);
        i = i + 1;
        assert(v@ =~= b@.take(i as int));
    }
    assert(b@.take(i as int) =~= b@);
    v
}

/// The first child named `name`.
pub fn find<'a>(es: &'a Vec<Entry>, name: &[u8]) -> (r: Option<&'a Tag>)
    ensures
        match r {
            Some(t) => lookup(entries_model(es@), name@) == Some(t@),
            None => lookup(entries_model(es@), name@) is None,
        },
{
    let ghost m = entries_model(es@);
    let mut i: usize = 0;
    assert(m.subrange(0, m.len() as int) =~= m);
    while i < es.len()
        invariant
            i <= es@.len(),
            m == entries_model(es@),
            lookup(m, name@) == lookup(m.subrange(i as int, m.len() as int), name@),
        decreases es@.len() - i,
    {
        let ghost rest = m.subrange(i as int, m.len() as int);
        assert(rest[0] == m[i as int]);
        if same_bytes(es[i].name.as_slice(), name) {
            return Some(&es[i].value);
        }
        assert(rest.subrange(1, rest.len() as int) =~= m.subrange(i + 1, m.len() as int));
        i = i + 1;
    }
    None
}

/// The child named `name`, which must be of kind `k`.
fn get_field<'a>(es: &'a Vec<Entry>, name: &str, k: u8) -> (r: Result<&'a Tag, BindError>)
    ensures
        match r {
            Ok(t) => field(entries_model(es@), name.spec_bytes(), k) == Ok::<Nbt, BindError>(t@),
            Err(e) => field(entries_model(es@), name.spec_bytes(), k) == Err::<Nbt, BindError>(e),
        },
{
    match find(es, name.as_bytes()) {
        None => Err(BindError::MissingField),
        Some(t) => if crate::tag::tag_id(t) == k {
            Ok(t)
        } else {
            Err(BindError::FieldTypeMismatch)
        },
    }
}

fn get_i8(es: &Vec<Entry>, name: &str) -> (r: Result<i8, BindError>)
    ensures
        match r {
            Ok(x) => field(entries_model(es@), name.spec_bytes(), BYTE_ID) == Ok::<Nbt, BindError>(Nbt::Byte(x)),
            Err(e) => field(entries_model(es@), name.spec_bytes(), BYTE_ID) == Err::<Nbt, BindError>(e),
        },
{
    match get_field(es, name, BYTE_ID)? {
        Tag::Byte(x) => Ok(*x),
        _ => Err(BindError::FieldTypeMismatch),
    }
}

fn get_i16(es: &Vec<Entry>, name: &str) -> (r: Result<i16, BindError>)
    ensures
        match r {
            Ok(x) => field(entries_model(es@), name.spec_bytes(), SHORT_ID) == Ok::<Nbt, BindError>(Nbt::Short(x)),
            Err(e) => field(entries_model(es@), name.spec_bytes(), SHORT_ID) == Err::<Nbt, BindError>(e),
        },
{
    match get_field(es, name, SHORT_ID)? {
        Tag::Short(x) => Ok(*x),
        _ => Err(BindError::FieldTypeMismatch),
    }
}

fn get_i32(es: &Vec<Entry>, name: &str) -> (r: Result<i32, BindError>)
    ensures
        match r {
            Ok(x) => field(entries_model(es@), name.spec_bytes(), INT_ID) == Ok::<Nbt, BindError>(Nbt::Int(x)),
            Err(e) => field(entries_model(es@), name.spec_bytes(), INT_ID) == Err::<Nbt, BindError>(e),
        },
{
    match get_field(es, name, INT_ID)? {
        Tag::Int(x) => Ok(*x),
        _ => Err(BindError::FieldTypeMismatch),
    }
}

fn get_i64(es: &Vec<Entry>, name: &str) -> (r: Result<i64, BindError>)
    ensures
        match r {
            Ok(x) => field(entries_model(es@), name.spec_bytes(), LONG_ID) == Ok::<Nbt, BindError>(Nbt::Long(x)),
            Err(e) => field(entries_model(es@), name.spec_bytes(), LONG_ID) == Err::<Nbt, BindError>(e),
        },
{
    match get_field(es, name, LONG_ID)? {
        Tag::Long(x) => Ok(*x),
        _ => Err(BindError::FieldTypeMismatch),
    }
}

/// A byte field whose legal values are 0 and 1.
fn get_flag8(es: &Vec<Entry>, name: &str) -> (r: Result<i8, BindError>)
    ensures
        match r {
            Ok(x) => flag_field(entries_model(es@), name.spec_bytes(), BYTE_ID) == Ok::<Nbt, BindError>(Nbt::Byte(x)),
            Err(e) => flag_field(entries_model(es@), name.spec_bytes(), BYTE_ID) == Err::<Nbt, BindError>(e),
        },
{
    let x = get_i8(es, name)?;
    if x == 0 || x == 1 {
        Ok(x)
    } else {
        Err(BindError::InvalidEnumDiscriminant)
    }
}

/// An int field whose legal values are 0 and 1.
fn get_flag32(es: &Vec<Entry>, name: &str) -> (r: Result<i32, BindError>)
    ensures
        match r {
            Ok(x) => flag_field(entries_model(es@), name.spec_bytes(), INT_ID) == Ok::<Nbt, BindError>(Nbt::Int(x)),
            Err(e) => flag_field(entries_model(es@), name.spec_bytes(), INT_ID) == Err::<Nbt, BindError>(e),
        },
{
    let x = get_i32(es, name)?;
    if x == 0 || x == 1 {
        Ok(x)
    } else {
        Err(BindError::InvalidEnumDiscriminant)
    }
}

fn get_bool(es: &Vec<Entry>, name: &str) -> (r: Result<bool, BindError>)
    ensures
        match r {
            Ok(x) => bool_field(entries_model(es@), name.spec_bytes()) == Ok::<Nbt, BindError>(Nbt::Byte(if x { 1 } else { 0 })),
            Err(e) => bool_field(entries_model(es@), name.spec_bytes()) == Err::<Nbt, BindError>(e),
        },
{
    let x = get_i8(es, name)?;
    Ok(x != 0)
}

/// Relies on `String::from_utf8`: it succeeds exactly on UTF-8 input and
/// then holds the characters that the bytes encode.
#[verifier::external_body]
fn text_of(b: Vec<u8>) -> (r: Option<String>)
    ensures
        r is Some <==> valid_utf8(b@),
        r matches Some(s) ==> s@ == decode_utf8(b@),
{
    String::from_utf8(b).ok()
}

fn get_text(es: &Vec<Entry>, name: &str) -> (r: Result<String, BindError>)
    ensures
        match r {
            Ok(x) => text_field(entries_model(es@), name.spec_bytes()) == Ok::<Nbt, BindError>(Nbt::Str(encode_utf8(x@))),
            Err(e) => text_field(entries_model(es@), name.spec_bytes()) == Err::<Nbt, BindError>(e),
        },
{
    match get_field(es, name, STRING_ID)? {
        Tag::Str(v) => match text_of(v.clone()) {
            Some(s) => {
                proof {
                    decode_utf8_encode_utf8(v@);
                }
                Ok(s)
            },
            None => Err(BindError::InvalidText),
        },
        _ => Err(BindError::FieldTypeMismatch),
    }
}

/// The bytes of a text value.
fn text_bytes(s: &String) -> (r: Vec<u8>)
    ensures
        r@ == encode_utf8(s@),
{
    name_bytes(s.as_str())
}

/// A named field in front of the ones after it.
pub open spec fn fld(name: &str, v: Nbt, rest: Seq<(Seq<u8>, Nbt)>) -> Seq<(Seq<u8>, Nbt)> {
    seq![(name.spec_bytes(), v)] + rest
}

fn entry(name: &str, value: Tag) -> (r: Entry)
    ensures
        r.name@ == name.spec_bytes(),
        r.value == value,
{
    Entry { name: name_bytes(name), value }
}

/// The node of a compound whose children are `v`.
proof fn lemma_compound_model(v: Vec<Entry>)
    ensures
        Tag::Compound(v)@ == Nbt::Compound(entries_model(v@)),
{
    assert(Tag::Compound(v)@->Compound_0 =~= entries_model(v@));
}

proof fn lemma_list_model(k: u8, v: Vec<Tag>)
    ensures
        Tag::List(k, v)@ == Nbt::List(k, tags_model(v@)),
{
    assert(Tag::List(k, v)@->List_1 =~= tags_model(v@));
}

proof fn lemma_cons_assoc(s: Seq<Nbt>, t: Seq<Nbt>, r: Result<Seq<Nbt>, BindError>)
    ensures
        cons_all(s, cons_all(t, r)) == cons_all(s + t, r),
{
    match r {
        Ok(u) => assert(s + (t + u) =~= (s + t) + u),
        Err(_) => {},
    }
}

/// The abilities of a player.
#[derive(Debug, PartialEq, Eq, Structural, Clone, Copy)]
pub struct PlayerAbilities {
    pub mayfly: bool,
}

pub open spec fn bind_abilities(m: Nbt) -> Result<Nbt, BindError> {
    match children(m) {
        Err(e) => Err(e),
        Ok(es) => compound_of(join("mayfly".spec_bytes(), bool_field(es, "mayfly".spec_bytes()), done())),
    }
}

pub open spec fn lower_abilities(a: PlayerAbilities) -> Nbt {
    Nbt::Compound(fld("mayfly", Nbt::Byte(if a.mayfly { 1 } else { 0 }), Seq::empty()))
}

pub open spec fn abilities_binder() -> spec_fn(Nbt) -> Result<Nbt, BindError> {
    |m: Nbt| bind_abilities(m)
}

impl PlayerAbilities {
    /// Binds a compound node to the record.
    pub fn from_tag(t: &Tag) -> (r: Result<PlayerAbilities, BindError>)
        ensures
            match r {
                Ok(a) => bind_abilities(t@) == Ok::<Nbt, BindError>(lower_abilities(a)),
                Err(e) => bind_abilities(t@) == Err::<Nbt, BindError>(e),
            },
    {
        let es = match t {
            Tag::Compound(es) => es,
            _ => return Err(BindError::FieldTypeMismatch),
        };
        proof {
            lemma_compound_model(*es);
        }
        let mayfly = get_bool(es, "mayfly")?;
        Ok(PlayerAbilities { mayfly })
    }

    /// The compound node of the record.
    pub fn to_tag(&self) -> (r: Tag)
        ensures
            r@ == lower_abilities(*self),
    {
        let mut v: Vec<Entry> = Vec::new();
        v.push(entry("mayfly", Tag::Byte(if self.mayfly { 1 } else { 0 })));
        proof {
            lemma_compound_model(v);
            assert(entries_model(v@) =~= lower_abilities(*self)->Compound_0);
        }
        Tag::Compound(v)
    }
}

/// A piece of armor that the player wears.
#[derive(Debug, PartialEq, Eq, Structural, Clone, Copy)]
pub struct ArmorItem {
    pub id: i16,
    pub Count: i8,
    pub Damage: i16,
}

pub open spec fn bind_armor(m: Nbt) -> Result<Nbt, BindError> {
    match children(m) {
        Err(e) => Err(e),
        Ok(es) => compound_of(
            join(
                "id".spec_bytes(),
                field(es, "id".spec_bytes(), SHORT_ID),
                join(
                    "Count".spec_bytes(),
                    field(es, "Count".spec_bytes(), BYTE_ID),
                    join("Damage".spec_bytes(), field(es, "Damage".spec_bytes(), SHORT_ID), done()),
                ),
            ),
        ),
    }
}

pub open spec fn lower_armor(a: ArmorItem) -> Nbt {
    Nbt::Compound(
        fld(
            "id",
            Nbt::Short(a.id),
            fld("Count", Nbt::Byte(a.Count), fld("Damage", Nbt::Short(a.Damage), Seq::empty())),
        ),
    )
}

pub open spec fn armor_binder() -> spec_fn(Nbt) -> Result<Nbt, BindError> {
    |m: Nbt| bind_armor(m)
}

pub open spec fn armor_models(v: Seq<ArmorItem>) -> Seq<Nbt> {
    Seq::new(v.len(), |i: int| lower_armor(v[i]))
}

impl ArmorItem {
    /// Binds a compound node to the record.
    pub fn from_tag(t: &Tag) -> (r: Result<ArmorItem, BindError>)
        ensures
            match r {
                Ok(a) => bind_armor(t@) == Ok::<Nbt, BindError>(lower_armor(a)),
                Err(e) => bind_armor(t@) == Err::<Nbt, BindError>(e),
            },
    {
        let es = match t {
            Tag::Compound(es) => es,
            _ => return Err(BindError::FieldTypeMismatch),
        };
        proof {
            lemma_compound_model(*es);
        }
        let id = get_i16(es, "id")?;
        let Count = get_i8(es, "Count")?;
        let Damage = get_i16(es, "Damage")?;
        Ok(ArmorItem { id, Count, Damage })
    }

    /// The compound node of the record.
    pub fn to_tag(&self) -> (r: Tag)
        ensures
            r@ == lower_armor(*self),
    {
        let mut v: Vec<Entry> = Vec::new();
        v.push(entry("id", Tag::Short(self.id)));
        v.push(entry("Count", Tag::Byte(self.Count)));
        v.push(entry("Damage", Tag::Short(self.Damage)));
        proof {
            lemma_compound_model(v);
            assert(entries_model(v@) =~= lower_armor(*self)->Compound_0);
        }
        Tag::Compound(v)
    }
}

/// An item that the player carries.
#[derive(Debug, PartialEq, Eq, Structural, Clone, Copy)]
pub struct InventoryItem {
    pub Slot: i8,
    pub id: i16,
    pub Count: i8,
    pub Damage: i16,
}

pub open spec fn bind_inventory(m: Nbt) -> Result<Nbt, BindError> {
    match children(m) {
        Err(e) => Err(e),
        Ok(es) => compound_of(
            join(
                "Slot".spec_bytes(),
                field(es, "Slot".spec_bytes(), BYTE_ID),
                join(
                    "id".spec_bytes(),
                    field(es, "id".spec_bytes(), SHORT_ID),
                    join(
                        "Count".spec_bytes(),
                        field(es, "Count".spec_bytes(), BYTE_ID),
                        join("Damage".spec_bytes(), field(es, "Damage".spec_bytes(), SHORT_ID), done()),
                    ),
                ),
            ),
        ),
    }
}

pub open spec fn lower_inventory(a: InventoryItem) -> Nbt {
    Nbt::Compound(
        fld(
            "Slot",
            Nbt::Byte(a.Slot),
            fld(
                "id",
                Nbt::Short(a.id),
                fld("Count", Nbt::Byte(a.Count), fld("Damage", Nbt::Short(a.Damage), Seq::empty())),
            ),
        ),
    )
}

pub open spec fn inventory_binder() -> spec_fn(Nbt) -> Result<Nbt, BindError> {
    |m: Nbt| bind_inventory(m)
}

pub open spec fn inventory_models(v: Seq<InventoryItem>) -> Seq<Nbt> {
    Seq::new(v.len(), |i: int| lower_inventory(v[i]))
}

impl InventoryItem {
    /// Binds a compound node to the record.
    pub fn from_tag(t: &Tag) -> (r: Result<InventoryItem, BindError>)
        ensures
            match r {
                Ok(a) => bind_inventory(t@) == Ok::<Nbt, BindError>(lower_inventory(a)),
                Err(e) => bind_inventory(t@) == Err::<Nbt, BindError>(e),
            },
    {
        let es = match t {
            Tag::Compound(es) => es,
            _ => return Err(BindError::FieldTypeMismatch),
        };
        proof {
            lemma_compound_model(*es);
        }
        let Slot = get_i8(es, "Slot")?;
        let id = get_i16(es, "id")?;
        let Count = get_i8(es, "Count")?;
        let Damage = get_i16(es, "Damage")?;
        Ok(InventoryItem { Slot, id, Count, Damage })
    }

    /// The compound node of the record.
    pub fn to_tag(&self) -> (r: Tag)
        ensures
            r@ == lower_inventory(*self),
    {
        let mut v: Vec<Entry> = Vec::new();
        v.push(entry("Slot", Tag::Byte(self.Slot)));
        v.push(entry("id", Tag::Short(self.id)));
        v.push(entry("Count", Tag::Byte(self.Count)));
        v.push(entry("Damage", Tag::Short(self.Damage)));
        proof {
            lemma_compound_model(v);
            assert(entries_model(v@) =~= lower_inventory(*self)->Compound_0);
        }
        Tag::Compound(v)
    }
}

fn bind_armor_list(items: &Vec<Tag>) -> (r: Result<Vec<ArmorItem>, BindError>)
    ensures
        match r {
            Ok(v) => bind_each(tags_model(items@), armor_binder()) == Ok::<Seq<Nbt>, BindError>(armor_models(v@)),
            Err(e) => bind_each(tags_model(items@), armor_binder()) == Err::<Seq<Nbt>, BindError>(e),
        },
{
    let ghost tm = tags_model(items@);
    let mut out: Vec<ArmorItem> = Vec::new();
    let mut i: usize = 0;
    proof {
        assert(tm.subrange(0, tm.len() as int) =~= tm);
        assert(armor_models(out@) =~= Seq::<Nbt>::empty());
        match bind_each(tm, armor_binder()) {
            Ok(u) => assert(Seq::<Nbt>::empty() + u =~= u),
            Err(_) => {},
        }
    }
    while i < items.len()
        invariant
            i <= items@.len(),
            tm == tags_model(items@),
            bind_each(tm, armor_binder()) == cons_all(armor_models(out@), bind_each(tm.subrange(i as int, tm.len() as int), armor_binder())),
        decreases items@.len() - i,
    {
        let ghost rest = tm.subrange(i as int, tm.len() as int);
        assert(rest[0] == items[i as int]@);
        assert(rest.subrange(1, rest.len() as int) =~= tm.subrange(i + 1, tm.len() as int));
        let x = ArmorItem::from_tag(&items[i])?;
        proof {
            lemma_cons_assoc(armor_models(out@), seq![lower_armor(x)], bind_each(tm.subrange(i + 1, tm.len() as int), armor_binder()));
            assert(armor_models(out@.push(x)) =~= armor_models(out@) + seq![lower_armor(x)]);
        }
        out.push(x);
        i = i + 1;
    }
    proof {
        assert(armor_models(out@) + Seq::<Nbt>::empty() =~= armor_models(out@));
    }
    Ok(out)
}

fn get_armor_list(es: &Vec<Entry>, name: &str) -> (r: Result<Vec<ArmorItem>, BindError>)
    ensures
        match r {
            Ok(v) => record_list_field(entries_model(es@), name.spec_bytes(), armor_binder()) == Ok::<Nbt, BindError>(Nbt::List(COMPOUND_ID, armor_models(v@))),
            Err(e) => record_list_field(entries_model(es@), name.spec_bytes(), armor_binder()) == Err::<Nbt, BindError>(e),
        },
{
    match get_field(es, name, LIST_ID)? {
        Tag::List(k, items) => {
            proof {
                lemma_list_model(*k, *items);
            }
            if *k != COMPOUND_ID {
                return Err(BindError::FieldTypeMismatch);
            }
            let v = bind_armor_list(items)?;
            Ok(v)
        },
        _ => Err(BindError::FieldTypeMismatch),
    }
}

fn armor_list_tag(v: &Vec<ArmorItem>) -> (r: Tag)
    ensures
        r@ == Nbt::List(COMPOUND_ID, armor_models(v@)),
{
    let mut out: Vec<Tag> = Vec::new();
    let mut i: usize = 0;
    while i < v.len()
        invariant
            i <= v@.len(),
            tags_model(out@) == armor_models(v@.take(i as int)),
        decreases v@.len() - i,
    {
        let t = v[i].to_tag();
        let ghost before = tags_model(out@);
        out.push(t);
        assert(tags_model(out@) =~= before.push(t@));
        assert(armor_models(v@.take(i + 1)) =~= armor_models(v@.take(i as int)).push(t@));
        i = i + 1;
    }
    assert(v@.take(i as int) =~= v@);
    proof {
        lemma_list_model(COMPOUND_ID, out);
    }
    Tag::List(COMPOUND_ID, out)
}

fn bind_inventory_list(items: &Vec<Tag>) -> (r: Result<Vec<InventoryItem>, BindError>)
    ensures
        match r {
            Ok(v) => bind_each(tags_model(items@), inventory_binder()) == Ok::<Seq<Nbt>, BindError>(inventory_models(v@)),
            Err(e) => bind_each(tags_model(items@), inventory_binder()) == Err::<Seq<Nbt>, BindError>(e),
        },
{
    let ghost tm = tags_model(items@);
    let mut out: Vec<InventoryItem> = Vec::new();
    let mut i: usize = 0;
    proof {
        assert(tm.subrange(0, tm.len() as int) =~= tm);
        assert(inventory_models(out@) =~= Seq::<Nbt>::empty());
        match bind_each(tm, inventory_binder()) {
            Ok(u) => assert(Seq::<Nbt>::empty() + u =~= u),
            Err(_) => {},
        }
    }
    while i < items.len()
        invariant
            i <= items@.len(),
            tm == tags_model(items@),
            bind_each(tm, inventory_binder()) == cons_all(inventory_models(out@), bind_each(tm.subrange(i as int, tm.len() as int), inventory_binder())),
        decreases items@.len() - i,
    {
        let ghost rest = tm.subrange(i as int, tm.len() as int);
        assert(rest[0] == items[i as int]@);
        assert(rest.subrange(1, rest.len() as int) =~= tm.subrange(i + 1, tm.len() as int));
        let x = InventoryItem::from_tag(&items[i])?;
        proof {
            lemma_cons_assoc(inventory_models(out@), seq![lower_inventory(x)], bind_each(tm.subrange(i + 1, tm.len() as int), inventory_binder()));
            assert(inventory_models(out@.push(x)) =~= inventory_models(out@) + seq![lower_inventory(x)]);
        }
        out.push(x);
        i = i + 1;
    }
    proof {
        assert(inventory_models(out@) + Seq::<Nbt>::empty() =~= inventory_models(out@));
    }
    Ok(out)
}

fn get_inventory_list(es: &Vec<Entry>, name: &str) -> (r: Result<Vec<InventoryItem>, BindError>)
    ensures
        match r {
            Ok(v) => record_list_field(entries_model(es@), name.spec_bytes(), inventory_binder()) == Ok::<Nbt, BindError>(Nbt::List(COMPOUND_ID, inventory_models(v@))),
            Err(e) => record_list_field(entries_model(es@), name.spec_bytes(), inventory_binder()) == Err::<Nbt, BindError>(e),
        },
{
    match get_field(es, name, LIST_ID)? {
        Tag::List(k, items) => {
            proof {
                lemma_list_model(*k, *items);
            }
            if *k != COMPOUND_ID {
                return Err(BindError::FieldTypeMismatch);
            }
            let v = bind_inventory_list(items)?;
            Ok(v)
        },
        _ => Err(BindError::FieldTypeMismatch),
    }
}

fn inventory_list_tag(v: &Vec<InventoryItem>) -> (r: Tag)
    ensures
        r@ == Nbt::List(COMPOUND_ID, inventory_models(v@)),
{
    let mut out: Vec<Tag> = Vec::new();
    let mut i: usize = 0;
    while i < v.len()
        invariant
            i <= v@.len(),
            tags_model(out@) == inventory_models(v@.take(i as int)),
        decreases v@.len() - i,
    {
        let t = v[i].to_tag();
        let ghost before = tags_model(out@);
        out.push(t);
        assert(tags_model(out@) =~= before.push(t@));
        assert(inventory_models(v@.take(i + 1)) =~= inventory_models(v@.take(i as int)).push(t@));
        i = i + 1;
    }
    assert(v@.take(i as int) =~= v@);
    proof {
        lemma_list_model(COMPOUND_ID, out);
    }
    Tag::List(COMPOUND_ID, out)
}

/// Whether the player was in a bed when the level was saved: 1 or 0.
#[derive(Debug, PartialEq, Eq, Structural, Clone, Copy)]
pub enum IsSleeping {
    Sleeping,
    NotSleeping,
}

/// The game mode: 0 or 1, written as an int.
#[derive(Debug, PartialEq, Eq, Structural, Clone, Copy)]
pub enum GameType {
    Survival,
    Creative,
}

/// Whether mobs spawn: 0 or 1, written as a byte.
#[derive(Debug, PartialEq, Eq, Structural, Clone, Copy)]
pub enum SpawnMobs {
    Disable,
    Enable,
}

pub open spec fn sleeping_value(s: IsSleeping) -> i8 {
    match s {
        IsSleeping::Sleeping => 1,
        IsSleeping::NotSleeping => 0,
    }
}

pub open spec fn game_type_value(g: GameType) -> i32 {
    match g {
        GameType::Survival => 0,
        GameType::Creative => 1,
    }
}

pub open spec fn spawn_mobs_value(s: SpawnMobs) -> i8 {
    match s {
        SpawnMobs::Disable => 0,
        SpawnMobs::Enable => 1,
    }
}

/// The player of a single-player level.
#[derive(Debug, Clone, PartialEq)]
pub struct Player {
    pub Armor: Vec<ArmorItem>,
    pub Dimension: i32,
    pub Inventory: Vec<InventoryItem>,
    pub Score: i32,
    pub Sleeping: IsSleeping,
    pub SleepTimer: i16,
    pub abilities: PlayerAbilities,
}

pub open spec fn bind_player(m: Nbt) -> Result<Nbt, BindError> {
    match children(m) {
        Err(e) => Err(e),
        Ok(es) => compound_of(
            join(
                "Armor".spec_bytes(),
                record_list_field(es, "Armor".spec_bytes(), armor_binder()),
                join(
                    "Dimension".spec_bytes(),
                    field(es, "Dimension".spec_bytes(), INT_ID),
                    join(
                        "Inventory".spec_bytes(),
                        record_list_field(es, "Inventory".spec_bytes(), inventory_binder()),
                        join(
                            "Score".spec_bytes(),
                            field(es, "Score".spec_bytes(), INT_ID),
                            join(
                                "Sleeping".spec_bytes(),
                                flag_field(es, "Sleeping".spec_bytes(), BYTE_ID),
                                join(
                                    "SleepTimer".spec_bytes(),
                                    field(es, "SleepTimer".spec_bytes(), SHORT_ID),
                                    join(
                                        "abilities".spec_bytes(),
                                        record_field(es, "abilities".spec_bytes(), abilities_binder()),
                                        done(),
                                    ),
                                ),
                            ),
                        ),
                    ),
                ),
            ),
        ),
    }
}

pub open spec fn lower_player(p: Player) -> Nbt {
    Nbt::Compound(
        fld(
            "Armor",
            Nbt::List(COMPOUND_ID, armor_models(p.Armor@)),
            fld(
                "Dimension",
                Nbt::Int(p.Dimension),
                fld(
                    "Inventory",
                    Nbt::List(COMPOUND_ID, inventory_models(p.Inventory@)),
                    fld(
                        "Score",
                        Nbt::Int(p.Score),
                        fld(
                            "Sleeping",
                            Nbt::Byte(sleeping_value(p.Sleeping)),
                            fld(
                                "SleepTimer",
                                Nbt::Short(p.SleepTimer),
                                fld("abilities", lower_abilities(p.abilities), Seq::empty()),
                            ),
                        ),
                    ),
                ),
            ),
        ),
    )
}

pub open spec fn player_binder() -> spec_fn(Nbt) -> Result<Nbt, BindError> {
    |m: Nbt| bind_player(m)
}

impl Player {
    /// Binds a compound node to the record.
    pub fn from_tag(t: &Tag) -> (r: Result<Player, BindError>)
        ensures
            match r {
                Ok(a) => bind_player(t@) == Ok::<Nbt, BindError>(lower_player(a)),
                Err(e) => bind_player(t@) == Err::<Nbt, BindError>(e),
            },
    {
        let es = match t {
            Tag::Compound(es) => es,
            _ => return Err(BindError::FieldTypeMismatch),
        };
        proof {
            lemma_compound_model(*es);
        }
        let Armor = get_armor_list(es, "Armor")?;
        let Dimension = get_i32(es, "Dimension")?;
        let Inventory = get_inventory_list(es, "Inventory")?;
        let Score = get_i32(es, "Score")?;
        let sleeping = get_flag8(es, "Sleeping")?;
        let is_sleeping = if sleeping == 1 {
            IsSleeping::Sleeping
        } else {
            IsSleeping::NotSleeping
        };
        let SleepTimer = get_i16(es, "SleepTimer")?;
        let at = get_field(es, "abilities", COMPOUND_ID)?;
        let abilities = PlayerAbilities::from_tag(at)?;
        Ok(Player { Armor, Dimension, Inventory, Score, Sleeping: is_sleeping, SleepTimer, abilities })
    }

    /// The compound node of the record.
    pub fn to_tag(&self) -> (r: Tag)
        ensures
            r@ == lower_player(*self),
    {
        let mut v: Vec<Entry> = Vec::new();
        v.push(entry("Armor", armor_list_tag(&self.Armor)));
        v.push(entry("Dimension", Tag::Int(self.Dimension)));
        v.push(entry("Inventory", inventory_list_tag(&self.Inventory)));
        v.push(entry("Score", Tag::Int(self.Score)));
        let sleeping: i8 = match self.Sleeping {
            IsSleeping::Sleeping => 1,
            IsSleeping::NotSleeping => 0,
        };
        v.push(entry("Sleeping", Tag::Byte(sleeping)));
        v.push(entry("SleepTimer", Tag::Short(self.SleepTimer)));
        v.push(entry("abilities", self.abilities.to_tag()));
        proof {
            lemma_compound_model(v);
            assert(entries_model(v@) =~= lower_player(*self)->Compound_0);
        }
        Tag::Compound(v)
    }
}

/// The level record of a single-player world: world settings and its player.
#[derive(Debug, Clone, PartialEq)]
pub struct LevelDat {
    pub GameType: GameType,
    pub LastPlayed: i64,
    pub LevelName: String,
    pub Platform: i32,
    pub Player: Player,
    pub RandomSeed: i64,
    pub SizeOnDisk: i64,
    pub SpawnX: i32,
    pub SpawnY: i32,
    pub SpawnZ: i32,
    pub StorageVersion: i32,
    pub Time: i64,
    pub dayCycleStopTime: i64,
    pub spawnMobs: SpawnMobs,
}

/// What binding a compound node to the level record yields: the node of the
/// record's fields, in the record's order, or the first failure.
pub open spec fn bind_level(m: Nbt) -> Result<Nbt, BindError> {
    match children(m) {
        Err(e) => Err(e),
        Ok(es) => compound_of(join("GameType".spec_bytes(), flag_field(es, "GameType".spec_bytes(), INT_ID), join("LastPlayed".spec_bytes(), field(es, "LastPlayed".spec_bytes(), LONG_ID), join("LevelName".spec_bytes(), text_field(es, "LevelName".spec_bytes()), join("Platform".spec_bytes(), field(es, "Platform".spec_bytes(), INT_ID), join("Player".spec_bytes(), record_field(es, "Player".spec_bytes(), player_binder()), join("RandomSeed".spec_bytes(), field(es, "RandomSeed".spec_bytes(), LONG_ID), join("SizeOnDisk".spec_bytes(), field(es, "SizeOnDisk".spec_bytes(), LONG_ID), join("SpawnX".spec_bytes(), field(es, "SpawnX".spec_bytes(), INT_ID), join("SpawnY".spec_bytes(), field(es, "SpawnY".spec_bytes(), INT_ID), join("SpawnZ".spec_bytes(), field(es, "SpawnZ".spec_bytes(), INT_ID), join("StorageVersion".spec_bytes(), field(es, "StorageVersion".spec_bytes(), INT_ID), join("Time".spec_bytes(), field(es, "Time".spec_bytes(), LONG_ID), join("dayCycleStopTime".spec_bytes(), field(es, "dayCycleStopTime".spec_bytes(), LONG_ID), join("spawnMobs".spec_bytes(), flag_field(es, "spawnMobs".spec_bytes(), BYTE_ID), done()))))))))))))))),
    }
}

/// The compound node of a level record.
pub open spec fn lower_level(l: LevelDat) -> Nbt {
    Nbt::Compound(fld("GameType", Nbt::Int(game_type_value(l.GameType)), fld("LastPlayed", Nbt::Long(l.LastPlayed), fld("LevelName", Nbt::Str(encode_utf8(l.LevelName@)), fld("Platform", Nbt::Int(l.Platform), fld("Player", lower_player(l.Player), fld("RandomSeed", Nbt::Long(l.RandomSeed), fld("SizeOnDisk", Nbt::Long(l.SizeOnDisk), fld("SpawnX", Nbt::Int(l.SpawnX), fld("SpawnY", Nbt::Int(l.SpawnY), fld("SpawnZ", Nbt::Int(l.SpawnZ), fld("StorageVersion", Nbt::Int(l.StorageVersion), fld("Time", Nbt::Long(l.Time), fld("dayCycleStopTime", Nbt::Long(l.dayCycleStopTime), fld("spawnMobs", Nbt::Byte(spawn_mobs_value(l.spawnMobs)), Seq::empty())))))))))))))))
}

impl LevelDat {
    /// Binds a compound node to the record.
    pub fn from_tag(t: &Tag) -> (r: Result<LevelDat, BindError>)
        ensures
            match r {
                Ok(a) => bind_level(t@) == Ok::<Nbt, BindError>(lower_level(a)),
                Err(e) => bind_level(t@) == Err::<Nbt, BindError>(e),
            },
    {
        let es = match t {
            Tag::Compound(es) => es,
            _ => return Err(BindError::FieldTypeMismatch),
        };
        proof {
            lemma_compound_model(*es);
        }
        let game_type = get_flag32(es, "GameType")?;
        let GameType = if game_type == 0 {
            GameType::Survival
        } else {
            GameType::Creative
        };
        let LastPlayed = get_i64(es, "LastPlayed")?;
        let LevelName = get_text(es, "LevelName")?;
        let Platform = get_i32(es, "Platform")?;
        let pt = get_field(es, "Player", COMPOUND_ID)?;
        let Player = Player::from_tag(pt)?;
        let RandomSeed = get_i64(es, "RandomSeed")?;
        let SizeOnDisk = get_i64(es, "SizeOnDisk")?;
        let SpawnX = get_i32(es, "SpawnX")?;
        let SpawnY = get_i32(es, "SpawnY")?;
        let SpawnZ = get_i32(es, "SpawnZ")?;
        let StorageVersion = get_i32(es, "StorageVersion")?;
        let Time = get_i64(es, "Time")?;
        let dayCycleStopTime = get_i64(es, "dayCycleStopTime")?;
        let spawn_mobs = get_flag8(es, "spawnMobs")?;
        let spawnMobs = if spawn_mobs == 0 {
            SpawnMobs::Disable
        } else {
            SpawnMobs::Enable
        };
        Ok(LevelDat {
            GameType,
            LastPlayed,
            LevelName,
            Platform,
            Player,
            RandomSeed,
            SizeOnDisk,
            SpawnX,
            SpawnY,
            SpawnZ,
            StorageVersion,
            Time,
            dayCycleStopTime,
            spawnMobs,
        })
    }

    /// The compound node of the record.
    pub fn to_tag(&self) -> (r: Tag)
        ensures
            r@ == lower_level(*self),
    {
        let mut v: Vec<Entry> = Vec::new();
        let game_type: i32 = match self.GameType {
            GameType::Survival => 0,
            GameType::Creative => 1,
        };
        v.push(entry("GameType", Tag::Int(game_type)));
        v.push(entry("LastPlayed", Tag::Long(self.LastPlayed)));
        v.push(entry("LevelName", Tag::Str(text_bytes(&self.LevelName))));
        v.push(entry("Platform", Tag::Int(self.Platform)));
        v.push(entry("Player", self.Player.to_tag()));
        v.push(entry("RandomSeed", Tag::Long(self.RandomSeed)));
        v.push(entry("SizeOnDisk", Tag::Long(self.SizeOnDisk)));
        v.push(entry("SpawnX", Tag::Int(self.SpawnX)));
        v.push(entry("SpawnY", Tag::Int(self.SpawnY)));
        v.push(entry("SpawnZ", Tag::Int(self.SpawnZ)));
        v.push(entry("StorageVersion", Tag::Int(self.StorageVersion)));
        v.push(entry("Time", Tag::Long(self.Time)));
        v.push(entry("dayCycleStopTime", Tag::Long(self.dayCycleStopTime)));
        let spawn_mobs: i8 = match self.spawnMobs {
            SpawnMobs::Disable => 0,
            SpawnMobs::Enable => 1,
        };
        v.push(entry("spawnMobs", Tag::Byte(spawn_mobs)));
        proof {
            lemma_compound_model(v);
            assert(entries_model(v@) =~= lower_level(*self)->Compound_0);
        }
        Tag::Compound(v)
    }
}

} // verus!
