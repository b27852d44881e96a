//! Little-endian NBT documents: a decoder and an encoder that agree bit for
//! bit, and the level record of a single-player world bound to its tree.
use vstd::prelude::*;

pub mod le;
pub mod tag;
pub mod layout;
pub mod codec;
pub mod schema;
pub mod laws;
pub mod level;
pub mod bind_laws;

pub use codec::{decode, encode, read_named, read_payload, write_payload};
pub use level::{is_wf, load_nbt, save_level, LoadError};
pub use schema::{
    ArmorItem, BindError, GameType, InventoryItem, IsSleeping, LevelDat, Player, PlayerAbilities,
    SpawnMobs,
};
pub use layout::DecodeError;
pub use tag::{tag_id, tag_to_str, Entry, Tag, TypeMismatch};

verus! {

} // verus!
