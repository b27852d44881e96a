//! Binding the node of a record gives the record back.
use vstd::prelude::*;
use vstd::string::StringSliceAdditionalSpecFns;
use vstd::utf8::{encode_utf8, encode_utf8_decode_utf8, encode_utf8_valid_utf8};
use crate::schema::{
    armor_binder, armor_models, bind_abilities, bind_armor, bind_each,
    bind_inventory, bind_level, bind_player, game_type_value, inventory_binder, inventory_models,
    fld, lookup, lower_abilities, lower_armor, lower_inventory, lower_level, lower_player,
    sleeping_value, spawn_mobs_value, ArmorItem, GameType, InventoryItem, LevelDat, BindError, PlayerAbilities, Player,
};
use crate::tag::Nbt;
use crate::le::u16_le;
use crate::layout::{enc_entries, enc_named, enc_payload};

verus! {

proof fn lemma_names_differ(a: &str, b: &str, i: int)
    requires
        a@.len() != b@.len() || (0 <= i < a@.len() && i < b@.len() && a@[i] != b@[i]),
    ensures
        a.spec_bytes() != b.spec_bytes(),
{
    encode_utf8_decode_utf8(a@);
    encode_utf8_decode_utf8(b@);
}

broadcast proof fn lemma_lookup_cons(name: Seq<u8>, v: Nbt, rest: Seq<(Seq<u8>, Nbt)>, key: Seq<u8>)
    ensures
        #[trigger] lookup(seq![(name, v)] + rest, key) == if name == key {
            Some(v)
        } else {
            lookup(rest, key)
        },
{
    let es = seq![(name, v)] + rest;
    assert(es[0] == (name, v));
    assert(es.subrange(1, es.len() as int) =~= rest);
}

proof fn lemma_level_names_differ()
    ensures
        "GameType".spec_bytes() != "LastPlayed".spec_bytes(),
        "GameType".spec_bytes() != "LevelName".spec_bytes(),
        "GameType".spec_bytes() != "Platform".spec_bytes(),
        "GameType".spec_bytes() != "Player".spec_bytes(),
        "GameType".spec_bytes() != "RandomSeed".spec_bytes(),
        "GameType".spec_bytes() != "SizeOnDisk".spec_bytes(),
        "GameType".spec_bytes() != "SpawnX".spec_bytes(),
        "GameType".spec_bytes() != "SpawnY".spec_bytes(),
        "GameType".spec_bytes() != "SpawnZ".spec_bytes(),
        "GameType".spec_bytes() != "StorageVersion".spec_bytes(),
        "GameType".spec_bytes() != "Time".spec_bytes(),
        "GameType".spec_bytes() != "dayCycleStopTime".spec_bytes(),
        "GameType".spec_bytes() != "spawnMobs".spec_bytes(),
        "LastPlayed".spec_bytes() != "LevelName".spec_bytes(),
        "LastPlayed".spec_bytes() != "Platform".spec_bytes(),
        "LastPlayed".spec_bytes() != "Player".spec_bytes(),
        "LastPlayed".spec_bytes() != "RandomSeed".spec_bytes(),
        "LastPlayed".spec_bytes() != "SizeOnDisk".spec_bytes(),
        "LastPlayed".spec_bytes() != "SpawnX".spec_bytes(),
        "LastPlayed".spec_bytes() != "SpawnY".spec_bytes(),
        "LastPlayed".spec_bytes() != "SpawnZ".spec_bytes(),
        "LastPlayed".spec_bytes() != "StorageVersion".spec_bytes(),
        "LastPlayed".spec_bytes() != "Time".spec_bytes(),
        "LastPlayed".spec_bytes() != "dayCycleStopTime".spec_bytes(),
        "LastPlayed".spec_bytes() != "spawnMobs".spec_bytes(),
        "LevelName".spec_bytes() != "Platform".spec_bytes(),
        "LevelName".spec_bytes() != "Player".spec_bytes(),
        "LevelName".spec_bytes() != "RandomSeed".spec_bytes(),
        "LevelName".spec_bytes() != "SizeOnDisk".spec_bytes(),
        "LevelName".spec_bytes() != "SpawnX".spec_bytes(),
        "LevelName".spec_bytes() != "SpawnY".spec_bytes(),
        "LevelName".spec_bytes() != "SpawnZ".spec_bytes(),
        "LevelName".spec_bytes() != "StorageVersion".spec_bytes(),
        "LevelName".spec_bytes() != "Time".spec_bytes(),
        "LevelName".spec_bytes() != "dayCycleStopTime".spec_bytes(),
        "LevelName".spec_bytes() != "spawnMobs".spec_bytes(),
        "Platform".spec_bytes() != "Player".spec_bytes(),
        "Platform".spec_bytes() != "RandomSeed".spec_bytes(),
        "Platform".spec_bytes() != "SizeOnDisk".spec_bytes(),
        "Platform".spec_bytes() != "SpawnX".spec_bytes(),
        "Platform".spec_bytes() != "SpawnY".spec_bytes(),
        "Platform".spec_bytes() != "SpawnZ".spec_bytes(),
        "Platform".spec_bytes() != "StorageVersion".spec_bytes(),
        "Platform".spec_bytes() != "Time".spec_bytes(),
        "Platform".spec_bytes() != "dayCycleStopTime".spec_bytes(),
        "Platform".spec_bytes() != "spawnMobs".spec_bytes(),
        "Player".spec_bytes() != "RandomSeed".spec_bytes(),
        "Player".spec_bytes() != "SizeOnDisk".spec_bytes(),
        "Player".spec_bytes() != "SpawnX".spec_bytes(),
        "Player".spec_bytes() != "SpawnY".spec_bytes(),
        "Player".spec_bytes() != "SpawnZ".spec_bytes(),
        "Player".spec_bytes() != "StorageVersion".spec_bytes(),
        "Player".spec_bytes() != "Time".spec_bytes(),
        "Player".spec_bytes() != "dayCycleStopTime".spec_bytes(),
        "Player".spec_bytes() != "spawnMobs".spec_bytes(),
        "RandomSeed".spec_bytes() != "SizeOnDisk".spec_bytes(),
        "RandomSeed".spec_bytes() != "SpawnX".spec_bytes(),
        "RandomSeed".spec_bytes() != "SpawnY".spec_bytes(),
        "RandomSeed".spec_bytes() != "SpawnZ".spec_bytes(),
        "RandomSeed".spec_bytes() != "StorageVersion".spec_bytes(),
        "RandomSeed".spec_bytes() != "Time".spec_bytes(),
        "RandomSeed".spec_bytes() != "dayCycleStopTime".spec_bytes(),
        "RandomSeed".spec_bytes() != "spawnMobs".spec_bytes(),
        "SizeOnDisk".spec_bytes() != "SpawnX".spec_bytes(),
        "SizeOnDisk".spec_bytes() != "SpawnY".spec_bytes(),
        "SizeOnDisk".spec_bytes() != "SpawnZ".spec_bytes(),
        "SizeOnDisk".spec_bytes() != "StorageVersion".spec_bytes(),
        "SizeOnDisk".spec_bytes() != "Time".spec_bytes(),
        "SizeOnDisk".spec_bytes() != "dayCycleStopTime".spec_bytes(),
        "SizeOnDisk".spec_bytes() != "spawnMobs".spec_bytes(),
        "SpawnX".spec_bytes() != "SpawnY".spec_bytes(),
        "SpawnX".spec_bytes() != "SpawnZ".spec_bytes(),
        "SpawnX".spec_bytes() != "StorageVersion".spec_bytes(),
        "SpawnX".spec_bytes() != "Time".spec_bytes(),
        "SpawnX".spec_bytes() != "dayCycleStopTime".spec_bytes(),
        "SpawnX".spec_bytes() != "spawnMobs".spec_bytes(),
        "SpawnY".spec_bytes() != "SpawnZ".spec_bytes(),
        "SpawnY".spec_bytes() != "StorageVersion".spec_bytes(),
        "SpawnY".spec_bytes() != "Time".spec_bytes(),
        "SpawnY".spec_bytes() != "dayCycleStopTime".spec_bytes(),
        "SpawnY".spec_bytes() != "spawnMobs".spec_bytes(),
        "SpawnZ".spec_bytes() != "StorageVersion".spec_bytes(),
        "SpawnZ".spec_bytes() != "Time".spec_bytes(),
        "SpawnZ".spec_bytes() != "dayCycleStopTime".spec_bytes(),
        "SpawnZ".spec_bytes() != "spawnMobs".spec_bytes(),
        "StorageVersion".spec_bytes() != "Time".spec_bytes(),
        "StorageVersion".spec_bytes() != "dayCycleStopTime".spec_bytes(),
        "StorageVersion".spec_bytes() != "spawnMobs".spec_bytes(),
        "Time".spec_bytes() != "dayCycleStopTime".spec_bytes(),
        "Time".spec_bytes() != "spawnMobs".spec_bytes(),
        "dayCycleStopTime".spec_bytes() != "spawnMobs".spec_bytes(),
{
    reveal_strlit("GameType");
    reveal_strlit("LastPlayed");
    reveal_strlit("LevelName");
    reveal_strlit("Platform");
    reveal_strlit("Player");
    reveal_strlit("RandomSeed");
    reveal_strlit("SizeOnDisk");
    reveal_strlit("SpawnX");
    reveal_strlit("SpawnY");
    reveal_strlit("SpawnZ");
    reveal_strlit("StorageVersion");
    reveal_strlit("Time");
    reveal_strlit("dayCycleStopTime");
    reveal_strlit("spawnMobs");
    lemma_names_differ("GameType", "LastPlayed", 0);
    lemma_names_differ("GameType", "LevelName", 0);
    lemma_names_differ("GameType", "Platform", 0);
    lemma_names_differ("GameType", "Player", 0);
    lemma_names_differ("GameType", "RandomSeed", 0);
    lemma_names_differ("GameType", "SizeOnDisk", 0);
    lemma_names_differ("GameType", "SpawnX", 0);
    lemma_names_differ("GameType", "SpawnY", 0);
    lemma_names_differ("GameType", "SpawnZ", 0);
    lemma_names_differ("GameType", "StorageVersion", 0);
    lemma_names_differ("GameType", "Time", 0);
    lemma_names_differ("GameType", "dayCycleStopTime", 0);
    lemma_names_differ("GameType", "spawnMobs", 0);
    lemma_names_differ("LastPlayed", "LevelName", 0);
    lemma_names_differ("LastPlayed", "Platform", 0);
    lemma_names_differ("LastPlayed", "Player", 0);
    lemma_names_differ("LastPlayed", "RandomSeed", 0);
    lemma_names_differ("LastPlayed", "SizeOnDisk", 0);
    lemma_names_differ("LastPlayed", "SpawnX", 0);
    lemma_names_differ("LastPlayed", "SpawnY", 0);
    lemma_names_differ("LastPlayed", "SpawnZ", 0);
    lemma_names_differ("LastPlayed", "StorageVersion", 0);
    lemma_names_differ("LastPlayed", "Time", 0);
    lemma_names_differ("LastPlayed", "dayCycleStopTime", 0);
    lemma_names_differ("LastPlayed", "spawnMobs", 0);
    lemma_names_differ("LevelName", "Platform", 0);
    lemma_names_differ("LevelName", "Player", 0);
    lemma_names_differ("LevelName", "RandomSeed", 0);
    lemma_names_differ("LevelName", "SizeOnDisk", 0);
    lemma_names_differ("LevelName", "SpawnX", 0);
    lemma_names_differ("LevelName", "SpawnY", 0);
    lemma_names_differ("LevelName", "SpawnZ", 0);
    lemma_names_differ("LevelName", "StorageVersion", 0);
    lemma_names_differ("LevelName", "Time", 0);
    lemma_names_differ("LevelName", "dayCycleStopTime", 0);
    lemma_names_differ("LevelName", "spawnMobs", 0);
    lemma_names_differ("Platform", "Player", 0);
    lemma_names_differ("Platform", "RandomSeed", 0);
    lemma_names_differ("Platform", "SizeOnDisk", 0);
    lemma_names_differ("Platform", "SpawnX", 0);
    lemma_names_differ("Platform", "SpawnY", 0);
    lemma_names_differ("Platform", "SpawnZ", 0);
    lemma_names_differ("Platform", "StorageVersion", 0);
    lemma_names_differ("Platform", "Time", 0);
    lemma_names_differ("Platform", "dayCycleStopTime", 0);
    lemma_names_differ("Platform", "spawnMobs", 0);
    lemma_names_differ("Player", "RandomSeed", 0);
    lemma_names_differ("Player", "SizeOnDisk", 0);
    lemma_names_differ("Player", "SpawnX", 0);
    lemma_names_differ("Player", "SpawnY", 0);
    lemma_names_differ("Player", "SpawnZ", 0);
    lemma_names_differ("Player", "StorageVersion", 0);
    lemma_names_differ("Player", "Time", 0);
    lemma_names_differ("Player", "dayCycleStopTime", 0);
    lemma_names_differ("Player", "spawnMobs", 0);
    lemma_names_differ("RandomSeed", "SizeOnDisk", 0);
    lemma_names_differ("RandomSeed", "SpawnX", 0);
    lemma_names_differ("RandomSeed", "SpawnY", 0);
    lemma_names_differ("RandomSeed", "SpawnZ", 0);
    lemma_names_differ("RandomSeed", "StorageVersion", 0);
    lemma_names_differ("RandomSeed", "Time", 0);
    lemma_names_differ("RandomSeed", "dayCycleStopTime", 0);
    lemma_names_differ("RandomSeed", "spawnMobs", 0);
    lemma_names_differ("SizeOnDisk", "SpawnX", 0);
    lemma_names_differ("SizeOnDisk", "SpawnY", 0);
    lemma_names_differ("SizeOnDisk", "SpawnZ", 0);
    lemma_names_differ("SizeOnDisk", "StorageVersion", 0);
    lemma_names_differ("SizeOnDisk", "Time", 0);
    lemma_names_differ("SizeOnDisk", "dayCycleStopTime", 0);
    lemma_names_differ("SizeOnDisk", "spawnMobs", 0);
    lemma_names_differ("SpawnX", "SpawnY", 5);
    lemma_names_differ("SpawnX", "SpawnZ", 5);
    lemma_names_differ("SpawnX", "StorageVersion", 0);
    lemma_names_differ("SpawnX", "Time", 0);
    lemma_names_differ("SpawnX", "dayCycleStopTime", 0);
    lemma_names_differ("SpawnX", "spawnMobs", 0);
    lemma_names_differ("SpawnY", "SpawnZ", 5);
    lemma_names_differ("SpawnY", "StorageVersion", 0);
    lemma_names_differ("SpawnY", "Time", 0);
    lemma_names_differ("SpawnY", "dayCycleStopTime", 0);
    lemma_names_differ("SpawnY", "spawnMobs", 0);
    lemma_names_differ("SpawnZ", "StorageVersion", 0);
    lemma_names_differ("SpawnZ", "Time", 0);
    lemma_names_differ("SpawnZ", "dayCycleStopTime", 0);
    lemma_names_differ("SpawnZ", "spawnMobs", 0);
    lemma_names_differ("StorageVersion", "Time", 0);
    lemma_names_differ("StorageVersion", "dayCycleStopTime", 0);
    lemma_names_differ("StorageVersion", "spawnMobs", 0);
    lemma_names_differ("Time", "dayCycleStopTime", 0);
    lemma_names_differ("Time", "spawnMobs", 0);
    lemma_names_differ("dayCycleStopTime", "spawnMobs", 0);
}

proof fn lemma_player_names_differ()
    ensures
        "Armor".spec_bytes() != "Dimension".spec_bytes(),
        "Armor".spec_bytes() != "Inventory".spec_bytes(),
        "Armor".spec_bytes() != "Score".spec_bytes(),
        "Armor".spec_bytes() != "Sleeping".spec_bytes(),
        "Armor".spec_bytes() != "SleepTimer".spec_bytes(),
        "Armor".spec_bytes() != "abilities".spec_bytes(),
        "Dimension".spec_bytes() != "Inventory".spec_bytes(),
        "Dimension".spec_bytes() != "Score".spec_bytes(),
        "Dimension".spec_bytes() != "Sleeping".spec_bytes(),
        "Dimension".spec_bytes() != "SleepTimer".spec_bytes(),
        "Dimension".spec_bytes() != "abilities".spec_bytes(),
        "Inventory".spec_bytes() != "Score".spec_bytes(),
        "Inventory".spec_bytes() != "Sleeping".spec_bytes(),
        "Inventory".spec_bytes() != "SleepTimer".spec_bytes(),
        "Inventory".spec_bytes() != "abilities".spec_bytes(),
        "Score".spec_bytes() != "Sleeping".spec_bytes(),
        "Score".spec_bytes() != "SleepTimer".spec_bytes(),
        "Score".spec_bytes() != "abilities".spec_bytes(),
        "Sleeping".spec_bytes() != "SleepTimer".spec_bytes(),
        "Sleeping".spec_bytes() != "abilities".spec_bytes(),
        "SleepTimer".spec_bytes() != "abilities".spec_bytes(),
{
    reveal_strlit("Armor");
    reveal_strlit("Dimension");
    reveal_strlit("Inventory");
    reveal_strlit("Score");
    reveal_strlit("Sleeping");
    reveal_strlit("SleepTimer");
    reveal_strlit("abilities");
    lemma_names_differ("Armor", "Dimension", 0);
    lemma_names_differ("Armor", "Inventory", 0);
    lemma_names_differ("Armor", "Score", 0);
    lemma_names_differ("Armor", "Sleeping", 0);
    lemma_names_differ("Armor", "SleepTimer", 0);
    lemma_names_differ("Armor", "abilities", 0);
    lemma_names_differ("Dimension", "Inventory", 0);
    lemma_names_differ("Dimension", "Score", 0);
    lemma_names_differ("Dimension", "Sleeping", 0);
    lemma_names_differ("Dimension", "SleepTimer", 0);
    lemma_names_differ("Dimension", "abilities", 0);
    lemma_names_differ("Inventory", "Score", 0);
    lemma_names_differ("Inventory", "Sleeping", 0);
    lemma_names_differ("Inventory", "SleepTimer", 0);
    lemma_names_differ("Inventory", "abilities", 0);
    lemma_names_differ("Score", "Sleeping", 0);
    lemma_names_differ("Score", "SleepTimer", 0);
    lemma_names_differ("Score", "abilities", 0);
    lemma_names_differ("Sleeping", "SleepTimer", 0);
    lemma_names_differ("Sleeping", "abilities", 0);
    lemma_names_differ("SleepTimer", "abilities", 0);
}

proof fn lemma_inventory_names_differ()
    ensures
        "Slot".spec_bytes() != "id".spec_bytes(),
        "Slot".spec_bytes() != "Count".spec_bytes(),
        "Slot".spec_bytes() != "Damage".spec_bytes(),
        "id".spec_bytes() != "Count".spec_bytes(),
        "id".spec_bytes() != "Damage".spec_bytes(),
        "Count".spec_bytes() != "Damage".spec_bytes(),
{
    reveal_strlit("Slot");
    reveal_strlit("id");
    reveal_strlit("Count");
    reveal_strlit("Damage");
    lemma_names_differ("Slot", "id", 0);
    lemma_names_differ("Slot", "Count", 0);
    lemma_names_differ("Slot", "Damage", 0);
    lemma_names_differ("id", "Count", 0);
    lemma_names_differ("id", "Damage", 0);
    lemma_names_differ("Count", "Damage", 0);
}

proof fn lemma_bind_abilities(a: PlayerAbilities)
    ensures
        bind_abilities(lower_abilities(a)) == Ok::<Nbt, BindError>(lower_abilities(a)),
{
    broadcast use lemma_lookup_cons;

}

proof fn lemma_bind_armor(a: ArmorItem)
    ensures
        bind_armor(lower_armor(a)) == Ok::<Nbt, BindError>(lower_armor(a)),
{
    broadcast use lemma_lookup_cons;

    lemma_inventory_names_differ();
}

proof fn lemma_bind_inventory(a: InventoryItem)
    ensures
        bind_inventory(lower_inventory(a)) == Ok::<Nbt, BindError>(lower_inventory(a)),
{
    broadcast use lemma_lookup_cons;

    lemma_inventory_names_differ();
}

proof fn lemma_bind_armor_list(v: Seq<ArmorItem>)
    ensures
        bind_each(armor_models(v), armor_binder()) == Ok::<Seq<Nbt>, BindError>(armor_models(v)),
    decreases v.len(),
{
    if v.len() > 0 {
        let m = armor_models(v);
        let rest = v.subrange(1, v.len() as int);
        lemma_bind_armor(v[0]);
        lemma_bind_armor_list(rest);
        assert(m.subrange(1, m.len() as int) =~= armor_models(rest));
        assert(seq![m[0]] + armor_models(rest) =~= m);
    } else {
        assert(armor_models(v) =~= Seq::<Nbt>::empty());
    }
}

proof fn lemma_bind_inventory_list(v: Seq<InventoryItem>)
    ensures
        bind_each(inventory_models(v), inventory_binder()) == Ok::<Seq<Nbt>, BindError>(inventory_models(v)),
    decreases v.len(),
{
    if v.len() > 0 {
        let m = inventory_models(v);
        let rest = v.subrange(1, v.len() as int);
        lemma_bind_inventory(v[0]);
        lemma_bind_inventory_list(rest);
        assert(m.subrange(1, m.len() as int) =~= inventory_models(rest));
        assert(seq![m[0]] + inventory_models(rest) =~= m);
    } else {
        assert(inventory_models(v) =~= Seq::<Nbt>::empty());
    }
}

proof fn lemma_bind_player(p: Player)
    ensures
        bind_player(lower_player(p)) == Ok::<Nbt, BindError>(lower_player(p)),
{
    broadcast use lemma_lookup_cons;

    lemma_player_names_differ();
    lemma_bind_armor_list(p.Armor@);
    lemma_bind_inventory_list(p.Inventory@);
    lemma_bind_abilities(p.abilities);
}

proof fn lemma_bind_level(l: LevelDat)
    ensures
        bind_level(lower_level(l)) == Ok::<Nbt, BindError>(lower_level(l)),
{
    broadcast use lemma_lookup_cons;

    lemma_level_names_differ();
    lemma_bind_player(l.Player);
    encode_utf8_valid_utf8(l.LevelName@);
}

/// Two level records agree field for field.
pub open spec fn same_level(a: LevelDat, b: LevelDat) -> bool {
    &&& a.GameType == b.GameType
    &&& a.LastPlayed == b.LastPlayed
    &&& a.LevelName@ == b.LevelName@
    &&& a.Platform == b.Platform
    &&& a.Player.Armor@ == b.Player.Armor@
    &&& a.Player.Dimension == b.Player.Dimension
    &&& a.Player.Inventory@ == b.Player.Inventory@
    &&& a.Player.Score == b.Player.Score
    &&& a.Player.Sleeping == b.Player.Sleeping
    &&& a.Player.SleepTimer == b.Player.SleepTimer
    &&& a.Player.abilities == b.Player.abilities
    &&& a.RandomSeed == b.RandomSeed
    &&& a.SizeOnDisk == b.SizeOnDisk
    &&& a.SpawnX == b.SpawnX
    &&& a.SpawnY == b.SpawnY
    &&& a.SpawnZ == b.SpawnZ
    &&& a.StorageVersion == b.StorageVersion
    &&& a.Time == b.Time
    &&& a.dayCycleStopTime == b.dayCycleStopTime
    &&& a.spawnMobs == b.spawnMobs
}

proof fn lemma_fld_eq(n: &str, v: Nbt, r: Seq<(Seq<u8>, Nbt)>, w: Nbt, r2: Seq<(Seq<u8>, Nbt)>)
    requires
        fld(n, v, r) == fld(n, w, r2),
    ensures
        v == w,
        r == r2,
{
    assert(fld(n, v, r)[0] == (n.spec_bytes(), v));
    assert(fld(n, w, r2)[0] == (n.spec_bytes(), w));
    assert(fld(n, v, r).subrange(1, fld(n, v, r).len() as int) =~= r);
    assert(fld(n, w, r2).subrange(1, fld(n, w, r2).len() as int) =~= r2);
}

proof fn lemma_armor_models_injective(a: Seq<ArmorItem>, b: Seq<ArmorItem>)
    requires
        armor_models(a) == armor_models(b),
    ensures
        a == b,
{
    assert(armor_models(a).len() == a.len() && armor_models(b).len() == b.len());
    assert forall|i: int| 0 <= i < a.len() implies a[i] == b[i] by {
        assert(armor_models(a)[i] == armor_models(b)[i]);
        let (x, y) = (a[i], b[i]);
        assert(armor_models(a)[i] == lower_armor(a[i]));
        assert(armor_models(b)[i] == lower_armor(b[i]));
        assert(lower_armor(x) == lower_armor(y));
        assert(lower_armor(x)->Compound_0 == lower_armor(y)->Compound_0);
        lemma_fld_eq("id", Nbt::Short(x.id), fld("Count", Nbt::Byte(x.Count), fld("Damage", Nbt::Short(x.Damage), Seq::empty())), Nbt::Short(y.id), fld("Count", Nbt::Byte(y.Count), fld("Damage", Nbt::Short(y.Damage), Seq::empty())));
        lemma_fld_eq("Count", Nbt::Byte(x.Count), fld("Damage", Nbt::Short(x.Damage), Seq::empty()), Nbt::Byte(y.Count), fld("Damage", Nbt::Short(y.Damage), Seq::empty()));
        lemma_fld_eq("Damage", Nbt::Short(x.Damage), Seq::empty(), Nbt::Short(y.Damage), Seq::empty());
    }
    assert(a =~= b);
}

proof fn lemma_inventory_models_injective(a: Seq<InventoryItem>, b: Seq<InventoryItem>)
    requires
        inventory_models(a) == inventory_models(b),
    ensures
        a == b,
{
    assert(inventory_models(a).len() == a.len() && inventory_models(b).len() == b.len());
    assert forall|i: int| 0 <= i < a.len() implies a[i] == b[i] by {
        assert(inventory_models(a)[i] == inventory_models(b)[i]);
        let (x, y) = (a[i], b[i]);
        assert(inventory_models(a)[i] == lower_inventory(a[i]));
        assert(inventory_models(b)[i] == lower_inventory(b[i]));
        assert(lower_inventory(x) == lower_inventory(y));
        assert(lower_inventory(x)->Compound_0 == lower_inventory(y)->Compound_0);
        let rx = fld("Count", Nbt::Byte(x.Count), fld("Damage", Nbt::Short(x.Damage), Seq::empty()));
        let ry = fld("Count", Nbt::Byte(y.Count), fld("Damage", Nbt::Short(y.Damage), Seq::empty()));
        lemma_fld_eq("Slot", Nbt::Byte(x.Slot), fld("id", Nbt::Short(x.id), rx), Nbt::Byte(y.Slot), fld("id", Nbt::Short(y.id), ry));
        lemma_fld_eq("id", Nbt::Short(x.id), rx, Nbt::Short(y.id), ry);
        lemma_fld_eq("Count", Nbt::Byte(x.Count), fld("Damage", Nbt::Short(x.Damage), Seq::empty()), Nbt::Byte(y.Count), fld("Damage", Nbt::Short(y.Damage), Seq::empty()));
        lemma_fld_eq("Damage", Nbt::Short(x.Damage), Seq::empty(), Nbt::Short(y.Damage), Seq::empty());
    }
    assert(a =~= b);
}

proof fn lemma_lower_player_injective(a: Player, b: Player)
    requires
        lower_player(a) == lower_player(b),
    ensures
        a.Armor@ == b.Armor@,
        a.Dimension == b.Dimension,
        a.Inventory@ == b.Inventory@,
        a.Score == b.Score,
        a.Sleeping == b.Sleeping,
        a.SleepTimer == b.SleepTimer,
        a.abilities == b.abilities,
{
    lemma_fld_eq("Armor", Nbt::List(crate::tag::COMPOUND_ID, armor_models(a.Armor@)), fld("Dimension", Nbt::Int(a.Dimension), fld("Inventory", Nbt::List(crate::tag::COMPOUND_ID, inventory_models(a.Inventory@)), fld("Score", Nbt::Int(a.Score), fld("Sleeping", Nbt::Byte(sleeping_value(a.Sleeping)), fld("SleepTimer", Nbt::Short(a.SleepTimer), fld("abilities", lower_abilities(a.abilities), Seq::empty())))))), Nbt::List(crate::tag::COMPOUND_ID, armor_models(b.Armor@)), fld("Dimension", Nbt::Int(b.Dimension), fld("Inventory", Nbt::List(crate::tag::COMPOUND_ID, inventory_models(b.Inventory@)), fld("Score", Nbt::Int(b.Score), fld("Sleeping", Nbt::Byte(sleeping_value(b.Sleeping)), fld("SleepTimer", Nbt::Short(b.SleepTimer), fld("abilities", lower_abilities(b.abilities), Seq::empty())))))));
    lemma_fld_eq("Dimension", Nbt::Int(a.Dimension), fld("Inventory", Nbt::List(crate::tag::COMPOUND_ID, inventory_models(a.Inventory@)), fld("Score", Nbt::Int(a.Score), fld("Sleeping", Nbt::Byte(sleeping_value(a.Sleeping)), fld("SleepTimer", Nbt::Short(a.SleepTimer), fld("abilities", lower_abilities(a.abilities), Seq::empty()))))), Nbt::Int(b.Dimension), fld("Inventory", Nbt::List(crate::tag::COMPOUND_ID, inventory_models(b.Inventory@)), fld("Score", Nbt::Int(b.Score), fld("Sleeping", Nbt::Byte(sleeping_value(b.Sleeping)), fld("SleepTimer", Nbt::Short(b.SleepTimer), fld("abilities", lower_abilities(b.abilities), Seq::empty()))))));
    lemma_fld_eq("Inventory", Nbt::List(crate::tag::COMPOUND_ID, inventory_models(a.Inventory@)), fld("Score", Nbt::Int(a.Score), fld("Sleeping", Nbt::Byte(sleeping_value(a.Sleeping)), fld("SleepTimer", Nbt::Short(a.SleepTimer), fld("abilities", lower_abilities(a.abilities), Seq::empty())))), Nbt::List(crate::tag::COMPOUND_ID, inventory_models(b.Inventory@)), fld("Score", Nbt::Int(b.Score), fld("Sleeping", Nbt::Byte(sleeping_value(b.Sleeping)), fld("SleepTimer", Nbt::Short(b.SleepTimer), fld("abilities", lower_abilities(b.abilities), Seq::empty())))));
    lemma_fld_eq("Score", Nbt::Int(a.Score), fld("Sleeping", Nbt::Byte(sleeping_value(a.Sleeping)), fld("SleepTimer", Nbt::Short(a.SleepTimer), fld("abilities", lower_abilities(a.abilities), Seq::empty()))), Nbt::Int(b.Score), fld("Sleeping", Nbt::Byte(sleeping_value(b.Sleeping)), fld("SleepTimer", Nbt::Short(b.SleepTimer), fld("abilities", lower_abilities(b.abilities), Seq::empty()))));
    lemma_fld_eq("Sleeping", Nbt::Byte(sleeping_value(a.Sleeping)), fld("SleepTimer", Nbt::Short(a.SleepTimer), fld("abilities", lower_abilities(a.abilities), Seq::empty())), Nbt::Byte(sleeping_value(b.Sleeping)), fld("SleepTimer", Nbt::Short(b.SleepTimer), fld("abilities", lower_abilities(b.abilities), Seq::empty())));
    lemma_fld_eq("SleepTimer", Nbt::Short(a.SleepTimer), fld("abilities", lower_abilities(a.abilities), Seq::empty()), Nbt::Short(b.SleepTimer), fld("abilities", lower_abilities(b.abilities), Seq::empty()));
    lemma_fld_eq("abilities", lower_abilities(a.abilities), Seq::empty(), lower_abilities(b.abilities), Seq::empty());
    lemma_armor_models_injective(a.Armor@, b.Armor@);
    lemma_inventory_models_injective(a.Inventory@, b.Inventory@);
    lemma_fld_eq("mayfly", Nbt::Byte(if a.abilities.mayfly { 1 } else { 0 }), Seq::empty(), Nbt::Byte(if b.abilities.mayfly { 1 } else { 0 }), Seq::empty());
}

proof fn lemma_lower_level_injective(a: LevelDat, b: LevelDat)
    requires
        lower_level(a) == lower_level(b),
    ensures
        same_level(a, b),
{
    lemma_fld_eq("GameType", Nbt::Int(game_type_value(a.GameType)), fld("LastPlayed", Nbt::Long(a.LastPlayed), fld("LevelName", Nbt::Str(encode_utf8(a.LevelName@)), fld("Platform", Nbt::Int(a.Platform), fld("Player", lower_player(a.Player), fld("RandomSeed", Nbt::Long(a.RandomSeed), fld("SizeOnDisk", Nbt::Long(a.SizeOnDisk), fld("SpawnX", Nbt::Int(a.SpawnX), fld("SpawnY", Nbt::Int(a.SpawnY), fld("SpawnZ", Nbt::Int(a.SpawnZ), fld("StorageVersion", Nbt::Int(a.StorageVersion), fld("Time", Nbt::Long(a.Time), fld("dayCycleStopTime", Nbt::Long(a.dayCycleStopTime), fld("spawnMobs", Nbt::Byte(spawn_mobs_value(a.spawnMobs)), Seq::empty()))))))))))))), Nbt::Int(game_type_value(b.GameType)), fld("LastPlayed", Nbt::Long(b.LastPlayed), fld("LevelName", Nbt::Str(encode_utf8(b.LevelName@)), fld("Platform", Nbt::Int(b.Platform), fld("Player", lower_player(b.Player), fld("RandomSeed", Nbt::Long(b.RandomSeed), fld("SizeOnDisk", Nbt::Long(b.SizeOnDisk), fld("SpawnX", Nbt::Int(b.SpawnX), fld("SpawnY", Nbt::Int(b.SpawnY), fld("SpawnZ", Nbt::Int(b.SpawnZ), fld("StorageVersion", Nbt::Int(b.StorageVersion), fld("Time", Nbt::Long(b.Time), fld("dayCycleStopTime", Nbt::Long(b.dayCycleStopTime), fld("spawnMobs", Nbt::Byte(spawn_mobs_value(b.spawnMobs)), Seq::empty()))))))))))))));
    lemma_fld_eq("LastPlayed", Nbt::Long(a.LastPlayed), fld("LevelName", Nbt::Str(encode_utf8(a.LevelName@)), fld("Platform", Nbt::Int(a.Platform), fld("Player", lower_player(a.Player), fld("RandomSeed", Nbt::Long(a.RandomSeed), fld("SizeOnDisk", Nbt::Long(a.SizeOnDisk), fld("SpawnX", Nbt::Int(a.SpawnX), fld("SpawnY", Nbt::Int(a.SpawnY), fld("SpawnZ", Nbt::Int(a.SpawnZ), fld("StorageVersion", Nbt::Int(a.StorageVersion), fld("Time", Nbt::Long(a.Time), fld("dayCycleStopTime", Nbt::Long(a.dayCycleStopTime), fld("spawnMobs", Nbt::Byte(spawn_mobs_value(a.spawnMobs)), Seq::empty())))))))))))), Nbt::Long(b.LastPlayed), fld("LevelName", Nbt::Str(encode_utf8(b.LevelName@)), fld("Platform", Nbt::Int(b.Platform), fld("Player", lower_player(b.Player), fld("RandomSeed", Nbt::Long(b.RandomSeed), fld("SizeOnDisk", Nbt::Long(b.SizeOnDisk), fld("SpawnX", Nbt::Int(b.SpawnX), fld("SpawnY", Nbt::Int(b.SpawnY), fld("SpawnZ", Nbt::Int(b.SpawnZ), fld("StorageVersion", Nbt::Int(b.StorageVersion), fld("Time", Nbt::Long(b.Time), fld("dayCycleStopTime", Nbt::Long(b.dayCycleStopTime), fld("spawnMobs", Nbt::Byte(spawn_mobs_value(b.spawnMobs)), Seq::empty())))))))))))));
    lemma_fld_eq("LevelName", Nbt::Str(encode_utf8(a.LevelName@)), fld("Platform", Nbt::Int(a.Platform), fld("Player", lower_player(a.Player), fld("RandomSeed", Nbt::Long(a.RandomSeed), fld("SizeOnDisk", Nbt::Long(a.SizeOnDisk), fld("SpawnX", Nbt::Int(a.SpawnX), fld("SpawnY", Nbt::Int(a.SpawnY), fld("SpawnZ", Nbt::Int(a.SpawnZ), fld("StorageVersion", Nbt::Int(a.StorageVersion), fld("Time", Nbt::Long(a.Time), fld("dayCycleStopTime", Nbt::Long(a.dayCycleStopTime), fld("spawnMobs", Nbt::Byte(spawn_mobs_value(a.spawnMobs)), Seq::empty()))))))))))), Nbt::Str(encode_utf8(b.LevelName@)), fld("Platform", Nbt::Int(b.Platform), fld("Player", lower_player(b.Player), fld("RandomSeed", Nbt::Long(b.RandomSeed), fld("SizeOnDisk", Nbt::Long(b.SizeOnDisk), fld("SpawnX", Nbt::Int(b.SpawnX), fld("SpawnY", Nbt::Int(b.SpawnY), fld("SpawnZ", Nbt::Int(b.SpawnZ), fld("StorageVersion", Nbt::Int(b.StorageVersion), fld("Time", Nbt::Long(b.Time), fld("dayCycleStopTime", Nbt::Long(b.dayCycleStopTime), fld("spawnMobs", Nbt::Byte(spawn_mobs_value(b.spawnMobs)), Seq::empty()))))))))))));
    lemma_fld_eq("Platform", Nbt::Int(a.Platform), fld("Player", lower_player(a.Player), fld("RandomSeed", Nbt::Long(a.RandomSeed), fld("SizeOnDisk", Nbt::Long(a.SizeOnDisk), fld("SpawnX", Nbt::Int(a.SpawnX), fld("SpawnY", Nbt::Int(a.SpawnY), fld("SpawnZ", Nbt::Int(a.SpawnZ), fld("StorageVersion", Nbt::Int(a.StorageVersion), fld("Time", Nbt::Long(a.Time), fld("dayCycleStopTime", Nbt::Long(a.dayCycleStopTime), fld("spawnMobs", Nbt::Byte(spawn_mobs_value(a.spawnMobs)), Seq::empty())))))))))), Nbt::Int(b.Platform), fld("Player", lower_player(b.Player), fld("RandomSeed", Nbt::Long(b.RandomSeed), fld("SizeOnDisk", Nbt::Long(b.SizeOnDisk), fld("SpawnX", Nbt::Int(b.SpawnX), fld("SpawnY", Nbt::Int(b.SpawnY), fld("SpawnZ", Nbt::Int(b.SpawnZ), fld("StorageVersion", Nbt::Int(b.StorageVersion), fld("Time", Nbt::Long(b.Time), fld("dayCycleStopTime", Nbt::Long(b.dayCycleStopTime), fld("spawnMobs", Nbt::Byte(spawn_mobs_value(b.spawnMobs)), Seq::empty())))))))))));
    lemma_fld_eq("Player", lower_player(a.Player), fld("RandomSeed", Nbt::Long(a.RandomSeed), fld("SizeOnDisk", Nbt::Long(a.SizeOnDisk), fld("SpawnX", Nbt::Int(a.SpawnX), fld("SpawnY", Nbt::Int(a.SpawnY), fld("SpawnZ", Nbt::Int(a.SpawnZ), fld("StorageVersion", Nbt::Int(a.StorageVersion), fld("Time", Nbt::Long(a.Time), fld("dayCycleStopTime", Nbt::Long(a.dayCycleStopTime), fld("spawnMobs", Nbt::Byte(spawn_mobs_value(a.spawnMobs)), Seq::empty()))))))))), lower_player(b.Player), fld("RandomSeed", Nbt::Long(b.RandomSeed), fld("SizeOnDisk", Nbt::Long(b.SizeOnDisk), fld("SpawnX", Nbt::Int(b.SpawnX), fld("SpawnY", Nbt::Int(b.SpawnY), fld("SpawnZ", Nbt::Int(b.SpawnZ), fld("StorageVersion", Nbt::Int(b.StorageVersion), fld("Time", Nbt::Long(b.Time), fld("dayCycleStopTime", Nbt::Long(b.dayCycleStopTime), fld("spawnMobs", Nbt::Byte(spawn_mobs_value(b.spawnMobs)), Seq::empty()))))))))));
    lemma_fld_eq("RandomSeed", Nbt::Long(a.RandomSeed), fld("SizeOnDisk", Nbt::Long(a.SizeOnDisk), fld("SpawnX", Nbt::Int(a.SpawnX), fld("SpawnY", Nbt::Int(a.SpawnY), fld("SpawnZ", Nbt::Int(a.SpawnZ), fld("StorageVersion", Nbt::Int(a.StorageVersion), fld("Time", Nbt::Long(a.Time), fld("dayCycleStopTime", Nbt::Long(a.dayCycleStopTime), fld("spawnMobs", Nbt::Byte(spawn_mobs_value(a.spawnMobs)), Seq::empty())))))))), Nbt::Long(b.RandomSeed), fld("SizeOnDisk", Nbt::Long(b.SizeOnDisk), fld("SpawnX", Nbt::Int(b.SpawnX), fld("SpawnY", Nbt::Int(b.SpawnY), fld("SpawnZ", Nbt::Int(b.SpawnZ), fld("StorageVersion", Nbt::Int(b.StorageVersion), fld("Time", Nbt::Long(b.Time), fld("dayCycleStopTime", Nbt::Long(b.dayCycleStopTime), fld("spawnMobs", Nbt::Byte(spawn_mobs_value(b.spawnMobs)), Seq::empty())))))))));
    lemma_fld_eq("SizeOnDisk", Nbt::Long(a.SizeOnDisk), fld("SpawnX", Nbt::Int(a.SpawnX), fld("SpawnY", Nbt::Int(a.SpawnY), fld("SpawnZ", Nbt::Int(a.SpawnZ), fld("StorageVersion", Nbt::Int(a.StorageVersion), fld("Time", Nbt::Long(a.Time), fld("dayCycleStopTime", Nbt::Long(a.dayCycleStopTime), fld("spawnMobs", Nbt::Byte(spawn_mobs_value(a.spawnMobs)), Seq::empty()))))))), Nbt::Long(b.SizeOnDisk), fld("SpawnX", Nbt::Int(b.SpawnX), fld("SpawnY", Nbt::Int(b.SpawnY), fld("SpawnZ", Nbt::Int(b.SpawnZ), fld("StorageVersion", Nbt::Int(b.StorageVersion), fld("Time", Nbt::Long(b.Time), fld("dayCycleStopTime", Nbt::Long(b.dayCycleStopTime), fld("spawnMobs", Nbt::Byte(spawn_mobs_value(b.spawnMobs)), Seq::empty()))))))));
    lemma_fld_eq("SpawnX", Nbt::Int(a.SpawnX), fld("SpawnY", Nbt::Int(a.SpawnY), fld("SpawnZ", Nbt::Int(a.SpawnZ), fld("StorageVersion", Nbt::Int(a.StorageVersion), fld("Time", Nbt::Long(a.Time), fld("dayCycleStopTime", Nbt::Long(a.dayCycleStopTime), fld("spawnMobs", Nbt::Byte(spawn_mobs_value(a.spawnMobs)), Seq::empty())))))), Nbt::Int(b.SpawnX), fld("SpawnY", Nbt::Int(b.SpawnY), fld("SpawnZ", Nbt::Int(b.SpawnZ), fld("StorageVersion", Nbt::Int(b.StorageVersion), fld("Time", Nbt::Long(b.Time), fld("dayCycleStopTime", Nbt::Long(b.dayCycleStopTime), fld("spawnMobs", Nbt::Byte(spawn_mobs_value(b.spawnMobs)), Seq::empty())))))));
    lemma_fld_eq("SpawnY", Nbt::Int(a.SpawnY), fld("SpawnZ", Nbt::Int(a.SpawnZ), fld("StorageVersion", Nbt::Int(a.StorageVersion), fld("Time", Nbt::Long(a.Time), fld("dayCycleStopTime", Nbt::Long(a.dayCycleStopTime), fld("spawnMobs", Nbt::Byte(spawn_mobs_value(a.spawnMobs)), Seq::empty()))))), Nbt::Int(b.SpawnY), fld("SpawnZ", Nbt::Int(b.SpawnZ), fld("StorageVersion", Nbt::Int(b.StorageVersion), fld("Time", Nbt::Long(b.Time), fld("dayCycleStopTime", Nbt::Long(b.dayCycleStopTime), fld("spawnMobs", Nbt::Byte(spawn_mobs_value(b.spawnMobs)), Seq::empty()))))));
    lemma_fld_eq("SpawnZ", Nbt::Int(a.SpawnZ), fld("StorageVersion", Nbt::Int(a.StorageVersion), fld("Time", Nbt::Long(a.Time), fld("dayCycleStopTime", Nbt::Long(a.dayCycleStopTime), fld("spawnMobs", Nbt::Byte(spawn_mobs_value(a.spawnMobs)), Seq::empty())))), Nbt::Int(b.SpawnZ), fld("StorageVersion", Nbt::Int(b.StorageVersion), fld("Time", Nbt::Long(b.Time), fld("dayCycleStopTime", Nbt::Long(b.dayCycleStopTime), fld("spawnMobs", Nbt::Byte(spawn_mobs_value(b.spawnMobs)), Seq::empty())))));
    lemma_fld_eq("StorageVersion", Nbt::Int(a.StorageVersion), fld("Time", Nbt::Long(a.Time), fld("dayCycleStopTime", Nbt::Long(a.dayCycleStopTime), fld("spawnMobs", Nbt::Byte(spawn_mobs_value(a.spawnMobs)), Seq::empty()))), Nbt::Int(b.StorageVersion), fld("Time", Nbt::Long(b.Time), fld("dayCycleStopTime", Nbt::Long(b.dayCycleStopTime), fld("spawnMobs", Nbt::Byte(spawn_mobs_value(b.spawnMobs)), Seq::empty()))));
    lemma_fld_eq("Time", Nbt::Long(a.Time), fld("dayCycleStopTime", Nbt::Long(a.dayCycleStopTime), fld("spawnMobs", Nbt::Byte(spawn_mobs_value(a.spawnMobs)), Seq::empty())), Nbt::Long(b.Time), fld("dayCycleStopTime", Nbt::Long(b.dayCycleStopTime), fld("spawnMobs", Nbt::Byte(spawn_mobs_value(b.spawnMobs)), Seq::empty())));
    lemma_fld_eq("dayCycleStopTime", Nbt::Long(a.dayCycleStopTime), fld("spawnMobs", Nbt::Byte(spawn_mobs_value(a.spawnMobs)), Seq::empty()), Nbt::Long(b.dayCycleStopTime), fld("spawnMobs", Nbt::Byte(spawn_mobs_value(b.spawnMobs)), Seq::empty()));
    lemma_fld_eq("spawnMobs", Nbt::Byte(spawn_mobs_value(a.spawnMobs)), Seq::empty(), Nbt::Byte(spawn_mobs_value(b.spawnMobs)), Seq::empty());
    encode_utf8_decode_utf8(a.LevelName@);
    encode_utf8_decode_utf8(b.LevelName@);
    lemma_lower_player_injective(a.Player, b.Player);
}

/// Binding the node of a level record gives the record back: binding
/// `lower_level(l)` succeeds, and a record whose node is what it yields
/// (as `LevelDat::from_tag` promises of its result) agrees with `l` field for
/// field.
pub proof fn lemma_bind_lower(l: LevelDat, back: LevelDat)
    ensures
        bind_level(lower_level(l)) == Ok::<Nbt, BindError>(lower_level(l)),
        bind_level(lower_level(l)) == Ok::<Nbt, BindError>(lower_level(back)) ==> same_level(l, back),
{
    lemma_bind_level(l);
    if bind_level(lower_level(l)) == Ok::<Nbt, BindError>(lower_level(back)) {
        lemma_lower_level_injective(l, back);
    }
}

/// Two level records agree on every field but the level name.
pub open spec fn same_but_name(a: LevelDat, b: LevelDat) -> bool {
    &&& a.GameType == b.GameType
    &&& a.LastPlayed == b.LastPlayed
    &&& a.Platform == b.Platform
    &&& a.Player.Armor@ == b.Player.Armor@
    &&& a.Player.Dimension == b.Player.Dimension
    &&& a.Player.Inventory@ == b.Player.Inventory@
    &&& a.Player.Score == b.Player.Score
    &&& a.Player.Sleeping == b.Player.Sleeping
    &&& a.Player.SleepTimer == b.Player.SleepTimer
    &&& a.Player.abilities == b.Player.abilities
    &&& a.RandomSeed == b.RandomSeed
    &&& a.SizeOnDisk == b.SizeOnDisk
    &&& a.SpawnX == b.SpawnX
    &&& a.SpawnY == b.SpawnY
    &&& a.SpawnZ == b.SpawnZ
    &&& a.StorageVersion == b.StorageVersion
    &&& a.Time == b.Time
    &&& a.dayCycleStopTime == b.dayCycleStopTime
    &&& a.spawnMobs == b.spawnMobs
}

/// Text spliced between two byte runs, after its two-byte length.
pub open spec fn splice(pre: Seq<u8>, text: Seq<u8>, post: Seq<u8>) -> Seq<u8> {
    pre + u16_le(text.len() as u16) + text + post
}

proof fn lemma_enc_entries_concat(x: Seq<(Seq<u8>, Nbt)>, y: Seq<(Seq<u8>, Nbt)>)
    ensures
        enc_entries(x + y) == enc_entries(x) + enc_entries(y),
    decreases y.len(),
{
    if y.len() == 0 {
        assert(x + y =~= x);
        assert(enc_entries(x) + enc_entries(y) =~= enc_entries(x));
    } else {
        let y0 = y.subrange(0, y.len() - 1);
        lemma_enc_entries_concat(x, y0);
        let xy = x + y;
        assert(xy.subrange(0, xy.len() - 1) =~= x + y0);
        assert(xy[xy.len() - 1] == y[y.len() - 1]);
        let (n, t) = y[y.len() - 1];
        assert(enc_entries(xy) =~= enc_entries(x) + enc_entries(y));
    }
}

/// The fields of a level record after its name.
pub open spec fn fields_after_name(l: LevelDat) -> Seq<(Seq<u8>, Nbt)> {
    fld("Platform", Nbt::Int(l.Platform), fld("Player", lower_player(l.Player), fld("RandomSeed", Nbt::Long(l.RandomSeed), fld("SizeOnDisk", Nbt::Long(l.SizeOnDisk), fld("SpawnX", Nbt::Int(l.SpawnX), fld("SpawnY", Nbt::Int(l.SpawnY), fld("SpawnZ", Nbt::Int(l.SpawnZ), fld("StorageVersion", Nbt::Int(l.StorageVersion), fld("Time", Nbt::Long(l.Time), fld("dayCycleStopTime", Nbt::Long(l.dayCycleStopTime), fld("spawnMobs", Nbt::Byte(spawn_mobs_value(l.spawnMobs)), Seq::empty())))))))))))
}

/// The fields of a level record before its name.
pub open spec fn fields_before_name(l: LevelDat) -> Seq<(Seq<u8>, Nbt)> {
    fld("GameType", Nbt::Int(game_type_value(l.GameType)), fld("LastPlayed", Nbt::Long(l.LastPlayed), Seq::empty()))
}

proof fn lemma_level_fields(l: LevelDat)
    ensures
        lower_level(l)->Compound_0 == fields_before_name(l) + fld("LevelName", Nbt::Str(encode_utf8(l.LevelName@)), Seq::empty()) + fields_after_name(l),
{
    let r = fields_after_name(l);
    let x = fld("GameType", Nbt::Int(game_type_value(l.GameType)), Seq::empty());
    let y = fld("LastPlayed", Nbt::Long(l.LastPlayed), Seq::empty());
    let z = fld("LevelName", Nbt::Str(encode_utf8(l.LevelName@)), Seq::empty());
    assert(lower_level(l)->Compound_0 =~= x + (y + (z + r)));
    assert(fields_before_name(l) =~= x + y);
    assert(x + (y + (z + r)) =~= (x + y) + z + r);
}

/// The bytes of a level document before the name's length prefix.
pub open spec fn bytes_before_name(head: Seq<(Seq<u8>, Nbt)>) -> Seq<u8> {
    seq![crate::tag::COMPOUND_ID] + u16_le(0) + Seq::<u8>::empty() + enc_entries(head) + seq![crate::tag::STRING_ID]
        + u16_le("LevelName".spec_bytes().len() as u16) + "LevelName".spec_bytes()
}

/// The bytes of a level document after the name.
pub open spec fn bytes_after_name(rest: Seq<(Seq<u8>, Nbt)>) -> Seq<u8> {
    enc_entries(rest) + seq![crate::tag::END_ID]
}

proof fn lemma_splice_name(head: Seq<(Seq<u8>, Nbt)>, n: Seq<u8>, rest: Seq<(Seq<u8>, Nbt)>)
    ensures
        enc_named(Seq::empty(), Nbt::Compound(head + fld("LevelName", Nbt::Str(n), Seq::empty()) + rest))
            == splice(bytes_before_name(head), n, bytes_after_name(rest)),
{
    let key = "LevelName".spec_bytes();
    let one = fld("LevelName", Nbt::Str(n), Seq::empty());
    lemma_enc_entries_concat(head + one, rest);
    lemma_enc_entries_concat(head, one);
    assert(one.subrange(0, 0) =~= Seq::<(Seq<u8>, Nbt)>::empty());
    assert(one.len() == 1 && one[0] == (key, Nbt::Str(n)));
    assert(enc_entries(Seq::<(Seq<u8>, Nbt)>::empty()) == Seq::<u8>::empty());
    assert(enc_payload(Nbt::Str(n)) == u16_le(n.len() as u16) + n);
    assert(enc_entries(one) =~= seq![crate::tag::STRING_ID] + u16_le(key.len() as u16) + key + (u16_le(n.len() as u16) + n));
    let es = head + one + rest;
    assert(enc_named(Seq::empty(), Nbt::Compound(es)) == seq![crate::tag::COMPOUND_ID] + u16_le(0) + Seq::<u8>::empty() + (enc_entries(es) + seq![crate::tag::END_ID]));
    assert(enc_named(Seq::empty(), Nbt::Compound(es)) =~= splice(bytes_before_name(head), n, bytes_after_name(rest)));
}

/// Renaming a level changes its encoding only in the name's length prefix and
/// bytes: the encodings of two records that differ only in the level name
/// share every byte before and after those.
pub proof fn lemma_rename(a: LevelDat, b: LevelDat)
    requires
        same_but_name(a, b),
    ensures
        exists|pre: Seq<u8>, post: Seq<u8>|
            enc_named(Seq::empty(), lower_level(a)) == #[trigger] splice(pre, encode_utf8(a.LevelName@), post)
                && enc_named(Seq::empty(), lower_level(b)) == splice(pre, encode_utf8(b.LevelName@), post),
{
    lemma_level_fields(a);
    lemma_level_fields(b);
    let head = fields_before_name(a);
    let rest = fields_after_name(a);
    assert(fields_after_name(a) == fields_after_name(b));
    assert(fields_before_name(a) == fields_before_name(b));
    assert(lower_level(a) == Nbt::Compound(lower_level(a)->Compound_0));
    assert(lower_level(b) == Nbt::Compound(lower_level(b)->Compound_0));
    lemma_splice_name(head, encode_utf8(a.LevelName@), rest);
    lemma_splice_name(head, encode_utf8(b.LevelName@), rest);
    assert(enc_named(Seq::empty(), lower_level(a)) == splice(bytes_before_name(head), encode_utf8(a.LevelName@), bytes_after_name(rest)));
}

} // verus!
