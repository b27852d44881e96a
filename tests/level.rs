use pe::{
    decode, encode, load_nbt, save_level, ArmorItem, BindError, Entry, GameType, InventoryItem,
    IsSleeping, LevelDat, LoadError, Player, PlayerAbilities, SpawnMobs, Tag,
};

fn sample_level() -> LevelDat {
    LevelDat {
        GameType: GameType::Creative,
        LastPlayed: 1_700_000_000,
        LevelName: "My World".to_string(),
        Platform: 2,
        Player: Player {
            Armor: vec![
                ArmorItem { id: 298, Count: 1, Damage: 0 },
                ArmorItem { id: 0, Count: 0, Damage: 0 },
            ],
            Dimension: 0,
            Inventory: vec![InventoryItem { Slot: 9, id: 1, Count: 64, Damage: 0 }],
            Score: 10,
            Sleeping: IsSleeping::NotSleeping,
            SleepTimer: 0,
            abilities: PlayerAbilities { mayfly: true },
        },
        RandomSeed: -123456789,
        SizeOnDisk: 0,
        SpawnX: 128,
        SpawnY: 64,
        SpawnZ: -7,
        StorageVersion: 3,
        Time: 19200,
        dayCycleStopTime: 5000,
        spawnMobs: SpawnMobs::Enable,
    }
}

fn set_child(t: &mut Tag, name: &str, value: Tag) {
    if let Tag::Compound(es) = t {
        for e in es.iter_mut() {
            if e.name == name.as_bytes() {
                e.value = value;
                return;
            }
        }
    }
    panic!("no child {name}");
}

fn remove_child(t: &mut Tag, name: &str) {
    if let Tag::Compound(es) = t {
        es.retain(|e| e.name != name.as_bytes());
    }
}

#[test]
fn lowered_record_binds_back_to_itself() {
    let l = sample_level();
    let back = LevelDat::from_tag(&l.to_tag()).unwrap();
    assert_eq!(back, l);
}

#[test]
fn saved_record_loads_back() {
    let l = sample_level();
    let bytes = save_level(&l).unwrap();
    assert_eq!(load_nbt(&bytes), Ok(l));
}

#[test]
fn enum_value_two_is_rejected() {
    let mut t = sample_level().to_tag();
    set_child(&mut t, "GameType", Tag::Int(2));
    assert_eq!(LevelDat::from_tag(&t), Err(BindError::InvalidEnumDiscriminant));
    let mut t = sample_level().to_tag();
    set_child(&mut t, "spawnMobs", Tag::Byte(2));
    assert_eq!(LevelDat::from_tag(&t), Err(BindError::InvalidEnumDiscriminant));
    let mut p = sample_level().Player.to_tag();
    set_child(&mut p, "Sleeping", Tag::Byte(2));
    assert_eq!(Player::from_tag(&p), Err(BindError::InvalidEnumDiscriminant));
}

#[test]
fn enum_values_bind() {
    let mut p = sample_level().Player.to_tag();
    set_child(&mut p, "Sleeping", Tag::Byte(1));
    assert_eq!(Player::from_tag(&p).unwrap().Sleeping, IsSleeping::Sleeping);
    let mut t = sample_level().to_tag();
    set_child(&mut t, "GameType", Tag::Int(0));
    assert_eq!(LevelDat::from_tag(&t).unwrap().GameType, GameType::Survival);
}

#[test]
fn missing_field_is_reported() {
    let mut t = sample_level().to_tag();
    remove_child(&mut t, "Time");
    assert_eq!(LevelDat::from_tag(&t), Err(BindError::MissingField));
}

#[test]
fn width_mismatch_is_reported() {
    let mut t = sample_level().to_tag();
    set_child(&mut t, "SpawnX", Tag::Long(128));
    assert_eq!(LevelDat::from_tag(&t), Err(BindError::FieldTypeMismatch));
    let mut p = sample_level().Player.to_tag();
    set_child(&mut p, "Armor", Tag::List(0, vec![]));
    assert_eq!(Player::from_tag(&p), Err(BindError::FieldTypeMismatch));
    assert_eq!(LevelDat::from_tag(&Tag::Int(1)), Err(BindError::FieldTypeMismatch));
}

#[test]
fn first_failing_field_wins() {
    let mut t = sample_level().to_tag();
    set_child(&mut t, "GameType", Tag::Byte(0));
    remove_child(&mut t, "Time");
    assert_eq!(LevelDat::from_tag(&t), Err(BindError::FieldTypeMismatch));
}

#[test]
fn invalid_text_is_reported() {
    let mut t = sample_level().to_tag();
    set_child(&mut t, "LevelName", Tag::Str(vec![0xff, 0xfe]));
    assert_eq!(LevelDat::from_tag(&t), Err(BindError::InvalidText));
}

#[test]
fn extra_fields_are_dropped_and_order_follows_the_record() {
    let l = sample_level();
    let mut t = l.to_tag();
    if let Tag::Compound(es) = &mut t {
        es.reverse();
        es.push(Entry { name: b"Extra".to_vec(), value: Tag::Byte(1) });
    }
    let back = LevelDat::from_tag(&t).unwrap();
    assert_eq!(back, l);
    assert_eq!(back.to_tag(), l.to_tag());
}

#[test]
fn nonzero_byte_reads_as_true() {
    let mut a = PlayerAbilities { mayfly: false }.to_tag();
    assert_eq!(PlayerAbilities::from_tag(&a), Ok(PlayerAbilities { mayfly: false }));
    set_child(&mut a, "mayfly", Tag::Byte(7));
    assert_eq!(PlayerAbilities::from_tag(&a), Ok(PlayerAbilities { mayfly: true }));
}

#[test]
fn renaming_changes_only_the_name_bytes() {
    let l = sample_level();
    let before = save_level(&l).unwrap();
    let mut renamed = l.clone();
    renamed.LevelName = "LAN World, renamed".to_string();
    let after = save_level(&renamed).unwrap();
    let old_len = l.LevelName.len();
    let new_len = renamed.LevelName.len();
    assert_eq!(after.len() - before.len(), new_len - old_len);
    let key = b"LevelName";
    let at = before.windows(key.len()).position(|w| w == key).unwrap() + key.len();
    assert_eq!(&before[..at], &after[..at]);
    assert_eq!(u16::from_le_bytes([after[at], after[at + 1]]) as usize, new_len);
    assert_eq!(&after[at + 2..at + 2 + new_len], renamed.LevelName.as_bytes());
    assert_eq!(&before[at + 2 + old_len..], &after[at + 2 + new_len..]);
}

#[test]
fn load_errors_say_which_stage_failed() {
    assert_eq!(load_nbt(&[13]), Err(LoadError::Decode(pe::DecodeError::UnknownTagId(13))));
    let doc = Entry { name: vec![], value: Tag::Compound(vec![]) };
    assert_eq!(load_nbt(&encode(&doc)), Err(LoadError::Bind(BindError::MissingField)));
}

#[test]
fn saved_level_is_a_document_with_an_empty_root_name() {
    let l = sample_level();
    let bytes = save_level(&l).unwrap();
    assert_eq!(&bytes[..3], &[10, 0, 0]);
    let (root, used) = decode(&bytes).unwrap();
    assert_eq!(used, bytes.len());
    assert_eq!(root.value, l.to_tag());
}
