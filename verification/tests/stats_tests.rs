use dsr_save::error::FormatError;
use dsr_save::stats::{CharacterStats, SoulState, StatEdits, RECORD_END};

fn patterned_payload(len: usize) -> Vec<u8> {
    (0..len).map(|i| (i % 251) as u8 ^ 0xa5).collect()
}

fn sample_stats() -> CharacterStats {
    CharacterStats {
        health_current: 0x0102_0304,
        health_max1: 1400,
        health_max2: 1401,
        stamina2: 160,
        stamina3: 0x1122_3344_5566_7788,
        vitality: 40,
        attunement: 12,
        endurance: 41,
        strength: 28,
        dexterity: 42,
        intelligence: 9,
        faith: u64::MAX,
        humanity: 99,
        resistance: 11,
        level: 120,
        souls: 1_234_567,
        earned_souls: 9_876_543_210,
        soul_state: SoulState::Hollow,
        name: String::from("Oscar"),
        is_male: false,
        character_class: 3,
        body_type: 4,
        starting_gift: 5,
        poison_resistance: 6,
        bleeding_resistance: 7,
        poison_resistance2: 8,
        damnation_resistance: 9,
        face: 10,
        hair: 11,
        hair_color: 12,
        deaths: 42,
    }
}

fn assert_same(a: &CharacterStats, b: &CharacterStats) {
    assert_eq!(format!("{:?}", a), format!("{:?}", b));
}

const FIELD_RANGES: [(usize, usize); 10] = [
    (116, 128),
    (164, 232),
    (240, 272),
    (276, 308),
    (317, 321),
    (384, 391),
    (127448, 127452),
    (0, 0),
    (0, 0),
    (0, 0),
];

fn in_field(i: usize) -> bool {
    FIELD_RANGES.iter().any(|(a, b)| *a <= i && i < *b)
}

#[test]
fn soul_state_from_raw() {
    assert_eq!(SoulState::from_raw(0), SoulState::Human);
    assert_eq!(SoulState::from_raw(8), SoulState::Hollow);
    assert_eq!(SoulState::from_raw(3), SoulState::Unknown);
    assert_eq!(SoulState::from_raw(4), SoulState::Unknown);
    assert_eq!(SoulState::from_raw(u32::MAX), SoulState::Unknown);
}

#[test]
fn soul_state_to_raw() {
    assert_eq!(SoulState::Human.to_raw(), 0);
    assert_eq!(SoulState::Hollow.to_raw(), 8);
    assert_eq!(SoulState::Unknown.to_raw(), 4);
}

#[test]
fn soul_state_survives_its_raw_value() {
    for state in [SoulState::Human, SoulState::Hollow, SoulState::Unknown] {
        assert_eq!(SoulState::from_raw(state.to_raw()), state);
    }
}

#[test]
fn deserialize_reads_each_field_at_its_offset() {
    let mut p = vec![0u8; RECORD_END];
    p[116..120].copy_from_slice(&1u32.to_le_bytes());
    p[120..124].copy_from_slice(&2u32.to_le_bytes());
    p[124..128].copy_from_slice(&3u32.to_le_bytes());
    p[164..168].copy_from_slice(&4u32.to_le_bytes());
    p[168..176].copy_from_slice(&5u64.to_le_bytes());
    p[176..184].copy_from_slice(&6u64.to_le_bytes());
    p[184..192].copy_from_slice(&7u64.to_le_bytes());
    p[192..200].copy_from_slice(&8u64.to_le_bytes());
    p[200..208].copy_from_slice(&9u64.to_le_bytes());
    p[208..216].copy_from_slice(&10u64.to_le_bytes());
    p[216..224].copy_from_slice(&11u64.to_le_bytes());
    p[224..232].copy_from_slice(&12u64.to_le_bytes());
    p[240..248].copy_from_slice(&13u64.to_le_bytes());
    p[248..256].copy_from_slice(&14u64.to_le_bytes());
    p[256..260].copy_from_slice(&15u32.to_le_bytes());
    p[260..264].copy_from_slice(&16u32.to_le_bytes());
    p[264..272].copy_from_slice(&0x0102_0304_0506_0708u64.to_le_bytes());
    p[276..280].copy_from_slice(&8u32.to_le_bytes());
    p[280] = b'Z';
    p[282] = b'e';
    p[317] = 1;
    p[318] = 18;
    p[319] = 19;
    p[320] = 20;
    p[384] = 21;
    p[385] = 22;
    p[386] = 23;
    p[387] = 24;
    p[388] = 25;
    p[389] = 26;
    p[390] = 27;
    p[127448..127452].copy_from_slice(&0xdead_beefu32.to_le_bytes());
    let s = CharacterStats::deserialize(&p).unwrap();
    assert_eq!(s.health_current, 1);
    assert_eq!(s.health_max1, 2);
    assert_eq!(s.health_max2, 3);
    assert_eq!(s.stamina2, 4);
    assert_eq!(s.stamina3, 5);
    assert_eq!(s.vitality, 6);
    assert_eq!(s.attunement, 7);
    assert_eq!(s.endurance, 8);
    assert_eq!(s.strength, 9);
    assert_eq!(s.dexterity, 10);
    assert_eq!(s.intelligence, 11);
    assert_eq!(s.faith, 12);
    assert_eq!(s.humanity, 13);
    assert_eq!(s.resistance, 14);
    assert_eq!(s.level, 15);
    assert_eq!(s.souls, 16);
    assert_eq!(s.earned_souls, 0x0102_0304_0506_0708);
    assert_eq!(s.soul_state, SoulState::Hollow);
    assert_eq!(s.name, "Ze");
    assert!(s.is_male);
    assert_eq!(s.character_class, 18);
    assert_eq!(s.body_type, 19);
    assert_eq!(s.starting_gift, 20);
    assert_eq!(s.poison_resistance, 21);
    assert_eq!(s.bleeding_resistance, 22);
    assert_eq!(s.poison_resistance2, 23);
    assert_eq!(s.damnation_resistance, 24);
    assert_eq!(s.face, 25);
    assert_eq!(s.hair, 26);
    assert_eq!(s.hair_color, 27);
    assert_eq!(s.deaths, 0xdead_beef);
}

#[test]
fn deserialize_ignores_the_gaps() {
    let mut p = vec![0u8; RECORD_END];
    let blank = CharacterStats::deserialize(&p).unwrap();
    for i in 0..RECORD_END {
        if !in_field(i) {
            p[i] = 0xff;
        }
    }
    let noisy = CharacterStats::deserialize(&p).unwrap();
    assert_same(&blank, &noisy);
    assert_eq!(blank.soul_state, SoulState::Human);
    assert_eq!(blank.name, "");
    assert!(!blank.is_male);
}

#[test]
fn deserialize_reads_is_male_as_one_only() {
    let mut p = vec![0u8; RECORD_END];
    p[317] = 2;
    assert!(!CharacterStats::deserialize(&p).unwrap().is_male);
    p[317] = 1;
    assert!(CharacterStats::deserialize(&p).unwrap().is_male);
    p[317] = 0;
    assert!(!CharacterStats::deserialize(&p).unwrap().is_male);
}

#[test]
fn deserialize_maps_other_soul_states_to_unknown() {
    let mut p = vec![0u8; RECORD_END];
    p[276] = 3;
    assert_eq!(CharacterStats::deserialize(&p).unwrap().soul_state, SoulState::Unknown);
    p[276] = 0;
    p[279] = 1;
    assert_eq!(CharacterStats::deserialize(&p).unwrap().soul_state, SoulState::Unknown);
}

#[test]
fn deserialize_gives_an_empty_name_for_bad_utf16() {
    let mut p = vec![0u8; RECORD_END];
    p[280] = 0x3d;
    p[281] = 0xd8;
    p[282] = b'A';
    assert_eq!(CharacterStats::deserialize(&p).unwrap().name, "");
}

#[test]
fn deserialize_rejects_a_short_payload() {
    assert_eq!(CharacterStats::deserialize(&[]).err(), Some(FormatError::Truncated));
    let almost = vec![0u8; RECORD_END - 1];
    assert_eq!(CharacterStats::deserialize(&almost).err(), Some(FormatError::Truncated));
    assert!(CharacterStats::deserialize(&vec![0u8; RECORD_END]).is_ok());
    assert!(CharacterStats::deserialize(&vec![0u8; RECORD_END + 100]).is_ok());
}

#[test]
fn record_end_is_the_end_of_deaths() {
    assert_eq!(RECORD_END, 127448 + 4);
}

#[test]
fn serialize_writes_the_exact_bytes() {
    let mut p = vec![0u8; RECORD_END];
    sample_stats().serialize(&mut p).unwrap();
    assert_eq!(&p[116..128], &[4, 3, 2, 1, 0x78, 5, 0, 0, 0x79, 5, 0, 0]);
    assert_eq!(&p[164..168], &[160, 0, 0, 0]);
    assert_eq!(&p[168..176], &[0x88, 0x77, 0x66, 0x55, 0x44, 0x33, 0x22, 0x11]);
    assert_eq!(&p[176..184], &40u64.to_le_bytes());
    assert_eq!(&p[224..232], &[0xff; 8]);
    assert_eq!(&p[232..240], &[0; 8]);
    assert_eq!(&p[240..248], &99u64.to_le_bytes());
    assert_eq!(&p[256..260], &120u32.to_le_bytes());
    assert_eq!(&p[260..264], &1_234_567u32.to_le_bytes());
    assert_eq!(&p[264..272], &9_876_543_210u64.to_le_bytes());
    assert_eq!(&p[272..276], &[0; 4]);
    assert_eq!(&p[276..280], &[8, 0, 0, 0]);
    assert_eq!(&p[280..290], &[b'O', 0, b's', 0, b'c', 0, b'a', 0, b'r', 0]);
    assert_eq!(&p[290..308], &[0; 18]);
    assert_eq!(&p[308..317], &[0; 9]);
    assert_eq!(&p[317..321], &[0, 3, 4, 5]);
    assert_eq!(&p[384..391], &[6, 7, 8, 9, 10, 11, 12]);
    assert_eq!(&p[127448..127452], &[42, 0, 0, 0]);
}

#[test]
fn serialize_keeps_every_gap_byte() {
    let before = patterned_payload(RECORD_END + 33);
    let mut after = before.clone();
    sample_stats().serialize(&mut after).unwrap();
    assert_eq!(after.len(), before.len());
    for i in 0..before.len() {
        if !in_field(i) {
            assert_eq!(after[i], before[i], "gap byte {} changed", i);
        }
    }
    assert_ne!(after, before);
}

#[test]
fn serialize_then_deserialize_gives_the_record_back() {
    let mut p = patterned_payload(RECORD_END);
    let stats = sample_stats();
    stats.serialize(&mut p).unwrap();
    assert_same(&CharacterStats::deserialize(&p).unwrap(), &stats);
}

#[test]
fn every_soul_state_comes_back() {
    for state in [SoulState::Human, SoulState::Hollow, SoulState::Unknown] {
        let mut stats = sample_stats();
        stats.soul_state = state;
        let mut p = patterned_payload(RECORD_END);
        stats.serialize(&mut p).unwrap();
        assert_eq!(CharacterStats::deserialize(&p).unwrap().soul_state, state);
    }
}

#[test]
fn unknown_soul_state_is_written_as_four() {
    let mut stats = sample_stats();
    stats.soul_state = SoulState::Unknown;
    let mut p = vec![0xeeu8; RECORD_END];
    stats.serialize(&mut p).unwrap();
    assert_eq!(&p[276..280], &[4, 0, 0, 0]);
}

#[test]
fn is_male_is_written_as_one_or_zero() {
    let mut stats = sample_stats();
    let mut p = vec![0xeeu8; RECORD_END];
    stats.is_male = true;
    stats.serialize(&mut p).unwrap();
    assert_eq!(p[317], 1);
    stats.is_male = false;
    stats.serialize(&mut p).unwrap();
    assert_eq!(p[317], 0);
}

#[test]
fn five_character_name_round_trips() {
    let mut stats = sample_stats();
    stats.name = String::from("Abcde");
    let mut p = vec![0xffu8; RECORD_END];
    stats.serialize(&mut p).unwrap();
    assert_eq!(&p[280..292], &[b'A', 0, b'b', 0, b'c', 0, b'd', 0, b'e', 0, 0, 0]);
    assert_eq!(&p[292..308], &[0; 16]);
    assert_eq!(CharacterStats::deserialize(&p).unwrap().name, "Abcde");
}

#[test]
fn fourteen_character_name_fills_the_field() {
    let mut stats = sample_stats();
    stats.name = String::from("ABCDEFGHIJKLMN");
    let mut p = vec![0xffu8; RECORD_END];
    stats.serialize(&mut p).unwrap();
    for i in 0..14 {
        assert_eq!(p[280 + 2 * i], b'A' + i as u8);
        assert_eq!(p[281 + 2 * i], 0);
    }
    assert_eq!(p[308], 0xff);
    assert_eq!(CharacterStats::deserialize(&p).unwrap().name, "ABCDEFGHIJKLMN");
}

#[test]
fn fifteen_character_name_is_cut_to_fourteen() {
    let mut stats = sample_stats();
    stats.name = String::from("ABCDEFGHIJKLMNO");
    let mut p = vec![0xffu8; RECORD_END];
    assert_eq!(stats.serialize(&mut p), Ok(()));
    assert_eq!(p[306], b'N');
    assert_eq!(p[308], 0xff);
    assert_eq!(CharacterStats::deserialize(&p).unwrap().name, "ABCDEFGHIJKLMN");
}

#[test]
fn empty_name_clears_the_field() {
    let mut stats = sample_stats();
    stats.name = String::new();
    let mut p = vec![0xffu8; RECORD_END];
    stats.serialize(&mut p).unwrap();
    assert_eq!(&p[280..308], &[0; 28]);
    assert_eq!(CharacterStats::deserialize(&p).unwrap().name, "");
}

#[test]
fn name_with_a_nul_comes_back_cut() {
    let mut stats = sample_stats();
    stats.name = String::from("ab\u{0}cd");
    let mut p = vec![0u8; RECORD_END];
    stats.serialize(&mut p).unwrap();
    assert_eq!(CharacterStats::deserialize(&p).unwrap().name, "ab");
}

#[test]
fn serialize_rejects_a_short_payload_and_leaves_it() {
    let mut p = patterned_payload(RECORD_END - 1);
    let before = p.clone();
    assert_eq!(sample_stats().serialize(&mut p), Err(FormatError::Truncated));
    assert_eq!(p, before);
    let mut empty = Vec::new();
    assert_eq!(sample_stats().serialize(&mut empty), Err(FormatError::Truncated));
    assert!(empty.is_empty());
}

#[test]
fn serialize_twice_is_serialize_once() {
    let mut once = patterned_payload(RECORD_END);
    sample_stats().serialize(&mut once).unwrap();
    let mut twice = once.clone();
    sample_stats().serialize(&mut twice).unwrap();
    assert_eq!(once, twice);
}

#[test]
fn defaults_are_those_of_a_new_character() {
    let d = CharacterStats::defaults();
    assert_eq!(d.health_current, 0);
    assert_eq!(d.health_max1, 400);
    assert_eq!(d.health_max2, 400);
    assert_eq!(d.stamina2, 0);
    assert_eq!(d.stamina3, 0);
    assert_eq!(d.vitality, 10);
    assert_eq!(d.attunement, 10);
    assert_eq!(d.endurance, 10);
    assert_eq!(d.strength, 10);
    assert_eq!(d.dexterity, 10);
    assert_eq!(d.intelligence, 10);
    assert_eq!(d.faith, 10);
    assert_eq!(d.humanity, 0);
    assert_eq!(d.resistance, 10);
    assert_eq!(d.level, 1);
    assert_eq!(d.souls, 0);
    assert_eq!(d.earned_souls, 0);
    assert_eq!(d.soul_state, SoulState::Human);
    assert_eq!(d.name, "");
    assert!(d.is_male);
    assert_eq!(d.character_class, 0);
    assert_eq!(d.hair_color, 0);
    assert_eq!(d.deaths, 0);
}

#[test]
fn edits_set_their_fields_and_keep_the_others() {
    let edits = StatEdits {
        name: String::from("Siegmeyer"),
        level: 77,
        souls: 5000,
        strength: 50,
        dexterity: 14,
        intelligence: 8,
        faith: 16,
        vitality: 45,
        endurance: 40,
        humanity: 10,
        health_max: 1600,
        character_class: 2,
        is_male: true,
    };
    let s = sample_stats().with_edits(edits);
    assert_eq!(s.name, "Siegmeyer");
    assert_eq!(s.level, 77);
    assert_eq!(s.souls, 5000);
    assert_eq!(s.strength, 50);
    assert_eq!(s.dexterity, 14);
    assert_eq!(s.intelligence, 8);
    assert_eq!(s.faith, 16);
    assert_eq!(s.vitality, 45);
    assert_eq!(s.endurance, 40);
    assert_eq!(s.humanity, 10);
    assert_eq!(s.health_current, 1600);
    assert_eq!(s.health_max1, 1600);
    assert_eq!(s.health_max2, 1600);
    assert_eq!(s.character_class, 2);
    assert!(s.is_male);
    let kept = sample_stats();
    assert_eq!(s.stamina2, kept.stamina2);
    assert_eq!(s.stamina3, kept.stamina3);
    assert_eq!(s.attunement, kept.attunement);
    assert_eq!(s.resistance, kept.resistance);
    assert_eq!(s.earned_souls, kept.earned_souls);
    assert_eq!(s.soul_state, kept.soul_state);
    assert_eq!(s.body_type, kept.body_type);
    assert_eq!(s.starting_gift, kept.starting_gift);
    assert_eq!(s.poison_resistance, kept.poison_resistance);
    assert_eq!(s.bleeding_resistance, kept.bleeding_resistance);
    assert_eq!(s.poison_resistance2, kept.poison_resistance2);
    assert_eq!(s.damnation_resistance, kept.damnation_resistance);
    assert_eq!(s.face, kept.face);
    assert_eq!(s.hair, kept.hair);
    assert_eq!(s.hair_color, kept.hair_color);
    assert_eq!(s.deaths, kept.deaths);
}
