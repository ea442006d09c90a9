//! Tests of the text and creature codecs and the plain data types.

use pkroam::pokemon::{
    compute_checksum, encrypt_decrypt_pk3, get_offset_for_substructure, language_from_byte,
    Component, EggData, Language, Pokemon, PK3_SIZE_BOX, PK3_SIZE_PARTY,
};
use pkroam::types::{
    BoxLocation, DataError, DataFormat, Game, MonsterData, Monster, Playtime, Save,
};
use pkroam::{decode_text, SaveError, TrainerId};

fn write_u16(buf: &mut [u8], off: usize, v: u16) {
    buf[off] = (v & 0xff) as u8;
    buf[off + 1] = (v >> 8) as u8;
}

fn write_u32(buf: &mut [u8], off: usize, v: u32) {
    buf[off] = (v & 0xff) as u8;
    buf[off + 1] = ((v >> 8) & 0xff) as u8;
    buf[off + 2] = ((v >> 16) & 0xff) as u8;
    buf[off + 3] = ((v >> 24) & 0xff) as u8;
}

/// An encrypted box-form blob with the given identity and species, an
/// English language byte, and a correct checksum.
fn make_blob(pv: u32, ot_public: u16, ot_secret: u16, species: u16) -> Vec<u8> {
    let mut d = vec![0u8; PK3_SIZE_BOX];
    write_u32(&mut d, 0, pv);
    write_u16(&mut d, 4, ot_public);
    write_u16(&mut d, 6, ot_secret);
    for i in 8..18 {
        d[i] = 0xff;
    }
    d[8] = 0xd1; // 'w'
    d[9] = 0xe9; // 'u'
    d[0x12] = 2; // English
    for i in 0x14..0x1b {
        d[i] = 0xff;
    }
    let growth = get_offset_for_substructure(pv, Component::Growth);
    write_u16(&mut d, 32 + growth, species);
    let checksum = compute_checksum(&d[32..80]);
    write_u16(&mut d, 0x1c, checksum);
    encrypt_decrypt_pk3(&mut d);
    d
}

#[test]
fn decodes_letters_and_stops_at_terminator() {
    let bytes = [0xbbu8, 0xd5, 0xee, 0x00, 0xfa, 0xbb];
    let text = decode_text(&bytes);
    assert_eq!(text, "Aaz*");
}

#[test]
fn decodes_full_alphabet_bounds() {
    assert_eq!(decode_text(&[0xbb, 0xd4, 0xd5, 0xee]), "AZaz");
    assert_eq!(decode_text(&[0xef, 0xf9]), "**");
    assert_eq!(decode_text(&[0xff]), "");
    assert_eq!(decode_text(&[]), "");
}

#[test]
fn language_bytes_map_exactly() {
    assert_eq!(language_from_byte(1), Some(Language::Japanese));
    assert_eq!(language_from_byte(2), Some(Language::English));
    assert_eq!(language_from_byte(3), Some(Language::French));
    assert_eq!(language_from_byte(4), Some(Language::Italian));
    assert_eq!(language_from_byte(5), Some(Language::German));
    assert_eq!(language_from_byte(7), Some(Language::Spanish));
    assert_eq!(language_from_byte(6), None);
    assert_eq!(language_from_byte(0), None);
}

#[test]
fn egg_data_splits_bits() {
    let egg = EggData::from_byte(0b101);
    assert!(egg.is_bad_egg);
    assert!(!egg.has_species);
    assert!(egg.use_egg_name);
}

#[test]
fn permutation_table_row_zero_and_last() {
    assert_eq!(get_offset_for_substructure(0, Component::Growth), 0);
    assert_eq!(get_offset_for_substructure(0, Component::Attacks), 12);
    assert_eq!(get_offset_for_substructure(0, Component::EvsConditions), 24);
    assert_eq!(get_offset_for_substructure(0, Component::Miscellaneous), 36);
    assert_eq!(get_offset_for_substructure(23, Component::Growth), 36);
    assert_eq!(get_offset_for_substructure(23, Component::Attacks), 24);
    assert_eq!(get_offset_for_substructure(23, Component::EvsConditions), 12);
    assert_eq!(get_offset_for_substructure(23, Component::Miscellaneous), 0);
}

#[test]
fn permutation_table_is_total() {
    for p in 0..24u32 {
        let mut seen = [false; 4];
        for component in [
            Component::Growth,
            Component::Attacks,
            Component::EvsConditions,
            Component::Miscellaneous,
        ] {
            let off = get_offset_for_substructure(p, component);
            assert_eq!(off % 12, 0);
            assert!(off <= 36);
            let idx = off / 12;
            assert!(!seen[idx], "offset {} repeated for permutation {}", off, p);
            seen[idx] = true;
        }
    }
}

#[test]
fn creature_decodes_to_its_fields() {
    let blob = make_blob(0x12345678, 0xaaaa, 0x5555, 265);
    let pkmn = Pokemon::from_pk3(&blob).unwrap();
    assert_eq!(pkmn.personality_value, 0x12345678);
    assert_eq!(
        pkmn.original_trainer_id,
        TrainerId {
            public_id: 0xaaaa,
            secret_id: 0x5555
        }
    );
    assert_eq!(pkmn.species, 265);
    assert_eq!(pkmn.nickname, "Wu");
    assert_eq!(pkmn.origin_language, Language::English);
    assert!(pkmn.checksum_ok);
    assert!(!pkmn.is_egg);
}

#[test]
fn creature_round_trips_exactly() {
    let blob = make_blob(0xdeadbeef, 1, 2, 151);
    let pkmn = Pokemon::from_pk3(&blob).unwrap();
    let encoded = pkmn.to_pk3();
    assert_eq!(encoded, blob);
}

#[test]
fn party_form_round_trips_exactly() {
    let mut blob = make_blob(7, 8, 9, 25);
    blob.extend_from_slice(&[0x11u8; 20]);
    assert_eq!(blob.len(), PK3_SIZE_PARTY);
    let pkmn = Pokemon::from_pk3(&blob).unwrap();
    let encoded = pkmn.to_pk3();
    assert_eq!(encoded, blob);
}

#[test]
fn wrong_size_blob_is_malformed() {
    let blob = vec![0u8; 79];
    assert!(matches!(
        Pokemon::from_pk3(&blob),
        Err(SaveError::MalformedCreature)
    ));
    assert!(matches!(
        Pokemon::from_pk3(&vec![0u8; 81]),
        Err(SaveError::MalformedCreature)
    ));
}

#[test]
fn invalid_language_is_malformed() {
    let mut blob = make_blob(1, 2, 3, 4);
    // The language byte sits in the clear header, so it can be patched on
    // the encrypted blob directly.
    blob[0x12] = 6;
    match Pokemon::from_pk3(&blob) {
        Err(SaveError::MalformedCreature) => {}
        other => panic!("expected MalformedCreature, got {:?}", other),
    }
}

#[test]
fn stale_checksum_is_tolerated_but_recorded() {
    let mut blob = make_blob(42, 43, 44, 45);
    // Flip one encrypted data byte: the record still decodes, but the
    // stored checksum no longer matches.
    blob[70] ^= 0x01;
    let pkmn = Pokemon::from_pk3(&blob).unwrap();
    assert!(!pkmn.checksum_ok);
}

#[test]
fn clear_evs_rewrites_checksum() {
    // For personality 3 the EVs substructure sits at offset 12 of the data
    // region; put nonzero EV bytes there, and a sentinel in another
    // substructure, before encoding.
    let evs_off = 32 + get_offset_for_substructure(3, Component::EvsConditions);
    assert_eq!(evs_off, 44);
    let mut blob = make_blob(3, 4, 5, 6);
    encrypt_decrypt_pk3(&mut blob);
    for i in evs_off..evs_off + 6 {
        blob[i] = 9;
    }
    blob[60] = 0x77;
    let checksum = compute_checksum(&blob[32..80]);
    write_u16(&mut blob, 0x1c, checksum);
    encrypt_decrypt_pk3(&mut blob);

    let mut pkmn = Pokemon::from_pk3(&blob).unwrap();
    assert!(pkmn.checksum_ok);
    assert_eq!(pkmn.evs, [9u8; 6]);
    pkmn.clear_evs();
    assert_eq!(pkmn.evs, [0u8; 6]);
    for i in evs_off..evs_off + 6 {
        assert_eq!(pkmn.source_data[i], 0);
    }
    // Bytes of the other substructures keep their values.
    assert_eq!(pkmn.source_data[60], 0x77);
    let recomputed = compute_checksum(&pkmn.source_data[32..80]);
    assert_eq!(
        pkmn.source_data[28] as u16 | ((pkmn.source_data[29] as u16) << 8),
        recomputed
    );
}

#[test]
fn game_ids_round_trip() {
    let variants = Game::variants();
    assert_eq!(
        variants,
        vec![
            Game::Ruby,
            Game::Sapphire,
            Game::Emerald,
            Game::FireRed,
            Game::LeafGreen
        ]
    );
    for (i, game) in variants.iter().enumerate() {
        assert_eq!(Game::from_u32(i as u32), Some(*game));
        assert_eq!(game.to_u32(), i as u32);
    }
    assert_eq!(Game::from_u32(5), None);
}

#[test]
fn playtime_rejects_out_of_unit_fields() {
    assert!(Playtime::new(9999, 59, 59).is_ok());
    assert_eq!(Playtime::new(1, 60, 0), Err(DataError::InvalidPlaytime));
    assert_eq!(Playtime::new(1, 0, 60), Err(DataError::InvalidPlaytime));
}

#[test]
fn box_location_counts_from_one() {
    assert!(BoxLocation::new(1, 1, None).is_ok());
    assert_eq!(
        BoxLocation::new(0, 1, None),
        Err(DataError::InvalidBoxLocation)
    );
    assert_eq!(
        BoxLocation::new(1, 0, Some(3)),
        Err(DataError::InvalidBoxLocation)
    );
}

#[test]
fn monster_data_indexes_blob_header() {
    let blob = make_blob(0x01020304, 0x1111, 0x2222, 300);
    let mon = MonsterData::from_pk3(&blob).unwrap();
    assert_eq!(mon.personality_value, 0x01020304);
    assert_eq!(mon.original_trainer_id, 0x1111);
    assert_eq!(mon.original_secret_id, 0x2222);
    assert_eq!(mon.data_format, DataFormat::PK3);
    assert_eq!(mon.data, blob);
    assert_eq!(mon.id, None);
}

#[test]
fn save_row_conversions_round_trip() {
    let data = pkroam::types::GameSaveData::new(
        Game::Emerald,
        "MAY",
        7,
        8,
        10,
        20,
        30,
        String::from("/tmp/emerald.sav"),
        true,
    )
    .unwrap();
    let row = Save::from_data(data);
    assert_eq!(row.game, 2);
    assert_eq!(row.connected, 1);
    let back = row.try_into_data().unwrap();
    assert_eq!(back.game, Game::Emerald);
    assert_eq!(back.trainer_name, "MAY");
    assert_eq!(back.playtime.minutes, 20);
    assert!(back.connected);
}

#[test]
fn save_row_rejects_unknown_game() {
    let row = Save {
        id: 1,
        game: 9,
        trainer_name: String::from("X"),
        trainer_id: 0,
        secret_id: 0,
        playtime_hours: 0,
        playtime_minutes: 0,
        playtime_frames: 0,
        save_path: String::from("p"),
        connected: 0,
    };
    assert_eq!(row.try_into_data().err(), Some(DataError::InvalidGameId));
}

#[test]
fn monster_row_rejects_unknown_format() {
    let row = Monster {
        id: 1,
        original_trainer_id: 2,
        original_secret_id: 3,
        personality_value: 4,
        data_format: 7,
        data: vec![0u8; 80],
    };
    assert_eq!(row.try_into_data().err(), Some(DataError::InvalidDataFormat));
}
