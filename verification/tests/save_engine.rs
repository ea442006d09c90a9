//! Tests of the save-image engine: opening, rotation, checksums, box-slot
//! reads and writes, and the straddle handling.

use pkroam::pokemon::{compute_checksum, encrypt_decrypt_pk3, get_offset_for_substructure, Component};
use pkroam::save::{
    compute_section_id_and_offset_for_box_slot, GameCode, PlayerGender, SaveFile,
    GAME_SAVE_DATA_LENGTH, SECTION_DATA_SIZE,
};
use pkroam::SaveError;

fn write_u16(buf: &mut [u8], off: usize, v: u16) {
    buf[off] = (v & 0xff) as u8;
    buf[off + 1] = (v >> 8) as u8;
}

fn write_u32(buf: &mut [u8], off: usize, v: u32) {
    buf[off] = (v & 0xff) as u8;
    buf[off + 1] = ((v >> 8) & 0xff) as u8;
    buf[off + 2] = ((v >> 16) & 0xff) as u8;
    buf[off + 3] = ((v >> 24) & 0xff) as u8;
}

/// A fresh save image: slot A current (save index 1, B empty), sections
/// rotated so that physical 0 holds logical `id0`, the trainer block
/// filled in, and the game-code word set.
fn make_save(id0: u16, game_code_word: u32) -> Vec<u8> {
    let mut s = vec![0u8; GAME_SAVE_DATA_LENGTH];
    write_u32(&mut s, 0x0ffc, 1);
    write_u32(&mut s, 0xe000 + 0x0ffc, 0xffff_ffff);
    for k in 0..14usize {
        let id = ((k as u16) + id0) % 14;
        write_u16(&mut s, k * 0x1000 + 0x0ff4, id);
    }
    // Logical section 0 sits at physical position (14 - id0) % 14.
    let rot = ((14 - id0) % 14) as usize;
    let sec0 = rot * 0x1000;
    s[sec0] = 0xc7; // 'M'
    s[sec0 + 1] = 0xbb; // 'A'
    s[sec0 + 2] = 0xd3; // 'Y'
    for i in 3..7 {
        s[sec0 + i] = 0xff;
    }
    s[sec0 + 8] = 1; // female
    write_u32(&mut s, sec0 + 10, 0x5555_aaaa);
    write_u16(&mut s, sec0 + 14, 12); // hours
    s[sec0 + 16] = 34; // minutes
    s[sec0 + 17] = 56; // seconds
    s[sec0 + 18] = 7; // frames
    write_u32(&mut s, sec0 + 0xac, game_code_word);
    s
}

/// An encrypted box-form blob with a correct checksum.
fn make_blob(pv: u32, ot_public: u16, ot_secret: u16, species: u16) -> Vec<u8> {
    let mut d = vec![0u8; 80];
    write_u32(&mut d, 0, pv);
    write_u16(&mut d, 4, ot_public);
    write_u16(&mut d, 6, ot_secret);
    for i in 8..18 {
        d[i] = 0xff;
    }
    d[0x12] = 2;
    for i in 0x14..0x1b {
        d[i] = 0xff;
    }
    let growth = get_offset_for_substructure(pv, Component::Growth);
    write_u16(&mut d, 32 + growth, species);
    let checksum = compute_checksum(&d[32..80]);
    write_u16(&mut d, 0x1c, checksum);
    encrypt_decrypt_pk3(&mut d);
    d
}

#[test]
fn short_image_is_bad_length() {
    let result = SaveFile::new(vec![0u8; 1000]);
    assert!(matches!(result, Err(SaveError::BadLength)));
}

#[test]
fn non_cyclic_ids_are_bad_rotation() {
    let mut s = make_save(0, 2);
    // Swap the ids of physical sections 3 and 4.
    write_u16(&mut s, 3 * 0x1000 + 0x0ff4, 4);
    write_u16(&mut s, 4 * 0x1000 + 0x0ff4, 3);
    assert!(matches!(SaveFile::new(s), Err(SaveError::BadRotation)));
}

#[test]
fn oversized_section_id_is_bad_rotation() {
    let mut s = make_save(0, 2);
    write_u16(&mut s, 0x0ff4, 14);
    assert!(matches!(SaveFile::new(s), Err(SaveError::BadRotation)));
}

#[test]
fn invalid_gender_byte_fails_open() {
    let mut s = make_save(0, 2);
    s[8] = 2; // section 0 is physical 0 when id0 == 0
    assert!(matches!(
        SaveFile::new(s),
        Err(SaveError::MalformedTrainerInfo)
    ));
}

#[test]
fn open_parses_trainer_info_and_game_code() {
    let save = SaveFile::new(make_save(0, 2)).unwrap();
    assert_eq!(save.get_game_code(), GameCode::Emerald);
    let info = save.get_trainer_info();
    assert_eq!(info.player_name, "MAY");
    assert_eq!(info.player_gender, PlayerGender::Female);
    assert_eq!(info.id.public_id, 0xaaaa);
    assert_eq!(info.id.secret_id, 0x5555);
    assert_eq!(info.time_played.hours, 12);
    assert_eq!(info.time_played.minutes, 34);
    assert_eq!(info.time_played.seconds, 56);
    assert_eq!(info.time_played.frames, 7);

    let ruby = SaveFile::new(make_save(0, 0)).unwrap();
    assert_eq!(ruby.get_game_code(), GameCode::RubySapphire);
    let frlg = SaveFile::new(make_save(0, 1)).unwrap();
    assert_eq!(frlg.get_game_code(), GameCode::FireRedLeafGreen);
}

#[test]
fn slot_b_is_current_when_newer() {
    let mut s = make_save(0, 2);
    // Make slot B current with a larger save index and its own rotation.
    write_u32(&mut s, 0x0ffc, 1);
    write_u32(&mut s, 0xe000 + 0x0ffc, 2);
    for k in 0..14usize {
        write_u16(&mut s, 0xe000 + k * 0x1000 + 0x0ff4, k as u16);
    }
    let sec0 = 0xe000;
    s[sec0 + 8] = 0;
    for i in 0..7 {
        s[sec0 + i] = 0xff;
    }
    write_u32(&mut s, sec0 + 0xac, 0);
    let save = SaveFile::new(s).unwrap();
    assert_eq!(save.get_game_code(), GameCode::RubySapphire);
    assert_eq!(save.get_trainer_info().player_gender, PlayerGender::Male);
}

#[test]
fn box_slot_locations_are_exact() {
    assert_eq!(
        compute_section_id_and_offset_for_box_slot(1, 1),
        Some((5, 4))
    );
    // Entry 49 starts at 49 * 80 + 4 = 3924, whose 80 bytes straddle the
    // section boundary at 3968.
    assert_eq!(
        compute_section_id_and_offset_for_box_slot(2, 20),
        Some((5, 3924))
    );
    assert_eq!(
        compute_section_id_and_offset_for_box_slot(14, 30),
        Some((13, 33524 - 8 * SECTION_DATA_SIZE))
    );
    assert_eq!(compute_section_id_and_offset_for_box_slot(15, 1), None);
    assert_eq!(compute_section_id_and_offset_for_box_slot(0, 1), None);
    assert_eq!(compute_section_id_and_offset_for_box_slot(1, 31), None);
}

#[test]
fn write_recomputes_checksums_and_verify_passes() {
    let mut save = SaveFile::new(make_save(0, 2)).unwrap();
    // The fresh image has zero checksums over nonzero data, so it fails.
    assert!(matches!(
        save.verify_sections(),
        Err(SaveError::BadChecksum)
    ));
    let written = save.write_in_place();
    assert!(save.verify_sections().is_ok());
    let reopened = SaveFile::new(written).unwrap();
    assert!(reopened.verify_sections().is_ok());
}

#[test]
fn save_round_trips_except_checksums() {
    let original = make_save(3, 2);
    let mut save = SaveFile::new(original.clone()).unwrap();
    let written = save.write_in_place();
    assert_eq!(written.len(), original.len());
    for (i, (w, o)) in written.iter().zip(original.iter()).enumerate() {
        let in_current_slot = i < 14 * 0x1000;
        let trailer_offset = i % 0x1000;
        let is_checksum_byte =
            in_current_slot && (trailer_offset == 0x0ff6 || trailer_offset == 0x0ff7);
        if !is_checksum_byte {
            assert_eq!(w, o, "byte {} changed outside the checksum fields", i);
        }
    }
}

#[test]
fn put_get_and_occupancy() {
    let mut save = SaveFile::new(make_save(0, 2)).unwrap();
    let blob = make_blob(0x11223344, 10, 20, 265);
    assert_eq!(save.put_pokemon_in_box(1, 1, &blob, false), Ok(true));
    let read = save.get_pokemon_from_box(1, 1).unwrap().unwrap();
    assert_eq!(read.personality_value, 0x11223344);
    assert_eq!(read.species, 265);

    let other = make_blob(5, 6, 7, 8);
    assert_eq!(save.put_pokemon_in_box(1, 1, &other, false), Ok(false));
    let still = save.get_pokemon_from_box(1, 1).unwrap().unwrap();
    assert_eq!(still.personality_value, 0x11223344);
    assert_eq!(save.put_pokemon_in_box(1, 1, &other, true), Ok(true));
    let replaced = save.get_pokemon_from_box(1, 1).unwrap().unwrap();
    assert_eq!(replaced.personality_value, 5);
}

#[test]
fn slot_errors_are_exact() {
    let mut save = SaveFile::new(make_save(0, 2)).unwrap();
    assert!(matches!(
        save.get_pokemon_from_box(15, 1),
        Err(SaveError::SlotOutOfRange)
    ));
    assert!(matches!(
        save.put_pokemon_in_box(1, 31, &make_blob(1, 2, 3, 4), false),
        Err(SaveError::SlotOutOfRange)
    ));
    assert!(matches!(
        save.put_pokemon_in_box(1, 1, &[0u8; 79], false),
        Err(SaveError::MalformedCreature)
    ));
    assert!(matches!(save.get_pokemon_from_box(3, 3), Ok(None)));
}

#[test]
fn take_clears_slot_and_recomputes() {
    let mut save = SaveFile::new(make_save(0, 2)).unwrap();
    let blob = make_blob(0xabcdef01, 1, 2, 100);
    assert_eq!(save.put_pokemon_in_box(4, 9, &blob, false), Ok(true));
    let taken = save.take_pokemon_from_box(4, 9).unwrap().unwrap();
    assert_eq!(taken.personality_value, 0xabcdef01);
    assert!(matches!(save.get_pokemon_from_box(4, 9), Ok(None)));
    assert!(save.verify_sections().is_ok());
    assert_eq!(taken.to_pk3(), blob);
}

#[test]
fn extract_writes_expected_image() {
    // An "Emerald" save with a creature in box 1, slot 1: taking it and
    // writing produces the same bytes as never having had the creature,
    // with freshly computed checksums.
    let blob = make_blob(0x00c0ffee, 3, 4, 265);
    let mut with_creature = SaveFile::new(make_save(0, 2)).unwrap();
    assert_eq!(with_creature.put_pokemon_in_box(1, 1, &blob, false), Ok(true));
    let taken = with_creature.take_pokemon_from_box(1, 1).unwrap().unwrap();
    assert_eq!(taken.species, 265);
    let written = with_creature.write_in_place();

    let mut pristine = SaveFile::new(make_save(0, 2)).unwrap();
    // The put also marked the dex bitmaps, which the take does not unmark.
    let dex = MarkedDex::of(265, 0, 2);
    let mut expected = pristine.write_in_place();
    dex.apply(&mut expected);
    let reloaded = SaveFile::new(expected).unwrap();
    let mut reloaded = reloaded;
    let expected = reloaded.write_in_place();
    assert_eq!(written, expected);
}

/// The four dex bitmap positions for a species, for an Emerald save with
/// rotation `id0`.
struct MarkedDex {
    addrs: [usize; 4],
    mask: u8,
}

impl MarkedDex {
    fn of(species: u16, id0: u16, game_code_word: u32) -> MarkedDex {
        let rot = ((14 - id0) % 14) as usize;
        let phys = |logical: usize| ((logical + rot) % 14) * 0x1000;
        let byte = ((species - 1) >> 3) as usize;
        let (seen_b, seen_c) = match game_code_word {
            0 => (0x0938, 0x0c0c),
            1 => (0x05f8, 0x0b98),
            _ => (0x0988, 0x0ca4),
        };
        MarkedDex {
            addrs: [
                phys(0) + 0x28 + byte,
                phys(0) + 0x5c + byte,
                phys(1) + seen_b + byte,
                phys(4) + seen_c + byte,
            ],
            mask: 1 << ((species - 1) & 7),
        }
    }

    fn apply(&self, buf: &mut [u8]) {
        for a in self.addrs {
            buf[a] |= self.mask;
        }
    }
}

#[test]
fn put_marks_dex_bits() {
    let mut save = SaveFile::new(make_save(0, 2)).unwrap();
    let species = 265u16;
    let blob = make_blob(0x31415926, 1, 1, species);
    assert_eq!(save.put_pokemon_in_box(6, 6, &blob, false), Ok(true));
    let image = save.write_in_place();
    let dex = MarkedDex::of(species, 0, 2);
    for a in dex.addrs {
        assert_eq!(image[a] & dex.mask, dex.mask, "dex bit missing at {}", a);
    }
}

#[test]
fn refused_put_changes_nothing() {
    let mut save = SaveFile::new(make_save(0, 2)).unwrap();
    let occupant = make_blob(0x13572468, 1, 1, 100);
    assert_eq!(save.put_pokemon_in_box(1, 1, &occupant, false), Ok(true));
    let before = save.write_in_place();

    let mut save = SaveFile::new(before.clone()).unwrap();
    let intruder = make_blob(0x24681357, 2, 2, 200);
    assert_eq!(save.put_pokemon_in_box(1, 1, &intruder, false), Ok(false));
    // The refused put left every byte alone: in particular the intruder's
    // species got no dex bit.
    let after = save.write_in_place();
    assert_eq!(after, before);
    let dex = MarkedDex::of(200, 0, 2);
    for a in dex.addrs {
        assert_eq!(after[a] & dex.mask, 0, "dex bit set at {} by a refused put", a);
    }
}

#[test]
fn damaged_checksum_still_readable() {
    let mut save = SaveFile::new(make_save(0, 2)).unwrap();
    let blob = make_blob(0x600df00d, 9, 9, 42);
    assert_eq!(save.put_pokemon_in_box(1, 2, &blob, false), Ok(true));
    let image = save.write_in_place();

    let mut damaged = image.clone();
    // Logical section 5 sits at physical 5 with rotation 0; flip one of
    // the 4 data bytes that precede the box array.
    damaged[5 * 0x1000 + 1] ^= 0xff;
    let mut save = SaveFile::new(damaged).unwrap();
    assert!(matches!(
        save.verify_sections(),
        Err(SaveError::BadChecksum)
    ));
    let listing = save.get_box(1).unwrap();
    assert_eq!(listing.len(), 1);
    assert_eq!(listing[0].0, 2);
    assert_eq!(listing[0].1.personality_value, 0x600df00d);
    let _ = save.write_in_place();
    assert!(save.verify_sections().is_ok());
}

#[test]
fn straddling_slot_round_trips_across_rotation() {
    // With id0 = 6 the rotation is 8, which places logical section 5 at
    // physical position 13 and logical section 6 at physical position 0:
    // the two halves of a straddling slot sit at opposite ends of the
    // slot's 56 KiB bank.
    let mut save = SaveFile::new(make_save(6, 2)).unwrap();
    let blob = make_blob(0x0badcafe, 7, 8, 151);
    // Box 2 slot 20 straddles logical sections 5 and 6.
    assert_eq!(save.put_pokemon_in_box(2, 20, &blob, false), Ok(true));
    let read = save.get_pokemon_from_box(2, 20).unwrap().unwrap();
    assert_eq!(read.to_pk3(), blob);

    // The first piece sits at the tail of logical 5's data area, the rest
    // at the head of logical 6's.
    let rot = 8usize;
    let phys5 = ((5 + rot) % 14) * 0x1000;
    let phys6 = ((6 + rot) % 14) * 0x1000;
    let image = save.write_in_place();
    assert_eq!(&image[phys5 + 3924..phys5 + 3968], &blob[..44]);
    assert_eq!(&image[phys6..phys6 + 36], &blob[44..]);
}

#[test]
fn get_box_lists_occupied_slots_in_order() {
    let mut save = SaveFile::new(make_save(0, 2)).unwrap();
    assert_eq!(
        save.put_pokemon_in_box(3, 17, &make_blob(1, 1, 1, 10), false),
        Ok(true)
    );
    assert_eq!(
        save.put_pokemon_in_box(3, 2, &make_blob(2, 2, 2, 20), false),
        Ok(true)
    );
    let listing = save.get_box(3).unwrap();
    assert_eq!(listing.len(), 2);
    assert_eq!(listing[0].0, 2);
    assert_eq!(listing[0].1.species, 20);
    assert_eq!(listing[1].0, 17);
    assert_eq!(listing[1].1.species, 10);
    assert!(matches!(save.get_box(15), Err(SaveError::SlotOutOfRange)));
}

#[test]
fn party_reads_clamped_team() {
    let mut image = make_save(0, 2);
    // Logical section 1 sits at physical 1 with rotation 0; Emerald's team
    // size word sits at 0x0234.
    let base = 0x1000 + 0x0234;
    write_u32(&mut image, base, 9);
    let mut record = make_blob(77, 1, 2, 33);
    record.extend_from_slice(&[0u8; 20]);
    for k in 0..6 {
        let off = base + 4 + k * 100;
        image[off..off + 100].copy_from_slice(&record);
    }
    let save = SaveFile::new(image).unwrap();
    let party = save.get_party().unwrap();
    assert_eq!(party.len(), 6);
    assert_eq!(party[0].species, 33);
    assert_eq!(party[5].personality_value, 77);
}
