//! Tests of the roam store and the transfer protocol: deposit, withdraw,
//! and the compensation paths that keep every creature in a single home.

use pkroam::pokemon::{compute_checksum, encrypt_decrypt_pk3, get_offset_for_substructure, Component};
use pkroam::save::{SaveFile, GAME_SAVE_DATA_LENGTH};
use pkroam::session::{handle_event, AppEvent, AppState, BackendAction};
use pkroam::store::{RoamStore, StoreError};
use pkroam::transfer::{handle_deposit, handle_withdraw, TransferError};
use pkroam::types::{BoxLocation, Game, GameSaveData, MonsterData};
use pkroam::SaveError;

fn write_u16(buf: &mut [u8], off: usize, v: u16) {
    buf[off] = (v & 0xff) as u8;
    buf[off + 1] = (v >> 8) as u8;
}

fn write_u32(buf: &mut [u8], off: usize, v: u32) {
    buf[off] = (v & 0xff) as u8;
    buf[off + 1] = ((v >> 8) & 0xff) as u8;
    buf[off + 2] = ((v >> 16) & 0xff) as u8;
    buf[off + 3] = ((v >> 24) & 0xff) as u8;
}

fn make_save_image() -> Vec<u8> {
    let mut s = vec![0u8; GAME_SAVE_DATA_LENGTH];
    write_u32(&mut s, 0x0ffc, 1);
    write_u32(&mut s, 0xe000 + 0x0ffc, 0xffff_ffff);
    for k in 0..14usize {
        write_u16(&mut s, k * 0x1000 + 0x0ff4, k as u16);
    }
    for i in 0..7 {
        s[i] = 0xff;
    }
    s[8] = 0;
    write_u32(&mut s, 0xac, 2);
    s
}

fn make_blob(pv: u32, ot_public: u16, ot_secret: u16, species: u16) -> Vec<u8> {
    let mut d = vec![0u8; 80];
    write_u32(&mut d, 0, pv);
    write_u16(&mut d, 4, ot_public);
    write_u16(&mut d, 6, ot_secret);
    for i in 8..18 {
        d[i] = 0xff;
    }
    d[0x12] = 2;
    for i in 0x14..0x1b {
        d[i] = 0xff;
    }
    let growth = get_offset_for_substructure(pv, Component::Growth);
    write_u16(&mut d, 32 + growth, species);
    let checksum = compute_checksum(&d[32..80]);
    write_u16(&mut d, 0x1c, checksum);
    encrypt_decrypt_pk3(&mut d);
    d
}

fn sample_save_data(name: &str) -> GameSaveData {
    GameSaveData::new(
        Game::Emerald,
        name,
        1,
        2,
        3,
        4,
        5,
        String::from("/saves/emerald.sav"),
        true,
    )
    .unwrap()
}

#[test]
fn store_registers_and_lists_saves() {
    let mut store = RoamStore::new();
    store.add_new_save(&sample_save_data("MAY"));
    store.add_new_save(&sample_save_data("BRENDAN"));
    let saves = store.get_saves();
    assert_eq!(saves.len(), 2);
    assert_eq!(saves[0].id, 1);
    assert_eq!(saves[0].data.trainer_name, "MAY");
    assert_eq!(saves[1].id, 2);
    assert_eq!(saves[1].data.trainer_name, "BRENDAN");

    let found = store.get_save(2).unwrap();
    assert_eq!(found.trainer_name, "BRENDAN");
    assert!(matches!(store.get_save(9), Err(StoreError::NotFound)));
}

#[test]
fn store_disconnects_and_deletes_saves() {
    let mut store = RoamStore::new();
    store.add_new_save(&sample_save_data("MAY"));
    store.add_new_save(&sample_save_data("BRENDAN"));
    store.set_save_disconnected(1);
    let saves = store.get_saves();
    assert!(!saves[0].data.connected);
    assert!(saves[1].data.connected);

    store.delete_save(1);
    let saves = store.get_saves();
    assert_eq!(saves.len(), 1);
    assert_eq!(saves[0].id, 2);
}

#[test]
fn store_inserts_and_withdraws_creatures() {
    let mut store = RoamStore::new();
    let blob = make_blob(0x01020304, 5, 6, 7);
    let mon = MonsterData::from_pk3(&blob).unwrap();
    let location = BoxLocation::new(2, 5, None).unwrap();
    let id = store.insert_new_mon(&mon, location).unwrap();
    assert_eq!(id, 1);

    let duplicate = store.insert_new_mon(&mon, location);
    assert!(matches!(duplicate, Err(StoreError::LocationOccupied)));

    let all = store.get_all_mons();
    assert_eq!(all.len(), 1);
    assert_eq!(all[0].id, Some(1));
    assert_eq!(all[0].personality_value, 0x01020304);

    let (taken, loc) = store.withdraw_mon(1).unwrap();
    assert_eq!(taken.data, blob);
    assert_eq!(loc.box_number, 2);
    assert_eq!(loc.box_position, 5);
    assert!(store.get_all_mons().is_empty());
    assert!(matches!(store.withdraw_mon(1), Err(StoreError::NotFound)));
}

#[test]
fn deposit_cycle_moves_creature_into_store() {
    let mut save = SaveFile::new(make_save_image()).unwrap();
    let blob = make_blob(0xfeedbead, 10, 11, 265);
    assert_eq!(save.put_pokemon_in_box(3, 7, &blob, false), Ok(true));
    let mut store = RoamStore::new();
    let dest = BoxLocation::new(2, 5, None).unwrap();

    let id = handle_deposit(&mut save, &mut store, 3, 7, dest, true, true).unwrap();
    assert_eq!(id, 1);
    assert!(matches!(save.get_pokemon_from_box(3, 7), Ok(None)));
    let mons = store.get_all_mons();
    assert_eq!(mons.len(), 1);
    assert_eq!(mons[0].data, blob);
    let (_, loc) = store.withdraw_mon(1).unwrap();
    assert_eq!((loc.box_number, loc.box_position), (2, 5));
}

#[test]
fn deposit_from_empty_slot_fails() {
    let mut save = SaveFile::new(make_save_image()).unwrap();
    let before = save.write_in_place();
    let mut save = SaveFile::new(before.clone()).unwrap();
    let mut store = RoamStore::new();
    let dest = BoxLocation::new(1, 1, None).unwrap();
    let result = handle_deposit(&mut save, &mut store, 3, 7, dest, true, true);
    assert!(matches!(result, Err(TransferError::SourceEmpty)));
    assert_eq!(save.write_in_place(), before);
    assert!(store.get_all_mons().is_empty());
}

#[test]
fn deposit_save_write_failure_compensates() {
    let blob = make_blob(0x0ddba11, 1, 2, 50);
    let mut save = SaveFile::new(make_save_image()).unwrap();
    assert_eq!(save.put_pokemon_in_box(3, 7, &blob, false), Ok(true));
    let on_disk = save.write_in_place();
    let mut save = SaveFile::new(on_disk.clone()).unwrap();
    let mut store = RoamStore::new();
    let dest = BoxLocation::new(1, 1, None).unwrap();

    let result = handle_deposit(&mut save, &mut store, 3, 7, dest, false, true);
    assert!(matches!(result, Err(TransferError::SaveWriteFailed)));
    // The creature was not inserted and the save is unchanged.
    assert!(store.get_all_mons().is_empty());
    let image = save.write_in_place();
    assert_eq!(image, on_disk);
    let reread = save.get_pokemon_from_box(3, 7).unwrap().unwrap();
    assert_eq!(reread.to_pk3(), blob);
}

#[test]
fn deposit_store_refusal_restores_save() {
    let blob = make_blob(0x5eed5eed, 3, 4, 60);
    let mut save = SaveFile::new(make_save_image()).unwrap();
    assert_eq!(save.put_pokemon_in_box(3, 7, &blob, false), Ok(true));
    let mut store = RoamStore::new();
    let occupant = MonsterData::from_pk3(&make_blob(9, 9, 9, 9)).unwrap();
    let dest = BoxLocation::new(2, 5, None).unwrap();
    store.insert_new_mon(&occupant, dest).unwrap();

    let result = handle_deposit(&mut save, &mut store, 3, 7, dest, true, true);
    assert!(matches!(result, Err(TransferError::StoreWriteFailed)));
    // Only the original occupant is stored; the creature is back in its
    // slot.
    assert_eq!(store.get_all_mons().len(), 1);
    let back = save.get_pokemon_from_box(3, 7).unwrap().unwrap();
    assert_eq!(back.to_pk3(), blob);
    assert!(save.verify_sections().is_ok());
}

#[test]
fn withdraw_into_occupied_slot_fails_and_keeps_row() {
    let mut save = SaveFile::new(make_save_image()).unwrap();
    let occupant = make_blob(0x11111111, 1, 1, 11);
    assert_eq!(save.put_pokemon_in_box(1, 1, &occupant, false), Ok(true));
    let mut store = RoamStore::new();
    let stored = MonsterData::from_pk3(&make_blob(0x22222222, 2, 2, 22)).unwrap();
    let id = store
        .insert_new_mon(&stored, BoxLocation::new(4, 4, None).unwrap())
        .unwrap();

    let result = handle_withdraw(&mut save, &mut store, id, 1, 1, true);
    assert!(matches!(result, Err(TransferError::DestinationOccupied)));
    let mons = store.get_all_mons();
    assert_eq!(mons.len(), 1);
    assert_eq!(mons[0].id, Some(id));
    assert_eq!(mons[0].personality_value, 0x22222222);
}

#[test]
fn withdraw_places_creature_and_empties_row() {
    let mut save = SaveFile::new(make_save_image()).unwrap();
    let mut store = RoamStore::new();
    let blob = make_blob(0x77777777, 7, 7, 77);
    let mon = MonsterData::from_pk3(&blob).unwrap();
    let id = store
        .insert_new_mon(&mon, BoxLocation::new(1, 2, None).unwrap())
        .unwrap();

    handle_withdraw(&mut save, &mut store, id, 5, 6, true).unwrap();
    assert!(store.get_all_mons().is_empty());
    let placed = save.get_pokemon_from_box(5, 6).unwrap().unwrap();
    assert_eq!(placed.to_pk3(), blob);
    assert!(save.verify_sections().is_ok());
}

#[test]
fn transfer_rejects_out_of_range_slots() {
    let mut save = SaveFile::new(make_save_image()).unwrap();
    let mut store = RoamStore::new();
    let dest = BoxLocation::new(1, 1, None).unwrap();
    let result = handle_deposit(&mut save, &mut store, 15, 1, dest, true, true);
    assert!(matches!(
        result,
        Err(TransferError::Save(SaveError::SlotOutOfRange))
    ));
    let result = handle_withdraw(&mut save, &mut store, 1, 1, 31, true);
    assert!(matches!(
        result,
        Err(TransferError::Save(SaveError::SlotOutOfRange))
    ));
}

#[test]
fn withdraw_of_missing_creature_fails() {
    let mut save = SaveFile::new(make_save_image()).unwrap();
    let mut store = RoamStore::new();
    let result = handle_withdraw(&mut save, &mut store, 5, 1, 1, true);
    assert!(matches!(result, Err(TransferError::StoreReadFailed)));
}

#[test]
fn withdraw_save_write_failure_reinserts() {
    let mut save = SaveFile::new(make_save_image()).unwrap();
    let on_disk = save.write_in_place();
    let mut save = SaveFile::new(on_disk.clone()).unwrap();
    let mut store = RoamStore::new();
    let blob = make_blob(0x88888888, 8, 8, 88);
    let mon = MonsterData::from_pk3(&blob).unwrap();
    let id = store
        .insert_new_mon(&mon, BoxLocation::new(3, 9, None).unwrap())
        .unwrap();

    let result = handle_withdraw(&mut save, &mut store, id, 5, 6, false);
    assert!(matches!(result, Err(TransferError::SaveWriteFailed)));
    // The save is unchanged and the creature is back in the store at its
    // old location, under a fresh id.
    assert_eq!(save.write_in_place(), on_disk);
    let mons = store.get_all_mons();
    assert_eq!(mons.len(), 1);
    assert_eq!(mons[0].data, blob);
    let (_, loc) = store.withdraw_mon(mons[0].id.unwrap()).unwrap();
    assert_eq!((loc.box_number, loc.box_position), (3, 9));
}

#[test]
fn deposit_then_withdraw_returns_creature() {
    let mut save = SaveFile::new(make_save_image()).unwrap();
    let blob = make_blob(0x0c0c0c0c, 12, 13, 123);
    assert_eq!(save.put_pokemon_in_box(2, 3, &blob, false), Ok(true));
    let mut store = RoamStore::new();
    let id = handle_deposit(
        &mut save,
        &mut store,
        2,
        3,
        BoxLocation::new(6, 6, None).unwrap(),
        true,
        true,
    )
    .unwrap();
    assert!(matches!(save.get_pokemon_from_box(2, 3), Ok(None)));

    handle_withdraw(&mut save, &mut store, id, 9, 9, true).unwrap();
    let back = save.get_pokemon_from_box(9, 9).unwrap().unwrap();
    assert_eq!(back.to_pk3(), blob);
    assert!(store.get_all_mons().is_empty());
}

#[test]
fn session_transitions_follow_events() {
    let state = AppState::SaveSelection(Vec::new());
    let (next, action) = handle_event(state, AppEvent::AddNewSave);
    assert!(matches!(next, AppState::NewSave));
    assert!(action.is_none());
    assert_eq!(next.name(), "new_save");

    let state = AppState::SaveSelection(Vec::new());
    let (next, action) = handle_event(state, AppEvent::RequestDeleteSave(4));
    assert!(matches!(next, AppState::SaveSelection(_)));
    assert!(matches!(action, Some(BackendAction::DeleteSave(4))));

    let state = AppState::ConnectedSaveEdit(sample_save_data("MAY"));
    assert_eq!(state.name(), "connected_save_edit");
    let (next, action) = handle_event(state, AppEvent::AddNewSave);
    assert!(matches!(next, AppState::ConnectedSaveEdit(_)));
    assert!(action.is_none());

    assert_eq!(AppEvent::SaveSelected(1).name(), "save_selected");
    assert_eq!(AppEvent::AddNewSave.name(), "new_save");
}

#[test]
fn save_data_from_opened_save() {
    let save = SaveFile::new(make_save_image()).unwrap();
    let data = GameSaveData::from_path(&save, 2, String::from("/saves/e.sav")).unwrap();
    assert_eq!(data.game, Game::Emerald);
    assert_eq!(data.trainer_id, 0);
    assert!(data.connected);
    assert_eq!(data.save_path, "/saves/e.sav");
    assert!(GameSaveData::from_path(&save, 9, String::from("x")).is_err());
}
