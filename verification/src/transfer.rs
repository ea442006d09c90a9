//! The transfer controller: the only component that moves a creature
//! between a save file and the roam store. A deposit writes the save before
//! it touches the store; a withdraw mutates the store before it writes the
//! save; so whatever step fails, the creature stays in the container that
//! was committed last, and each identity keeps a single home.
//!
//! The save image a controller call mutates stands for the image on disk:
//! the caller performs the actual disk write between the two commits, and
//! reports its outcome through the `save_write_ok` arguments. When the
//! write fails, the image is rolled back, exactly as an aborted write
//! leaves the file on disk.

use vstd::prelude::*;

use crate::bytes::{sub_bytes, u16_at, u32_at};
use crate::pokemon::{lemma_crypt_involutive, Pokemon};
use crate::save::{spec_same_state, SaveFile};
use crate::store::RoamStore;
use crate::types::{BoxLocation, MonsterData};
use crate::SaveError;

verus! {

/// What can go wrong while moving a creature between its two homes.
#[derive(Clone, Copy, Debug, PartialEq, Eq, Structural)]
pub enum TransferError {
    /// The source box slot holds no creature.
    SourceEmpty,
    /// The destination box slot already holds a creature.
    DestinationOccupied,
    /// The save image could not be persisted.
    SaveWriteFailed,
    /// The store refused the insert.
    StoreWriteFailed,
    /// The store has no such creature.
    StoreReadFailed,
    /// The save codec rejected a slot or a blob.
    Save(SaveError),
}

/// The identity `(P, OT)` occurs in some box slot of the save.
pub open spec fn spec_in_save(save: SaveFile, pv: int, ot: int) -> bool {
    exists|b: int, t: int|
        #![trigger save.spec_slot_bytes(b, t)]
        {
            &&& 1 <= b <= 14
            &&& 1 <= t <= 30
            &&& !save.spec_slot_empty(b, t)
            &&& u32_at(save.spec_slot_bytes(b, t), 0) == pv
            &&& u32_at(save.spec_slot_bytes(b, t), 4) == ot
        }
}

/// The identity `(P, OT)` occurs in some row of the store.
pub open spec fn spec_in_store(store: RoamStore, pv: int, ot: int) -> bool {
    exists|i: int|
        #![trigger store.monsters@[i]]
        {
            &&& 0 <= i < store.monsters@.len()
            &&& store.monsters@[i].personality_value == pv
            &&& store.monsters@[i].spec_full_trainer_id() == ot
        }
}

/// The identity `(P, OT)` occupies at most one box slot of the save.
pub open spec fn spec_unique_in_save(save: SaveFile, pv: int, ot: int) -> bool {
    forall|b1: int, t1: int, b2: int, t2: int|
        #![trigger save.spec_slot_bytes(b1, t1), save.spec_slot_bytes(b2, t2)]
        (1 <= b1 <= 14 && 1 <= t1 <= 30 && 1 <= b2 <= 14 && 1 <= t2 <= 30 && !save.spec_slot_empty(
            b1,
            t1,
        ) && !save.spec_slot_empty(b2, t2) && u32_at(save.spec_slot_bytes(b1, t1), 0) == pv
            && u32_at(save.spec_slot_bytes(b1, t1), 4) == ot && u32_at(
            save.spec_slot_bytes(b2, t2),
            0,
        ) == pv && u32_at(save.spec_slot_bytes(b2, t2), 4) == ot) ==> b1 == b2 && t1 == t2
}

/// The identity `(P, OT)` occupies at most one row of the store.
pub open spec fn spec_unique_in_store(store: RoamStore, pv: int, ot: int) -> bool {
    forall|i: int, j: int|
        #![trigger store.monsters@[i], store.monsters@[j]]
        (0 <= i < store.monsters@.len() && 0 <= j < store.monsters@.len()
            && store.monsters@[i].personality_value == pv
            && store.monsters@[i].spec_full_trainer_id() == ot
            && store.monsters@[j].personality_value == pv
            && store.monsters@[j].spec_full_trainer_id() == ot) ==> i == j
}

/// The at-most-one-home invariant for one identity: the creature lives in
/// at most one of the two containers, and at most once within each.
pub open spec fn spec_single_home(save: SaveFile, store: RoamStore, pv: int, ot: int) -> bool {
    &&& !(spec_in_save(save, pv, ot) && spec_in_store(store, pv, ot))
    &&& spec_unique_in_save(save, pv, ot)
    &&& spec_unique_in_store(store, pv, ot)
}

/// Two saves whose box slots all hold the same bytes hold the same
/// identities, each the same number of times.
proof fn lemma_in_save_congruence(s1: SaveFile, s2: SaveFile)
    requires
        forall|b: int, t: int|
            1 <= b <= 14 && 1 <= t <= 30 ==> #[trigger] s2.spec_slot_bytes(b, t)
                == s1.spec_slot_bytes(b, t),
    ensures
        forall|pv: int, ot: int|
            #[trigger] spec_in_save(s2, pv, ot) == spec_in_save(s1, pv, ot),
        forall|pv: int, ot: int|
            #[trigger] spec_unique_in_save(s2, pv, ot) == spec_unique_in_save(s1, pv, ot),
{
    assert forall|pv: int, ot: int| #[trigger] spec_in_save(s2, pv, ot) == spec_in_save(
        s1,
        pv,
        ot,
    ) by {
        if spec_in_save(s1, pv, ot) {
            let (b, t) = choose|b: int, t: int|
                #![trigger s1.spec_slot_bytes(b, t)]
                {
                    &&& 1 <= b <= 14
                    &&& 1 <= t <= 30
                    &&& !s1.spec_slot_empty(b, t)
                    &&& u32_at(s1.spec_slot_bytes(b, t), 0) == pv
                    &&& u32_at(s1.spec_slot_bytes(b, t), 4) == ot
                };
            assert(s2.spec_slot_bytes(b, t) == s1.spec_slot_bytes(b, t));
            assert(spec_in_save(s2, pv, ot));
        }
        if spec_in_save(s2, pv, ot) {
            let (b, t) = choose|b: int, t: int|
                #![trigger s2.spec_slot_bytes(b, t)]
                {
                    &&& 1 <= b <= 14
                    &&& 1 <= t <= 30
                    &&& !s2.spec_slot_empty(b, t)
                    &&& u32_at(s2.spec_slot_bytes(b, t), 0) == pv
                    &&& u32_at(s2.spec_slot_bytes(b, t), 4) == ot
                };
            assert(s1.spec_slot_bytes(b, t) == s2.spec_slot_bytes(b, t));
            assert(spec_in_save(s1, pv, ot));
        }
    }
    assert forall|pv: int, ot: int| #[trigger] spec_unique_in_save(s2, pv, ot)
        == spec_unique_in_save(s1, pv, ot) by {
        assert forall|b: int, t: int|
            1 <= b <= 14 && 1 <= t <= 30 implies #[trigger] s1.spec_slot_empty(b, t)
            == s2.spec_slot_empty(b, t) by {
            assert(s2.spec_slot_bytes(b, t) == s1.spec_slot_bytes(b, t));
        }
    }
}

/// After a successful deposit of the creature that sat alone at (`bn`,
/// `bt`), every identity still has a single home: the moved identity left
/// the save as its row entered the store, and no other slot or row changed.
proof fn lemma_deposit_row_preserves_single_home(
    osave: SaveFile,
    nsave: SaveFile,
    ostore: RoamStore,
    nstore: RoamStore,
    bn: int,
    bt: int,
    pv: int,
    ot: int,
)
    requires
        1 <= bn <= 14,
        1 <= bt <= 30,
        spec_single_home(osave, ostore, pv, ot),
        !osave.spec_slot_empty(bn, bt),
        nsave.spec_slot_empty(bn, bt),
        forall|b: int, t: int|
            1 <= b <= 14 && 1 <= t <= 30 && !(b == bn && t == bt)
                ==> #[trigger] nsave.spec_slot_bytes(b, t) == osave.spec_slot_bytes(b, t),
        nstore.monsters@.len() == ostore.monsters@.len() + 1,
        forall|i: int|
            0 <= i < ostore.monsters@.len() ==> #[trigger] nstore.monsters@[i]
                == ostore.monsters@[i],
        nstore.monsters@[ostore.monsters@.len() as int].personality_value == u32_at(
            osave.spec_slot_bytes(bn, bt),
            0,
        ),
        nstore.monsters@[ostore.monsters@.len() as int].spec_full_trainer_id() == u32_at(
            osave.spec_slot_bytes(bn, bt),
            4,
        ),
    ensures
        spec_single_home(nsave, nstore, pv, ot),
{
    let pvx = u32_at(osave.spec_slot_bytes(bn, bt), 0);
    let otx = u32_at(osave.spec_slot_bytes(bn, bt), 4);
    let last = ostore.monsters@.len() as int;
    assert forall|b1: int, t1: int, b2: int, t2: int|
        #![trigger nsave.spec_slot_bytes(b1, t1), nsave.spec_slot_bytes(b2, t2)]
        (1 <= b1 <= 14 && 1 <= t1 <= 30 && 1 <= b2 <= 14 && 1 <= t2 <= 30 && !nsave.spec_slot_empty(
            b1,
            t1,
        ) && !nsave.spec_slot_empty(b2, t2) && u32_at(nsave.spec_slot_bytes(b1, t1), 0) == pv
            && u32_at(nsave.spec_slot_bytes(b1, t1), 4) == ot && u32_at(
            nsave.spec_slot_bytes(b2, t2),
            0,
        ) == pv && u32_at(nsave.spec_slot_bytes(b2, t2), 4) == ot) implies b1 == b2 && t1
        == t2 by {
        assert(!(b1 == bn && t1 == bt));
        assert(!(b2 == bn && t2 == bt));
        assert(nsave.spec_slot_bytes(b1, t1) == osave.spec_slot_bytes(b1, t1));
        assert(nsave.spec_slot_bytes(b2, t2) == osave.spec_slot_bytes(b2, t2));
        assert(osave.spec_slot_bytes(b1, t1) == nsave.spec_slot_bytes(b1, t1));
    }
    assert(spec_unique_in_save(nsave, pv, ot));
    assert forall|i: int, j: int|
        #![trigger nstore.monsters@[i], nstore.monsters@[j]]
        (0 <= i < nstore.monsters@.len() && 0 <= j < nstore.monsters@.len()
            && nstore.monsters@[i].personality_value == pv
            && nstore.monsters@[i].spec_full_trainer_id() == ot
            && nstore.monsters@[j].personality_value == pv
            && nstore.monsters@[j].spec_full_trainer_id() == ot) implies i == j by {
        if i != j {
            if i < last && j < last {
                assert(spec_in_store(ostore, pv, ot));
                assert(false);
            } else {
                let k = if i < last {
                    i
                } else {
                    j
                };
                assert(nstore.monsters@[k] == ostore.monsters@[k]);
                assert(pv == pvx && ot == otx);
                assert(spec_in_store(ostore, pvx, otx));
                assert(spec_in_save(osave, pvx, otx));
                assert(false);
            }
        }
    }
    assert(spec_unique_in_store(nstore, pv, ot));
    if spec_in_save(nsave, pv, ot) && spec_in_store(nstore, pv, ot) {
        let (b, t) = choose|b: int, t: int|
            #![trigger nsave.spec_slot_bytes(b, t)]
            {
                &&& 1 <= b <= 14
                &&& 1 <= t <= 30
                &&& !nsave.spec_slot_empty(b, t)
                &&& u32_at(nsave.spec_slot_bytes(b, t), 0) == pv
                &&& u32_at(nsave.spec_slot_bytes(b, t), 4) == ot
            };
        assert(!(b == bn && t == bt));
        assert(nsave.spec_slot_bytes(b, t) == osave.spec_slot_bytes(b, t));
        assert(spec_in_save(osave, pv, ot));
        let i = choose|i: int|
            #![trigger nstore.monsters@[i]]
            {
                &&& 0 <= i < nstore.monsters@.len()
                &&& nstore.monsters@[i].personality_value == pv
                &&& nstore.monsters@[i].spec_full_trainer_id() == ot
            };
        if i < last {
            assert(nstore.monsters@[i] == ostore.monsters@[i]);
            assert(spec_in_store(ostore, pv, ot));
            assert(false);
        } else {
            assert(pv == pvx && ot == otx);
            assert(spec_unique_in_save(osave, pvx, otx));
            assert(!osave.spec_slot_empty(bn, bt));
            assert(u32_at(osave.spec_slot_bytes(bn, bt), 0) == pvx);
            assert(b == bn && t == bt);
            assert(false);
        }
    }
}


/// The save and store after a deposit whose store insert was refused: the
/// store is untouched; the creature is back in its slot when the
/// compensating write went through, and the slot stays cleared when it did
/// not; no other slot changed.
#[verifier::opaque]
pub open spec fn spec_deposit_compensated(
    osave: SaveFile,
    ostore: RoamStore,
    nsave: SaveFile,
    nstore: RoamStore,
    bn: int,
    bt: int,
    restore_write_ok: bool,
) -> bool {
    &&& nstore == ostore
    &&& nsave.latest_save_offset == osave.latest_save_offset
    &&& nsave.game_code == osave.game_code
    &&& (restore_write_ok ==> nsave.spec_slot_bytes(bn, bt) == osave.spec_slot_bytes(bn, bt)
        && crate::save::spec_all_checksums_ok(
        nsave.full_contents@,
        nsave.latest_save_offset as int,
    ))
    &&& (!restore_write_ok ==> nsave.spec_slot_empty(bn, bt))
    &&& (forall|b: int, t: int|
        1 <= b <= 14 && 1 <= t <= 30 && !(b == bn && t == bt) ==> #[trigger] nsave.spec_slot_bytes(
            b,
            t,
        ) == osave.spec_slot_bytes(b, t))
}

/// The save and store after a successful deposit: the slot is cleared and
/// the save checksummed; the store gained one row holding the slot's old
/// bytes under the next free id, placed at the destination.
#[verifier::opaque]
pub open spec fn spec_deposit_done(
    osave: SaveFile,
    ostore: RoamStore,
    nsave: SaveFile,
    nstore: RoamStore,
    bn: int,
    bt: int,
    dest: BoxLocation,
    id: u64,
) -> bool {
    let bytes = osave.spec_slot_bytes(bn, bt);
    &&& id == ostore.next_monster_id
    &&& nsave.spec_slot_empty(bn, bt)
    &&& (forall|b: int, t: int|
        1 <= b <= 14 && 1 <= t <= 30 && !(b == bn && t == bt) ==> #[trigger] nsave.spec_slot_bytes(
            b,
            t,
        ) == osave.spec_slot_bytes(b, t))
    &&& crate::save::spec_all_checksums_ok(nsave.full_contents@, nsave.latest_save_offset as int)
    &&& nsave.latest_save_offset == osave.latest_save_offset
    &&& nsave.game_code == osave.game_code
    &&& nstore.monsters@.len() == ostore.monsters@.len() + 1
    &&& (forall|i: int|
        0 <= i < ostore.monsters@.len() ==> #[trigger] nstore.monsters@[i] == ostore.monsters@[i])
    &&& ({
        let m = nstore.monsters@[ostore.monsters@.len() as int];
        &&& m.id == Some(id)
        &&& m.personality_value == u32_at(bytes, 0)
        &&& m.spec_full_trainer_id() == u32_at(bytes, 4)
        &&& m.data@ == bytes
    })
    &&& nstore.entries@.len() == ostore.entries@.len() + 1
    &&& nstore.entries@[ostore.entries@.len() as int].box_number == dest.box_number
    &&& nstore.entries@[ostore.entries@.len() as int].box_position == dest.box_position
    &&& nstore.saves@ == ostore.saves@
}

/// Zeroing one box slot and touching nothing else can only remove an
/// identity from the save, so every identity keeps its single home.
proof fn lemma_slot_cleared_preserves_single_home(
    osave: SaveFile,
    nsave: SaveFile,
    store: RoamStore,
    bn: int,
    bt: int,
)
    requires
        1 <= bn <= 14,
        1 <= bt <= 30,
        nsave.spec_slot_empty(bn, bt),
        forall|b: int, t: int|
            1 <= b <= 14 && 1 <= t <= 30 && !(b == bn && t == bt)
                ==> #[trigger] nsave.spec_slot_bytes(b, t) == osave.spec_slot_bytes(b, t),
    ensures
        forall|pv: int, ot: int|
            spec_single_home(osave, store, pv, ot) ==> #[trigger] spec_single_home(
                nsave,
                store,
                pv,
                ot,
            ),
{
    assert forall|pv: int, ot: int|
        spec_single_home(osave, store, pv, ot) implies #[trigger] spec_single_home(
        nsave,
        store,
        pv,
        ot,
    ) by {
        if spec_in_save(nsave, pv, ot) {
            let (b, t) = choose|b: int, t: int|
                #![trigger nsave.spec_slot_bytes(b, t)]
                {
                    &&& 1 <= b <= 14
                    &&& 1 <= t <= 30
                    &&& !nsave.spec_slot_empty(b, t)
                    &&& u32_at(nsave.spec_slot_bytes(b, t), 0) == pv
                    &&& u32_at(nsave.spec_slot_bytes(b, t), 4) == ot
                };
            assert(!(b == bn && t == bt));
            assert(nsave.spec_slot_bytes(b, t) == osave.spec_slot_bytes(b, t));
            assert(spec_in_save(osave, pv, ot));
        }
        assert forall|b1: int, t1: int, b2: int, t2: int|
            #![trigger nsave.spec_slot_bytes(b1, t1), nsave.spec_slot_bytes(b2, t2)]
            (1 <= b1 <= 14 && 1 <= t1 <= 30 && 1 <= b2 <= 14 && 1 <= t2 <= 30
                && !nsave.spec_slot_empty(b1, t1) && !nsave.spec_slot_empty(b2, t2) && u32_at(
                nsave.spec_slot_bytes(b1, t1),
                0,
            ) == pv && u32_at(nsave.spec_slot_bytes(b1, t1), 4) == ot && u32_at(
                nsave.spec_slot_bytes(b2, t2),
                0,
            ) == pv && u32_at(nsave.spec_slot_bytes(b2, t2), 4) == ot) implies b1 == b2 && t1
            == t2 by {
            assert(!(b1 == bn && t1 == bt));
            assert(!(b2 == bn && t2 == bt));
            assert(nsave.spec_slot_bytes(b1, t1) == osave.spec_slot_bytes(b1, t1));
            assert(nsave.spec_slot_bytes(b2, t2) == osave.spec_slot_bytes(b2, t2));
        }
        assert(spec_unique_in_save(nsave, pv, ot));
    }
}

/// Move the creature at (`box_number`, `box_position`) of the save into the
/// store at `dest`. The slot is cleared and the save persisted first, and
/// only then is the store row inserted, so a failure in between leaves the
/// creature in exactly one container. `save_write_ok` is the outcome of
/// persisting the cleared save, `restore_write_ok` the outcome of the
/// compensating write that puts the creature back when the store refuses
/// the insert.
#[verifier::rlimit(100)]
pub fn handle_deposit(
    save_file: &mut SaveFile,
    store: &mut RoamStore,
    box_number: u8,
    box_position: u8,
    dest: BoxLocation,
    save_write_ok: bool,
    restore_write_ok: bool,
) -> (r: Result<u64, TransferError>)
    requires
        old(save_file).wf(),
        old(store).wf(),
        old(store).next_monster_id < u64::MAX,
    ensures
        final(save_file).wf(),
        final(store).wf(),
        ({
            let bn = box_number as int;
            let bt = box_position as int;
            let in_range = 1 <= box_number <= 14 && 1 <= box_position <= 30;
            let empty = old(save_file).spec_slot_empty(bn, bt);
            let bytes = old(save_file).spec_slot_bytes(bn, bt);
            let decodable = Pokemon::spec_decodable(bytes);
            let dest_occupied = old(store).spec_location_occupied(
                dest.box_number,
                dest.box_position,
            );
            &&& (r == Result::<u64, TransferError>::Err(TransferError::Save(
                SaveError::SlotOutOfRange,
            )) <==> !in_range)
            &&& (r == Result::<u64, TransferError>::Err(TransferError::Save(
                SaveError::MalformedCreature,
            )) <==> in_range && !empty && !decodable)
            &&& (r == Result::<u64, TransferError>::Err(TransferError::SourceEmpty) <==> in_range
                && empty)
            &&& (r == Result::<u64, TransferError>::Err(TransferError::SaveWriteFailed) <==>
                in_range && !empty && decodable && !save_write_ok)
            &&& (r == Result::<u64, TransferError>::Err(TransferError::StoreWriteFailed) <==>
                in_range && !empty && decodable && save_write_ok && dest_occupied)
            &&& (r is Ok <==> in_range && !empty && decodable && save_write_ok && !dest_occupied)
            &&& (r is Err && r != Result::<u64, TransferError>::Err(
                TransferError::StoreWriteFailed,
            ) ==> spec_same_state(*old(save_file), *final(save_file)) && *final(store) == *old(
                store,
            ))
            &&& (r == Result::<u64, TransferError>::Err(TransferError::StoreWriteFailed)
                ==> spec_deposit_compensated(
                *old(save_file),
                *old(store),
                *final(save_file),
                *final(store),
                bn,
                bt,
                restore_write_ok,
            ))
            &&& (r matches Ok(id) ==> spec_deposit_done(
                *old(save_file),
                *old(store),
                *final(save_file),
                *final(store),
                bn,
                bt,
                dest,
                id,
            ))
        }),
{
    let ghost osave = *old(save_file);
    let ghost ostore = *old(store);
    let ghost bn = box_number as int;
    let ghost bt = box_position as int;
    let n = save_file.full_contents.len();
    let backup = sub_bytes(save_file.full_contents.as_slice(), 0, n);
    proof {
        assert(backup@ =~= osave.full_contents@);
    }
    let taken = match save_file.take_pokemon_from_box(box_number, box_position) {
        Ok(p) => p,
        Err(e) => {
            return Err(TransferError::Save(e));
        },
    };
    let pkmn = match taken {
        Some(p) => p,
        None => {
            save_file.full_contents = backup;
            proof {
                assert(spec_same_state(osave, *save_file));
                assert(save_file.wf());
            }
            return Err(TransferError::SourceEmpty);
        },
    };
    let ghost bytes = osave.spec_slot_bytes(bn, bt);
    let blob = pkmn.to_pk3();
    proof {
        reveal(Pokemon::decodes_from);
        lemma_crypt_involutive(bytes);
        assert(blob@ == bytes);
    }
    if !save_write_ok {
        save_file.full_contents = backup;
        proof {
            assert(spec_same_state(osave, *save_file));
            assert(save_file.wf());
        }
        return Err(TransferError::SaveWriteFailed);
    }
    deposit_commit(save_file, store, box_number, box_position, &blob, dest, restore_write_ok, Ghost(osave))
}

/// The store half of a deposit: the save already persisted without the
/// creature, whose bytes are `blob`; insert the row, or put the creature
/// back when the store refuses.
fn deposit_commit(
    save_file: &mut SaveFile,
    store: &mut RoamStore,
    box_number: u8,
    box_position: u8,
    blob: &Vec<u8>,
    dest: BoxLocation,
    restore_write_ok: bool,
    Ghost(osave): Ghost<SaveFile>,
) -> (r: Result<u64, TransferError>)
    requires
        old(save_file).wf(),
        old(store).wf(),
        old(store).next_monster_id < u64::MAX,
        1 <= box_number <= 14,
        1 <= box_position <= 30,
        blob@ == osave.spec_slot_bytes(box_number as int, box_position as int),
        blob@.len() == 80,
        Pokemon::spec_decodable(blob@),
        old(save_file).spec_slot_empty(box_number as int, box_position as int),
        forall|b: int, t: int|
            1 <= b <= 14 && 1 <= t <= 30 && !(b == box_number && t == box_position)
                ==> #[trigger] old(save_file).spec_slot_bytes(b, t) == osave.spec_slot_bytes(b, t),
        crate::save::spec_all_checksums_ok(
            old(save_file).full_contents@,
            old(save_file).latest_save_offset as int,
        ),
        old(save_file).latest_save_offset == osave.latest_save_offset,
        old(save_file).game_code == osave.game_code,
        !osave.spec_slot_empty(box_number as int, box_position as int),
    ensures
        final(save_file).wf(),
        final(store).wf(),
        ({
            let bn = box_number as int;
            let bt = box_position as int;
            let dest_occupied = old(store).spec_location_occupied(
                dest.box_number,
                dest.box_position,
            );
            &&& (r is Ok <==> !dest_occupied)
            &&& (r is Err ==> r == Result::<u64, TransferError>::Err(
                TransferError::StoreWriteFailed,
            ))
            &&& (r is Err ==> spec_deposit_compensated(
                osave,
                *old(store),
                *final(save_file),
                *final(store),
                bn,
                bt,
                restore_write_ok,
            ))
            &&& (r matches Ok(id) ==> spec_deposit_done(
                osave,
                *old(store),
                *final(save_file),
                *final(store),
                bn,
                bt,
                dest,
                id,
            ))
        }),
{
    let ghost ostore = *old(store);
    let ghost bn = box_number as int;
    let ghost bt = box_position as int;
    let ghost bytes = osave.spec_slot_bytes(bn, bt);
    let mon = match MonsterData::from_pk3(blob.as_slice()) {
        Ok(m) => m,
        Err(_) => {
            proof {
                assert(false);
            }
            return Err(TransferError::Save(SaveError::MalformedCreature));
        },
    };
    match store.insert_new_mon(&mon, dest) {
        Ok(id) => {
            proof {
                reveal(spec_deposit_done);
                assert(spec_deposit_done(osave, ostore, *save_file, *store, bn, bt, dest, id));
            }
            Ok(id)
        },
        Err(_) => {
            if restore_write_ok {
                deposit_restore(save_file, box_number, box_position, blob, Ghost(osave));
            }
            proof {
                reveal(spec_deposit_compensated);
                assert(spec_deposit_compensated(
                    osave,
                    ostore,
                    *save_file,
                    *store,
                    bn,
                    bt,
                    restore_write_ok,
                ));
            }
            Err(TransferError::StoreWriteFailed)
        },
    }
}

/// Put the creature taken by a failed deposit back into its slot and
/// recompute the checksums, restoring the save to a persistable state that
/// holds the creature again.
#[verifier::rlimit(100)]
fn deposit_restore(
    save_file: &mut SaveFile,
    box_number: u8,
    box_position: u8,
    blob: &Vec<u8>,
    Ghost(osave): Ghost<SaveFile>,
)
    requires
        old(save_file).wf(),
        1 <= box_number <= 14,
        1 <= box_position <= 30,
        blob@ == osave.spec_slot_bytes(box_number as int, box_position as int),
        blob@.len() == 80,
        Pokemon::spec_decodable(blob@),
        forall|b: int, t: int|
            1 <= b <= 14 && 1 <= t <= 30 && !(b == box_number && t == box_position)
                ==> #[trigger] old(save_file).spec_slot_bytes(b, t) == osave.spec_slot_bytes(b, t),
        old(save_file).latest_save_offset == osave.latest_save_offset,
        old(save_file).game_code == osave.game_code,
    ensures
        final(save_file).wf(),
        final(save_file).spec_slot_bytes(box_number as int, box_position as int) == osave
            .spec_slot_bytes(box_number as int, box_position as int),
        forall|b: int, t: int|
            1 <= b <= 14 && 1 <= t <= 30 && !(b == box_number && t == box_position)
                ==> #[trigger] final(save_file).spec_slot_bytes(b, t) == osave.spec_slot_bytes(
                b,
                t,
            ),
        crate::save::spec_all_checksums_ok(
            final(save_file).full_contents@,
            final(save_file).latest_save_offset as int,
        ),
        final(save_file).latest_save_offset == osave.latest_save_offset,
        final(save_file).game_code == osave.game_code,
{
    let blob_slice = blob.as_slice();
    proof {
        assert(blob_slice@.len() == 80);
    }
    let put_result = save_file.put_pokemon_in_box(box_number, box_position, blob_slice, true);
    match put_result {
        Ok(wrote) => {
            proof {
                assert(wrote);
                assert(save_file.spec_slot_bytes(box_number as int, box_position as int)
                    == blob@);
            }
        },
        Err(e) => {
            proof {
                assert(false);
            }
        },
    }
    let _finalized = save_file.write_in_place();
}

/// At-most-one home across a successful deposit: when the two states stand
/// in the relation `handle_deposit` establishes on success, every identity
/// that had a single home before the deposit still has a single home.
pub proof fn lemma_deposit_keeps_single_home(
    osave: SaveFile,
    ostore: RoamStore,
    nsave: SaveFile,
    nstore: RoamStore,
    bn: int,
    bt: int,
    dest: BoxLocation,
    id: u64,
)
    requires
        1 <= bn <= 14,
        1 <= bt <= 30,
        !osave.spec_slot_empty(bn, bt),
        spec_deposit_done(osave, ostore, nsave, nstore, bn, bt, dest, id),
    ensures
        forall|pv: int, ot: int|
            spec_single_home(osave, ostore, pv, ot) ==> #[trigger] spec_single_home(
                nsave,
                nstore,
                pv,
                ot,
            ),
{
    reveal(spec_deposit_done);
    assert forall|pv: int, ot: int|
        spec_single_home(osave, ostore, pv, ot) implies #[trigger] spec_single_home(
        nsave,
        nstore,
        pv,
        ot,
    ) by {
        lemma_deposit_row_preserves_single_home(osave, nsave, ostore, nstore, bn, bt, pv, ot);
    }
}

/// At-most-one home across a deposit whose store insert was refused: the
/// compensated states keep every identity in a single home, whether or not
/// the compensating save write went through.
pub proof fn lemma_deposit_compensation_keeps_single_home(
    osave: SaveFile,
    ostore: RoamStore,
    nsave: SaveFile,
    nstore: RoamStore,
    bn: int,
    bt: int,
    restore_write_ok: bool,
)
    requires
        1 <= bn <= 14,
        1 <= bt <= 30,
        spec_deposit_compensated(osave, ostore, nsave, nstore, bn, bt, restore_write_ok),
    ensures
        forall|pv: int, ot: int|
            spec_single_home(osave, ostore, pv, ot) ==> #[trigger] spec_single_home(
                nsave,
                nstore,
                pv,
                ot,
            ),
{
    reveal(spec_deposit_compensated);
    if restore_write_ok {
        assert forall|b: int, t: int|
            1 <= b <= 14 && 1 <= t <= 30 implies #[trigger] nsave.spec_slot_bytes(b, t)
            == osave.spec_slot_bytes(b, t) by {}
        lemma_in_save_congruence(osave, nsave);
    } else {
        lemma_slot_cleared_preserves_single_home(osave, nsave, ostore, bn, bt);
    }
}

/// The store row that holds the creature with `monster_id`.
pub open spec fn spec_row_of(store: RoamStore, monster_id: u64) -> int {
    choose|k: int|
        0 <= k < store.entries@.len() && (#[trigger] store.entries@[k]).monster_id == monster_id
}

/// The save and store after a successful withdraw: row `k` left the store,
/// and its blob now sits in the destination slot of the checksummed save.
#[verifier::opaque]
pub open spec fn spec_withdraw_done(
    osave: SaveFile,
    ostore: RoamStore,
    nsave: SaveFile,
    nstore: RoamStore,
    bn: int,
    bt: int,
    k: int,
) -> bool {
    &&& 0 <= k < ostore.monsters@.len()
    &&& nstore.monsters@ == ostore.monsters@.remove(k)
    &&& nstore.entries@ == ostore.entries@.remove(k)
    &&& nstore.saves@ == ostore.saves@
    &&& nsave.spec_slot_bytes(bn, bt) == ostore.monsters@[k].data@
    &&& (forall|b: int, t: int|
        1 <= b <= 14 && 1 <= t <= 30 && !(b == bn && t == bt) ==> #[trigger] nsave.spec_slot_bytes(
            b,
            t,
        ) == osave.spec_slot_bytes(b, t))
    &&& crate::save::spec_all_checksums_ok(nsave.full_contents@, nsave.latest_save_offset as int)
    &&& nsave.latest_save_offset == osave.latest_save_offset
    &&& nsave.game_code == osave.game_code
}

/// The store after a withdraw whose save write failed: row `k` was taken
/// out and the same creature was put back under a fresh id at its old
/// location, so the stored identities are unchanged.
#[verifier::opaque]
pub open spec fn spec_withdraw_reinserted(ostore: RoamStore, nstore: RoamStore, k: int) -> bool {
    &&& 0 <= k < ostore.monsters@.len()
    &&& nstore.monsters@.len() == ostore.monsters@.len()
    &&& (forall|i: int|
        0 <= i < ostore.monsters@.len() - 1 ==> #[trigger] nstore.monsters@[i]
            == ostore.monsters@.remove(k)[i])
    &&& ({
        let m = nstore.monsters@[nstore.monsters@.len() - 1];
        let o = ostore.monsters@[k];
        &&& m.personality_value == o.personality_value
        &&& m.original_trainer_id == o.original_trainer_id
        &&& m.original_secret_id == o.original_secret_id
        &&& m.data@ == o.data@
    })
    &&& nstore.saves@ == ostore.saves@
}

/// At-most-one home across a successful withdraw: the identity entered the
/// empty destination slot exactly as its one store row left.
pub proof fn lemma_withdraw_keeps_single_home(
    osave: SaveFile,
    ostore: RoamStore,
    nsave: SaveFile,
    nstore: RoamStore,
    bn: int,
    bt: int,
    k: int,
)
    requires
        1 <= bn <= 14,
        1 <= bt <= 30,
        ostore.wf(),
        osave.spec_slot_empty(bn, bt),
        spec_withdraw_done(osave, ostore, nsave, nstore, bn, bt, k),
    ensures
        forall|pv: int, ot: int|
            spec_single_home(osave, ostore, pv, ot) ==> #[trigger] spec_single_home(
                nsave,
                nstore,
                pv,
                ot,
            ),
{
    reveal(spec_withdraw_done);
    let row = ostore.monsters@[k];
    let pvx = row.personality_value as int;
    let otx = row.spec_full_trainer_id();
    let bytes = row.data@;
    assert(row.wf());
    assert(u32_at(bytes, 0) == pvx);
    assert(u32_at(bytes, 4) == u16_at(bytes, 4) + 0x10000 * u16_at(bytes, 6));
    assert(u32_at(bytes, 4) == otx);
    assert forall|pv: int, ot: int|
        spec_single_home(osave, ostore, pv, ot) implies #[trigger] spec_single_home(
        nsave,
        nstore,
        pv,
        ot,
    ) by {
        assert forall|i: int|
            0 <= i < nstore.monsters@.len() implies ((#[trigger] nstore.monsters@[i]) == if i < k {
            ostore.monsters@[i]
        } else {
            ostore.monsters@[i + 1]
        }) by {}
        if spec_in_store(nstore, pv, ot) {
            let i = choose|i: int|
                #![trigger nstore.monsters@[i]]
                {
                    &&& 0 <= i < nstore.monsters@.len()
                    &&& nstore.monsters@[i].personality_value == pv
                    &&& nstore.monsters@[i].spec_full_trainer_id() == ot
                };
            if i < k {
                assert(ostore.monsters@[i].personality_value == pv);
                assert(spec_in_store(ostore, pv, ot));
            } else {
                assert(ostore.monsters@[i + 1].personality_value == pv);
                assert(spec_in_store(ostore, pv, ot));
            }
        }
        assert forall|i: int, j: int|
            #![trigger nstore.monsters@[i], nstore.monsters@[j]]
            (0 <= i < nstore.monsters@.len() && 0 <= j < nstore.monsters@.len()
                && nstore.monsters@[i].personality_value == pv
                && nstore.monsters@[i].spec_full_trainer_id() == ot
                && nstore.monsters@[j].personality_value == pv
                && nstore.monsters@[j].spec_full_trainer_id() == ot) implies i == j by {
            let io = if i < k {
                i
            } else {
                i + 1
            };
            let jo = if j < k {
                j
            } else {
                j + 1
            };
            assert(nstore.monsters@[i] == ostore.monsters@[io]);
            assert(nstore.monsters@[j] == ostore.monsters@[jo]);
        }
        assert(spec_unique_in_store(nstore, pv, ot));
        if spec_in_save(nsave, pv, ot) && spec_in_store(nstore, pv, ot) {
            let (b, t) = choose|b: int, t: int|
                #![trigger nsave.spec_slot_bytes(b, t)]
                {
                    &&& 1 <= b <= 14
                    &&& 1 <= t <= 30
                    &&& !nsave.spec_slot_empty(b, t)
                    &&& u32_at(nsave.spec_slot_bytes(b, t), 0) == pv
                    &&& u32_at(nsave.spec_slot_bytes(b, t), 4) == ot
                };
            if b == bn && t == bt {
                assert(pv == pvx && ot == otx);
                let i = choose|i: int|
                    #![trigger nstore.monsters@[i]]
                    {
                        &&& 0 <= i < nstore.monsters@.len()
                        &&& nstore.monsters@[i].personality_value == pv
                        &&& nstore.monsters@[i].spec_full_trainer_id() == ot
                    };
                let io = if i < k {
                    i
                } else {
                    i + 1
                };
                assert(nstore.monsters@[i] == ostore.monsters@[io]);
                assert(io != k);
                assert(spec_unique_in_store(ostore, pvx, otx));
                assert(false);
            } else {
                assert(nsave.spec_slot_bytes(b, t) == osave.spec_slot_bytes(b, t));
                assert(spec_in_save(osave, pv, ot));
                assert(!(spec_in_save(osave, pv, ot) && spec_in_store(ostore, pv, ot)));
                assert(false);
            }
        }
        assert forall|b1: int, t1: int, b2: int, t2: int|
            #![trigger nsave.spec_slot_bytes(b1, t1), nsave.spec_slot_bytes(b2, t2)]
            (1 <= b1 <= 14 && 1 <= t1 <= 30 && 1 <= b2 <= 14 && 1 <= t2 <= 30
                && !nsave.spec_slot_empty(b1, t1) && !nsave.spec_slot_empty(b2, t2) && u32_at(
                nsave.spec_slot_bytes(b1, t1),
                0,
            ) == pv && u32_at(nsave.spec_slot_bytes(b1, t1), 4) == ot && u32_at(
                nsave.spec_slot_bytes(b2, t2),
                0,
            ) == pv && u32_at(nsave.spec_slot_bytes(b2, t2), 4) == ot) implies b1 == b2 && t1
            == t2 by {
            if (b1 == bn && t1 == bt) && (b2 == bn && t2 == bt) {
            } else if b1 == bn && t1 == bt {
                assert(nsave.spec_slot_bytes(b2, t2) == osave.spec_slot_bytes(b2, t2));
                assert(pv == pvx && ot == otx);
                assert(spec_in_save(osave, pvx, otx));
                assert(spec_in_store(ostore, pvx, otx));
                assert(false);
            } else if b2 == bn && t2 == bt {
                assert(nsave.spec_slot_bytes(b1, t1) == osave.spec_slot_bytes(b1, t1));
                assert(pv == pvx && ot == otx);
                assert(spec_in_save(osave, pvx, otx));
                assert(spec_in_store(ostore, pvx, otx));
                assert(false);
            } else {
                assert(nsave.spec_slot_bytes(b1, t1) == osave.spec_slot_bytes(b1, t1));
                assert(nsave.spec_slot_bytes(b2, t2) == osave.spec_slot_bytes(b2, t2));
            }
        }
        assert(spec_unique_in_save(nsave, pv, ot));
    }
}

/// At-most-one home across a withdraw whose save write failed: the save is
/// back to its old bytes and the store holds the same identities as
/// before, so nothing moved.
pub proof fn lemma_withdraw_reinserted_keeps_single_home(
    osave: SaveFile,
    ostore: RoamStore,
    nsave: SaveFile,
    nstore: RoamStore,
    k: int,
)
    requires
        spec_withdraw_reinserted(ostore, nstore, k),
        forall|b: int, t: int|
            1 <= b <= 14 && 1 <= t <= 30 ==> #[trigger] nsave.spec_slot_bytes(b, t)
                == osave.spec_slot_bytes(b, t),
    ensures
        forall|pv: int, ot: int|
            spec_single_home(osave, ostore, pv, ot) ==> #[trigger] spec_single_home(
                nsave,
                nstore,
                pv,
                ot,
            ),
{
    reveal(spec_withdraw_reinserted);
    lemma_in_save_congruence(osave, nsave);
    let last = nstore.monsters@.len() - 1;
    assert forall|pv: int, ot: int|
        spec_single_home(osave, ostore, pv, ot) implies #[trigger] spec_single_home(
        nsave,
        nstore,
        pv,
        ot,
    ) by {
        assert forall|i: int|
            0 <= i < last implies ((#[trigger] nstore.monsters@[i]) == if i < k {
            ostore.monsters@[i]
        } else {
            ostore.monsters@[i + 1]
        }) by {
            assert(nstore.monsters@[i] == ostore.monsters@.remove(k)[i]);
        }
        assert forall|i: int|
            0 <= i < nstore.monsters@.len() && (#[trigger] nstore.monsters@[i]).personality_value
                == pv && nstore.monsters@[i].spec_full_trainer_id() == ot implies exists|j: int|
            {
                &&& 0 <= j < ostore.monsters@.len()
                &&& (#[trigger] ostore.monsters@[j]).personality_value == pv
                &&& ostore.monsters@[j].spec_full_trainer_id() == ot
            } by {
            let jo: int = if i == last {
                k
            } else if i < k {
                i
            } else {
                i + 1
            };
            assert(ostore.monsters@[jo].personality_value == pv);
            assert(ostore.monsters@[jo].spec_full_trainer_id() == ot);
        }
        if spec_in_store(nstore, pv, ot) {
            assert(spec_in_store(ostore, pv, ot));
        }
        assert forall|i: int, j: int|
            #![trigger nstore.monsters@[i], nstore.monsters@[j]]
            (0 <= i < nstore.monsters@.len() && 0 <= j < nstore.monsters@.len()
                && nstore.monsters@[i].personality_value == pv
                && nstore.monsters@[i].spec_full_trainer_id() == ot
                && nstore.monsters@[j].personality_value == pv
                && nstore.monsters@[j].spec_full_trainer_id() == ot) implies i == j by {
            let io: int = if i == last {
                k
            } else if i < k {
                i
            } else {
                i + 1
            };
            let jo: int = if j == last {
                k
            } else if j < k {
                j
            } else {
                j + 1
            };
            assert(ostore.monsters@[io].personality_value == pv
                && ostore.monsters@[io].spec_full_trainer_id() == ot);
            assert(ostore.monsters@[jo].personality_value == pv
                && ostore.monsters@[jo].spec_full_trainer_id() == ot);
            assert(io == jo);
        }
        assert(spec_unique_in_store(nstore, pv, ot));
    }
}

/// Put a creature that could not be delivered back into the store at its
/// old location, which the withdraw left free.
fn withdraw_reinsert(
    store: &mut RoamStore,
    mon: &MonsterData,
    location: BoxLocation,
    Ghost(ostore): Ghost<RoamStore>,
    Ghost(k): Ghost<int>,
)
    requires
        ostore.wf(),
        old(store).wf(),
        old(store).next_monster_id < u64::MAX,
        0 <= k < ostore.monsters@.len(),
        old(store).monsters@ == ostore.monsters@.remove(k),
        old(store).entries@ == ostore.entries@.remove(k),
        old(store).saves@ == ostore.saves@,
        mon.wf(),
        mon.personality_value == ostore.monsters@[k].personality_value,
        mon.original_trainer_id == ostore.monsters@[k].original_trainer_id,
        mon.original_secret_id == ostore.monsters@[k].original_secret_id,
        mon.data@ == ostore.monsters@[k].data@,
        location.box_number == ostore.entries@[k].box_number,
        location.box_position == ostore.entries@[k].box_position,
    ensures
        final(store).wf(),
        spec_withdraw_reinserted(ostore, *final(store), k),
{
    proof {
        assert forall|i: int|
            0 <= i < store.entries@.len() implies !((#[trigger] store.entries@[i]).box_number
            == location.box_number && store.entries@[i].box_position
            == location.box_position) by {
            let io = if i < k {
                i
            } else {
                i + 1
            };
            assert(store.entries@[i] == ostore.entries@[io]);
            assert(io != k);
        }
        assert(!store.spec_location_occupied(location.box_number, location.box_position));
    }
    let inserted = store.insert_new_mon(mon, location);
    proof {
        assert(inserted is Ok);
        reveal(spec_withdraw_reinserted);
        assert forall|i: int|
            0 <= i < ostore.monsters@.len() - 1 implies #[trigger] store.monsters@[i]
            == ostore.monsters@.remove(k)[i] by {}
        assert(spec_withdraw_reinserted(ostore, *store, k));
    }
}

/// The save half of a withdraw: the store row is already out; write its
/// blob into the destination slot and checksum the save. When the blob is
/// not in box form or the save cannot be persisted, put the creature back
/// into the store and restore the save's bytes.
#[verifier::rlimit(100)]
fn withdraw_commit(
    save_file: &mut SaveFile,
    store: &mut RoamStore,
    box_number: u8,
    box_position: u8,
    mon: MonsterData,
    location: BoxLocation,
    save_write_ok: bool,
    Ghost(osave): Ghost<SaveFile>,
    Ghost(ostore): Ghost<RoamStore>,
    Ghost(k): Ghost<int>,
) -> (r: Result<(), TransferError>)
    requires
        *old(save_file) == osave,
        osave.wf(),
        ostore.wf(),
        old(store).wf(),
        old(store).next_monster_id < u64::MAX,
        0 <= k < ostore.monsters@.len(),
        old(store).monsters@ == ostore.monsters@.remove(k),
        old(store).entries@ == ostore.entries@.remove(k),
        old(store).saves@ == ostore.saves@,
        mon.wf(),
        mon.personality_value == ostore.monsters@[k].personality_value,
        mon.original_trainer_id == ostore.monsters@[k].original_trainer_id,
        mon.original_secret_id == ostore.monsters@[k].original_secret_id,
        mon.data@ == ostore.monsters@[k].data@,
        location.box_number == ostore.entries@[k].box_number,
        location.box_position == ostore.entries@[k].box_position,
        1 <= box_number <= 14,
        1 <= box_position <= 30,
        osave.spec_slot_empty(box_number as int, box_position as int),
    ensures
        final(save_file).wf(),
        final(store).wf(),
        r is Ok <==> mon.data@.len() == 80 && save_write_ok,
        r == Result::<(), TransferError>::Err(TransferError::Save(SaveError::MalformedCreature))
            <==> mon.data@.len() != 80,
        r == Result::<(), TransferError>::Err(TransferError::SaveWriteFailed) <==> mon.data@.len()
            == 80 && !save_write_ok,
        r is Err ==> spec_same_state(osave, *final(save_file)) && spec_withdraw_reinserted(
            ostore,
            *final(store),
            k,
        ),
        r is Ok ==> spec_withdraw_done(
            osave,
            ostore,
            *final(save_file),
            *final(store),
            box_number as int,
            box_position as int,
            k,
        ),
{
    let ghost bn = box_number as int;
    let ghost bt = box_position as int;
    let n = save_file.full_contents.len();
    let backup = sub_bytes(save_file.full_contents.as_slice(), 0, n);
    proof {
        assert(backup@ =~= osave.full_contents@);
    }
    if mon.data.len() != 80 {
        withdraw_reinsert(store, &mon, location, Ghost(ostore), Ghost(k));
        return Err(TransferError::Save(SaveError::MalformedCreature));
    }
    let put_result = save_file.put_pokemon_in_box(
        box_number,
        box_position,
        mon.data.as_slice(),
        false,
    );
    match put_result {
        Ok(wrote) => {
            proof {
                assert(wrote);
            }
        },
        Err(_) => {
            proof {
                assert(false);
            }
        },
    }
    if save_write_ok {
        let _finalized = save_file.write_in_place();
        proof {
            reveal(spec_withdraw_done);
            assert(save_file.spec_slot_bytes(bn, bt) == mon.data@);
            assert(spec_withdraw_done(osave, ostore, *save_file, *store, bn, bt, k));
        }
        Ok(())
    } else {
        save_file.full_contents = backup;
        proof {
            assert(spec_same_state(osave, *save_file));
            assert(save_file.wf());
        }
        withdraw_reinsert(store, &mon, location, Ghost(ostore), Ghost(k));
        Err(TransferError::SaveWriteFailed)
    }
}

/// Withdraw the creature `monster_id` from the store into box slot
/// (`box_number`, `box_position`) of the save. The destination must be
/// free; the store gives the creature up first and the save is written
/// second, and a failed write puts the creature back into the store.
pub fn handle_withdraw(
    save_file: &mut SaveFile,
    store: &mut RoamStore,
    monster_id: u64,
    box_number: u8,
    box_position: u8,
    save_write_ok: bool,
) -> (r: Result<(), TransferError>)
    requires
        old(save_file).wf(),
        old(store).wf(),
        old(store).next_monster_id < u64::MAX,
    ensures
        final(save_file).wf(),
        final(store).wf(),
        ({
            let bn = box_number as int;
            let bt = box_position as int;
            let in_range = 1 <= box_number <= 14 && 1 <= box_position <= 30;
            let dest_empty = old(save_file).spec_slot_empty(bn, bt);
            let dest_decodable = Pokemon::spec_decodable(old(save_file).spec_slot_bytes(bn, bt));
            let has = old(store).spec_has_monster(monster_id);
            let k = spec_row_of(*old(store), monster_id);
            let row_len_ok = old(store).monsters@[k].data@.len() == 80;
            &&& (r == Result::<(), TransferError>::Err(TransferError::Save(
                SaveError::SlotOutOfRange,
            )) <==> !in_range)
            &&& (r == Result::<(), TransferError>::Err(TransferError::DestinationOccupied) <==>
                in_range && !dest_empty && dest_decodable)
            &&& (r == Result::<(), TransferError>::Err(TransferError::StoreReadFailed) <==>
                in_range && dest_empty && !has)
            &&& (r == Result::<(), TransferError>::Err(TransferError::Save(
                SaveError::MalformedCreature,
            )) <==> in_range && ((!dest_empty && !dest_decodable) || (dest_empty && has
                && !row_len_ok)))
            &&& (r == Result::<(), TransferError>::Err(TransferError::SaveWriteFailed) <==>
                in_range && dest_empty && has && row_len_ok && !save_write_ok)
            &&& (r is Ok <==> in_range && dest_empty && has && row_len_ok && save_write_ok)
            &&& (!in_range || (!dest_empty) || (dest_empty && !has) ==> spec_same_state(
                *old(save_file),
                *final(save_file),
            ) && *final(store) == *old(store))
            &&& (in_range && dest_empty && has && (!row_len_ok || !save_write_ok)
                ==> spec_same_state(*old(save_file), *final(save_file))
                && spec_withdraw_reinserted(*old(store), *final(store), k))
            &&& (r is Ok ==> spec_withdraw_done(
                *old(save_file),
                *old(store),
                *final(save_file),
                *final(store),
                bn,
                bt,
                k,
            ))
        }),
{
    let ghost osave = *old(save_file);
    let ghost ostore = *old(store);
    match save_file.get_pokemon_from_box(box_number, box_position) {
        Err(e) => {
            return Err(TransferError::Save(e));
        },
        Ok(Some(_)) => {
            return Err(TransferError::DestinationOccupied);
        },
        Ok(None) => {},
    }
    let (mon, location) = match store.withdraw_mon(monster_id) {
        Err(_) => {
            return Err(TransferError::StoreReadFailed);
        },
        Ok(p) => p,
    };
    let ghost k = choose|k: int|
        #![trigger ostore.entries@[k]]
        {
            let mons = ostore.monsters@;
            let ents = ostore.entries@;
            &&& 0 <= k < mons.len()
            &&& ents[k].monster_id == monster_id
            &&& mon.id == Some(monster_id)
            &&& mon.personality_value == mons[k].personality_value
            &&& mon.original_trainer_id == mons[k].original_trainer_id
            &&& mon.original_secret_id == mons[k].original_secret_id
            &&& mon.data_format == mons[k].data_format
            &&& mon.data@ == mons[k].data@
            &&& location == (BoxLocation {
                box_number: ents[k].box_number,
                box_position: ents[k].box_position,
                monster_id: Some(monster_id),
            })
            &&& store.monsters@ == mons.remove(k)
            &&& store.entries@ == ents.remove(k)
        };
    proof {
        assert(ostore.entries@[k].monster_id == monster_id);
        let k2 = spec_row_of(ostore, monster_id);
        assert(ostore.entries@[k2].monster_id == monster_id);
        assert(k == k2);
        assert(ostore.monsters@[k].wf());
    }
    withdraw_commit(
        save_file,
        store,
        box_number,
        box_position,
        mon,
        location,
        save_write_ok,
        Ghost(osave),
        Ghost(ostore),
        Ghost(k),
    )
}

} // verus!
