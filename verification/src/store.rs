//! The roam store: the map from registered saves to their metadata and from
//! stored creatures to their blob and box location. This module is the
//! store's logic over in-memory state; persisting that state is the
//! caller's concern.

use vstd::prelude::*;

use crate::types::{BoxEntry, BoxLocation, GameSave, GameSaveData, MonsterData};

verus! {

/// Failures of store operations: a row that is not there, or a box
/// position that already holds a creature.
#[derive(Clone, Copy, Debug, PartialEq, Eq, Structural)]
pub enum StoreError {
    NotFound,
    LocationOccupied,
}

/// The roam store's state: registered saves, stored creatures, and the box
/// entry that places each creature.
pub struct RoamStore {
    pub saves: Vec<GameSave>,
    pub monsters: Vec<MonsterData>,
    pub entries: Vec<BoxEntry>,
    pub next_monster_id: u64,
    pub next_save_id: u64,
}

impl RoamStore {
    /// The store's invariant: each creature has exactly one box entry, at
    /// the same index; ids are unique and below the next free id; every
    /// (box, position) pair is taken at most once; and each creature's
    /// indexed identity matches its blob.
    pub open spec fn wf(self) -> bool {
        &&& self.monsters@.len() == self.entries@.len()
        &&& forall|i: int|
            0 <= i < self.monsters@.len() ==> (#[trigger] self.monsters@[i]).id == Some(
                self.entries@[i].monster_id,
            )
        &&& forall|i: int|
            0 <= i < self.entries@.len() ==> (#[trigger] self.entries@[i]).monster_id
                < self.next_monster_id
        &&& forall|i: int, j: int|
            0 <= i < j < self.entries@.len() ==> (#[trigger] self.entries@[i]).monster_id != (
            #[trigger] self.entries@[j]).monster_id
        &&& forall|i: int, j: int|
            0 <= i < j < self.entries@.len() ==> !((#[trigger] self.entries@[i]).box_number == (
            #[trigger] self.entries@[j]).box_number && self.entries@[i].box_position
                == self.entries@[j].box_position)
        &&& forall|i: int| 0 <= i < self.monsters@.len() ==> (#[trigger] self.monsters@[i]).wf()
        &&& forall|i: int|
            0 <= i < self.saves@.len() ==> (#[trigger] self.saves@[i]).id < self.next_save_id
        &&& forall|i: int, j: int|
            0 <= i < j < self.saves@.len() ==> (#[trigger] self.saves@[i]).id != (
            #[trigger] self.saves@[j]).id
    }

    /// Whether some box entry occupies the given (box, position) pair.
    pub open spec fn spec_location_occupied(self, box_number: u32, box_position: u32) -> bool {
        exists|i: int|
            0 <= i < self.entries@.len() && (#[trigger] self.entries@[i]).box_number == box_number
                && self.entries@[i].box_position == box_position
    }

    /// Whether some stored creature carries the given id.
    pub open spec fn spec_has_monster(self, monster_id: u64) -> bool {
        exists|i: int|
            0 <= i < self.entries@.len() && (#[trigger] self.entries@[i]).monster_id == monster_id
    }

    /// An empty store.
    pub fn new() -> (r: RoamStore)
        ensures
            r.wf(),
            r.saves@.len() == 0,
            r.monsters@.len() == 0,
            r.entries@.len() == 0,
            r.next_monster_id == 1,
            r.next_save_id == 1,
    {
        RoamStore {
            saves: Vec::new(),
            monsters: Vec::new(),
            entries: Vec::new(),
            next_monster_id: 1,
            next_save_id: 1,
        }
    }

    /// Register a save under the next free id.
    pub fn add_new_save(&mut self, save: &GameSaveData)
        requires
            old(self).wf(),
            old(self).next_save_id < u64::MAX,
        ensures
            final(self).wf(),
            final(self).saves@.len() == old(self).saves@.len() + 1,
            forall|i: int|
                0 <= i < old(self).saves@.len() ==> final(self).saves@[i] == old(self).saves@[i],
            final(self).saves@[old(self).saves@.len() as int].id == old(self).next_save_id,
            final(self).saves@[old(self).saves@.len() as int].data.spec_same(
                (GameSaveData { id: Some(old(self).next_save_id), ..*save }),
            ),
            final(self).next_save_id == old(self).next_save_id + 1,
            final(self).monsters@ == old(self).monsters@,
            final(self).entries@ == old(self).entries@,
            final(self).next_monster_id == old(self).next_monster_id,
    {
        let id = self.next_save_id;
        let data = GameSaveData {
            id: Some(id),
            game: save.game,
            trainer_name: save.trainer_name.clone(),
            trainer_id: save.trainer_id,
            secret_id: save.secret_id,
            playtime: save.playtime,
            connected: save.connected,
            save_path: save.save_path.clone(),
        };
        self.saves.push(GameSave { id, data });
        self.next_save_id = id + 1;
    }

    /// Look a registered save up by id.
    pub fn get_save(&self, save_id: u32) -> (r: Result<GameSaveData, StoreError>)
        requires
            self.wf(),
        ensures
            r is Ok <==> exists|i: int|
                0 <= i < self.saves@.len() && (#[trigger] self.saves@[i]).id == save_id,
            r matches Ok(d) ==> exists|i: int|
                0 <= i < self.saves@.len() && (#[trigger] self.saves@[i]).id == save_id
                    && d.spec_same(self.saves@[i].data),
            r is Err ==> r == Result::<GameSaveData, StoreError>::Err(StoreError::NotFound),
    {
        let mut i: usize = 0;
        while i < self.saves.len()
            invariant
                0 <= i <= self.saves@.len(),
                forall|j: int| 0 <= j < i ==> (#[trigger] self.saves@[j]).id != save_id,
            decreases self.saves@.len() - i,
        {
            if self.saves[i].id == save_id as u64 {
                let d = &self.saves[i].data;
                return Ok(
                    GameSaveData {
                        id: d.id,
                        game: d.game,
                        trainer_name: d.trainer_name.clone(),
                        trainer_id: d.trainer_id,
                        secret_id: d.secret_id,
                        playtime: d.playtime,
                        connected: d.connected,
                        save_path: d.save_path.clone(),
                    },
                );
            }
            i = i + 1;
        }
        Err(StoreError::NotFound)
    }

    /// List every registered save, in registration order.
    pub fn get_saves(&self) -> (r: Vec<GameSave>)
        requires
            self.wf(),
        ensures
            r@.len() == self.saves@.len(),
            forall|i: int|
                0 <= i < r@.len() ==> (#[trigger] r@[i]).id == self.saves@[i].id
                    && r@[i].data.spec_same(self.saves@[i].data),
    {
        let mut out: Vec<GameSave> = Vec::new();
        let mut i: usize = 0;
        while i < self.saves.len()
            invariant
                0 <= i <= self.saves@.len(),
                out@.len() == i,
                forall|j: int|
                    0 <= j < i ==> (#[trigger] out@[j]).id == self.saves@[j].id
                        && out@[j].data.spec_same(self.saves@[j].data),
            decreases self.saves@.len() - i,
        {
            let d = &self.saves[i].data;
            out.push(
                GameSave {
                    id: self.saves[i].id,
                    data: GameSaveData {
                        id: d.id,
                        game: d.game,
                        trainer_name: d.trainer_name.clone(),
                        trainer_id: d.trainer_id,
                        secret_id: d.secret_id,
                        playtime: d.playtime,
                        connected: d.connected,
                        save_path: d.save_path.clone(),
                    },
                },
            );
            i = i + 1;
        }
        out
    }

    /// Flip a registered save's connected flag off.
    pub fn set_save_disconnected(&mut self, save_id: u32)
        requires
            old(self).wf(),
        ensures
            final(self).wf(),
            final(self).saves@.len() == old(self).saves@.len(),
            forall|i: int|
                0 <= i < old(self).saves@.len() && (#[trigger] old(self).saves@[i]).id != save_id
                    ==> final(self).saves@[i] == old(self).saves@[i],
            forall|i: int|
                0 <= i < old(self).saves@.len() && (#[trigger] old(self).saves@[i]).id == save_id
                    ==> final(self).saves@[i].id == old(self).saves@[i].id
                    && final(self).saves@[i].data.connected == false
                    && final(self).saves@[i].data.spec_same(
                    (GameSaveData { connected: false, ..old(self).saves@[i].data }),
                ),
            final(self).monsters@ == old(self).monsters@,
            final(self).entries@ == old(self).entries@,
            final(self).next_monster_id == old(self).next_monster_id,
            final(self).next_save_id == old(self).next_save_id,
    {
        let n = self.saves.len();
        let mut i: usize = 0;
        while i < n
            invariant
                0 <= i <= n,
                n == self.saves@.len() == old(self).saves@.len(),
                old(self).wf(),
                self.monsters@ == old(self).monsters@,
                self.entries@ == old(self).entries@,
                self.next_monster_id == old(self).next_monster_id,
                self.next_save_id == old(self).next_save_id,
                forall|j: int| i <= j < n ==> self.saves@[j] == old(self).saves@[j],
                forall|j: int|
                    0 <= j < i && (#[trigger] old(self).saves@[j]).id != save_id ==> self.saves@[j]
                        == old(self).saves@[j],
                forall|j: int|
                    0 <= j < i && (#[trigger] old(self).saves@[j]).id == save_id
                        ==> self.saves@[j].id == old(self).saves@[j].id
                        && self.saves@[j].data.connected == false && self.saves@[j].data.spec_same(
                        GameSaveData { connected: false, ..old(self).saves@[j].data },
                    ),
            decreases n - i,
        {
            if self.saves[i].id == save_id as u64 {
                let d = &self.saves[i].data;
                let updated = GameSave {
                    id: self.saves[i].id,
                    data: GameSaveData {
                        id: d.id,
                        game: d.game,
                        trainer_name: d.trainer_name.clone(),
                        trainer_id: d.trainer_id,
                        secret_id: d.secret_id,
                        playtime: d.playtime,
                        connected: false,
                        save_path: d.save_path.clone(),
                    },
                };
                self.saves.set(i, updated);
            }
            i = i + 1;
        }
        proof {
            assert forall|i2: int, j2: int|
                0 <= i2 < j2 < self.saves@.len() implies (#[trigger] self.saves@[i2]).id != (
            #[trigger] self.saves@[j2]).id by {
                assert(self.saves@[i2].id == old(self).saves@[i2].id);
                assert(self.saves@[j2].id == old(self).saves@[j2].id);
            }
            assert forall|i2: int|
                0 <= i2 < self.saves@.len() implies (#[trigger] self.saves@[i2]).id
                < self.next_save_id by {
                assert(self.saves@[i2].id == old(self).saves@[i2].id);
            }
        }
    }

    /// Forget a registered save: delete its row and keep every other.
    pub fn delete_save(&mut self, save_id: u64)
        requires
            old(self).wf(),
        ensures
            final(self).wf(),
            forall|i: int|
                0 <= i < final(self).saves@.len() ==> (#[trigger] final(self).saves@[i]).id
                    != save_id,
            (forall|i: int|
                0 <= i < old(self).saves@.len() ==> (#[trigger] old(self).saves@[i]).id
                    != save_id) ==> final(self).saves@ == old(self).saves@,
            (exists|k: int|
                0 <= k < old(self).saves@.len() && (#[trigger] old(self).saves@[k]).id == save_id)
                ==> (exists|k: int|
                0 <= k < old(self).saves@.len() && (#[trigger] old(self).saves@[k]).id == save_id
                    && final(self).saves@ == old(self).saves@.remove(k)),
            final(self).monsters@ == old(self).monsters@,
            final(self).entries@ == old(self).entries@,
            final(self).next_monster_id == old(self).next_monster_id,
            final(self).next_save_id == old(self).next_save_id,
    {
        let n = self.saves.len();
        let mut i: usize = 0;
        while i < n
            invariant
                0 <= i <= n,
                n == self.saves@.len(),
                self.wf(),
                *self == *old(self),
                forall|j: int| 0 <= j < i ==> (#[trigger] self.saves@[j]).id != save_id,
            decreases n - i,
        {
            if self.saves[i].id == save_id {
                let ghost pre = self.saves@;
                let ghost k = i as int;
                self.saves.remove(i);
                proof {
                    assert(self.saves@ == pre.remove(k));
                    assert forall|j: int|
                        0 <= j < self.saves@.len() implies (#[trigger] self.saves@[j]).id
                        != save_id by {
                        if j < k {
                            assert(self.saves@[j] == pre[j]);
                        } else {
                            assert(self.saves@[j] == pre[j + 1]);
                        }
                    }
                    assert forall|j1: int, j2: int|
                        0 <= j1 < j2 < self.saves@.len() implies (#[trigger] self.saves@[j1]).id
                        != (#[trigger] self.saves@[j2]).id by {}
                    assert forall|j: int|
                        0 <= j < self.saves@.len() implies (#[trigger] self.saves@[j]).id
                        < self.next_save_id by {
                        if j < k {
                            assert(self.saves@[j] == pre[j]);
                        } else {
                            assert(self.saves@[j] == pre[j + 1]);
                        }
                    }
                }
                return ;
            }
            i = i + 1;
        }
    }

    /// Store a creature: give it the next free id, record its blob, and
    /// claim the destination (box, position); the claim fails when the
    /// position is already taken, and then nothing changes.
    pub fn insert_new_mon(&mut self, mon: &MonsterData, location: BoxLocation) -> (r: Result<
        u64,
        StoreError,
    >)
        requires
            old(self).wf(),
            mon.wf(),
            old(self).next_monster_id < u64::MAX,
        ensures
            final(self).wf(),
            r is Ok <==> !old(self).spec_location_occupied(
                location.box_number,
                location.box_position,
            ),
            r is Err ==> r == Result::<u64, StoreError>::Err(StoreError::LocationOccupied)
                && *final(self) == *old(self),
            r matches Ok(id) ==> {
                &&& id == old(self).next_monster_id
                &&& final(self).next_monster_id == old(self).next_monster_id + 1
                &&& final(self).monsters@.len() == old(self).monsters@.len() + 1
                &&& final(self).entries@.len() == old(self).entries@.len() + 1
                &&& (forall|i: int|
                    0 <= i < old(self).monsters@.len() ==> final(self).monsters@[i] == old(
                        self,
                    ).monsters@[i])
                &&& (forall|i: int|
                    0 <= i < old(self).entries@.len() ==> final(self).entries@[i] == old(
                        self,
                    ).entries@[i])
                &&& ({
                    let m = final(self).monsters@[old(self).monsters@.len() as int];
                    &&& m.id == Some(id)
                    &&& m.original_trainer_id == mon.original_trainer_id
                    &&& m.original_secret_id == mon.original_secret_id
                    &&& m.personality_value == mon.personality_value
                    &&& m.data_format == mon.data_format
                    &&& m.data@ == mon.data@
                })
                &&& final(self).entries@[old(self).entries@.len() as int] == (BoxEntry {
                    box_number: location.box_number,
                    box_position: location.box_position,
                    monster_id: id,
                })
                &&& final(self).saves@ == old(self).saves@
                &&& final(self).next_save_id == old(self).next_save_id
            },
    {
        let n = self.entries.len();
        let mut i: usize = 0;
        while i < n
            invariant
                0 <= i <= n,
                n == self.entries@.len(),
                *self == *old(self),
                old(self).wf(),
                forall|j: int|
                    0 <= j < i ==> !((#[trigger] self.entries@[j]).box_number
                        == location.box_number && self.entries@[j].box_position
                        == location.box_position),
            decreases n - i,
        {
            if self.entries[i].box_number == location.box_number && self.entries[i].box_position
                == location.box_position {
                return Err(StoreError::LocationOccupied);
            }
            i = i + 1;
        }
        let id = self.next_monster_id;
        let stored = MonsterData {
            id: Some(id),
            original_trainer_id: mon.original_trainer_id,
            original_secret_id: mon.original_secret_id,
            personality_value: mon.personality_value,
            data_format: mon.data_format,
            data: crate::bytes::sub_bytes(mon.data.as_slice(), 0, mon.data.len()),
        };
        self.monsters.push(stored);
        self.entries.push(
            BoxEntry {
                box_number: location.box_number,
                box_position: location.box_position,
                monster_id: id,
            },
        );
        self.next_monster_id = id + 1;
        Ok(id)
    }

    /// List every stored creature, in storage order.
    pub fn get_all_mons(&self) -> (r: Vec<MonsterData>)
        requires
            self.wf(),
        ensures
            r@.len() == self.monsters@.len(),
            forall|i: int|
                0 <= i < r@.len() ==> {
                    let m = #[trigger] r@[i];
                    &&& m.id == self.monsters@[i].id
                    &&& m.personality_value == self.monsters@[i].personality_value
                    &&& m.original_trainer_id == self.monsters@[i].original_trainer_id
                    &&& m.original_secret_id == self.monsters@[i].original_secret_id
                    &&& m.data_format == self.monsters@[i].data_format
                    &&& m.data@ == self.monsters@[i].data@
                },
    {
        let mut out: Vec<MonsterData> = Vec::new();
        let mut i: usize = 0;
        while i < self.monsters.len()
            invariant
                0 <= i <= self.monsters@.len(),
                out@.len() == i,
                forall|j: int|
                    0 <= j < i ==> {
                        let m = #[trigger] out@[j];
                        &&& m.id == self.monsters@[j].id
                        &&& m.personality_value == self.monsters@[j].personality_value
                        &&& m.original_trainer_id == self.monsters@[j].original_trainer_id
                        &&& m.original_secret_id == self.monsters@[j].original_secret_id
                        &&& m.data_format == self.monsters@[j].data_format
                        &&& m.data@ == self.monsters@[j].data@
                    },
            decreases self.monsters@.len() - i,
        {
            out.push(self.monsters[i].clone_data());
            i = i + 1;
        }
        out
    }

    /// Take a creature out of the store: in one step read its blob and its
    /// location and delete both rows. Fails, changing nothing, when no
    /// creature has the id.
    pub fn withdraw_mon(&mut self, id: u64) -> (r: Result<(MonsterData, BoxLocation), StoreError>)
        requires
            old(self).wf(),
        ensures
            final(self).wf(),
            r is Ok <==> old(self).spec_has_monster(id),
            r is Err ==> r == Result::<(MonsterData, BoxLocation), StoreError>::Err(
                StoreError::NotFound,
            ) && *final(self) == *old(self),
            r matches Ok((m, loc)) ==> exists|k: int|
                #![trigger old(self).entries@[k]]
                {
                    let mons = old(self).monsters@;
                    let ents = old(self).entries@;
                    &&& 0 <= k < mons.len()
                    &&& ents[k].monster_id == id
                    &&& m.id == Some(id)
                    &&& m.personality_value == mons[k].personality_value
                    &&& m.original_trainer_id == mons[k].original_trainer_id
                    &&& m.original_secret_id == mons[k].original_secret_id
                    &&& m.data_format == mons[k].data_format
                    &&& m.data@ == mons[k].data@
                    &&& loc == (BoxLocation {
                        box_number: ents[k].box_number,
                        box_position: ents[k].box_position,
                        monster_id: Some(id),
                    })
                    &&& final(self).monsters@ == mons.remove(k)
                    &&& final(self).entries@ == ents.remove(k)
                },
            final(self).saves@ == old(self).saves@,
            final(self).next_save_id == old(self).next_save_id,
            final(self).next_monster_id == old(self).next_monster_id,
    {
        let n = self.entries.len();
        let mut i: usize = 0;
        while i < n
            invariant
                0 <= i <= n,
                n == self.entries@.len(),
                *self == *old(self),
                old(self).wf(),
                forall|j: int| 0 <= j < i ==> (#[trigger] self.entries@[j]).monster_id != id,
            decreases n - i,
        {
            if self.entries[i].monster_id == id {
                let ghost k = i as int;
                let ghost pre_m = self.monsters@;
                let ghost pre_e = self.entries@;
                let entry = self.entries[i];
                let mon = self.monsters[i].clone_data();
                let location = BoxLocation {
                    box_number: entry.box_number,
                    box_position: entry.box_position,
                    monster_id: Some(id),
                };
                self.monsters.remove(i);
                self.entries.remove(i);
                proof {
                    assert(self.monsters@ == pre_m.remove(k));
                    assert(self.entries@ == pre_e.remove(k));
                    assert forall|j: int|
                        0 <= j < self.entries@.len() implies ((#[trigger] self.entries@[j])
                            == if j < k {
                            pre_e[j]
                        } else {
                            pre_e[j + 1]
                        }) by {}
                    assert forall|j: int|
                        0 <= j < self.monsters@.len() implies ((#[trigger] self.monsters@[j])
                            == if j < k {
                            pre_m[j]
                        } else {
                            pre_m[j + 1]
                        }) by {}
                    assert(self.wf());
                }
                return Ok((mon, location));
            }
            i = i + 1;
        }
        Err(StoreError::NotFound)
    }
}

} // verus!
