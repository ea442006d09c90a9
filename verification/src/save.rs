//! The save-image engine: slot selection, section rotation, per-section
//! checksums, trainer info, and box-slot reads and writes that may straddle a
//! section boundary.

use vstd::prelude::*;

use crate::bytes::{
    copy_bytes, range_is_zero, read_u16_le, read_u32_le, sub_bytes, u16_at, u32_at, write_u16_le,
};
use crate::pokemon::{spec_blob_species, spec_crypt, Pokemon, PK3_SIZE_BOX, PK3_SIZE_PARTY};
use crate::{decode_text, spec_decode_text, SaveError, TrainerId};

verus! {

/// Length of a full save image.
pub const GAME_SAVE_DATA_LENGTH: usize = 131072;

const SAVE_INDEX_OFFSET: usize = 0x0FFC;

const SAVE_A_OFFSET: usize = 0x0000;

const SAVE_B_OFFSET: usize = 0xE000;

const SECTION_SIZE: usize = 0x1000;

/// Bytes of each 4 KiB section that carry data; the rest is the trailer.
pub const SECTION_DATA_SIZE: usize = 3968;

const SECTION_CHECKSUM_OFFSET: usize = 0x0FF6;

const SECTION_ID_OFFSET: usize = 0x0FF4;

const NUMBER_OF_SECTIONS: usize = 14;

/// Which game produced a save, as far as the save itself records it.
#[derive(Clone, Copy, Debug, PartialEq, Eq, Structural)]
pub enum GameCode {
    RubySapphire,
    FireRedLeafGreen,
    Emerald,
}

impl GameCode {
    /// Offset of the team-size word inside logical section 1.
    pub fn team_size_offset(&self) -> (r: usize)
        ensures
            r == spec_team_size_offset(*self),
    {
        match self {
            GameCode::RubySapphire | GameCode::Emerald => 0x0234,
            GameCode::FireRedLeafGreen => 0x0034,
        }
    }

    /// Offset of the owned bitmap inside logical section 0.
    pub fn pokedex_owned(&self) -> (r: usize)
        ensures
            r == 0x0028,
    {
        0x0028
    }

    /// Offset of the first seen bitmap inside logical section 0.
    pub fn pokedex_seen_a(&self) -> (r: usize)
        ensures
            r == 0x005c,
    {
        0x005c
    }

    /// Offset of the second seen bitmap inside logical section 1.
    pub fn pokedex_seen_b(&self) -> (r: usize)
        ensures
            r == spec_pokedex_seen_b(*self),
    {
        match self {
            GameCode::RubySapphire => 0x0938,
            GameCode::Emerald => 0x0988,
            GameCode::FireRedLeafGreen => 0x05f8,
        }
    }

    /// Offset of the third seen bitmap inside logical section 4.
    pub fn pokedex_seen_c(&self) -> (r: usize)
        ensures
            r == spec_pokedex_seen_c(*self),
    {
        match self {
            GameCode::RubySapphire => 0x0c0c,
            GameCode::Emerald => 0x0ca4,
            GameCode::FireRedLeafGreen => 0x0b98,
        }
    }
}

/// Offset of the team-size word inside logical section 1, by game.
pub open spec fn spec_team_size_offset(code: GameCode) -> int {
    match code {
        GameCode::RubySapphire => 0x0234,
        GameCode::Emerald => 0x0234,
        GameCode::FireRedLeafGreen => 0x0034,
    }
}

/// Offset of the second seen bitmap inside logical section 1, by game.
pub open spec fn spec_pokedex_seen_b(code: GameCode) -> int {
    match code {
        GameCode::RubySapphire => 0x0938,
        GameCode::Emerald => 0x0988,
        GameCode::FireRedLeafGreen => 0x05f8,
    }
}

/// Offset of the third seen bitmap inside logical section 4, by game.
pub open spec fn spec_pokedex_seen_c(code: GameCode) -> int {
    match code {
        GameCode::RubySapphire => 0x0c0c,
        GameCode::Emerald => 0x0ca4,
        GameCode::FireRedLeafGreen => 0x0b98,
    }
}

/// The player's recorded gender.
#[derive(Clone, Copy, Debug, PartialEq, Eq, Structural)]
pub enum PlayerGender {
    Male,
    Female,
}

/// Time played, as the save records it.
#[derive(Clone, Copy, Debug, PartialEq, Eq, Structural)]
pub struct TimePlayed {
    pub hours: u16,
    pub minutes: u8,
    pub seconds: u8,
    pub frames: u8,
}

/// The trainer block parsed out of logical section 0.
#[derive(Clone, Debug)]
pub struct TrainerInfo {
    pub player_name: String,
    pub player_gender: PlayerGender,
    pub id: TrainerId,
    pub time_played: TimePlayed,
}

/// The save-slot base offset the engine works on: the slot with the larger
/// save index is current, a save index of 0xFFFFFFFF marks a slot as empty,
/// and slot B wins when both are empty.
pub open spec fn spec_current_offset(s: Seq<u8>) -> int {
    let index_a = u32_at(s, 0x0FFC);
    let index_b = u32_at(s, 0xEFFC);
    if index_a == 0xFFFFFFFF {
        0xE000
    } else if index_b == 0xFFFFFFFF || index_a > index_b {
        0
    } else {
        0xE000
    }
}

/// The section id stored in the trailer of the section at physical position
/// `k` of the slot at `base`.
pub open spec fn spec_section_id(s: Seq<u8>, base: int, k: int) -> int {
    u16_at(s, base + k * 0x1000 + 0x0FF4)
}

/// The current slot's sections hold the cyclic rotation of logical ids that
/// the format prescribes: physical position `k` holds logical id
/// `(k + id0) mod 14`, so the ids 0..13 each appear exactly once.
pub open spec fn spec_ids_cyclic(s: Seq<u8>) -> bool {
    let cur = spec_current_offset(s);
    let id0 = spec_section_id(s, cur, 0);
    &&& 0 <= id0 < 14
    &&& forall|k: int| 0 <= k < 14 ==> spec_section_id(s, cur, k) == (k + id0) % 14
}

/// The rotation between logical and physical section ids.
pub open spec fn spec_rotation(s: Seq<u8>) -> int {
    (14 - spec_section_id(s, spec_current_offset(s), 0)) % 14
}

/// The gender byte of the current slot's trainer section: byte 8 of the
/// section whose logical id is 0, located through the rotation.
pub open spec fn spec_trainer_gender_byte(s: Seq<u8>) -> u8 {
    s[spec_current_offset(s) + spec_rotation(s) * 0x1000 + 8]
}

/// What opening a save image requires of its bytes: a full image, the
/// cyclic section layout, and a gender byte that denotes a gender. Nothing
/// else is checked at open; in particular stale checksums are tolerated so
/// that a damaged save can still be read and repaired.
pub open spec fn spec_open_ok(s: Seq<u8>) -> bool {
    &&& s.len() >= GAME_SAVE_DATA_LENGTH
    &&& spec_ids_cyclic(s)
    &&& spec_trainer_gender_byte(s) <= 1
}

/// The wrapping 32-bit sum of the first `n` little-endian words of a
/// section's data region.
pub open spec fn spec_sum_words32(region: Seq<u8>, n: int) -> int
    decreases n,
{
    if n <= 0 {
        0
    } else {
        (spec_sum_words32(region, n - 1) + u32_at(region, 4 * (n - 1))) % 0x1_0000_0000
    }
}

/// The checksum of a 3968-byte section data region: the wrapping 32-bit sum
/// of its 992 words, folded to 16 bits by adding the high half to the low.
pub open spec fn spec_region_checksum(region: Seq<u8>) -> int {
    let total = spec_sum_words32(region, 992);
    (total % 0x10000 + total / 0x10000) % 0x10000
}

/// The checksum of the section whose physical base offset is `off`.
pub open spec fn spec_section_checksum(s: Seq<u8>, off: int) -> int {
    spec_region_checksum(s.subrange(off, off + 3968))
}

/// The checksum stored in the trailer of the section at `off`.
pub open spec fn spec_stored_checksum(s: Seq<u8>, off: int) -> int {
    u16_at(s, off + 0x0FF6)
}

/// The section at physical position `k` of the slot at `cur` stores the
/// checksum of its own data.
pub open spec fn spec_section_ok(s: Seq<u8>, cur: int, k: int) -> bool {
    spec_stored_checksum(s, cur + k * 0x1000) == spec_section_checksum(s, cur + k * 0x1000)
}

/// The section at physical position `k` in `now` stores the checksum that
/// the data of the same section in `orig` dictates.
pub open spec fn spec_section_recomputed(now: Seq<u8>, orig: Seq<u8>, cur: int, k: int) -> bool {
    spec_stored_checksum(now, cur + k * 0x1000) == spec_section_checksum(orig, cur + k * 0x1000)
}

/// Every section of the slot at `cur` stores the checksum of its own data.
pub open spec fn spec_all_checksums_ok(s: Seq<u8>, cur: int) -> bool {
    forall|k: int| 0 <= k < 14 ==> #[trigger] spec_section_ok(s, cur, k)
}

/// Whether byte `i` is one of the two checksum bytes of some section of the
/// slot at `cur`.
pub open spec fn spec_is_checksum_byte(cur: int, i: int) -> bool {
    cur <= i < cur + 14 * 0x1000 && ((i - cur) % 0x1000 == 0x0FF6 || (i - cur) % 0x1000 == 0x0FF7)
}

/// A byte that sits at offset `i` of the section at physical position `k`
/// is a checksum byte exactly when `i` is one of the two checksum offsets.
proof fn lemma_checksum_byte_classify(cur: int, k: int, i: int)
    requires
        0 <= k < 14,
        0 <= i < 0x1000,
    ensures
        spec_is_checksum_byte(cur, cur + k * 0x1000 + i) <==> (i == 0x0FF6 || i == 0x0FF7),
{
    let p = cur + k * 0x1000 + i;
    vstd::arithmetic::div_mod::lemma_mod_multiples_vanish(k, i, 0x1000);
    assert((0x1000 * k + i) % 0x1000 == i % 0x1000);
    vstd::arithmetic::div_mod::lemma_small_mod(i as nat, 0x1000);
    assert((p - cur) % 0x1000 == i);
}

/// An opened save image: the full buffer plus the slot offset, rotation and
/// trainer block computed from it.
pub struct SaveFile {
    pub full_contents: Vec<u8>,
    pub latest_save_offset: usize,
    pub section_rotation: u8,
    pub game_code: GameCode,
    pub trainer_info: TrainerInfo,
}

/// The game that a save's game-code word denotes. For Emerald the word is a
/// security key, so anything other than 0 and 1 means Emerald.
pub open spec fn spec_game_code(data: u32) -> GameCode {
    if data == 0 {
        GameCode::RubySapphire
    } else if data == 1 {
        GameCode::FireRedLeafGreen
    } else {
        GameCode::Emerald
    }
}

/// Map the game-code word to the game it denotes.
pub fn determine_game_code(data: u32) -> (r: GameCode)
    ensures
        r == spec_game_code(data),
{
    if data == 0x00 {
        GameCode::RubySapphire
    } else if data == 0x01 {
        GameCode::FireRedLeafGreen
    } else {
        GameCode::Emerald
    }
}

/// Map the gender byte to the player's gender; any byte other than 0 and 1
/// is rejected.
pub fn determine_player_gender(data: u8) -> (r: Result<PlayerGender, SaveError>)
    ensures
        data == 0 ==> r == Result::<PlayerGender, SaveError>::Ok(PlayerGender::Male),
        data == 1 ==> r == Result::<PlayerGender, SaveError>::Ok(PlayerGender::Female),
        data > 1 ==> r == Result::<PlayerGender, SaveError>::Err(SaveError::MalformedTrainerInfo),
{
    if data == 0x00 {
        Ok(PlayerGender::Male)
    } else if data == 0x01 {
        Ok(PlayerGender::Female)
    } else {
        Err(SaveError::MalformedTrainerInfo)
    }
}

/// Choose the current save slot from the two save-index words.
pub fn determine_latest_game_save_offset(save_data: &[u8]) -> (r: usize)
    requires
        save_data.len() >= GAME_SAVE_DATA_LENGTH,
    ensures
        r == spec_current_offset(save_data@),
        r == 0 || r == 0xE000,
{
    let save_index_a = read_u32_le(save_data, SAVE_A_OFFSET + SAVE_INDEX_OFFSET);
    let save_index_b = read_u32_le(save_data, SAVE_B_OFFSET + SAVE_INDEX_OFFSET);
    if save_index_a == 0xffffffff {
        SAVE_B_OFFSET
    } else if save_index_b == 0xffffffff || save_index_a > save_index_b {
        SAVE_A_OFFSET
    } else {
        SAVE_B_OFFSET
    }
}

/// Read the rotation from the section id stored at physical position 0 of
/// the current slot.
pub fn determine_section_rotation(save_offset: usize, save_data: &[u8]) -> (r: u8)
    requires
        save_offset + 0x1000 <= save_data.len(),
        0 <= spec_section_id(save_data@, save_offset as int, 0) < 14,
    ensures
        r == spec_rotation_at(save_data@, save_offset as int),
        r < 14,
{
    let section_id = read_u16_le(save_data, save_offset + SECTION_ID_OFFSET) as u8;
    (NUMBER_OF_SECTIONS as u8 - section_id) % NUMBER_OF_SECTIONS as u8
}

/// The rotation that the id at physical position 0 of the slot at `base`
/// dictates.
pub open spec fn spec_rotation_at(s: Seq<u8>, base: int) -> int {
    (14 - spec_section_id(s, base, 0)) % 14
}

/// Sum a 3968-byte section data region into its 16-bit checksum.
pub fn compute_section_checksum(data: &[u8]) -> (r: u16)
    requires
        data.len() == SECTION_DATA_SIZE,
    ensures
        r == spec_region_checksum(data@),
{
    let mut checksum: u32 = 0;
    let mut k: usize = 0;
    while k < SECTION_DATA_SIZE / 4
        invariant
            0 <= k <= 992,
            data.len() == 3968,
            checksum == spec_sum_words32(data@, k as int),
        decreases 992 - k,
    {
        let next_dword = read_u32_le(data, 4 * k);
        checksum = checksum.wrapping_add(next_dword);
        k = k + 1;
    }
    let checksum_lower = (checksum & 0xffff) as u16;
    let checksum_upper = (checksum >> 16) as u16;
    proof {
        assert((checksum & 0xffff) == checksum % 0x10000 && (checksum >> 16) == checksum / 0x10000)
            by (bit_vector);
    }
    checksum_upper.wrapping_add(checksum_lower)
}

impl SaveFile {
    /// The engine's well-formedness: the buffer is a full save image and the
    /// cached slot offset and rotation are the ones the buffer dictates.
    pub open spec fn wf(self) -> bool {
        &&& self.full_contents@.len() >= GAME_SAVE_DATA_LENGTH
        &&& self.latest_save_offset == spec_current_offset(self.full_contents@)
        &&& spec_ids_cyclic(self.full_contents@)
        &&& self.section_rotation == spec_rotation(self.full_contents@)
    }

    /// The physical base offset of the section with the given logical id.
    pub open spec fn spec_section_offset(self, logical_id: int) -> int {
        self.latest_save_offset + ((logical_id + spec_rotation(self.full_contents@)) % 14) * 0x1000
    }

    /// Locate the section with logical id `section_id` in the buffer.
    pub fn get_offset_for_section(&self, section_id: u8) -> (r: usize)
        requires
            self.wf(),
            section_id < 14,
        ensures
            r == self.spec_section_offset(section_id as int),
            r == self.latest_save_offset + ((section_id + self.section_rotation) % 14) * 0x1000,
            r + 0x1000 <= self.full_contents@.len(),
    {
        let new_section_id = (section_id + self.section_rotation) % NUMBER_OF_SECTIONS as u8;
        self.latest_save_offset + SECTION_SIZE * new_section_id as usize
    }

    /// The game the save belongs to.
    pub fn get_game_code(&self) -> (r: GameCode)
        ensures
            r == self.game_code,
    {
        self.game_code
    }

    /// The trainer block parsed when the save was opened.
    pub fn get_trainer_info(&self) -> (r: TrainerInfo)
        ensures
            r.player_name@ == self.trainer_info.player_name@,
            r.player_gender == self.trainer_info.player_gender,
            r.id == self.trainer_info.id,
            r.time_played == self.trainer_info.time_played,
    {
        TrainerInfo {
            player_name: self.trainer_info.player_name.clone(),
            player_gender: self.trainer_info.player_gender,
            id: self.trainer_info.id,
            time_played: self.trainer_info.time_played,
        }
    }

    /// Recompute every section checksum of the current slot and compare it
    /// with the stored one; the first mismatch fails with `BadChecksum`.
    pub fn verify_sections(&self) -> (r: Result<(), SaveError>)
        requires
            self.wf(),
        ensures
            r is Ok <==> spec_all_checksums_ok(
                self.full_contents@,
                self.latest_save_offset as int,
            ),
            r is Err ==> r == Result::<(), SaveError>::Err(SaveError::BadChecksum),
    {
        let cur = self.latest_save_offset;
        let mut k: usize = 0;
        while k < NUMBER_OF_SECTIONS
            invariant
                0 <= k <= 14,
                self.wf(),
                cur == self.latest_save_offset,
                forall|j: int| 0 <= j < k ==> #[trigger] spec_section_ok(
                    self.full_contents@,
                    cur as int,
                    j,
                ),
            decreases 14 - k,
        {
            let section_offset = cur + k * SECTION_SIZE;
            let section_data = sub_bytes(self.full_contents.as_slice(), section_offset,
                SECTION_DATA_SIZE);
            let checksum = compute_section_checksum(section_data.as_slice());
            let actual_checksum = read_u16_le(
                self.full_contents.as_slice(),
                section_offset + SECTION_CHECKSUM_OFFSET,
            );
            proof {
                assert(section_data@ =~= self.full_contents@.subrange(
                    section_offset as int,
                    section_offset + 3968,
                ));
            }
            if checksum != actual_checksum {
                proof {
                    assert(!spec_section_ok(self.full_contents@, cur as int, k as int));
                }
                return Err(SaveError::BadChecksum);
            }
            proof {
                assert(spec_section_ok(self.full_contents@, cur as int, k as int));
            }
            k = k + 1;
        }
        Ok(())
    }

    /// Recompute every section checksum of the current slot and write it into
    /// the section trailer. Afterwards the image passes `verify_sections`;
    /// no byte outside the 14 checksum fields changes.
    pub fn recompute_checksums(&mut self)
        requires
            old(self).wf(),
        ensures
            final(self).wf(),
            final(self).full_contents@.len() == old(self).full_contents@.len(),
            final(self).latest_save_offset == old(self).latest_save_offset,
            final(self).section_rotation == old(self).section_rotation,
            final(self).game_code == old(self).game_code,
            final(self).trainer_info == old(self).trainer_info,
            forall|i: int|
                0 <= i < old(self).full_contents@.len() && !spec_is_checksum_byte(
                    old(self).latest_save_offset as int,
                    i,
                ) ==> final(self).full_contents@[i] == old(self).full_contents@[i],
            forall|k: int|
                0 <= k < 14 ==> #[trigger] spec_section_recomputed(
                    final(self).full_contents@,
                    old(self).full_contents@,
                    old(self).latest_save_offset as int,
                    k,
                ),
            spec_all_checksums_ok(final(self).full_contents@, final(self).latest_save_offset as int),
            forall|b: int, t: int|
                1 <= b <= 14 && 1 <= t <= 30 ==> final(self).spec_slot_bytes(b, t) == old(
                    self,
                ).spec_slot_bytes(b, t),
    {
        let ghost orig = old(self).full_contents@;
        let cur = self.latest_save_offset;
        let mut k: usize = 0;
        while k < NUMBER_OF_SECTIONS
            invariant
                0 <= k <= 14,
                cur == self.latest_save_offset == old(self).latest_save_offset,
                self.section_rotation == old(self).section_rotation,
                self.game_code == old(self).game_code,
                self.trainer_info == old(self).trainer_info,
                orig == old(self).full_contents@,
                old(self).wf(),
                self.full_contents@.len() == orig.len(),
                forall|i: int|
                    0 <= i < orig.len() && (!spec_is_checksum_byte(cur as int, i) || i >= cur + k
                        * 0x1000) ==> self.full_contents@[i] == orig[i],
                forall|j: int| 0 <= j < k ==> #[trigger] spec_section_recomputed(
                    self.full_contents@,
                    orig,
                    cur as int,
                    j,
                ),
            decreases 14 - k,
        {
            let section_offset = cur + k * SECTION_SIZE;
            let section_data = sub_bytes(self.full_contents.as_slice(), section_offset,
                SECTION_DATA_SIZE);
            proof {
                assert forall|i: int| 0 <= i < 3968 implies section_data@[i] == orig[section_offset
                    + i] by {
                    lemma_checksum_byte_classify(cur as int, k as int, i);
                }
                assert(section_data@ =~= orig.subrange(
                    section_offset as int,
                    section_offset + 3968,
                ));
            }
            let checksum = compute_section_checksum(section_data.as_slice());
            let ghost before_write = self.full_contents@;
            write_u16_le(&mut self.full_contents, section_offset + SECTION_CHECKSUM_OFFSET,
                checksum);
            proof {
                let c = cur as int;
                let kk = k as int;
                lemma_checksum_byte_classify(c, kk, 0x0FF6);
                lemma_checksum_byte_classify(c, kk, 0x0FF7);
                assert(spec_section_recomputed(self.full_contents@, orig, c, kk)) by {
                    assert(spec_region_checksum(section_data@) == spec_section_checksum(
                        orig,
                        c + kk * 0x1000,
                    ));
                    assert(u16_at(self.full_contents@, c + kk * 0x1000 + 0x0FF6) == checksum);
                }
                assert forall|j: int| 0 <= j < kk implies #[trigger] spec_section_recomputed(
                    self.full_contents@,
                    orig,
                    c,
                    j,
                ) by {
                    assert(spec_section_recomputed(before_write, orig, c, j));
                    assert(self.full_contents@[c + j * 0x1000 + 0x0FF6] == before_write[c + j
                        * 0x1000 + 0x0FF6]);
                    assert(self.full_contents@[c + j * 0x1000 + 0x0FF7] == before_write[c + j
                        * 0x1000 + 0x0FF7]);
                }
                assert forall|i: int|
                    0 <= i < orig.len() && (!spec_is_checksum_byte(c, i) || i >= c + (kk + 1)
                        * 0x1000) implies self.full_contents@[i] == orig[i] by {
                    assert(before_write[i] == orig[i]);
                    assert(self.full_contents@[i] == before_write[i]);
                }
            }
            k = k + 1;
        }
        proof {
            assert forall|k2: int| 0 <= k2 < 14 implies #[trigger] spec_section_ok(
                self.full_contents@,
                cur as int,
                k2,
            ) by {
                assert(spec_section_recomputed(self.full_contents@, orig, cur as int, k2));
                lemma_section_data_unchanged(orig, self.full_contents@, cur as int, k2);
            }
            lemma_trailer_fields_unchanged(orig, self.full_contents@, cur as int);
            assert(self.wf());
            lemma_slots_unchanged_by_ck_writes(*old(self), *self);
        }
    }
}

impl SaveFile {
    /// Parse the trainer block and the game code out of logical section 0.
    /// Fails only when the gender byte denotes no gender.
    pub fn parse_trainer_info(&self) -> (r: Result<(TrainerInfo, GameCode), SaveError>)
        requires
            self.wf(),
        ensures
            ({
                let base = self.spec_section_offset(0);
                let s = self.full_contents@;
                &&& (r is Ok <==> s[base + 8] <= 1)
                &&& (r is Err ==> r == Result::<(TrainerInfo, GameCode), SaveError>::Err(
                    SaveError::MalformedTrainerInfo,
                ))
                &&& (r matches Ok((ti, gc)) ==> {
                    &&& ti.player_name@ == spec_decode_text(s.subrange(base, base + 7))
                    &&& ti.player_gender == (if s[base + 8] == 0 {
                        PlayerGender::Male
                    } else {
                        PlayerGender::Female
                    })
                    &&& ti.id.public_id == u16_at(s, base + 10)
                    &&& ti.id.secret_id == u16_at(s, base + 12)
                    &&& ti.time_played.hours == u16_at(s, base + 14)
                    &&& ti.time_played.minutes == s[base + 16]
                    &&& ti.time_played.seconds == s[base + 17]
                    &&& ti.time_played.frames == s[base + 18]
                    &&& gc == spec_game_code(u32_at(s, base + 0xAC) as u32)
                })
            }),
    {
        let section_offset = self.get_offset_for_section(0);
        let contents = self.full_contents.as_slice();
        let name_bytes = sub_bytes(contents, section_offset, 7);
        let player_name = decode_text(name_bytes.as_slice());
        let player_gender = match determine_player_gender(contents[section_offset + 8]) {
            Ok(g) => g,
            Err(e) => {
                return Err(e);
            },
        };
        let public_id = read_u16_le(contents, section_offset + 10);
        let secret_id = read_u16_le(contents, section_offset + 12);
        let time_played = TimePlayed {
            hours: read_u16_le(contents, section_offset + 14),
            minutes: contents[section_offset + 16],
            seconds: contents[section_offset + 17],
            frames: contents[section_offset + 18],
        };
        let game_code = determine_game_code(read_u32_le(contents, section_offset + 0xAC));
        Ok(
            (
                TrainerInfo {
                    player_name,
                    player_gender,
                    id: TrainerId { public_id, secret_id },
                    time_played,
                },
                game_code,
            ),
        )
    }

    /// Open a save image held in memory. The image must be long enough, the
    /// current slot's section ids must form the cyclic rotation the format
    /// prescribes, and the trainer block must parse; each failure is surfaced
    /// as its own error.
    pub fn new(full_contents: Vec<u8>) -> (r: Result<SaveFile, SaveError>)
        ensures
            ({
                let s = full_contents@;
                &&& (r == Result::<SaveFile, SaveError>::Err(SaveError::BadLength) <==> s.len()
                    < GAME_SAVE_DATA_LENGTH)
                &&& (r == Result::<SaveFile, SaveError>::Err(SaveError::BadRotation) <==> s.len()
                    >= GAME_SAVE_DATA_LENGTH && !spec_ids_cyclic(s))
                &&& (r == Result::<SaveFile, SaveError>::Err(SaveError::MalformedTrainerInfo) <==>
                    s.len() >= GAME_SAVE_DATA_LENGTH && spec_ids_cyclic(s)
                    && spec_trainer_gender_byte(s) > 1)
                &&& (r is Ok <==> spec_open_ok(s))
                &&& (r matches Ok(sv) ==> {
                    &&& sv.wf()
                    &&& sv.full_contents@ == s
                    &&& sv.latest_save_offset == spec_current_offset(s)
                    &&& sv.trainer_info.player_name@ == spec_decode_text(
                        s.subrange(
                            sv.spec_section_offset(0),
                            sv.spec_section_offset(0) + 7,
                        ),
                    )
                    &&& sv.trainer_info.id.public_id == u16_at(s, sv.spec_section_offset(0) + 10)
                    &&& sv.trainer_info.id.secret_id == u16_at(s, sv.spec_section_offset(0) + 12)
                    &&& sv.trainer_info.player_gender == (if s[sv.spec_section_offset(0) + 8]
                        == 0 {
                        PlayerGender::Male
                    } else {
                        PlayerGender::Female
                    })
                    &&& sv.trainer_info.time_played.hours == u16_at(
                        s,
                        sv.spec_section_offset(0) + 14,
                    )
                    &&& sv.trainer_info.time_played.minutes == s[sv.spec_section_offset(0) + 16]
                    &&& sv.trainer_info.time_played.seconds == s[sv.spec_section_offset(0) + 17]
                    &&& sv.trainer_info.time_played.frames == s[sv.spec_section_offset(0) + 18]
                    &&& sv.game_code == spec_game_code(
                        u32_at(s, sv.spec_section_offset(0) + 0xAC) as u32,
                    )
                })
                &&& (r is Err ==> r == Result::<SaveFile, SaveError>::Err(SaveError::BadLength)
                    || r == Result::<SaveFile, SaveError>::Err(SaveError::BadRotation) || r
                    == Result::<SaveFile, SaveError>::Err(SaveError::MalformedTrainerInfo))
            }),
    {
        if full_contents.len() < GAME_SAVE_DATA_LENGTH {
            return Err(SaveError::BadLength);
        }
        let latest_save_offset = determine_latest_game_save_offset(full_contents.as_slice());
        let id0 = read_u16_le(full_contents.as_slice(), latest_save_offset + SECTION_ID_OFFSET);
        if id0 >= 14 {
            return Err(SaveError::BadRotation);
        }
        let mut k: usize = 0;
        while k < NUMBER_OF_SECTIONS
            invariant
                0 <= k <= 14,
                full_contents@.len() >= GAME_SAVE_DATA_LENGTH,
                latest_save_offset == spec_current_offset(full_contents@),
                latest_save_offset == 0 || latest_save_offset == 0xE000,
                id0 == spec_section_id(full_contents@, latest_save_offset as int, 0),
                0 <= id0 < 14,
                forall|j: int|
                    0 <= j < k ==> spec_section_id(full_contents@, latest_save_offset as int, j)
                        == (j + id0) % 14,
            decreases 14 - k,
        {
            let stored = read_u16_le(
                full_contents.as_slice(),
                latest_save_offset + k * SECTION_SIZE + SECTION_ID_OFFSET,
            );
            let expected = ((k as u16) + id0) % (NUMBER_OF_SECTIONS as u16);
            proof {
                assert(spec_section_id(full_contents@, latest_save_offset as int, k as int)
                    == stored);
                assert(expected == (k + id0) % 14);
            }
            if stored != expected {
                proof {
                    assert(!spec_ids_cyclic(full_contents@));
                }
                return Err(SaveError::BadRotation);
            }
            k = k + 1;
        }
        proof {
            assert(spec_ids_cyclic(full_contents@));
        }
        let section_rotation = determine_section_rotation(
            latest_save_offset,
            full_contents.as_slice(),
        );
        let mut save = SaveFile {
            full_contents,
            latest_save_offset,
            section_rotation,
            game_code: GameCode::Emerald,
            trainer_info: TrainerInfo {
                player_name: String::new(),
                player_gender: PlayerGender::Male,
                id: TrainerId { public_id: 0, secret_id: 0 },
                time_played: TimePlayed { hours: 0, minutes: 0, seconds: 0, frames: 0 },
            },
        };
        match save.parse_trainer_info() {
            Ok((trainer_info, game_code)) => {
                save.trainer_info = trainer_info;
                save.game_code = game_code;
                Ok(save)
            },
            Err(e) => Err(e),
        }
    }

    /// Recompute every checksum of the current slot and hand back the full
    /// image for the caller to persist: the bytes equal the opened image
    /// everywhere except the 14 checksum fields, which now match the data,
    /// so the result passes `verify_sections`.
    pub fn write_in_place(&mut self) -> (r: Vec<u8>)
        requires
            old(self).wf(),
        ensures
            final(self).wf(),
            r@ == final(self).full_contents@,
            r@.len() == old(self).full_contents@.len(),
            final(self).latest_save_offset == old(self).latest_save_offset,
            final(self).section_rotation == old(self).section_rotation,
            final(self).game_code == old(self).game_code,
            final(self).trainer_info == old(self).trainer_info,
            forall|i: int|
                0 <= i < old(self).full_contents@.len() && !spec_is_checksum_byte(
                    old(self).latest_save_offset as int,
                    i,
                ) ==> r@[i] == old(self).full_contents@[i],
            forall|k: int|
                0 <= k < 14 ==> #[trigger] spec_section_recomputed(
                    r@,
                    old(self).full_contents@,
                    old(self).latest_save_offset as int,
                    k,
                ),
            spec_all_checksums_ok(r@, old(self).latest_save_offset as int),
            forall|b: int, t: int|
                1 <= b <= 14 && 1 <= t <= 30 ==> final(self).spec_slot_bytes(b, t) == old(
                    self,
                ).spec_slot_bytes(b, t),
    {
        self.recompute_checksums();
        let n = self.full_contents.len();
        let out = sub_bytes(self.full_contents.as_slice(), 0, n);
        proof {
            assert(out@ =~= self.full_contents@);
        }
        out
    }
}

/// The index of a box slot in the flat 420-entry box array.
pub open spec fn spec_box_entry_index(box_number: int, box_entry: int) -> int {
    (box_number - 1) * 30 + (box_entry - 1)
}

/// The offset of a slot's first byte in box-region coordinates: the flat
/// array starts 4 bytes into logical section 5.
pub open spec fn spec_box_abs_offset(box_number: int, box_entry: int) -> int {
    spec_box_entry_index(box_number, box_entry) * 80 + 4
}

/// The logical section that holds box-region byte `a`.
pub open spec fn spec_box_section_id(a: int) -> int {
    5 + a / 3968
}

/// The offset of box-region byte `a` inside its section's data area.
pub open spec fn spec_box_intra_offset(a: int) -> int {
    a % 3968
}

/// Whether byte `i` of the buffer lies in the data area of some section of
/// the slot at `cur`.
pub open spec fn spec_is_data_byte(cur: int, i: int) -> bool {
    cur <= i < cur + 14 * 0x1000 && (i - cur) % 0x1000 < 3968
}

/// A byte at offset `i` of the section at physical position `k` is a data
/// byte exactly when `i` lies before the trailer.
proof fn lemma_data_byte_classify(cur: int, k: int, i: int)
    requires
        0 <= k < 14,
        0 <= i < 0x1000,
    ensures
        spec_is_data_byte(cur, cur + k * 0x1000 + i) <==> i < 3968,
{
    vstd::arithmetic::div_mod::lemma_mod_multiples_vanish(k, i, 0x1000);
    vstd::arithmetic::div_mod::lemma_small_mod(i as nat, 0x1000);
}

/// `x % 14` written out for the one wrap-around the rotation can take.
proof fn lemma_mod14(x: int)
    requires
        0 <= x < 28,
    ensures
        x % 14 == if x < 14 {
            x
        } else {
            x - 14
        },
        0 <= x % 14 < 14,
{
    if x < 14 {
        vstd::arithmetic::div_mod::lemma_small_mod(x as nat, 14);
    } else {
        vstd::arithmetic::div_mod::lemma_mod_multiples_vanish(1, x - 14, 14);
        vstd::arithmetic::div_mod::lemma_small_mod((x - 14) as nat, 14);
    }
}

/// When two buffers agree on every byte outside the data areas of the slot
/// at `cur`, both save indices, every section id and every stored checksum
/// are unchanged.
proof fn lemma_trailer_unchanged_by_data_writes(orig: Seq<u8>, now: Seq<u8>, cur: int)
    requires
        orig.len() == now.len(),
        orig.len() >= GAME_SAVE_DATA_LENGTH,
        cur == 0 || cur == 0xE000,
        forall|i: int| 0 <= i < orig.len() && !spec_is_data_byte(cur, i) ==> now[i] == orig[i],
    ensures
        u32_at(now, 0x0FFC) == u32_at(orig, 0x0FFC),
        u32_at(now, 0xEFFC) == u32_at(orig, 0xEFFC),
        spec_current_offset(now) == spec_current_offset(orig),
        forall|base: int, k: int|
            (base == 0 || base == 0xE000) && 0 <= k < 14 ==> spec_section_id(now, base, k)
                == spec_section_id(orig, base, k),
        forall|k: int|
            0 <= k < 14 ==> #[trigger] spec_stored_checksum(now, cur + k * 0x1000)
                == spec_stored_checksum(orig, cur + k * 0x1000),
{
    if cur == 0 {
        assert((0x0FFC - 0) % 0x1000 == 0x0FFC && (0x0FFD - 0) % 0x1000 == 0x0FFD && (0x0FFE - 0)
            % 0x1000 == 0x0FFE && (0x0FFF - 0) % 0x1000 == 0x0FFF);
        assert(!spec_is_data_byte(cur, 0x0FFC) && !spec_is_data_byte(cur, 0x0FFD)
            && !spec_is_data_byte(cur, 0x0FFE) && !spec_is_data_byte(cur, 0x0FFF));
        assert(!spec_is_data_byte(cur, 0xEFFC) && !spec_is_data_byte(cur, 0xEFFD)
            && !spec_is_data_byte(cur, 0xEFFE) && !spec_is_data_byte(cur, 0xEFFF));
    } else {
        assert((0xEFFC - 0xE000) % 0x1000 == 0x0FFC && (0xEFFD - 0xE000) % 0x1000 == 0x0FFD && (
        0xEFFE - 0xE000) % 0x1000 == 0x0FFE && (0xEFFF - 0xE000) % 0x1000 == 0x0FFF);
        assert(!spec_is_data_byte(cur, 0xEFFC) && !spec_is_data_byte(cur, 0xEFFD)
            && !spec_is_data_byte(cur, 0xEFFE) && !spec_is_data_byte(cur, 0xEFFF));
        assert(!spec_is_data_byte(cur, 0x0FFC) && !spec_is_data_byte(cur, 0x0FFD)
            && !spec_is_data_byte(cur, 0x0FFE) && !spec_is_data_byte(cur, 0x0FFF));
    }
    assert(u32_at(now, 0x0FFC) == u32_at(orig, 0x0FFC));
    assert(u32_at(now, 0xEFFC) == u32_at(orig, 0xEFFC));
    assert forall|base: int, k: int|
        (base == 0 || base == 0xE000) && 0 <= k < 14 implies spec_section_id(now, base, k)
        == spec_section_id(orig, base, k) by {
        if base == cur {
            lemma_data_byte_classify(cur, k, 0x0FF4);
            lemma_data_byte_classify(cur, k, 0x0FF5);
        } else {
            assert(!spec_is_data_byte(cur, base + k * 0x1000 + 0x0FF4));
            assert(!spec_is_data_byte(cur, base + k * 0x1000 + 0x0FF5));
        }
    }
    assert forall|k: int| 0 <= k < 14 implies #[trigger] spec_stored_checksum(
        now,
        cur + k * 0x1000,
    ) == spec_stored_checksum(orig, cur + k * 0x1000) by {
        lemma_data_byte_classify(cur, k, 0x0FF6);
        lemma_data_byte_classify(cur, k, 0x0FF7);
    }
}

impl SaveFile {
    /// The buffer position of box-region byte `a`, through the rotation.
    pub open spec fn spec_box_addr(self, a: int) -> int {
        self.spec_section_offset(spec_box_section_id(a)) + spec_box_intra_offset(a)
    }

    /// The 80 bytes of box slot (`box_number`, `box_entry`), read through
    /// the rotation and across a straddled section boundary if there is one.
    pub open spec fn spec_slot_bytes(self, box_number: int, box_entry: int) -> Seq<u8> {
        Seq::new(
            80,
            |j: int|
                self.full_contents@[self.spec_box_addr(
                    spec_box_abs_offset(box_number, box_entry) + j,
                )],
        )
    }

    /// A slot is empty exactly when all of its 80 bytes are zero.
    pub open spec fn spec_slot_empty(self, box_number: int, box_entry: int) -> bool {
        forall|j: int| 0 <= j < 80 ==> self.spec_slot_bytes(box_number, box_entry)[j] == 0
    }

    /// The physical position of the section with logical id `l` lies in
    /// 0..14, and distinct logical ids sit at distinct physical positions.
    proof fn lemma_section_offset_range(self, l: int)
        requires
            self.wf(),
            0 <= l < 14,
        ensures
            self.latest_save_offset <= self.spec_section_offset(l),
            self.spec_section_offset(l) + 0x1000 <= self.latest_save_offset + 14 * 0x1000,
            self.latest_save_offset + 14 * 0x1000 <= self.full_contents@.len(),
            (self.spec_section_offset(l) - self.latest_save_offset) % 0x1000 == 0,
            (self.spec_section_offset(l) - self.latest_save_offset) / 0x1000 == (l
                + spec_rotation(self.full_contents@)) % 14,
    {
        let rot = spec_rotation(self.full_contents@);
        lemma_mod14(14 - spec_section_id(self.full_contents@, self.latest_save_offset as int, 0));
        lemma_mod14(l + rot);
        let pk = (l + rot) % 14;
        vstd::arithmetic::div_mod::lemma_fundamental_div_mod_converse(
            pk * 0x1000,
            0x1000,
            pk,
            0,
        );
    }

    /// Distinct logical sections occupy disjoint 4 KiB blocks.
    proof fn lemma_sections_disjoint(self, l1: int, l2: int)
        requires
            self.wf(),
            0 <= l1 < 14,
            0 <= l2 < 14,
            l1 != l2,
        ensures
            self.spec_section_offset(l1) + 0x1000 <= self.spec_section_offset(l2)
                || self.spec_section_offset(l2) + 0x1000 <= self.spec_section_offset(l1),
    {
        let rot = spec_rotation(self.full_contents@);
        lemma_mod14(14 - spec_section_id(self.full_contents@, self.latest_save_offset as int, 0));
        lemma_mod14(l1 + rot);
        lemma_mod14(l2 + rot);
    }

    /// How box-region byte `a0 + j` falls into the buffer: within the slot's
    /// first section while `intra + j` stays in the data area, and at the
    /// start of the next logical section beyond it. A slot that straddles
    /// never starts in the last box section.
    proof fn lemma_slot_piece_layout(self, box_number: int, box_entry: int, j: int)
        requires
            self.wf(),
            1 <= box_number <= 14,
            1 <= box_entry <= 30,
            0 <= j < 80,
        ensures
            ({
                let a0 = spec_box_abs_offset(box_number, box_entry);
                let l = spec_box_section_id(a0);
                let intra = spec_box_intra_offset(a0);
                &&& 5 <= l <= 13
                &&& 0 <= intra < 3968
                &&& a0 == (l - 5) * 3968 + intra
                &&& intra + 80 > 3968 ==> l + 1 <= 13
                &&& spec_box_section_id(a0 + j) == (if intra + j < 3968 {
                    l
                } else {
                    l + 1
                })
                &&& spec_box_intra_offset(a0 + j) == (if intra + j < 3968 {
                    intra + j
                } else {
                    intra + j - 3968
                })
                &&& self.spec_box_addr(a0 + j) == (if intra + j < 3968 {
                    self.spec_section_offset(l) + intra + j
                } else {
                    self.spec_section_offset(l + 1) + intra + j - 3968
                })
            }),
    {
        let a0 = spec_box_abs_offset(box_number, box_entry);
        let e = spec_box_entry_index(box_number, box_entry);
        assert(0 <= e <= 419);
        assert(4 <= a0 <= 33524);
        vstd::arithmetic::div_mod::lemma_fundamental_div_mod(a0, 3968);
        vstd::arithmetic::div_mod::lemma_mod_bound(a0, 3968);
        let q = a0 / 3968;
        let intra = a0 % 3968;
        assert(0 <= q <= 8);
        let l = 5 + q;
        if intra + j < 3968 {
            vstd::arithmetic::div_mod::lemma_fundamental_div_mod_converse(
                a0 + j,
                3968,
                q,
                intra + j,
            );
        } else {
            vstd::arithmetic::div_mod::lemma_fundamental_div_mod_converse(
                a0 + j,
                3968,
                q + 1,
                intra + j - 3968,
            );
            assert(q + 1 <= 8);
        }
        if intra + 80 > 3968 {
            assert(q <= 7);
        }
    }

    /// Every box-region byte lies in a data area of the current slot, so it
    /// is neither a trailer field nor any byte of the other slot.
    proof fn lemma_box_addr_is_data(self, a: int)
        requires
            self.wf(),
            4 <= a < 33604,
        ensures
            spec_is_data_byte(self.latest_save_offset as int, self.spec_box_addr(a)),
            0 <= self.spec_box_addr(a) < self.full_contents@.len(),
    {
        vstd::arithmetic::div_mod::lemma_fundamental_div_mod(a, 3968);
        vstd::arithmetic::div_mod::lemma_mod_bound(a, 3968);
        let l = spec_box_section_id(a);
        assert(5 <= l <= 13);
        self.lemma_section_offset_range(l);
        let cur = self.latest_save_offset as int;
        let pk = (l + spec_rotation(self.full_contents@)) % 14;
        let r = spec_box_intra_offset(a);
        assert(self.spec_box_addr(a) == cur + pk * 0x1000 + r);
        lemma_data_byte_classify(cur, pk, r);
    }
}

/// Locate a box slot: the logical section its first byte falls in and the
/// offset of that byte within the section's data area. Out-of-range
/// coordinates yield `None`; the format has exactly 14 boxes of 30 slots.
pub fn compute_section_id_and_offset_for_box_slot(box_number: u8, box_entry: u8) -> (r: Option<
    (u8, usize),
>)
    ensures
        r is Some <==> 1 <= box_number <= 14 && 1 <= box_entry <= 30,
        r matches Some((sec, off)) ==> {
            let a0 = spec_box_abs_offset(box_number as int, box_entry as int);
            &&& sec == spec_box_section_id(a0)
            &&& off == spec_box_intra_offset(a0)
        },
{
    let box_number_us = box_number as usize;
    let box_entry_us = box_entry as usize;
    if box_number_us < 1 || box_number_us > 14 || box_entry_us < 1 || box_entry_us > 30 {
        return None;
    }
    let absolute_entry = (box_number_us - 1) * 30 + (box_entry_us - 1);
    let absolute_offset = absolute_entry * PK3_SIZE_BOX + 4;
    let section_id = 5 + absolute_offset / SECTION_DATA_SIZE;
    let section_offset = absolute_offset % SECTION_DATA_SIZE;
    proof {
        assert(absolute_offset == spec_box_abs_offset(box_number as int, box_entry as int));
        assert(absolute_offset <= 33524);
    }
    Some((section_id as u8, section_offset))
}

/// Every box slot lies inside the box sections: its first byte falls in
/// logical section 5 to 13, and either the whole slot fits in that
/// section's data area, or the slot straddles into the next logical
/// section, which is still a box section, and the second piece holds the
/// remaining `80 - (3968 - intra)` bytes.
pub proof fn lemma_slot_straddle_coverage(box_number: int, box_entry: int)
    requires
        1 <= box_number <= 14,
        1 <= box_entry <= 30,
    ensures
        ({
            let a0 = spec_box_abs_offset(box_number, box_entry);
            let sec = spec_box_section_id(a0);
            let intra = spec_box_intra_offset(a0);
            &&& 5 <= sec <= 13
            &&& (intra + 80 <= 3968 || (sec + 1 <= 13 && 0 < 80 - (3968 - intra) < 80))
        }),
{
    let a0 = spec_box_abs_offset(box_number, box_entry);
    assert(4 <= a0 <= 33524);
    vstd::arithmetic::div_mod::lemma_fundamental_div_mod(a0, 3968);
    vstd::arithmetic::div_mod::lemma_mod_bound(a0, 3968);
    assert(0 <= a0 / 3968 <= 8);
    if spec_box_intra_offset(a0) + 80 > 3968 {
        assert(a0 / 3968 <= 7);
    }
}

impl SaveFile {
    /// Copy the 80 bytes of a box slot out of the buffer, joining the two
    /// pieces of a straddled slot.
    fn read_slot_raw(&self, box_number: u8, box_entry: u8) -> (r: Vec<u8>)
        requires
            self.wf(),
            1 <= box_number <= 14,
            1 <= box_entry <= 30,
        ensures
            r@ == self.spec_slot_bytes(box_number as int, box_entry as int),
    {
        proof {
            self.lemma_slot_piece_layout(box_number as int, box_entry as int, 0);
        }
        let (section_id, relative_offset) = compute_section_id_and_offset_for_box_slot(
            box_number,
            box_entry,
        ).unwrap();
        let section_offset = self.get_offset_for_section(section_id);
        let contents = self.full_contents.as_slice();
        if relative_offset + PK3_SIZE_BOX > SECTION_DATA_SIZE {
            let bytes_from_first_section = SECTION_DATA_SIZE - relative_offset;
            let mut pk3_data = sub_bytes(contents, section_offset + relative_offset,
                bytes_from_first_section);
            let next_section_offset = self.get_offset_for_section(section_id + 1);
            let bytes_from_next_section = PK3_SIZE_BOX - bytes_from_first_section;
            let mut tail = sub_bytes(contents, next_section_offset, bytes_from_next_section);
            pk3_data.append(&mut tail);
            proof {
                assert forall|j: int| 0 <= j < 80 implies pk3_data@[j] == self.spec_slot_bytes(
                    box_number as int,
                    box_entry as int,
                )[j] by {
                    self.lemma_slot_piece_layout(box_number as int, box_entry as int, j);
                }
                assert(pk3_data@ =~= self.spec_slot_bytes(box_number as int, box_entry as int));
            }
            pk3_data
        } else {
            let pk3_data = sub_bytes(contents, section_offset + relative_offset, PK3_SIZE_BOX);
            proof {
                assert forall|j: int| 0 <= j < 80 implies pk3_data@[j] == self.spec_slot_bytes(
                    box_number as int,
                    box_entry as int,
                )[j] by {
                    self.lemma_slot_piece_layout(box_number as int, box_entry as int, j);
                }
                assert(pk3_data@ =~= self.spec_slot_bytes(box_number as int, box_entry as int));
            }
            pk3_data
        }
    }

    /// The first piece of a slot sits inside its section's data area; when
    /// the slot straddles, the second piece sits at the head of the next
    /// logical section's data area. A box-region byte outside the slot maps
    /// into neither piece.
    proof fn lemma_addr_vs_slot_ranges(self, aq: int, bn: int, bt: int)
        requires
            self.wf(),
            1 <= bn <= 14,
            1 <= bt <= 30,
            4 <= aq < 33604,
            !(spec_box_abs_offset(bn, bt) <= aq < spec_box_abs_offset(bn, bt) + 80),
        ensures
            ({
                let a0 = spec_box_abs_offset(bn, bt);
                let l = spec_box_section_id(a0);
                let intra = spec_box_intra_offset(a0);
                let len1 = if intra + 80 <= 3968 {
                    80
                } else {
                    3968 - intra
                };
                let addr = self.spec_box_addr(aq);
                &&& !(self.spec_section_offset(l) + intra <= addr < self.spec_section_offset(l)
                    + intra + len1)
                &&& (intra + 80 > 3968 ==> !(self.spec_section_offset(l + 1) <= addr
                    < self.spec_section_offset(l + 1) + (80 - len1)))
            }),
    {
        let a0 = spec_box_abs_offset(bn, bt);
        let l = spec_box_section_id(a0);
        let intra = spec_box_intra_offset(a0);
        let len1: int = if intra + 80 <= 3968 {
            80
        } else {
            3968 - intra
        };
        self.lemma_slot_piece_layout(bn, bt, 0);
        vstd::arithmetic::div_mod::lemma_fundamental_div_mod(aq, 3968);
        vstd::arithmetic::div_mod::lemma_mod_bound(aq, 3968);
        let lq = spec_box_section_id(aq);
        let rq = spec_box_intra_offset(aq);
        assert(5 <= lq <= 13);
        assert(aq == (lq - 5) * 3968 + rq);
        self.lemma_section_offset_range(l);
        self.lemma_section_offset_range(lq);
        if lq != l {
            self.lemma_sections_disjoint(lq, l);
        }
        if intra + 80 > 3968 {
            self.lemma_section_offset_range(l + 1);
            if lq != l + 1 {
                self.lemma_sections_disjoint(lq, l + 1);
            }
        }
    }


    /// The buffer position of the owned-bitmap byte for `species`.
    pub open spec fn spec_dex_addr_owned(self, species: int) -> int {
        self.spec_section_offset(0) + 0x28 + (species - 1) / 8
    }

    /// The buffer position of the first seen-bitmap byte for `species`.
    pub open spec fn spec_dex_addr_seen_a(self, species: int) -> int {
        self.spec_section_offset(0) + 0x5c + (species - 1) / 8
    }

    /// The buffer position of the second seen-bitmap byte for `species`.
    pub open spec fn spec_dex_addr_seen_b(self, species: int) -> int {
        self.spec_section_offset(1) + spec_pokedex_seen_b(self.game_code) + (species - 1) / 8
    }

    /// The buffer position of the third seen-bitmap byte for `species`.
    pub open spec fn spec_dex_addr_seen_c(self, species: int) -> int {
        self.spec_section_offset(4) + spec_pokedex_seen_c(self.game_code) + (species - 1) / 8
    }

    /// Whether buffer byte `i` is one of the four dex-bitmap bytes that
    /// marking `species` touches.
    pub open spec fn spec_is_dex_addr(self, species: int, i: int) -> bool {
        i == self.spec_dex_addr_owned(species) || i == self.spec_dex_addr_seen_a(species) || i
            == self.spec_dex_addr_seen_b(species) || i == self.spec_dex_addr_seen_c(species)
    }

    /// The four dex bytes of `new` carry the old value with the species bit
    /// set.
    pub open spec fn spec_dex_bits_set(self, new: SaveFile, species: int) -> bool {
        let mask = 1u8 << (((species - 1) % 8) as u8);
        &&& new.full_contents@[self.spec_dex_addr_owned(species)] == self.full_contents@[
            self.spec_dex_addr_owned(species)] | mask
        &&& new.full_contents@[self.spec_dex_addr_seen_a(species)] == self.full_contents@[
            self.spec_dex_addr_seen_a(species)] | mask
        &&& new.full_contents@[self.spec_dex_addr_seen_b(species)] == self.full_contents@[
            self.spec_dex_addr_seen_b(species)] | mask
        &&& new.full_contents@[self.spec_dex_addr_seen_c(species)] == self.full_contents@[
            self.spec_dex_addr_seen_c(species)] | mask
    }

    /// The four dex bytes of `new` carry the old value with the species bit
    /// set, and every other byte is unchanged.
    pub open spec fn spec_dex_marked(self, new: SaveFile, species: int) -> bool {
        &&& self.spec_dex_bits_set(new, species)
        &&& forall|i: int|
            0 <= i < self.full_contents@.len() && !self.spec_is_dex_addr(species, i)
                ==> new.full_contents@[i] == self.full_contents@[i]
    }

    /// Set the owned bit and all three seen bits for `species`: bit
    /// `(species - 1) mod 8` of byte `(species - 1) div 8` of each of the
    /// four bitmaps. Nothing else changes; in particular every box slot and
    /// every stored checksum keeps its bytes.
    #[verifier::rlimit(60)]
    fn mark_pokemon_owned_in_dex(&mut self, species: u16)
        requires
            old(self).wf(),
            1 <= species <= 386,
        ensures
            final(self).wf(),
            final(self).full_contents@.len() == old(self).full_contents@.len(),
            final(self).latest_save_offset == old(self).latest_save_offset,
            final(self).section_rotation == old(self).section_rotation,
            final(self).game_code == old(self).game_code,
            final(self).trainer_info == old(self).trainer_info,
            old(self).spec_dex_marked(*final(self), species as int),
            forall|b: int, t: int|
                1 <= b <= 14 && 1 <= t <= 30 ==> final(self).spec_slot_bytes(b, t) == old(
                    self,
                ).spec_slot_bytes(b, t),
            forall|k: int|
                0 <= k < 14 ==> #[trigger] spec_stored_checksum(
                    final(self).full_contents@,
                    old(self).latest_save_offset + k * 0x1000,
                ) == spec_stored_checksum(
                    old(self).full_contents@,
                    old(self).latest_save_offset + k * 0x1000,
                ),
    {
        let ghost orig = old(self).full_contents@;
        let ghost oself = *old(self);
        let ghost cur = old(self).latest_save_offset as int;
        let bit_position = ((species - 1) & 0b111) as u8;
        let byte_number = ((species - 1) >> 3) as usize;
        proof {
            let sm1 = (species - 1) as u16;
            assert(sm1 & 7 == sm1 % 8 && sm1 >> 3 == sm1 / 8 && sm1 % 8 < 8) by (bit_vector);
        }
        let mask = 1u8 << bit_position;
        proof {
            oself.lemma_section_offset_range(0);
            oself.lemma_section_offset_range(1);
            oself.lemma_section_offset_range(4);
        }
        let section_offset = self.get_offset_for_section(0);
        let pokedex_owned_offset = section_offset + self.game_code.pokedex_owned() + byte_number;
        let pokedex_seen_a_offset = section_offset + self.game_code.pokedex_seen_a() + byte_number;
        let section_offset = self.get_offset_for_section(1);
        let pokedex_seen_b_offset = section_offset + self.game_code.pokedex_seen_b() + byte_number;
        let section_offset = self.get_offset_for_section(4);
        let pokedex_seen_c_offset = section_offset + self.game_code.pokedex_seen_c() + byte_number;

        proof {
            oself.lemma_sections_disjoint(0, 1);
            oself.lemma_sections_disjoint(0, 4);
            oself.lemma_sections_disjoint(1, 4);
        }
        let b0 = self.full_contents[pokedex_owned_offset];
        self.full_contents[pokedex_owned_offset] = b0 | mask;
        let b1 = self.full_contents[pokedex_seen_a_offset];
        self.full_contents[pokedex_seen_a_offset] = b1 | mask;
        let b2 = self.full_contents[pokedex_seen_b_offset];
        self.full_contents[pokedex_seen_b_offset] = b2 | mask;
        let b3 = self.full_contents[pokedex_seen_c_offset];
        self.full_contents[pokedex_seen_c_offset] = b3 | mask;
        proof {
            let now = self.full_contents@;
            let sp = species as int;
            assert forall|i: int|
                0 <= i < orig.len() && !spec_is_data_byte(cur, i) implies now[i] == orig[i] by {
                lemma_data_byte_classify(
                    cur,
                    (0 + spec_rotation(orig)) % 14,
                    0x28 + (sp - 1) / 8,
                );
                lemma_data_byte_classify(
                    cur,
                    (0 + spec_rotation(orig)) % 14,
                    0x5c + (sp - 1) / 8,
                );
                lemma_data_byte_classify(
                    cur,
                    (1 + spec_rotation(orig)) % 14,
                    spec_pokedex_seen_b(oself.game_code) + (sp - 1) / 8,
                );
                lemma_data_byte_classify(
                    cur,
                    (4 + spec_rotation(orig)) % 14,
                    spec_pokedex_seen_c(oself.game_code) + (sp - 1) / 8,
                );
            }
            lemma_trailer_unchanged_by_data_writes(orig, now, cur);
            assert(spec_ids_cyclic(now)) by {
                assert forall|k: int| 0 <= k < 14 implies (#[trigger] spec_section_id(
                    now,
                    cur,
                    k,
                )) == (k + spec_section_id(now, cur, 0)) % 14 by {
                    assert(spec_section_id(now, cur, k) == spec_section_id(orig, cur, k));
                }
            }
            assert(self.wf());
            assert(oself.spec_dex_marked(*self, sp));
            assert forall|b: int, t: int|
                1 <= b <= 14 && 1 <= t <= 30 implies self.spec_slot_bytes(b, t)
                == oself.spec_slot_bytes(b, t) by {
                assert forall|j: int| 0 <= j < 80 implies self.spec_slot_bytes(b, t)[j]
                    == oself.spec_slot_bytes(b, t)[j] by {
                    oself.lemma_slot_piece_layout(b, t, j);
                    let aq = spec_box_abs_offset(b, t) + j;
                    let lq = spec_box_section_id(aq);
                    oself.lemma_section_offset_range(lq);
                    oself.lemma_sections_disjoint(lq, 0);
                    oself.lemma_sections_disjoint(lq, 1);
                    oself.lemma_sections_disjoint(lq, 4);
                }
                assert(self.spec_slot_bytes(b, t) =~= oself.spec_slot_bytes(b, t));
            }
        }
    }

    /// Write 80 bytes into a box slot, splitting them across the straddled
    /// section boundary when there is one. Every other slot, the trailers of
    /// both save slots and every byte outside the slot's data areas keep
    /// their values.
    fn write_slot_raw(&mut self, box_number: u8, box_entry: u8, pk3_data: &[u8])
        requires
            old(self).wf(),
            1 <= box_number <= 14,
            1 <= box_entry <= 30,
            pk3_data.len() == PK3_SIZE_BOX,
        ensures
            final(self).wf(),
            final(self).full_contents@.len() == old(self).full_contents@.len(),
            final(self).latest_save_offset == old(self).latest_save_offset,
            final(self).section_rotation == old(self).section_rotation,
            final(self).game_code == old(self).game_code,
            final(self).trainer_info == old(self).trainer_info,
            final(self).spec_slot_bytes(box_number as int, box_entry as int) == pk3_data@,
            forall|b: int, t: int|
                1 <= b <= 14 && 1 <= t <= 30 && !(b == box_number && t == box_entry)
                    ==> final(self).spec_slot_bytes(b, t) == old(self).spec_slot_bytes(b, t),
            forall|i: int|
                0 <= i < old(self).full_contents@.len() && !spec_is_data_byte(
                    old(self).latest_save_offset as int,
                    i,
                ) ==> final(self).full_contents@[i] == old(self).full_contents@[i],
            forall|k: int|
                0 <= k < 14 ==> #[trigger] spec_stored_checksum(
                    final(self).full_contents@,
                    old(self).latest_save_offset + k * 0x1000,
                ) == spec_stored_checksum(
                    old(self).full_contents@,
                    old(self).latest_save_offset + k * 0x1000,
                ),
            ({
                let a0 = spec_box_abs_offset(box_number as int, box_entry as int);
                let l = spec_box_section_id(a0);
                let intra = spec_box_intra_offset(a0);
                let len1: int = if intra + 80 <= 3968 {
                    80
                } else {
                    3968 - intra
                };
                let p1 = old(self).spec_section_offset(l) + intra;
                let p2 = old(self).spec_section_offset(l + 1);
                forall|i: int|
                    0 <= i < old(self).full_contents@.len() && !(p1 <= i < p1 + len1) && !(len1
                        < 80 && p2 <= i < p2 + (80 - len1)) ==> final(self).full_contents@[i]
                        == old(self).full_contents@[i]
            }),
    {
        let ghost orig = old(self).full_contents@;
        let ghost oself = *old(self);
        let ghost bn = box_number as int;
        let ghost bt = box_entry as int;
        let ghost a0 = spec_box_abs_offset(bn, bt);
        let ghost cur = old(self).latest_save_offset as int;
        proof {
            self.lemma_slot_piece_layout(bn, bt, 0);
            self.lemma_section_offset_range(spec_box_section_id(a0));
        }
        let (section_id, relative_offset) = compute_section_id_and_offset_for_box_slot(
            box_number,
            box_entry,
        ).unwrap();
        let section_offset = self.get_offset_for_section(section_id);
        let ghost l = section_id as int;
        let straddles = relative_offset + PK3_SIZE_BOX > SECTION_DATA_SIZE;
        let bytes_from_first_section = if straddles {
            SECTION_DATA_SIZE - relative_offset
        } else {
            PK3_SIZE_BOX
        };
        let next_section_offset = if straddles {
            proof {
                self.lemma_section_offset_range(l + 1);
            }
            self.get_offset_for_section(section_id + 1)
        } else {
            0
        };
        copy_bytes(&mut self.full_contents, section_offset + relative_offset, pk3_data, 0,
            bytes_from_first_section);
        if straddles {
            let bytes_from_next_section = PK3_SIZE_BOX - bytes_from_first_section;
            proof {
                oself.lemma_sections_disjoint(l, l + 1);
            }
            copy_bytes(&mut self.full_contents, next_section_offset, pk3_data,
                bytes_from_first_section, bytes_from_next_section);
        }
        proof {
            let now = self.full_contents@;
            let intra = relative_offset as int;
            let len1 = bytes_from_first_section as int;
            let p1 = section_offset + intra;
            let p2 = next_section_offset as int;
            let len2: int = if straddles {
                80 - len1
            } else {
                0
            };
            oself.lemma_section_offset_range(l);
            if straddles {
                oself.lemma_section_offset_range(l + 1);
                oself.lemma_sections_disjoint(l, l + 1);
            }
            assert forall|i: int|
                0 <= i < orig.len() && !spec_is_data_byte(cur, i) implies now[i] == orig[i] by {
                if p1 <= i < p1 + len1 {
                    lemma_data_byte_classify(
                        cur,
                        (l + spec_rotation(orig)) % 14,
                        i - oself.spec_section_offset(l),
                    );
                } else if straddles && p2 <= i < p2 + len2 {
                    lemma_data_byte_classify(
                        cur,
                        (l + 1 + spec_rotation(orig)) % 14,
                        i - oself.spec_section_offset(l + 1),
                    );
                }
            }
            lemma_trailer_unchanged_by_data_writes(orig, now, cur);
            assert(spec_rotation(now) == spec_rotation(orig));
            assert(spec_ids_cyclic(now)) by {
                assert(spec_section_id(now, cur, 0) == spec_section_id(orig, cur, 0));
                assert forall|k: int| 0 <= k < 14 implies (#[trigger] spec_section_id(
                    now,
                    cur,
                    k,
                )) == (k + spec_section_id(now, cur, 0)) % 14 by {
                    assert(spec_section_id(now, cur, k) == spec_section_id(orig, cur, k));
                }
            }
            assert(self.wf());
            assert forall|a: int| 4 <= a < 33604 implies self.spec_box_addr(a)
                == oself.spec_box_addr(a) by {}
            assert forall|j: int| 0 <= j < 80 implies self.spec_slot_bytes(bn, bt)[j]
                == pk3_data@[j] by {
                oself.lemma_slot_piece_layout(bn, bt, j);
                if intra + j < 3968 {
                    assert(oself.spec_box_addr(a0 + j) == p1 + j);
                } else {
                    assert(oself.spec_box_addr(a0 + j) == p2 + (j - len1));
                }
            }
            assert(self.spec_slot_bytes(bn, bt) =~= pk3_data@);
            assert forall|b: int, t: int|
                1 <= b <= 14 && 1 <= t <= 30 && !(b == bn && t == bt) implies self.spec_slot_bytes(
                b,
                t,
            ) == oself.spec_slot_bytes(b, t) by {
                assert forall|j: int| 0 <= j < 80 implies self.spec_slot_bytes(b, t)[j]
                    == oself.spec_slot_bytes(b, t)[j] by {
                    oself.lemma_slot_piece_layout(b, t, j);
                    let aq = spec_box_abs_offset(b, t) + j;
                    assert(!(a0 <= aq < a0 + 80));
                    oself.lemma_addr_vs_slot_ranges(aq, bn, bt);
                    assert(now[oself.spec_box_addr(aq)] == orig[oself.spec_box_addr(aq)]);
                }
                assert(self.spec_slot_bytes(b, t) =~= oself.spec_slot_bytes(b, t));
            }
        }
    }
}

impl SaveFile {
    /// Whether buffer byte `i` lies in one of the two byte ranges of box
    /// slot (`b`, `t`).
    pub open spec fn spec_is_slot_byte(self, b: int, t: int, i: int) -> bool {
        let a0 = spec_box_abs_offset(b, t);
        let l = spec_box_section_id(a0);
        let intra = spec_box_intra_offset(a0);
        let len1: int = if intra + 80 <= 3968 {
            80
        } else {
            3968 - intra
        };
        let p1 = self.spec_section_offset(l) + intra;
        let p2 = self.spec_section_offset(l + 1);
        (p1 <= i < p1 + len1) || (len1 < 80 && p2 <= i < p2 + (80 - len1))
    }
}

/// Two engine states that agree on the buffer and on every parsed field.
pub open spec fn spec_same_state(a: SaveFile, b: SaveFile) -> bool {
    &&& a.full_contents@ == b.full_contents@
    &&& a.latest_save_offset == b.latest_save_offset
    &&& a.section_rotation == b.section_rotation
    &&& a.game_code == b.game_code
    &&& a.trainer_info.player_name@ == b.trainer_info.player_name@
    &&& a.trainer_info.player_gender == b.trainer_info.player_gender
    &&& a.trainer_info.id == b.trainer_info.id
    &&& a.trainer_info.time_played == b.trainer_info.time_played
}

impl SaveFile {
    /// Read the creature in a box slot: `None` for an empty slot, the
    /// decoded record otherwise. A non-empty slot that does not decode
    /// fails with `MalformedCreature`; coordinates outside 1..14 x 1..30
    /// fail with `SlotOutOfRange`.
    pub fn get_pokemon_from_box(&self, box_number: u8, slot_number: u8) -> (r: Result<
        Option<Pokemon>,
        SaveError,
    >)
        requires
            self.wf(),
        ensures
            r == Result::<Option<Pokemon>, SaveError>::Err(SaveError::SlotOutOfRange) <==> !(1
                <= box_number <= 14 && 1 <= slot_number <= 30),
            1 <= box_number <= 14 && 1 <= slot_number <= 30 ==> ({
                let bytes = self.spec_slot_bytes(box_number as int, slot_number as int);
                let empty = self.spec_slot_empty(box_number as int, slot_number as int);
                &&& (r == Result::<Option<Pokemon>, SaveError>::Ok(None::<Pokemon>) <==> empty)
                &&& (r == Result::<Option<Pokemon>, SaveError>::Err(SaveError::MalformedCreature)
                    <==> !empty && !Pokemon::spec_decodable(bytes))
                &&& (!empty && Pokemon::spec_decodable(bytes) ==> (r matches Ok(Some(p)) && p.wf()
                    && p.decodes_from(spec_crypt(bytes))))
            }),
    {
        if compute_section_id_and_offset_for_box_slot(box_number, slot_number).is_none() {
            return Err(SaveError::SlotOutOfRange);
        }
        let pk3_data = self.read_slot_raw(box_number, slot_number);
        if range_is_zero(pk3_data.as_slice(), 0, PK3_SIZE_BOX) {
            return Ok(None);
        }
        match Pokemon::from_pk3(pk3_data.as_slice()) {
            Ok(pkmn) => Ok(Some(pkmn)),
            Err(e) => Err(e),
        }
    }

    /// Write an 80-byte record into a box slot. An occupied slot is left
    /// entirely alone unless `force` is set, and the call then returns
    /// `false`. When the slot is written and the blob decodes to a
    /// creature, its species is marked owned and seen in all four dex
    /// bitmaps. Checksums are not recomputed here.
    #[verifier::rlimit(100)]
    pub fn put_pokemon_in_box(
        &mut self,
        box_number: u8,
        slot_number: u8,
        pk3_data: &[u8],
        force: bool,
    ) -> (r: Result<bool, SaveError>)
        requires
            old(self).wf(),
        ensures
            final(self).wf(),
            r == Result::<bool, SaveError>::Err(SaveError::MalformedCreature) <==> pk3_data.len()
                != PK3_SIZE_BOX,
            r == Result::<bool, SaveError>::Err(SaveError::SlotOutOfRange) <==> pk3_data.len()
                == PK3_SIZE_BOX && !(1 <= box_number <= 14 && 1 <= slot_number <= 30),
            r is Err ==> spec_same_state(*old(self), *final(self)) && (r == Result::<
                bool,
                SaveError,
            >::Err(SaveError::MalformedCreature) || r == Result::<bool, SaveError>::Err(
                SaveError::SlotOutOfRange,
            )),
            r is Ok ==> ({
                let bn = box_number as int;
                let bt = slot_number as int;
                let valid = Pokemon::spec_decodable(pk3_data@) && 1 <= spec_blob_species(pk3_data@)
                    <= 386;
                let occupied = !old(self).spec_slot_empty(bn, bt);
                &&& final(self).full_contents@.len() == old(self).full_contents@.len()
                &&& final(self).latest_save_offset == old(self).latest_save_offset
                &&& final(self).section_rotation == old(self).section_rotation
                &&& final(self).game_code == old(self).game_code
                &&& final(self).trainer_info == old(self).trainer_info
                &&& (r == Result::<bool, SaveError>::Ok(false) <==> occupied && !force)
                &&& (r == Result::<bool, SaveError>::Ok(false) ==> spec_same_state(
                    *old(self),
                    *final(self),
                ))
                &&& (r == Result::<bool, SaveError>::Ok(true) ==> {
                    &&& final(self).spec_slot_bytes(bn, bt) == pk3_data@
                    &&& (valid ==> old(self).spec_dex_bits_set(*final(self), spec_blob_species(
                        pk3_data@,
                    )))
                    &&& (!valid ==> forall|i: int|
                        0 <= i < old(self).full_contents@.len() && !old(self).spec_is_slot_byte(
                            bn,
                            bt,
                            i,
                        ) ==> final(self).full_contents@[i] == old(self).full_contents@[i])
                    &&& (valid ==> forall|i: int|
                        0 <= i < old(self).full_contents@.len() && !old(self).spec_is_slot_byte(
                            bn,
                            bt,
                            i,
                        ) && !old(self).spec_is_dex_addr(spec_blob_species(pk3_data@), i)
                            ==> final(self).full_contents@[i] == old(self).full_contents@[i])
                    &&& (forall|b: int, t: int|
                        1 <= b <= 14 && 1 <= t <= 30 && !(b == bn && t == bt)
                            ==> final(self).spec_slot_bytes(b, t) == old(self).spec_slot_bytes(
                            b,
                            t,
                        ))
                    &&& (forall|k: int|
                        0 <= k < 14 ==> #[trigger] spec_stored_checksum(
                            final(self).full_contents@,
                            old(self).latest_save_offset + k * 0x1000,
                        ) == spec_stored_checksum(
                            old(self).full_contents@,
                            old(self).latest_save_offset + k * 0x1000,
                        ))
                })
            }),
    {
        if pk3_data.len() != PK3_SIZE_BOX {
            return Err(SaveError::MalformedCreature);
        }
        if compute_section_id_and_offset_for_box_slot(box_number, slot_number).is_none() {
            return Err(SaveError::SlotOutOfRange);
        }
        let ghost oself = *old(self);
        let ghost bn = box_number as int;
        let ghost bt = slot_number as int;
        let existing = self.read_slot_raw(box_number, slot_number);
        let pokemon_present = !range_is_zero(existing.as_slice(), 0, PK3_SIZE_BOX);
        if pokemon_present && !force {
            proof {
                assert(!self.spec_slot_empty(bn, bt)) by {
                    assert(existing@ == self.spec_slot_bytes(bn, bt));
                };
                assert(spec_same_state(oself, *self));
            }
            return Ok(false);
        }
        match Pokemon::from_pk3(pk3_data) {
            Ok(pk3) => {
                proof {
                    reveal(Pokemon::decodes_from);
                    assert(pk3.species == spec_blob_species(pk3_data@));
                }
                if 1 <= pk3.species && pk3.species <= 386 {
                    self.mark_pokemon_owned_in_dex(pk3.species);
                }
            },
            Err(_) => {},
        }
        let ghost marked = *self;
        self.write_slot_raw(box_number, slot_number, pk3_data);
        proof {
            self.lemma_put_compose(oself, marked, bn, bt, pk3_data@);
        }
        Ok(true)
    }

    /// Chain the frame of the dex marking with the frame of the slot write:
    /// the dex bytes live in sections 0, 1 and 4, the written slot in the
    /// box sections, so neither write disturbs the other's effect.
    proof fn lemma_put_compose(self, oself: SaveFile, marked: SaveFile, bn: int, bt: int, data: Seq<u8>)
        requires
            oself.wf(),
            marked.wf(),
            self.wf(),
            1 <= bn <= 14,
            1 <= bt <= 30,
            data.len() == 80,
            marked.full_contents@.len() == oself.full_contents@.len(),
            marked.latest_save_offset == oself.latest_save_offset,
            marked.game_code == oself.game_code,
            self.full_contents@.len() == marked.full_contents@.len(),
            self.latest_save_offset == marked.latest_save_offset,
            self.game_code == marked.game_code,
            spec_rotation(marked.full_contents@) == spec_rotation(oself.full_contents@),
            spec_rotation(self.full_contents@) == spec_rotation(marked.full_contents@),
            forall|b: int, t: int|
                1 <= b <= 14 && 1 <= t <= 30 ==> marked.spec_slot_bytes(b, t)
                    == oself.spec_slot_bytes(b, t),
            forall|i: int|
                0 <= i < marked.full_contents@.len() && !marked.spec_is_slot_byte(bn, bt, i)
                    ==> self.full_contents@[i] == marked.full_contents@[i],
        ensures
            forall|i: int|
                0 <= i < oself.full_contents@.len() && !oself.spec_is_slot_byte(bn, bt, i)
                    ==> self.full_contents@[i] == marked.full_contents@[i],
            forall|sp: int|
                1 <= sp <= 386 ==> self.full_contents@[#[trigger] oself.spec_dex_addr_owned(sp)]
                    == marked.full_contents@[oself.spec_dex_addr_owned(sp)]
                    && self.full_contents@[oself.spec_dex_addr_seen_a(sp)]
                    == marked.full_contents@[oself.spec_dex_addr_seen_a(sp)]
                    && self.full_contents@[oself.spec_dex_addr_seen_b(sp)]
                    == marked.full_contents@[oself.spec_dex_addr_seen_b(sp)]
                    && self.full_contents@[oself.spec_dex_addr_seen_c(sp)]
                    == marked.full_contents@[oself.spec_dex_addr_seen_c(sp)],
    {
        self.lemma_put_compose_frame(oself, marked, bn, bt);
        self.lemma_put_compose_dex(oself, marked, bn, bt);
    }

    /// Byte positions outside the slot's ranges, computed against the
    /// pre-mark state, are untouched by the slot write: the mark changed no
    /// trailer, so both states place the slot at the same ranges.
    proof fn lemma_put_compose_frame(self, oself: SaveFile, marked: SaveFile, bn: int, bt: int)
        requires
            oself.wf(),
            1 <= bn <= 14,
            1 <= bt <= 30,
            marked.full_contents@.len() == oself.full_contents@.len(),
            marked.latest_save_offset == oself.latest_save_offset,
            self.full_contents@.len() == marked.full_contents@.len(),
            spec_rotation(marked.full_contents@) == spec_rotation(oself.full_contents@),
            forall|i: int|
                0 <= i < marked.full_contents@.len() && !marked.spec_is_slot_byte(bn, bt, i)
                    ==> self.full_contents@[i] == marked.full_contents@[i],
        ensures
            forall|i: int|
                0 <= i < oself.full_contents@.len() && !oself.spec_is_slot_byte(bn, bt, i)
                    ==> self.full_contents@[i] == marked.full_contents@[i],
    {
        let a0 = spec_box_abs_offset(bn, bt);
        let l = spec_box_section_id(a0);
        oself.lemma_slot_piece_layout(bn, bt, 0);
        assert forall|i: int|
            0 <= i < oself.full_contents@.len() && !oself.spec_is_slot_byte(bn, bt, i)
            implies self.full_contents@[i] == marked.full_contents@[i] by {
            assert(marked.spec_section_offset(l) == oself.spec_section_offset(l));
            assert(marked.spec_section_offset(l + 1) == oself.spec_section_offset(l + 1));
        }
    }

    /// The four dex bytes of any species lie in the data areas of sections
    /// 0, 1 and 4, never inside a box slot's ranges, so the slot write
    /// leaves them alone.
    #[verifier::rlimit(100)]
    proof fn lemma_put_compose_dex(self, oself: SaveFile, marked: SaveFile, bn: int, bt: int)
        requires
            oself.wf(),
            1 <= bn <= 14,
            1 <= bt <= 30,
            marked.full_contents@.len() == oself.full_contents@.len(),
            marked.latest_save_offset == oself.latest_save_offset,
            marked.game_code == oself.game_code,
            self.full_contents@.len() == marked.full_contents@.len(),
            spec_rotation(marked.full_contents@) == spec_rotation(oself.full_contents@),
            forall|i: int|
                0 <= i < marked.full_contents@.len() && !marked.spec_is_slot_byte(bn, bt, i)
                    ==> self.full_contents@[i] == marked.full_contents@[i],
        ensures
            forall|sp: int|
                1 <= sp <= 386 ==> self.full_contents@[#[trigger] oself.spec_dex_addr_owned(sp)]
                    == marked.full_contents@[oself.spec_dex_addr_owned(sp)]
                    && self.full_contents@[oself.spec_dex_addr_seen_a(sp)]
                    == marked.full_contents@[oself.spec_dex_addr_seen_a(sp)]
                    && self.full_contents@[oself.spec_dex_addr_seen_b(sp)]
                    == marked.full_contents@[oself.spec_dex_addr_seen_b(sp)]
                    && self.full_contents@[oself.spec_dex_addr_seen_c(sp)]
                    == marked.full_contents@[oself.spec_dex_addr_seen_c(sp)],
    {
        let a0 = spec_box_abs_offset(bn, bt);
        let l = spec_box_section_id(a0);
        oself.lemma_slot_piece_layout(bn, bt, 0);
        let intra = spec_box_intra_offset(a0);
        oself.lemma_section_offset_range(0);
        oself.lemma_section_offset_range(1);
        oself.lemma_section_offset_range(4);
        oself.lemma_section_offset_range(l);
        oself.lemma_sections_disjoint(0, l);
        oself.lemma_sections_disjoint(1, l);
        oself.lemma_sections_disjoint(4, l);
        if intra + 80 > 3968 {
            oself.lemma_section_offset_range(l + 1);
            oself.lemma_sections_disjoint(0, l + 1);
            oself.lemma_sections_disjoint(1, l + 1);
            oself.lemma_sections_disjoint(4, l + 1);
        }
        assert forall|sp: int| 1 <= sp <= 386 implies self.full_contents@[#[trigger] oself
            .spec_dex_addr_owned(sp)] == marked.full_contents@[oself.spec_dex_addr_owned(sp)]
            && self.full_contents@[oself.spec_dex_addr_seen_a(sp)]
            == marked.full_contents@[oself.spec_dex_addr_seen_a(sp)]
            && self.full_contents@[oself.spec_dex_addr_seen_b(sp)]
            == marked.full_contents@[oself.spec_dex_addr_seen_b(sp)]
            && self.full_contents@[oself.spec_dex_addr_seen_c(sp)]
            == marked.full_contents@[oself.spec_dex_addr_seen_c(sp)] by {
            assert(!oself.spec_is_slot_byte(bn, bt, oself.spec_dex_addr_owned(sp)));
            assert(!oself.spec_is_slot_byte(bn, bt, oself.spec_dex_addr_seen_a(sp)));
            assert(!oself.spec_is_slot_byte(bn, bt, oself.spec_dex_addr_seen_b(sp)));
            assert(!oself.spec_is_slot_byte(bn, bt, oself.spec_dex_addr_seen_c(sp)));
            assert(marked.spec_is_slot_byte(bn, bt, oself.spec_dex_addr_owned(sp))
                == oself.spec_is_slot_byte(bn, bt, oself.spec_dex_addr_owned(sp)));
        }
    }

}

/// Writes that only touch checksum bytes leave every box slot unchanged:
/// slot bytes live in the data areas, checksum bytes in the trailers.
proof fn lemma_slots_unchanged_by_ck_writes(pre: SaveFile, post: SaveFile)
    requires
        pre.wf(),
        post.wf(),
        post.full_contents@.len() == pre.full_contents@.len(),
        post.latest_save_offset == pre.latest_save_offset,
        post.section_rotation == pre.section_rotation,
        spec_rotation(post.full_contents@) == spec_rotation(pre.full_contents@),
        forall|i: int|
            0 <= i < pre.full_contents@.len() && !spec_is_checksum_byte(
                pre.latest_save_offset as int,
                i,
            ) ==> post.full_contents@[i] == pre.full_contents@[i],
    ensures
        forall|b: int, t: int|
            1 <= b <= 14 && 1 <= t <= 30 ==> post.spec_slot_bytes(b, t) == pre.spec_slot_bytes(
                b,
                t,
            ),
{
    assert forall|b: int, t: int| 1 <= b <= 14 && 1 <= t <= 30 implies post.spec_slot_bytes(b, t)
        == pre.spec_slot_bytes(b, t) by {
        assert forall|j: int| 0 <= j < 80 implies post.spec_slot_bytes(b, t)[j]
            == pre.spec_slot_bytes(b, t)[j] by {
            pre.lemma_slot_piece_layout(b, t, j);
            let aq = spec_box_abs_offset(b, t) + j;
            pre.lemma_box_addr_is_data(aq);
            assert(post.spec_box_addr(aq) == pre.spec_box_addr(aq));
            assert(!spec_is_checksum_byte(pre.latest_save_offset as int, pre.spec_box_addr(aq)));
        }
        assert(post.spec_slot_bytes(b, t) =~= pre.spec_slot_bytes(b, t));
    }
}

impl SaveFile {
    /// Zero the 80 bytes of a box slot. The cleared blob decodes to nothing,
    /// so no dex bit is touched; checksums are left for the caller.
    pub fn clear_box_position(&mut self, box_number: u8, slot_number: u8) -> (r: Result<
        (),
        SaveError,
    >)
        requires
            old(self).wf(),
        ensures
            final(self).wf(),
            r == Result::<(), SaveError>::Err(SaveError::SlotOutOfRange) <==> !(1 <= box_number
                <= 14 && 1 <= slot_number <= 30),
            r is Err ==> r == Result::<(), SaveError>::Err(SaveError::SlotOutOfRange)
                && spec_same_state(*old(self), *final(self)),
            r is Ok ==> ({
                let bn = box_number as int;
                let bt = slot_number as int;
                &&& final(self).full_contents@.len() == old(self).full_contents@.len()
                &&& final(self).latest_save_offset == old(self).latest_save_offset
                &&& final(self).section_rotation == old(self).section_rotation
                &&& final(self).game_code == old(self).game_code
                &&& final(self).trainer_info == old(self).trainer_info
                &&& final(self).spec_slot_empty(bn, bt)
                &&& (forall|b: int, t: int|
                    1 <= b <= 14 && 1 <= t <= 30 && !(b == bn && t == bt)
                        ==> final(self).spec_slot_bytes(b, t) == old(self).spec_slot_bytes(b, t))
                &&& (forall|i: int|
                    0 <= i < old(self).full_contents@.len() && !old(self).spec_is_slot_byte(
                        bn,
                        bt,
                        i,
                    ) ==> final(self).full_contents@[i] == old(self).full_contents@[i])
                &&& (forall|k: int|
                    0 <= k < 14 ==> #[trigger] spec_stored_checksum(
                        final(self).full_contents@,
                        old(self).latest_save_offset + k * 0x1000,
                    ) == spec_stored_checksum(
                        old(self).full_contents@,
                        old(self).latest_save_offset + k * 0x1000,
                    ))
            }),
    {
        let cleared_pk3: Vec<u8> = vec![0u8; 80];
        proof {
            assert(cleared_pk3@[0x12] == 0);
            assert(!Pokemon::spec_decodable(cleared_pk3@));
        }
        match self.put_pokemon_in_box(box_number, slot_number, cleared_pk3.as_slice(), true) {
            Ok(wrote) => {
                proof {
                    assert(wrote);
                    assert(self.spec_slot_bytes(box_number as int, slot_number as int)
                        == cleared_pk3@);
                    assert forall|j: int|
                        0 <= j < 80 implies self.spec_slot_bytes(
                        box_number as int,
                        slot_number as int,
                    )[j] == 0 by {}
                }
                Ok(())
            },
            Err(e) => Err(e),
        }
    }

    /// Take the creature out of a box slot: decode it, zero the slot, and
    /// recompute every section checksum. An empty slot yields `None` but
    /// the slot is still zeroed and the checksums still recomputed; a slot
    /// that does not decode leaves the save untouched. No byte outside the
    /// slot and the checksum fields changes.
    pub fn take_pokemon_from_box(&mut self, box_number: u8, slot_number: u8) -> (r: Result<
        Option<Pokemon>,
        SaveError,
    >)
        requires
            old(self).wf(),
        ensures
            final(self).wf(),
            r == Result::<Option<Pokemon>, SaveError>::Err(SaveError::SlotOutOfRange) <==> !(1
                <= box_number <= 14 && 1 <= slot_number <= 30),
            r is Err ==> spec_same_state(*old(self), *final(self)) && (r == Result::<
                Option<Pokemon>,
                SaveError,
            >::Err(SaveError::SlotOutOfRange) || r == Result::<Option<Pokemon>, SaveError>::Err(
                SaveError::MalformedCreature,
            )),
            1 <= box_number <= 14 && 1 <= slot_number <= 30 ==> ({
                let bn = box_number as int;
                let bt = slot_number as int;
                let bytes = old(self).spec_slot_bytes(bn, bt);
                let empty = old(self).spec_slot_empty(bn, bt);
                &&& (r == Result::<Option<Pokemon>, SaveError>::Err(SaveError::MalformedCreature)
                    <==> !empty && !Pokemon::spec_decodable(bytes))
                &&& (r is Ok ==> {
                    &&& final(self).full_contents@.len() == old(self).full_contents@.len()
                    &&& final(self).latest_save_offset == old(self).latest_save_offset
                    &&& final(self).section_rotation == old(self).section_rotation
                    &&& final(self).game_code == old(self).game_code
                    &&& final(self).trainer_info == old(self).trainer_info
                    &&& final(self).spec_slot_empty(bn, bt)
                    &&& (forall|b: int, t: int|
                        1 <= b <= 14 && 1 <= t <= 30 && !(b == bn && t == bt)
                            ==> final(self).spec_slot_bytes(b, t) == old(self).spec_slot_bytes(
                            b,
                            t,
                        ))
                    &&& (forall|i: int|
                        0 <= i < old(self).full_contents@.len() && !old(self).spec_is_slot_byte(
                            bn,
                            bt,
                            i,
                        ) && !spec_is_checksum_byte(old(self).latest_save_offset as int, i)
                            ==> final(self).full_contents@[i] == old(self).full_contents@[i])
                    &&& spec_all_checksums_ok(
                        final(self).full_contents@,
                        final(self).latest_save_offset as int,
                    )
                    &&& (r == Result::<Option<Pokemon>, SaveError>::Ok(None::<Pokemon>) <==> empty)
                    &&& (r matches Ok(Some(p)) ==> !empty && p.wf() && p.decodes_from(
                        spec_crypt(bytes),
                    ))
                })
            }),
    {
        let pkmn = match self.get_pokemon_from_box(box_number, slot_number) {
            Ok(p) => p,
            Err(e) => {
                return Err(e);
            },
        };
        let ghost oself = *old(self);
        let cleared = self.clear_box_position(box_number, slot_number);
        proof {
            assert(cleared is Ok);
        }
        let ghost mid = *self;
        self.recompute_checksums();
        proof {
            lemma_slots_unchanged_by_ck_writes(mid, *self);
        }
        Ok(pkmn)
    }
}

impl SaveFile {
    /// List the occupied slots of a box in slot order, each with its
    /// decoded creature. Fails with `SlotOutOfRange` for a box outside
    /// 1..14 and with `MalformedCreature` when an occupied slot does not
    /// decode.
    /// `v` lists exactly the occupied slots of box `bn`, in strictly
    /// increasing slot order, each with the creature its bytes decode to.
    pub open spec fn spec_box_listing(self, bn: int, v: Seq<(u8, Pokemon)>) -> bool {
        &&& (forall|i: int|
            0 <= i < v.len() ==> 1 <= (#[trigger] v[i]).0 <= 30 && !self.spec_slot_empty(
                bn,
                v[i].0 as int,
            ) && v[i].1.wf() && v[i].1.decodes_from(
                spec_crypt(self.spec_slot_bytes(bn, v[i].0 as int)),
            ))
        &&& (forall|i: int, j: int| 0 <= i < j < v.len() ==> (#[trigger] v[i]).0 < (
        #[trigger] v[j]).0)
        &&& (forall|t: int|
            1 <= t <= 30 && !(#[trigger] self.spec_slot_empty(bn, t)) ==> exists|i: int|
                0 <= i < v.len() && (#[trigger] v[i]).0 == t)
    }

    #[verifier::rlimit(100)]
    pub fn get_box(&self, box_number: u8) -> (r: Result<Vec<(u8, Pokemon)>, SaveError>)
        requires
            self.wf(),
        ensures
            r == Result::<Vec<(u8, Pokemon)>, SaveError>::Err(SaveError::SlotOutOfRange) <==> !(1
                <= box_number <= 14),
            1 <= box_number <= 14 ==> ({
                let bn = box_number as int;
                &&& (r is Err <==> exists|t: int|
                    1 <= t <= 30 && !(#[trigger] self.spec_slot_empty(bn, t))
                        && !Pokemon::spec_decodable(self.spec_slot_bytes(bn, t)))
                &&& (r is Err ==> r == Result::<Vec<(u8, Pokemon)>, SaveError>::Err(
                    SaveError::MalformedCreature,
                ))
                &&& (r matches Ok(v) ==> self.spec_box_listing(bn, v@))
            }),
    {
        if box_number < 1 || box_number > 14 {
            return Err(SaveError::SlotOutOfRange);
        }
        let ghost bn = box_number as int;
        let mut out: Vec<(u8, Pokemon)> = Vec::new();
        let mut slot: u8 = 1;
        while slot <= 30
            invariant
                1 <= slot <= 31,
                1 <= box_number <= 14,
                bn == box_number as int,
                self.wf(),
                forall|i: int|
                    0 <= i < out@.len() ==> 1 <= (#[trigger] out@[i]).0 < slot && !self
                        .spec_slot_empty(bn, out@[i].0 as int) && out@[i].1.wf()
                        && out@[i].1.decodes_from(
                        spec_crypt(self.spec_slot_bytes(bn, out@[i].0 as int)),
                    ),
                forall|i: int, j: int| 0 <= i < j < out@.len() ==> (#[trigger] out@[i]).0 < (
                #[trigger] out@[j]).0,
                forall|t: int|
                    1 <= t < slot && !(#[trigger] self.spec_slot_empty(bn, t)) ==> exists|i: int|
                        0 <= i < out@.len() && (#[trigger] out@[i]).0 == t,
                forall|t: int|
                    1 <= t < slot && !(#[trigger] self.spec_slot_empty(bn, t))
                        ==> Pokemon::spec_decodable(self.spec_slot_bytes(bn, t)),
            decreases 31 - slot,
        {
            match self.get_pokemon_from_box(box_number, slot) {
                Ok(Some(pkmn)) => {
                    let ghost prev = out@;
                    out.push((slot, pkmn));
                    proof {
                        assert forall|t: int|
                            1 <= t < slot + 1 && !(#[trigger] self.spec_slot_empty(bn, t))
                            implies exists|i: int|
                            0 <= i < out@.len() && (#[trigger] out@[i]).0 == t by {
                            if t == slot as int {
                                assert(out@[out@.len() - 1].0 == t);
                            } else {
                                let i = choose|i: int|
                                    0 <= i < prev.len() && (#[trigger] prev[i]).0 == t;
                                assert(out@[i].0 == t);
                            }
                        }
                    }
                },
                Ok(None) => {
                },
                Err(e) => {
                    proof {
                        assert(!self.spec_slot_empty(bn, slot as int) && !Pokemon::spec_decodable(
                            self.spec_slot_bytes(bn, slot as int),
                        ));
                    }
                    return Err(e);
                },
            }
            slot = slot + 1;
        }
        proof {
            assert(!(exists|t: int|
                1 <= t <= 30 && !(#[trigger] self.spec_slot_empty(bn, t))
                    && !Pokemon::spec_decodable(self.spec_slot_bytes(bn, t))));
            assert(forall|i: int|
                0 <= i < out@.len() ==> 1 <= (#[trigger] out@[i]).0 <= 30 && !self.spec_slot_empty(
                    bn,
                    out@[i].0 as int,
                ) && out@[i].1.wf() && out@[i].1.decodes_from(
                    spec_crypt(self.spec_slot_bytes(bn, out@[i].0 as int)),
                ));
            assert(forall|t: int|
                1 <= t <= 30 && !(#[trigger] self.spec_slot_empty(bn, t)) ==> exists|i: int|
                    0 <= i < out@.len() && (#[trigger] out@[i]).0 == t);
            assert(forall|i: int, j: int|
                0 <= i < j < out@.len() ==> (#[trigger] out@[i]).0 < (#[trigger] out@[j]).0);
            assert(self.spec_box_listing(bn, out@));
        }
        Ok(out)
    }

    /// Decode the party: the team-size word of logical section 1 says how
    /// many records follow it, capped at the six the game can hold.
    pub fn get_party(&self) -> (r: Result<Vec<Pokemon>, SaveError>)
        requires
            self.wf(),
        ensures
            ({
                let base = self.spec_section_offset(1) + spec_team_size_offset(self.game_code);
                let size = u32_at(self.full_contents@, base);
                let n: int = if size > 6 {
                    6
                } else {
                    size
                };
                &&& (r is Err ==> r == Result::<Vec<Pokemon>, SaveError>::Err(
                    SaveError::MalformedCreature,
                ))
                &&& (r is Err <==> exists|k: int|
                    0 <= k < n && !Pokemon::spec_decodable(
                        #[trigger] self.full_contents@.subrange(
                            base + 4 + k * 100,
                            base + 4 + k * 100 + 100,
                        ),
                    ))
                &&& (r matches Ok(v) ==> v@.len() == n && forall|k: int|
                    0 <= k < n ==> (#[trigger] v@[k]).wf() && v@[k].decodes_from(
                        spec_crypt(
                            self.full_contents@.subrange(
                                base + 4 + k * 100,
                                base + 4 + k * 100 + 100,
                            ),
                        ),
                    ))
            }),
    {
        proof {
            self.lemma_section_offset_range(1);
        }
        let section_offset = self.get_offset_for_section(1);
        let team_size_offset = self.game_code.team_size_offset();
        let base = section_offset + team_size_offset;
        let team_size = read_u32_le(self.full_contents.as_slice(), base);
        let count: usize = if team_size > 6 {
            6
        } else {
            team_size as usize
        };
        let mut party: Vec<Pokemon> = Vec::new();
        let mut k: usize = 0;
        while k < count
            invariant
                0 <= k <= count <= 6,
                self.wf(),
                base == self.spec_section_offset(1) + spec_team_size_offset(self.game_code),
                base + 4 + 6 * 100 <= self.full_contents@.len(),
                count == (if u32_at(self.full_contents@, base as int) > 6 {
                    6int
                } else {
                    u32_at(self.full_contents@, base as int)
                }),
                party@.len() == k,
                forall|j: int|
                    0 <= j < k ==> (#[trigger] party@[j]).wf() && party@[j].decodes_from(
                        spec_crypt(
                            self.full_contents@.subrange(
                                base + 4 + j * 100,
                                base + 4 + j * 100 + 100,
                            ),
                        ),
                    ),
                forall|j: int|
                    0 <= j < k ==> Pokemon::spec_decodable(
                        #[trigger] self.full_contents@.subrange(
                            base + 4 + j * 100,
                            base + 4 + j * 100 + 100,
                        ),
                    ),
            decreases count - k,
        {
            let record = sub_bytes(self.full_contents.as_slice(), base + 4 + k * 100,
                PK3_SIZE_PARTY);
            proof {
                assert(record@ == self.full_contents@.subrange(
                    base + 4 + k * 100,
                    base + 4 + k * 100 + 100,
                ));
            }
            match Pokemon::from_pk3(record.as_slice()) {
                Ok(pkmn) => {
                    party.push(pkmn);
                },
                Err(e) => {
                    proof {
                        assert(!Pokemon::spec_decodable(
                            self.full_contents@.subrange(
                                base + 4 + k * 100,
                                base + 4 + k * 100 + 100,
                            ),
                        ));
                    }
                    return Err(e);
                },
            }
            k = k + 1;
        }
        Ok(party)
    }
}

/// When two buffers agree outside the checksum bytes of the slot at `cur`,
/// the data region of every section of that slot is unchanged.
proof fn lemma_section_data_unchanged(orig: Seq<u8>, now: Seq<u8>, cur: int, k: int)
    requires
        orig.len() == now.len(),
        orig.len() >= GAME_SAVE_DATA_LENGTH,
        cur == 0 || cur == 0xE000,
        0 <= k < 14,
        forall|i: int|
            0 <= i < orig.len() && !spec_is_checksum_byte(cur, i) ==> now[i] == orig[i],
    ensures
        now.subrange(cur + k * 0x1000, cur + k * 0x1000 + 3968) == orig.subrange(
            cur + k * 0x1000,
            cur + k * 0x1000 + 3968,
        ),
{
    let a = cur + k * 0x1000;
    vstd::seq_lib::assert_seqs_equal!(
        now.subrange(a, a + 3968) == orig.subrange(a, a + 3968),
        i => { lemma_checksum_byte_classify(cur, k, i); }
    );
}

/// When two buffers agree on every byte that is not a checksum byte of the
/// slot at `cur`, they agree on both save indices and on every section id of
/// either slot, so slot choice, rotation and well-formedness carry over.
proof fn lemma_trailer_fields_unchanged(orig: Seq<u8>, now: Seq<u8>, cur: int)
    requires
        orig.len() == now.len(),
        orig.len() >= GAME_SAVE_DATA_LENGTH,
        cur == 0 || cur == 0xE000,
        forall|i: int|
            0 <= i < orig.len() && !spec_is_checksum_byte(cur, i) ==> now[i] == orig[i],
    ensures
        u32_at(now, 0x0FFC) == u32_at(orig, 0x0FFC),
        u32_at(now, 0xEFFC) == u32_at(orig, 0xEFFC),
        spec_current_offset(now) == spec_current_offset(orig),
        forall|base: int, k: int|
            (base == 0 || base == 0xE000) && 0 <= k < 14 ==> spec_section_id(now, base, k)
                == spec_section_id(orig, base, k),
{
    if cur == 0 {
        assert((0x0FFC - 0) % 0x1000 == 0x0FFC && (0x0FFD - 0) % 0x1000 == 0x0FFD && (0x0FFE - 0)
            % 0x1000 == 0x0FFE && (0x0FFF - 0) % 0x1000 == 0x0FFF);
        assert(!spec_is_checksum_byte(cur, 0x0FFC) && !spec_is_checksum_byte(cur, 0x0FFD)
            && !spec_is_checksum_byte(cur, 0x0FFE) && !spec_is_checksum_byte(cur, 0x0FFF));
        assert(!spec_is_checksum_byte(cur, 0xEFFC) && !spec_is_checksum_byte(cur, 0xEFFD)
            && !spec_is_checksum_byte(cur, 0xEFFE) && !spec_is_checksum_byte(cur, 0xEFFF));
    } else {
        assert((0xEFFC - 0xE000) % 0x1000 == 0x0FFC && (0xEFFD - 0xE000) % 0x1000 == 0x0FFD && (
        0xEFFE - 0xE000) % 0x1000 == 0x0FFE && (0xEFFF - 0xE000) % 0x1000 == 0x0FFF);
        assert(!spec_is_checksum_byte(cur, 0xEFFC) && !spec_is_checksum_byte(cur, 0xEFFD)
            && !spec_is_checksum_byte(cur, 0xEFFE) && !spec_is_checksum_byte(cur, 0xEFFF));
        assert(!spec_is_checksum_byte(cur, 0x0FFC) && !spec_is_checksum_byte(cur, 0x0FFD)
            && !spec_is_checksum_byte(cur, 0x0FFE) && !spec_is_checksum_byte(cur, 0x0FFF));
    }
    assert(u32_at(now, 0x0FFC) == u32_at(orig, 0x0FFC));
    assert(u32_at(now, 0xEFFC) == u32_at(orig, 0xEFFC));
    assert forall|base: int, k: int|
        (base == 0 || base == 0xE000) && 0 <= k < 14 implies spec_section_id(now, base, k)
        == spec_section_id(orig, base, k) by {
        if base == cur {
            lemma_checksum_byte_classify(cur, k, 0x0FF4);
            lemma_checksum_byte_classify(cur, k, 0x0FF5);
        } else {
            assert(!spec_is_checksum_byte(cur, base + k * 0x1000 + 0x0FF4));
            assert(!spec_is_checksum_byte(cur, base + k * 0x1000 + 0x0FF5));
        }
    }
}

} // verus!
