//! The data types the tool passes between the codec, the roam store and its
//! callers, and the row shapes the store persists them in.

use vstd::prelude::*;

use crate::bytes::{u16_at, u32_at};
use crate::pokemon::Pokemon;
use crate::{SaveError, TrainerId};

verus! {

/// Rejections of caller-supplied values for the store's data types.
#[derive(Clone, Copy, Debug, PartialEq, Eq, Structural)]
pub enum DataError {
    InvalidPlaytime,
    InvalidGameId,
    InvalidDataFormat,
    InvalidBoxLocation,
}

/// The game a registered save belongs to.
#[derive(Clone, Copy, Debug, PartialEq, Eq, Structural)]
pub enum Game {
    Ruby,
    Sapphire,
    Emerald,
    FireRed,
    LeafGreen,
}

/// The integer each game is stored as.
pub open spec fn spec_game_id(game: Game) -> int {
    match game {
        Game::Ruby => 0,
        Game::Sapphire => 1,
        Game::Emerald => 2,
        Game::FireRed => 3,
        Game::LeafGreen => 4,
    }
}

impl Game {
    /// The game stored as `value`, or `None` for an unknown id.
    pub fn from_u32(value: u32) -> (r: Option<Game>)
        ensures
            r matches Some(g) ==> spec_game_id(g) == value,
            r is Some <==> value <= 4,
    {
        match value {
            0u32 => Some(Game::Ruby),
            1u32 => Some(Game::Sapphire),
            2u32 => Some(Game::Emerald),
            3u32 => Some(Game::FireRed),
            4u32 => Some(Game::LeafGreen),
            _ => None,
        }
    }

    /// The integer this game is stored as.
    pub fn to_u32(self) -> (r: u32)
        ensures
            r == spec_game_id(self),
    {
        match self {
            Game::Ruby => 0,
            Game::Sapphire => 1,
            Game::Emerald => 2,
            Game::FireRed => 3,
            Game::LeafGreen => 4,
        }
    }

    /// All games, in id order.
    pub fn variants() -> (r: Vec<Game>)
        ensures
            r@ =~= seq![Game::Ruby, Game::Sapphire, Game::Emerald, Game::FireRed, Game::LeafGreen],
    {
        let mut variants = Vec::new();
        variants.push(Game::Ruby);
        variants.push(Game::Sapphire);
        variants.push(Game::Emerald);
        variants.push(Game::FireRed);
        variants.push(Game::LeafGreen);
        variants
    }
}

/// Time played, in the units the store keeps.
#[derive(Clone, Copy, Debug, PartialEq, Eq, Structural)]
pub struct Playtime {
    pub hours: u32,
    pub minutes: u32,
    pub frames: u32,
}

impl Playtime {
    /// A playtime is valid when minutes and frames both fit their unit.
    pub open spec fn wf(self) -> bool {
        self.minutes <= 59 && self.frames <= 59
    }

    /// Build a playtime, rejecting out-of-unit minutes or frames.
    pub fn new(hours: u32, minutes: u32, frames: u32) -> (r: Result<Playtime, DataError>)
        ensures
            r is Ok <==> minutes <= 59 && frames <= 59,
            r matches Ok(p) ==> p == (Playtime { hours, minutes, frames }) && p.wf(),
            r is Err ==> r == Result::<Playtime, DataError>::Err(DataError::InvalidPlaytime),
    {
        if minutes > 59 || frames > 59 {
            Err(DataError::InvalidPlaytime)
        } else {
            Ok(Playtime { hours, minutes, frames })
        }
    }
}

/// A registered save: the game, the trainer it belongs to, and where the
/// save file lives.
#[derive(Clone, Debug)]
pub struct GameSaveData {
    pub id: Option<u64>,
    pub game: Game,
    pub trainer_name: String,
    pub trainer_id: u32,
    pub secret_id: u32,
    pub playtime: Playtime,
    pub connected: bool,
    pub save_path: String,
}

impl GameSaveData {
    /// Two save records with equal fields.
    pub open spec fn spec_same(self, other: GameSaveData) -> bool {
        &&& self.id == other.id
        &&& self.game == other.game
        &&& self.trainer_name@ == other.trainer_name@
        &&& self.trainer_id == other.trainer_id
        &&& self.secret_id == other.secret_id
        &&& self.playtime == other.playtime
        &&& self.connected == other.connected
        &&& self.save_path@ == other.save_path@
    }

    /// Build a save record from its fields, rejecting an invalid playtime.
    pub fn new(
        game: Game,
        trainer_name: &str,
        trainer_id: u32,
        secret_id: u32,
        playtime_hours: u32,
        playtime_minutes: u32,
        playtime_frames: u32,
        save_path: String,
        connected: bool,
    ) -> (r: Result<GameSaveData, DataError>)
        ensures
            r is Ok <==> playtime_minutes <= 59 && playtime_frames <= 59,
            r matches Ok(d) ==> {
                &&& d.id is None
                &&& d.game == game
                &&& d.trainer_name@ == trainer_name@
                &&& d.trainer_id == trainer_id
                &&& d.secret_id == secret_id
                &&& d.playtime == (Playtime {
                    hours: playtime_hours,
                    minutes: playtime_minutes,
                    frames: playtime_frames,
                })
                &&& d.connected == connected
                &&& d.save_path@ == save_path@
            },
            r is Err ==> r == Result::<GameSaveData, DataError>::Err(DataError::InvalidPlaytime),
    {
        let playtime = match Playtime::new(playtime_hours, playtime_minutes, playtime_frames) {
            Ok(p) => p,
            Err(e) => {
                return Err(e);
            },
        };
        Ok(
            GameSaveData {
                id: None,
                game,
                trainer_name: trainer_name.to_owned(),
                trainer_id,
                secret_id,
                playtime,
                connected: connected,
                save_path,
            },
        )
    }

    /// Build the record for an opened save file: the trainer fields come
    /// from the save itself, the path from the caller that read it. Fails
    /// on an unknown game id or a playtime the save should not contain.
    pub fn from_path(
        save_file: &crate::save::SaveFile,
        game_id: u32,
        save_path: String,
    ) -> (r: Result<GameSaveData, DataError>)
        ensures
            r == Result::<GameSaveData, DataError>::Err(DataError::InvalidGameId) <==> game_id > 4,
            r == Result::<GameSaveData, DataError>::Err(DataError::InvalidPlaytime) <==> game_id
                <= 4 && !(save_file.trainer_info.time_played.minutes <= 59
                && save_file.trainer_info.time_played.frames <= 59),
            r is Err ==> r == Result::<GameSaveData, DataError>::Err(DataError::InvalidGameId) || r
                == Result::<GameSaveData, DataError>::Err(DataError::InvalidPlaytime),
            r matches Ok(d) ==> {
                &&& d.id is None
                &&& spec_game_id(d.game) == game_id
                &&& d.trainer_name@ == save_file.trainer_info.player_name@
                &&& d.trainer_id == save_file.trainer_info.id.public_id
                &&& d.secret_id == save_file.trainer_info.id.secret_id
                &&& d.playtime.hours == save_file.trainer_info.time_played.hours
                &&& d.playtime.minutes == save_file.trainer_info.time_played.minutes
                &&& d.playtime.frames == save_file.trainer_info.time_played.frames
                &&& d.connected == true
                &&& d.save_path@ == save_path@
            },
    {
        let game = match Game::from_u32(game_id) {
            Some(g) => g,
            None => {
                return Err(DataError::InvalidGameId);
            },
        };
        let trainer_info = save_file.get_trainer_info();
        let playtime = match Playtime::new(
            trainer_info.time_played.hours as u32,
            trainer_info.time_played.minutes as u32,
            trainer_info.time_played.frames as u32,
        ) {
            Ok(p) => p,
            Err(e) => {
                return Err(e);
            },
        };
        Ok(
            GameSaveData {
                id: None,
                game,
                trainer_name: trainer_info.player_name,
                trainer_id: trainer_info.id.public_id as u32,
                secret_id: trainer_info.id.secret_id as u32,
                playtime,
                connected: true,
                save_path,
            },
        )
    }
}

/// A registered save together with the id the store gave it.
#[derive(Clone, Debug)]
pub struct GameSave {
    pub id: u64,
    pub data: GameSaveData,
}

impl GameSave {
    /// Pair a save record with its store id.
    pub fn new(id: u64, data: GameSaveData) -> (r: GameSave)
        ensures
            r.id == id,
            r.data.spec_same(data),
    {
        GameSave { id, data }
    }
}

/// The binary format a stored creature blob uses.
#[derive(Clone, Copy, Debug, PartialEq, Eq, Structural)]
pub enum DataFormat {
    PK3,
    PK4,
}

/// The integer each data format is stored as.
pub open spec fn spec_data_format_id(f: DataFormat) -> int {
    match f {
        DataFormat::PK3 => 1,
        DataFormat::PK4 => 2,
    }
}

impl DataFormat {
    /// The format stored as `value`, or `None` for an unknown id.
    pub fn from_u32(value: u32) -> (r: Option<DataFormat>)
        ensures
            r matches Some(f) ==> spec_data_format_id(f) == value,
            r is Some <==> value == 1 || value == 2,
    {
        match value {
            1u32 => Some(DataFormat::PK3),
            2u32 => Some(DataFormat::PK4),
            _ => None,
        }
    }

    /// The integer this format is stored as.
    pub fn to_u32(self) -> (r: u32)
        ensures
            r == spec_data_format_id(self),
    {
        match self {
            DataFormat::PK3 => 1,
            DataFormat::PK4 => 2,
        }
    }
}

/// A creature as the store holds it: the raw blob plus the identity fields
/// that index it.
#[derive(Clone, Debug)]
pub struct MonsterData {
    pub id: Option<u64>,
    pub original_trainer_id: u32,
    pub original_secret_id: u32,
    pub personality_value: u32,
    pub data_format: DataFormat,
    pub data: Vec<u8>,
}

impl MonsterData {
    /// The indexed identity fields agree with the blob's clear header, and
    /// the blob has a creature record's size.
    pub open spec fn wf(self) -> bool {
        &&& self.data@.len() == 80 || self.data@.len() == 100
        &&& self.personality_value == u32_at(self.data@, 0)
        &&& self.original_trainer_id == u16_at(self.data@, 4)
        &&& self.original_secret_id == u16_at(self.data@, 6)
        &&& self.data_format == DataFormat::PK3
    }

    /// The combined 32-bit trainer identity of the blob's original trainer.
    pub open spec fn spec_full_trainer_id(self) -> int {
        self.original_trainer_id + 0x10000 * self.original_secret_id
    }

    /// Index a creature blob: decode it to check it and pull the identity
    /// fields out of its clear header.
    pub fn from_pk3(pk3_data: &[u8]) -> (r: Result<MonsterData, SaveError>)
        ensures
            r is Ok <==> Pokemon::spec_decodable(pk3_data@),
            r is Err ==> r == Result::<MonsterData, SaveError>::Err(SaveError::MalformedCreature),
            r matches Ok(m) ==> {
                &&& m.wf()
                &&& m.id is None
                &&& m.data@ == pk3_data@
            },
    {
        let pkmn = match Pokemon::from_pk3(pk3_data) {
            Ok(p) => p,
            Err(e) => {
                return Err(e);
            },
        };
        proof {
            reveal(Pokemon::decodes_from);
            crate::pokemon::lemma_crypt_involutive(pk3_data@);
        }
        Ok(
            MonsterData {
                id: None,
                original_trainer_id: pkmn.original_trainer_id.public_id as u32,
                original_secret_id: pkmn.original_trainer_id.secret_id as u32,
                personality_value: pkmn.personality_value,
                data_format: DataFormat::PK3,
                data: crate::bytes::sub_bytes(pk3_data, 0, pk3_data.len()),
            },
        )
    }

    /// A field-for-field copy.
    pub fn clone_data(&self) -> (r: MonsterData)
        ensures
            r.id == self.id,
            r.original_trainer_id == self.original_trainer_id,
            r.original_secret_id == self.original_secret_id,
            r.personality_value == self.personality_value,
            r.data_format == self.data_format,
            r.data@ == self.data@,
    {
        MonsterData {
            id: self.id,
            original_trainer_id: self.original_trainer_id,
            original_secret_id: self.original_secret_id,
            personality_value: self.personality_value,
            data_format: self.data_format,
            data: crate::bytes::sub_bytes(self.data.as_slice(), 0, self.data.len()),
        }
    }
}

/// Where a stored creature sits in the roam boxes.
#[derive(Clone, Copy, Debug, PartialEq, Eq, Structural)]
pub struct BoxLocation {
    pub box_number: u32,
    pub box_position: u32,
    pub monster_id: Option<u64>,
}

impl BoxLocation {
    /// Build a location; box numbers and positions count from 1.
    pub fn new(box_number: u32, box_position: u32, monster_id: Option<u64>) -> (r: Result<
        BoxLocation,
        DataError,
    >)
        ensures
            r is Ok <==> box_number >= 1 && box_position >= 1,
            r matches Ok(l) ==> l == (BoxLocation { box_number, box_position, monster_id }),
            r is Err ==> r == Result::<BoxLocation, DataError>::Err(DataError::InvalidBoxLocation),
    {
        if box_number < 1 || box_position < 1 {
            Err(DataError::InvalidBoxLocation)
        } else {
            Ok(BoxLocation { box_number, box_position, monster_id })
        }
    }
}

/// A save row as the store's backing tables keep it.
#[derive(Clone, Debug)]
pub struct Save {
    pub id: u64,
    pub game: u32,
    pub trainer_name: String,
    pub trainer_id: u64,
    pub secret_id: u64,
    pub playtime_hours: u64,
    pub playtime_minutes: u64,
    pub playtime_frames: u64,
    pub save_path: String,
    pub connected: u64,
}

impl Save {
    /// Interpret a raw row as a save record, rejecting fields outside their
    /// ranges.
    pub fn try_into_data(self) -> (r: Result<GameSaveData, DataError>)
        ensures
            r matches Ok(d) ==> {
                &&& d.id == Some(self.id)
                &&& spec_game_id(d.game) == self.game
                &&& d.trainer_name@ == self.trainer_name@
                &&& d.trainer_id == self.trainer_id
                &&& d.secret_id == self.secret_id
                &&& d.playtime.hours == self.playtime_hours
                &&& d.playtime.minutes == self.playtime_minutes
                &&& d.playtime.frames == self.playtime_frames
                &&& d.save_path@ == self.save_path@
                &&& d.connected == (self.connected != 0)
            },
            r is Ok <==> self.game <= 4 && self.trainer_id <= u32::MAX && self.secret_id
                <= u32::MAX && self.playtime_hours <= u32::MAX && self.playtime_minutes <= 59
                && self.playtime_frames <= 59,
    {
        let game = match Game::from_u32(self.game) {
            Some(g) => g,
            None => {
                return Err(DataError::InvalidGameId);
            },
        };
        if self.trainer_id > u32::MAX as u64 || self.secret_id > u32::MAX as u64
            || self.playtime_hours > u32::MAX as u64 || self.playtime_minutes > u32::MAX as u64
            || self.playtime_frames > u32::MAX as u64 {
            return Err(DataError::InvalidPlaytime);
        }
        let playtime = match Playtime::new(
            self.playtime_hours as u32,
            self.playtime_minutes as u32,
            self.playtime_frames as u32,
        ) {
            Ok(p) => p,
            Err(e) => {
                return Err(e);
            },
        };
        Ok(
            GameSaveData {
                id: Some(self.id),
                game,
                trainer_name: self.trainer_name,
                trainer_id: self.trainer_id as u32,
                secret_id: self.secret_id as u32,
                playtime,
                connected: self.connected != 0,
                save_path: self.save_path,
            },
        )
    }

    /// Flatten a save record into a raw row; a record without an id gets 0.
    pub fn from_data(value: GameSaveData) -> (r: Save)
        ensures
            r.id == (if value.id is Some {
                value.id->0
            } else {
                0
            }),
            r.game == spec_game_id(value.game),
            r.trainer_name@ == value.trainer_name@,
            r.trainer_id == value.trainer_id,
            r.secret_id == value.secret_id,
            r.playtime_hours == value.playtime.hours,
            r.playtime_minutes == value.playtime.minutes,
            r.playtime_frames == value.playtime.frames,
            r.save_path@ == value.save_path@,
            r.connected == (if value.connected {
                1int
            } else {
                0
            }),
    {
        Save {
            id: match value.id {
                Some(id) => id,
                None => 0,
            },
            game: value.game.to_u32(),
            trainer_name: value.trainer_name,
            trainer_id: value.trainer_id as u64,
            secret_id: value.secret_id as u64,
            playtime_hours: value.playtime.hours as u64,
            playtime_minutes: value.playtime.minutes as u64,
            playtime_frames: value.playtime.frames as u64,
            save_path: value.save_path,
            connected: if value.connected {
                1
            } else {
                0
            },
        }
    }
}

/// A creature row as the store's backing tables keep it.
#[derive(Clone, Debug)]
pub struct Monster {
    pub id: u64,
    pub original_trainer_id: u64,
    pub original_secret_id: u64,
    pub personality_value: u64,
    pub data_format: u32,
    pub data: Vec<u8>,
}

impl Monster {
    /// Interpret a raw row as stored creature data, rejecting fields
    /// outside their ranges.
    pub fn try_into_data(self) -> (r: Result<MonsterData, DataError>)
        ensures
            r matches Ok(m) ==> {
                &&& m.id == Some(self.id)
                &&& m.original_trainer_id == self.original_trainer_id
                &&& m.original_secret_id == self.original_secret_id
                &&& m.personality_value == self.personality_value
                &&& spec_data_format_id(m.data_format) == self.data_format
                &&& m.data@ == self.data@
            },
            r is Ok <==> self.original_trainer_id <= u32::MAX && self.original_secret_id
                <= u32::MAX && self.personality_value <= u32::MAX && (self.data_format == 1
                || self.data_format == 2),
    {
        if self.original_trainer_id > u32::MAX as u64 || self.original_secret_id > u32::MAX as u64
            || self.personality_value > u32::MAX as u64 {
            return Err(DataError::InvalidDataFormat);
        }
        let data_format = match DataFormat::from_u32(self.data_format) {
            Some(f) => f,
            None => {
                return Err(DataError::InvalidDataFormat);
            },
        };
        Ok(
            MonsterData {
                id: Some(self.id),
                original_trainer_id: self.original_trainer_id as u32,
                original_secret_id: self.original_secret_id as u32,
                personality_value: self.personality_value as u32,
                data_format,
                data: self.data,
            },
        )
    }

    /// Flatten stored creature data into a raw row; data without an id gets
    /// 0.
    pub fn from_data(value: MonsterData) -> (r: Monster)
        ensures
            r.id == (if value.id is Some {
                value.id->0
            } else {
                0
            }),
            r.original_trainer_id == value.original_trainer_id,
            r.original_secret_id == value.original_secret_id,
            r.personality_value == value.personality_value,
            r.data_format == spec_data_format_id(value.data_format),
            r.data@ == value.data@,
    {
        Monster {
            id: match value.id {
                Some(id) => id,
                None => 0,
            },
            original_trainer_id: value.original_trainer_id as u64,
            original_secret_id: value.original_secret_id as u64,
            personality_value: value.personality_value as u64,
            data_format: value.data_format.to_u32(),
            data: value.data,
        }
    }
}

/// A box-entry row: where a stored creature sits.
#[derive(Clone, Copy, Debug, PartialEq, Eq, Structural)]
pub struct BoxEntry {
    pub box_number: u32,
    pub box_position: u32,
    pub monster_id: u64,
}

impl BoxEntry {
    /// Interpret a raw row as a location.
    pub fn try_into_location(self) -> (r: Result<BoxLocation, DataError>)
        ensures
            r is Ok <==> self.box_number >= 1 && self.box_position >= 1,
            r matches Ok(l) ==> l == (BoxLocation {
                box_number: self.box_number,
                box_position: self.box_position,
                monster_id: Some(self.monster_id),
            }),
            r is Err ==> r == Result::<BoxLocation, DataError>::Err(DataError::InvalidBoxLocation),
    {
        BoxLocation::new(self.box_number, self.box_position, Some(self.monster_id))
    }

    /// Flatten a location and the creature occupying it into a raw row.
    pub fn from_location(location: BoxLocation, monster_id: u64) -> (r: BoxEntry)
        ensures
            r == (BoxEntry {
                box_number: location.box_number,
                box_position: location.box_position,
                monster_id,
            }),
    {
        BoxEntry {
            box_number: location.box_number,
            box_position: location.box_position,
            monster_id,
        }
    }
}

/// The paths the tool keeps its state under, rooted at one configuration
/// directory.
#[derive(Clone, Debug)]
pub struct AppPaths {
    pub config_dir: String,
}

impl AppPaths {
    /// Root the application paths at `dir`.
    pub fn from_dir(dir: String) -> (r: AppPaths)
        ensures
            r.config_dir@ == dir@,
    {
        AppPaths { config_dir: dir }
    }
}

} // verus!
