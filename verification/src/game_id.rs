//! The games whose plugins can be read, and what each of them fixes in the
//! layout of a plugin file.

use vstd::prelude::*;

verus! {

/// Code of Oblivion at the foreign function boundary.
pub const ESP_GAME_OBLIVION: u32 = 0;

/// Code of Skyrim at the foreign function boundary.
pub const ESP_GAME_SKYRIM: u32 = 1;

/// Code of Fallout 3 at the foreign function boundary.
pub const ESP_GAME_FALLOUT3: u32 = 2;

/// Code of Fallout: New Vegas at the foreign function boundary.
pub const ESP_GAME_FALLOUTNV: u32 = 3;

/// Code of Morrowind at the foreign function boundary.
pub const ESP_GAME_MORROWIND: u32 = 4;

/// Code of Fallout 4 at the foreign function boundary.
pub const ESP_GAME_FALLOUT4: u32 = 5;

/// Code of Skyrim Special Edition at the foreign function boundary.
pub const ESP_GAME_SKYRIMSE: u32 = 6;

/// Code of Fallout 4 VR at the foreign function boundary.
pub const ESP_GAME_FALLOUT4VR: u32 = 7;

/// Code of Skyrim VR at the foreign function boundary.
pub const ESP_GAME_SKYRIMVR: u32 = 8;

/// First object index that a record of a light master may use.
pub const LIGHT_MASTER_FIRST_OBJECT_INDEX: u32 = 0x800;

/// Last object index that a record of a light master may use.
pub const LIGHT_MASTER_LAST_OBJECT_INDEX: u32 = 0xFFF;

/// A game whose plugin files this library reads.
#[derive(Clone, Copy, Debug, PartialEq, Eq, Hash, Structural)]
pub enum GameId {
    Morrowind,
    Oblivion,
    Skyrim,
    SkyrimSE,
    Fallout3,
    FalloutNV,
    Fallout4,
    Fallout4VR,
    SkyrimVR,
}

/// The answer of [`map_game_id`] to a code that stands for no game.
#[derive(Clone, Copy, Debug, PartialEq, Eq, Structural)]
pub struct UnknownGameId {
    /// The code that was given.
    pub code: u32,
}

/// The type of a Morrowind plugin's header record, "TES3".
pub open spec fn tes3_type() -> Seq<u8> {
    seq![0x54u8, 0x45u8, 0x53u8, 0x33u8]
}

/// The type of the header record of every later game's plugin, "TES4".
pub open spec fn tes4_type() -> Seq<u8> {
    seq![0x54u8, 0x45u8, 0x53u8, 0x34u8]
}

impl GameId {
    /// Length in bytes of a record's header.
    pub open spec fn spec_header_length(self) -> usize {
        match self {
            GameId::Morrowind => 16,
            GameId::Oblivion => 20,
            _ => 24,
        }
    }

    /// The four bytes that open a plugin file of this game.
    pub open spec fn spec_top_record_type(self) -> Seq<u8> {
        if self == GameId::Morrowind {
            tes3_type()
        } else {
            tes4_type()
        }
    }

    /// Whether records of this game carry a form id in their header.
    pub open spec fn spec_uses_form_ids(self) -> bool {
        self != GameId::Morrowind
    }

    /// Whether this game knows light masters.
    pub open spec fn spec_supports_light_master(self) -> bool {
        self == GameId::SkyrimSE || self == GameId::Fallout4 || self == GameId::Fallout4VR
    }

    /// The object indices, first and last, open to the records of a light
    /// master, for the games that know light masters.
    pub open spec fn spec_light_master_form_id_range(self) -> Option<(u32, u32)> {
        if self.spec_supports_light_master() {
            Some((LIGHT_MASTER_FIRST_OBJECT_INDEX, LIGHT_MASTER_LAST_OBJECT_INDEX))
        } else {
            None
        }
    }

    /// Length in bytes of a record's header: 16 for Morrowind, 20 for
    /// Oblivion, 24 for every other game.
    #[verifier::when_used_as_spec(spec_header_length)]
    pub fn header_length(self) -> (length: usize)
        ensures
            length == self.spec_header_length(),
    {
        match self {
            GameId::Morrowind => 16,
            GameId::Oblivion => 20,
            _ => 24,
        }
    }

    /// The type of the record that opens a plugin file: "TES3" for
    /// Morrowind, "TES4" for every other game.
    pub fn top_record_type(self) -> (record_type: [u8; 4])
        ensures
            record_type@ == self.spec_top_record_type(),
    {
        match self {
            GameId::Morrowind => {
                let t: [u8; 4] = [0x54, 0x45, 0x53, 0x33];
                assert(t@ =~= tes3_type());
                t
            },
            _ => {
                let t: [u8; 4] = [0x54, 0x45, 0x53, 0x34];
                assert(t@ =~= tes4_type());
                t
            },
        }
    }

    /// Whether records of this game carry a form id in their header: all
    /// but Morrowind's do.
    #[verifier::when_used_as_spec(spec_uses_form_ids)]
    pub fn uses_form_ids(self) -> (uses: bool)
        ensures
            uses == self.spec_uses_form_ids(),
    {
        match self {
            GameId::Morrowind => false,
            _ => true,
        }
    }

    /// Whether this game knows light masters: Skyrim Special Edition,
    /// Fallout 4 and Fallout 4 VR do.
    #[verifier::when_used_as_spec(spec_supports_light_master)]
    pub fn supports_light_master(self) -> (supports: bool)
        ensures
            supports == self.spec_supports_light_master(),
    {
        match self {
            GameId::SkyrimSE | GameId::Fallout4 | GameId::Fallout4VR => true,
            _ => false,
        }
    }

    /// The object indices, first and last, that the records of a light
    /// master may use; `None` for a game without light masters.
    #[verifier::when_used_as_spec(spec_light_master_form_id_range)]
    pub fn light_master_form_id_range(self) -> (range: Option<(u32, u32)>)
        ensures
            range == self.spec_light_master_form_id_range(),
    {
        if self.supports_light_master() {
            Some((LIGHT_MASTER_FIRST_OBJECT_INDEX, LIGHT_MASTER_LAST_OBJECT_INDEX))
        } else {
            None
        }
    }
}

/// The game that a code stands for, where it stands for one.
pub open spec fn game_of_code(code: u32) -> Option<GameId> {
    if code == ESP_GAME_OBLIVION {
        Some(GameId::Oblivion)
    } else if code == ESP_GAME_SKYRIM {
        Some(GameId::Skyrim)
    } else if code == ESP_GAME_FALLOUT3 {
        Some(GameId::Fallout3)
    } else if code == ESP_GAME_FALLOUTNV {
        Some(GameId::FalloutNV)
    } else if code == ESP_GAME_MORROWIND {
        Some(GameId::Morrowind)
    } else if code == ESP_GAME_FALLOUT4 {
        Some(GameId::Fallout4)
    } else if code == ESP_GAME_SKYRIMSE {
        Some(GameId::SkyrimSE)
    } else if code == ESP_GAME_FALLOUT4VR {
        Some(GameId::Fallout4VR)
    } else if code == ESP_GAME_SKYRIMVR {
        Some(GameId::SkyrimVR)
    } else {
        None
    }
}

/// Maps a code that a caller supplies to the game it stands for. A code that
/// stands for no game is handed back in the error.
pub fn map_game_id(code: u32) -> (mapped: Result<GameId, UnknownGameId>)
    ensures
        match game_of_code(code) {
            Some(game_id) => mapped == Ok::<GameId, UnknownGameId>(game_id),
            None => mapped == Err::<GameId, UnknownGameId>(UnknownGameId { code }),
        },
{
    if code == ESP_GAME_OBLIVION {
        Ok(GameId::Oblivion)
    } else if code == ESP_GAME_SKYRIM {
        Ok(GameId::Skyrim)
    } else if code == ESP_GAME_FALLOUT3 {
        Ok(GameId::Fallout3)
    } else if code == ESP_GAME_FALLOUTNV {
        Ok(GameId::FalloutNV)
    } else if code == ESP_GAME_MORROWIND {
        Ok(GameId::Morrowind)
    } else if code == ESP_GAME_FALLOUT4 {
        Ok(GameId::Fallout4)
    } else if code == ESP_GAME_SKYRIMSE {
        Ok(GameId::SkyrimSE)
    } else if code == ESP_GAME_FALLOUT4VR {
        Ok(GameId::Fallout4VR)
    } else if code == ESP_GAME_SKYRIMVR {
        Ok(GameId::SkyrimVR)
    } else {
        Err(UnknownGameId { code })
    }
}

} // verus!
