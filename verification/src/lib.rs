//! Reading of the plugin files of the Elder Scrolls and Fallout games.
//!
//! A plugin is a container of records, each made of subrecords. The framing
//! of both depends on the game. This library decodes that framing, gives each
//! record its identity across plugins (its form id), and answers questions
//! about a plugin from its header record and its form ids.

pub mod bytes;
pub mod error;
pub mod form_id;
pub mod game_id;
pub mod group;
pub mod overlap;
pub mod path;
pub mod plugin;
pub mod reader;
pub mod record;
pub mod subrecord;
pub mod text;

pub use error::{Error, ErrorKind};
pub use form_id::FormId;
pub use game_id::{map_game_id, GameId};
pub use plugin::Plugin;
pub use reader::ByteReader;
pub use record::{Record, RecordHeader};
pub use subrecord::Subrecord;
