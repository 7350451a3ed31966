//! Plain records exchanged with the persistence and user-interface layers.
use vstd::prelude::*;

verus! {

/// An encoded waveform of a track.
#[derive(Clone, Debug)]
pub struct WaveformDTO {
    pub track_id: i64,
    pub data: Vec<u8>,
}

/// A genre as stored.
#[derive(Clone, Debug)]
pub struct GenreDefinition {
    pub id: Option<i64>,
    pub name: String,
    pub color: Option<String>,
    pub sort_order: i32,
}

/// A genre as shown: a genre not stored yet has id 0.
#[derive(Clone, Debug)]
pub struct GenreDefinitionDTO {
    pub id: i64,
    pub name: String,
    pub color: Option<String>,
    pub sort_order: i32,
}

impl From<GenreDefinition> for GenreDefinitionDTO {
    fn from(d: GenreDefinition) -> (r: GenreDefinitionDTO) {
        let id = match d.id {
            Some(i) => i,
            None => 0,
        };
        GenreDefinitionDTO { id, name: d.name, color: d.color, sort_order: d.sort_order }
    }
}

impl vstd::std_specs::convert::FromSpecImpl<GenreDefinition> for GenreDefinitionDTO {
    open spec fn obeys_from_spec() -> bool {
        true
    }

    open spec fn from_spec(d: GenreDefinition) -> GenreDefinitionDTO {
        GenreDefinitionDTO {
            id: match d.id {
                Some(i) => i,
                None => 0,
            },
            name: d.name,
            color: d.color,
            sort_order: d.sort_order,
        }
    }
}

/// How many tracks carry a genre.
#[derive(Clone, Debug)]
pub struct GenreCountDTO {
    pub genre: String,
    pub count: i64,
}

/// A playlist as stored.
#[derive(Clone, Debug)]
pub struct Playlist {
    pub id: Option<i64>,
    pub name: String,
    pub playlist_type: String,
    pub parent_id: Option<i64>,
    pub smart_rules: Option<String>,
    pub ai_prompt: Option<String>,
    pub created_at: Option<String>,
    pub updated_at: Option<String>,
}

/// The library's root folders.
#[derive(Clone, Debug)]
pub struct LibraryFoldersResponse {
    pub folders: Vec<String>,
}

} // verus!
