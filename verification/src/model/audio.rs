//! Audio records.

use vstd::prelude::*;
use crate::jsonval::JsonValue;
use crate::model::common::TrackItem;

verus! {

use vstd::string::StringExecFns;

/// One album's or show's full record.
#[derive(Debug, Clone, PartialEq)]
pub struct AudioDetail {
    /// The title.
    pub title: String,
    /// The artist or author.
    pub artist: Option<String>,
    /// A cover image.
    pub cover: Option<String>,
    /// A short introduction.
    pub intro: Option<String>,
    /// The album's name.
    pub album: Option<String>,
    /// A category.
    pub category: Option<String>,
    /// Tags.
    pub tags: Option<String>,
    /// When it was last updated.
    pub update_time: Option<String>,
    /// A play count.
    pub play_count: Option<String>,
    /// The tracks, in order.
    pub tracks: Vec<TrackItem>,
    /// The untyped capture.
    pub raw: JsonValue,
}

impl AudioDetail {
    /// A record with only the required fields.
    pub fn new(title: &str) -> (r: Self)
        ensures
            r.title@ == title@,
            r.artist is None && r.cover is None && r.intro is None && r.album is None
                && r.category is None && r.tags is None && r.update_time is None
                && r.play_count is None,
            r.tracks@.len() == 0,
            r.raw@ is Null,
    {
        AudioDetail {
            title: String::from_str(title),
            artist: None,
            cover: None,
            intro: None,
            album: None,
            category: None,
            tags: None,
            update_time: None,
            play_count: None,
            tracks: Vec::new(),
            raw: JsonValue::Null,
        }
    }
}

/// What plays one track.
#[derive(Debug, Clone, PartialEq)]
pub struct AudioPlay {
    /// The stream address.
    pub play_url: String,
    /// The track's title.
    pub title: Option<String>,
    /// The artist.
    pub artist: Option<String>,
    /// A cover image.
    pub cover: Option<String>,
    /// Lyrics.
    pub lyrics: Option<String>,
    /// The track's length.
    pub duration: Option<String>,
}

impl AudioPlay {
    /// A play record with only the stream address.
    pub fn new(play_url: &str) -> (r: Self)
        ensures
            r.play_url@ == play_url@,
            r.title is None && r.artist is None && r.cover is None && r.lyrics is None
                && r.duration is None,
    {
        AudioPlay {
            play_url: String::from_str(play_url),
            title: None,
            artist: None,
            cover: None,
            lyrics: None,
            duration: None,
        }
    }

    /// The record with a title set.
    pub fn with_title(self, title: &str) -> (r: Self)
        ensures
            r.title matches Some(t) && t@ == title@,
            r.play_url@ == self.play_url@,
    {
        AudioPlay { title: Some(String::from_str(title)), ..self }
    }

    /// The record with an artist set.
    pub fn with_artist(self, artist: &str) -> (r: Self)
        ensures
            r.artist matches Some(a) && a@ == artist@,
            r.play_url@ == self.play_url@,
    {
        AudioPlay { artist: Some(String::from_str(artist)), ..self }
    }
}

} // verus!
