//! Video records.

use vstd::prelude::*;
use crate::jsonval::JsonValue;
use crate::model::common::PlayLine;

verus! {

use vstd::string::StringExecFns;

/// One film's or series' full record.
#[derive(Debug, Clone, PartialEq)]
pub struct VideoDetail {
    /// The title.
    pub title: String,
    /// A poster image.
    pub cover: Option<String>,
    /// A plot summary.
    pub intro: Option<String>,
    /// The director.
    pub director: Option<String>,
    /// The cast.
    pub actors: Option<String>,
    /// A category.
    pub category: Option<String>,
    /// Tags.
    pub tags: Option<String>,
    /// The region.
    pub region: Option<String>,
    /// The year.
    pub year: Option<String>,
    /// A score.
    pub score: Option<String>,
    /// The language.
    pub language: Option<String>,
    /// The latest update mark.
    pub update_info: Option<String>,
    /// The running time.
    pub duration: Option<String>,
    /// The play lines, in order.
    pub play_lines: Vec<PlayLine>,
    /// The untyped capture.
    pub raw: JsonValue,
}

impl VideoDetail {
    /// A record with only the required fields.
    pub fn new(title: &str) -> (r: Self)
        ensures
            r.title@ == title@,
            r.cover is None && r.intro is None && r.director is None && r.actors is None
                && r.category is None && r.tags is None && r.region is None && r.year is None
                && r.score is None && r.language is None && r.update_info is None
                && r.duration is None,
            r.play_lines@.len() == 0,
            r.raw@ is Null,
    {
        VideoDetail {
            title: String::from_str(title),
            cover: None,
            intro: None,
            director: None,
            actors: None,
            category: None,
            tags: None,
            region: None,
            year: None,
            score: None,
            language: None,
            update_info: None,
            duration: None,
            play_lines: Vec::new(),
            raw: JsonValue::Null,
        }
    }
}

/// What plays one episode.
#[derive(Debug, Clone, PartialEq)]
pub struct VideoPlay {
    /// The stream address.
    pub play_url: String,
    /// The episode's title.
    pub title: Option<String>,
    /// The stream's quality mark.
    pub quality: Option<String>,
}

impl VideoPlay {
    /// A play record with only the stream address.
    pub fn new(play_url: &str) -> (r: Self)
        ensures
            r.play_url@ == play_url@,
            r.title is None && r.quality is None,
    {
        VideoPlay { play_url: String::from_str(play_url), title: None, quality: None }
    }

    /// The record with a title set.
    pub fn with_title(self, title: &str) -> (r: Self)
        ensures
            r.title matches Some(t) && t@ == title@,
            r.play_url@ == self.play_url@,
    {
        VideoPlay { title: Some(String::from_str(title)), ..self }
    }

    /// The record with a quality mark set.
    pub fn with_quality(self, quality: &str) -> (r: Self)
        ensures
            r.quality matches Some(q) && q@ == quality@,
            r.play_url@ == self.play_url@,
    {
        VideoPlay { quality: Some(String::from_str(quality)), ..self }
    }
}

} // verus!
