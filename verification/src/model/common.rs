//! Result records shared across media kinds.

use vstd::prelude::*;
use crate::jsonval::JsonValue;

verus! {

use vstd::string::StringExecFns;

/// One entry of a search or listing result.
#[derive(Debug, Clone, PartialEq)]
pub struct SearchItem {
    /// The entry's title.
    pub title: String,
    /// The entry's detail page.
    pub url: String,
    /// A cover image.
    pub cover: Option<String>,
    /// A short summary.
    pub summary: Option<String>,
    /// The author or creator.
    pub author: Option<String>,
    /// The latest chapter or update mark.
    pub latest: Option<String>,
    /// A score.
    pub score: Option<String>,
    /// A completion status.
    pub status: Option<String>,
    /// A category.
    pub category: Option<String>,
    /// The untyped capture.
    pub raw: JsonValue,
}

impl SearchItem {
    /// An entry with only the required fields.
    pub fn new(title: String, url: String) -> (r: Self)
        ensures
            r.title@ == title@,
            r.url@ == url@,
            r.cover is None && r.summary is None && r.author is None && r.latest is None
                && r.score is None && r.status is None && r.category is None,
            r.raw@ is Null,
    {
        SearchItem {
            title,
            url,
            cover: None,
            summary: None,
            author: None,
            latest: None,
            score: None,
            status: None,
            category: None,
            raw: JsonValue::Null,
        }
    }

    /// The entry with a cover set.
    pub fn with_cover(self, cover: &str) -> (r: Self)
        ensures
            r.cover matches Some(c) && c@ == cover@,
            r.title@ == self.title@,
            r.url@ == self.url@,
    {
        SearchItem { cover: Some(String::from_str(cover)), ..self }
    }

    /// The entry with an author set.
    pub fn with_author(self, author: &str) -> (r: Self)
        ensures
            r.author matches Some(a) && a@ == author@,
            r.title@ == self.title@,
            r.url@ == self.url@,
    {
        SearchItem { author: Some(String::from_str(author)), ..self }
    }

    /// The entry with a summary set.
    pub fn with_summary(self, summary: &str) -> (r: Self)
        ensures
            r.summary matches Some(s) && s@ == summary@,
            r.title@ == self.title@,
            r.url@ == self.url@,
    {
        SearchItem { summary: Some(String::from_str(summary)), ..self }
    }
}

/// One chapter of a book or comic.
#[derive(Debug, Clone, PartialEq)]
pub struct ChapterItem {
    /// The chapter's title.
    pub title: String,
    /// The chapter's page.
    pub url: String,
}

impl ChapterItem {
    /// A chapter.
    pub fn new(title: &str, url: &str) -> (r: Self)
        ensures
            r.title@ == title@,
            r.url@ == url@,
    {
        ChapterItem { title: String::from_str(title), url: String::from_str(url) }
    }
}

/// One episode of a video.
#[derive(Debug, Clone, PartialEq)]
pub struct EpisodeItem {
    /// The episode's name.
    pub name: String,
    /// The episode's play page.
    pub url: String,
}

impl EpisodeItem {
    /// An episode.
    pub fn new(name: &str, url: &str) -> (r: Self)
        ensures
            r.name@ == name@,
            r.url@ == url@,
    {
        EpisodeItem { name: String::from_str(name), url: String::from_str(url) }
    }
}

/// One play line of a video: a named source with its episodes.
#[derive(Debug, Clone, PartialEq)]
pub struct PlayLine {
    /// The line's name.
    pub name: String,
    /// The line's episodes, in order.
    pub episodes: Vec<EpisodeItem>,
}

impl PlayLine {
    /// An empty play line.
    pub fn new(name: &str) -> (r: Self)
        ensures
            r.name@ == name@,
            r.episodes@.len() == 0,
    {
        PlayLine { name: String::from_str(name), episodes: Vec::new() }
    }

    /// Appends one episode.
    pub fn add_episode(&mut self, episode: EpisodeItem)
        ensures
            final(self).episodes@ == old(self).episodes@.push(episode),
            final(self).name@ == old(self).name@,
    {
        self.episodes.push(episode);
    }
}

/// One track of an audio album.
#[derive(Debug, Clone, PartialEq)]
pub struct TrackItem {
    /// The track's name.
    pub name: String,
    /// The track's page.
    pub url: String,
    /// The track's length.
    pub duration: Option<String>,
}

impl TrackItem {
    /// A track without a length.
    pub fn new(name: &str, url: &str) -> (r: Self)
        ensures
            r.name@ == name@,
            r.url@ == url@,
            r.duration is None,
    {
        TrackItem { name: String::from_str(name), url: String::from_str(url), duration: None }
    }

    /// The track with a length set.
    pub fn with_duration(self, duration: &str) -> (r: Self)
        ensures
            r.duration matches Some(d) && d@ == duration@,
            r.name@ == self.name@,
            r.url@ == self.url@,
    {
        TrackItem { duration: Some(String::from_str(duration)), ..self }
    }
}

} // verus!
