//! Comic records.

use vstd::prelude::*;
use crate::jsonval::JsonValue;
use crate::model::common::{EpisodeItem, PlayLine};

verus! {

use vstd::string::StringExecFns;

/// One comic's full record.
#[derive(Debug, Clone, PartialEq)]
pub struct MangaDetail {
    /// The title.
    pub title: String,
    /// The chapter lines, in order.
    pub play_lines: Vec<PlayLine>,
    /// A cover image.
    pub cover: Option<String>,
    /// The author.
    pub author: Option<String>,
    /// A short introduction.
    pub intro: Option<String>,
    /// A category.
    pub category: Option<String>,
    /// A completion status.
    pub status: Option<String>,
    /// Tags.
    pub tags: Option<String>,
    /// When it was last updated.
    pub update_time: Option<String>,
    /// A score.
    pub score: Option<String>,
    /// The untyped capture.
    pub raw: JsonValue,
}

impl MangaDetail {
    /// A record with only the required fields.
    pub fn new(title: &str) -> (r: Self)
        ensures
            r.title@ == title@,
            r.play_lines@.len() == 0,
            r.cover is None && r.author is None && r.intro is None && r.category is None
                && r.status is None && r.tags is None && r.update_time is None
                && r.score is None,
            r.raw@ is Null,
    {
        MangaDetail {
            title: String::from_str(title),
            play_lines: Vec::new(),
            cover: None,
            author: None,
            intro: None,
            category: None,
            status: None,
            tags: None,
            update_time: None,
            score: None,
            raw: JsonValue::Null,
        }
    }

    /// The record with its chapter lines set.
    pub fn with_play_lines(self, lines: Vec<PlayLine>) -> (r: Self)
        ensures
            r.play_lines == lines,
            r.title@ == self.title@,
    {
        MangaDetail { play_lines: lines, ..self }
    }

    /// Appends one chapter line.
    pub fn add_play_line(&mut self, name: &str, episodes: Vec<EpisodeItem>)
        ensures
            final(self).play_lines@.len() == old(self).play_lines@.len() + 1,
            final(self).play_lines@.last().name@ == name@,
            final(self).play_lines@.last().episodes == episodes,
            final(self).title@ == old(self).title@,
    {
        self.play_lines.push(PlayLine { name: String::from_str(name), episodes });
    }
}

/// One chapter's pages.
#[derive(Debug, Clone, PartialEq)]
pub struct MangaContent {
    /// The page images, in reading order.
    pub images: Vec<String>,
    /// The chapter's title.
    pub title: Option<String>,
    /// The next chapter.
    pub next_url: Option<String>,
    /// The previous chapter.
    pub prev_url: Option<String>,
}

impl MangaContent {
    /// A chapter's pages with nothing else.
    pub fn new(images: Vec<String>) -> (r: Self)
        ensures
            r.images == images,
            r.title is None && r.next_url is None && r.prev_url is None,
    {
        MangaContent { images, title: None, next_url: None, prev_url: None }
    }

    /// The pages with a title set.
    pub fn with_title(self, title: &str) -> (r: Self)
        ensures
            r.title matches Some(t) && t@ == title@,
            r.images == self.images,
    {
        MangaContent { title: Some(String::from_str(title)), ..self }
    }

    /// Appends one page image.
    pub fn add_image(&mut self, url: &str)
        ensures
            final(self).images@.len() == old(self).images@.len() + 1,
            final(self).images@.last()@ == url@,
    {
        self.images.push(String::from_str(url));
    }
}

} // verus!
