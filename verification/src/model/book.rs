//! Book records.

use vstd::prelude::*;
use crate::jsonval::JsonValue;
use crate::model::common::ChapterItem;

verus! {

use vstd::string::StringExecFns;

/// One book's full record.
#[derive(Debug, Clone, PartialEq)]
pub struct BookDetail {
    /// The book's title.
    pub title: String,
    /// The book's author.
    pub author: String,
    /// A cover image.
    pub cover: Option<String>,
    /// A short introduction.
    pub intro: Option<String>,
    /// A category.
    pub category: Option<String>,
    /// Tags.
    pub tags: Option<String>,
    /// A completion status.
    pub status: Option<String>,
    /// The latest chapter.
    pub last_chapter: Option<String>,
    /// When the book was last updated.
    pub update_time: Option<String>,
    /// A word count.
    pub word_count: Option<String>,
    /// A table-of-contents page.
    pub toc_url: Option<String>,
    /// The chapters, in document order.
    pub chapters: Vec<ChapterItem>,
    /// The untyped capture.
    pub raw: JsonValue,
}

impl BookDetail {
    /// A record with only the required fields.
    pub fn new(title: &str, author: &str) -> (r: Self)
        ensures
            r.title@ == title@,
            r.author@ == author@,
            r.cover is None && r.intro is None && r.category is None && r.tags is None
                && r.status is None && r.last_chapter is None && r.update_time is None
                && r.word_count is None && r.toc_url is None,
            r.chapters@.len() == 0,
            r.raw@ is Null,
    {
        BookDetail {
            title: String::from_str(title),
            author: String::from_str(author),
            cover: None,
            intro: None,
            category: None,
            tags: None,
            status: None,
            last_chapter: None,
            update_time: None,
            word_count: None,
            toc_url: None,
            chapters: Vec::new(),
            raw: JsonValue::Null,
        }
    }
}

/// One chapter's text.
#[derive(Debug, Clone, PartialEq)]
pub struct BookContent {
    /// The chapter's text.
    pub content: String,
    /// The chapter's title.
    pub title: Option<String>,
    /// The previous page.
    pub prev_url: Option<String>,
    /// The next page.
    pub next_url: Option<String>,
}

impl BookContent {
    /// A chapter's text with nothing else.
    pub fn new(content: &str) -> (r: Self)
        ensures
            r.content@ == content@,
            r.title is None && r.prev_url is None && r.next_url is None,
    {
        BookContent {
            content: String::from_str(content),
            title: None,
            prev_url: None,
            next_url: None,
        }
    }

    /// The text with a title set.
    pub fn with_title(self, title: &str) -> (r: Self)
        ensures
            r.title matches Some(t) && t@ == title@,
            r.content@ == self.content@,
    {
        BookContent { title: Some(String::from_str(title)), ..self }
    }

    /// The text with its neighbouring pages set.
    pub fn with_pagination(self, prev: Option<String>, next: Option<String>) -> (r: Self)
        ensures
            r.prev_url == prev,
            r.next_url == next,
            r.content@ == self.content@,
    {
        BookContent { prev_url: prev, next_url: next, ..self }
    }
}

} // verus!
