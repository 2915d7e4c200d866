//! The detail flow's computing side: seeding the context, rendering the
//! URL, and shaping the fetched page into a typed record. Fetching itself
//! is the host's job; it hands the body text in.

use vstd::prelude::*;
use crate::error::{CrawlerError, ErrModel};
use crate::extract::context::{Context, CtxModel};
use crate::extract::engine::{ExtractEngine, eval_extract_field};
use crate::extract::step::FieldExtractor;
use crate::jsonval::{JsonModel, JsonValue};
use crate::model::book::BookDetail;
use crate::model::common::ChapterItem;
use crate::template::Template;
use crate::text::{trim_seq, trim_chars, str_to_chars, chars_to_string};
use crate::value::{ExtractValueData, ValModel, val_text, val_model_seq, lemma_val_model_seq};

verus! {

use vstd::string::StringExecFns;

broadcast use vstd::std_specs::vec::group_vec_axioms;

/// The extractors of a book's detail page.
#[derive(Debug)]
pub struct BookDetailFields {
    /// The book's title; required.
    pub title: FieldExtractor,
    /// The book's author; required.
    pub author: FieldExtractor,
    /// A cover image.
    pub cover: Option<FieldExtractor>,
    /// A short introduction.
    pub intro: Option<FieldExtractor>,
    /// A category.
    pub category: Option<FieldExtractor>,
    /// A completion status.
    pub status: Option<FieldExtractor>,
    /// The latest chapter.
    pub last_chapter: Option<FieldExtractor>,
    /// A word count.
    pub word_count: Option<FieldExtractor>,
    /// How the chapter list is read.
    pub chapters: Option<ChapterListRule>,
}

/// How a chapter list is read: the list of chapter snippets, and the title
/// and link inside each.
#[derive(Debug)]
pub struct ChapterListRule {
    /// Yields the chapter snippets.
    pub list: FieldExtractor,
    /// Reads one chapter's title from its snippet.
    pub title: FieldExtractor,
    /// Reads one chapter's link from its snippet.
    pub url: FieldExtractor,
}

/// The field set of a detail flow, by media kind.
#[derive(Debug)]
pub enum DetailFields {
    /// A book's fields.
    Book(BookDetailFields),
    /// A video's fields; shaping is not wired up yet.
    Video,
    /// An audio record's fields; shaping is not wired up yet.
    Audio,
    /// A comic's fields; shaping is not wired up yet.
    Manga,
}

/// A detail flow ready to run: the URL template and the field set.
#[derive(Debug)]
pub struct DetailPlan {
    /// The page to fetch, rendered against the context.
    pub url: Template,
    /// The fields to shape.
    pub fields: DetailFields,
}

/// One detail request.
#[derive(Debug, Clone, PartialEq)]
pub struct DetailRequest {
    /// The page the caller wants.
    pub url: String,
}

/// One detail result.
#[derive(Debug, Clone, PartialEq)]
pub enum DetailResponse {
    /// A book's record.
    Book(Box<BookDetail>),
    /// Any other kind, as untyped JSON.
    Other(JsonValue),
}

/// The first string an object binds to `key`, or nothing.
pub open spec fn obj_str(j: JsonModel, key: Seq<char>) -> Option<Seq<char>> {
    match j {
        JsonModel::Obj(entries) => match crate::extract::executor::json_obj_lookup(entries, key) {
            Some(JsonModel::Str(s)) => Some(s),
            _ => None,
        },
        _ => None,
    }
}

fn obj_str_get<'a>(j: &'a JsonValue, key: &str) -> (r: Option<&'a str>)
    ensures
        match r {
            Some(s) => obj_str(j@, key@) == Some(s@),
            None => obj_str(j@, key@) is None,
        },
{
    match j {
        JsonValue::Obj(entries) => {
            proof {
                crate::jsonval::lemma_json_model_entries(entries@);
                assert(crate::jsonval::json_model_entries(entries@).skip(0)
                    =~= crate::jsonval::json_model_entries(entries@));
            }
            let keyv = str_to_chars(key);
            match crate::extract::executor::json_obj_get_pub(entries, &keyv, 0) {
                Some(JsonValue::Str(s)) => Some(s.as_str()),
                _ => None,
            }
        },
        _ => None,
    }
}

impl DetailResponse {
    /// The record's title: a book's own, or the `title` string of the
    /// untyped capture, or empty.
    pub fn title(&self) -> (r: &str)
        ensures
            self is Book ==> r@ == self->Book_0.title@,
            self is Other ==> r@ == match obj_str(self->Other_0@, "title"@) {
                Some(s) => s,
                None => Seq::<char>::empty(),
            },
    {
        match self {
            DetailResponse::Book(b) => {
                let s = b.title.as_str();
                proof {
                    assert(s@ == b.title@);
                }
                s
            },
            DetailResponse::Other(v) => match obj_str_get(v, "title") {
                Some(s) => s,
                None => {
                    proof {
                        reveal_strlit("");
                        assert(""@ =~= Seq::<char>::empty());
                    }
                    ""
                },
            },
        }
    }

    /// The record's author, read like the title.
    pub fn author(&self) -> (r: &str)
        ensures
            self is Book ==> r@ == self->Book_0.author@,
            self is Other ==> r@ == match obj_str(self->Other_0@, "author"@) {
                Some(s) => s,
                None => Seq::<char>::empty(),
            },
    {
        match self {
            DetailResponse::Book(b) => b.author.as_str(),
            DetailResponse::Other(v) => match obj_str_get(v, "author") {
                Some(s) => s,
                None => {
                    proof {
                        reveal_strlit("");
                        assert(""@ =~= Seq::<char>::empty());
                    }
                    ""
                },
            },
        }
    }

    /// The record's introduction, when it has one.
    pub fn intro(&self) -> (r: Option<&str>)
        ensures
            self is Book ==> (match r {
                Some(s) => self->Book_0.intro matches Some(t) && s@ == t@,
                None => self->Book_0.intro is None,
            }),
            self is Other ==> (match r {
                Some(s) => obj_str(self->Other_0@, "intro"@) == Some(s@),
                None => obj_str(self->Other_0@, "intro"@) is None,
            }),
    {
        match self {
            DetailResponse::Book(b) => match &b.intro {
                Some(t) => Some(t.as_str()),
                None => None,
            },
            DetailResponse::Other(v) => obj_str_get(v, "intro"),
        }
    }
}

/// What `extract_string` yields: the field's value when it is textual and
/// non-blank after trimming, and nothing otherwise.
pub open spec fn extract_string_model(fx: crate::extract::step::FieldExtractorModel,
    input: ValModel, ctx: CtxModel, depth: nat) -> Option<Seq<char>>
{
    match eval_extract_field(fx, input, ctx, depth) {
        Ok(v) => if (v is Str || v is Html) && trim_seq(val_text(v)).len() > 0 {
            Some(trim_seq(val_text(v)))
        } else {
            None
        },
        Err(_) => None,
    }
}

/// Runs one extractor and keeps a textual, non-blank result, trimmed.
pub fn extract_string(extractor: &FieldExtractor, input: &ExtractValueData, context: &Context)
    -> (r: Option<String>)
    ensures
        match r {
            Some(s) => extract_string_model(extractor@, input@, context@, context@.max_depth as nat)
                == Some(s@),
            None => extract_string_model(extractor@, input@, context@, context@.max_depth as nat) is None,
        },
{
    match ExtractEngine::extract_field(extractor, input, context) {
        Ok(v) => match v.as_str() {
            Some(s) => {
                let chars = str_to_chars(s);
                let trimmed = trim_chars(&chars);
                if trimmed.len() > 0 {
                    Some(chars_to_string(&trimmed))
                } else {
                    None
                }
            },
            None => None,
        },
        Err(_) => None,
    }
}


/// The chapters shaped from the list's items: the items whose title and
/// link both read as non-blank text, in order.
pub open spec fn chapter_pairs(title_fx: crate::extract::step::FieldExtractorModel,
    url_fx: crate::extract::step::FieldExtractorModel, items: Seq<ValModel>, ctx: CtxModel, depth: nat)
    -> Seq<(Seq<char>, Seq<char>)>
    decreases items.len(),
{
    if items.len() == 0 {
        Seq::<(Seq<char>, Seq<char>)>::empty()
    } else {
        let rest = chapter_pairs(title_fx, url_fx, items.skip(1), ctx, depth);
        match (extract_string_model(title_fx, items[0], ctx, depth),
            extract_string_model(url_fx, items[0], ctx, depth)) {
            (Some(t), Some(u)) => seq![(t, u)] + rest,
            _ => rest,
        }
    }
}

/// What the chapter engine produces: the list extractor's error when it
/// fails; the shaped chapters when it yields an array; no chapters when it
/// yields anything else.
pub open spec fn chapters_model(rule_list: crate::extract::step::FieldExtractorModel,
    rule_title: crate::extract::step::FieldExtractorModel,
    rule_url: crate::extract::step::FieldExtractorModel,
    input: ValModel, ctx: CtxModel, depth: nat)
    -> Result<Seq<(Seq<char>, Seq<char>)>, ErrModel>
{
    match eval_extract_field(rule_list, input, ctx, depth) {
        Err(e) => Err(e),
        Ok(ValModel::Arr(items)) => Ok(chapter_pairs(rule_title, rule_url, items, ctx, depth)),
        Ok(_) => Ok(Seq::<(Seq<char>, Seq<char>)>::empty()),
    }
}

/// The views of shaped chapters, in order.
pub open spec fn chapter_views(chapters: Seq<ChapterItem>) -> Seq<(Seq<char>, Seq<char>)> {
    Seq::new(chapters.len(), |i: int| (chapters[i].title@, chapters[i].url@))
}

fn chapters_from_items(rule: &ChapterListRule, items: &Vec<ExtractValueData>, i: usize, context: &Context)
    -> (out: Vec<ChapterItem>)
    requires
        i <= items@.len(),
    ensures
        chapter_views(out@) == chapter_pairs(rule.title@, rule.url@,
            val_model_seq(items@).skip(i as int), context@, context@.max_depth as nat),
    decreases items@.len() - i,
{
    proof {
        lemma_val_model_seq(items@);
    }
    let ghost m = val_model_seq(items@);
    if i == items.len() {
        let out: Vec<ChapterItem> = Vec::new();
        proof {
            assert(m.skip(i as int).len() == 0);
            assert(chapter_views(out@) =~= chapter_pairs(rule.title@, rule.url@,
                m.skip(i as int), context@, context@.max_depth as nat));
        }
        out
    } else {
        proof {
            assert(m.skip(i as int)[0] == m[i as int]);
            assert(m.skip(i as int).skip(1) =~= m.skip(i + 1));
        }
        let mut rest = chapters_from_items(rule, items, i + 1, context);
        let title = extract_string(&rule.title, &items[i], context);
        let url = extract_string(&rule.url, &items[i], context);
        match (title, url) {
            (Some(t), Some(u)) => {
                let ghost prev = rest@;
                rest.insert(0, ChapterItem { title: t, url: u });
                proof {
                    let want = chapter_pairs(rule.title@, rule.url@, m.skip(i as int),
                        context@, context@.max_depth as nat);
                    assert forall|k: int| 0 <= k < rest@.len()
                        implies chapter_views(rest@)[k] == want[k] by {
                        if k > 0 {
                            assert(rest@[k] == prev[k - 1]);
                        }
                    }
                    assert(chapter_views(rest@) =~= want);
                }
                rest
            },
            _ => rest,
        }
    }
}

/// Runs a detail plan's computing side; the host fetches pages.
#[derive(Debug)]
pub struct DetailFlowExecutor {
    /// The plan this executor runs.
    pub plan: DetailPlan,
    /// The engine that runs field extractors.
    pub engine: ExtractEngine,
    /// The base URL relative links resolve against.
    pub base_url: String,
}

impl DetailFlowExecutor {
    /// An executor over one plan.
    pub fn new(plan: DetailPlan) -> (r: Self)
        ensures
            r.plan == plan,
            r.base_url@ == Seq::<char>::empty(),
    {
        DetailFlowExecutor { plan, engine: ExtractEngine::new(), base_url: String::new() }
    }

    /// The executor with another extraction engine.
    pub fn with_extract_engine(self, engine: ExtractEngine) -> (r: Self)
        ensures
            r.plan == self.plan,
            r.base_url@ == self.base_url@,
    {
        DetailFlowExecutor { engine, ..self }
    }

    /// The executor with a base URL for relative links.
    pub fn with_base_url(self, base_url: String) -> (r: Self)
        ensures
            r.plan == self.plan,
            r.base_url@ == base_url@,
    {
        DetailFlowExecutor { base_url, ..self }
    }

    /// The plan this executor runs.
    pub fn plan(&self) -> (r: &DetailPlan)
        ensures
            r == self.plan,
    {
        &self.plan
    }

    /// Seeds the context with the request and renders the page to fetch:
    /// the `detail_url` variable is published, then the plan's URL template
    /// renders against the context.
    pub fn prepare_url(&self, request: &DetailRequest, context: &mut Context)
        -> (r: Result<String, CrawlerError>)
        ensures
            final(context)@ == (CtxModel {
                vars: old(context)@.vars.push(("detail_url"@, JsonModel::Str(request.url@))),
                ..old(context)@
            }),
            match r {
                Ok(s) => crate::template::parse_template(self.plan.url@, 0) is Some
                    && crate::template::render_parts(
                        crate::template::parse_template(self.plan.url@, 0)->Some_0,
                        final(context)@.vars,
                    ) == Ok::<Seq<char>, ErrModel>(s@),
                Err(e) => (crate::template::parse_template(self.plan.url@, 0) is None
                    && e@ == (ErrModel::TemplateSyntax { message: "malformed placeholder"@ }))
                    || (crate::template::parse_template(self.plan.url@, 0) is Some
                        && crate::template::render_parts(
                            crate::template::parse_template(self.plan.url@, 0)->Some_0,
                            final(context)@.vars,
                        ) == Err::<Seq<char>, ErrModel>(e@)),
            },
    {
        context.set("detail_url", JsonValue::Str(request.url.clone()));
        self.plan.url.render(context)
    }

    /// Shapes a fetched page into the plan's record kind: a book is shaped
    /// field by field; the other kinds come back as an untyped capture
    /// naming their kind.
    pub fn extract_detail(&self, html_text: &str, context: &Context)
        -> (r: Result<DetailResponse, CrawlerError>)
        ensures
            match self.plan.fields {
                DetailFields::Book(fields) => match r {
                    Ok(v) => v matches DetailResponse::Book(b)
                        && book_extract_post(fields, ValModel::Html(html_text@), context@,
                            Ok(*b)),
                    Err(e) => book_extract_post(fields, ValModel::Html(html_text@), context@,
                        Err(e)),
                },
                DetailFields::Video => r matches Ok(v) && (v matches DetailResponse::Other(j)
                    && obj_str(j@, "type"@) == Some("video"@)),
                DetailFields::Audio => r matches Ok(v) && (v matches DetailResponse::Other(j)
                    && obj_str(j@, "type"@) == Some("audio"@)),
                DetailFields::Manga => r matches Ok(v) && (v matches DetailResponse::Other(j)
                    && obj_str(j@, "type"@) == Some("manga"@)),
            },
    {
        let html = ExtractValueData::Html(String::from_str(html_text));
        match &self.plan.fields {
            DetailFields::Book(fields) => match Self::extract_book_detail(fields, &html, context) {
                Ok(book) => Ok(DetailResponse::Book(Box::new(book))),
                Err(e) => Err(e),
            },
            DetailFields::Video => Ok(DetailResponse::Other(kind_capture("video"))),
            DetailFields::Audio => Ok(DetailResponse::Other(kind_capture("audio"))),
            DetailFields::Manga => Ok(DetailResponse::Other(kind_capture("manga"))),
        }
    }

    /// Shapes a book's record: the title and author are required and fail
    /// extraction when blank; the other fields are kept only when they read
    /// as non-blank text; chapters come from the chapter rule, a failing
    /// chapter list aborting the record.
    pub fn extract_book_detail(fields: &BookDetailFields, html: &ExtractValueData, context: &Context)
        -> (r: Result<BookDetail, CrawlerError>)
        ensures
            book_extract_post(*fields, html@, context@, r),
    {
        let title = match extract_string(&fields.title, html, context) {
            Some(t) => t,
            None => {
                return Err(CrawlerError::Extraction(String::from_str("无法提取标题")));
            },
        };
        let author = match extract_string(&fields.author, html, context) {
            Some(a) => a,
            None => {
                return Err(CrawlerError::Extraction(String::from_str("无法提取作者")));
            },
        };
        let cover = opt_field(&fields.cover, html, context);
        let intro = opt_field(&fields.intro, html, context);
        let category = opt_field(&fields.category, html, context);
        let status = opt_field(&fields.status, html, context);
        let last_chapter = opt_field(&fields.last_chapter, html, context);
        let word_count = opt_field(&fields.word_count, html, context);
        let chapters: Vec<ChapterItem> = match &fields.chapters {
            Some(rule) => {
                match ExtractEngine::extract_field(&rule.list, html, context) {
                    Err(e) => {
                        return Err(e);
                    },
                    Ok(listed) => match &listed {
                        ExtractValueData::Array(items) => {
                            proof {
                                assert(val_model_seq(items@).skip(0) =~= val_model_seq(items@));
                            }
                            chapters_from_items(rule, items, 0, context)
                        },
                        _ => {
                            let empty: Vec<ChapterItem> = Vec::new();
                            proof {
                                assert(chapter_views(empty@)
                                    =~= Seq::<(Seq<char>, Seq<char>)>::empty());
                            }
                            empty
                        },
                    },
                }
            },
            None => Vec::new(),
        };
        let raw = JsonValue::Obj(Vec::new());
        proof {
            assert(raw@ == JsonModel::Obj(Seq::<(Seq<char>, JsonModel)>::empty()));
        }
        Ok(BookDetail {
            title,
            author,
            cover,
            intro,
            category,
            status,
            tags: None,
            last_chapter,
            update_time: None,
            word_count,
            toc_url: None,
            chapters,
            raw,
        })
    }
}

/// What shaping a book's record guarantees: the required title and author
/// are the non-blank texts their extractors read, failing with a message
/// naming the missing one; each optional field is kept exactly when its
/// extractor reads non-blank text; the chapters are the shaped pairs of the
/// chapter rule, whose list error aborts the record; the untyped capture
/// starts as an empty object.
pub open spec fn book_extract_post(fields: BookDetailFields, input: ValModel, ctx: CtxModel,
    r: Result<BookDetail, CrawlerError>) -> bool
{
    let d = ctx.max_depth as nat;
    let ttl = extract_string_model(fields.title@, input, ctx, d);
    let auth = extract_string_model(fields.author@, input, ctx, d);
    match r {
        Ok(book) => {
            &&& ttl matches Some(t) && book.title@ == t
            &&& auth matches Some(a) && book.author@ == a
            &&& opt_view(book.cover) == opt_field_model(fields.cover, input, ctx, d)
            &&& opt_view(book.intro) == opt_field_model(fields.intro, input, ctx, d)
            &&& opt_view(book.category) == opt_field_model(fields.category, input, ctx, d)
            &&& opt_view(book.status) == opt_field_model(fields.status, input, ctx, d)
            &&& opt_view(book.last_chapter) == opt_field_model(fields.last_chapter, input, ctx, d)
            &&& opt_view(book.word_count) == opt_field_model(fields.word_count, input, ctx, d)
            &&& book.tags is None && book.update_time is None && book.toc_url is None
            &&& book.raw@ == JsonModel::Obj(Seq::<(Seq<char>, JsonModel)>::empty())
            &&& match fields.chapters {
                Some(cr) => (chapters_model(cr.list@, cr.title@, cr.url@, input, ctx, d)
                    matches Ok(pairs) && chapter_views(book.chapters@) == pairs),
                None => book.chapters@.len() == 0,
            }
        },
        Err(e) => {
            ||| (ttl is None && e@ == ErrModel::Extraction("无法提取标题"@))
            ||| (ttl is Some && auth is None && e@ == ErrModel::Extraction("无法提取作者"@))
            ||| (ttl is Some && auth is Some && (fields.chapters matches Some(cr)
                && chapters_model(cr.list@, cr.title@, cr.url@, input, ctx, d)
                    == Err::<Seq<(Seq<char>, Seq<char>)>, ErrModel>(e@)))
        },
    }
}

/// The text of an optional string.
pub open spec fn opt_view(o: Option<String>) -> Option<Seq<char>> {
    match o {
        Some(s) => Some(s@),
        None => None,
    }
}

/// What an optional field yields: nothing when undeclared, else what its
/// extractor reads as non-blank text.
pub open spec fn opt_field_model(fx: Option<FieldExtractor>, input: ValModel, ctx: CtxModel, depth: nat)
    -> Option<Seq<char>>
{
    match fx {
        Some(f) => extract_string_model(f@, input, ctx, depth),
        None => None,
    }
}

fn opt_field(fx: &Option<FieldExtractor>, input: &ExtractValueData, context: &Context)
    -> (r: Option<String>)
    ensures
        opt_view(r) == opt_field_model(*fx, input@, context@, context@.max_depth as nat),
{
    match fx {
        Some(f) => extract_string(f, input, context),
        None => None,
    }
}

fn kind_capture(kind: &str) -> (r: JsonValue)
    ensures
        obj_str(r@, "type"@) == Some(kind@),
{
    let mut entries: Vec<(String, JsonValue)> = Vec::new();
    entries.push((String::from_str("type"), JsonValue::Str(String::from_str(kind))));
    let r = JsonValue::Obj(entries);
    proof {
        crate::jsonval::lemma_json_model_entries(entries@);
        let m = crate::jsonval::json_model_entries(entries@);
        assert(m[0] == ("type"@, JsonModel::Str(kind@)));
        assert(crate::extract::executor::json_obj_lookup(m, "type"@) == Some(JsonModel::Str(kind@)));
    }
    r
}

} // verus!
