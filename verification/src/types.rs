//! Identifiers and the small enumerations the rule model is built from.

use vstd::prelude::*;
use crate::error::{CrawlerError, ErrModel};
use crate::text::{matches_at, str_to_chars, match_at};

verus! {

use vstd::string::StrSliceExecFns;
use vstd::string::StringExecFns;

/// Whether a character may open an identifier.
pub open spec fn ident_start_char(c: char) -> bool {
    ('a' <= c && c <= 'z') || ('A' <= c && c <= 'Z') || c == '_'
}

/// Whether a character may continue an identifier.
pub open spec fn ident_part_char(c: char) -> bool {
    ident_start_char(c) || ('0' <= c && c <= '9')
}

/// A well-formed identifier: letters, digits and underscores, not opening
/// with a digit, and never empty.
pub open spec fn ident_valid(s: Seq<char>) -> bool {
    &&& s.len() > 0
    &&& ident_start_char(s[0])
    &&& forall|k: int| 0 <= k < s.len() ==> ident_part_char(#[trigger] s[k])
}

/// A validated name for a variable, component, flow or module.
#[derive(Debug, PartialEq, Eq, Hash)]
pub struct Identifier(String);

impl View for Identifier {
    type V = Seq<char>;

    closed spec fn view(&self) -> Seq<char> {
        self.0@
    }
}

impl Identifier {
    /// A new identifier; a string that is not well-formed is rejected.
    pub fn new(s: &str) -> (r: Result<Identifier, CrawlerError>)
        ensures
            match r {
                Ok(id) => ident_valid(s@) && id@ == s@,
                Err(e) => !ident_valid(s@) && e@ == (ErrModel::InvalidIdentifier {
                    identifier: s@,
                    reason: "标识符必须以字母或下划线开头，只能包含字母、数字和下划线"@,
                }),
            },
    {
        if Self::is_valid(s) {
            Ok(Identifier(String::from_str(s)))
        } else {
            Err(CrawlerError::InvalidIdentifier {
                identifier: String::from_str(s),
                reason: String::from_str("标识符必须以字母或下划线开头，只能包含字母、数字和下划线"),
            })
        }
    }

    /// A new identifier, for a name already known to be well-formed;
    /// nothing is checked.
    pub fn new_unchecked(s: &str) -> (r: Identifier)
        ensures
            r@ == s@,
    {
        Identifier(String::from_str(s))
    }

    /// Whether a string is a well-formed identifier.
    pub fn is_valid(s: &str) -> (r: bool)
        ensures
            r == ident_valid(s@),
    {
        let v = str_to_chars(s);
        if v.len() == 0 {
            return false;
        }
        let c0 = v[0];
        if !((c0 >= 'a' && c0 <= 'z') || (c0 >= 'A' && c0 <= 'Z') || c0 == '_') {
            return false;
        }
        let mut i: usize = 0;
        while i < v.len()
            invariant
                i <= v@.len(),
                v@ == s@,
                forall|k: int| 0 <= k < i ==> ident_part_char(#[trigger] v@[k]),
            decreases v@.len() - i,
        {
            let c = v[i];
            if !((c >= 'a' && c <= 'z') || (c >= 'A' && c <= 'Z') || c == '_'
                || (c >= '0' && c <= '9')) {
                return false;
            }
            i = i + 1;
        }
        true
    }

    /// The identifier's text.
    pub fn as_str(&self) -> (r: &str)
        ensures
            r@ == self@,
    {
        self.0.as_str()
    }

    /// The identifier's text, as an owned string.
    pub fn into_string(self) -> (r: String)
        ensures
            r@ == self@,
    {
        self.0
    }
}

impl Clone for Identifier {
    /// A clone carries the same name.
    fn clone(&self) -> (r: Self)
        ensures
            r@ == self@,
    {
        Identifier(self.0.clone())
    }
}

/// A group of related filter options a listing offers, such as a region or
/// a year.
#[derive(Debug, Clone, PartialEq)]
pub struct FilterGroup {
    /// The group's display name.
    pub name: String,
    /// The key this group fills in the URL template.
    pub key: String,
    /// Whether several options may be chosen at once.
    pub multiselect: bool,
    /// The options on offer.
    pub options: Vec<FilterOption>,
}

/// One choice inside a filter group.
#[derive(Debug, Clone, PartialEq)]
pub struct FilterOption {
    /// The option's display name.
    pub name: String,
    /// The value substituted for the group's key.
    pub value: String,
}

/// The kind of media a rule extracts.
#[derive(Debug, Clone, Copy, PartialEq, Eq, Hash, Structural)]
pub enum MediaType {
    /// Films and series.
    Video,
    /// Music and podcasts.
    Audio,
    /// Novels and other books.
    Book,
    /// Comics.
    Manga,
}

impl Default for MediaType {
    /// Video is the default media kind.
    fn default() -> (r: Self)
        ensures
            r == MediaType::Video,
    {
        MediaType::Video
    }
}

impl MediaType {
    /// The display name of the media kind.
    pub fn display_name(&self) -> (r: &'static str)
        ensures
            match self {
                MediaType::Video => r@ == "视频"@,
                MediaType::Audio => r@ == "音频"@,
                MediaType::Book => r@ == "书籍"@,
                MediaType::Manga => r@ == "漫画"@,
            },
    {
        match self {
            MediaType::Video => "视频",
            MediaType::Audio => "音频",
            MediaType::Book => "书籍",
            MediaType::Manga => "漫画",
        }
    }
}

/// The HTTP method of a request step.
#[derive(Debug, Clone, Copy, PartialEq, Eq, Hash, Structural)]
pub enum HttpMethod {
    /// Fetch a resource.
    Get,
    /// Submit data.
    Post,
    /// Replace a resource.
    Put,
    /// Remove a resource.
    Delete,
    /// Fetch headers only.
    Head,
    /// Ask which methods are supported.
    Options,
    /// Change part of a resource.
    Patch,
}

impl Default for HttpMethod {
    /// GET is the default method.
    fn default() -> (r: Self)
        ensures
            r == HttpMethod::Get,
    {
        HttpMethod::Get
    }
}

impl HttpMethod {
    /// Whether requests with this method carry a body.
    pub fn has_body(&self) -> (r: bool)
        ensures
            r == (*self == HttpMethod::Post || *self == HttpMethod::Put
                || *self == HttpMethod::Patch),
    {
        matches!(self, HttpMethod::Post | HttpMethod::Put | HttpMethod::Patch)
    }

    /// The method's name on the wire.
    pub fn as_str(&self) -> (r: &'static str)
        ensures
            match self {
                HttpMethod::Get => r@ == "GET"@,
                HttpMethod::Post => r@ == "POST"@,
                HttpMethod::Put => r@ == "PUT"@,
                HttpMethod::Delete => r@ == "DELETE"@,
                HttpMethod::Head => r@ == "HEAD"@,
                HttpMethod::Options => r@ == "OPTIONS"@,
                HttpMethod::Patch => r@ == "PATCH"@,
            },
    {
        match self {
            HttpMethod::Get => "GET",
            HttpMethod::Post => "POST",
            HttpMethod::Put => "PUT",
            HttpMethod::Delete => "DELETE",
            HttpMethod::Head => "HEAD",
            HttpMethod::Options => "OPTIONS",
            HttpMethod::Patch => "PATCH",
        }
    }
}

/// The engine a script runs under.
#[derive(Debug, Clone, Copy, PartialEq, Eq, Hash, Structural)]
pub enum ScriptEngine {
    /// The Rhai engine.
    Rhai,
    /// A JavaScript engine.
    JavaScript,
    /// A Python engine.
    Python,
    /// A Lua engine.
    Lua,
}

impl Default for ScriptEngine {
    /// Rhai is the default engine.
    fn default() -> (r: Self)
        ensures
            r == ScriptEngine::Rhai,
    {
        ScriptEngine::Rhai
    }
}

impl ScriptEngine {
    /// The file extension of scripts for this engine.
    pub fn file_extension(&self) -> (r: &'static str)
        ensures
            match self {
                ScriptEngine::Rhai => r@ == "rhai"@,
                ScriptEngine::JavaScript => r@ == "js"@,
                ScriptEngine::Python => r@ == "py"@,
                ScriptEngine::Lua => r@ == "lua"@,
            },
    {
        match self {
            ScriptEngine::Rhai => "rhai",
            ScriptEngine::JavaScript => "js",
            ScriptEngine::Python => "py",
            ScriptEngine::Lua => "lua",
        }
    }
}

/// Where cached entries are stored.
#[derive(Debug, Clone, Copy, PartialEq, Eq, Hash, Structural)]
pub enum CacheBackend {
    /// In memory, for the life of the process.
    Memory,
    /// In a SQLite database on disk.
    Sqlite,
}

impl Default for CacheBackend {
    /// Memory is the default backend.
    fn default() -> (r: Self)
        ensures
            r == CacheBackend::Memory,
    {
        CacheBackend::Memory
    }
}

/// How long cached entries live.
#[derive(Debug, Clone, Copy, PartialEq, Eq, Hash, Structural)]
pub enum CacheScope {
    /// Cleared when the flow ends.
    Flow,
    /// Kept for the life of the rule in the host.
    Rule,
}

impl Default for CacheScope {
    /// Flow scope is the default.
    fn default() -> (r: Self)
        ensures
            r == CacheScope::Flow,
    {
        CacheScope::Flow
    }
}

/// What a selector extracts from the elements it matched.
#[derive(Debug, Clone, PartialEq)]
pub enum ExtractType {
    /// The text content.
    Text,
    /// The inner HTML.
    Html,
    /// The element's own HTML.
    OuterHtml,
    /// The `href` attribute.
    AttrHref,
    /// The `src` attribute.
    AttrSrc,
    /// The `data-src` attribute.
    AttrDataSrc,
    /// The `alt` attribute.
    AttrAlt,
    /// The `title` attribute.
    AttrTitle,
    /// The `class` attribute.
    AttrClass,
    /// The `id` attribute.
    AttrId,
    /// The `value` attribute.
    AttrValue,
    /// A custom attribute, written `attr:` followed by its name.
    CustomAttr(String),
}

/// The attribute a custom extraction names, if its text opens with the
/// `attr:` marker.
pub open spec fn custom_attr_name(s: Seq<char>) -> Option<Seq<char>> {
    if matches_at(s, "attr:"@, 0) {
        Some(s.skip("attr:"@.len() as int))
    } else {
        None
    }
}

impl ExtractType {
    /// The attribute this extraction reads, if it reads one.
    pub fn attribute_name(&self) -> (r: Option<&str>)
        ensures
            match self {
                ExtractType::AttrHref => r matches Some(a) && a@ == "href"@,
                ExtractType::AttrSrc => r matches Some(a) && a@ == "src"@,
                ExtractType::AttrDataSrc => r matches Some(a) && a@ == "data-src"@,
                ExtractType::AttrAlt => r matches Some(a) && a@ == "alt"@,
                ExtractType::AttrTitle => r matches Some(a) && a@ == "title"@,
                ExtractType::AttrClass => r matches Some(a) && a@ == "class"@,
                ExtractType::AttrId => r matches Some(a) && a@ == "id"@,
                ExtractType::AttrValue => r matches Some(a) && a@ == "value"@,
                ExtractType::CustomAttr(s) => match custom_attr_name(s@) {
                    Some(name) => r matches Some(a) && a@ == name,
                    None => r is None,
                },
                _ => r is None,
            },
    {
        match self {
            ExtractType::AttrHref => Some("href"),
            ExtractType::AttrSrc => Some("src"),
            ExtractType::AttrDataSrc => Some("data-src"),
            ExtractType::AttrAlt => Some("alt"),
            ExtractType::AttrTitle => Some("title"),
            ExtractType::AttrClass => Some("class"),
            ExtractType::AttrId => Some("id"),
            ExtractType::AttrValue => Some("value"),
            ExtractType::CustomAttr(s) => {
                proof {
                    reveal_strlit("attr:");
                }
                let v = str_to_chars(s.as_str());
                let marker = str_to_chars("attr:");
                let n = s.as_str().unicode_len();
                if n >= 5 && match_at(&v, &marker, 0) {
                    Some(s.as_str().substring_char(5, n))
                } else {
                    proof {
                        assert(!matches_at(s@, "attr:"@, 0));
                    }
                    None
                }
            },
            ExtractType::Text => None,
            ExtractType::Html => None,
            ExtractType::OuterHtml => None,
        }
    }

    /// Whether this extraction reads an attribute.
    pub fn is_attribute(&self) -> (r: bool)
        ensures
            match self {
                ExtractType::Text => !r,
                ExtractType::Html => !r,
                ExtractType::OuterHtml => !r,
                ExtractType::CustomAttr(s) => r == (custom_attr_name(s@) is Some),
                _ => r,
            },
    {
        self.attribute_name().is_some()
    }
}

impl Default for ExtractType {
    /// Text extraction is the default.
    fn default() -> (r: Self)
        ensures
            r == ExtractType::Text,
    {
        ExtractType::Text
    }
}

} // verus!
