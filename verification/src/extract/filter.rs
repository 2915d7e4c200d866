//! The pure filters a pipeline applies to its current value.
//!
//! Each filter is a named function of the value and literal arguments; every
//! filter's behaviour is pinned by a spec function, and the dispatcher is
//! exact over them.

use vstd::prelude::*;
use crate::error::{CrawlerError, ErrModel};
use crate::jsonval::{JsonModel, JsonValue, json_text};
use crate::text::{
    trim_seq, trim_chars, replace_seq, replace_chars, split_seq, join_seq, matches_at,
    find_from, lemma_find_from_some, str_to_chars, chars_to_string, match_at, find_sub,
    parse_i64_spec, parse_i64_chars, int_to_string_spec, i64_to_chars, lower_of, upper_of,
    lowercase, uppercase,
};
use crate::value::{ExtractValueData, ValModel, val_model_seq, lemma_val_model_seq, val_text};

verus! {

use vstd::string::StringExecFns;

broadcast use vstd::std_specs::vec::group_vec_axioms;

/// The model of an executable filter outcome.
pub open spec fn res_model(r: Result<ExtractValueData, CrawlerError>) -> Result<ValModel, ErrModel> {
    match r {
        Ok(v) => Ok(v@),
        Err(e) => Err(e@),
    }
}

/// Whether the pattern compiles as a regular expression: a function of the
/// pattern alone.
pub uninterp spec fn regex_ok(pattern: Seq<char>) -> bool;

/// What `regex::Regex::replace_all` returns for a valid pattern: a function
/// of pattern, text and replacement alone.
pub uninterp spec fn regex_replace_of(pattern: Seq<char>, text: Seq<char>, replacement: Seq<char>) -> Seq<char>;

/// What the error of `regex::Regex::new` describes for an invalid pattern:
/// a function of the pattern alone.
pub uninterp spec fn regex_error_of(pattern: Seq<char>) -> Seq<char>;

/// What the error of `urlencoding::decode` describes when the decoded bytes
/// are not UTF-8: a function of the characters alone.
pub uninterp spec fn url_decode_error_of(s: Seq<char>) -> Seq<char>;

/// What `regex::Regex::captures_iter` collects over the text: for each
/// non-overlapping match, its first capture group, or the whole match when
/// the pattern has no group. A function of pattern and text alone.
pub uninterp spec fn regex_captures_of(pattern: Seq<char>, text: Seq<char>) -> Seq<Seq<char>>;

/// Relies on regex::Regex::new: whether the pattern compiles.
#[verifier::external_body]
pub(crate) fn regex_pattern_valid(pattern: &str) -> (r: bool)
    ensures
        r == regex_ok(pattern@),
{
    regex::Regex::new(pattern).is_ok()
}

/// Relies on regex::Regex::new and Regex::replace_all: for a valid pattern,
/// every non-overlapping match is replaced; an invalid pattern is refused
/// with the engine's own description of the fault.
#[verifier::external_body]
fn regex_replace_all(pattern: &str, text: &str, replacement: &str) -> (r: Result<String, String>)
    ensures
        r is Ok <==> regex_ok(pattern@),
        r matches Ok(s) ==> s@ == regex_replace_of(pattern@, text@, replacement@),
        r matches Err(t) ==> t@ == regex_error_of(pattern@),
{
    match regex::Regex::new(pattern) {
        Ok(re) => Ok(re.replace_all(text, replacement).into_owned()),
        Err(e) => Err(e.to_string()),
    }
}

/// Relies on regex::Regex::new and Regex::captures_iter: for a valid
/// pattern, the first-group capture of each non-overlapping match, or the
/// whole match when the pattern has no group or the group did not take part
/// in the match.
#[verifier::external_body]
pub(crate) fn regex_captures(pattern: &str, text: &str) -> (r: Result<Vec<String>, String>)
    ensures
        r is Ok <==> regex_ok(pattern@),
        r matches Ok(v) ==> v.deep_view() == regex_captures_of(pattern@, text@),
        r matches Err(t) ==> t@ == regex_error_of(pattern@),
{
    match regex::Regex::new(pattern) {
        Ok(re) => Ok(re.captures_iter(text)
            .map(|c| c.get(1).or_else(|| c.get(0)).map(|m| m.as_str().to_string()).unwrap_or_default())
            .collect()),
        Err(e) => Err(e.to_string()),
    }
}

/// What `urlencoding::encode` returns: a function of the characters alone.
pub uninterp spec fn url_encoded_of(s: Seq<char>) -> Seq<char>;

/// What `urlencoding::decode` returns: a function of the characters alone,
/// absent when the decoded bytes are not UTF-8.
pub uninterp spec fn url_decoded_of(s: Seq<char>) -> Option<Seq<char>>;

/// Relies on urlencoding::encode: percent-encodes every byte except
/// alphanumerics and `-`, `_`, `.`, `~`; by the same crate's decode, the
/// encoded string decodes back to the input.
#[verifier::external_body]
fn url_encode_str(s: &str) -> (r: String)
    ensures
        r@ == url_encoded_of(s@),
        url_decoded_of(r@) == Some(s@),
        s@.len() == 0 ==> r@.len() == 0,
{
    urlencoding::encode(s).into_owned()
}

/// Relies on urlencoding::decode: percent-decodes, failing exactly when the
/// decoded bytes are not UTF-8, with that failure's own description.
#[verifier::external_body]
fn url_decode_str(s: &str) -> (r: Result<String, String>)
    ensures
        r is Ok <==> url_decoded_of(s@) is Some,
        r matches Ok(t) ==> url_decoded_of(s@) == Some(t@),
        r matches Err(t) ==> t@ == url_decode_error_of(s@),
{
    match urlencoding::decode(s) {
        Ok(t) => Ok(t.into_owned()),
        Err(e) => Err(e.to_string()),
    }
}

/// The string argument at position `i`, if there is one.
pub open spec fn arg_str(args: Seq<JsonModel>, i: int) -> Option<Seq<char>> {
    if 0 <= i < args.len() {
        match args[i] {
            JsonModel::Str(s) => Some(s),
            _ => None,
        }
    } else {
        None
    }
}

/// The integer argument at position `i`, if there is one: a number whose
/// lexeme is a decimal integer in range.
pub open spec fn arg_int(args: Seq<JsonModel>, i: int) -> Option<i64> {
    if 0 <= i < args.len() {
        match args[i] {
            JsonModel::Num(s) => parse_i64_spec(s),
            _ => None,
        }
    } else {
        None
    }
}

/// An extraction failure with the given message.
pub open spec fn extraction_err(message: Seq<char>) -> Result<ValModel, ErrModel> {
    Err(ErrModel::Extraction(message))
}

/// What `trim` produces: the text with surrounding white space removed.
pub open spec fn eval_trim(input: ValModel) -> Result<ValModel, ErrModel> {
    match input {
        ValModel::Str(s) => Ok(ValModel::Str(trim_seq(s))),
        ValModel::Html(s) => Ok(ValModel::Str(trim_seq(s))),
        _ => extraction_err("trim filter requires string input"@),
    }
}

/// What `lower` produces: the text folded to lower case.
pub open spec fn eval_lower(input: ValModel) -> Result<ValModel, ErrModel> {
    match input {
        ValModel::Str(s) => Ok(ValModel::Str(lower_of(s))),
        ValModel::Html(s) => Ok(ValModel::Str(lower_of(s))),
        _ => extraction_err("lower filter requires string input"@),
    }
}

/// What `upper` produces: the text folded to upper case.
pub open spec fn eval_upper(input: ValModel) -> Result<ValModel, ErrModel> {
    match input {
        ValModel::Str(s) => Ok(ValModel::Str(upper_of(s))),
        ValModel::Html(s) => Ok(ValModel::Str(upper_of(s))),
        _ => extraction_err("upper filter requires string input"@),
    }
}

/// What `url_encode` produces.
pub open spec fn eval_url_encode(input: ValModel) -> Result<ValModel, ErrModel> {
    match input {
        ValModel::Str(s) => Ok(ValModel::Str(url_encoded_of(s))),
        ValModel::Html(s) => Ok(ValModel::Str(url_encoded_of(s))),
        _ => extraction_err("url_encode filter requires string input"@),
    }
}

/// What `url_decode` produces.
pub open spec fn eval_url_decode(input: ValModel) -> Result<ValModel, ErrModel> {
    match input {
        ValModel::Str(s) => match url_decoded_of(s) {
            Some(t) => Ok(ValModel::Str(t)),
            None => extraction_err("Failed to decode URL: "@ + url_decode_error_of(s)),
        },
        ValModel::Html(s) => match url_decoded_of(s) {
            Some(t) => Ok(ValModel::Str(t)),
            None => extraction_err("Failed to decode URL: "@ + url_decode_error_of(s)),
        },
        _ => extraction_err("url_decode filter requires string input"@),
    }
}

/// What `to_int` produces: the text read as a decimal integer.
pub open spec fn eval_to_int(input: ValModel) -> Result<ValModel, ErrModel> {
    match input {
        ValModel::Str(s) => match parse_i64_spec(s) {
            Some(n) => Ok(ValModel::Json(JsonModel::Num(int_to_string_spec(n as int)))),
            None => extraction_err("Failed to parse int: "@ + crate::text::parse_i64_cause(s)),
        },
        ValModel::Html(s) => match parse_i64_spec(s) {
            Some(n) => Ok(ValModel::Json(JsonModel::Num(int_to_string_spec(n as int)))),
            None => extraction_err("Failed to parse int: "@ + crate::text::parse_i64_cause(s)),
        },
        _ => extraction_err("to_int filter requires string input"@),
    }
}

/// What `to_string` produces: text stays, JSON serializes, the empty value
/// becomes the empty string, and an array is refused.
pub open spec fn eval_to_string(input: ValModel) -> Result<ValModel, ErrModel> {
    match input {
        ValModel::Str(s) => Ok(ValModel::Str(s)),
        ValModel::Html(s) => Ok(ValModel::Str(s)),
        ValModel::Json(j) => Ok(ValModel::Str(json_text(j))),
        ValModel::Arr(_) => extraction_err("Cannot convert array to string"@),
        ValModel::Null => Ok(ValModel::Str(Seq::<char>::empty())),
    }
}

/// What `replace` produces: every occurrence of the first argument replaced
/// by the second.
pub open spec fn eval_replace(args: Seq<JsonModel>, input: ValModel) -> Result<ValModel, ErrModel> {
    match input {
        ValModel::Str(s) => eval_replace_text(args, s),
        ValModel::Html(s) => eval_replace_text(args, s),
        _ => extraction_err("replace filter requires string input"@),
    }
}

/// `replace` on text, after the argument checks.
pub open spec fn eval_replace_text(args: Seq<JsonModel>, s: Seq<char>) -> Result<ValModel, ErrModel> {
    if args.len() < 2 {
        extraction_err("replace filter requires 2 arguments: from, to"@)
    } else {
        match arg_str(args, 0) {
            None => extraction_err("replace: 'from' must be a string"@),
            Some(from) => match arg_str(args, 1) {
                None => extraction_err("replace: 'to' must be a string"@),
                Some(to) => Ok(ValModel::Str(replace_seq(s, from, to))),
            },
        }
    }
}

/// What `regex_replace` produces: every match of the pattern replaced.
pub open spec fn eval_regex_replace(args: Seq<JsonModel>, input: ValModel) -> Result<ValModel, ErrModel> {
    match input {
        ValModel::Str(s) => eval_regex_replace_text(args, s),
        ValModel::Html(s) => eval_regex_replace_text(args, s),
        _ => extraction_err("regex_replace filter requires string input"@),
    }
}

/// `regex_replace` on text, after the argument checks.
pub open spec fn eval_regex_replace_text(args: Seq<JsonModel>, s: Seq<char>) -> Result<ValModel, ErrModel> {
    if args.len() < 2 {
        extraction_err("regex_replace filter requires 2 arguments: pattern, replacement"@)
    } else {
        match arg_str(args, 0) {
            None => extraction_err("regex_replace: 'pattern' must be a string"@),
            Some(pattern) => match arg_str(args, 1) {
                None => extraction_err("regex_replace: 'replacement' must be a string"@),
                Some(replacement) => if regex_ok(pattern) {
                    Ok(ValModel::Str(regex_replace_of(pattern, s, replacement)))
                } else {
                    extraction_err("Invalid regex pattern: "@ + regex_error_of(pattern))
                },
            },
        }
    }
}


/// Text pieces wrapped as string values, in order.
pub open spec fn strs_to_vals(parts: Seq<Seq<char>>) -> Seq<ValModel> {
    Seq::new(parts.len(), |i: int| ValModel::Str(parts[i]))
}

/// What `split` produces: the pieces between occurrences of the separator,
/// each as a string value. The separator defaults to one space; an empty
/// separator matches at every character boundary.
pub open spec fn eval_split(args: Seq<JsonModel>, input: ValModel) -> Result<ValModel, ErrModel> {
    match input {
        ValModel::Str(s) => eval_split_text(args, s),
        ValModel::Html(s) => eval_split_text(args, s),
        _ => extraction_err("split filter requires string input"@),
    }
}

/// The one-character pieces of the text, closed by one empty piece: the
/// tail of an empty-separator split.
pub open spec fn char_pieces(s: Seq<char>) -> Seq<Seq<char>>
    decreases s.len(),
{
    if s.len() == 0 {
        seq![Seq::<char>::empty()]
    } else {
        seq![seq![s[0]]] + char_pieces(s.skip(1))
    }
}

/// The pieces an empty separator yields: one empty piece at each end and
/// every character on its own between them.
pub open spec fn empty_sep_pieces(s: Seq<char>) -> Seq<Seq<char>> {
    seq![Seq::<char>::empty()] + char_pieces(s)
}

/// `split` on text.
pub open spec fn eval_split_text(args: Seq<JsonModel>, s: Seq<char>) -> Result<ValModel, ErrModel> {
    let sep = match arg_str(args, 0) {
        Some(t) => t,
        None => " "@,
    };
    if sep.len() == 0 {
        Ok(ValModel::Arr(strs_to_vals(empty_sep_pieces(s))))
    } else {
        Ok(ValModel::Arr(strs_to_vals(split_seq(s, sep))))
    }
}

/// Joining an empty-separator split with the empty separator restores the
/// string: the round trip also holds at the boundary case.
pub proof fn lemma_empty_split_join(s: Seq<char>)
    ensures
        join_seq(empty_sep_pieces(s), Seq::<char>::empty()) == s,
{
    lemma_char_pieces_join(s);
    assert(empty_sep_pieces(s).len() >= 2);
    assert(empty_sep_pieces(s)[0] =~= Seq::<char>::empty());
    assert(empty_sep_pieces(s).skip(1) =~= char_pieces(s));
    assert(Seq::<char>::empty() + Seq::<char>::empty() + s =~= s);
}

/// The character pieces joined by nothing give the string back.
proof fn lemma_char_pieces_join(s: Seq<char>)
    ensures
        join_seq(char_pieces(s), Seq::<char>::empty()) == s,
    decreases s.len(),
{
    if s.len() == 0 {
        assert(char_pieces(s) =~= seq![Seq::<char>::empty()]);
    } else {
        lemma_char_pieces_join(s.skip(1));
        assert(char_pieces(s)[0] == seq![s[0]]);
        assert(char_pieces(s).skip(1) =~= char_pieces(s.skip(1)));
        assert(char_pieces(s).len() >= 2);
        assert(seq![s[0]] + Seq::<char>::empty() + s.skip(1) =~= s);
    }
}

/// The texts of the string-like items, in order; other items are passed
/// over.
pub open spec fn texts_of(items: Seq<ValModel>) -> Seq<Seq<char>>
    decreases items.len(),
{
    if items.len() == 0 {
        Seq::<Seq<char>>::empty()
    } else {
        match items[0] {
            ValModel::Str(s) => seq![s] + texts_of(items.skip(1)),
            ValModel::Html(s) => seq![s] + texts_of(items.skip(1)),
            _ => texts_of(items.skip(1)),
        }
    }
}

/// What `join` produces: the string-like items joined with the separator,
/// which defaults to the empty string.
pub open spec fn eval_join(args: Seq<JsonModel>, input: ValModel) -> Result<ValModel, ErrModel> {
    match input {
        ValModel::Arr(items) => {
            let sep = match arg_str(args, 0) {
                Some(t) => t,
                None => Seq::<char>::empty(),
            };
            Ok(ValModel::Str(join_seq(texts_of(items), sep)))
        },
        _ => extraction_err("join filter requires array input"@),
    }
}

/// Text with every HTML tag removed: a tag opens with `<`, holds at least
/// one character that is not `>`, and closes with the next `>`.
pub open spec fn strip_tags(s: Seq<char>) -> Seq<char>
    decreases s.len(),
    via strip_tags_decreases
{
    if s.len() == 0 {
        Seq::<char>::empty()
    } else if s[0] == '<' {
        match find_from(s, seq!['>'], 1) {
            Some(j) => if j > 1 {
                strip_tags(s.skip(j + 1))
            } else {
                seq![s[0]] + strip_tags(s.skip(1))
            },
            None => seq![s[0]] + strip_tags(s.skip(1)),
        }
    } else {
        seq![s[0]] + strip_tags(s.skip(1))
    }
}

#[via_fn]
proof fn strip_tags_decreases(s: Seq<char>) {
    if s.len() > 0 && s[0] == '<' {
        match find_from(s, seq!['>'], 1) {
            Some(j) => {
                lemma_find_from_some(s, seq!['>'], 1, j);
            },
            None => {},
        }
    }
}

/// What `strip_html` produces.
pub open spec fn eval_strip_html(input: ValModel) -> Result<ValModel, ErrModel> {
    match input {
        ValModel::Str(s) => Ok(ValModel::Str(strip_tags(s))),
        ValModel::Html(s) => Ok(ValModel::Str(strip_tags(s))),
        _ => extraction_err("strip_html filter requires string input"@),
    }
}

/// The clamped character range `substring` takes: a negative start or
/// length counts as zero, and both ends are clamped to the text.
pub open spec fn substring_clamp(s: Seq<char>, start_arg: Option<i64>, len_arg: Option<i64>) -> Seq<char> {
    let raw = match start_arg {
        Some(v) => v as int,
        None => 0int,
    };
    let st = if raw < 0 { 0int } else { raw };
    let lo = if st > s.len() { s.len() as int } else { st };
    let hi = match len_arg {
        Some(l) => {
            let l0 = if l < 0 { 0int } else { l as int };
            if st + l0 > s.len() { s.len() as int } else { st + l0 }
        },
        None => s.len() as int,
    };
    s.subrange(lo, hi)
}

/// What `substring` produces.
pub open spec fn eval_substring(args: Seq<JsonModel>, input: ValModel) -> Result<ValModel, ErrModel> {
    match input {
        ValModel::Str(s) => Ok(ValModel::Str(substring_clamp(s, arg_int(args, 0), arg_int(args, 1)))),
        ValModel::Html(s) => Ok(ValModel::Str(substring_clamp(s, arg_int(args, 0), arg_int(args, 1)))),
        _ => extraction_err("substring filter requires string input"@),
    }
}

/// The string with trailing slashes removed.
pub open spec fn trim_end_slashes(s: Seq<char>) -> Seq<char>
    decreases s.len(),
{
    if s.len() > 0 && s.last() == '/' {
        trim_end_slashes(s.drop_last())
    } else {
        s
    }
}

/// A relative link resolved against a base: a path from the site root is
/// put after the base's origin, anything else after the whole base.
pub open spec fn absolute_url_of(url: Seq<char>, base: Seq<char>) -> Seq<char> {
    if url.len() > 0 && url[0] == '/' {
        let b = trim_end_slashes(base);
        match find_from(b, "://"@, 0) {
            Some(idx) => match find_from(b, "/"@, idx + "://"@.len()) {
                Some(p) => b.take(p) + url,
                None => b + url,
            },
            None => b + url,
        }
    } else {
        trim_end_slashes(base) + seq!['/'] + url
    }
}

/// Whether the link is already absolute.
pub open spec fn is_absolute_link(url: Seq<char>) -> bool {
    matches_at(url, "http://"@, 0) || matches_at(url, "https://"@, 0)
}

/// What `absolute_url` produces: an absolute link unchanged, anything else
/// resolved against the base given as the first argument.
pub open spec fn eval_absolute_url(args: Seq<JsonModel>, input: ValModel) -> Result<ValModel, ErrModel> {
    match input {
        ValModel::Str(s) => eval_absolute_url_text(args, s),
        ValModel::Html(s) => eval_absolute_url_text(args, s),
        _ => extraction_err("absolute_url filter requires string input"@),
    }
}

/// `absolute_url` on text.
pub open spec fn eval_absolute_url_text(args: Seq<JsonModel>, url: Seq<char>) -> Result<ValModel, ErrModel> {
    if is_absolute_link(url) {
        Ok(ValModel::Str(url))
    } else {
        match arg_str(args, 0) {
            None => extraction_err("absolute_url filter requires base_url argument"@),
            Some(base) => Ok(ValModel::Str(absolute_url_of(url, base))),
        }
    }
}

/// What a named filter produces on a value: the dispatch table of the
/// filter library.
pub open spec fn eval_filter(name: Seq<char>, args: Seq<JsonModel>, input: ValModel) -> Result<ValModel, ErrModel> {
    if name == "trim"@ { eval_trim(input) }
    else if name == "lower"@ { eval_lower(input) }
    else if name == "upper"@ { eval_upper(input) }
    else if name == "replace"@ { eval_replace(args, input) }
    else if name == "regex_replace"@ { eval_regex_replace(args, input) }
    else if name == "split"@ { eval_split(args, input) }
    else if name == "join"@ { eval_join(args, input) }
    else if name == "strip_html"@ { eval_strip_html(input) }
    else if name == "substring"@ { eval_substring(args, input) }
    else if name == "to_int"@ { eval_to_int(input) }
    else if name == "to_string"@ { eval_to_string(input) }
    else if name == "absolute_url"@ { eval_absolute_url(args, input) }
    else if name == "url_encode"@ { eval_url_encode(input) }
    else if name == "url_decode"@ { eval_url_decode(input) }
    else { extraction_err("Unknown filter: "@ + name) }
}


/// The views of a sequence of strings, in order.
pub open spec fn str_views(vs: Seq<String>) -> Seq<Seq<char>> {
    Seq::new(vs.len(), |i: int| vs[i]@)
}

fn get_arg_str<'a>(args: &'a Vec<JsonValue>, i: usize) -> (r: Option<&'a str>)
    ensures
        match r {
            Some(s) => arg_str(crate::extract::step::json_model_entries_values(args@), i as int) == Some(s@),
            None => arg_str(crate::extract::step::json_model_entries_values(args@), i as int) is None,
        },
{
    proof {
        crate::extract::step::lemma_json_model_entries_values(args@);
    }
    if i < args.len() {
        match &args[i] {
            JsonValue::Str(s) => Some(s.as_str()),
            _ => None,
        }
    } else {
        None
    }
}

fn get_arg_int(args: &Vec<JsonValue>, i: usize) -> (r: Option<i64>)
    ensures
        r == arg_int(crate::extract::step::json_model_entries_values(args@), i as int),
{
    proof {
        crate::extract::step::lemma_json_model_entries_values(args@);
    }
    if i < args.len() {
        match &args[i] {
            JsonValue::Num(s) => {
                let v = str_to_chars(s.as_str());
                parse_i64_chars(&v)
            },
            _ => None,
        }
    } else {
        None
    }
}

/// Applies `trim` to a value.
pub struct TrimFilter;

impl TrimFilter {
    /// The text with surrounding white space removed.
    pub fn apply(&self, input: &ExtractValueData, args: &Vec<JsonValue>) -> (r: Result<ExtractValueData, CrawlerError>)
        ensures
            res_model(r) == eval_trim(input@),
    {
        match input.as_str() {
            Some(s) => {
                let v = str_to_chars(s);
                let t = trim_chars(&v);
                Ok(ExtractValueData::String(chars_to_string(&t)))
            },
            None => Err(CrawlerError::Extraction(String::from_str("trim filter requires string input"))),
        }
    }
}

/// Applies `lower` to a value.
pub struct LowerFilter;

impl LowerFilter {
    /// The text folded to lower case.
    pub fn apply(&self, input: &ExtractValueData, args: &Vec<JsonValue>) -> (r: Result<ExtractValueData, CrawlerError>)
        ensures
            res_model(r) == eval_lower(input@),
    {
        match input.as_str() {
            Some(s) => Ok(ExtractValueData::String(lowercase(s))),
            None => Err(CrawlerError::Extraction(String::from_str("lower filter requires string input"))),
        }
    }
}

/// Applies `upper` to a value.
pub struct UpperFilter;

impl UpperFilter {
    /// The text folded to upper case.
    pub fn apply(&self, input: &ExtractValueData, args: &Vec<JsonValue>) -> (r: Result<ExtractValueData, CrawlerError>)
        ensures
            res_model(r) == eval_upper(input@),
    {
        match input.as_str() {
            Some(s) => Ok(ExtractValueData::String(uppercase(s))),
            None => Err(CrawlerError::Extraction(String::from_str("upper filter requires string input"))),
        }
    }
}

/// Applies `url_encode` to a value.
pub struct UrlEncodeFilter;

impl UrlEncodeFilter {
    /// The text percent-encoded; decoding the result restores the input.
    pub fn apply(&self, input: &ExtractValueData, args: &Vec<JsonValue>) -> (r: Result<ExtractValueData, CrawlerError>)
        ensures
            res_model(r) == eval_url_encode(input@),
            r matches Ok(v) ==> url_decoded_of(val_text(v@)) == Some(val_text(input@)),
    {
        match input.as_str() {
            Some(s) => Ok(ExtractValueData::String(url_encode_str(s))),
            None => Err(CrawlerError::Extraction(String::from_str("url_encode filter requires string input"))),
        }
    }
}

/// Applies `url_decode` to a value.
pub struct UrlDecodeFilter;

impl UrlDecodeFilter {
    /// The text percent-decoded.
    pub fn apply(&self, input: &ExtractValueData, args: &Vec<JsonValue>) -> (r: Result<ExtractValueData, CrawlerError>)
        ensures
            res_model(r) == eval_url_decode(input@),
    {
        match input.as_str() {
            Some(s) => match url_decode_str(s) {
                Ok(t) => Ok(ExtractValueData::String(t)),
                Err(cause) => {
                    let mut m = String::from_str("Failed to decode URL: ");
                    m.append(cause.as_str());
                    Err(CrawlerError::Extraction(m))
                },
            },
            None => Err(CrawlerError::Extraction(String::from_str("url_decode filter requires string input"))),
        }
    }
}

/// Applies `to_int` to a value.
pub struct ToIntFilter;

impl ToIntFilter {
    /// The text read as a decimal integer.
    pub fn apply(&self, input: &ExtractValueData, args: &Vec<JsonValue>) -> (r: Result<ExtractValueData, CrawlerError>)
        ensures
            res_model(r) == eval_to_int(input@),
    {
        match input.as_str() {
            Some(s) => {
                let v = str_to_chars(s);
                match parse_i64_chars(&v) {
                    Some(n) => {
                        let digits = i64_to_chars(n);
                        Ok(ExtractValueData::Json(JsonValue::Num(chars_to_string(&digits))))
                    },
                    None => {
                        let mut m = String::from_str("Failed to parse int: ");
                        m.append(crate::text::parse_i64_cause_str(&v));
                        Err(CrawlerError::Extraction(m))
                    },
                }
            },
            None => Err(CrawlerError::Extraction(String::from_str("to_int filter requires string input"))),
        }
    }
}

/// Applies `to_string` to a value.
pub struct ToStringFilter;

impl ToStringFilter {
    /// Text stays, JSON serializes, the empty value becomes the empty
    /// string; an array is refused.
    pub fn apply(&self, input: &ExtractValueData, args: &Vec<JsonValue>) -> (r: Result<ExtractValueData, CrawlerError>)
        ensures
            res_model(r) == eval_to_string(input@),
    {
        match input {
            ExtractValueData::String(s) => Ok(ExtractValueData::String(s.clone())),
            ExtractValueData::Html(s) => Ok(ExtractValueData::String(s.clone())),
            ExtractValueData::Json(j) => Ok(ExtractValueData::String(crate::jsonval::json_to_string(j))),
            ExtractValueData::Array(_) => Err(CrawlerError::Extraction(String::from_str("Cannot convert array to string"))),
            ExtractValueData::Null => Ok(ExtractValueData::String(String::new())),
        }
    }
}

/// Applies `replace` to a value.
pub struct ReplaceFilter;

impl ReplaceFilter {
    /// Every occurrence of the first argument replaced by the second.
    pub fn apply(&self, input: &ExtractValueData, args: &Vec<JsonValue>) -> (r: Result<ExtractValueData, CrawlerError>)
        ensures
            res_model(r) == eval_replace(crate::extract::step::json_model_entries_values(args@), input@),
    {
        proof {
            crate::extract::step::lemma_json_model_entries_values(args@);
        }
        match input.as_str() {
            Some(s) => {
                if args.len() < 2 {
                    proof {
                        crate::extract::step::lemma_json_model_entries_values(args@);
                    }
                    return Err(CrawlerError::Extraction(String::from_str(
                        "replace filter requires 2 arguments: from, to",
                    )));
                }
                let from = match get_arg_str(args, 0) {
                    Some(t) => t,
                    None => {
                        return Err(CrawlerError::Extraction(String::from_str(
                            "replace: 'from' must be a string",
                        )));
                    },
                };
                let to = match get_arg_str(args, 1) {
                    Some(t) => t,
                    None => {
                        return Err(CrawlerError::Extraction(String::from_str(
                            "replace: 'to' must be a string",
                        )));
                    },
                };
                let sv = str_to_chars(s);
                let fv = str_to_chars(from);
                let tv = str_to_chars(to);
                let out = replace_chars(&sv, &fv, &tv);
                Ok(ExtractValueData::String(chars_to_string(&out)))
            },
            None => Err(CrawlerError::Extraction(String::from_str("replace filter requires string input"))),
        }
    }
}

/// Applies `regex_replace` to a value.
pub struct RegexReplaceFilter;

impl RegexReplaceFilter {
    /// Every match of the pattern replaced; an invalid pattern is refused.
    pub fn apply(&self, input: &ExtractValueData, args: &Vec<JsonValue>) -> (r: Result<ExtractValueData, CrawlerError>)
        ensures
            res_model(r) == eval_regex_replace(crate::extract::step::json_model_entries_values(args@), input@),
    {
        proof {
            crate::extract::step::lemma_json_model_entries_values(args@);
        }
        match input.as_str() {
            Some(s) => {
                if args.len() < 2 {
                    proof {
                        crate::extract::step::lemma_json_model_entries_values(args@);
                    }
                    return Err(CrawlerError::Extraction(String::from_str(
                        "regex_replace filter requires 2 arguments: pattern, replacement",
                    )));
                }
                let pattern = match get_arg_str(args, 0) {
                    Some(t) => t,
                    None => {
                        return Err(CrawlerError::Extraction(String::from_str(
                            "regex_replace: 'pattern' must be a string",
                        )));
                    },
                };
                let replacement = match get_arg_str(args, 1) {
                    Some(t) => t,
                    None => {
                        return Err(CrawlerError::Extraction(String::from_str(
                            "regex_replace: 'replacement' must be a string",
                        )));
                    },
                };
                match regex_replace_all(pattern, s, replacement) {
                    Ok(t) => Ok(ExtractValueData::String(t)),
                    Err(cause) => {
                        let mut m = String::from_str("Invalid regex pattern: ");
                        m.append(cause.as_str());
                        Err(CrawlerError::Extraction(m))
                    },
                }
            },
            None => Err(CrawlerError::Extraction(String::from_str("regex_replace filter requires string input"))),
        }
    }
}


fn split_parts(v: &Vec<char>, sep: &Vec<char>, i: usize) -> (out: Vec<ExtractValueData>)
    requires
        i <= v@.len(),
        sep@.len() > 0,
    ensures
        val_model_seq(out@) == strs_to_vals(split_seq(v@.skip(i as int), sep@)),
    decreases v@.len() - i,
{
    let ghost rest = v@.skip(i as int);
    let r = find_sub(v, sep, i);
    proof {
        crate::text::lemma_find_shift(v@, sep@, i as int, i as int);
    }
    match r {
        Some(j) => {
            proof {
                crate::text::lemma_find_from_some(v@, sep@, i as int, j as int);
                assert(find_from(rest, sep@, 0) == Some(j - i));
                assert(rest.take(j - i) =~= v@.subrange(i as int, j as int));
                assert(rest.skip(j - i + sep@.len()) =~= v@.skip(j + sep@.len()));
            }
            let piece = crate::text::vec_range(v, i, j);
            let n: usize = v.len();
            proof {
                assert(j + sep@.len() <= n);
            }
            let mut out = split_parts(v, sep, j + sep.len());
            let ghost prev = out@;
            out.insert(0, ExtractValueData::String(chars_to_string(&piece)));
            proof {
                lemma_val_model_seq(out@);
                lemma_val_model_seq(prev);
                let split2 = split_seq(rest.skip(j - i + sep@.len()), sep@);
                let parts = split_seq(rest, sep@);
                assert(parts == seq![rest.take(j - i)] + split2);
                assert(out@.len() == 1 + prev.len());
                assert forall|k: int| 0 <= k < out@.len()
                    implies val_model_seq(out@)[k] == strs_to_vals(parts)[k] by {
                    if k == 0 {
                        assert(out@[0]@ == ValModel::Str(rest.take(j - i)));
                    } else {
                        assert(out@[k] == prev[k - 1]);
                        assert(val_model_seq(prev)[k - 1] == strs_to_vals(split2)[k - 1]);
                        assert(parts[k] == split2[k - 1]);
                    }
                }
                assert(val_model_seq(out@) =~= strs_to_vals(parts));
            }
            out
        },
        None => {
            proof {
                assert(find_from(rest, sep@, 0) is None);
                assert(rest =~= v@.subrange(i as int, v@.len() as int));
            }
            let piece = crate::text::vec_range(v, i, v.len());
            let mut out: Vec<ExtractValueData> = Vec::new();
            out.push(ExtractValueData::String(chars_to_string(&piece)));
            proof {
                lemma_val_model_seq(out@);
                assert(val_model_seq(out@) =~= strs_to_vals(split_seq(rest, sep@)));
            }
            out
        },
    }
}

/// Applies `split` to a value.
pub struct SplitFilter;

fn empty_split_tail(v: &Vec<char>, i: usize) -> (out: Vec<ExtractValueData>)
    requires
        i <= v@.len(),
    ensures
        val_model_seq(out@) == strs_to_vals(char_pieces(v@.skip(i as int))),
    decreases v@.len() - i,
{
    let ghost rest = v@.skip(i as int);
    if i == v.len() {
        let mut out: Vec<ExtractValueData> = Vec::new();
        out.push(ExtractValueData::String(String::new()));
        proof {
            lemma_val_model_seq(out@);
            assert(rest.len() == 0);
            assert(val_model_seq(out@) =~= strs_to_vals(char_pieces(rest)));
        }
        out
    } else {
        let mut piece: Vec<char> = Vec::new();
        piece.push(v[i]);
        let mut out = empty_split_tail(v, i + 1);
        let ghost prev = out@;
        out.insert(0, ExtractValueData::String(chars_to_string(&piece)));
        proof {
            lemma_val_model_seq(out@);
            lemma_val_model_seq(prev);
            assert(rest[0] == v@[i as int]);
            assert(rest.skip(1) =~= v@.skip(i + 1));
            assert(piece@ =~= seq![rest[0]]);
            assert(char_pieces(rest) == seq![seq![rest[0]]] + char_pieces(rest.skip(1)));
            assert forall|k: int| 0 <= k < out@.len()
                implies val_model_seq(out@)[k] == strs_to_vals(char_pieces(rest))[k] by {
                if k == 0 {
                    assert(out@[0].model() == ValModel::Str(seq![rest[0]]));
                    assert(char_pieces(rest)[0] == seq![rest[0]]);
                } else {
                    assert(out@[k] == prev[k - 1]);
                    assert(char_pieces(rest)[k] == char_pieces(rest.skip(1))[k - 1]);
                    assert(val_model_seq(prev)[k - 1]
                        == strs_to_vals(char_pieces(rest.skip(1)))[k - 1]);
                }
            }
            assert(val_model_seq(out@) =~= strs_to_vals(char_pieces(rest)));
        }
        out
    }
}

impl SplitFilter {
    /// The pieces between occurrences of the separator, each a string; the
    /// separator defaults to one space, and an empty separator yields the
    /// boundary pieces: one empty piece at each end, every character on its
    /// own between them.
    pub fn apply(&self, input: &ExtractValueData, args: &Vec<JsonValue>) -> (r: Result<ExtractValueData, CrawlerError>)
        ensures
            res_model(r) == eval_split(crate::extract::step::json_model_entries_values(args@), input@),
    {
        proof {
            crate::extract::step::lemma_json_model_entries_values(args@);
        }
        match input.as_str() {
            Some(s) => {
                let sep: &str = match get_arg_str(args, 0) {
                    Some(t) => t,
                    None => " ",
                };
                let sv = str_to_chars(s);
                let sepv = str_to_chars(sep);
                proof {
                    reveal_strlit(" ");
                }
                if sepv.len() == 0 {
                    proof {
                        assert(sv@.skip(0) =~= sv@);
                    }
                    let mut parts = empty_split_tail(&sv, 0);
                    let ghost prev = parts@;
                    parts.insert(0, ExtractValueData::String(String::new()));
                    proof {
                        lemma_val_model_seq(parts@);
                        lemma_val_model_seq(prev);
                        assert(empty_sep_pieces(sv@)
                            == seq![Seq::<char>::empty()] + char_pieces(sv@));
                        assert forall|k: int| 0 <= k < parts@.len()
                            implies val_model_seq(parts@)[k]
                                == strs_to_vals(empty_sep_pieces(sv@))[k] by {
                            if k == 0 {
                                assert(parts@[0].model() == ValModel::Str(Seq::<char>::empty()));
                                assert(empty_sep_pieces(sv@)[0] == Seq::<char>::empty());
                            } else {
                                assert(parts@[k] == prev[k - 1]);
                                assert(empty_sep_pieces(sv@)[k] == char_pieces(sv@)[k - 1]);
                                assert(val_model_seq(prev)[k - 1]
                                    == strs_to_vals(char_pieces(sv@))[k - 1]);
                            }
                        }
                        assert(val_model_seq(parts@) =~= strs_to_vals(empty_sep_pieces(sv@)));
                    }
                    return Ok(ExtractValueData::Array(parts));
                }
                proof {
                    assert(sv@.skip(0) =~= sv@);
                }
                let parts = split_parts(&sv, &sepv, 0);
                Ok(ExtractValueData::Array(parts))
            },
            None => Err(CrawlerError::Extraction(String::from_str("split filter requires string input"))),
        }
    }
}

fn collect_texts(items: &Vec<ExtractValueData>, i: usize) -> (out: Vec<String>)
    requires
        i <= items@.len(),
    ensures
        str_views(out@) == texts_of(val_model_seq(items@).skip(i as int)),
    decreases items@.len() - i,
{
    proof {
        lemma_val_model_seq(items@);
    }
    let ghost m = val_model_seq(items@);
    if i == items.len() {
        let out: Vec<String> = Vec::new();
        proof {
            assert(m.skip(i as int).len() == 0);
            assert(str_views(out@) =~= texts_of(m.skip(i as int)));
        }
        out
    } else {
        proof {
            assert(m.skip(i as int)[0] == m[i as int]);
            assert(m.skip(i as int).skip(1) =~= m.skip(i + 1));
        }
        let mut rest = collect_texts(items, i + 1);
        let ghost prev = rest@;
        match &items[i] {
            ExtractValueData::String(s) => {
                rest.insert(0, s.clone());
                proof {
                    assert forall|k: int| 0 <= k < rest@.len()
                        implies str_views(rest@)[k] == texts_of(m.skip(i as int))[k] by {
                        if k > 0 {
                            assert(rest@[k] == prev[k - 1]);
                        }
                    }
                    assert(str_views(rest@) =~= texts_of(m.skip(i as int)));
                }
            },
            ExtractValueData::Html(s) => {
                rest.insert(0, s.clone());
                proof {
                    assert forall|k: int| 0 <= k < rest@.len()
                        implies str_views(rest@)[k] == texts_of(m.skip(i as int))[k] by {
                        if k > 0 {
                            assert(rest@[k] == prev[k - 1]);
                        }
                    }
                    assert(str_views(rest@) =~= texts_of(m.skip(i as int)));
                }
            },
            _ => {
                proof {
                    assert(str_views(rest@) =~= texts_of(m.skip(i as int)));
                }
            },
        }
        rest
    }
}

fn join_parts(parts: &Vec<String>, sep: &Vec<char>, i: usize) -> (out: Vec<char>)
    requires
        i <= parts@.len(),
    ensures
        out@ == join_seq(str_views(parts@).skip(i as int), sep@),
    decreases parts@.len() - i,
{
    let ghost views = str_views(parts@);
    if i == parts.len() {
        let out: Vec<char> = Vec::new();
        proof {
            assert(views.skip(i as int).len() == 0);
        }
        out
    } else if i + 1 == parts.len() {
        let out = str_to_chars(parts[i].as_str());
        proof {
            assert(views.skip(i as int).len() == 1);
            assert(views.skip(i as int)[0] == views[i as int]);
        }
        out
    } else {
        let mut out = str_to_chars(parts[i].as_str());
        crate::text::push_all(&mut out, sep);
        let rest = join_parts(parts, sep, i + 1);
        crate::text::push_all(&mut out, &rest);
        proof {
            assert(views.skip(i as int)[0] == views[i as int]);
            assert(views.skip(i as int).skip(1) =~= views.skip(i + 1));
            assert(views.skip(i as int).len() > 1);
            assert(out@ =~= join_seq(views.skip(i as int), sep@));
        }
        out
    }
}

/// Applies `join` to a value.
pub struct JoinFilter;

impl JoinFilter {
    /// The string-like items joined with the separator, which defaults to
    /// the empty string.
    pub fn apply(&self, input: &ExtractValueData, args: &Vec<JsonValue>) -> (r: Result<ExtractValueData, CrawlerError>)
        ensures
            res_model(r) == eval_join(crate::extract::step::json_model_entries_values(args@), input@),
    {
        proof {
            crate::extract::step::lemma_json_model_entries_values(args@);
        }
        match input.as_array_slice() {
            Some(items) => {
                let sep: &str = match get_arg_str(args, 0) {
                    Some(t) => t,
                    None => "",
                };
                proof {
                    reveal_strlit("");
                    assert(""@ =~= Seq::<char>::empty());
                }
                let sepv = str_to_chars(sep);
                let texts = collect_texts(items, 0);
                proof {
                    assert(val_model_seq(items@).skip(0) =~= val_model_seq(items@));
                    assert(str_views(texts@).skip(0) =~= str_views(texts@));
                }
                let joined = join_parts(&texts, &sepv, 0);
                Ok(ExtractValueData::String(chars_to_string(&joined)))
            },
            None => Err(CrawlerError::Extraction(String::from_str("join filter requires array input"))),
        }
    }
}

fn strip_tags_rec(v: &Vec<char>, i: usize) -> (out: Vec<char>)
    requires
        i <= v@.len(),
    ensures
        out@ == strip_tags(v@.skip(i as int)),
    decreases v@.len() - i,
{
    let ghost rest = v@.skip(i as int);
    if i == v.len() {
        proof {
            assert(rest.len() == 0);
        }
        Vec::new()
    } else if v[i] == '<' {
        let gt = str_to_chars(">");
        proof {
            reveal_strlit(">");
            assert(gt@ =~= seq!['>']);
            crate::text::lemma_find_shift(v@, seq!['>'], i as int, i + 1);
            assert(rest[0] == '<');
            assert(rest.skip(1) =~= v@.skip(i + 1));
        }
        let r = find_sub(v, &gt, i + 1);
        match r {
            Some(j) => {
                proof {
                    crate::text::lemma_find_from_some(v@, seq!['>'], i + 1, j as int);
                    assert(find_from(rest, seq!['>'], 1) == Some(j - i));
                }
                if j > i + 1 {
                    proof {
                        assert(rest.skip(j - i + 1) =~= v@.skip(j + 1));
                    }
                    strip_tags_rec(v, j + 1)
                } else {
                    let mut out = strip_tags_rec(v, i + 1);
                    out.insert(0, '<');
                    proof {
                        assert(out@ =~= strip_tags(rest));
                    }
                    out
                }
            },
            None => {
                proof {
                    assert(find_from(rest, seq!['>'], 1) is None);
                }
                let mut out = strip_tags_rec(v, i + 1);
                out.insert(0, '<');
                proof {
                    assert(out@ =~= strip_tags(rest));
                }
                out
            },
        }
    } else {
        let c = v[i];
        let mut out = strip_tags_rec(v, i + 1);
        out.insert(0, c);
        proof {
            assert(rest[0] == c);
            assert(rest.skip(1) =~= v@.skip(i + 1));
            assert(out@ =~= strip_tags(rest));
        }
        out
    }
}

/// Applies `strip_html` to a value.
pub struct StripHtmlFilter;

impl StripHtmlFilter {
    /// The text with every HTML tag removed.
    pub fn apply(&self, input: &ExtractValueData, args: &Vec<JsonValue>) -> (r: Result<ExtractValueData, CrawlerError>)
        ensures
            res_model(r) == eval_strip_html(input@),
    {
        match input.as_str() {
            Some(s) => {
                let v = str_to_chars(s);
                proof {
                    assert(v@.skip(0) =~= v@);
                }
                let out = strip_tags_rec(&v, 0);
                Ok(ExtractValueData::String(chars_to_string(&out)))
            },
            None => Err(CrawlerError::Extraction(String::from_str("strip_html filter requires string input"))),
        }
    }
}

/// Applies `substring` to a value.
pub struct SubstringFilter;

impl SubstringFilter {
    /// The clamped character range starting at the first argument, with the
    /// optional second argument as its length.
    pub fn apply(&self, input: &ExtractValueData, args: &Vec<JsonValue>) -> (r: Result<ExtractValueData, CrawlerError>)
        ensures
            res_model(r) == eval_substring(crate::extract::step::json_model_entries_values(args@), input@),
    {
        proof {
            crate::extract::step::lemma_json_model_entries_values(args@);
        }
        match input.as_str() {
            Some(s) => {
                let v = str_to_chars(s);
                let n: usize = v.len();
                let start_arg = get_arg_int(args, 0);
                let len_arg = get_arg_int(args, 1);
                let stu: u64 = match start_arg {
                    Some(st) => if st < 0 { 0u64 } else { st as u64 },
                    None => 0u64,
                };
                let lo: usize = if stu > n as u64 { n } else { stu as usize };
                let hi: usize = match len_arg {
                    Some(l) => {
                        let l0: u64 = if l < 0 { 0u64 } else { l as u64 };
                        let sum: u64 = stu + l0;
                        if sum > n as u64 { n } else { sum as usize }
                    },
                    None => n,
                };
                let piece = crate::text::vec_range(&v, lo, hi);
                Ok(ExtractValueData::String(chars_to_string(&piece)))
            },
            None => Err(CrawlerError::Extraction(String::from_str("substring filter requires string input"))),
        }
    }
}

fn trim_end_slash_chars(v: &Vec<char>) -> (out: Vec<char>)
    ensures
        out@ == trim_end_slashes(v@),
{
    let mut hi: usize = v.len();
    proof {
        assert(v@.take(hi as int) =~= v@);
    }
    while hi > 0 && v[hi - 1] == '/'
        invariant
            hi <= v@.len(),
            trim_end_slashes(v@) == trim_end_slashes(v@.take(hi as int)),
        decreases hi,
    {
        proof {
            let part = v@.take(hi as int);
            assert(part.last() == v@[hi - 1]);
            assert(part.drop_last() =~= v@.take(hi - 1));
        }
        hi = hi - 1;
    }
    proof {
        let part = v@.take(hi as int);
        if hi > 0 {
            assert(part.last() == v@[hi - 1]);
        }
        assert(trim_end_slashes(part) == part);
    }
    crate::text::vec_range(v, 0, hi)
}

/// Applies `absolute_url` to a value.
pub struct AbsoluteUrlFilter;

impl AbsoluteUrlFilter {
    /// An absolute link unchanged; anything else resolved against the base
    /// given as the first argument.
    pub fn apply(&self, input: &ExtractValueData, args: &Vec<JsonValue>) -> (r: Result<ExtractValueData, CrawlerError>)
        ensures
            res_model(r) == eval_absolute_url(crate::extract::step::json_model_entries_values(args@), input@),
    {
        proof {
            crate::extract::step::lemma_json_model_entries_values(args@);
        }
        match input.as_str() {
            Some(url) => {
                let uv = str_to_chars(url);
                let http = str_to_chars("http://");
                let https = str_to_chars("https://");
                if match_at(&uv, &http, 0) || match_at(&uv, &https, 0) {
                    return Ok(ExtractValueData::String(String::from_str(url)));
                }
                let base: &str = match get_arg_str(args, 0) {
                    Some(t) => t,
                    None => {
                        return Err(CrawlerError::Extraction(String::from_str(
                            "absolute_url filter requires base_url argument",
                        )));
                    },
                };
                let bv0 = str_to_chars(base);
                let b = trim_end_slash_chars(&bv0);
                let mut out: Vec<char>;
                if uv.len() > 0 && uv[0] == '/' {
                    let marker = str_to_chars("://");
                    let slash = str_to_chars("/");
                    match find_sub(&b, &marker, 0) {
                        Some(idx) => {
                            let bn: usize = b.len();
                            proof {
                                crate::text::lemma_find_from_some(b@, "://"@, 0, idx as int);
                                assert(idx + marker@.len() <= bn);
                            }
                            match find_sub(&b, &slash, idx + marker.len()) {
                                Some(p) => {
                                    proof {
                                        crate::text::lemma_find_from_some(b@, "/"@, idx + "://"@.len(), p as int);
                                    }
                                    out = crate::text::vec_range(&b, 0, p);
                                    crate::text::push_all(&mut out, &uv);
                                    proof {
                                        assert(b@.take(p as int) =~= b@.subrange(0, p as int));
                                    }
                                },
                                None => {
                                    out = crate::text::vec_range(&b, 0, b.len());
                                    crate::text::push_all(&mut out, &uv);
                                    proof {
                                        assert(b@.subrange(0, b@.len() as int) =~= b@);
                                    }
                                },
                            }
                        },
                        None => {
                            out = crate::text::vec_range(&b, 0, b.len());
                            crate::text::push_all(&mut out, &uv);
                            proof {
                                assert(b@.subrange(0, b@.len() as int) =~= b@);
                            }
                        },
                    }
                } else {
                    out = crate::text::vec_range(&b, 0, b.len());
                    out.push('/');
                    crate::text::push_all(&mut out, &uv);
                    proof {
                        assert(b@.subrange(0, b@.len() as int) =~= b@);
                        assert(out@ =~= trim_end_slashes(base@) + seq!['/'] + url@);
                    }
                }
                Ok(ExtractValueData::String(chars_to_string(&out)))
            },
            None => Err(CrawlerError::Extraction(String::from_str("absolute_url filter requires string input"))),
        }
    }
}

/// Applies the named filter to a value: the filter library's dispatcher.
/// Encoding a URL yields text whose decoding restores the input.
pub fn apply_filter(name: &str, args: &Vec<JsonValue>, input: &ExtractValueData) -> (r: Result<ExtractValueData, CrawlerError>)
    ensures
        res_model(r) == eval_filter(name@, crate::extract::step::json_model_entries_values(args@), input@),
        name@ == "url_encode"@ ==> (r matches Ok(v)
            ==> url_decoded_of(val_text(v@)) == Some(val_text(input@))),
{
    proof {
        reveal_strlit("trim");
        reveal_strlit("lower");
        reveal_strlit("upper");
        reveal_strlit("replace");
        reveal_strlit("regex_replace");
        reveal_strlit("split");
        reveal_strlit("join");
        reveal_strlit("strip_html");
        reveal_strlit("substring");
        reveal_strlit("to_int");
        reveal_strlit("to_string");
        reveal_strlit("absolute_url");
        reveal_strlit("url_encode");
        reveal_strlit("url_decode");
        assert("trim"@.len() == 4);
        assert("lower"@.len() == 5);
        assert("upper"@.len() == 5);
        assert("replace"@.len() == 7);
        assert("regex_replace"@.len() == 13);
        assert("split"@.len() == 5);
        assert("join"@.len() == 4);
        assert("substring"@.len() == 9);
        assert("to_int"@.len() == 6);
        assert("to_string"@.len() == 9);
        assert("absolute_url"@.len() == 12);
        assert("url_encode"@.len() == 10);
        assert("strip_html"@.len() == 10);
        assert("url_decode"@.len() == 10);
        assert("url_encode"@[4] == 'e');
        assert("url_decode"@[4] == 'd');
        assert("strip_html"@[0] == 's');
        assert("url_encode"@[0] == 'u');
    }
    if crate::text::str_eq(name, "trim") {
        TrimFilter.apply(input, args)
    } else if crate::text::str_eq(name, "lower") {
        LowerFilter.apply(input, args)
    } else if crate::text::str_eq(name, "upper") {
        UpperFilter.apply(input, args)
    } else if crate::text::str_eq(name, "replace") {
        ReplaceFilter.apply(input, args)
    } else if crate::text::str_eq(name, "regex_replace") {
        RegexReplaceFilter.apply(input, args)
    } else if crate::text::str_eq(name, "split") {
        SplitFilter.apply(input, args)
    } else if crate::text::str_eq(name, "join") {
        JoinFilter.apply(input, args)
    } else if crate::text::str_eq(name, "strip_html") {
        StripHtmlFilter.apply(input, args)
    } else if crate::text::str_eq(name, "substring") {
        SubstringFilter.apply(input, args)
    } else if crate::text::str_eq(name, "to_int") {
        ToIntFilter.apply(input, args)
    } else if crate::text::str_eq(name, "to_string") {
        ToStringFilter.apply(input, args)
    } else if crate::text::str_eq(name, "absolute_url") {
        AbsoluteUrlFilter.apply(input, args)
    } else if crate::text::str_eq(name, "url_encode") {
        UrlEncodeFilter.apply(input, args)
    } else if crate::text::str_eq(name, "url_decode") {
        UrlDecodeFilter.apply(input, args)
    } else {
        let mut m = String::from_str("Unknown filter: ");
        m.append(name);
        Err(CrawlerError::Extraction(m))
    }
}


/// String pieces wrapped as values carry exactly their texts.
pub proof fn lemma_texts_of_strings(parts: Seq<Seq<char>>)
    ensures
        texts_of(strs_to_vals(parts)) == parts,
    decreases parts.len(),
{
    if parts.len() > 0 {
        lemma_texts_of_strings(parts.skip(1));
        assert(strs_to_vals(parts).skip(1) =~= strs_to_vals(parts.skip(1)));
        assert(strs_to_vals(parts)[0] == ValModel::Str(parts[0]));
        assert(texts_of(strs_to_vals(parts)) =~= parts);
    } else {
        assert(texts_of(strs_to_vals(parts)) =~= parts);
    }
}

/// The split–join round trip: splitting a string on a non-empty separator
/// and joining the pieces with the same separator restores the string.
pub proof fn lemma_split_join_round_trip(args: Seq<JsonModel>, s: Seq<char>)
    requires
        arg_str(args, 0) is Some,
        arg_str(args, 0)->Some_0.len() > 0,
    ensures
        ({
            let sep = arg_str(args, 0)->Some_0;
            &&& eval_split_text(args, s) == Ok::<ValModel, ErrModel>(ValModel::Arr(
                strs_to_vals(split_seq(s, sep)),
            ))
            &&& eval_join(args, ValModel::Arr(strs_to_vals(split_seq(s, sep))))
                == Ok::<ValModel, ErrModel>(ValModel::Str(s))
        }),
{
    let sep = arg_str(args, 0)->Some_0;
    lemma_texts_of_strings(split_seq(s, sep));
    crate::text::lemma_split_join(s, sep);
}

/// The decimal round trip: reading a canonically rendered integer back and
/// rendering it again restores the text, for every integer.
pub proof fn lemma_int_filter_round_trip(n: i64)
    ensures
        eval_to_int(ValModel::Str(int_to_string_spec(n as int)))
            == Ok::<ValModel, ErrModel>(ValModel::Json(JsonModel::Num(int_to_string_spec(n as int)))),
        eval_to_string(ValModel::Json(JsonModel::Num(int_to_string_spec(n as int))))
            == Ok::<ValModel, ErrModel>(ValModel::Str(int_to_string_spec(n as int))),
{
    crate::text::lemma_int_string_round_trip(n);
}

} // verus!
