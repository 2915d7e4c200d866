//! Element selection over HTML text: a compact selector dialect of the form
//! `tag`, `.class`, `#id` and their combinations, matched against tags
//! scanned directly out of the markup.
//!
//! The dialect reads tags whose attribute values do not contain `>`;
//! elements left unclosed are passed over.

use vstd::prelude::*;
use crate::text::{is_space_char, find_from, lemma_find_from_some, matches_at};
use crate::value::{ExtractValueData, ValModel, val_model_seq, lemma_val_model_seq};

verus! {

broadcast use vstd::std_specs::vec::group_vec_axioms;

/// Whether a character may appear in a tag, class or id name.
pub open spec fn name_char(c: char) -> bool {
    ('a' <= c && c <= 'z') || ('A' <= c && c <= 'Z') || ('0' <= c && c <= '9')
        || c == '-' || c == '_'
}

/// The end of the name run starting at `i`.
pub open spec fn name_end(s: Seq<char>, i: int) -> int
    decreases s.len() - i,
{
    if 0 <= i && i < s.len() && name_char(s[i]) {
        name_end(s, i + 1)
    } else {
        i
    }
}

/// A name run stays inside the string.
pub proof fn lemma_name_end(s: Seq<char>, i: int)
    requires
        0 <= i <= s.len(),
    ensures
        i <= name_end(s, i) <= s.len(),
    decreases s.len() - i,
{
    if i < s.len() && name_char(s[i]) {
        lemma_name_end(s, i + 1);
    }
}

/// A parsed selector: an optional tag, an optional id, and class names.
#[verifier::ext_equal]
pub struct SelectorModel {
    /// The element name to match, if the selector names one.
    pub tag: Option<Seq<char>>,
    /// The id to match, if the selector names one.
    pub id: Option<Seq<char>>,
    /// Class names that must all be present.
    pub classes: Seq<Seq<char>>,
}

/// The `.class` and `#id` parts of a selector from position `i` on.
pub open spec fn parse_sel_parts(s: Seq<char>, i: int) -> Option<(Seq<Seq<char>>, Option<Seq<char>>)>
    decreases s.len() - i,
    via parse_sel_parts_decreases
{
    if !(0 <= i <= s.len()) {
        None
    } else if i == s.len() {
        Some((Seq::<Seq<char>>::empty(), None::<Seq<char>>))
    } else if s[i] == '.' {
        let e = name_end(s, i + 1);
        if e == i + 1 {
            None
        } else {
            match parse_sel_parts(s, e) {
                None => None,
                Some((cls, id)) => Some((seq![s.subrange(i + 1, e)] + cls, id)),
            }
        }
    } else if s[i] == '#' {
        let e = name_end(s, i + 1);
        if e == i + 1 {
            None
        } else {
            match parse_sel_parts(s, e) {
                None => None,
                Some((cls, id)) => if id is Some {
                    None
                } else {
                    Some((cls, Some(s.subrange(i + 1, e))))
                },
            }
        }
    } else {
        None
    }
}

#[via_fn]
proof fn parse_sel_parts_decreases(s: Seq<char>, i: int) {
    if 0 <= i && i < s.len() && (s[i] == '.' || s[i] == '#') {
        lemma_name_end(s, i + 1);
    }
}

/// How a selector reads: an optional leading tag name, followed by `.class`
/// and at most one `#id` part. Anything else does not parse.
pub open spec fn parse_selector(s: Seq<char>) -> Option<SelectorModel> {
    if s.len() == 0 {
        None
    } else {
        let e = name_end(s, 0);
        let tag = if e > 0 { Some(s.subrange(0, e)) } else { None::<Seq<char>> };
        match parse_sel_parts(s, e) {
            None => None,
            Some((cls, id)) => Some(SelectorModel { tag, id, classes: cls }),
        }
    }
}

/// Whether an open tag starts at `i`.
pub open spec fn tag_open_at(s: Seq<char>, i: int) -> bool {
    0 <= i && i + 1 < s.len() && s[i] == '<' && name_char(s[i + 1])
}

/// Whether a character may appear in an attribute name.
pub open spec fn attr_name_char(c: char) -> bool {
    !is_space_char(c) && c != '=' && c != '/' && c != '>' && c != '"' && c != '\''
}

/// The end of the attribute-name run starting at `i`, within `end`.
pub open spec fn attr_name_end(s: Seq<char>, i: int, end: int) -> int
    decreases end - i,
{
    if 0 <= i && i < end && end <= s.len() && attr_name_char(s[i]) {
        attr_name_end(s, i + 1, end)
    } else {
        i
    }
}

/// An attribute-name run stays inside its region.
pub proof fn lemma_attr_name_end(s: Seq<char>, i: int, end: int)
    requires
        0 <= i <= end <= s.len(),
    ensures
        i <= attr_name_end(s, i, end) <= end,
    decreases end - i,
{
    if i < end && attr_name_char(s[i]) {
        lemma_attr_name_end(s, i + 1, end);
    }
}

/// The end of an unquoted attribute value starting at `i`, within `end`.
pub open spec fn bare_value_end(s: Seq<char>, i: int, end: int) -> int
    decreases end - i,
{
    if 0 <= i && i < end && end <= s.len() && !is_space_char(s[i]) {
        bare_value_end(s, i + 1, end)
    } else {
        i
    }
}

/// An unquoted value stays inside its region.
pub proof fn lemma_bare_value_end(s: Seq<char>, i: int, end: int)
    requires
        0 <= i <= end <= s.len(),
    ensures
        i <= bare_value_end(s, i, end) <= end,
    decreases end - i,
{
    if i < end && !is_space_char(s[i]) {
        lemma_bare_value_end(s, i + 1, end);
    }
}

/// The first position of `c` in `[i, end)`, if any.
pub open spec fn find_before(s: Seq<char>, c: char, i: int, end: int) -> Option<int>
    decreases end - i,
{
    if !(0 <= i && i < end && end <= s.len()) {
        None
    } else if s[i] == c {
        Some(i)
    } else {
        find_before(s, c, i + 1, end)
    }
}

/// What `find_before` reports lies in range and carries `c`.
pub proof fn lemma_find_before(s: Seq<char>, c: char, i: int, end: int, j: int)
    requires
        find_before(s, c, i, end) == Some(j),
    ensures
        i <= j < end <= s.len(),
        s[j] == c,
    decreases end - i,
{
    if 0 <= i && i < end && end <= s.len() && s[i] != c {
        lemma_find_before(s, c, i + 1, end, j);
    }
}

/// The attributes written in `[i, end)`: names with their values, a missing
/// value read as empty.
pub open spec fn parse_attrs(s: Seq<char>, i: int, end: int) -> Seq<(Seq<char>, Seq<char>)>
    decreases end - i,
    via parse_attrs_decreases
{
    if !(0 <= i && i < end && end <= s.len()) {
        Seq::<(Seq<char>, Seq<char>)>::empty()
    } else if is_space_char(s[i]) {
        parse_attrs(s, i + 1, end)
    } else {
        let e = attr_name_end(s, i, end);
        if e == i {
            parse_attrs(s, i + 1, end)
        } else {
            let name = s.subrange(i, e);
            if e < end && s[e] == '=' {
                if e + 1 < end && (s[e + 1] == '"' || s[e + 1] == '\'') {
                    let q = s[e + 1];
                    match find_before(s, q, e + 2, end) {
                        Some(j) => seq![(name, s.subrange(e + 2, j))] + parse_attrs(s, j + 1, end),
                        None => seq![(name, s.subrange(e + 2, end as int))],
                    }
                } else {
                    let ve = bare_value_end(s, e + 1, end);
                    if ve == e + 1 {
                        seq![(name, Seq::<char>::empty())] + parse_attrs(s, e + 1, end)
                    } else {
                        seq![(name, s.subrange(e + 1, ve))] + parse_attrs(s, ve, end)
                    }
                }
            } else {
                seq![(name, Seq::<char>::empty())] + parse_attrs(s, e, end)
            }
        }
    }
}

#[via_fn]
proof fn parse_attrs_decreases(s: Seq<char>, i: int, end: int) {
    if 0 <= i && i < end && end <= s.len() && !is_space_char(s[i]) {
        lemma_attr_name_end(s, i, end);
        let e = attr_name_end(s, i, end);
        if e > i && e < end && s[e] == '=' {
            if e + 1 < end && (s[e + 1] == '"' || s[e + 1] == '\'') {
                match find_before(s, s[e + 1], e + 2, end) {
                    Some(j) => {
                        lemma_find_before(s, s[e + 1], e + 2, end, j);
                    },
                    None => {},
                }
            } else {
                lemma_bare_value_end(s, e + 1, end);
            }
        }
    }
}

/// The first value bound to `name` in the attribute list.
pub open spec fn attr_lookup(attrs: Seq<(Seq<char>, Seq<char>)>, name: Seq<char>) -> Option<Seq<char>>
    decreases attrs.len(),
{
    if attrs.len() == 0 {
        None
    } else if attrs[0].0 == name {
        Some(attrs[0].1)
    } else {
        attr_lookup(attrs.skip(1), name)
    }
}

/// Whether the space-separated class attribute value contains `cls` as a
/// whole token at or after `i`.
pub open spec fn class_has_token(value: Seq<char>, cls: Seq<char>, i: int) -> bool
    decreases value.len() - i,
{
    if !(0 <= i <= value.len()) {
        false
    } else if matches_at(value, cls, i)
        && (i == 0 || is_space_char(value[i - 1]))
        && (i + cls.len() == value.len() || is_space_char(value[i + cls.len()])) {
        true
    } else if i == value.len() {
        false
    } else {
        class_has_token(value, cls, i + 1)
    }
}

/// Whether every selector class is a token of the class attribute.
pub open spec fn classes_all_match(attrs: Seq<(Seq<char>, Seq<char>)>, classes: Seq<Seq<char>>) -> bool
    decreases classes.len(),
{
    if classes.len() == 0 {
        true
    } else {
        match attr_lookup(attrs, "class"@) {
            None => false,
            Some(v) => class_has_token(v, classes[0], 0) && classes_all_match(attrs, classes.skip(1)),
        }
    }
}

/// The `>` that closes the tag opening at `i`.
pub open spec fn tag_close_pos(s: Seq<char>, i: int) -> Option<int> {
    find_from(s, seq!['>'], i + 1)
}

/// The attributes of the tag opening at `i`, given its closing `>`.
pub open spec fn tag_attrs(s: Seq<char>, i: int, close: int) -> Seq<(Seq<char>, Seq<char>)> {
    let ne = name_end(s, i + 1);
    let aend = if close >= 1 && s[close - 1] == '/' { close - 1 } else { close };
    parse_attrs(s, ne, aend)
}

/// Whether the tag opening at `i` matches the selector.
pub open spec fn sel_match_at(s: Seq<char>, q: SelectorModel, i: int) -> bool {
    &&& tag_open_at(s, i)
    &&& match tag_close_pos(s, i) {
        None => false,
        Some(close) => {
            let ne = name_end(s, i + 1);
            let name = s.subrange(i + 1, ne);
            let attrs = tag_attrs(s, i, close);
            &&& (q.tag is None || q.tag == Some(name))
            &&& (q.id is None || attr_lookup(attrs, "id"@) == Some(q.id->0))
            &&& classes_all_match(attrs, q.classes)
        },
    }
}

/// Element names that never hold content, so an open tag is the whole
/// element.
pub open spec fn is_void_name(name: Seq<char>) -> bool {
    ||| name == "area"@
    ||| name == "base"@
    ||| name == "br"@
    ||| name == "col"@
    ||| name == "embed"@
    ||| name == "hr"@
    ||| name == "img"@
    ||| name == "input"@
    ||| name == "link"@
    ||| name == "meta"@
    ||| name == "source"@
    ||| name == "track"@
    ||| name == "wbr"@
}

/// The position just past the close tag that ends an element named `name`,
/// scanning from `i` with `depth` elements of that name open.
pub open spec fn elem_end_from(s: Seq<char>, name: Seq<char>, i: int, depth: int) -> Option<int>
    decreases s.len() - i,
    via elem_end_from_decreases
{
    if !(0 <= i) || i >= s.len() {
        None
    } else if i + 1 < s.len() && s[i] == '<' && s[i + 1] == '/' {
        let ne = name_end(s, i + 2);
        let cname = s.subrange(i + 2, ne);
        match find_from(s, seq!['>'], i + 1) {
            None => None,
            Some(close) => if cname == name {
                if depth <= 1 {
                    Some(close + 1)
                } else {
                    elem_end_from(s, name, close + 1, depth - 1)
                }
            } else {
                elem_end_from(s, name, close + 1, depth)
            },
        }
    } else if tag_open_at(s, i) {
        let ne = name_end(s, i + 1);
        let oname = s.subrange(i + 1, ne);
        match find_from(s, seq!['>'], i + 1) {
            None => None,
            Some(close) => {
                let self_c = close >= 1 && s[close - 1] == '/';
                if oname == name && !self_c && !is_void_name(oname) {
                    elem_end_from(s, name, close + 1, depth + 1)
                } else {
                    elem_end_from(s, name, close + 1, depth)
                }
            },
        }
    } else {
        elem_end_from(s, name, i + 1, depth)
    }
}

#[via_fn]
proof fn elem_end_from_decreases(s: Seq<char>, name: Seq<char>, i: int, depth: int) {
    if 0 <= i && i < s.len() {
        match find_from(s, seq!['>'], i + 1) {
            Some(close) => {
                if i + 1 <= s.len() {
                    lemma_find_from_some(s, seq!['>'], i + 1, close);
                }
            },
            None => {},
        }
    }
}

/// The end of the element whose open tag starts at `i` and closes at
/// `close`: the open tag itself for a self-closing or void element, else
/// just past the matching close tag.
pub open spec fn elem_outer_end(s: Seq<char>, i: int, close: int) -> Option<int> {
    let ne = name_end(s, i + 1);
    let name = s.subrange(i + 1, ne);
    let self_c = close >= 1 && s[close - 1] == '/';
    if self_c || is_void_name(name) {
        Some(close + 1)
    } else {
        elem_end_from(s, name, close + 1, 1)
    }
}

/// Every element matching the selector, in document order of its open tag,
/// as its outer HTML; an element left unclosed is passed over.
pub open spec fn css_scan(s: Seq<char>, q: SelectorModel, i: int) -> Seq<Seq<char>>
    decreases s.len() - i,
{
    if !(0 <= i) || i >= s.len() {
        Seq::<Seq<char>>::empty()
    } else if sel_match_at(s, q, i) {
        let close = tag_close_pos(s, i)->Some_0;
        match elem_outer_end(s, i, close) {
            Some(e) => seq![s.subrange(i, e)] + css_scan(s, q, i + 1),
            None => css_scan(s, q, i + 1),
        }
    } else {
        css_scan(s, q, i + 1)
    }
}

/// What a CSS step produces over HTML text: absent when the selector does
/// not parse, else the matching elements in document order.
pub open spec fn css_select_model(sel: Seq<char>, html: Seq<char>) -> Option<Seq<Seq<char>>> {
    match parse_selector(sel) {
        None => None,
        Some(q) => Some(css_scan(html, q, 0)),
    }
}

/// The named attribute of the first tag in the snippet, if both exist.
pub open spec fn first_tag_attr(s: Seq<char>, attr: Seq<char>, i: int) -> Option<Seq<char>>
    decreases s.len() - i,
{
    if !(0 <= i) || i >= s.len() {
        None
    } else if tag_open_at(s, i) {
        match tag_close_pos(s, i) {
            None => None,
            Some(close) => attr_lookup(tag_attrs(s, i, close), attr),
        }
    } else {
        first_tag_attr(s, attr, i + 1)
    }
}


/// The views of a sequence of character vectors, in order.
pub open spec fn chars_views(vs: Seq<Vec<char>>) -> Seq<Seq<char>> {
    Seq::new(vs.len(), |i: int| vs[i]@)
}

/// The views of a sequence of attribute pairs, in order.
pub open spec fn pair_views(vs: Seq<(Vec<char>, Vec<char>)>) -> Seq<(Seq<char>, Seq<char>)> {
    Seq::new(vs.len(), |i: int| (vs[i].0@, vs[i].1@))
}

/// A parsed selector, ready to match tags.
#[derive(Debug)]
pub struct Selector {
    tag: Option<Vec<char>>,
    id: Option<Vec<char>>,
    classes: Vec<Vec<char>>,
}

impl View for Selector {
    type V = SelectorModel;

    closed spec fn view(&self) -> SelectorModel {
        SelectorModel {
            tag: match self.tag {
                Some(t) => Some(t@),
                None => None,
            },
            id: match self.id {
                Some(t) => Some(t@),
                None => None,
            },
            classes: chars_views(self.classes@),
        }
    }
}

fn name_end_at(v: &Vec<char>, i: usize) -> (r: usize)
    requires
        i <= v@.len(),
    ensures
        r == name_end(v@, i as int),
        i <= r <= v@.len(),
    decreases v@.len() - i,
{
    if i < v.len() {
        let c = v[i];
        if ('a' <= c && c <= 'z') || ('A' <= c && c <= 'Z') || ('0' <= c && c <= '9')
            || c == '-' || c == '_' {
            return name_end_at(v, i + 1);
        }
    }
    i
}

fn sel_parts_at(v: &Vec<char>, i: usize) -> (r: Option<(Vec<Vec<char>>, Option<Vec<char>>)>)
    requires
        i <= v@.len(),
    ensures
        match r {
            Some((cls, id)) => parse_sel_parts(v@, i as int) == Some((chars_views(cls@), match id {
                Some(t) => Some(t@),
                None => None::<Seq<char>>,
            })),
            None => parse_sel_parts(v@, i as int) is None,
        },
    decreases v@.len() - i,
{
    if i == v.len() {
        let cls: Vec<Vec<char>> = Vec::new();
        proof {
            assert(chars_views(cls@) =~= Seq::<Seq<char>>::empty());
        }
        Some((cls, None))
    } else if v[i] == '.' {
        let e = name_end_at(v, i + 1);
        if e == i + 1 {
            None
        } else {
            let name = crate::text::vec_range(v, i + 1, e);
            match sel_parts_at(v, e) {
                None => None,
                Some((mut cls, id)) => {
                    let ghost prev = cls@;
                    cls.insert(0, name);
                    proof {
                        let spec_r = parse_sel_parts(v@, i as int)->Some_0;
                        assert forall|k: int| 0 <= k < cls@.len()
                            implies chars_views(cls@)[k] == spec_r.0[k] by {
                            if k > 0 {
                                assert(cls@[k] == prev[k - 1]);
                            }
                        }
                        assert(chars_views(cls@) =~= spec_r.0);
                    }
                    Some((cls, id))
                },
            }
        }
    } else if v[i] == '#' {
        let e = name_end_at(v, i + 1);
        if e == i + 1 {
            None
        } else {
            let name = crate::text::vec_range(v, i + 1, e);
            match sel_parts_at(v, e) {
                None => None,
                Some((cls, id)) => match id {
                    Some(_) => None,
                    None => Some((cls, Some(name))),
                },
            }
        }
    } else {
        None
    }
}

/// The selector parsed out of its text, if it parses.
pub fn parse_sel(sel: &str) -> (r: Option<Selector>)
    ensures
        match r {
            Some(q) => parse_selector(sel@) == Some(q@),
            None => parse_selector(sel@) is None,
        },
{
    let v = crate::text::str_to_chars(sel);
    if v.len() == 0 {
        return None;
    }
    let e = name_end_at(&v, 0);
    let tag = if e > 0 {
        Some(crate::text::vec_range(&v, 0, e))
    } else {
        None
    };
    match sel_parts_at(&v, e) {
        None => None,
        Some((cls, id)) => Some(Selector { tag, id, classes: cls }),
    }
}

fn attr_name_end_at(v: &Vec<char>, i: usize, end: usize) -> (r: usize)
    requires
        i <= end <= v@.len(),
    ensures
        r == attr_name_end(v@, i as int, end as int),
        i <= r <= end,
    decreases end - i,
{
    if i < end {
        let c = v[i];
        if !(crate::text::is_space(c) || c == '=' || c == '/' || c == '>' || c == '"' || c == '\'') {
            return attr_name_end_at(v, i + 1, end);
        }
    }
    i
}

fn bare_value_end_at(v: &Vec<char>, i: usize, end: usize) -> (r: usize)
    requires
        i <= end <= v@.len(),
    ensures
        r == bare_value_end(v@, i as int, end as int),
        i <= r <= end,
    decreases end - i,
{
    if i < end && !crate::text::is_space(v[i]) {
        bare_value_end_at(v, i + 1, end)
    } else {
        i
    }
}

fn find_before_at(v: &Vec<char>, c: char, i: usize, end: usize) -> (r: Option<usize>)
    requires
        i <= end <= v@.len(),
    ensures
        match r {
            Some(j) => find_before(v@, c, i as int, end as int) == Some(j as int)
                && i <= j < end,
            None => find_before(v@, c, i as int, end as int) is None,
        },
    decreases end - i,
{
    if i >= end {
        None
    } else if v[i] == c {
        Some(i)
    } else {
        find_before_at(v, c, i + 1, end)
    }
}

fn parse_attrs_at(v: &Vec<char>, i: usize, end: usize) -> (out: Vec<(Vec<char>, Vec<char>)>)
    requires
        i <= end <= v@.len(),
    ensures
        pair_views(out@) == parse_attrs(v@, i as int, end as int),
    decreases end - i,
{
    if i >= end {
        let out: Vec<(Vec<char>, Vec<char>)> = Vec::new();
        proof {
            assert(pair_views(out@) =~= parse_attrs(v@, i as int, end as int));
        }
        out
    } else if crate::text::is_space(v[i]) {
        parse_attrs_at(v, i + 1, end)
    } else {
        let e = attr_name_end_at(v, i, end);
        if e == i {
            parse_attrs_at(v, i + 1, end)
        } else {
            let name = crate::text::vec_range(v, i, e);
            if e < end && v[e] == '=' {
                if e + 1 < end && (v[e + 1] == '"' || v[e + 1] == '\'') {
                    let q = v[e + 1];
                    match find_before_at(v, q, e + 2, end) {
                        Some(j) => {
                            let value = crate::text::vec_range(v, e + 2, j);
                            let mut rest = parse_attrs_at(v, j + 1, end);
                            let ghost prev = rest@;
                            rest.insert(0, (name, value));
                            proof {
                                assert forall|k: int| 0 <= k < rest@.len()
                                    implies pair_views(rest@)[k]
                                        == parse_attrs(v@, i as int, end as int)[k] by {
                                    if k > 0 {
                                        assert(rest@[k] == prev[k - 1]);
                                    }
                                }
                                assert(pair_views(rest@) =~= parse_attrs(v@, i as int, end as int));
                            }
                            rest
                        },
                        None => {
                            let value = crate::text::vec_range(v, e + 2, end);
                            let mut out: Vec<(Vec<char>, Vec<char>)> = Vec::new();
                            out.push((name, value));
                            proof {
                                assert(pair_views(out@) =~= parse_attrs(v@, i as int, end as int));
                            }
                            out
                        },
                    }
                } else {
                    let ve = bare_value_end_at(v, e + 1, end);
                    if ve == e + 1 {
                        let mut rest = parse_attrs_at(v, e + 1, end);
                        let ghost prev = rest@;
                        rest.insert(0, (name, Vec::new()));
                        proof {
                            assert forall|k: int| 0 <= k < rest@.len()
                                implies pair_views(rest@)[k]
                                    == parse_attrs(v@, i as int, end as int)[k] by {
                                if k > 0 {
                                    assert(rest@[k] == prev[k - 1]);
                                }
                            }
                            assert(pair_views(rest@) =~= parse_attrs(v@, i as int, end as int));
                        }
                        rest
                    } else {
                        let value = crate::text::vec_range(v, e + 1, ve);
                        let mut rest = parse_attrs_at(v, ve, end);
                        let ghost prev = rest@;
                        rest.insert(0, (name, value));
                        proof {
                            assert forall|k: int| 0 <= k < rest@.len()
                                implies pair_views(rest@)[k]
                                    == parse_attrs(v@, i as int, end as int)[k] by {
                                if k > 0 {
                                    assert(rest@[k] == prev[k - 1]);
                                }
                            }
                            assert(pair_views(rest@) =~= parse_attrs(v@, i as int, end as int));
                        }
                        rest
                    }
                }
            } else {
                let mut rest = parse_attrs_at(v, e, end);
                let ghost prev = rest@;
                rest.insert(0, (name, Vec::new()));
                proof {
                    assert forall|k: int| 0 <= k < rest@.len()
                        implies pair_views(rest@)[k]
                            == parse_attrs(v@, i as int, end as int)[k] by {
                        if k > 0 {
                            assert(rest@[k] == prev[k - 1]);
                        }
                    }
                    assert(pair_views(rest@) =~= parse_attrs(v@, i as int, end as int));
                }
                rest
            }
        }
    }
}

fn attr_lookup_at<'a>(attrs: &'a Vec<(Vec<char>, Vec<char>)>, name: &Vec<char>, i: usize)
    -> (r: Option<&'a Vec<char>>)
    requires
        i <= attrs@.len(),
    ensures
        match r {
            Some(value) => attr_lookup(pair_views(attrs@).skip(i as int), name@) == Some(value@),
            None => attr_lookup(pair_views(attrs@).skip(i as int), name@) is None,
        },
    decreases attrs@.len() - i,
{
    let ghost views = pair_views(attrs@);
    if i == attrs.len() {
        proof {
            assert(views.skip(i as int).len() == 0);
        }
        None
    } else {
        proof {
            assert(views.skip(i as int)[0] == views[i as int]);
            assert(views.skip(i as int).skip(1) =~= views.skip(i + 1));
        }
        if crate::text::chars_eq(&attrs[i].0, name) {
            Some(&attrs[i].1)
        } else {
            attr_lookup_at(attrs, name, i + 1)
        }
    }
}

fn class_token_at(value: &Vec<char>, cls: &Vec<char>, i: usize) -> (r: bool)
    requires
        i <= value@.len(),
    ensures
        r == class_has_token(value@, cls@, i as int),
    decreases value@.len() - i,
{
    let hit = crate::text::match_at(value, cls, i);
    let n: usize = value.len();
    if hit {
        let left_ok = i == 0 || crate::text::is_space(value[i - 1]);
        if left_ok {
            proof {
                assert(i + cls@.len() <= n);
            }
            let right: usize = i + cls.len();
            let right_ok = right == n || crate::text::is_space(value[right]);
            if right_ok {
                return true;
            }
        }
    }
    if i == n {
        false
    } else {
        class_token_at(value, cls, i + 1)
    }
}

fn classes_match_at(attrs: &Vec<(Vec<char>, Vec<char>)>, classes: &Vec<Vec<char>>, i: usize) -> (r: bool)
    requires
        i <= classes@.len(),
    ensures
        r == classes_all_match(pair_views(attrs@), chars_views(classes@).skip(i as int)),
    decreases classes@.len() - i,
{
    let ghost cviews = chars_views(classes@);
    if i == classes.len() {
        proof {
            assert(cviews.skip(i as int).len() == 0);
        }
        true
    } else {
        proof {
            assert(cviews.skip(i as int)[0] == cviews[i as int]);
            assert(cviews.skip(i as int).skip(1) =~= cviews.skip(i + 1));
        }
        let class_name = str_chars_class();
        match attr_lookup_at(attrs, &class_name, 0) {
            None => {
                proof {
                    assert(pair_views(attrs@).skip(0) =~= pair_views(attrs@));
                }
                false
            },
            Some(value) => {
                proof {
                    assert(pair_views(attrs@).skip(0) =~= pair_views(attrs@));
                }
                if class_token_at(value, &classes[i], 0) {
                    classes_match_at(attrs, classes, i + 1)
                } else {
                    false
                }
            },
        }
    }
}

fn str_chars_class() -> (r: Vec<char>)
    ensures
        r@ == "class"@,
{
    crate::text::str_to_chars("class")
}


fn is_name_char(c: char) -> (r: bool)
    ensures
        r == name_char(c),
{
    ('a' <= c && c <= 'z') || ('A' <= c && c <= 'Z') || ('0' <= c && c <= '9')
        || c == '-' || c == '_'
}

fn find_gt(v: &Vec<char>, i: usize) -> (r: Option<usize>)
    requires
        i <= v@.len(),
    ensures
        match r {
            Some(j) => find_from(v@, seq!['>'], i as int) == Some(j as int) && i <= j
                && j + 1 <= v@.len(),
            None => find_from(v@, seq!['>'], i as int) is None,
        },
{
    let gt = crate::text::str_to_chars(">");
    proof {
        reveal_strlit(">");
        assert(gt@ =~= seq!['>']);
    }
    let r = crate::text::find_sub(v, &gt, i);
    proof {
        match r {
            Some(j) => {
                lemma_find_from_some(v@, seq!['>'], i as int, j as int);
            },
            None => {},
        }
    }
    r
}

fn sel_match(v: &Vec<char>, q: &Selector, i: usize) -> (r: bool)
    requires
        i <= v@.len(),
    ensures
        r == sel_match_at(v@, q@, i as int),
{
    let n: usize = v.len();
    if !(i < n && i + 1 < n && v[i] == '<' && is_name_char(v[i + 1])) {
        return false;
    }
    match find_gt(v, i + 1) {
        None => false,
        Some(close) => {
            let ne = name_end_at(v, i + 1);
            let aend: usize = if close >= 1 && v[close - 1] == '/' { close - 1 } else { close };
            proof {
                assert(ne == name_end(v@, i + 1));
                assert(aend <= v@.len());
            }
            let tag_ok = match &q.tag {
                Some(t) => {
                    proof {
                        lemma_name_end(v@, i + 1);
                    }
                    let name = crate::text::vec_range(v, i + 1, ne);
                    crate::text::chars_eq(&name, t)
                },
                None => true,
            };
            if !tag_ok {
                return false;
            }
            let attrs = if ne <= aend {
                parse_attrs_at(v, ne, aend)
            } else {
                let empty: Vec<(Vec<char>, Vec<char>)> = Vec::new();
                proof {
                    assert(pair_views(empty@) =~= parse_attrs(v@, ne as int, aend as int));
                }
                empty
            };
            let id_ok = match &q.id {
                Some(want) => {
                    let id_name = crate::text::str_to_chars("id");
                    proof {
                        reveal_strlit("id");
                        assert(id_name@ =~= "id"@);
                        assert(pair_views(attrs@).skip(0) =~= pair_views(attrs@));
                    }
                    match attr_lookup_at(&attrs, &id_name, 0) {
                        Some(value) => crate::text::chars_eq(value, want),
                        None => false,
                    }
                },
                None => true,
            };
            if !id_ok {
                return false;
            }
            proof {
                assert(chars_views(q.classes@).skip(0) =~= chars_views(q.classes@));
            }
            classes_match_at(&attrs, &q.classes, 0)
        },
    }
}

fn is_void(name: &Vec<char>) -> (r: bool)
    ensures
        r == is_void_name(name@),
{
    let names = ["area", "base", "br", "col", "embed", "hr", "img", "input", "link", "meta",
        "source", "track", "wbr"];
    crate::text::chars_eq(name, &crate::text::str_to_chars(names[0]))
        || crate::text::chars_eq(name, &crate::text::str_to_chars(names[1]))
        || crate::text::chars_eq(name, &crate::text::str_to_chars(names[2]))
        || crate::text::chars_eq(name, &crate::text::str_to_chars(names[3]))
        || crate::text::chars_eq(name, &crate::text::str_to_chars(names[4]))
        || crate::text::chars_eq(name, &crate::text::str_to_chars(names[5]))
        || crate::text::chars_eq(name, &crate::text::str_to_chars(names[6]))
        || crate::text::chars_eq(name, &crate::text::str_to_chars(names[7]))
        || crate::text::chars_eq(name, &crate::text::str_to_chars(names[8]))
        || crate::text::chars_eq(name, &crate::text::str_to_chars(names[9]))
        || crate::text::chars_eq(name, &crate::text::str_to_chars(names[10]))
        || crate::text::chars_eq(name, &crate::text::str_to_chars(names[11]))
        || crate::text::chars_eq(name, &crate::text::str_to_chars(names[12]))
}

fn elem_end_at(v: &Vec<char>, name: &Vec<char>, i: usize, depth: usize) -> (r: Option<usize>)
    requires
        i <= v@.len(),
        1 <= depth <= i,
    ensures
        match r {
            Some(e) => elem_end_from(v@, name@, i as int, depth as int) == Some(e as int)
                && i <= e <= v@.len(),
            None => elem_end_from(v@, name@, i as int, depth as int) is None,
        },
    decreases v@.len() - i,
{
    let n: usize = v.len();
    if i >= n {
        return None;
    }
    if i + 1 < n && v[i] == '<' && v[i + 1] == '/' {
        let ne = name_end_at(v, i + 2);
        proof {
            lemma_name_end(v@, i + 2);
        }
        let cname = crate::text::vec_range(v, i + 2, ne);
        match find_gt(v, i + 1) {
            None => None,
            Some(close) => {
                if crate::text::chars_eq(&cname, name) {
                    if depth <= 1 {
                        Some(close + 1)
                    } else {
                        elem_end_at(v, name, close + 1, depth - 1)
                    }
                } else {
                    elem_end_at(v, name, close + 1, depth)
                }
            },
        }
    } else if i + 1 < n && v[i] == '<' && is_name_char(v[i + 1]) {
        let ne = name_end_at(v, i + 1);
        proof {
            lemma_name_end(v@, i + 1);
        }
        let oname = crate::text::vec_range(v, i + 1, ne);
        match find_gt(v, i + 1) {
            None => None,
            Some(close) => {
                let self_c = close >= 1 && v[close - 1] == '/';
                if crate::text::chars_eq(&oname, name) && !self_c && !is_void(&oname) {
                    elem_end_at(v, name, close + 1, depth + 1)
                } else {
                    elem_end_at(v, name, close + 1, depth)
                }
            },
        }
    } else {
        elem_end_at(v, name, i + 1, depth)
    }
}

/// HTML snippets wrapped as HTML values, in order.
pub open spec fn htmls_of(parts: Seq<Seq<char>>) -> Seq<crate::value::ValModel> {
    Seq::new(parts.len(), |i: int| crate::value::ValModel::Html(parts[i]))
}

fn css_scan_at(v: &Vec<char>, q: &Selector, i: usize) -> (out: Vec<crate::value::ExtractValueData>)
    requires
        i <= v@.len(),
    ensures
        crate::value::val_model_seq(out@) == htmls_of(css_scan(v@, q@, i as int)),
    decreases v@.len() - i,
{
    if i >= v.len() {
        let out: Vec<ExtractValueData> = Vec::new();
        proof {
            lemma_val_model_seq(out@);
            assert(val_model_seq(out@) =~= htmls_of(css_scan(v@, q@, i as int)));
        }
        return out;
    }
    if sel_match(v, q, i) {
        let close = match find_gt(v, i + 1) {
            Some(c) => c,
            None => {
                proof {
                    assert(false);
                }
                0
            },
        };
        let ne = name_end_at(v, i + 1);
        proof {
            lemma_name_end(v@, i + 1);
        }
        let name = crate::text::vec_range(v, i + 1, ne);
        let self_c = close >= 1 && v[close - 1] == '/';
        let end: Option<usize> = if self_c || is_void(&name) {
            Some(close + 1)
        } else {
            elem_end_at(v, &name, close + 1, 1)
        };
        match end {
            Some(e) => {
                let snippet = crate::text::vec_range(v, i, e);
                let mut out = css_scan_at(v, q, i + 1);
                let ghost prev = out@;
                out.insert(0, ExtractValueData::Html(crate::text::chars_to_string(&snippet)));
                proof {
                    lemma_val_model_seq(out@);
                    lemma_val_model_seq(prev);
                    let parts = css_scan(v@, q@, i as int);
                    assert(parts == seq![v@.subrange(i as int, e as int)] + css_scan(v@, q@, i + 1));
                    assert forall|k: int| 0 <= k < out@.len()
                        implies val_model_seq(out@)[k] == htmls_of(parts)[k] by {
                        if k == 0 {
                            assert(out@[0]@ == ValModel::Html(v@.subrange(i as int, e as int)));
                        } else {
                            assert(out@[k] == prev[k - 1]);
                            assert(val_model_seq(prev)[k - 1]
                                == htmls_of(css_scan(v@, q@, i + 1))[k - 1]);
                            assert(parts[k] == css_scan(v@, q@, i + 1)[k - 1]);
                        }
                    }
                    assert(val_model_seq(out@) =~= htmls_of(parts));
                }
                out
            },
            None => css_scan_at(v, q, i + 1),
        }
    } else {
        css_scan_at(v, q, i + 1)
    }
}

/// Every element of the HTML matching the selector, in document order, as
/// HTML values; absent when the selector does not parse.
pub fn css_select(sel: &str, html: &str) -> (r: Option<Vec<crate::value::ExtractValueData>>)
    ensures
        match r {
            Some(out) => css_select_model(sel@, html@) is Some
                && crate::value::val_model_seq(out@) == htmls_of(css_select_model(sel@, html@)->Some_0),
            None => css_select_model(sel@, html@) is None,
        },
{
    match parse_sel(sel) {
        None => None,
        Some(q) => {
            let v = crate::text::str_to_chars(html);
            Some(css_scan_at(&v, &q, 0))
        },
    }
}

fn first_tag_attr_at<'a>(v: &Vec<char>, attr: &Vec<char>, i: usize) -> (r: Option<Vec<char>>)
    requires
        i <= v@.len(),
    ensures
        match r {
            Some(value) => first_tag_attr(v@, attr@, i as int) == Some(value@),
            None => first_tag_attr(v@, attr@, i as int) is None,
        },
    decreases v@.len() - i,
{
    let n: usize = v.len();
    if i >= n {
        return None;
    }
    if i + 1 < n && v[i] == '<' && is_name_char(v[i + 1]) {
        match find_gt(v, i + 1) {
            None => None,
            Some(close) => {
                let ne = name_end_at(v, i + 1);
                let aend: usize = if close >= 1 && v[close - 1] == '/' { close - 1 } else { close };
                let attrs = if ne <= aend {
                    parse_attrs_at(v, ne, aend)
                } else {
                    let empty: Vec<(Vec<char>, Vec<char>)> = Vec::new();
                    proof {
                        assert(pair_views(empty@) =~= parse_attrs(v@, ne as int, aend as int));
                    }
                    empty
                };
                proof {
                    assert(pair_views(attrs@).skip(0) =~= pair_views(attrs@));
                }
                match attr_lookup_at(&attrs, attr, 0) {
                    Some(value) => {
                        let owned = crate::text::vec_range(value, 0, value.len());
                        proof {
                            assert(owned@ =~= value@);
                        }
                        Some(owned)
                    },
                    None => None,
                }
            },
        }
    } else {
        first_tag_attr_at(v, attr, i + 1)
    }
}

/// The named attribute of the first tag of the snippet, if both exist.
pub fn read_first_attr(html: &str, attr: &str) -> (r: Option<String>)
    ensures
        match r {
            Some(value) => first_tag_attr(html@, attr@, 0) == Some(value@),
            None => first_tag_attr(html@, attr@, 0) is None,
        },
{
    let v = crate::text::str_to_chars(html);
    let a = crate::text::str_to_chars(attr);
    match first_tag_attr_at(&v, &a, 0) {
        Some(value) => Some(crate::text::chars_to_string(&value)),
        None => None,
    }
}

} // verus!
