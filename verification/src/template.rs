//! URL and string templates: plain text with `{{ name }}` placeholders that
//! render against the context's variables.

use vstd::prelude::*;
use crate::error::{CrawlerError, ErrModel};
use crate::jsonval::{JsonModel, JsonValue, json_text, json_to_string};
use crate::text::{find_from, lemma_find_from_some, lemma_find_shift, matches_at, is_space_char,
    str_to_chars, chars_to_string, vec_range, push_all, match_at, find_sub, is_space};
use crate::types::{ident_start_char, ident_part_char, ident_valid};
use crate::text::is_digit_char;
use crate::extract::context::lookup_binding;
use crate::extract::executor::json_walk;

verus! {

use vstd::string::StrSliceExecFns;
use vstd::string::StringExecFns;

broadcast use vstd::std_specs::vec::group_vec_axioms;

/// One piece of a parsed template: literal text, or a variable reference —
/// a root identifier followed by field and index segments.
#[verifier::ext_equal]
pub enum TplPart {
    /// Text copied through unchanged.
    Lit(Seq<char>),
    /// A placeholder: the referenced variable's root name first, then the
    /// path segments into its value.
    Var(Seq<Seq<char>>),
}

/// The end of the identifier run starting at `i`.
pub open spec fn ident_end(s: Seq<char>, i: int) -> int
    decreases s.len() - i,
{
    if 0 <= i && i < s.len() && ident_part_char(s[i]) {
        ident_end(s, i + 1)
    } else {
        i
    }
}

/// An identifier run stays inside the string.
pub proof fn lemma_ident_end(s: Seq<char>, i: int)
    requires
        0 <= i <= s.len(),
    ensures
        i <= ident_end(s, i) <= s.len(),
    decreases s.len() - i,
{
    if i < s.len() && ident_part_char(s[i]) {
        lemma_ident_end(s, i + 1);
    }
}

/// The end of the white-space run starting at `i`.
pub open spec fn space_end(s: Seq<char>, i: int) -> int
    decreases s.len() - i,
{
    if 0 <= i && i < s.len() && is_space_char(s[i]) {
        space_end(s, i + 1)
    } else {
        i
    }
}

/// A white-space run stays inside the string.
pub proof fn lemma_space_end(s: Seq<char>, i: int)
    requires
        0 <= i <= s.len(),
    ensures
        i <= space_end(s, i) <= s.len(),
    decreases s.len() - i,
{
    if i < s.len() && is_space_char(s[i]) {
        lemma_space_end(s, i + 1);
    }
}

/// The end of the digit run starting at `i`.
pub open spec fn digits_end(s: Seq<char>, i: int) -> int
    decreases s.len() - i,
{
    if 0 <= i && i < s.len() && is_digit_char(s[i]) {
        digits_end(s, i + 1)
    } else {
        i
    }
}

/// A digit run stays inside the string.
pub proof fn lemma_digits_end(s: Seq<char>, i: int)
    requires
        0 <= i <= s.len(),
    ensures
        i <= digits_end(s, i) <= s.len(),
    decreases s.len() - i,
{
    if i < s.len() && is_digit_char(s[i]) {
        lemma_digits_end(s, i + 1);
    }
}

/// The path segments after a placeholder's root: `.name` fields and
/// `[digits]` indices, ending where neither follows.
pub open spec fn parse_segs(s: Seq<char>, i: int) -> Option<(Seq<Seq<char>>, int)>
    decreases s.len() - i,
    via parse_segs_decreases
{
    if !(0 <= i <= s.len()) {
        None
    } else if i < s.len() && s[i] == '.' {
        let e = ident_end(s, i + 1);
        if e == i + 1 {
            None
        } else {
            match parse_segs(s, e) {
                None => None,
                Some((rest, j)) => Some((seq![s.subrange(i + 1, e)] + rest, j)),
            }
        }
    } else if i < s.len() && s[i] == '[' {
        let e = digits_end(s, i + 1);
        if e == i + 1 || !(e < s.len() && s[e] == ']') {
            None
        } else {
            match parse_segs(s, e + 1) {
                None => None,
                Some((rest, j)) => Some((seq![s.subrange(i + 1, e)] + rest, j)),
            }
        }
    } else {
        Some((Seq::<Seq<char>>::empty(), i))
    }
}

#[via_fn]
proof fn parse_segs_decreases(s: Seq<char>, i: int) {
    if 0 <= i && i < s.len() {
        if s[i] == '.' {
            lemma_ident_end(s, i + 1);
        } else if s[i] == '[' {
            lemma_digits_end(s, i + 1);
        }
    }
}

/// Parsed segments end within the string, past where they began.
pub proof fn lemma_parse_segs_pos(s: Seq<char>, i: int)
    requires
        0 <= i <= s.len(),
    ensures
        match parse_segs(s, i) {
            Some((segs, j)) => i <= j <= s.len(),
            None => true,
        },
    decreases s.len() - i,
{
    if i < s.len() && s[i] == '.' {
        lemma_ident_end(s, i + 1);
        let e = ident_end(s, i + 1);
        if e != i + 1 {
            lemma_parse_segs_pos(s, e);
        }
    } else if i < s.len() && s[i] == '[' {
        lemma_digits_end(s, i + 1);
        let e = digits_end(s, i + 1);
        if !(e == i + 1 || !(e < s.len() && s[e] == ']')) {
            lemma_parse_segs_pos(s, e + 1);
        }
    }
}

/// How a template reads from position `i` on: literal text up to each
/// `{{`, then a placeholder between optional spaces — a well-formed root
/// identifier with optional `.name` and `[digits]` segments — closed by
/// `}}`. A malformed placeholder does not parse.
pub open spec fn parse_template(s: Seq<char>, i: int) -> Option<Seq<TplPart>>
    decreases s.len() - i,
    via parse_template_decreases
{
    if !(0 <= i <= s.len()) {
        None
    } else {
        match find_from(s, "{{"@, i) {
            None => Some(seq![TplPart::Lit(s.subrange(i, s.len() as int))]),
            Some(j) => {
                let lit = s.subrange(i, j);
                let k = space_end(s, j + "{{"@.len());
                let e = ident_end(s, k);
                let name = s.subrange(k, e);
                if !ident_valid(name) {
                    None
                } else {
                    match parse_segs(s, e) {
                        None => None,
                        Some((segs, e2)) => {
                            let m = space_end(s, e2);
                            if !matches_at(s, "}}"@, m) {
                                None
                            } else {
                                match parse_template(s, m + "}}"@.len()) {
                                    None => None,
                                    Some(rest) => Some(
                                        seq![TplPart::Lit(lit), TplPart::Var(seq![name] + segs)]
                                            + rest,
                                    ),
                                }
                            }
                        },
                    }
                }
            },
        }
    }
}

#[via_fn]
proof fn parse_template_decreases(s: Seq<char>, i: int) {
    if 0 <= i <= s.len() {
        reveal_strlit("{{");
        reveal_strlit("}}");
        match find_from(s, "{{"@, i) {
            Some(j) => {
                lemma_find_from_some(s, "{{"@, i, j);
                lemma_space_end(s, j + 2);
                let k = space_end(s, j + 2);
                lemma_ident_end(s, k);
                let e = ident_end(s, k);
                lemma_parse_segs_pos(s, e);
                match parse_segs(s, e) {
                    Some((segs, e2)) => {
                        lemma_space_end(s, e2);
                    },
                    None => {},
                }
            },
            None => {},
        }
    }
}

/// How a parsed template renders: literals pass through; a placeholder
/// looks its root up and follows its field and index segments into the
/// value, rendering text as it is and anything else as canonical JSON; an
/// unbound root or a path that reaches nothing fails, naming the dotted
/// path.
pub open spec fn render_parts(parts: Seq<TplPart>, vars: Seq<(Seq<char>, JsonModel)>)
    -> Result<Seq<char>, ErrModel>
    decreases parts.len(),
{
    if parts.len() == 0 {
        Ok(Seq::<char>::empty())
    } else {
        let head = match parts[0] {
            TplPart::Lit(t) => Ok(t),
            TplPart::Var(segs) => if segs.len() == 0 {
                Err(ErrModel::UndefinedVariable { variable: Seq::<char>::empty() })
            } else {
                match lookup_binding(vars, segs[0]) {
                    Some(j) => match json_walk(j, segs, 1) {
                        Some(JsonModel::Str(t)) => Ok(t),
                        Some(other) => Ok(json_text(other)),
                        None => Err(ErrModel::UndefinedVariable {
                            variable: crate::text::join_seq(segs, seq!['.']),
                        }),
                    },
                    None => Err(ErrModel::UndefinedVariable {
                        variable: crate::text::join_seq(segs, seq!['.']),
                    }),
                }
            },
        };
        match head {
            Err(e) => Err(e),
            Ok(t) => match render_parts(parts.skip(1), vars) {
                Err(e) => Err(e),
                Ok(rest) => Ok(t + rest),
            },
        }
    }
}

/// A template: text with `{{ name }}` placeholders.
#[derive(Debug, PartialEq)]
pub struct Template {
    raw: String,
}

impl View for Template {
    type V = Seq<char>;

    closed spec fn view(&self) -> Seq<char> {
        self.raw@
    }
}

/// One parsed template piece, executable form.
#[derive(Debug)]
enum Part {
    /// Text copied through unchanged.
    Lit(String),
    /// A placeholder: the root name first, then the path segments.
    Var(Vec<String>),
}

impl Part {
    spec fn model(self) -> TplPart {
        match self {
            Part::Lit(t) => TplPart::Lit(t@),
            Part::Var(segs) => TplPart::Var(name_views(segs@)),
        }
    }
}

/// The models of parsed pieces, in order.
spec fn part_views(parts: Seq<Part>) -> Seq<TplPart> {
    Seq::new(parts.len(), |i: int| parts[i].model())
}

fn parse_at(v: &Vec<char>, i: usize) -> (r: Option<Vec<Part>>)
    requires
        i <= v@.len(),
    ensures
        match r {
            Some(parts) => parse_template(v@, i as int) == Some(part_views(parts@)),
            None => parse_template(v@, i as int) is None,
        },
    decreases v@.len() - i,
{
    let open = str_to_chars("{{");
    let close = str_to_chars("}}");
    proof {
        reveal_strlit("{{");
        reveal_strlit("}}");
        assert(open@ =~= "{{"@);
        assert(close@ =~= "}}"@);
    }
    match find_sub(v, &open, i) {
        None => {
            let lit = vec_range(v, i, v.len());
            proof {
                assert(lit@ =~= v@.subrange(i as int, v@.len() as int));
            }
            let mut parts: Vec<Part> = Vec::new();
            parts.push(Part::Lit(chars_to_string(&lit)));
            proof {
                assert(part_views(parts@) =~= seq![TplPart::Lit(v@.subrange(i as int, v@.len() as int))]);
            }
            Some(parts)
        },
        Some(j) => {
            let n: usize = v.len();
            proof {
                lemma_find_from_some(v@, "{{"@, i as int, j as int);
                assert(j + 2 <= n);
            }
            let lit = vec_range(v, i, j);
            let k = space_end_at(v, j + 2);
            let e = ident_end_at(v, k);
            let name = vec_range(v, k, e);
            if !ident_valid_chars(&name) {
                return None;
            }
            let parsed_segs = parse_segs_at(v, e);
            match parsed_segs {
                None => None,
                Some((segs, e2)) => {
                    let m = space_end_at(v, e2);
                    if !match_at(v, &close, m) {
                        return None;
                    }
                    proof {
                        assert(m + 2 <= n);
                    }
                    match parse_at(v, m + 2) {
                        None => None,
                        Some(rest) => {
                            let mut path: Vec<String> = Vec::new();
                            path.push(chars_to_string(&name));
                            let ghost one = path@;
                            let mut more = segs;
                            let ghost more0 = more@;
                            path.append(&mut more);
                            proof {
                                assert forall|t: int| 0 <= t < path@.len()
                                    implies name_views(path@)[t]
                                        == (seq![v@.subrange(k as int, e as int)]
                                            + name_views(more0))[t] by {
                                    if t == 0 {
                                        assert(path@[0] == one[0]);
                                    } else {
                                        assert(path@[t] == more0[t - 1]);
                                    }
                                }
                                assert(name_views(path@)
                                    =~= seq![v@.subrange(k as int, e as int)] + name_views(more0));
                            }
                            let mut parts: Vec<Part> = Vec::new();
                            parts.push(Part::Lit(chars_to_string(&lit)));
                            parts.push(Part::Var(path));
                            let ghost two = parts@;
                            let mut tail = rest;
                            let ghost tail0 = tail@;
                            parts.append(&mut tail);
                            proof {
                                let spec_parts = parse_template(v@, i as int)->Some_0;
                                assert forall|t: int| 0 <= t < parts@.len()
                                    implies part_views(parts@)[t] == spec_parts[t] by {
                                    if t < 2 {
                                        assert(parts@[t] == two[t]);
                                    } else {
                                        assert(parts@[t] == tail0[t - 2]);
                                        assert(part_views(tail0)[t - 2] == spec_parts[t]);
                                    }
                                }
                                assert(part_views(parts@) =~= spec_parts);
                            }
                            Some(parts)
                        },
                    }
                },
            }
        },
    }
}

fn space_end_at(v: &Vec<char>, i: usize) -> (r: usize)
    requires
        i <= v@.len(),
    ensures
        r == space_end(v@, i as int),
        i <= r <= v@.len(),
    decreases v@.len() - i,
{
    if i < v.len() && is_space(v[i]) {
        space_end_at(v, i + 1)
    } else {
        i
    }
}

fn ident_end_at(v: &Vec<char>, i: usize) -> (r: usize)
    requires
        i <= v@.len(),
    ensures
        r == ident_end(v@, i as int),
        i <= r <= v@.len(),
    decreases v@.len() - i,
{
    if i < v.len() {
        let c = v[i];
        if ('a' <= c && c <= 'z') || ('A' <= c && c <= 'Z') || c == '_' || ('0' <= c && c <= '9') {
            return ident_end_at(v, i + 1);
        }
    }
    i
}

fn digits_end_at(v: &Vec<char>, i: usize) -> (r: usize)
    requires
        i <= v@.len(),
    ensures
        r == digits_end(v@, i as int),
        i <= r <= v@.len(),
    decreases v@.len() - i,
{
    if i < v.len() {
        let c = v[i];
        if c >= '0' && c <= '9' {
            return digits_end_at(v, i + 1);
        }
    }
    i
}

fn parse_segs_at(v: &Vec<char>, i: usize) -> (r: Option<(Vec<String>, usize)>)
    requires
        i <= v@.len(),
    ensures
        match r {
            Some((segs, j)) => parse_segs(v@, i as int) == Some((name_views(segs@), j as int))
                && i <= j <= v@.len(),
            None => parse_segs(v@, i as int) is None,
        },
    decreases v@.len() - i,
{
    if i < v.len() && v[i] == '.' {
        let e = ident_end_at(v, i + 1);
        if e == i + 1 {
            None
        } else {
            let name = vec_range(v, i + 1, e);
            match parse_segs_at(v, e) {
                None => None,
                Some((mut segs, j)) => {
                    let ghost prev = segs@;
                    segs.insert(0, chars_to_string(&name));
                    proof {
                        let want = parse_segs(v@, i as int)->Some_0.0;
                        assert forall|t: int| 0 <= t < segs@.len()
                            implies name_views(segs@)[t] == want[t] by {
                            if t > 0 {
                                assert(segs@[t] == prev[t - 1]);
                            }
                        }
                        assert(name_views(segs@) =~= want);
                    }
                    Some((segs, j))
                },
            }
        }
    } else if i < v.len() && v[i] == '[' {
        let e = digits_end_at(v, i + 1);
        if e == i + 1 || !(e < v.len() && v[e] == ']') {
            None
        } else {
            let name = vec_range(v, i + 1, e);
            match parse_segs_at(v, e + 1) {
                None => None,
                Some((mut segs, j)) => {
                    let ghost prev = segs@;
                    segs.insert(0, chars_to_string(&name));
                    proof {
                        let want = parse_segs(v@, i as int)->Some_0.0;
                        assert forall|t: int| 0 <= t < segs@.len()
                            implies name_views(segs@)[t] == want[t] by {
                            if t > 0 {
                                assert(segs@[t] == prev[t - 1]);
                            }
                        }
                        assert(name_views(segs@) =~= want);
                    }
                    Some((segs, j))
                },
            }
        }
    } else {
        let segs: Vec<String> = Vec::new();
        proof {
            assert(name_views(segs@) =~= Seq::<Seq<char>>::empty());
        }
        Some((segs, i))
    }
}

fn ident_valid_chars(v: &Vec<char>) -> (r: bool)
    ensures
        r == ident_valid(v@),
{
    if v.len() == 0 {
        return false;
    }
    let c0 = v[0];
    if !((c0 >= 'a' && c0 <= 'z') || (c0 >= 'A' && c0 <= 'Z') || c0 == '_') {
        return false;
    }
    let mut i: usize = 0;
    while i < v.len()
        invariant
            i <= v@.len(),
            forall|k: int| 0 <= k < i ==> ident_part_char(#[trigger] v@[k]),
        decreases v@.len() - i,
    {
        let c = v[i];
        if !((c >= 'a' && c <= 'z') || (c >= 'A' && c <= 'Z') || c == '_'
            || (c >= '0' && c <= '9')) {
            return false;
        }
        i = i + 1;
    }
    true
}

impl Template {
    /// A template over the given text; nothing is checked until the
    /// validator runs.
    pub fn new(raw: &str) -> (r: Template)
        ensures
            r@ == raw@,
    {
        Template { raw: String::from_str(raw) }
    }

    /// The template's text.
    pub fn as_str(&self) -> (r: &str)
        ensures
            r@ == self@,
    {
        self.raw.as_str()
    }

    /// Checks that every placeholder is well-formed.
    pub fn check(&self) -> (r: Result<(), CrawlerError>)
        ensures
            match r {
                Ok(()) => parse_template(self@, 0) is Some,
                Err(e) => parse_template(self@, 0) is None && e@ == (ErrModel::TemplateSyntax {
                    message: "malformed placeholder"@,
                }),
            },
    {
        let v = str_to_chars(self.raw.as_str());
        match parse_at(&v, 0) {
            Some(_) => Ok(()),
            None => Err(CrawlerError::TemplateSyntax {
                message: String::from_str("malformed placeholder"),
            }),
        }
    }

    /// The variables the template references — each placeholder's root
    /// name — in order of appearance; a template that does not parse
    /// references nothing.
    pub fn variables(&self) -> (r: Vec<String>)
        ensures
            match parse_template(self@, 0) {
                Some(parts) => name_views(r@) == parts_vars(parts),
                None => r@.len() == 0,
            },
    {
        let v = str_to_chars(self.raw.as_str());
        match parse_at(&v, 0) {
            None => Vec::new(),
            Some(parts) => {
                proof {
                    assert(part_views(parts@).skip(0) =~= part_views(parts@));
                }
                collect_vars(&parts, 0)
            },
        }
    }

    /// Renders the template against the context's variables: a string
    /// variable as its text, any other as canonical JSON; a placeholder the
    /// context does not bind fails, and so does a template that does not
    /// parse.
    pub fn render(&self, context: &crate::extract::context::Context) -> (r: Result<String, CrawlerError>)
        ensures
            match r {
                Ok(s) => parse_template(self@, 0) is Some
                    && render_parts(parse_template(self@, 0)->Some_0, context@.vars)
                        == Ok::<Seq<char>, ErrModel>(s@),
                Err(e) => parse_template(self@, 0) is None && e@ == (ErrModel::TemplateSyntax {
                    message: "malformed placeholder"@,
                }) || parse_template(self@, 0) is Some
                    && render_parts(parse_template(self@, 0)->Some_0, context@.vars)
                        == Err::<Seq<char>, ErrModel>(e@),
            },
    {
        let v = str_to_chars(self.raw.as_str());
        match parse_at(&v, 0) {
            None => Err(CrawlerError::TemplateSyntax {
                message: String::from_str("malformed placeholder"),
            }),
            Some(parts) => {
                proof {
                    assert(part_views(parts@).skip(0) =~= part_views(parts@));
                }
                match render_from(&parts, 0, context) {
                    Ok(chars) => Ok(chars_to_string(&chars)),
                    Err(e) => Err(e),
                }
            },
        }
    }
}

fn render_from(parts: &Vec<Part>, i: usize, context: &crate::extract::context::Context)
    -> (r: Result<Vec<char>, CrawlerError>)
    requires
        i <= parts@.len(),
    ensures
        match r {
            Ok(chars) => render_parts(part_views(parts@).skip(i as int), context@.vars)
                == Ok::<Seq<char>, ErrModel>(chars@),
            Err(e) => render_parts(part_views(parts@).skip(i as int), context@.vars)
                == Err::<Seq<char>, ErrModel>(e@),
        },
    decreases parts@.len() - i,
{
    let ghost views = part_views(parts@);
    if i == parts.len() {
        proof {
            assert(views.skip(i as int).len() == 0);
        }
        Ok(Vec::new())
    } else {
        proof {
            assert(views.skip(i as int)[0] == views[i as int]);
            assert(views.skip(i as int).skip(1) =~= views.skip(i + 1));
        }
        let head: Vec<char> = match &parts[i] {
            Part::Lit(t) => str_to_chars(t.as_str()),
            Part::Var(segs) => {
                if segs.len() == 0 {
                    proof {
                        assert(name_views(segs@).len() == 0);
                    }
                    return Err(CrawlerError::UndefinedVariable { variable: String::new() });
                }
                proof {
                    assert(name_views(segs@)[0] == segs@[0]@);
                }
                match context.get(segs[0].as_str()) {
                    Some(j) => {
                        let path = strings_to_char_vecs(segs);
                        match crate::extract::executor::json_walk_at(j, &path, 1) {
                            Some(hit) => match hit {
                                JsonValue::Str(t) => str_to_chars(t.as_str()),
                                other => crate::jsonval::json_value_text(other),
                            },
                            None => {
                                return Err(CrawlerError::UndefinedVariable {
                                    variable: join_segs(segs),
                                });
                            },
                        }
                    },
                    None => {
                        return Err(CrawlerError::UndefinedVariable { variable: join_segs(segs) });
                    },
                }
            },
        };
        match render_from(parts, i + 1, context) {
            Ok(rest) => {
                let mut out = head;
                push_all(&mut out, &rest);
                Ok(out)
            },
            Err(e) => Err(e),
        }
    }
}

/// The views of collected variable names, in order.
pub open spec fn name_views(names: Seq<String>) -> Seq<Seq<char>> {
    Seq::new(names.len(), |i: int| names[i]@)
}

/// The variables a parsed template references — each placeholder's root
/// name — in order of appearance.
pub open spec fn parts_vars(parts: Seq<TplPart>) -> Seq<Seq<char>>
    decreases parts.len(),
{
    if parts.len() == 0 {
        Seq::<Seq<char>>::empty()
    } else {
        match parts[0] {
            TplPart::Var(segs) => if segs.len() >= 1 {
                seq![segs[0]] + parts_vars(parts.skip(1))
            } else {
                parts_vars(parts.skip(1))
            },
            TplPart::Lit(_) => parts_vars(parts.skip(1)),
        }
    }
}

fn collect_vars(parts: &Vec<Part>, i: usize) -> (out: Vec<String>)
    requires
        i <= parts@.len(),
    ensures
        name_views(out@) == parts_vars(part_views(parts@).skip(i as int)),
    decreases parts@.len() - i,
{
    let ghost views = part_views(parts@);
    if i == parts.len() {
        let out: Vec<String> = Vec::new();
        proof {
            assert(views.skip(i as int).len() == 0);
            assert(name_views(out@) =~= parts_vars(views.skip(i as int)));
        }
        out
    } else {
        proof {
            assert(views.skip(i as int)[0] == views[i as int]);
            assert(views.skip(i as int).skip(1) =~= views.skip(i + 1));
        }
        let mut rest = collect_vars(parts, i + 1);
        match &parts[i] {
            Part::Var(segs) => {
                if segs.len() > 0 {
                    let ghost prev = rest@;
                    proof {
                        assert(name_views(segs@)[0] == segs@[0]@);
                    }
                    rest.insert(0, segs[0].clone());
                    proof {
                        assert forall|k: int| 0 <= k < rest@.len()
                            implies name_views(rest@)[k] == parts_vars(views.skip(i as int))[k] by {
                            if k > 0 {
                                assert(rest@[k] == prev[k - 1]);
                            }
                        }
                        assert(name_views(rest@) =~= parts_vars(views.skip(i as int)));
                    }
                } else {
                    proof {
                        assert(name_views(segs@).len() == 0);
                        assert(name_views(rest@) =~= parts_vars(views.skip(i as int)));
                    }
                }
            },
            Part::Lit(_) => {
                proof {
                    assert(name_views(rest@) =~= parts_vars(views.skip(i as int)));
                }
            },
        }
        rest
    }
}

fn strings_to_char_vecs(segs: &Vec<String>) -> (out: Vec<Vec<char>>)
    ensures
        crate::extract::selector::chars_views(out@) == name_views(segs@),
{
    let mut out: Vec<Vec<char>> = Vec::new();
    let mut i: usize = 0;
    while i < segs.len()
        invariant
            i <= segs@.len(),
            out@.len() == i,
            forall|k: int| 0 <= k < i ==> #[trigger] out@[k]@ == segs@[k]@,
        decreases segs@.len() - i,
    {
        out.push(str_to_chars(segs[i].as_str()));
        i = i + 1;
    }
    proof {
        assert(crate::extract::selector::chars_views(out@) =~= name_views(segs@));
    }
    out
}

fn join_segs_at(segs: &Vec<String>, i: usize) -> (out: Vec<char>)
    requires
        i <= segs@.len(),
    ensures
        out@ == crate::text::join_seq(name_views(segs@).skip(i as int), seq!['.']),
    decreases segs@.len() - i,
{
    let ghost views = name_views(segs@);
    if i == segs.len() {
        let out: Vec<char> = Vec::new();
        proof {
            assert(views.skip(i as int).len() == 0);
        }
        out
    } else if i + 1 == segs.len() {
        let out = str_to_chars(segs[i].as_str());
        proof {
            assert(views.skip(i as int).len() == 1);
            assert(views.skip(i as int)[0] == views[i as int]);
        }
        out
    } else {
        let mut out = str_to_chars(segs[i].as_str());
        out.push('.');
        let rest = join_segs_at(segs, i + 1);
        crate::text::push_all(&mut out, &rest);
        proof {
            assert(views.skip(i as int)[0] == views[i as int]);
            assert(views.skip(i as int).skip(1) =~= views.skip(i + 1));
            assert(views.skip(i as int).len() > 1);
            assert(out@ =~= crate::text::join_seq(views.skip(i as int), seq!['.']));
        }
        out
    }
}

/// The placeholder path joined with dots, for an error message.
fn join_segs(segs: &Vec<String>) -> (r: String)
    ensures
        r@ == crate::text::join_seq(name_views(segs@), seq!['.']),
{
    proof {
        assert(name_views(segs@).skip(0) =~= name_views(segs@));
    }
    let chars = join_segs_at(segs, 0);
    chars_to_string(&chars)
}

/// Static validation of templates.
pub trait TemplateValidator {
    /// Checks the template's syntax.
    fn validate(&self) -> Result<(), CrawlerError>;
}

impl TemplateValidator for Template {
    /// A template validates when every placeholder is well-formed.
    fn validate(&self) -> Result<(), CrawlerError> {
        self.check()
    }
}

impl Clone for Template {
    /// A clone holds the same text.
    fn clone(&self) -> (r: Self)
        ensures
            r@ == self@,
    {
        Template { raw: self.raw.clone() }
    }
}

} // verus!
