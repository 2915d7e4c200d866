//! The static self-check of extraction steps: patterns must compile,
//! selectors must parse, filters must be known, strides must be positive,
//! and nested pipelines are held to the same rules.

use vstd::prelude::*;
use crate::error::{CrawlerError, ErrModel, ValidationErrors, errs_extend};
use crate::extract::filter::regex_ok;
use crate::extract::selector::parse_selector;
use crate::extract::step::{ExtractStep, FieldExtractor, IndexSpec};
use crate::text::str_eq;

verus! {

use vstd::string::StringExecFns;

broadcast use vstd::std_specs::vec::group_vec_axioms;

/// The filter names the library defines.
pub open spec fn filter_known(name: Seq<char>) -> bool {
    ||| name == "trim"@
    ||| name == "lower"@
    ||| name == "upper"@
    ||| name == "replace"@
    ||| name == "regex_replace"@
    ||| name == "split"@
    ||| name == "join"@
    ||| name == "strip_html"@
    ||| name == "substring"@
    ||| name == "to_int"@
    ||| name == "to_string"@
    ||| name == "absolute_url"@
    ||| name == "url_encode"@
    ||| name == "url_decode"@
}

/// Whether a filter name is one the library defines.
pub fn is_filter_known(name: &str) -> (r: bool)
    ensures
        r == filter_known(name@),
{
    str_eq(name, "trim") || str_eq(name, "lower") || str_eq(name, "upper")
        || str_eq(name, "replace") || str_eq(name, "regex_replace") || str_eq(name, "split")
        || str_eq(name, "join") || str_eq(name, "strip_html") || str_eq(name, "substring")
        || str_eq(name, "to_int") || str_eq(name, "to_string") || str_eq(name, "absolute_url")
        || str_eq(name, "url_encode") || str_eq(name, "url_decode")
}

/// Whether one step passes its static self-check: its regular expression
/// compiles, its selector parses, its filter is known, its stride is
/// positive, and its nested pipelines pass too.
pub open spec fn xstep_ok(step: ExtractStep) -> bool
    decreases step, 2int,
{
    match step {
        ExtractStep::Regex(p) => regex_ok(p@),
        ExtractStep::Css(sel) => parse_selector(sel@) is Some,
        ExtractStep::Filter(f) => filter_known(f.name@),
        ExtractStep::Index(ix) => match ix {
            IndexSpec::Range { step: Some(v), .. } => v >= 1,
            _ => true,
        },
        ExtractStep::MapEach(steps) => xsteps_ok(steps@),
        ExtractStep::Condition(c) => {
            &&& xsteps_ok(c.when@)
            &&& xsteps_ok(c.then_steps@)
            &&& match c.otherwise {
                Some(steps) => xsteps_ok(steps@),
                None => true,
            }
        },
        _ => true,
    }
}

/// Whether every step of a chain passes its static self-check.
pub open spec fn xsteps_ok(steps: Seq<ExtractStep>) -> bool
    decreases steps, 3int,
{
    if steps.len() == 0 {
        true
    } else {
        xstep_ok(steps[0]) && xsteps_ok(steps.skip(1))
    }
}

/// A chain passes exactly when each of its steps does.
pub proof fn lemma_xsteps_ok(steps: Seq<ExtractStep>)
    ensures
        xsteps_ok(steps) <==> (forall|k: int| 0 <= k < steps.len()
            ==> xstep_ok(#[trigger] steps[k])),
    decreases steps.len(),
{
    if steps.len() > 0 {
        lemma_xsteps_ok(steps.skip(1));
        assert forall|k: int| 0 <= k < steps.len() && xsteps_ok(steps)
            implies xstep_ok(#[trigger] steps[k]) by {
            if k > 0 {
                assert(steps.skip(1)[k - 1] == steps[k]);
            }
        }
        if forall|k: int| 0 <= k < steps.len() ==> xstep_ok(#[trigger] steps[k]) {
            assert forall|k: int| 0 <= k < steps.skip(1).len()
                implies xstep_ok(#[trigger] steps.skip(1)[k]) by {
                assert(steps.skip(1)[k] == steps[k + 1]);
            }
        }
    }
}

fn check_xstep(step: &ExtractStep, errors: &mut ValidationErrors)
    ensures
        errs_extend(old(errors)@, final(errors)@),
        final(errors)@.len() == old(errors)@.len() ==> xstep_ok(*step),
    decreases *step, 4int,
{
    match step {
        ExtractStep::Regex(p) => {
            if !crate::extract::filter::regex_pattern_valid(p.as_str()) {
                errors.push(CrawlerError::Extraction(String::from_str("Invalid regex pattern")));
            }
        },
        ExtractStep::Css(sel) => {
            match crate::extract::selector::parse_sel(sel.as_str()) {
                Some(_) => (),
                None => {
                    errors.push(CrawlerError::Extraction(String::from_str("Invalid CSS selector")));
                },
            }
        },
        ExtractStep::Filter(f) => {
            if !is_filter_known(f.name.as_str()) {
                let mut m = String::from_str("Unknown filter: ");
                m.append(f.name.as_str());
                errors.push(CrawlerError::Extraction(m));
            }
        },
        ExtractStep::Index(ix) => {
            match ix {
                IndexSpec::Range { step: Some(v), .. } => {
                    if *v < 1 {
                        errors.push(CrawlerError::Extraction(String::from_str(
                            "Index step must be positive",
                        )));
                    }
                },
                _ => (),
            }
        },
        ExtractStep::MapEach(steps) => {
            proof {
                assert(decreases_to!(*step => *steps));
            }
            check_xsteps(steps, errors);
        },
        ExtractStep::Condition(c) => {
            proof {
                assert(decreases_to!(*step => **c));
                assert(decreases_to!(**c => c.when));
                assert(decreases_to!(**c => c.then_steps));
            }
            check_xsteps(&c.when, errors);
            check_xsteps(&c.then_steps, errors);
            match &c.otherwise {
                Some(steps) => {
                    proof {
                        assert(decreases_to!(**c => c.otherwise));
                        assert(decreases_to!(c.otherwise => *steps));
                    }
                    check_xsteps(steps, errors);
                },
                None => (),
            }
        },
        _ => (),
    }
}

/// Checks every step of a chain: when nothing is reported, every pattern
/// compiles, every selector parses, every filter is known and every stride
/// is positive, nested pipelines included.
pub fn check_xsteps(steps: &Vec<ExtractStep>, errors: &mut ValidationErrors)
    ensures
        errs_extend(old(errors)@, final(errors)@),
        final(errors)@.len() == old(errors)@.len() ==> xsteps_ok(steps@),
    decreases *steps, 5int,
{
    let mut i: usize = 0;
    while i < steps.len()
        invariant
            i <= steps@.len(),
            errs_extend(old(errors)@, errors@),
            errors@.len() == old(errors)@.len() ==> forall|k: int| 0 <= k < i
                ==> xstep_ok(#[trigger] steps@[k]),
        decreases steps@.len() - i,
    {
        proof {
            assert(decreases_to!(*steps => steps@[i as int]));
        }
        check_xstep(&steps[i], errors);
        i = i + 1;
    }
    proof {
        if errors@.len() == old(errors)@.len() {
            lemma_xsteps_ok(steps@);
        }
    }
}

/// Whether a whole field extractor passes the step self-check: its primary
/// chain and every fallback chain do.
pub open spec fn fx_static_ok(fx: FieldExtractor) -> bool {
    &&& xsteps_ok(fx.steps@)
    &&& match fx.fallback {
        Some(chains) => forall|k: int| 0 <= k < chains@.len()
            ==> xsteps_ok((#[trigger] chains@[k])@),
        None => true,
    }
}

/// Checks a whole field extractor: the primary chain, every fallback chain,
/// all under the step self-check; when nothing is reported, the whole
/// extractor passes.
pub fn check_field_extractor(fx: &FieldExtractor, errors: &mut ValidationErrors)
    ensures
        errs_extend(old(errors)@, final(errors)@),
        final(errors)@.len() == old(errors)@.len() ==> fx_static_ok(*fx),
{
    check_xsteps(&fx.steps, errors);
    match &fx.fallback {
        Some(chains) => {
            let mut i: usize = 0;
            while i < chains.len()
                invariant
                    i <= chains@.len(),
                    errs_extend(old(errors)@, errors@),
                    errors@.len() == old(errors)@.len() ==> xsteps_ok(fx.steps@),
                    errors@.len() == old(errors)@.len() ==> forall|k: int| 0 <= k < i
                        ==> xsteps_ok((#[trigger] chains@[k])@),
                decreases chains@.len() - i,
            {
                check_xsteps(&chains[i], errors);
                i = i + 1;
            }
        },
        None => (),
    }
}

} // verus!
