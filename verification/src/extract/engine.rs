//! The field engine: runs a field extractor's primary chain, then its
//! fallback chains in declaration order, then its default.
//!
//! Every fallback attempt receives the same input value by reference; when
//! the primary chain succeeds with a usable value, no fallback or default
//! is ever consulted.

use vstd::prelude::*;
use crate::error::{CrawlerError, ErrModel};
use crate::value::{ExtractValueData, ValModel, val_empty, json_to_val};
use crate::extract::step::{
    FieldExtractor, FieldExtractorModel, ExtractStep, StepModel, step_model_seq,
    lemma_step_model_seq, chain_model_seq, lemma_chain_model_seq,
};
use crate::extract::context::{Context, CtxModel};
use crate::extract::executor::{eval_steps, execute_steps_from};
use crate::extract::filter::res_model;

verus! {

use vstd::string::StringExecFns;

broadcast use vstd::std_specs::vec::group_vec_axioms;

/// The first fallback chain that produces a non-empty value, in declaration
/// order; a chain that fails or comes back empty is passed over.
pub open spec fn eval_fallbacks(chains: Seq<Seq<StepModel>>, input: ValModel, ctx: CtxModel, depth: nat)
    -> Option<ValModel>
    decreases chains.len(),
{
    if chains.len() == 0 {
        None
    } else {
        match eval_steps(chains[0], input, ctx, depth) {
            Ok(v) => if !val_empty(v) {
                Some(v)
            } else {
                eval_fallbacks(chains.skip(1), input, ctx, depth)
            },
            Err(_) => eval_fallbacks(chains.skip(1), input, ctx, depth),
        }
    }
}

/// What a field extractor produces: the primary chain's value when it is
/// non-empty or the extractor is nullable; otherwise the first non-empty
/// fallback, then the default literal, then the failure — the primary
/// error, or an extraction error for an empty non-nullable result.
pub open spec fn eval_extract_field(fx: FieldExtractorModel, input: ValModel, ctx: CtxModel, depth: nat)
    -> Result<ValModel, ErrModel>
{
    let chains = match fx.fallback {
        Some(c) => c,
        None => Seq::<Seq<StepModel>>::empty(),
    };
    match eval_steps(fx.steps, input, ctx, depth) {
        Ok(v) => if fx.nullable || !val_empty(v) {
            Ok(v)
        } else {
            match eval_fallbacks(chains, input, ctx, depth) {
                Some(w) => Ok(w),
                None => match fx.default {
                    Some(d) => Ok(json_to_val(d)),
                    None => Err(ErrModel::Extraction("Field extraction returned empty value"@)),
                },
            }
        },
        Err(e) => match eval_fallbacks(chains, input, ctx, depth) {
            Some(w) => Ok(w),
            None => match fx.default {
                Some(d) => Ok(json_to_val(d)),
                None => Err(e),
            },
        },
    }
}

/// When the primary chain returns a non-empty value, that value is the
/// field's result: no fallback chain and no default is ever consulted, and
/// the same holds for any value when the extractor is nullable.
pub proof fn lemma_fallback_minimality(fx: FieldExtractorModel, input: ValModel, ctx: CtxModel, depth: nat, v: ValModel)
    requires
        eval_steps(fx.steps, input, ctx, depth) == Ok::<ValModel, ErrModel>(v),
        fx.nullable || !val_empty(v),
    ensures
        eval_extract_field(fx, input, ctx, depth) == Ok::<ValModel, ErrModel>(v),
{
}

fn fallbacks_at(chains: &Vec<Vec<ExtractStep>>, i: usize, input: &ExtractValueData, ctx: &Context, depth: usize)
    -> (r: Option<ExtractValueData>)
    requires
        i <= chains@.len(),
    ensures
        match r {
            Some(v) => eval_fallbacks(chain_model_seq(chains@).skip(i as int), input@, ctx@, depth as nat)
                == Some(v@),
            None => eval_fallbacks(chain_model_seq(chains@).skip(i as int), input@, ctx@, depth as nat) is None,
        },
    decreases chains@.len() - i,
{
    proof {
        lemma_chain_model_seq(chains@);
    }
    let ghost m = chain_model_seq(chains@);
    if i == chains.len() {
        proof {
            assert(m.skip(i as int).len() == 0);
        }
        None
    } else {
        proof {
            assert(m.skip(i as int)[0] == m[i as int]);
            assert(m.skip(i as int).skip(1) =~= m.skip(i + 1));
            assert(step_model_seq(chains@[i as int]@).skip(0) =~= step_model_seq(chains@[i as int]@));
        }
        match execute_steps_from(&chains[i], 0, input, ctx, depth) {
            Ok(v) => {
                if !v.is_empty() {
                    Some(v)
                } else {
                    fallbacks_at(chains, i + 1, input, ctx, depth)
                }
            },
            Err(_) => fallbacks_at(chains, i + 1, input, ctx, depth),
        }
    }
}

/// The engine that runs field extractors.
#[derive(Debug)]
pub struct ExtractEngine {
}

impl ExtractEngine {
    /// A new engine.
    pub fn new() -> Self {
        ExtractEngine {}
    }

    /// Runs a field extractor on a value: the primary chain first, then the
    /// fallback chains in declaration order against the same input, then
    /// the default literal. The input is observably unchanged afterwards.
    pub fn extract_field(extractor: &FieldExtractor, input: &ExtractValueData, context: &Context)
        -> (r: Result<ExtractValueData, CrawlerError>)
        ensures
            res_model(r) == eval_extract_field(extractor@, input@, context@, context@.max_depth as nat),
    {
        let depth = context.max_depth();
        proof {
            assert(step_model_seq(extractor.steps@).skip(0) =~= step_model_seq(extractor.steps@));
        }
        let primary = execute_steps_from(&extractor.steps, 0, input, context, depth);
        let ghost chains_m = match extractor@.fallback {
            Some(c) => c,
            None => Seq::<Seq<StepModel>>::empty(),
        };
        match primary {
            Ok(v) => {
                if extractor.nullable || !v.is_empty() {
                    Ok(v)
                } else {
                    let fb = match &extractor.fallback {
                        Some(chains) => {
                            proof {
                                assert(chain_model_seq(chains@).skip(0) =~= chain_model_seq(chains@));
                            }
                            fallbacks_at(chains, 0, input, context, depth)
                        },
                        None => {
                            proof {
                                assert(eval_fallbacks(chains_m, input@, context@, depth as nat) is None);
                            }
                            None
                        },
                    };
                    match fb {
                        Some(w) => Ok(w),
                        None => match &extractor.default {
                            Some(d) => Ok(ExtractValueData::from_json(d)),
                            None => Err(CrawlerError::Extraction(String::from_str(
                                "Field extraction returned empty value",
                            ))),
                        },
                    }
                }
            },
            Err(e) => {
                let fb = match &extractor.fallback {
                    Some(chains) => {
                        proof {
                            assert(chain_model_seq(chains@).skip(0) =~= chain_model_seq(chains@));
                        }
                        fallbacks_at(chains, 0, input, context, depth)
                    },
                    None => {
                        proof {
                            assert(eval_fallbacks(chains_m, input@, context@, depth as nat) is None);
                        }
                        None
                    },
                };
                match fb {
                    Some(w) => Ok(w),
                    None => match &extractor.default {
                        Some(d) => Ok(ExtractValueData::from_json(d)),
                        None => Err(e),
                    },
                }
            },
        }
    }

    /// Runs a chain of steps, threading the value forward; the first
    /// failure aborts the chain.
    pub fn execute_steps(steps: &Vec<ExtractStep>, input: &ExtractValueData, context: &Context)
        -> (r: Result<ExtractValueData, CrawlerError>)
        ensures
            res_model(r) == eval_steps(step_model_seq(steps@), input@, context@, context@.max_depth as nat),
    {
        let depth = context.max_depth();
        proof {
            assert(step_model_seq(steps@).skip(0) =~= step_model_seq(steps@));
        }
        execute_steps_from(steps, 0, input, context, depth)
    }
}

impl Default for ExtractEngine {
    /// The default engine.
    fn default() -> Self {
        ExtractEngine::new()
    }
}

} // verus!
