//! Host-driven chain execution: the library computes every step it can,
//! and a script step suspends the chain, handing the host the pending
//! invocation — call, parameters, merged security envelope and input — to
//! perform through its script collaborator. The host resumes the chain
//! with the collaborator's JSON result.
//!
//! A script step nested inside a map, condition or component pipeline is
//! not reachable this way and keeps failing with an extraction error.

use vstd::prelude::*;
use crate::config::script_security::ScriptSecurityConfig;
use crate::error::{CrawlerError, ErrModel};
use crate::extract::context::{Context, CtxModel};
use crate::extract::executor::{eval_step, execute_step};
use crate::extract::step::{ExtractStep, StepModel, step_model_seq, lemma_step_model_seq};
use crate::jsonval::{JsonModel, JsonValue, json_model_entries};
use crate::value::{ExtractValueData, ValModel, json_to_val};

verus! {

broadcast use vstd::std_specs::vec::group_vec_axioms;

/// A script invocation the host is asked to perform.
#[derive(Debug)]
pub struct ScriptInvocation {
    /// The `module.function` to call.
    pub call: String,
    /// Parameters handed to the script.
    pub params: Vec<(String, JsonValue)>,
    /// The security envelope to run under: the step's own completed from
    /// the context's global one.
    pub security: ScriptSecurityConfig,
    /// The value the script receives.
    pub input: ExtractValueData,
}

/// How one hosted chain run ends.
#[derive(Debug)]
pub enum ChainOutcome {
    /// The chain ran to its end.
    Done(ExtractValueData),
    /// A script step suspended the chain: the invocation to perform, and
    /// the position to resume at with its result.
    Pending(ScriptInvocation, usize),
    /// A step failed.
    Failed(CrawlerError),
}

/// The mathematical shape of a hosted outcome.
#[verifier::ext_equal]
pub enum HostedModel {
    /// The chain ran to its end.
    Done(ValModel),
    /// A script step suspended the chain.
    Pending {
        /// The `module.function` to call.
        call: Seq<char>,
        /// Parameters handed to the script.
        params: Seq<(Seq<char>, JsonModel)>,
        /// The merged security envelope.
        security: ScriptSecurityConfig,
        /// The value the script receives.
        input: ValModel,
        /// The position to resume at.
        resume_at: int,
    },
    /// A step failed.
    Failed(ErrModel),
}

impl ChainOutcome {
    /// The mathematical outcome this one denotes.
    pub open spec fn model(self) -> HostedModel {
        match self {
            ChainOutcome::Done(v) => HostedModel::Done(v@),
            ChainOutcome::Pending(inv, at) => HostedModel::Pending {
                call: inv.call@,
                params: json_model_entries(inv.params@),
                security: inv.security,
                input: inv.input@,
                resume_at: at as int,
            },
            ChainOutcome::Failed(e) => HostedModel::Failed(e@),
        }
    }
}

/// A step-local security envelope completed from the global one: a set
/// local field wins, an unset one takes the global value, and grant-style
/// flags combine by or.
pub open spec fn merged_security(local: Option<ScriptSecurityConfig>,
    global: Option<ScriptSecurityConfig>) -> ScriptSecurityConfig
{
    let base = match local {
        Some(c) => c,
        None => ScriptSecurityConfig {
            max_memory_mb: None,
            allow_file_access: false,
            allow_network: false,
            timeout_seconds: None,
        },
    };
    match global {
        Some(g) => ScriptSecurityConfig {
            max_memory_mb: if base.max_memory_mb is Some {
                base.max_memory_mb
            } else {
                g.max_memory_mb
            },
            allow_file_access: base.allow_file_access || g.allow_file_access,
            allow_network: base.allow_network || g.allow_network,
            timeout_seconds: if base.timeout_seconds is Some {
                base.timeout_seconds
            } else {
                g.timeout_seconds
            },
        },
        None => base,
    }
}

/// What a hosted chain run produces from step `i` on: the threaded value
/// when no script step remains, the first script step's pending invocation,
/// or the first failure.
pub open spec fn eval_hosted(steps: Seq<StepModel>, i: int, input: ValModel, ctx: CtxModel, depth: nat)
    -> HostedModel
    decreases steps.len() - i,
{
    if !(0 <= i) || i >= steps.len() {
        HostedModel::Done(input)
    } else {
        match steps[i] {
            StepModel::Script(sc) => HostedModel::Pending {
                call: sc.call,
                params: sc.params,
                security: merged_security(sc.security, ctx.script_security),
                input: input,
                resume_at: i + 1,
            },
            other => match eval_step(other, input, ctx, depth) {
                Ok(v) => eval_hosted(steps, i + 1, v, ctx, depth),
                Err(e) => HostedModel::Failed(e),
            },
        }
    }
}

/// Runs a chain from step `i` on until its end, a failure, or the first
/// script step, which suspends the chain for the host.
pub fn run_chain_hosted(steps: &Vec<ExtractStep>, i: usize, input: &ExtractValueData, context: &Context)
    -> (r: ChainOutcome)
    requires
        i <= steps@.len(),
    ensures
        r.model() == eval_hosted(step_model_seq(steps@), i as int, input@, context@,
            context@.max_depth as nat),
    decreases steps@.len() - i,
{
    proof {
        lemma_step_model_seq(steps@);
    }
    let ghost m = step_model_seq(steps@);
    if i == steps.len() {
        ChainOutcome::Done(input.clone())
    } else {
        match &steps[i] {
            ExtractStep::Script(sc) => {
                let base = match &sc.security {
                    Some(c) => *c,
                    None => ScriptSecurityConfig::default(),
                };
                let security = base.merge_with(context.script_security());
                let params = crate::jsonval::clone_json_entries(&sc.params, 0);
                proof {
                    assert(security == merged_security(sc.security, context@.script_security));
                    crate::jsonval::lemma_json_model_entries(params@);
                    crate::jsonval::lemma_json_model_entries(sc.params@);
                    assert forall|k: int| 0 <= k < sc.params@.len()
                        implies json_model_entries(params@)[k]
                            == json_model_entries(sc.params@)[k] by {
                        assert(params@[k].0@ == sc.params@[k].0@);
                        assert(params@[k].1@ == sc.params@[k].1@);
                    }
                    assert(json_model_entries(params@) =~= json_model_entries(sc.params@));
                }
                ChainOutcome::Pending(
                    ScriptInvocation {
                        call: sc.call.clone(),
                        params,
                        security,
                        input: input.clone(),
                    },
                    i + 1,
                )
            },
            step => {
                let depth = context.max_depth();
                match execute_step(step, input, context, depth) {
                    Ok(v) => run_chain_hosted(steps, i + 1, &v, context),
                    Err(e) => ChainOutcome::Failed(e),
                }
            },
        }
    }
}

/// Resumes a suspended chain with the host's script result, carried on as
/// the value the result's JSON builds.
pub fn resume_chain_hosted(steps: &Vec<ExtractStep>, resume_at: usize, result: &JsonValue,
    context: &Context) -> (r: ChainOutcome)
    requires
        resume_at <= steps@.len(),
    ensures
        r.model() == eval_hosted(step_model_seq(steps@), resume_at as int, json_to_val(result@),
            context@, context@.max_depth as nat),
{
    let input = ExtractValueData::from_json(result);
    run_chain_hosted(steps, resume_at, &input, context)
}

} // verus!
