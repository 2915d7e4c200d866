//! The per-invocation variable bag a flow threads through its pipelines.
//!
//! A context owns its variables; components run under a child context that
//! carries only their declared inputs, so they cannot leak variables into
//! the parent.

use vstd::prelude::*;
use crate::config::script_security::ScriptSecurityConfig;
use crate::jsonval::{JsonModel, JsonValue, json_model_entries, lemma_json_model_entries};
use crate::extract::step::{ComponentModel, ExtractComponent};
use crate::text::str_eq;

verus! {

broadcast use vstd::std_specs::vec::group_vec_axioms;

/// A per-invocation context: variables, the component library, the base URL
/// and the recursion cap for component calls.
#[derive(Debug)]
pub struct Context {
    vars: Vec<(String, JsonValue)>,
    components: Vec<(String, ExtractComponent)>,
    base_url: String,
    max_depth: usize,
    script_security: Option<ScriptSecurityConfig>,
}

/// The mathematical shape of a context.
#[verifier::ext_equal]
pub struct CtxModel {
    /// Variable bindings, later bindings shadowing earlier ones.
    pub vars: Seq<(Seq<char>, JsonModel)>,
    /// The rule's component library.
    pub components: Seq<(Seq<char>, ComponentModel)>,
    /// The base URL relative links resolve against.
    pub base_url: Seq<char>,
    /// How deep component calls may nest.
    pub max_depth: int,
    /// The rule's global script security envelope, when declared.
    pub script_security: Option<ScriptSecurityConfig>,
}

/// The models of a component table, in order.
pub open spec fn comp_model_entries(entries: Seq<(String, ExtractComponent)>)
    -> Seq<(Seq<char>, ComponentModel)>
    decreases entries,
{
    if entries.len() == 0 {
        Seq::<(Seq<char>, ComponentModel)>::empty()
    } else {
        seq![(entries[0].0@, entries[0].1@)] + comp_model_entries(entries.skip(1))
    }
}

/// `comp_model_entries` maps each entry to its model, keeping positions.
pub proof fn lemma_comp_model_entries(entries: Seq<(String, ExtractComponent)>)
    ensures
        comp_model_entries(entries).len() == entries.len(),
        forall|i: int| 0 <= i < entries.len() ==> comp_model_entries(entries)[i]
            == (entries[i].0@, entries[i].1@),
    decreases entries.len(),
{
    if entries.len() > 0 {
        lemma_comp_model_entries(entries.skip(1));
        assert forall|i: int| 0 <= i < entries.len() implies comp_model_entries(entries)[i]
            == (entries[i].0@, entries[i].1@) by {
            if i > 0 {
                assert(comp_model_entries(entries)[i] == comp_model_entries(entries.skip(1))[i - 1]);
                assert(entries.skip(1)[i - 1] == entries[i]);
            }
        }
    }
}

/// The binding of `name`, the most recent one winning.
pub open spec fn lookup_binding<T>(vars: Seq<(Seq<char>, T)>, name: Seq<char>) -> Option<T>
    decreases vars.len(),
{
    if vars.len() == 0 {
        None
    } else if vars.last().0 == name {
        Some(vars.last().1)
    } else {
        lookup_binding(vars.drop_last(), name)
    }
}

impl View for Context {
    type V = CtxModel;

    closed spec fn view(&self) -> CtxModel {
        CtxModel {
            vars: json_model_entries(self.vars@),
            components: comp_model_entries(self.components@),
            base_url: self.base_url@,
            max_depth: self.max_depth as int,
            script_security: self.script_security,
        }
    }
}

impl Context {
    /// A fresh context over a component library.
    pub fn new(base_url: String, max_depth: usize, components: Vec<(String, ExtractComponent)>)
        -> (r: Context)
        ensures
            r@.vars == Seq::<(Seq<char>, JsonModel)>::empty(),
            r@.components == comp_model_entries(components@),
            r@.base_url == base_url@,
            r@.max_depth == max_depth as int,
            r@.script_security is None,
    {
        Context { vars: Vec::new(), components, base_url, max_depth, script_security: None }
    }

    /// The context with the rule's global script security envelope set.
    pub fn with_script_security(self, cfg: ScriptSecurityConfig) -> (r: Context)
        ensures
            r@ == (CtxModel { script_security: Some(cfg), ..self@ }),
    {
        Context { script_security: Some(cfg), ..self }
    }

    /// The rule's global script security envelope, when declared.
    pub fn script_security(&self) -> (r: Option<&ScriptSecurityConfig>)
        ensures
            match r {
                Some(c) => self@.script_security == Some(*c),
                None => self@.script_security is None,
            },
    {
        self.script_security.as_ref()
    }

    /// The base URL relative links resolve against.
    pub fn base_url(&self) -> (r: &str)
        ensures
            r@ == self@.base_url,
    {
        self.base_url.as_str()
    }

    /// How deep component calls may nest.
    pub fn max_depth(&self) -> (r: usize)
        ensures
            r as int == self@.max_depth,
    {
        self.max_depth
    }

    /// Publishes a variable; a later binding shadows an earlier one.
    pub fn set(&mut self, name: &str, value: JsonValue)
        ensures
            final(self)@ == (CtxModel {
                vars: old(self)@.vars.push((name@, value@)),
                ..old(self)@
            }),
    {
        let ghost before = self.vars@;
        self.vars.push((String::from_str(name), value));
        proof {
            lemma_json_model_entries(self.vars@);
            lemma_json_model_entries(before);
            assert forall|k: int| 0 <= k < self.vars@.len()
                implies json_model_entries(self.vars@)[k]
                    == old(self)@.vars.push((name@, value@))[k] by {
                if k < before.len() {
                    assert(self.vars@[k] == before[k]);
                }
            }
            assert(json_model_entries(self.vars@) =~= old(self)@.vars.push((name@, value@)));
            assert(final(self)@ =~= CtxModel { vars: old(self)@.vars.push((name@, value@)), ..old(self)@ });
        }
    }

    /// The value bound to `name`, the most recent binding winning.
    pub fn get(&self, name: &str) -> (r: Option<&JsonValue>)
        ensures
            match r {
                Some(j) => lookup_binding(self@.vars, name@) == Some(j@),
                None => lookup_binding(self@.vars, name@) is None,
            },
    {
        proof {
            lemma_json_model_entries(self.vars@);
        }
        let mut i: usize = self.vars.len();
        proof {
            assert(self@.vars.take(i as int) =~= self@.vars);
        }
        while i > 0
            invariant
                i <= self.vars@.len(),
                json_model_entries(self.vars@).len() == self.vars@.len(),
                forall|k: int| 0 <= k < self.vars@.len() ==> #[trigger] json_model_entries(self.vars@)[k]
                    == (self.vars@[k].0@, self.vars@[k].1@),
                lookup_binding(self@.vars, name@)
                    == lookup_binding(self@.vars.take(i as int), name@),
            decreases i,
        {
            i = i - 1;
            if str_eq(self.vars[i].0.as_str(), name) {
                proof {
                    let pre = self@.vars.take(i + 1);
                    assert(pre.last() == (self.vars@[i as int].0@, self.vars@[i as int].1@));
                    assert(lookup_binding(pre, name@) == Some(self.vars@[i as int].1@));
                }
                return Some(&self.vars[i].1);
            }
            proof {
                let pre = self@.vars.take(i + 1);
                assert(pre.last() == (self.vars@[i as int].0@, self.vars@[i as int].1@));
                assert(pre.drop_last() =~= self@.vars.take(i as int));
            }
        }
        proof {
            assert(self@.vars.take(0).len() == 0);
        }
        None
    }

    /// The component `name` refers to, if the rule defines it.
    pub fn get_component(&self, name: &str) -> (r: Option<&ExtractComponent>)
        ensures
            match r {
                Some(c) => lookup_binding(self@.components, name@) == Some(c@),
                None => lookup_binding(self@.components, name@) is None,
            },
    {
        proof {
            lemma_comp_model_entries(self.components@);
        }
        let mut i: usize = self.components.len();
        proof {
            assert(self@.components.take(i as int) =~= self@.components);
        }
        while i > 0
            invariant
                i <= self.components@.len(),
                comp_model_entries(self.components@).len() == self.components@.len(),
                forall|k: int| 0 <= k < self.components@.len()
                    ==> #[trigger] comp_model_entries(self.components@)[k]
                        == (self.components@[k].0@, self.components@[k].1@),
                lookup_binding(self@.components, name@)
                    == lookup_binding(self@.components.take(i as int), name@),
            decreases i,
        {
            i = i - 1;
            if str_eq(self.components[i].0.as_str(), name) {
                proof {
                    let pre = self@.components.take(i + 1);
                    assert(pre.last() == (self.components@[i as int].0@, self.components@[i as int].1@));
                    assert(lookup_binding(pre, name@) == Some(self.components@[i as int].1@));
                }
                return Some(&self.components[i].1);
            }
            proof {
                let pre = self@.components.take(i + 1);
                assert(pre.last() == (self.components@[i as int].0@, self.components@[i as int].1@));
                assert(pre.drop_last() =~= self@.components.take(i as int));
            }
        }
        proof {
            assert(self@.components.take(0).len() == 0);
        }
        None
    }

    /// A child context for one component call: it shares the component
    /// library, base URL and recursion cap, but carries only the given
    /// variables.
    pub fn child(&self, vars: Vec<(String, JsonValue)>) -> (r: Context)
        ensures
            r@ == (CtxModel { vars: json_model_entries(vars@), ..self@ }),
    {
        let components = clone_comp_entries(&self.components, 0);
        let r = Context {
            vars,
            components,
            base_url: self.base_url.clone(),
            max_depth: self.max_depth,
            script_security: self.script_security,
        };
        proof {
            lemma_comp_model_entries(r.components@);
            lemma_comp_model_entries(self.components@);
            assert forall|k: int| 0 <= k < self.components@.len()
                implies comp_model_entries(r.components@)[k]
                    == comp_model_entries(self.components@)[k] by {
                assert(r.components@[k].0@ == self.components@[k].0@);
                assert(r.components@[k].1@ == self.components@[k].1@);
            }
            assert(comp_model_entries(r.components@) =~= comp_model_entries(self.components@));
            assert(r@ =~= CtxModel { vars: json_model_entries(vars@), ..self@ });
        }
        r
    }
}

fn clone_comp_entries(entries: &Vec<(String, ExtractComponent)>, i: usize)
    -> (out: Vec<(String, ExtractComponent)>)
    requires
        i <= entries@.len(),
    ensures
        out@.len() == entries@.len() - i,
        forall|k: int| 0 <= k < out@.len() ==> #[trigger] out@[k].0@ == entries@[i + k].0@
            && out@[k].1@ == entries@[i + k].1@,
    decreases entries@.len() - i,
{
    if i == entries.len() {
        Vec::new()
    } else {
        let mut rest = clone_comp_entries(entries, i + 1);
        let ghost prev = rest@;
        let pair = &entries[i];
        rest.insert(0, (pair.0.clone(), pair.1.clone()));
        proof {
            assert(rest@[0].0@ == entries@[i as int].0@);
            assert(rest@[0].1@ == entries@[i as int].1@);
            assert forall|k: int| 1 <= k < rest@.len() implies rest@[k].0@ == entries@[i + k].0@
                && rest@[k].1@ == entries@[i + k].1@ by {
                assert(rest@[k] == prev[k - 1]);
                assert(prev[k - 1].0@ == entries@[i + 1 + (k - 1)].0@);
                assert(prev[k - 1].1@ == entries@[i + 1 + (k - 1)].1@);
            }
        }
        rest
    }
}

} // verus!
