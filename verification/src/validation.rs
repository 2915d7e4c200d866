//! Pre-execution validation of a whole rule: undefined components and
//! script modules, component-call cycles, identifier syntax and template
//! syntax, collected in full before any is reported.
//!
//! The checks are specified exactly: the collected findings are a function
//! of the rule, so a clean rule provably validates and a broken one is
//! provably rejected with its findings.

use vstd::prelude::*;
use crate::error::{CrawlerError, ErrModel, ValidationErrors, ValidationResult, errs_extend};
use crate::flow::Component;
use crate::pipeline::{Pipeline, Step, step_check_findings};
use crate::rule::CrawlerRule;
use crate::script::Script;
use crate::text::{find_from, str_to_chars, chars_to_string, vec_range, str_eq, push_all,
    lemma_find_from_some, join_seq};
use crate::template::name_views;

verus! {

use vstd::string::StringExecFns;

broadcast use vstd::std_specs::vec::group_vec_axioms;

/// The component a call step names, if the step is a call.
pub open spec fn call_target(step: Step) -> Option<Seq<char>> {
    match step {
        Step::Call(c) => Some(c.component@),
        _ => None,
    }
}

/// Whether the pipeline holds a call step naming `target`.
pub open spec fn has_call_to(p: Seq<Step>, target: Seq<char>) -> bool {
    exists|k: int| 0 <= k < p.len() && call_target(#[trigger] p[k]) == Some(target)
}

/// The position of the first component carrying `name`.
pub open spec fn comp_lookup(comps: Seq<(String, Component)>, name: Seq<char>) -> Option<int>
    decreases comps.len(),
{
    if comps.len() == 0 {
        None
    } else if comps[0].0@ == name {
        Some(0int)
    } else {
        match comp_lookup(comps.skip(1), name) {
            Some(j) => Some(j + 1),
            None => None,
        }
    }
}

/// What `comp_lookup` reports is a component with that name.
pub proof fn lemma_comp_lookup(comps: Seq<(String, Component)>, name: Seq<char>)
    ensures
        match comp_lookup(comps, name) {
            Some(j) => 0 <= j < comps.len() && comps[j].0@ == name,
            None => true,
        },
    decreases comps.len(),
{
    if comps.len() > 0 && comps[0].0@ != name {
        lemma_comp_lookup(comps.skip(1), name);
    }
}

fn find_comp(comps: &Vec<(String, Component)>, name: &str, i: usize) -> (r: Option<usize>)
    requires
        i <= comps@.len(),
    ensures
        match r {
            Some(j) => comp_lookup(comps@.skip(i as int), name@) == Some(j - i) && i <= j < comps@.len(),
            None => comp_lookup(comps@.skip(i as int), name@) is None,
        },
    decreases comps@.len() - i,
{
    if i == comps.len() {
        None
    } else {
        proof {
            assert(comps@.skip(i as int)[0] == comps@[i as int]);
            assert(comps@.skip(i as int).skip(1) =~= comps@.skip(i + 1));
        }
        if str_eq(comps[i].0.as_str(), name) {
            Some(i)
        } else {
            find_comp(comps, name, i + 1)
        }
    }
}

/// Whether every call step of the pipeline, loops included, names a defined
/// component.
pub open spec fn pipeline_calls_ok(p: Seq<Step>, comps: Seq<(String, Component)>) -> bool
    decreases p, 1int,
{
    if p.len() == 0 {
        true
    } else {
        step_calls_ok(p[0], comps) && pipeline_calls_ok(p.skip(1), comps)
    }
}

/// Whether the step's calls, loops included, name defined components.
pub open spec fn step_calls_ok(step: Step, comps: Seq<(String, Component)>) -> bool
    decreases step, 2int,
{
    match step {
        Step::Call(c) => comp_lookup(comps, c.component@) is Some,
        Step::LoopForEach(l) => pipeline_calls_ok(l.pipeline@, comps),
        _ => true,
    }
}

/// The module part of a `module.function` call: the text before the first
/// dot, or the whole text without one.
pub open spec fn module_name_of(call: Seq<char>) -> Seq<char> {
    match find_from(call, seq!['.'], 0) {
        Some(j) => call.take(j),
        None => call,
    }
}

/// Whether the module table declares `name`.
pub open spec fn modules_contain(modules: Seq<(String, Script)>, name: Seq<char>) -> bool
    decreases modules.len(),
{
    if modules.len() == 0 {
        false
    } else {
        modules[0].0@ == name || modules_contain(modules.skip(1), name)
    }
}

/// What the validator reports for one step: an undefined call target, an
/// undefined script module, the findings of a loop's sub-pipeline, or the
/// step's own static check.
pub open spec fn vstep_findings(step: Step, comps: Seq<(String, Component)>,
    modules: Seq<(String, Script)>) -> Seq<ErrModel>
    decreases step, 2int, 0int,
{
    match step {
        Step::Call(c) => if comp_lookup(comps, c.component@) is Some {
            Seq::<ErrModel>::empty()
        } else {
            seq![ErrModel::UndefinedComponent { component: c.component@ }]
        },
        Step::Script(s) => if modules_contain(modules, module_name_of(s.call@)) {
            Seq::<ErrModel>::empty()
        } else {
            seq![ErrModel::UndefinedScriptModule { module: module_name_of(s.call@) }]
        },
        Step::LoopForEach(l) => vpipeline_findings(l.pipeline@, comps, modules, 0),
        _ => step_check_findings(step),
    }
}

/// What the validator reports for a pipeline from step `i` on, in order.
pub open spec fn vpipeline_findings(p: Seq<Step>, comps: Seq<(String, Component)>,
    modules: Seq<(String, Script)>, i: int) -> Seq<ErrModel>
    decreases p, 3int, p.len() - i,
{
    if !(0 <= i) || i >= p.len() {
        Seq::<ErrModel>::empty()
    } else {
        vstep_findings(p[i], comps, modules) + vpipeline_findings(p, comps, modules, i + 1)
    }
}

/// A pipeline without findings has all its calls defined.
pub proof fn lemma_no_findings_calls_ok(p: Seq<Step>, comps: Seq<(String, Component)>,
    modules: Seq<(String, Script)>, i: int)
    requires
        0 <= i <= p.len(),
        vpipeline_findings(p, comps, modules, i).len() == 0,
    ensures
        pipeline_calls_ok(p.skip(i), comps),
    decreases p, 3int, p.len() - i,
{
    if i < p.len() {
        lemma_no_findings_calls_ok(p, comps, modules, i + 1);
        lemma_step_no_findings_calls_ok(p[i], comps, modules);
        assert(p.skip(i)[0] == p[i]);
        assert(p.skip(i).skip(1) =~= p.skip(i + 1));
    }
}

/// A step without findings has its calls defined.
pub proof fn lemma_step_no_findings_calls_ok(step: Step, comps: Seq<(String, Component)>,
    modules: Seq<(String, Script)>)
    requires
        vstep_findings(step, comps, modules).len() == 0,
    ensures
        step_calls_ok(step, comps),
    decreases step, 2int, 0int,
{
    match step {
        Step::LoopForEach(l) => {
            lemma_no_findings_calls_ok(l.pipeline@, comps, modules, 0);
            assert(l.pipeline@.skip(0) =~= l.pipeline@);
        },
        _ => {},
    }
}

fn module_of(call: &str) -> (r: String)
    ensures
        r@ == module_name_of(call@),
{
    let v = str_to_chars(call);
    let dot = str_to_chars(".");
    proof {
        reveal_strlit(".");
        assert(dot@ =~= seq!['.']);
    }
    match crate::text::find_sub(&v, &dot, 0) {
        Some(j) => {
            proof {
                lemma_find_from_some(v@, seq!['.'], 0, j as int);
            }
            let prefix = vec_range(&v, 0, j);
            proof {
                assert(prefix@ =~= call@.take(j as int));
            }
            chars_to_string(&prefix)
        },
        None => chars_to_string(&v),
    }
}

fn module_defined(modules: &Vec<(String, Script)>, name: &str, i: usize) -> (r: bool)
    requires
        i <= modules@.len(),
    ensures
        r == modules_contain(modules@.skip(i as int), name@),
    decreases modules@.len() - i,
{
    if i == modules.len() {
        false
    } else {
        proof {
            assert(modules@.skip(i as int)[0] == modules@[i as int]);
            assert(modules@.skip(i as int).skip(1) =~= modules@.skip(i + 1));
        }
        if str_eq(modules[i].0.as_str(), name) {
            true
        } else {
            module_defined(modules, name, i + 1)
        }
    }
}

fn validate_step(step: &Step, comps: &Vec<(String, Component)>,
    modules: &Vec<(String, Script)>, errors: &mut ValidationErrors)
    ensures
        final(errors)@ == old(errors)@ + vstep_findings(*step, comps@, modules@),
        errs_extend(old(errors)@, final(errors)@),
    decreases *step, 3int, 0int,
{
    match step {
        Step::Call(c) => {
            proof {
                assert(comps@.skip(0) =~= comps@);
            }
            match find_comp(comps, c.component.as_str(), 0) {
                Some(_) => (),
                None => {
                    errors.push(CrawlerError::UndefinedComponent {
                        component: c.component.clone(),
                    });
                },
            }
        },
        Step::Script(s) => {
            let module = module_of(s.call.as_str());
            proof {
                assert(modules@.skip(0) =~= modules@);
            }
            let known = module_defined(modules, module.as_str(), 0);
            if !known {
                errors.push(CrawlerError::UndefinedScriptModule { module });
            }
        },
        Step::LoopForEach(l) => {
            proof {
                assert(decreases_to!(*step => l.pipeline));
            }
            validate_pipeline(&l.pipeline, comps, modules, errors);
        },
        _ => {
            step.validate(errors);
        },
    }
    proof {
        assert(errors@ =~= old(errors)@ + vstep_findings(*step, comps@, modules@));
    }
}

fn validate_pipeline(p: &Pipeline, comps: &Vec<(String, Component)>,
    modules: &Vec<(String, Script)>, errors: &mut ValidationErrors)
    ensures
        final(errors)@ == old(errors)@ + vpipeline_findings(p@, comps@, modules@, 0),
        errs_extend(old(errors)@, final(errors)@),
        final(errors)@.len() == old(errors)@.len() ==> pipeline_calls_ok(p@, comps@),
    decreases *p, 4int, 0int,
{
    let mut i: usize = 0;
    while i < p.len()
        invariant
            i <= p@.len(),
            errors@ + vpipeline_findings(p@, comps@, modules@, i as int)
                == old(errors)@ + vpipeline_findings(p@, comps@, modules@, 0),
            errs_extend(old(errors)@, errors@),
        decreases p@.len() - i,
    {
        proof {
            assert(decreases_to!(*p => p@[i as int]));
        }
        let ghost before = errors@;
        validate_step(&p[i], comps, modules, errors);
        proof {
            assert(before + (vstep_findings(p@[i as int], comps@, modules@)
                + vpipeline_findings(p@, comps@, modules@, i + 1))
                =~= (before + vstep_findings(p@[i as int], comps@, modules@))
                    + vpipeline_findings(p@, comps@, modules@, i + 1));
        }
        i = i + 1;
    }
    proof {
        assert(errors@ + vpipeline_findings(p@, comps@, modules@, i as int) =~= errors@);
        if errors@.len() == old(errors)@.len() {
            assert(vpipeline_findings(p@, comps@, modules@, 0).len() == 0);
            lemma_no_findings_calls_ok(p@, comps@, modules@, 0);
            assert(p@.skip(0) =~= p@);
        }
    }
}


/// How many entries of a visited set are marked.
pub open spec fn count_marked(v: Seq<bool>) -> nat
    decreases v.len(),
{
    if v.len() == 0 {
        0
    } else {
        count_marked(v.drop_last()) + (if v.last() { 1nat } else { 0nat })
    }
}

/// No more entries are marked than there are.
proof fn lemma_count_le(v: Seq<bool>)
    ensures
        count_marked(v) <= v.len(),
    decreases v.len(),
{
    if v.len() > 0 {
        lemma_count_le(v.drop_last());
    }
}

/// An unmarked entry keeps the count strictly under the length.
proof fn lemma_count_lt(v: Seq<bool>, i: int)
    requires
        0 <= i < v.len(),
        !v[i],
    ensures
        count_marked(v) < v.len(),
    decreases v.len(),
{
    if i == v.len() - 1 {
        lemma_count_le(v.drop_last());
    } else {
        lemma_count_lt(v.drop_last(), i);
    }
}

/// Marking an unmarked entry raises the count by one.
proof fn lemma_count_update(v: Seq<bool>, i: int)
    requires
        0 <= i < v.len(),
        !v[i],
    ensures
        count_marked(v.update(i, true)) == count_marked(v) + 1,
    decreases v.len(),
{
    if i == v.len() - 1 {
        assert(v.update(i, true).drop_last() =~= v.drop_last());
    } else {
        assert(v.update(i, true).drop_last() =~= v.drop_last().update(i, true));
        lemma_count_update(v.drop_last(), i);
    }
}

/// A set with nothing marked counts zero.
proof fn lemma_count_false(v: Seq<bool>)
    requires
        forall|i: int| 0 <= i < v.len() ==> !(#[trigger] v[i]),
    ensures
        count_marked(v) == 0,
    decreases v.len(),
{
    if v.len() > 0 {
        assert forall|i: int| 0 <= i < v.drop_last().len() implies !(#[trigger] v.drop_last()[i]) by {
            assert(v.drop_last()[i] == v[i]);
        }
        lemma_count_false(v.drop_last());
    }
}

/// A visited set with nothing marked.
pub open spec fn all_false(n: nat) -> Seq<bool> {
    Seq::new(n, |i: int| false)
}

/// What the cycle search finds from component `idx`: the names along the
/// first call chain that returns to an already visited component, the
/// repeated component's name closing the list; nothing when every chain
/// ends without repeating.
pub open spec fn detect_spec(comps: Seq<(String, Component)>, idx: int, visited: Seq<bool>, fuel: nat)
    -> Option<Seq<Seq<char>>>
    decreases fuel, 1int, 0int,
{
    if !(0 <= idx < comps.len() && visited.len() == comps.len()) {
        None
    } else if visited[idx] {
        Some(seq![comps[idx].0@])
    } else if fuel == 0 {
        None
    } else {
        match detect_scan(comps, comps[idx].1.pipeline@, 0, visited.update(idx, true), fuel) {
            Some(sub) => Some(seq![comps[idx].0@] + sub),
            None => None,
        }
    }
}

/// The cycle search over one pipeline's call steps from position `k` on:
/// the first call whose target's search succeeds decides.
pub open spec fn detect_scan(comps: Seq<(String, Component)>, pipeline: Seq<Step>, k: int,
    visited: Seq<bool>, fuel: nat) -> Option<Seq<Seq<char>>>
    decreases fuel, 0int, pipeline.len() - k,
{
    if !(0 <= k) || k >= pipeline.len() || fuel == 0 {
        None
    } else {
        match call_target(pipeline[k]) {
            Some(t) => match comp_lookup(comps, t) {
                Some(j) => match detect_spec(comps, j, visited, (fuel - 1) as nat) {
                    Some(sub) => Some(sub),
                    None => detect_scan(comps, pipeline, k + 1, visited, fuel),
                },
                None => detect_scan(comps, pipeline, k + 1, visited, fuel),
            },
            None => detect_scan(comps, pipeline, k + 1, visited, fuel),
        }
    }
}

fn detect_cycle(comps: &Vec<(String, Component)>, idx: usize, visited: &mut Vec<bool>,
    path: &mut Vec<String>, fuel: usize) -> (r: bool)
    requires
        idx < comps@.len(),
        old(visited)@.len() == comps@.len(),
        fuel as int + count_marked(old(visited)@) >= comps@.len(),
    ensures
        final(visited)@.len() == comps@.len(),
        match detect_spec(comps@, idx as int, old(visited)@, fuel as nat) {
            Some(p) => r == true && name_views(final(path)@) == name_views(old(path)@) + p,
            None => r == false && final(visited)@ == old(visited)@ && final(path)@ == old(path)@,
        },
    decreases fuel,
{
    if visited[idx] {
        path.push(comps[idx].0.clone());
        proof {
            assert(name_views(path@) =~= name_views(old(path)@)
                + seq![comps@[idx as int].0@]);
        }
        return true;
    }
    proof {
        lemma_count_lt(old(visited)@, idx as int);
    }
    if fuel == 0 {
        proof {
            assert(false);
        }
        return true;
    }
    let ghost v0 = visited@;
    visited.set(idx, true);
    let ghost v1 = visited@;
    let pushed = comps[idx].0.clone();
    let ghost pushed_snap = pushed;
    path.push(pushed);
    let pipeline = &comps[idx].1.pipeline;
    let mut k: usize = 0;
    while k < pipeline.len()
        invariant
            idx < comps@.len(),
            k <= pipeline@.len(),
            pipeline == comps@[idx as int].1.pipeline,
            visited@ == v1,
            v1 == v0.update(idx as int, true),
            v0 == old(visited)@,
            v0.len() == comps@.len(),
            !v0[idx as int],
            1 <= fuel,
            fuel as int + count_marked(v0) >= comps@.len(),
            pushed_snap@ == comps@[idx as int].0@,
            path@ == old(path)@.push(pushed_snap),
            detect_scan(comps@, pipeline@, k as int, v1, fuel as nat)
                == detect_scan(comps@, pipeline@, 0, v1, fuel as nat),
        decreases pipeline@.len() - k,
    {
        match &pipeline[k] {
            Step::Call(c) => {
                proof {
                    assert(comps@.skip(0) =~= comps@);
                }
                match find_comp(comps, c.component.as_str(), 0) {
                    Some(j) => {
                        proof {
                            lemma_comp_lookup(comps@, c.component@);
                            lemma_count_update(v0, idx as int);
                        }
                        if detect_cycle(comps, j, visited, path, fuel - 1) {
                            proof {
                                let sub = detect_spec(comps@, j as int, v1, (fuel - 1) as nat)->Some_0;
                                assert(detect_scan(comps@, pipeline@, k as int, v1, fuel as nat)
                                    == Some(sub));
                                assert(name_views(old(path)@.push(pushed_snap))
                                    =~= name_views(old(path)@) + seq![comps@[idx as int].0@]);
                                assert(name_views(old(path)@)
                                    + (seq![comps@[idx as int].0@] + sub)
                                    =~= (name_views(old(path)@) + seq![comps@[idx as int].0@]) + sub);
                            }
                            return true;
                        }
                    },
                    None => (),
                }
            },
            _ => (),
        }
        k = k + 1;
    }
    visited.set(idx, false);
    proof {
        assert(visited@ =~= v0);
    }
    let popped = path.pop();
    proof {
        assert(path@ =~= old(path)@);
    }
    false
}

/// One cycle report per component whose search finds a repetition, in
/// declaration order, each carrying its path joined with arrows.
pub open spec fn cycle_reports(comps: Seq<(String, Component)>, i: int) -> Seq<ErrModel>
    decreases comps.len() - i,
{
    if !(0 <= i) || i >= comps.len() {
        Seq::<ErrModel>::empty()
    } else {
        (match detect_spec(comps, i, all_false(comps.len() as nat), comps.len() as nat) {
            Some(p) => seq![ErrModel::CircularReference { path: join_seq(p, " -> "@) }],
            None => Seq::<ErrModel>::empty(),
        }) + cycle_reports(comps, i + 1)
    }
}

fn join_names_at(path: &Vec<String>, i: usize) -> (out: Vec<char>)
    requires
        i <= path@.len(),
    ensures
        out@ == join_seq(name_views(path@).skip(i as int), " -> "@),
    decreases path@.len() - i,
{
    let ghost views = name_views(path@);
    if i == path.len() {
        let out: Vec<char> = Vec::new();
        proof {
            assert(views.skip(i as int).len() == 0);
        }
        out
    } else if i + 1 == path.len() {
        let out = str_to_chars(path[i].as_str());
        proof {
            assert(views.skip(i as int).len() == 1);
            assert(views.skip(i as int)[0] == views[i as int]);
        }
        out
    } else {
        let mut out = str_to_chars(path[i].as_str());
        let sep = str_to_chars(" -> ");
        push_all(&mut out, &sep);
        let rest = join_names_at(path, i + 1);
        push_all(&mut out, &rest);
        proof {
            assert(views.skip(i as int)[0] == views[i as int]);
            assert(views.skip(i as int).skip(1) =~= views.skip(i + 1));
            assert(views.skip(i as int).len() > 1);
            assert(out@ =~= join_seq(views.skip(i as int), " -> "@));
        }
        out
    }
}

fn join_path(path: &Vec<String>) -> (r: String)
    ensures
        r@ == join_seq(name_views(path@), " -> "@),
{
    proof {
        assert(name_views(path@).skip(0) =~= name_views(path@));
    }
    let chars = join_names_at(path, 0);
    chars_to_string(&chars)
}

fn check_cycles(comps: &Vec<(String, Component)>, errors: &mut ValidationErrors)
    ensures
        final(errors)@ == old(errors)@ + cycle_reports(comps@, 0),
        errs_extend(old(errors)@, final(errors)@),
{
    let n = comps.len();
    let mut i: usize = 0;
    while i < n
        invariant
            n == comps@.len(),
            i <= n,
            errors@ + cycle_reports(comps@, i as int) == old(errors)@ + cycle_reports(comps@, 0),
            errs_extend(old(errors)@, errors@),
        decreases n - i,
    {
        let mut visited: Vec<bool> = Vec::new();
        let mut k: usize = 0;
        while k < n
            invariant
                k <= n,
                visited@.len() == k,
                forall|t: int| 0 <= t < k ==> !(#[trigger] visited@[t]),
            decreases n - k,
        {
            visited.push(false);
            k = k + 1;
        }
        proof {
            assert(visited@ =~= all_false(n as nat));
            lemma_count_false(visited@);
        }
        let mut path: Vec<String> = Vec::new();
        let ghost before = errors@;
        let found = detect_cycle(comps, i, &mut visited, &mut path, n);
        if found {
            proof {
                let p = detect_spec(comps@, i as int, all_false(n as nat), n as nat)->Some_0;
                assert(name_views(path@) =~= p);
            }
            let message = join_path(&path);
            errors.push(CrawlerError::CircularReference { path: message });
            proof {
                let head = match detect_spec(comps@, i as int, all_false(n as nat), n as nat) {
                    Some(p) => seq![ErrModel::CircularReference { path: join_seq(p, " -> "@) }],
                    None => Seq::<ErrModel>::empty(),
                };
                assert(errors@ =~= before + head);
                assert(before + (head + cycle_reports(comps@, i + 1))
                    =~= (before + head) + cycle_reports(comps@, i + 1));
            }
        } else {
            proof {
                assert(errors@ + cycle_reports(comps@, i + 1)
                    =~= errors@ + cycle_reports(comps@, i as int));
            }
        }
        i = i + 1;
    }
    proof {
        assert(errors@ + cycle_reports(comps@, i as int) =~= errors@);
    }
}


/// An edge of the component-call graph: some call of `a`'s pipeline
/// resolves to component `b`.
pub open spec fn calls_edge(comps: Seq<(String, Component)>, a: int, b: int) -> bool {
    &&& 0 <= a < comps.len()
    &&& 0 <= b < comps.len()
    &&& exists|k: int| 0 <= k < comps[a].1.pipeline@.len()
        && (call_target(#[trigger] comps[a].1.pipeline@[k]) matches Some(t)
            && comp_lookup(comps, t) == Some(b))
}

/// A simple cycle of the component-call graph: distinct components, each
/// calling the next, the last calling the first.
pub open spec fn cycle_path_ok(comps: Seq<(String, Component)>, p: Seq<int>) -> bool {
    &&& p.len() >= 1
    &&& forall|i: int, j: int| 0 <= i < j < p.len() ==> p[i] != p[j]
    &&& forall|i: int| 0 <= i < p.len() - 1 ==> calls_edge(comps, #[trigger] p[i], p[i + 1])
    &&& calls_edge(comps, p[p.len() - 1], p[0])
}

/// Whether the component-call graph has a cycle.
pub open spec fn has_cycle(comps: Seq<(String, Component)>) -> bool {
    exists|p: Seq<int>| cycle_path_ok(comps, p)
}

/// Whenever the search reports a repetition, the graph really has a cycle:
/// the visited set is the chain of calls that led here, so the repeated
/// component closes a loop of edges.
proof fn lemma_detect_sound(comps: Seq<(String, Component)>, idx: int, visited: Seq<bool>,
    fuel: nat, stack: Seq<int>)
    requires
        0 <= idx < comps.len(),
        visited.len() == comps.len(),
        forall|k: int| 0 <= k < comps.len() ==> ((#[trigger] visited[k]) <==> stack.contains(k)),
        forall|i: int| 0 <= i < stack.len() ==> 0 <= #[trigger] stack[i] < comps.len(),
        forall|i: int, j: int| 0 <= i < j < stack.len() ==> stack[i] != stack[j],
        forall|i: int| 0 <= i < stack.len() - 1 ==> calls_edge(comps, #[trigger] stack[i], stack[i + 1]),
        stack.len() > 0 ==> calls_edge(comps, stack[stack.len() - 1], idx),
        detect_spec(comps, idx, visited, fuel) is Some,
    ensures
        has_cycle(comps),
    decreases fuel, 1int, 0int,
{
    if visited[idx] {
        assert(stack.contains(idx));
        let pos = choose|pos: int| 0 <= pos < stack.len() && stack[pos] == idx;
        let p = stack.subrange(pos, stack.len() as int);
        assert forall|i: int| 0 <= i < p.len() - 1
            implies calls_edge(comps, #[trigger] p[i], p[i + 1]) by {
            assert(p[i] == stack[pos + i]);
            assert(p[i + 1] == stack[pos + i + 1]);
        }
        assert(p[p.len() - 1] == stack[stack.len() - 1]);
        assert(p[0] == idx);
        assert(cycle_path_ok(comps, p));
    } else if fuel == 0 {
        assert(false);
    } else {
        let v1 = visited.update(idx, true);
        let stack1 = stack.push(idx);
        assert forall|t: int| 0 <= t < comps.len()
            implies ((#[trigger] v1[t]) <==> stack1.contains(t)) by {
            if t == idx {
                assert(stack1[stack.len() as int] == idx);
                assert(stack1.contains(idx));
            } else {
                if stack.contains(t) {
                    let w = choose|w: int| 0 <= w < stack.len() && stack[w] == t;
                    assert(stack1[w] == t);
                }
                if stack1.contains(t) {
                    let w = choose|w: int| 0 <= w < stack1.len() && stack1[w] == t;
                    assert(w < stack.len());
                    assert(stack[w] == t);
                }
            }
        }
        assert forall|i: int| 0 <= i < stack1.len() - 1
            implies calls_edge(comps, #[trigger] stack1[i], stack1[i + 1]) by {
            assert(stack1[i] == stack[i]);
            if i + 1 < stack.len() {
                assert(stack1[i + 1] == stack[i + 1]);
            } else {
                assert(stack1[i + 1] == idx);
                assert(stack1[i] == stack[stack.len() - 1]);
            }
        }
        assert(!stack.contains(idx));
        assert forall|i: int, j: int| 0 <= i < j < stack1.len()
            implies stack1[i] != stack1[j] by {
            if j < stack.len() {
            } else {
                assert(stack1[j] == idx);
                assert(stack1[i] == stack[i]);
                assert(stack.contains(stack[i]));
            }
        }
        lemma_scan_sound(comps, comps[idx].1.pipeline@, 0, v1, fuel, stack1, idx);
    }
}

/// The per-pipeline part of the soundness argument.
proof fn lemma_scan_sound(comps: Seq<(String, Component)>, pipeline: Seq<Step>, k: int,
    visited: Seq<bool>, fuel: nat, stack: Seq<int>, cur: int)
    requires
        0 <= cur < comps.len(),
        pipeline == comps[cur].1.pipeline@,
        visited.len() == comps.len(),
        stack.len() > 0,
        stack[stack.len() - 1] == cur,
        forall|t: int| 0 <= t < comps.len() ==> ((#[trigger] visited[t]) <==> stack.contains(t)),
        forall|i: int| 0 <= i < stack.len() ==> 0 <= #[trigger] stack[i] < comps.len(),
        forall|i: int, j: int| 0 <= i < j < stack.len() ==> stack[i] != stack[j],
        forall|i: int| 0 <= i < stack.len() - 1 ==> calls_edge(comps, #[trigger] stack[i], stack[i + 1]),
        detect_scan(comps, pipeline, k, visited, fuel) is Some,
    ensures
        has_cycle(comps),
    decreases fuel, 0int, pipeline.len() - k,
{
    if 0 <= k && k < pipeline.len() && fuel > 0 {
        match call_target(pipeline[k]) {
            Some(t) => match comp_lookup(comps, t) {
                Some(j) => {
                    lemma_comp_lookup(comps, t);
                    if detect_spec(comps, j, visited, (fuel - 1) as nat) is Some {
                        assert(calls_edge(comps, cur, j));
                        lemma_detect_sound(comps, j, visited, (fuel - 1) as nat, stack);
                    } else {
                        lemma_scan_sound(comps, pipeline, k + 1, visited, fuel, stack, cur);
                    }
                },
                None => {
                    lemma_scan_sound(comps, pipeline, k + 1, visited, fuel, stack, cur);
                },
            },
            None => {
                lemma_scan_sound(comps, pipeline, k + 1, visited, fuel, stack, cur);
            },
        }
    }
}

/// A call whose target's search succeeds makes the whole scan succeed.
proof fn lemma_scan_finds(comps: Seq<(String, Component)>, pipeline: Seq<Step>, k: int, k2: int,
    visited: Seq<bool>, fuel: nat)
    requires
        0 <= k <= k2 < pipeline.len(),
        fuel > 0,
        call_target(pipeline[k2]) matches Some(t) && (comp_lookup(comps, t) matches Some(j)
            && detect_spec(comps, j, visited, (fuel - 1) as nat) is Some),
    ensures
        detect_scan(comps, pipeline, k, visited, fuel) is Some,
    decreases k2 - k,
{
    if k < k2 {
        lemma_scan_finds(comps, pipeline, k + 1, k2, visited, fuel);
    }
}

/// Whenever a chain of calls from `idx` leads back into the visited set,
/// onto `idx` itself or onto the chain, the search from `idx` succeeds.
proof fn lemma_detect_complete(comps: Seq<(String, Component)>, idx: int, visited: Seq<bool>,
    fuel: nat, walk: Seq<int>)
    requires
        0 <= idx < comps.len(),
        visited.len() == comps.len(),
        !visited[idx],
        fuel as int + count_marked(visited) >= comps.len(),
        walk.len() >= 1,
        forall|i: int| 0 <= i < walk.len() ==> 0 <= #[trigger] walk[i] < comps.len(),
        calls_edge(comps, idx, walk[0]),
        forall|i: int| 0 <= i < walk.len() - 1 ==> calls_edge(comps, #[trigger] walk[i], walk[i + 1]),
        forall|i: int| 0 <= i < walk.len() - 1 ==> !visited[#[trigger] walk[i]] && walk[i] != idx,
        forall|i: int, j: int| 0 <= i < j < walk.len() - 1 ==> walk[i] != walk[j],
        ({
            let last = walk[walk.len() - 1];
            visited[last] || last == idx || exists|j: int| 0 <= j < walk.len() - 1
                && #[trigger] walk[j] == last
        }),
    ensures
        detect_spec(comps, idx, visited, fuel) is Some,
    decreases walk.len(),
{
    lemma_count_lt(visited, idx);
    let v1 = visited.update(idx, true);
    let w0 = walk[0];
    let k = choose|k: int| 0 <= k < comps[idx].1.pipeline@.len()
        && (call_target(#[trigger] comps[idx].1.pipeline@[k]) matches Some(t)
            && comp_lookup(comps, t) == Some(w0));
    if v1[w0] {
        assert(detect_spec(comps, w0, v1, (fuel - 1) as nat) is Some);
        lemma_scan_finds(comps, comps[idx].1.pipeline@, 0, k, v1, fuel);
    } else {
        assert(walk.len() >= 2) by {
            if walk.len() == 1 {
                assert(walk[walk.len() - 1] == w0);
            }
        }
        let walk2 = walk.skip(1);
        lemma_count_update(visited, idx);
        assert forall|i: int| 0 <= i < walk2.len() - 1
            implies !v1[#[trigger] walk2[i]] && walk2[i] != w0 by {
            assert(walk2[i] == walk[i + 1]);
        }
        assert forall|i: int| 0 <= i < walk2.len() - 1
            implies calls_edge(comps, #[trigger] walk2[i], walk2[i + 1]) by {
            assert(walk2[i] == walk[i + 1]);
            assert(walk2[i + 1] == walk[i + 2]);
        }
        assert(calls_edge(comps, w0, walk2[0]));
        assert(({
            let last = walk2[walk2.len() - 1];
            v1[last] || last == w0 || exists|j: int| 0 <= j < walk2.len() - 1
                && #[trigger] walk2[j] == last
        })) by {
            let last = walk[walk.len() - 1];
            assert(walk2[walk2.len() - 1] == last);
            if visited[last] {
                assert(v1[last]);
            } else if last == idx {
                assert(v1[last]);
            } else {
                let j = choose|j: int| 0 <= j < walk.len() - 1 && #[trigger] walk[j] == last;
                if j == 0 {
                    assert(last == w0);
                } else {
                    assert(walk2[j - 1] == last);
                }
            }
        }
        lemma_detect_complete(comps, w0, v1, (fuel - 1) as nat, walk2);
        lemma_scan_finds(comps, comps[idx].1.pipeline@, 0, k, v1, fuel);
    }
}

/// Whether some collected error reports a cycle.
pub open spec fn has_cycle_err(errs: Seq<ErrModel>) -> bool {
    exists|i: int| 0 <= i < errs.len() && (#[trigger] errs[i]) is CircularReference
}

/// A successful search at component `a` puts a cycle report among the
/// reports collected from `i` on.
proof fn lemma_reports_include(comps: Seq<(String, Component)>, i: int, a: int)
    requires
        0 <= i <= a < comps.len(),
        detect_spec(comps, a, all_false(comps.len() as nat), comps.len() as nat) is Some,
    ensures
        has_cycle_err(cycle_reports(comps, i)),
    decreases a - i,
{
    if i == a {
        assert(cycle_reports(comps, i)[0] is CircularReference);
    } else {
        lemma_reports_include(comps, i + 1, a);
        let w = choose|w: int| 0 <= w < cycle_reports(comps, i + 1).len()
            && (#[trigger] cycle_reports(comps, i + 1)[w]) is CircularReference;
        let head = match detect_spec(comps, i, all_false(comps.len() as nat), comps.len() as nat) {
            Some(p) => seq![ErrModel::CircularReference { path: join_seq(p, " -> "@) }],
            None => Seq::<ErrModel>::empty(),
        };
        assert(cycle_reports(comps, i)[head.len() + w] is CircularReference);
    }
}

/// Any simple cycle of the component-call graph is reported.
#[verifier::rlimit(50)]
pub proof fn lemma_cycle_reported(comps: Seq<(String, Component)>, p: Seq<int>)
    requires
        cycle_path_ok(comps, p),
    ensures
        has_cycle_err(cycle_reports(comps, 0)),
{
    let n = comps.len();
    let a = p[0];
    let walk = p.skip(1).push(a);
    lemma_count_false(all_false(n as nat));
    assert(count_marked(all_false(n as nat)) == 0);
    assert forall|i: int| 0 <= i < walk.len() - 1
        implies calls_edge(comps, #[trigger] walk[i], walk[i + 1]) by {
        assert(walk[i] == p[i + 1]);
        if i + 1 < walk.len() - 1 {
            assert(walk[i + 1] == p[i + 2]);
        } else {
            assert(walk[i + 1] == a);
            assert(walk[i] == p[p.len() - 1]);
        }
    }
    assert(calls_edge(comps, a, walk[0])) by {
        if p.len() == 1 {
            assert(walk[0] == a);
        } else {
            assert(walk[0] == p[1]);
        }
    }
    assert forall|i: int| 0 <= i < walk.len() - 1
        implies !all_false(n as nat)[#[trigger] walk[i]] && walk[i] != a by {
        assert(walk[i] == p[i + 1]);
    }
    assert forall|i: int, j: int| 0 <= i < j < walk.len() - 1
        implies walk[i] != walk[j] by {
        assert(walk[i] == p[i + 1]);
        assert(walk[j] == p[j + 1]);
    }
    assert(walk[walk.len() - 1] == a);
    lemma_detect_complete(comps, a, all_false(n as nat), n as nat, walk);
    lemma_reports_include(comps, 0, a);
}

/// Reports come only from real cycles: no cycle, no report.
pub proof fn lemma_reports_sound(comps: Seq<(String, Component)>, i: int)
    requires
        0 <= i <= comps.len(),
    ensures
        cycle_reports(comps, i).len() > 0 ==> has_cycle(comps),
    decreases comps.len() - i,
{
    if i < comps.len() {
        lemma_reports_sound(comps, i + 1);
        match detect_spec(comps, i, all_false(comps.len() as nat), comps.len() as nat) {
            Some(_) => {
                assert forall|t: int| 0 <= t < comps.len()
                    implies ((#[trigger] all_false(comps.len() as nat)[t])
                        <==> Seq::<int>::empty().contains(t)) by {}
                lemma_detect_sound(comps, i, all_false(comps.len() as nat), comps.len() as nat,
                    Seq::<int>::empty());
            },
            None => {},
        }
    }
}


/// The component table a rule declares, or the empty one.
pub open spec fn rule_comps(rule: CrawlerRule) -> Seq<(String, Component)> {
    match rule.components {
        Some(c) => c@,
        None => Seq::<(String, Component)>::empty(),
    }
}

/// The script module table a rule declares, or the empty one.
pub open spec fn rule_modules(rule: CrawlerRule) -> Seq<(String, Script)> {
    match rule.scripting {
        Some(s) => s.modules@,
        None => Seq::<(String, Script)>::empty(),
    }
}

/// What the validator reports for the component table from entry `i` on.
pub open spec fn comps_findings(list: Seq<(String, Component)>, comps: Seq<(String, Component)>,
    modules: Seq<(String, Script)>, i: int) -> Seq<ErrModel>
    decreases list.len() - i,
{
    if !(0 <= i) || i >= list.len() {
        Seq::<ErrModel>::empty()
    } else {
        vpipeline_findings(list[i].1.pipeline@, comps, modules, 0)
            + comps_findings(list, comps, modules, i + 1)
    }
}

/// What the validator reports across the whole rule, cycle reports aside:
/// the flows' pipelines in order, then every component's pipeline.
pub open spec fn rule_findings(rule: CrawlerRule) -> Seq<ErrModel> {
    let comps = rule_comps(rule);
    let modules = rule_modules(rule);
    (match rule.login {
        Some(f) => vpipeline_findings(f.pipeline@, comps, modules, 0),
        None => Seq::<ErrModel>::empty(),
    }) + (match rule.list {
        Some(f) => vpipeline_findings(f.pipeline@, comps, modules, 0),
        None => Seq::<ErrModel>::empty(),
    }) + vpipeline_findings(rule.detail.pipeline@, comps, modules, 0)
        + vpipeline_findings(rule.search.pipeline@, comps, modules, 0)
        + comps_findings(comps, comps, modules, 0)
}

/// Whether every call step of every pipeline of the rule, components and
/// loops included, names a defined component.
pub open spec fn rule_calls_ok(rule: CrawlerRule) -> bool {
    &&& (rule.login matches Some(f) ==> pipeline_calls_ok(f.pipeline@, rule_comps(rule)))
    &&& (rule.list matches Some(f) ==> pipeline_calls_ok(f.pipeline@, rule_comps(rule)))
    &&& pipeline_calls_ok(rule.detail.pipeline@, rule_comps(rule))
    &&& pipeline_calls_ok(rule.search.pipeline@, rule_comps(rule))
    &&& (forall|i: int| 0 <= i < rule_comps(rule).len()
        ==> pipeline_calls_ok((#[trigger] rule_comps(rule)[i]).1.pipeline@, rule_comps(rule)))
}

/// A component table without findings has every component's calls defined.
proof fn lemma_comps_findings_empty(list: Seq<(String, Component)>, comps: Seq<(String, Component)>,
    modules: Seq<(String, Script)>, i: int, k: int)
    requires
        0 <= i <= k < list.len(),
        comps_findings(list, comps, modules, i).len() == 0,
    ensures
        pipeline_calls_ok(list[k].1.pipeline@, comps),
    decreases k - i,
{
    if i == k {
        lemma_no_findings_calls_ok(list[k].1.pipeline@, comps, modules, 0);
        assert(list[k].1.pipeline@.skip(0) =~= list[k].1.pipeline@);
    } else {
        lemma_comps_findings_empty(list, comps, modules, i + 1, k);
    }
}

/// Whether a returned error is the finding, or a collection carrying it.
pub open spec fn err_carries(e: ErrModel, x: ErrModel) -> bool {
    ||| e == x
    ||| (e matches ErrModel::MultipleErrors { errors, .. } && errors.contains(x))
}

/// Whether a returned error reports a cycle, directly or inside a
/// collection.
pub open spec fn err_includes_cycle(e: ErrModel) -> bool {
    ||| e is CircularReference
    ||| (e matches ErrModel::MultipleErrors { errors, .. } && has_cycle_err(errors))
}

/// A two-component cycle: each component's pipeline calls the other's name,
/// and each name resolves to its component.
pub open spec fn two_cycle(comps: Seq<(String, Component)>, a: int, b: int) -> bool {
    &&& 0 <= a < comps.len()
    &&& 0 <= b < comps.len()
    &&& a != b
    &&& comp_lookup(comps, comps[a].0@) == Some(a)
    &&& comp_lookup(comps, comps[b].0@) == Some(b)
    &&& has_call_to(comps[a].1.pipeline@, comps[b].0@)
    &&& has_call_to(comps[b].1.pipeline@, comps[a].0@)
}

/// A two-component cycle is a cycle of the component-call graph.
pub proof fn lemma_two_cycle_is_cycle(comps: Seq<(String, Component)>, a: int, b: int)
    requires
        two_cycle(comps, a, b),
    ensures
        cycle_path_ok(comps, seq![a, b]),
        has_cycle(comps),
{
    let ka = choose|k: int| 0 <= k < comps[a].1.pipeline@.len()
        && call_target(#[trigger] comps[a].1.pipeline@[k]) == Some(comps[b].0@);
    let kb = choose|k: int| 0 <= k < comps[b].1.pipeline@.len()
        && call_target(#[trigger] comps[b].1.pipeline@[k]) == Some(comps[a].0@);
    assert(calls_edge(comps, a, b));
    assert(calls_edge(comps, b, a));
    let p = seq![a, b];
    assert(p[p.len() - 1] == b);
    assert(cycle_path_ok(comps, p));
}

/// A rule without findings has every component call defined.
proof fn lemma_clean_rule_calls_ok(rule: CrawlerRule)
    requires
        rule_findings(rule).len() == 0,
    ensures
        rule_calls_ok(rule),
{
    let comps = rule_comps(rule);
    let modules = rule_modules(rule);
    match rule.login {
        Some(f) => {
            lemma_no_findings_calls_ok(f.pipeline@, comps, modules, 0);
            assert(f.pipeline@.skip(0) =~= f.pipeline@);
        },
        None => {},
    }
    match rule.list {
        Some(f) => {
            lemma_no_findings_calls_ok(f.pipeline@, comps, modules, 0);
            assert(f.pipeline@.skip(0) =~= f.pipeline@);
        },
        None => {},
    }
    lemma_no_findings_calls_ok(rule.detail.pipeline@, comps, modules, 0);
    assert(rule.detail.pipeline@.skip(0) =~= rule.detail.pipeline@);
    lemma_no_findings_calls_ok(rule.search.pipeline@, comps, modules, 0);
    assert(rule.search.pipeline@.skip(0) =~= rule.search.pipeline@);
    assert forall|k: int| 0 <= k < comps.len()
        implies pipeline_calls_ok((#[trigger] comps[k]).1.pipeline@, comps) by {
        lemma_comps_findings_empty(comps, comps, modules, 0, k);
    }
}

/// Without a cycle report there is no cycle.
proof fn lemma_no_cycle_without_reports(comps: Seq<(String, Component)>)
    requires
        cycle_reports(comps, 0).len() == 0,
    ensures
        !has_cycle(comps),
{
    if has_cycle(comps) {
        let p = choose|p: Seq<int>| cycle_path_ok(comps, p);
        lemma_cycle_reported(comps, p);
        let w = choose|w: int| 0 <= w < cycle_reports(comps, 0).len()
            && (#[trigger] cycle_reports(comps, 0)[w]) is CircularReference;
        assert(false);
    }
}

/// A returned error carries every collected finding, and a cycle report
/// among the collected errors makes the returned error carry a cycle.
proof fn lemma_err_carries_all(reports: Seq<ErrModel>, findings: Seq<ErrModel>,
    collected: Seq<ErrModel>, e: ErrModel)
    requires
        collected == reports + findings,
        collected.len() > 0,
        if collected.len() == 1 {
            e == collected[0]
        } else {
            e == (ErrModel::MultipleErrors { count: collected.len() as int, errors: collected })
        },
    ensures
        has_cycle_err(reports) ==> err_includes_cycle(e),
        forall|x: ErrModel| #[trigger] findings.contains(x) ==> err_carries(e, x),
{
    if has_cycle_err(reports) {
        let w = choose|w: int| 0 <= w < reports.len()
            && (#[trigger] reports[w]) is CircularReference;
        assert(collected[w] == reports[w]);
        if collected.len() == 1 {
            assert(w == 0);
        } else {
            assert(e matches ErrModel::MultipleErrors { errors: errs, .. }
                && errs[w] is CircularReference);
        }
    }
    assert forall|x: ErrModel| #[trigger] findings.contains(x) implies err_carries(e, x) by {
        let w = choose|w: int| 0 <= w < findings.len() && findings[w] == x;
        assert(collected[reports.len() + w] == x);
        if collected.len() == 1 {
            assert(reports.len() + w == 0);
        } else {
            assert(e matches ErrModel::MultipleErrors { errors: errs, .. } && errs.contains(x));
        }
    }
}

impl CrawlerRule {
    /// Checks the whole rule before any execution, collecting every finding
    /// exactly: each cycle the call-graph search reports, then, in order,
    /// every undefined component call, undefined script module, ill-formed
    /// identifier and unparseable template of the flows and components. The
    /// rule passes exactly when nothing is found; one finding is returned
    /// raw, several are collected with their count. A rule with any
    /// call-graph cycle is rejected with a cycle report, and a passing rule
    /// has no cycle and no undefined component call.
    #[verifier::rlimit(50)]
    pub fn validate(&self) -> (r: ValidationResult<()>)
        ensures
            ({
                let reports = cycle_reports(rule_comps(*self), 0);
                let findings = rule_findings(*self);
                let found = reports + findings;
                &&& match r {
                    Ok(()) => found.len() == 0,
                    Err(e) => found.len() > 0 && (if found.len() == 1 {
                        e@ == found[0]
                    } else {
                        e@ == (ErrModel::MultipleErrors {
                            count: found.len() as int,
                            errors: found,
                        })
                    }),
                }
                &&& (r is Ok ==> rule_calls_ok(*self))
                &&& (r is Ok ==> !has_cycle(rule_comps(*self)))
                &&& (has_cycle(rule_comps(*self))
                    ==> (r matches Err(e) && err_includes_cycle(e@)))
                &&& (forall|x: ErrModel| #[trigger] findings.contains(x)
                    ==> (r matches Err(e) && err_carries(e@, x)))
            }),
    {
        let mut errors = ValidationErrors::new();
        let empty_comps: Vec<(String, Component)> = Vec::new();
        let empty_modules: Vec<(String, Script)> = Vec::new();
        let comps: &Vec<(String, Component)> = match &self.components {
            Some(c) => c,
            None => &empty_comps,
        };
        let modules: &Vec<(String, Script)> = match &self.scripting {
            Some(s) => &s.modules,
            None => &empty_modules,
        };
        proof {
            assert(comps@ == rule_comps(*self));
            assert(modules@ == rule_modules(*self));
        }
        let ghost reports = cycle_reports(comps@, 0);
        check_cycles(comps, &mut errors);
        let ghost f_login = match &self.login {
            Some(f) => vpipeline_findings(f.pipeline@, comps@, modules@, 0),
            None => Seq::<ErrModel>::empty(),
        };
        let ghost f_list = match &self.list {
            Some(f) => vpipeline_findings(f.pipeline@, comps@, modules@, 0),
            None => Seq::<ErrModel>::empty(),
        };
        let ghost f_detail = vpipeline_findings(self.detail.pipeline@, comps@, modules@, 0);
        let ghost f_search = vpipeline_findings(self.search.pipeline@, comps@, modules@, 0);
        match &self.login {
            Some(f) => {
                validate_pipeline(&f.pipeline, comps, modules, &mut errors);
            },
            None => (),
        }
        proof {
            assert(errors@ =~= reports + f_login);
        }
        match &self.list {
            Some(f) => {
                validate_pipeline(&f.pipeline, comps, modules, &mut errors);
            },
            None => (),
        }
        proof {
            assert(errors@ =~= reports + f_login + f_list);
        }
        validate_pipeline(&self.detail.pipeline, comps, modules, &mut errors);
        validate_pipeline(&self.search.pipeline, comps, modules, &mut errors);
        proof {
            assert(errors@ =~= reports + f_login + f_list + f_detail + f_search);
        }
        let ghost base = errors@;
        let mut i: usize = 0;
        while i < comps.len()
            invariant
                i <= comps@.len(),
                errors@ + comps_findings(comps@, comps@, modules@, i as int)
                    == base + comps_findings(comps@, comps@, modules@, 0),
            decreases comps@.len() - i,
        {
            let ghost before = errors@;
            validate_pipeline(&comps[i].1.pipeline, comps, modules, &mut errors);
            proof {
                assert(before + (vpipeline_findings(comps@[i as int].1.pipeline@, comps@, modules@, 0)
                    + comps_findings(comps@, comps@, modules@, i + 1))
                    =~= (before + vpipeline_findings(comps@[i as int].1.pipeline@, comps@, modules@, 0))
                        + comps_findings(comps@, comps@, modules@, i + 1));
            }
            i = i + 1;
        }
        proof {
            assert(errors@ + comps_findings(comps@, comps@, modules@, i as int) =~= errors@);
            assert(errors@ =~= reports + rule_findings(*self));
        }
        let ghost collected = errors@;
        let ghost findings = rule_findings(*self);
        let r = errors.into_result();
        proof {
            assert(collected =~= reports + findings);
            match &r {
                Ok(()) => {
                    assert(findings.len() == 0 && reports.len() == 0);
                    lemma_clean_rule_calls_ok(*self);
                    lemma_no_cycle_without_reports(rule_comps(*self));
                },
                Err(e) => {
                    lemma_err_carries_all(reports, findings, collected, e@);
                    if has_cycle(rule_comps(*self)) {
                        let p = choose|p: Seq<int>| cycle_path_ok(rule_comps(*self), p);
                        lemma_cycle_reported(rule_comps(*self), p);
                    }
                },
            }
        }
        r
    }
}

/// Whole-rule validation.
pub trait RuleValidate {
    /// Checks the rule's completeness and correctness.
    fn validate(&self) -> ValidationResult<()>;
}

impl RuleValidate for CrawlerRule {
    /// Checks the whole rule, collecting every finding.
    fn validate(&self) -> ValidationResult<()> {
        CrawlerRule::validate(self)
    }
}


/// An element of either part is an element of the whole.
proof fn lemma_concat_contains(a: Seq<ErrModel>, b: Seq<ErrModel>, x: ErrModel)
    requires
        a.contains(x) || b.contains(x),
    ensures
        (a + b).contains(x),
{
    if a.contains(x) {
        let w = choose|w: int| 0 <= w < a.len() && a[w] == x;
        assert((a + b)[w] == x);
    } else {
        let w = choose|w: int| 0 <= w < b.len() && b[w] == x;
        assert((a + b)[a.len() + w] == x);
    }
}

/// A step's finding is among its pipeline's findings.
pub proof fn lemma_vpipeline_contains(p: Seq<Step>, comps: Seq<(String, Component)>,
    modules: Seq<(String, Script)>, i: int, k: int, x: ErrModel)
    requires
        0 <= i <= k < p.len(),
        vstep_findings(p[k], comps, modules).contains(x),
    ensures
        vpipeline_findings(p, comps, modules, i).contains(x),
    decreases k - i,
{
    if i == k {
        lemma_concat_contains(vstep_findings(p[k], comps, modules),
            vpipeline_findings(p, comps, modules, i + 1), x);
    } else {
        lemma_vpipeline_contains(p, comps, modules, i + 1, k, x);
        lemma_concat_contains(vstep_findings(p[i], comps, modules),
            vpipeline_findings(p, comps, modules, i + 1), x);
    }
}

/// A component's pipeline finding is among the component table's findings.
pub proof fn lemma_comps_findings_contains(list: Seq<(String, Component)>,
    comps: Seq<(String, Component)>, modules: Seq<(String, Script)>, i: int, k: int, x: ErrModel)
    requires
        0 <= i <= k < list.len(),
        vpipeline_findings(list[k].1.pipeline@, comps, modules, 0).contains(x),
    ensures
        comps_findings(list, comps, modules, i).contains(x),
    decreases k - i,
{
    if i == k {
        lemma_concat_contains(vpipeline_findings(list[k].1.pipeline@, comps, modules, 0),
            comps_findings(list, comps, modules, i + 1), x);
    } else {
        lemma_comps_findings_contains(list, comps, modules, i + 1, k, x);
        lemma_concat_contains(vpipeline_findings(list[i].1.pipeline@, comps, modules, 0),
            comps_findings(list, comps, modules, i + 1), x);
    }
}

/// Every region's findings are among the whole rule's: whatever a flow's
/// pipeline or a component's pipeline reports — an undefined component
/// call, an undefined script module, an ill-formed identifier, a template
/// that does not parse — stands in `rule_findings`, so a rejecting
/// `validate` returns it, raw or collected.
pub proof fn lemma_rule_findings_regions(rule: CrawlerRule, x: ErrModel)
    ensures
        (rule.login matches Some(f)
            && vpipeline_findings(f.pipeline@, rule_comps(rule), rule_modules(rule), 0).contains(x))
            ==> rule_findings(rule).contains(x),
        (rule.list matches Some(f)
            && vpipeline_findings(f.pipeline@, rule_comps(rule), rule_modules(rule), 0).contains(x))
            ==> rule_findings(rule).contains(x),
        vpipeline_findings(rule.detail.pipeline@, rule_comps(rule), rule_modules(rule), 0).contains(x)
            ==> rule_findings(rule).contains(x),
        vpipeline_findings(rule.search.pipeline@, rule_comps(rule), rule_modules(rule), 0).contains(x)
            ==> rule_findings(rule).contains(x),
        comps_findings(rule_comps(rule), rule_comps(rule), rule_modules(rule), 0).contains(x)
            ==> rule_findings(rule).contains(x),
{
    let comps = rule_comps(rule);
    let modules = rule_modules(rule);
    let a = match rule.login {
        Some(f) => vpipeline_findings(f.pipeline@, comps, modules, 0),
        None => Seq::<ErrModel>::empty(),
    };
    let b = match rule.list {
        Some(f) => vpipeline_findings(f.pipeline@, comps, modules, 0),
        None => Seq::<ErrModel>::empty(),
    };
    let c = vpipeline_findings(rule.detail.pipeline@, comps, modules, 0);
    let d = vpipeline_findings(rule.search.pipeline@, comps, modules, 0);
    let e = comps_findings(comps, comps, modules, 0);
    if a.contains(x) {
        lemma_concat_contains(a, b, x);
        lemma_concat_contains(a + b, c, x);
        lemma_concat_contains(a + b + c, d, x);
        lemma_concat_contains(a + b + c + d, e, x);
    }
    if b.contains(x) {
        lemma_concat_contains(a, b, x);
        lemma_concat_contains(a + b, c, x);
        lemma_concat_contains(a + b + c, d, x);
        lemma_concat_contains(a + b + c + d, e, x);
    }
    if c.contains(x) {
        lemma_concat_contains(a + b, c, x);
        lemma_concat_contains(a + b + c, d, x);
        lemma_concat_contains(a + b + c + d, e, x);
    }
    if d.contains(x) {
        lemma_concat_contains(a + b + c, d, x);
        lemma_concat_contains(a + b + c + d, e, x);
    }
    if e.contains(x) {
        lemma_concat_contains(a + b + c + d, e, x);
    }
}

} // verus!
