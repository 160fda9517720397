//! Pipelines that rewrite a program body before the probes walk it, and
//! the order in which they run.

use vstd::prelude::*;

use crate::json::JsonValue;
use crate::text::{lemma_view_strings_push, strings_contain, to_string, view_strings};

verus! {

/// A pass over a program body that gives back the (possibly rewritten) body.
pub trait Pipeline {
    /// What the pass makes of a body.
    spec fn spec_walk(&self, body: Seq<JsonValue>) -> Seq<JsonValue>;

    /// The pass's name; two passes with one name are one pass.
    spec fn spec_name(&self) -> Seq<char>;

    fn name(&self) -> (r: String)
        ensures
            r@ == self.spec_name(),
    ;

    /// Rewrites the body.
    fn walk(&mut self, body: Vec<JsonValue>) -> (r: Vec<JsonValue>)
        ensures
            r@ == old(self).spec_walk(body@),
    ;
}

/// The deobfuscating pipeline. It rewrites nothing yet.
pub struct Deobfuscate;

impl Pipeline for Deobfuscate {
    open spec fn spec_walk(&self, body: Seq<JsonValue>) -> Seq<JsonValue> {
        body
    }

    open spec fn spec_name(&self) -> Seq<char> {
        "deobfuscate"@
    }

    fn name(&self) -> (r: String) {
        to_string("deobfuscate")
    }

    fn walk(&mut self, body: Vec<JsonValue>) -> (r: Vec<JsonValue>) {
        body
    }
}

/// The inlining pipeline: hoists the declarations of inlined constructions
/// and wraps inlined calls in a block. Since no inlined pattern is
/// recognised yet, it gives the body back unchanged.
pub struct Inline;

impl Pipeline for Inline {
    open spec fn spec_walk(&self, body: Seq<JsonValue>) -> Seq<JsonValue> {
        body
    }

    open spec fn spec_name(&self) -> Seq<char> {
        "inline"@
    }

    fn name(&self) -> (r: String) {
        to_string("inline")
    }

    fn walk(&mut self, body: Vec<JsonValue>) -> (r: Vec<JsonValue>) {
        body
    }
}

/// The body after each pass of `passes` ran on it, in order.
pub open spec fn spec_reduce(passes: Seq<Box<dyn Pipeline>>, body: Seq<JsonValue>) -> Seq<JsonValue>
    decreases passes.len(),
{
    if passes.len() == 0 {
        body
    } else {
        passes.last().spec_walk(spec_reduce(passes.drop_last(), body))
    }
}

/// Runs a program body through its pipelines, in order.
pub struct PipelineRunner {
    pub pipelines: Vec<Box<dyn Pipeline>>,
}

impl PipelineRunner {
    /// Runs the body through every pipeline, each on what the one before
    /// gave back.
    pub fn reduce(&mut self, initial_body: Vec<JsonValue>) -> (r: Vec<JsonValue>)
        ensures
            r@ == spec_reduce(old(self).pipelines@, initial_body@),
    {
        let ghost passes = self.pipelines@;
        let mut body = initial_body;
        let mut i: usize = 0;
        while i < self.pipelines.len()
            invariant
                0 <= i <= passes.len(),
                self.pipelines@.len() == passes.len(),
                forall|j: int| i <= j < passes.len() ==> self.pipelines@[j] == passes[j],
                body@ == spec_reduce(passes.take(i as int), initial_body@),
            decreases passes.len() - i,
        {
            assert(passes.take(i + 1).drop_last() =~= passes.take(i as int));
            let pass = &mut self.pipelines[i];
            body = pass.walk(body);
            i = i + 1;
        }
        assert(passes.take(passes.len() as int) =~= passes);
        body
    }
}

/// Each pass's name.
pub open spec fn pass_names(passes: Seq<Box<dyn Pipeline>>) -> Seq<Seq<char>> {
    passes.map_values(|p: Box<dyn Pipeline>| p.spec_name())
}

/// The passes that run: the first of each name, in order.
pub open spec fn spec_dedup(passes: Seq<Box<dyn Pipeline>>) -> Seq<Box<dyn Pipeline>>
    decreases passes.len(),
{
    if passes.len() == 0 {
        Seq::empty()
    } else {
        let prev = spec_dedup(passes.drop_last());
        if pass_names(passes.drop_last()).contains(passes.last().spec_name()) {
            prev
        } else {
            prev.push(passes.last())
        }
    }
}

/// Keeps the first pipeline of each name, in order.
fn remove_duplicated_pipelines(pipelines: Vec<Box<dyn Pipeline>>) -> (r: Vec<Box<dyn Pipeline>>)
    ensures
        r@ == spec_dedup(pipelines@),
{
    let ghost passes = pipelines@;
    let ghost names = pass_names(passes);
    let mut rest = pipelines;
    let mut seen: Vec<String> = Vec::new();
    let mut kept: Vec<Box<dyn Pipeline>> = Vec::new();
    let count = rest.len();
    let mut i: usize = 0;
    while rest.len() > 0
        invariant
            names == pass_names(passes),
            count == passes.len(),
            0 <= i <= passes.len(),
            rest@ == passes.skip(i as int),
            view_strings(seen@) == names.take(i as int),
            kept@ == spec_dedup(passes.take(i as int)),
        decreases rest.len(),
    {
        let pass = rest.remove(0);
        assert(pass == passes[i as int]);
        let name = pass.name();
        assert(passes.take(i + 1).drop_last() =~= passes.take(i as int));
        assert(pass_names(passes.take(i as int)) =~= names.take(i as int));
        if !strings_contain(&seen, name.as_str()) {
            kept.push(pass);
        }
        proof {
            lemma_view_strings_push(seen@, name);
        }
        seen.push(name);
        assert(rest@ =~= passes.skip(i + 1));
        i = i + 1;
    }
    assert(passes.take(i as int) =~= passes);
    kept
}

impl PipelineRunner {
    /// A runner over the first pipeline of each name, in order.
    pub fn new(pipelines: Vec<Box<dyn Pipeline>>) -> (r: PipelineRunner)
        ensures
            r.pipelines@ == spec_dedup(pipelines@),
    {
        PipelineRunner { pipelines: remove_duplicated_pipelines(pipelines) }
    }
}

} // verus!
