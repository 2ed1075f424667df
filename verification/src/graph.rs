//! The call graph derived from a decoded module.
//!
//! `build_call_graph` is total: every decoded representation yields a graph.
//! Its contract pins every part of the result: the node set (defined
//! functions, function-kind imports, call-fact endpoints, export targets and
//! the start function), every node's fields, the deduplicated edge list with
//! its call-site counts, the entry points with their documented fallback, and
//! the unreachable (dead-code candidate) functions, characterised against a
//! path-based reachability specification.

use vstd::prelude::*;
use vstd::string::StringExecFns;
use crate::types::{
    CallEdge, CallGraph, CallNode, CallNodeView, ExportKind, Function, Import, ImportView,
    ModuleInfo, ModuleInfoView, view_of_opt_string, imports_view, functions_view,
};
use crate::format::{spec_is_fn_export, spec_first_fn_export_name};
use crate::strings::{spec_u32_digits, u32_digits};

verus! {

// ----------------------------------------------------------------------------
// Counting and classification.

/// The number of function-kind imports; defined functions are numbered after
/// them.
pub open spec fn spec_n_fn_imports(imports: Seq<ImportView>) -> int
    decreases imports.len(),
{
    if imports.len() == 0 {
        0
    } else {
        (if imports[0].kind is Function {
            1int
        } else {
            0int
        }) + spec_n_fn_imports(imports.drop_first())
    }
}

/// How many call facts name `i` as their callee.
pub open spec fn spec_count_callee(facts: Seq<(u32, u32)>, i: u32) -> int
    decreases facts.len(),
{
    if facts.len() == 0 {
        0
    } else {
        (if facts[0].1 == i {
            1int
        } else {
            0int
        }) + spec_count_callee(facts.drop_first(), i)
    }
}

/// How many distinct static call instructions go from `f` to `t`.
pub open spec fn spec_edge_count(facts: Seq<(u32, u32)>, f: u32, t: u32) -> int
    decreases facts.len(),
{
    if facts.len() == 0 {
        0
    } else {
        (if facts[0].0 == f && facts[0].1 == t {
            1int
        } else {
            0int
        }) + spec_edge_count(facts.drop_first(), f, t)
    }
}

/// A count clamped to the 32 bits a node or edge stores.
pub open spec fn spec_sat32(c: int) -> u32 {
    if c > 0xffff_ffff {
        0xffff_ffffu32
    } else if c < 0 {
        0u32
    } else {
        c as u32
    }
}

pub open spec fn spec_mentioned_in_facts(facts: Seq<(u32, u32)>, i: u32) -> bool {
    exists|j: int| 0 <= j < facts.len() && (#[trigger] facts[j]).0 == i || 0 <= j < facts.len()
        && facts[j].1 == i
}

/// Whether the first mention of `i` in the fact list is as a caller; callers
/// are examined before callees within one fact.
pub open spec fn spec_first_role_is_caller(facts: Seq<(u32, u32)>, i: u32) -> bool
    decreases facts.len(),
{
    if facts.len() == 0 {
        false
    } else if facts[0].0 == i {
        true
    } else if facts[0].1 == i {
        false
    } else {
        spec_first_role_is_caller(facts.drop_first(), i)
    }
}

pub open spec fn spec_is_defined_idx(functions: Seq<crate::types::FunctionView>, i: u32) -> bool {
    exists|j: int| 0 <= j < functions.len() && (#[trigger] functions[j]).index == i
}

/// The record of the defined function with index `i`; with colliding indices
/// the later record wins, as an index-keyed upsert would have it.
pub open spec fn spec_last_defined(functions: Seq<crate::types::FunctionView>, i: u32) -> crate::types::FunctionView
    decreases functions.len(),
{
    if functions.len() == 0 {
        arbitrary()
    } else if functions.last().index == i {
        functions.last()
    } else {
        spec_last_defined(functions.drop_last(), i)
    }
}

/// The `i`-th function-kind import.
pub open spec fn spec_ith_fn_import(imports: Seq<ImportView>, i: int) -> ImportView
    decreases imports.len(),
{
    if imports.len() == 0 {
        arbitrary()
    } else if imports[0].kind is Function {
        if i == 0 {
            imports[0]
        } else {
            spec_ith_fn_import(imports.drop_first(), i - 1)
        }
    } else {
        spec_ith_fn_import(imports.drop_first(), i)
    }
}

/// An import-kind node: an index in the import range that no defined
/// function claims.
pub open spec fn spec_is_import_node(m: ModuleInfoView, i: u32) -> bool {
    !spec_is_defined_idx(m.functions, i) && (i as int) < spec_n_fn_imports(m.imports)
}

/// Membership in the node set: defined functions, function-kind imports,
/// fact endpoints, function-kind export targets, and the start function.
pub open spec fn spec_is_node_index(m: ModuleInfoView, i: u32) -> bool {
    spec_is_defined_idx(m.functions, i) || (i as int) < spec_n_fn_imports(m.imports)
        || spec_mentioned_in_facts(m.function_call_instructions, i) || spec_is_fn_export(
        m.exports,
        i,
    ) || m.start_function == Some(i)
}

// ----------------------------------------------------------------------------
// Node names.

pub open spec fn spec_import_node_name(imp: ImportView) -> Seq<char> {
    imp.module + "::"@ + imp.name + " (import)"@
}

pub open spec fn spec_implicit_node_name(i: u32, caller: bool) -> Seq<char> {
    "func_"@ + spec_u32_digits(i as int) + (if caller {
        " (implicit_caller)"@
    } else {
        " (implicit_callee)"@
    })
}

pub open spec fn spec_start_node_name(i: u32) -> Seq<char> {
    "_start (func_"@ + spec_u32_digits(i as int) + ")"@
}

/// The node at index `i`, by the precedence of its sources: a defined
/// function, a function-kind import, a fact endpoint, an export target, the
/// start function.  A function-kind export additionally forces the export
/// flag of the node it targets.
pub open spec fn spec_node(m: ModuleInfoView, i: u32) -> CallNodeView {
    let count = spec_sat32(spec_count_callee(m.function_call_instructions, i));
    let exported = spec_is_fn_export(m.exports, i);
    if spec_is_defined_idx(m.functions, i) {
        let f = spec_last_defined(m.functions, i);
        CallNodeView {
            function_index: i,
            name: f.name,
            is_imported: false,
            is_exported: f.is_exported || exported,
            call_count: count,
        }
    } else if (i as int) < spec_n_fn_imports(m.imports) {
        CallNodeView {
            function_index: i,
            name: Some(spec_import_node_name(spec_ith_fn_import(m.imports, i as int))),
            is_imported: true,
            is_exported: exported,
            call_count: count,
        }
    } else if spec_mentioned_in_facts(m.function_call_instructions, i) {
        CallNodeView {
            function_index: i,
            name: Some(
                spec_implicit_node_name(
                    i,
                    spec_first_role_is_caller(m.function_call_instructions, i),
                ),
            ),
            is_imported: false,
            is_exported: exported,
            call_count: count,
        }
    } else if exported {
        CallNodeView {
            function_index: i,
            name: spec_first_fn_export_name(m.exports, i),
            is_imported: false,
            is_exported: true,
            call_count: count,
        }
    } else {
        CallNodeView {
            function_index: i,
            name: Some(spec_start_node_name(i)),
            is_imported: false,
            is_exported: false,
            call_count: count,
        }
    }
}

// ----------------------------------------------------------------------------
// Entry points and reachability.

/// An explicit entry point: a function-kind export target or the start
/// function.
pub open spec fn spec_is_entry_target(m: ModuleInfoView, i: u32) -> bool {
    spec_is_fn_export(m.exports, i) || m.start_function == Some(i)
}

pub open spec fn spec_has_entry_target(m: ModuleInfoView) -> bool {
    exists|i: u32| spec_is_entry_target(m, i)
}

/// A seed of the reachability walk: an explicit entry point, or, when there
/// is none, the first defined function.
pub open spec fn spec_is_seed(m: ModuleInfoView, i: u32) -> bool {
    spec_is_entry_target(m, i) || (!spec_has_entry_target(m) && m.functions.len() > 0 && i
        == m.functions[0].index)
}

pub open spec fn spec_fact_in(facts: Seq<(u32, u32)>, f: u32, t: u32) -> bool {
    exists|w: int| 0 <= w < facts.len() && #[trigger] facts[w] == (f, t)
}

pub open spec fn spec_edge_in(edges: Seq<CallEdge>, f: u32, t: u32) -> bool {
    exists|j: int| 0 <= j < edges.len() && (#[trigger] edges[j]).from == f && edges[j].to == t
}

pub open spec fn spec_has_fact(m: ModuleInfoView, f: u32, t: u32) -> bool {
    spec_fact_in(m.function_call_instructions, f, t)
}

/// A walkable path: it starts at a seed and follows call facts forward.
pub open spec fn spec_valid_path(m: ModuleInfoView, p: Seq<u32>) -> bool {
    p.len() >= 1 && spec_is_seed(m, p[0]) && (forall|x: int|
        0 <= x < p.len() - 1 ==> spec_has_fact(m, #[trigger] p[x], p[x + 1]))
}

/// An index some path from a seed reaches: the plain forward closure of the
/// call facts over the entry points.
pub open spec fn spec_path_reaches(m: ModuleInfoView, i: u32) -> bool {
    exists|p: Seq<u32>| #[trigger] spec_valid_path(m, p) && p.last() == i
}

/// Reachability: every import-kind node is unconditionally reachable (a
/// host-provided capability may be invoked from outside), and so is
/// everything the forward search from the entry points reaches.
pub open spec fn spec_reachable(m: ModuleInfoView, i: u32) -> bool {
    spec_is_import_node(m, i) || spec_path_reaches(m, i)
}

pub open spec fn seq_contains(s: Seq<u32>, x: u32) -> bool {
    exists|j: int| 0 <= j < s.len() && s[j] == x
}

pub open spec fn strictly_sorted(s: Seq<u32>) -> bool {
    forall|j: int| 0 <= j < s.len() - 1 ==> #[trigger] s[j] < s[j + 1]
}

pub open spec fn edges_sorted(s: Seq<CallEdge>) -> bool {
    forall|j: int|
        0 <= j < s.len() - 1 ==> (#[trigger] s[j]).from < s[j + 1].from || (s[j].from == s[j
            + 1].from && s[j].to < s[j + 1].to)
}

/// What `build_call_graph` promises of its result.
pub open spec fn spec_graph_ok(m: ModuleInfoView, g: crate::types::CallGraphView) -> bool {
    let facts = m.function_call_instructions;
    // Nodes: sorted by index, one per member of the node set, each pinned.
    &&& strictly_sorted(g.nodes.map_values(|n: CallNodeView| n.function_index))
    &&& forall|j: int|
        0 <= j < g.nodes.len() ==> #[trigger] g.nodes[j] == spec_node(m, g.nodes[j].function_index)
    &&& forall|i: u32|
        #[trigger] spec_is_node_index(m, i) <==> seq_contains(
            g.nodes.map_values(|n: CallNodeView| n.function_index),
            i,
        )
    // Edges: sorted, deduplicated call facts with their call-site counts.
    &&& edges_sorted(g.edges)
    &&& forall|j: int|
        0 <= j < g.edges.len() ==> (#[trigger] g.edges[j]).call_sites == spec_sat32(
            spec_edge_count(facts, g.edges[j].from, g.edges[j].to),
        ) && spec_edge_count(facts, g.edges[j].from, g.edges[j].to) > 0
    &&& forall|f: u32, t: u32| #[trigger] spec_has_fact(m, f, t) <==> spec_edge_in(g.edges, f, t)
    // Entry points: the sorted explicit targets, or the documented fallback.
    &&& strictly_sorted(g.entry_points)
    &&& if spec_has_entry_target(m) {
        forall|i: u32| #[trigger] spec_is_entry_target(m, i) <==> seq_contains(g.entry_points, i)
    } else if m.functions.len() > 0 {
        g.entry_points =~= seq![m.functions[0].index]
    } else {
        g.entry_points =~= Seq::<u32>::empty()
    }
    // Unreachable functions: the sorted dead-code candidates — defined,
    // non-imported functions absent from the reachable set.
    &&& strictly_sorted(g.unreachable_functions)
    &&& forall|i: u32|
        #[trigger] seq_contains(g.unreachable_functions, i) <==> (spec_is_defined_idx(
            m.functions,
            i,
        ) && !spec_reachable(m, i))
}

// ----------------------------------------------------------------------------
// Sorted sets of indices.

/// Strictly sorted positions are at least their index.
proof fn lemma_sorted_index_lb(s: Seq<u32>, j: int)
    requires
        strictly_sorted(s),
        0 <= j < s.len(),
    ensures
        s[j] >= j,
    decreases j,
{
    if j > 0 {
        lemma_sorted_index_lb(s, j - 1);
    }
}

/// A strictly sorted sequence of 32-bit values cannot repeat, so its length
/// is bounded.
proof fn lemma_sorted_len(s: Seq<u32>)
    requires
        strictly_sorted(s),
    ensures
        s.len() <= 0x1_0000_0000,
{
    if s.len() > 0x1_0000_0000 {
        lemma_sorted_index_lb(s, 0x1_0000_0000);
    }
}

proof fn lemma_sorted_mono(s: Seq<u32>, a: int, b: int)
    requires
        strictly_sorted(s),
        0 <= a < b < s.len(),
    ensures
        s[a] < s[b],
    decreases b - a,
{
    if a + 1 < b {
        lemma_sorted_mono(s, a + 1, b);
    }
}

fn contains_sorted(v: &Vec<u32>, x: u32) -> (r: bool)
    ensures
        r == seq_contains(v@, x),
{
    let mut j: usize = 0;
    while j < v.len()
        invariant
            j <= v.len(),
            forall|k: int| 0 <= k < j ==> #[trigger] v@[k] != x,
        decreases v.len() - j,
    {
        if v[j] == x {
            return true;
        }
        j = j + 1;
    }
    false
}

/// The shape of an insertion into a strictly sorted sequence.
#[verifier::rlimit(100)]
#[verifier::spinoff_prover]
proof fn lemma_split_insert(vs: Seq<u32>, out: Seq<u32>, split: int, x: u32)
    requires
        strictly_sorted(vs),
        0 <= split <= vs.len(),
        forall|w: int| 0 <= w < split ==> #[trigger] vs[w] < x,
        split < vs.len() ==> vs[split] > x,
        out == vs.take(split) + seq![x] + vs.skip(split),
    ensures
        strictly_sorted(out),
        forall|y: u32| #[trigger] seq_contains(out, y) <==> (seq_contains(vs, y) || y == x),
{
    assert forall|a: int| 0 <= a < out.len() - 1 implies #[trigger] out[a] < out[a + 1] by {
        if a + 1 < split {
            assert(out[a] == vs[a] && out[a + 1] == vs[a + 1]);
        } else if a + 1 == split {
            assert(out[a] == vs[a] && out[a + 1] == x);
        } else if a == split {
            assert(out[a] == x && out[a + 1] == vs[split]);
        } else {
            assert(out[a] == vs[a - 1] && out[a + 1] == vs[a]);
        }
    }
    assert forall|y: u32| #[trigger] seq_contains(out, y) <==> (seq_contains(vs, y) || y == x)
        by {
        if seq_contains(vs, y) {
            let w = choose|w: int| 0 <= w < vs.len() && vs[w] == y;
            if w < split {
                assert(out[w] == y);
            } else {
                assert(out[w + 1] == y);
            }
        }
        assert(out[split] == x);
        if seq_contains(out, y) && y != x {
            let w = choose|w: int| 0 <= w < out.len() && out[w] == y;
            if w < split {
                assert(vs[w] == y);
            } else if w > split {
                assert(vs[w - 1] == y);
            }
        }
    }
}

#[verifier::rlimit(100)]
#[verifier::spinoff_prover]
fn sorted_insert_unique(v: Vec<u32>, x: u32) -> (r: Vec<u32>)
    requires
        strictly_sorted(v@),
    ensures
        strictly_sorted(r@),
        forall|y: u32| seq_contains(r@, y) <==> (seq_contains(v@, y) || y == x),
        seq_contains(v@, x) ==> r@ == v@,
        !seq_contains(v@, x) ==> r@.len() == v@.len() + 1,
{
    let ghost vs = v@;
    let mut out: Vec<u32> = Vec::new();
    let mut j: usize = 0;
    while j < v.len() && v[j] < x
        invariant
            j <= v.len(),
            v@ == vs,
            out@ == vs.take(j as int),
            forall|k: int| 0 <= k < j ==> #[trigger] vs[k] < x,
        decreases v.len() - j,
    {
        out.push(v[j]);
        proof {
            assert(out@ =~= vs.take(j as int + 1));
        }
        j = j + 1;
    }
    if j < v.len() && v[j] == x {
        proof {
            assert(seq_contains(v@, x));
        }
        return v;
    }
    let ghost split = j as int;
    out.push(x);
    let mut k: usize = j;
    while k < v.len()
        invariant
            0 <= split <= k <= v.len(),
            v@ == vs,
            out@ == vs.take(split) + seq![x] + vs.subrange(split, k as int),
        decreases v.len() - k,
    {
        out.push(v[k]);
        proof {
            assert(out@ =~= vs.take(split) + seq![x] + vs.subrange(split, k as int + 1));
        }
        k = k + 1;
    }
    proof {
        assert(out@ =~= vs.take(split) + seq![x] + vs.skip(split));
        lemma_split_insert(vs, out@, split, x);
        assert(!seq_contains(vs, x)) by {
            if seq_contains(vs, x) {
                let w = choose|w: int| 0 <= w < vs.len() && vs[w] == x;
                if w > split {
                    lemma_sorted_mono(vs, split, w);
                }
            }
        }
    }
    out
}

// ----------------------------------------------------------------------------
// Counts, lookups and classification over the representation.

pub(crate) fn n_fn_imports_of(imports: &Vec<Import>) -> (r: u64)
    ensures
        r == spec_n_fn_imports(imports_view(imports@)),
        r <= imports@.len(),
{
    let ghost ivs = imports_view(imports@);
    proof {
        assert(ivs.skip(0) =~= ivs);
    }
    let mut c: u64 = 0;
    let mut j: usize = 0;
    while j < imports.len()
        invariant
            j <= imports.len(),
            c <= j,
            ivs == imports_view(imports@),
            spec_n_fn_imports(ivs) == c + spec_n_fn_imports(ivs.skip(j as int)),
        decreases imports.len() - j,
    {
        proof {
            assert(ivs.skip(j as int)[0] == ivs[j as int]);
            assert(ivs.skip(j as int).drop_first() =~= ivs.skip(j as int + 1));
        }
        let is_fn = match &imports[j].kind {
            crate::types::ImportKind::Function { .. } => true,
            _ => false,
        };
        if is_fn {
            c = c + 1;
        }
        j = j + 1;
    }
    proof {
        assert(spec_n_fn_imports(ivs.skip(imports@.len() as int)) == 0);
    }
    c
}

fn count_callee(facts: &Vec<(u32, u32)>, i: u32) -> (r: u32)
    ensures
        r == spec_sat32(spec_count_callee(facts@, i)),
{
    let ghost fs = facts@;
    proof {
        assert(fs.skip(0) =~= fs);
    }
    let mut c: u64 = 0;
    let mut j: usize = 0;
    while j < facts.len()
        invariant
            j <= facts.len(),
            c <= j,
            fs == facts@,
            spec_count_callee(fs, i) == c + spec_count_callee(fs.skip(j as int), i),
        decreases facts.len() - j,
    {
        proof {
            assert(fs.skip(j as int)[0] == fs[j as int]);
            assert(fs.skip(j as int).drop_first() =~= fs.skip(j as int + 1));
        }
        if facts[j].1 == i {
            c = c + 1;
        }
        j = j + 1;
    }
    proof {
        assert(spec_count_callee(fs.skip(facts@.len() as int), i) == 0);
        lemma_count_callee_nonneg(fs.skip(facts@.len() as int), i);
    }
    if c > 0xffff_ffff {
        0xffff_ffff
    } else {
        c as u32
    }
}

proof fn lemma_count_callee_nonneg(facts: Seq<(u32, u32)>, i: u32)
    ensures
        spec_count_callee(facts, i) >= 0,
    decreases facts.len(),
{
    if facts.len() > 0 {
        lemma_count_callee_nonneg(facts.drop_first(), i);
    }
}

proof fn lemma_edge_count_nonneg(facts: Seq<(u32, u32)>, f: u32, t: u32)
    ensures
        spec_edge_count(facts, f, t) >= 0,
    decreases facts.len(),
{
    if facts.len() > 0 {
        lemma_edge_count_nonneg(facts.drop_first(), f, t);
    }
}

/// A pair occurs among the facts exactly when its call-site count is
/// positive.
proof fn lemma_edge_count_pos(facts: Seq<(u32, u32)>, f: u32, t: u32)
    ensures
        spec_edge_count(facts, f, t) > 0 <==> exists|j: int|
            0 <= j < facts.len() && #[trigger] facts[j] == (f, t),
    decreases facts.len(),
{
    lemma_edge_count_nonneg(facts, f, t);
    if facts.len() > 0 {
        lemma_edge_count_pos(facts.drop_first(), f, t);
        lemma_edge_count_nonneg(facts.drop_first(), f, t);
        if facts[0] == (f, t) {
            assert(facts[0].0 == f && facts[0].1 == t);
        } else {
            if exists|j: int| 0 <= j < facts.len() && #[trigger] facts[j] == (f, t) {
                let j = choose|j: int| 0 <= j < facts.len() && #[trigger] facts[j] == (f, t);
                if j > 0 {
                    assert(facts.drop_first()[j - 1] == (f, t));
                }
            }
            if exists|j: int|
                0 <= j < facts.drop_first().len() && #[trigger] facts.drop_first()[j] == (f, t) {
                let j = choose|j: int|
                    0 <= j < facts.drop_first().len() && #[trigger] facts.drop_first()[j] == (
                    f,
                    t,
                );
                assert(facts[j + 1] == (f, t));
            }
            if facts[0].0 == f && facts[0].1 == t {
                assert(facts[0] == (f, t));
            }
        }
    }
}

fn edge_count(facts: &Vec<(u32, u32)>, f: u32, t: u32) -> (r: u32)
    ensures
        r == spec_sat32(spec_edge_count(facts@, f, t)),
{
    let ghost fs = facts@;
    proof {
        assert(fs.skip(0) =~= fs);
    }
    let mut c: u64 = 0;
    let mut j: usize = 0;
    while j < facts.len()
        invariant
            j <= facts.len(),
            c <= j,
            fs == facts@,
            spec_edge_count(fs, f, t) == c + spec_edge_count(fs.skip(j as int), f, t),
        decreases facts.len() - j,
    {
        proof {
            assert(fs.skip(j as int)[0] == fs[j as int]);
            assert(fs.skip(j as int).drop_first() =~= fs.skip(j as int + 1));
        }
        if facts[j].0 == f && facts[j].1 == t {
            c = c + 1;
        }
        j = j + 1;
    }
    proof {
        assert(spec_edge_count(fs.skip(facts@.len() as int), f, t) == 0);
        lemma_edge_count_nonneg(fs.skip(facts@.len() as int), f, t);
    }
    if c > 0xffff_ffff {
        0xffff_ffff
    } else {
        c as u32
    }
}

fn is_defined_idx(functions: &Vec<Function>, i: u32) -> (r: bool)
    ensures
        r == spec_is_defined_idx(functions_view(functions@), i),
{
    let ghost fvs = functions_view(functions@);
    let mut j: usize = 0;
    while j < functions.len()
        invariant
            j <= functions.len(),
            fvs == functions_view(functions@),
            forall|k: int| 0 <= k < j ==> (#[trigger] fvs[k]).index != i,
        decreases functions.len() - j,
    {
        if functions[j].index == i {
            proof {
                assert(fvs[j as int].index == i);
            }
            return true;
        }
        j = j + 1;
    }
    false
}

/// The record of the defined function at index `i`: the later record wins.
fn last_defined(functions: &Vec<Function>, i: u32) -> (r: (Option<String>, bool))
    requires
        spec_is_defined_idx(functions_view(functions@), i),
    ensures
        ({
            let f = spec_last_defined(functions_view(functions@), i);
            view_of_opt_string(r.0) == f.name && r.1 == f.is_exported
        }),
{
    let ghost fvs = functions_view(functions@);
    proof {
        assert(fvs.take(functions@.len() as int) =~= fvs);
    }
    let mut j: usize = functions.len();
    while j > 0
        invariant
            j <= functions.len(),
            fvs == functions_view(functions@),
            spec_is_defined_idx(fvs.take(j as int), i),
            spec_last_defined(fvs, i) == spec_last_defined(fvs.take(j as int), i),
        decreases j,
    {
        proof {
            assert(fvs.take(j as int).last() == fvs[j - 1]);
            assert(fvs.take(j as int).drop_last() =~= fvs.take(j as int - 1));
        }
        if functions[j - 1].index == i {
            let name = match &functions[j - 1].name {
                None => None,
                Some(s) => Some(s.clone()),
            };
            return (name, functions[j - 1].is_exported);
        }
        proof {
            let k = choose|k: int| 0 <= k < j && (#[trigger] fvs.take(j as int)[k]).index == i;
            assert(fvs.take(j as int - 1)[k] == fvs[k]);
            assert(spec_is_defined_idx(fvs.take(j as int - 1), i));
        }
        j = j - 1;
    }
    proof {
        assert(false);
    }
    (None, false)
}

/// The `i`-th function-kind import's node name.
fn ith_fn_import_name(imports: &Vec<Import>, i: u64) -> (r: String)
    requires
        (i as int) < spec_n_fn_imports(imports_view(imports@)),
    ensures
        r@ == spec_import_node_name(spec_ith_fn_import(imports_view(imports@), i as int)),
{
    let ghost ivs = imports_view(imports@);
    proof {
        assert(ivs.skip(0) =~= ivs);
        lemma_n_fn_imports_nonneg(ivs);
    }
    let mut c: u64 = 0;
    let mut j: usize = 0;
    loop
        invariant
            j <= imports.len(),
            c <= i,
            ivs == imports_view(imports@),
            spec_ith_fn_import(ivs, i as int) == spec_ith_fn_import(
                ivs.skip(j as int),
                i - c,
            ),
            (i - c) < spec_n_fn_imports(ivs.skip(j as int)),
        decreases imports.len() - j,
    {
        proof {
            if j >= imports.len() {
                assert(ivs.skip(j as int).len() == 0);
                assert(spec_n_fn_imports(ivs.skip(j as int)) == 0);
                assert(false);
            }
            assert(ivs.skip(j as int)[0] == ivs[j as int]);
            assert(ivs.skip(j as int).drop_first() =~= ivs.skip(j as int + 1));
        }
        let is_fn = match &imports[j].kind {
            crate::types::ImportKind::Function { .. } => true,
            _ => false,
        };
        if is_fn {
            if c == i {
                let imp = &imports[j];
                let s = imp.module.clone().concat("::").concat(imp.name.as_str()).concat(
                    " (import)",
                );
                return s;
            }
            c = c + 1;
        }
        j = j + 1;
    }
}

proof fn lemma_n_fn_imports_nonneg(imports: Seq<ImportView>)
    ensures
        spec_n_fn_imports(imports) >= 0,
    decreases imports.len(),
{
    if imports.len() > 0 {
        lemma_n_fn_imports_nonneg(imports.drop_first());
    }
}

/// Whether `i` is mentioned among the facts, and if so whether its first
/// mention is as a caller.
fn fact_role(facts: &Vec<(u32, u32)>, i: u32) -> (r: Option<bool>)
    ensures
        r is Some <==> spec_mentioned_in_facts(facts@, i),
        r matches Some(b) ==> b == spec_first_role_is_caller(facts@, i),
{
    let ghost fs = facts@;
    proof {
        assert(fs.skip(0) =~= fs);
    }
    let mut j: usize = 0;
    while j < facts.len()
        invariant
            j <= facts.len(),
            fs == facts@,
            forall|k: int| 0 <= k < j ==> (#[trigger] fs[k]).0 != i && fs[k].1 != i,
            spec_first_role_is_caller(fs, i) == spec_first_role_is_caller(fs.skip(j as int), i),
        decreases facts.len() - j,
    {
        proof {
            assert(fs.skip(j as int)[0] == fs[j as int]);
            assert(fs.skip(j as int).drop_first() =~= fs.skip(j as int + 1));
        }
        if facts[j].0 == i {
            return Some(true);
        }
        if facts[j].1 == i {
            return Some(false);
        }
        j = j + 1;
    }
    proof {
        if spec_mentioned_in_facts(fs, i) {
            let k = choose|k: int|
                0 <= k < fs.len() && (#[trigger] fs[k]).0 == i || 0 <= k < fs.len() && fs[k].1
                    == i;
            assert(false);
        }
    }
    None
}

// ----------------------------------------------------------------------------
// Node construction.

/// The node at one index, with its best-effort name.
fn node_of(m: &ModuleInfo, nfn: u64, i: u32) -> (r: CallNode)
    requires
        nfn == spec_n_fn_imports(imports_view(m.imports@)),
    ensures
        r@ == spec_node(m@, i),
{
    let count = count_callee(&m.function_call_instructions, i);
    let exported = crate::parser::is_export_of(&m.exports, ExportKind::Function, i);
    if is_defined_idx(&m.functions, i) {
        let (name, fexp) = last_defined(&m.functions, i);
        CallNode {
            function_index: i,
            name,
            is_imported: false,
            is_exported: fexp || exported,
            call_count: count,
        }
    } else if (i as u64) < nfn {
        let name = ith_fn_import_name(&m.imports, i as u64);
        CallNode {
            function_index: i,
            name: Some(name),
            is_imported: true,
            is_exported: exported,
            call_count: count,
        }
    } else {
        match fact_role(&m.function_call_instructions, i) {
            Some(role) => {
                let digits = u32_digits(i);
                let name = String::from_str("func_").concat(digits.as_str()).concat(
                    if role {
                        " (implicit_caller)"
                    } else {
                        " (implicit_callee)"
                    },
                );
                proof {
                    assert(name@ == spec_implicit_node_name(i, role));
                }
                CallNode {
                    function_index: i,
                    name: Some(name),
                    is_imported: false,
                    is_exported: exported,
                    call_count: count,
                }
            },
            None => {
                if exported {
                    let name = crate::parser::first_fn_export_name(&m.exports, i);
                    CallNode {
                        function_index: i,
                        name,
                        is_imported: false,
                        is_exported: true,
                        call_count: count,
                    }
                } else {
                    let digits = u32_digits(i);
                    let name = String::from_str("_start (func_").concat(digits.as_str()).concat(
                        ")",
                    );
                    proof {
                        assert(name@ == spec_start_node_name(i));
                    }
                    CallNode {
                        function_index: i,
                        name: Some(name),
                        is_imported: false,
                        is_exported: false,
                        call_count: count,
                    }
                }
            },
        }
    }
}

/// The sorted set of node indices: defined functions, function-kind imports,
/// fact endpoints, export targets, the start function.
#[verifier::rlimit(100)]
#[verifier::loop_isolation(false)]
fn build_node_indices(m: &ModuleInfo, nfn: u64) -> (r: Vec<u32>)
    requires
        nfn == spec_n_fn_imports(imports_view(m.imports@)),
    ensures
        strictly_sorted(r@),
        forall|i: u32| #[trigger] seq_contains(r@, i) <==> spec_is_node_index(m@, i),
{
    let ghost mv = m@;
    let mut idxs: Vec<u32> = Vec::new();
    let mut j: usize = 0;
    while j < m.functions.len()
        invariant
            j <= m.functions.len(),
            strictly_sorted(idxs@),
            forall|i: u32|
                #[trigger] seq_contains(idxs@, i) <==> exists|k: int|
                    0 <= k < j && (#[trigger] mv.functions[k]).index == i,
        decreases m.functions.len() - j,
    {
        let ghost before = idxs@;
        let x = m.functions[j].index;
        idxs = sorted_insert_unique(idxs, x);
        proof {
            assert(mv.functions[j as int].index == x);
            assert forall|i: u32|
                #[trigger] seq_contains(idxs@, i) <==> exists|k: int|
                    0 <= k < j + 1 && (#[trigger] mv.functions[k]).index == i by {
                if seq_contains(idxs@, i) {
                    if seq_contains(before, i) {
                        let k = choose|k: int| 0 <= k < j && (#[trigger] mv.functions[k]).index == i;
                        assert(0 <= k < j + 1 && mv.functions[k].index == i);
                    } else {
                        assert(mv.functions[j as int].index == i);
                    }
                }
                if exists|k: int| 0 <= k < j + 1 && (#[trigger] mv.functions[k]).index == i {
                    let k = choose|k: int|
                        0 <= k < j + 1 && (#[trigger] mv.functions[k]).index == i;
                    if k < j {
                        assert(seq_contains(before, i));
                    }
                }
            }
        }
        j = j + 1;
    }
    proof {
        assert forall|i: u32|
            #[trigger] seq_contains(idxs@, i) <==> spec_is_defined_idx(mv.functions, i) by {}
    }
    // Function-kind import indices are consecutive from zero.  Past the
    // 32-bit range every index is already covered.
    let cap: u64 = if nfn > 0x1_0000_0000u64 {
        0x1_0000_0000u64
    } else {
        nfn
    };
    let mut c: u64 = 0;
    while c < cap
        invariant
            c <= cap,
            strictly_sorted(idxs@),
            forall|i: u32|
                #[trigger] seq_contains(idxs@, i) <==> (spec_is_defined_idx(mv.functions, i) || (
                i as int) < c),
        decreases cap - c,
    {
        idxs = sorted_insert_unique(idxs, c as u32);
        c = c + 1;
    }
    proof {
        assert forall|i: u32|
            #[trigger] seq_contains(idxs@, i) <==> (spec_is_defined_idx(mv.functions, i) || (
            i as int) < nfn) by {
            assert((i as int) < cap <==> (i as int) < nfn);
        }
    }
    // Fact endpoints.
    let facts = &m.function_call_instructions;
    let mut k: usize = 0;
    while k < facts.len()
        invariant
            k <= facts.len(),
            strictly_sorted(idxs@),
            forall|i: u32|
                #[trigger] seq_contains(idxs@, i) <==> (spec_is_defined_idx(mv.functions, i) || (
                i as int) < nfn || spec_mentioned_in_facts(facts@.take(k as int), i)),
        decreases facts.len() - k,
    {
        let ghost before = idxs@;
        idxs = sorted_insert_unique(idxs, facts[k].0);
        idxs = sorted_insert_unique(idxs, facts[k].1);
        proof {
            assert forall|i: u32|
                #[trigger] seq_contains(idxs@, i) <==> (spec_is_defined_idx(mv.functions, i) || (
                i as int) < nfn || spec_mentioned_in_facts(facts@.take(k as int + 1), i)) by {
                let pre = facts@.take(k as int);
                let post = facts@.take(k as int + 1);
                assert(post[k as int] == facts@[k as int]);
                if spec_mentioned_in_facts(pre, i) {
                    let w = choose|w: int|
                        0 <= w < pre.len() && (#[trigger] pre[w]).0 == i || 0 <= w < pre.len()
                            && pre[w].1 == i;
                    assert(post[w] == pre[w]);
                    assert(spec_mentioned_in_facts(post, i));
                }
                if spec_mentioned_in_facts(post, i) && i != facts@[k as int].0 && i
                    != facts@[k as int].1 {
                    let w = choose|w: int|
                        0 <= w < post.len() && (#[trigger] post[w]).0 == i || 0 <= w < post.len()
                            && post[w].1 == i;
                    assert(w < k ==> pre[w] == post[w]);
                    assert(spec_mentioned_in_facts(pre, i));
                }
                if i == facts@[k as int].0 || i == facts@[k as int].1 {
                    assert(spec_mentioned_in_facts(post, i));
                }
            }
        }
        k = k + 1;
    }
    proof {
        assert(facts@.take(facts@.len() as int) =~= facts@);
    }
    // Export targets.
    let mut e: usize = 0;
    while e < m.exports.len()
        invariant
            e <= m.exports.len(),
            strictly_sorted(idxs@),
            forall|i: u32|
                #[trigger] seq_contains(idxs@, i) <==> (spec_is_defined_idx(mv.functions, i) || (
                i as int) < nfn || spec_mentioned_in_facts(mv.function_call_instructions, i) || (
                exists|w: int|
                    0 <= w < e && (#[trigger] mv.exports[w]).kind == ExportKind::Function
                        && mv.exports[w].index == i)),
        decreases m.exports.len() - e,
    {
        let ghost before = idxs@;
        let is_fn = m.exports[e].kind == ExportKind::Function;
        if is_fn {
            idxs = sorted_insert_unique(idxs, m.exports[e].index);
        }
        proof {
            assert(mv.exports[e as int].kind == m.exports@[e as int].kind);
            assert(mv.exports[e as int].index == m.exports@[e as int].index);
            assert forall|i: u32|
                #[trigger] seq_contains(idxs@, i) <==> (spec_is_defined_idx(mv.functions, i) || (
                i as int) < nfn || spec_mentioned_in_facts(mv.function_call_instructions, i) || (
                exists|w: int|
                    0 <= w < e + 1 && (#[trigger] mv.exports[w]).kind == ExportKind::Function
                        && mv.exports[w].index == i)) by {
                if exists|w: int|
                    0 <= w < e + 1 && (#[trigger] mv.exports[w]).kind == ExportKind::Function
                        && mv.exports[w].index == i {
                    let w = choose|w: int|
                        0 <= w < e + 1 && (#[trigger] mv.exports[w]).kind == ExportKind::Function
                            && mv.exports[w].index == i;
                    if w < e {
                        assert(seq_contains(before, i));
                    }
                }
            }
        }
        e = e + 1;
    }
    // The start function.
    let ghost pre_start = idxs@;
    match m.start_function {
        Some(s) => {
            idxs = sorted_insert_unique(idxs, s);
        },
        None => {},
    }
    proof {
        assert forall|i: u32| #[trigger] seq_contains(idxs@, i) <==> spec_is_node_index(mv, i) by {
            assert(spec_is_fn_export(mv.exports, i) <==> exists|w: int|
                0 <= w < mv.exports.len() && (#[trigger] mv.exports[w]).kind
                    == ExportKind::Function && mv.exports[w].index == i);
        }
    }
    idxs
}

// ----------------------------------------------------------------------------
// Edges.

/// A caller/callee pair packed into one ordered key.
pub open spec fn spec_pack(f: u32, t: u32) -> u64 {
    (f * 0x1_0000_0000 + t) as u64
}

#[verifier::rlimit(100)]
#[verifier::spinoff_prover]
fn sorted_insert_unique_u64(v: Vec<u64>, x: u64) -> (r: Vec<u64>)
    requires
        forall|j: int| 0 <= j < v@.len() - 1 ==> #[trigger] v@[j] < v@[j + 1],
    ensures
        forall|j: int| 0 <= j < r@.len() - 1 ==> #[trigger] r@[j] < r@[j + 1],
        forall|y: u64| #[trigger] contains64(r@, y) <==> (contains64(v@, y) || y == x),
{
    let ghost vs = v@;
    let mut out: Vec<u64> = Vec::new();
    let mut j: usize = 0;
    while j < v.len() && v[j] < x
        invariant
            j <= v.len(),
            v@ == vs,
            out@ == vs.take(j as int),
            forall|k: int| 0 <= k < j ==> #[trigger] vs[k] < x,
        decreases v.len() - j,
    {
        out.push(v[j]);
        proof {
            assert(out@ =~= vs.take(j as int + 1));
        }
        j = j + 1;
    }
    if j < v.len() && v[j] == x {
        proof {
            assert(contains64(v@, x));
        }
        return v;
    }
    let ghost split = j as int;
    out.push(x);
    let mut k: usize = j;
    while k < v.len()
        invariant
            0 <= split <= k <= v.len(),
            v@ == vs,
            forall|w: int| 0 <= w < vs.len() - 1 ==> #[trigger] vs[w] < vs[w + 1],
            forall|w: int| 0 <= w < split ==> #[trigger] vs[w] < x,
            split < vs.len() ==> vs[split] > x,
            out@ == vs.take(split) + seq![x] + vs.subrange(split, k as int),
        decreases v.len() - k,
    {
        out.push(v[k]);
        proof {
            assert(out@ =~= vs.take(split) + seq![x] + vs.subrange(split, k as int + 1));
        }
        k = k + 1;
    }
    proof {
        assert(out@ =~= vs.take(split) + seq![x] + vs.skip(split));
        assert forall|a: int| 0 <= a < out@.len() - 1 implies #[trigger] out@[a] < out@[a + 1] by {
            if a + 1 < split {
                assert(out@[a] == vs[a] && out@[a + 1] == vs[a + 1]);
            } else if a + 1 == split {
                assert(out@[a] == vs[a] && out@[a + 1] == x);
            } else if a == split {
                assert(out@[a] == x && out@[a + 1] == vs[split]);
            } else {
                assert(out@[a] == vs[a - 1] && out@[a + 1] == vs[a]);
            }
        }
        assert forall|y: u64| #[trigger] contains64(out@, y) <==> (contains64(vs, y) || y == x)
            by {
            if contains64(vs, y) {
                let w = choose|w: int| 0 <= w < vs.len() && vs[w] == y;
                if w < split {
                    assert(out@[w] == y);
                } else {
                    assert(out@[w + 1] == y);
                }
            }
            assert(out@[split] == x);
            if contains64(out@, y) && y != x {
                let w = choose|w: int| 0 <= w < out@.len() && out@[w] == y;
                if w < split {
                    assert(vs[w] == y);
                } else if w > split {
                    assert(vs[w - 1] == y);
                }
            }
        }
    }
    out
}

pub open spec fn contains64(s: Seq<u64>, x: u64) -> bool {
    exists|j: int| 0 <= j < s.len() && s[j] == x
}

/// The deduplicated, sorted edge list, each edge carrying its call-site
/// count.
#[verifier::rlimit(100)]
#[verifier::loop_isolation(false)]
fn build_edges(facts: &Vec<(u32, u32)>) -> (r: Vec<CallEdge>)
    ensures
        edges_sorted(r@),
        forall|j: int|
            0 <= j < r@.len() ==> (#[trigger] r@[j]).call_sites == spec_sat32(
                spec_edge_count(facts@, r@[j].from, r@[j].to),
            ) && spec_edge_count(facts@, r@[j].from, r@[j].to) > 0,
        forall|f: u32, t: u32|
            #[trigger] spec_fact_in(facts@, f, t) <==> spec_edge_in(r@, f, t),
{
    let mut keys: Vec<u64> = Vec::new();
    let mut k: usize = 0;
    while k < facts.len()
        invariant
            k <= facts.len(),
            forall|j: int| 0 <= j < keys@.len() - 1 ==> #[trigger] keys@[j] < keys@[j + 1],
            forall|f: u32, t: u32|
                #[trigger] contains64(keys@, spec_pack(f, t)) <==> exists|w: int|
                    0 <= w < k && #[trigger] facts@[w] == (f, t),
            forall|j: int| #![trigger keys@[j]]
                0 <= j < keys@.len() ==> exists|w: int|
                    0 <= w < k && spec_pack(#[trigger] facts@[w].0, facts@[w].1) == keys@[j],
        decreases facts.len() - k,
    {
        let ghost before = keys@;
        let (f, t) = facts[k];
        let key: u64 = (f as u64) * 0x1_0000_0000u64 + (t as u64);
        keys = sorted_insert_unique_u64(keys, key);
        proof {
            assert(key == spec_pack(f, t));
            assert(facts@[k as int] == (f, t));
            assert forall|f2: u32, t2: u32|
                #[trigger] contains64(keys@, spec_pack(f2, t2)) <==> exists|w: int|
                    0 <= w < k + 1 && #[trigger] facts@[w] == (f2, t2) by {
                lemma_pack_injective(f, t, f2, t2);
                if contains64(keys@, spec_pack(f2, t2)) && spec_pack(f2, t2) != key {
                    assert(contains64(before, spec_pack(f2, t2)));
                    let w = choose|w: int| 0 <= w < k && #[trigger] facts@[w] == (f2, t2);
                    assert(0 <= w < k + 1 && facts@[w] == (f2, t2));
                }
                if exists|w: int| 0 <= w < k + 1 && #[trigger] facts@[w] == (f2, t2) {
                    let w = choose|w: int| 0 <= w < k + 1 && #[trigger] facts@[w] == (f2, t2);
                    if w < k {
                        assert(contains64(before, spec_pack(f2, t2)));
                    } else {
                        assert(f2 == f && t2 == t);
                    }
                }
            }
            assert forall|j: int| #![trigger keys@[j]]
                0 <= j < keys@.len() implies exists|w: int|
                    0 <= w < k + 1 && spec_pack(#[trigger] facts@[w].0, facts@[w].1) == keys@[j]
                by {
                if keys@[j] == key {
                    assert(spec_pack(facts@[k as int].0, facts@[k as int].1) == keys@[j]);
                } else {
                    assert(contains64(keys@, keys@[j]));
                    assert(contains64(before, keys@[j]));
                    let w0 = choose|w0: int| 0 <= w0 < before.len() && before[w0] == keys@[j];
                    let w = choose|w: int|
                        0 <= w < k && spec_pack(#[trigger] facts@[w].0, facts@[w].1) == before[w0];
                    assert(spec_pack(facts@[w].0, facts@[w].1) == keys@[j]);
                }
            }
        }
        k = k + 1;
    }
    let mut edges: Vec<CallEdge> = Vec::new();
    let mut q: usize = 0;
    while q < keys.len()
        invariant
            q <= keys.len(),
            edges@.len() == q,
            forall|j: int|
                0 <= j < q ==> (#[trigger] edges@[j]).from == ((keys@[j] / 0x1_0000_0000) as u32)
                    && edges@[j].to == ((keys@[j] % 0x1_0000_0000) as u32) && spec_pack(
                    edges@[j].from,
                    edges@[j].to,
                ) == keys@[j],
            forall|j: int|
                0 <= j < q ==> (#[trigger] edges@[j]).call_sites == spec_sat32(
                    spec_edge_count(facts@, edges@[j].from, edges@[j].to),
                ),
        decreases keys.len() - q,
    {
        let key = keys[q];
        let f = (key / 0x1_0000_0000u64) as u32;
        let t = (key % 0x1_0000_0000u64) as u32;
        proof {
            // The key came from some fact, so unpacking recovers its parts.
            let w = choose|w: int|
                0 <= w < facts@.len() && spec_pack(#[trigger] facts@[w].0, facts@[w].1) == keys@[
                    q as int];
            lemma_pack_unpack(facts@[w].0, facts@[w].1);
        }
        let c = edge_count(facts, f, t);
        edges.push(CallEdge { from: f, to: t, call_sites: c });
        q = q + 1;
    }
    proof {
        assert forall|j: int| 0 <= j < edges@.len() - 1 implies ((#[trigger] edges@[j]).from
            < edges@[j + 1].from || (edges@[j].from == edges@[j + 1].from && edges@[j].to
            < edges@[j + 1].to)) by {
            assert(keys@[j] < keys@[j + 1]);
            lemma_pack_order(edges@[j].from, edges@[j].to, edges@[j + 1].from, edges@[j + 1].to);
        }
        assert forall|j: int|
            0 <= j < edges@.len() implies spec_edge_count(
                facts@,
                (#[trigger] edges@[j]).from,
                edges@[j].to,
            ) > 0 by {
            assert(contains64(keys@, keys@[j]));
            let w = choose|w: int|
                0 <= w < facts@.len() && #[trigger] facts@[w] == (edges@[j].from, edges@[j].to);
            lemma_edge_count_pos(facts@, edges@[j].from, edges@[j].to);
        }
        assert forall|f: u32, t: u32|
            #[trigger] spec_fact_in(facts@, f, t) <==> spec_edge_in(edges@, f, t) by {
            if exists|w: int| 0 <= w < facts@.len() && #[trigger] facts@[w] == (f, t) {
                assert(contains64(keys@, spec_pack(f, t)));
                let j = choose|j: int| 0 <= j < keys@.len() && keys@[j] == spec_pack(f, t);
                lemma_pack_injective(edges@[j].from, edges@[j].to, f, t);
                assert(edges@[j].from == f && edges@[j].to == t);
            }
            if spec_edge_in(edges@, f, t) {
                let j = choose|j: int|
                    0 <= j < edges@.len() && (#[trigger] edges@[j]).from == f && edges@[j].to
                        == t;
                assert(contains64(keys@, spec_pack(f, t)));
                assert(spec_fact_in(facts@, f, t));
            }
        }
    }
    edges
}

proof fn lemma_pack_unpack(f: u32, t: u32)
    ensures
        spec_pack(f, t) / 0x1_0000_0000 == f,
        spec_pack(f, t) % 0x1_0000_0000 == t,
{
    assert(spec_pack(f, t) / 0x1_0000_0000 == f && spec_pack(f, t) % 0x1_0000_0000 == t) by (
    nonlinear_arith)
        requires
            f < 0x1_0000_0000 && t < 0x1_0000_0000 && spec_pack(f, t) == f * 0x1_0000_0000 + t,
    ;
}

proof fn lemma_pack_injective(f1: u32, t1: u32, f2: u32, t2: u32)
    ensures
        (spec_pack(f1, t1) == spec_pack(f2, t2)) <==> (f1 == f2 && t1 == t2),
{
    lemma_pack_unpack(f1, t1);
    lemma_pack_unpack(f2, t2);
}

proof fn lemma_pack_order(f1: u32, t1: u32, f2: u32, t2: u32)
    requires
        spec_pack(f1, t1) < spec_pack(f2, t2),
    ensures
        f1 < f2 || (f1 == f2 && t1 < t2),
{
    lemma_pack_unpack(f1, t1);
    lemma_pack_unpack(f2, t2);
    if f1 > f2 {
        assert(f1 * 0x1_0000_0000 + t1 >= f2 * 0x1_0000_0000 + t2) by (nonlinear_arith)
            requires
                f1 >= f2 + 1 && t2 < 0x1_0000_0000 && t1 >= 0,
        ;
    }
}

// ----------------------------------------------------------------------------
// Entry points.

/// The sorted explicit entry points, or the documented fallback: the first
/// defined function of a module with no export and no start function.
#[verifier::rlimit(100)]
#[verifier::loop_isolation(false)]
fn build_entry_points(m: &ModuleInfo) -> (r: Vec<u32>)
    ensures
        strictly_sorted(r@),
        if spec_has_entry_target(m@) {
            forall|i: u32| #[trigger] spec_is_entry_target(m@, i) <==> seq_contains(r@, i)
        } else if m@.functions.len() > 0 {
            r@ =~= seq![m@.functions[0].index]
        } else {
            r@ =~= Seq::<u32>::empty()
        },
        forall|i: u32| #[trigger] spec_is_seed(m@, i) <==> seq_contains(r@, i),
{
    let ghost mv = m@;
    let mut eps: Vec<u32> = Vec::new();
    match m.start_function {
        Some(s) => {
            eps.push(s);
        },
        None => {},
    }
    proof {
        assert forall|i: u32|
            #[trigger] seq_contains(eps@, i) <==> mv.start_function == Some(i) by {
            if mv.start_function == Some(i) {
                assert(eps@[0] == i);
            }
        }
    }
    let mut e: usize = 0;
    while e < m.exports.len()
        invariant
            e <= m.exports.len(),
            strictly_sorted(eps@),
            forall|i: u32|
                #[trigger] seq_contains(eps@, i) <==> (mv.start_function == Some(i) || (exists|
                    w: int,
                |
                    0 <= w < e && (#[trigger] mv.exports[w]).kind == ExportKind::Function
                        && mv.exports[w].index == i)),
        decreases m.exports.len() - e,
    {
        let ghost before = eps@;
        let is_fn = m.exports[e].kind == ExportKind::Function;
        if is_fn {
            eps = sorted_insert_unique(eps, m.exports[e].index);
        }
        proof {
            assert(mv.exports[e as int].kind == m.exports@[e as int].kind);
            assert(mv.exports[e as int].index == m.exports@[e as int].index);
            assert forall|i: u32|
                #[trigger] seq_contains(eps@, i) <==> (mv.start_function == Some(i) || (exists|
                    w: int,
                |
                    0 <= w < e + 1 && (#[trigger] mv.exports[w]).kind == ExportKind::Function
                        && mv.exports[w].index == i)) by {
                if exists|w: int|
                    0 <= w < e + 1 && (#[trigger] mv.exports[w]).kind == ExportKind::Function
                        && mv.exports[w].index == i {
                    let w = choose|w: int|
                        0 <= w < e + 1 && (#[trigger] mv.exports[w]).kind == ExportKind::Function
                            && mv.exports[w].index == i;
                    if w < e {
                        assert(seq_contains(before, i));
                    }
                }
            }
        }
        e = e + 1;
    }
    proof {
        assert forall|i: u32|
            #[trigger] seq_contains(eps@, i) <==> spec_is_entry_target(mv, i) by {
            assert(spec_is_fn_export(mv.exports, i) <==> exists|w: int|
                0 <= w < mv.exports.len() && (#[trigger] mv.exports[w]).kind
                    == ExportKind::Function && mv.exports[w].index == i);
        }
    }
    if eps.len() == 0 && m.functions.len() > 0 {
        proof {
            assert forall|i: u32| !#[trigger] spec_is_entry_target(mv, i) by {
                if spec_is_entry_target(mv, i) {
                    assert(seq_contains(eps@, i));
                }
            }
        }
        eps.push(m.functions[0].index);
        proof {
            assert(eps@ =~= seq![mv.functions[0].index]);
            assert(!spec_has_entry_target(mv)) by {
                if spec_has_entry_target(mv) {
                    let i = choose|i: u32| spec_is_entry_target(mv, i);
                }
            }
            assert forall|i: u32| #[trigger] spec_is_seed(mv, i) <==> seq_contains(eps@, i) by {
                if seq_contains(eps@, i) {
                    assert(eps@[0] == i);
                }
                if spec_is_seed(mv, i) {
                    assert(i == mv.functions[0].index);
                    assert(eps@[0] == i);
                }
            }
        }
        return eps;
    }
    proof {
        if eps@.len() > 0 {
            assert(seq_contains(eps@, eps@[0]));
            assert(spec_is_entry_target(mv, eps@[0]));
            assert(spec_has_entry_target(mv));
            assert forall|i: u32| #[trigger] spec_is_seed(mv, i) <==> seq_contains(eps@, i) by {}
        } else {
            assert forall|i: u32| !#[trigger] spec_is_entry_target(mv, i) by {
                if spec_is_entry_target(mv, i) {
                    assert(seq_contains(eps@, i));
                }
            }
            assert(!spec_has_entry_target(mv)) by {
                if spec_has_entry_target(mv) {
                    let i = choose|i: u32| spec_is_entry_target(mv, i);
                }
            }
            assert forall|i: u32| #[trigger] spec_is_seed(mv, i) <==> seq_contains(eps@, i) by {}
        }
    }
    eps
}

// ----------------------------------------------------------------------------
// Reachability.

/// The reachability walk: a plain forward search over the edges from the
/// entry points, after which every import-kind node is additionally seeded
/// into the reachable set.  The result contains exactly the reachable
/// indices of the specification.
#[verifier::rlimit(100)]
#[verifier::loop_isolation(false)]
fn compute_reachable(m: &ModuleInfo, nfn: u64, edges: &Vec<CallEdge>, eps: &Vec<u32>) -> (r: Vec<
    u32,
>)
    requires
        nfn == spec_n_fn_imports(imports_view(m.imports@)),
        forall|f: u32, t: u32|
            #[trigger] spec_has_fact(m@, f, t) <==> spec_edge_in(edges@, f, t),
        forall|i: u32| #[trigger] spec_is_seed(m@, i) <==> seq_contains(eps@, i),
    ensures
        strictly_sorted(r@),
        forall|x: u32| #[trigger] seq_contains(r@, x) <==> spec_reachable(m@, x),
{
    let ghost mv = m@;
    // The forward closure of the call facts over the entry points.
    let mut closed: Vec<u32> = Vec::new();
    let mut to_visit: Vec<u32> = Vec::new();
    let mut q: usize = 0;
    while q < eps.len()
        invariant
            q <= eps.len(),
            forall|x: u32| #[trigger] seq_contains(to_visit@, x) <==> exists|w: int|
                0 <= w < q && eps@[w] == x,
        decreases eps.len() - q,
    {
        let ghost before = to_visit@;
        to_visit.push(eps[q]);
        proof {
            assert forall|x: u32|
                #[trigger] seq_contains(to_visit@, x) <==> exists|w: int|
                    0 <= w < q + 1 && eps@[w] == x by {
                if seq_contains(to_visit@, x) {
                    let w = choose|w: int| 0 <= w < to_visit@.len() && to_visit@[w] == x;
                    if w < before.len() {
                        assert(seq_contains(before, x));
                        let w2 = choose|w2: int| 0 <= w2 < q && eps@[w2] == x;
                    } else {
                        assert(eps@[q as int] == x);
                    }
                }
                if exists|w: int| 0 <= w < q + 1 && eps@[w] == x {
                    let w = choose|w: int| 0 <= w < q + 1 && eps@[w] == x;
                    if w < q {
                        assert(seq_contains(before, x));
                        let w3 = choose|w3: int| 0 <= w3 < before.len() && before[w3] == x;
                        assert(to_visit@[w3] == x);
                    } else {
                        assert(to_visit@.last() == x);
                    }
                }
            }
        }
        q = q + 1;
    }
    proof {
        assert forall|x: u32|
            #[trigger] seq_contains(to_visit@, x) implies spec_path_reaches(mv, x) by {
            let w = choose|w: int| 0 <= w < eps@.len() && eps@[w] == x;
            assert(seq_contains(eps@, x));
            assert(spec_is_seed(mv, x));
            let p = seq![x];
            assert(spec_valid_path(mv, p) && p.last() == x);
        }
        assert forall|x: u32|
            #[trigger] spec_is_seed(mv, x) implies (seq_contains(closed@, x) || seq_contains(
            to_visit@,
            x,
        )) by {
            let w = choose|w: int| 0 <= w < eps@.len() && eps@[w] == x;
        }
    }
    // The search itself.
    while to_visit.len() > 0
        invariant
            strictly_sorted(closed@),
            forall|x: u32| #[trigger] seq_contains(closed@, x) ==> spec_path_reaches(mv, x),
            forall|x: u32| #[trigger] seq_contains(to_visit@, x) ==> spec_path_reaches(mv, x),
            forall|x: u32|
                #[trigger] spec_is_seed(mv, x) ==> (seq_contains(closed@, x) || seq_contains(
                    to_visit@,
                    x,
                )),
            forall|x: u32, y: u32|
                (#[trigger] seq_contains(closed@, x) && #[trigger] spec_has_fact(mv, x, y)) ==> (
                seq_contains(closed@, y) || seq_contains(to_visit@, y)),
            forall|f: u32, t: u32|
                #[trigger] spec_has_fact(mv, f, t) <==> spec_edge_in(edges@, f, t),
        decreases (0x1_0000_0001 - closed@.len()), to_visit@.len(),
    {
        let ghost tv_before = to_visit@;
        let x = match to_visit.pop() {
            Some(v) => v,
            None => {
                proof {
                    assert(false);
                }
                0
            },
        };
        proof {
            assert(tv_before.last() == x);
            assert forall|z: u32|
                #[trigger] seq_contains(tv_before, z) implies (seq_contains(to_visit@, z) || z
                == x) by {
                let w = choose|w: int| 0 <= w < tv_before.len() && tv_before[w] == z;
                if w < tv_before.len() - 1 {
                    assert(to_visit@[w] == z);
                }
            }
            assert forall|z: u32|
                #[trigger] seq_contains(to_visit@, z) implies seq_contains(tv_before, z) by {
                let w = choose|w: int| 0 <= w < to_visit@.len() && to_visit@[w] == z;
                assert(tv_before[w] == z);
            }
        }
        if !contains_sorted(&closed, x) {
            let ghost r_before = closed@;
            proof {
                assert(seq_contains(tv_before, x)) by {
                    assert(tv_before[tv_before.len() - 1] == x);
                }
                assert(spec_path_reaches(mv, x));
            }
            closed = sorted_insert_unique(closed, x);
            proof {
                lemma_sorted_len(closed@);
            }
            // Expand along the edges out of `x`.
            let mut w: usize = 0;
            while w < edges.len()
                invariant
                    w <= edges.len(),
                    strictly_sorted(closed@),
                    closed@.len() == r_before.len() + 1,
                    forall|z: u32|
                        #[trigger] seq_contains(closed@, z) <==> (seq_contains(r_before, z) || z
                            == x),
                    forall|z: u32| #[trigger] seq_contains(closed@, z) ==> spec_path_reaches(
                        mv,
                        z,
                    ),
                    forall|z: u32| #[trigger] seq_contains(to_visit@, z) ==> spec_path_reaches(
                        mv,
                        z,
                    ),
                    forall|z: u32|
                        #[trigger] spec_is_seed(mv, z) ==> (seq_contains(closed@, z)
                            || seq_contains(to_visit@, z)),
                    forall|a: u32, b: u32|
                        (#[trigger] seq_contains(closed@, a) && a != x && #[trigger]
                        spec_has_fact(mv, a, b)) ==> (seq_contains(closed@, b) || seq_contains(
                            to_visit@,
                            b,
                        )),
                    forall|j: int|
                        0 <= j < w ==> ((#[trigger] edges@[j]).from == x ==> (seq_contains(
                            closed@,
                            edges@[j].to,
                        ) || seq_contains(to_visit@, edges@[j].to))),
                    forall|f: u32, t: u32|
                        #[trigger] spec_has_fact(mv, f, t) <==> spec_edge_in(edges@, f, t),
                decreases edges.len() - w,
            {
                if edges[w].from == x {
                    let y = edges[w].to;
                    if !contains_sorted(&closed, y) {
                        let ghost tvb = to_visit@;
                        to_visit.push(y);
                        proof {
                            // The successor of a reached node is reached:
                            // extend the witness path.
                            assert(spec_has_fact(mv, x, y));
                            assert(spec_path_reaches(mv, x));
                            let p = choose|p: Seq<u32>|
                                #[trigger] spec_valid_path(mv, p) && p.last() == x;
                            let p2 = p.push(y);
                            assert forall|z: int|
                                0 <= z < p2.len() - 1 implies spec_has_fact(
                                mv,
                                #[trigger] p2[z],
                                p2[z + 1],
                            ) by {
                                if z < p.len() - 1 {
                                    assert(p2[z] == p[z] && p2[z + 1] == p[z + 1]);
                                } else {
                                    assert(p2[z] == p.last() && p2[z + 1] == y);
                                }
                            }
                            assert(spec_valid_path(mv, p2) && p2.last() == y);
                            assert forall|z: u32|
                                #[trigger] seq_contains(to_visit@, z) implies (seq_contains(
                                tvb,
                                z,
                            ) || z == y) by {
                                let u = choose|u: int|
                                    0 <= u < to_visit@.len() && to_visit@[u] == z;
                                if u < tvb.len() {
                                    assert(tvb[u] == z);
                                }
                            }
                            assert forall|z: u32|
                                #[trigger] seq_contains(tvb, z) implies seq_contains(to_visit@, z)
                                by {
                                let u = choose|u: int| 0 <= u < tvb.len() && tvb[u] == z;
                                assert(to_visit@[u] == z);
                            }
                            assert(to_visit@.last() == y);
                            assert(seq_contains(to_visit@, y));
                        }
                    }
                }
                w = w + 1;
            }
            proof {
                // Every fact out of `x` is now covered, which restores the
                // closure invariant for the grown set.
                assert forall|a: u32, b: u32|
                    (#[trigger] seq_contains(closed@, a) && #[trigger] spec_has_fact(mv, a, b))
                        implies (seq_contains(closed@, b) || seq_contains(to_visit@, b)) by {
                    if a == x {
                        assert(spec_edge_in(edges@, a, b));
                        let j = choose|j: int|
                            0 <= j < edges@.len() && (#[trigger] edges@[j]).from == a && edges@[
                                j].to == b;
                    }
                }
            }
        }
    }
    proof {
        // Completeness: everything a path reaches was found, because the
        // closed set contains every seed and is closed under the call facts.
        assert forall|x: u32| #[trigger] spec_path_reaches(mv, x) implies seq_contains(closed@, x)
            by {
            let p = choose|p: Seq<u32>| #[trigger] spec_valid_path(mv, p) && p.last() == x;
            lemma_path_reached(mv, closed@, p);
        }
    }
    // Seed every import-kind node into the reachable set.
    let cap: u64 = if nfn > 0x1_0000_0000u64 {
        0x1_0000_0000u64
    } else {
        nfn
    };
    let mut reachable = closed;
    let ghost closed_view = reachable@;
    let mut c: u64 = 0;
    while c < cap
        invariant
            c <= cap,
            strictly_sorted(reachable@),
            forall|x: u32|
                #[trigger] seq_contains(reachable@, x) <==> (seq_contains(closed_view, x) || ((
                x as int) < c && !spec_is_defined_idx(mv.functions, x))),
        decreases cap - c,
    {
        if !is_defined_idx(&m.functions, c as u32) {
            reachable = sorted_insert_unique(reachable, c as u32);
        }
        proof {
            assert forall|x: u32|
                #[trigger] seq_contains(reachable@, x) <==> (seq_contains(closed_view, x) || ((
                x as int) < c + 1 && !spec_is_defined_idx(mv.functions, x))) by {
                if (x as int) == c && !spec_is_defined_idx(mv.functions, x) {
                    assert(x == c as u32);
                    assert(seq_contains(reachable@, x));
                }
            }
        }
        c = c + 1;
    }
    proof {
        assert forall|x: u32|
            #[trigger] seq_contains(reachable@, x) <==> spec_reachable(mv, x) by {
            assert((x as int) < cap <==> (x as int) < nfn);
            assert(seq_contains(closed_view, x) <==> spec_path_reaches(mv, x));
        }
    }
    reachable
}

/// Induction along a path: a set that contains every seed and is closed
/// under the call facts out of its members contains every path's end.
proof fn lemma_path_reached(m: ModuleInfoView, r: Seq<u32>, p: Seq<u32>)
    requires
        spec_valid_path(m, p),
        forall|x: u32| #[trigger] spec_is_seed(m, x) ==> seq_contains(r, x),
        forall|x: u32, y: u32|
            (#[trigger] seq_contains(r, x) && #[trigger] spec_has_fact(m, x, y)) ==> seq_contains(
                r,
                y,
            ),
    ensures
        seq_contains(r, p.last()),
    decreases p.len(),
{
    if p.len() == 1 {
        assert(spec_is_seed(m, p[0]));
    } else {
        let q = p.drop_last();
        assert forall|z: int|
            0 <= z < q.len() - 1 implies spec_has_fact(m, #[trigger] q[z], q[z + 1]) by {
            assert(q[z] == p[z] && q[z + 1] == p[z + 1]);
        }
        assert(q[0] == p[0]);
        assert(spec_valid_path(m, q));
        lemma_path_reached(m, r, q);
        assert(q.last() == p[p.len() - 2]);
        assert(spec_has_fact(m, p[p.len() - 2], p[p.len() - 1]));
    }
}

// ----------------------------------------------------------------------------
// The graph.

/// The sorted dead-code candidates: defined, non-imported functions absent
/// from the reachable set.
#[verifier::rlimit(100)]
#[verifier::loop_isolation(false)]
fn build_unreachable(m: &ModuleInfo, idxs: &Vec<u32>, reachable: &Vec<u32>) -> (r: Vec<u32>)
    requires
        strictly_sorted(idxs@),
        forall|i: u32| #[trigger] seq_contains(idxs@, i) <==> spec_is_node_index(m@, i),
        forall|x: u32| #[trigger] seq_contains(reachable@, x) <==> spec_reachable(m@, x),
    ensures
        strictly_sorted(r@),
        forall|i: u32|
            #[trigger] seq_contains(r@, i) <==> (spec_is_defined_idx(m@.functions, i)
                && !spec_reachable(m@, i)),
{
    let ghost mv = m@;
    let mut out: Vec<u32> = Vec::new();
    let mut j: usize = 0;
    while j < idxs.len()
        invariant
            j <= idxs.len(),
            strictly_sorted(out@),
            forall|w: int| 0 <= w < out@.len() ==> exists|t: int|
                0 <= t < j && idxs@[t] == #[trigger] out@[w],
            forall|i: u32|
                #[trigger] seq_contains(out@, i) <==> ((exists|t: int|
                    0 <= t < j && #[trigger] idxs@[t] == i) && spec_is_defined_idx(mv.functions, i)
                    && !spec_reachable(mv, i)),
        decreases idxs.len() - j,
    {
        let ghost before = out@;
        let i = idxs[j];
        if is_defined_idx(&m.functions, i) && !contains_sorted(reachable, i) {
            proof {
                if before.len() > 0 {
                    let t0 = choose|t0: int|
                        0 <= t0 < j && idxs@[t0] == before[before.len() - 1];
                    lemma_sorted_mono(idxs@, t0, j as int);
                }
            }
            out.push(i);
            proof {
                assert forall|a: int|
                    0 <= a < out@.len() - 1 implies #[trigger] out@[a] < out@[a + 1] by {
                    if a + 1 < out@.len() - 1 {
                        assert(out@[a] == before[a] && out@[a + 1] == before[a + 1]);
                    } else {
                        assert(seq_contains(before, out@[a]) || out@.len() == 1);
                    }
                }
            }
        }
        proof {
            assert(idxs@[j as int] == i);
            assert forall|i2: u32|
                #[trigger] seq_contains(out@, i2) <==> ((exists|t: int|
                    0 <= t < j + 1 && #[trigger] idxs@[t] == i2) && spec_is_defined_idx(
                    mv.functions,
                    i2,
                ) && !spec_reachable(mv, i2)) by {
                if seq_contains(before, i2) {
                    let w = choose|w: int| 0 <= w < before.len() && before[w] == i2;
                    assert(out@[w] == i2);
                    let t = choose|t: int| 0 <= t < j && idxs@[t] == i2;
                }
                if seq_contains(out@, i2) && !seq_contains(before, i2) {
                    let w = choose|w: int| 0 <= w < out@.len() && out@[w] == i2;
                    assert(i2 == i);
                }
                if (exists|t: int| 0 <= t < j + 1 && #[trigger] idxs@[t] == i2)
                    && spec_is_defined_idx(mv.functions, i2) && !spec_reachable(mv, i2) {
                    let t = choose|t: int| 0 <= t < j + 1 && #[trigger] idxs@[t] == i2;
                    if t < j {
                        assert(seq_contains(before, i2));
                    } else {
                        assert(i2 == i);
                        assert(seq_contains(out@, i2)) by {
                            assert(out@.last() == i);
                        }
                    }
                }
            }
        }
        j = j + 1;
    }
    proof {
        assert forall|i: u32|
            #[trigger] seq_contains(out@, i) <==> (spec_is_defined_idx(mv.functions, i)
                && !spec_reachable(mv, i)) by {
            if spec_is_defined_idx(mv.functions, i) {
                assert(spec_is_node_index(mv, i));
                assert(seq_contains(idxs@, i));
            }
            if exists|t: int| 0 <= t < idxs@.len() && #[trigger] idxs@[t] == i {
                assert(seq_contains(idxs@, i));
            }
        }
    }
    out
}

/// Derives the call graph of a decoded module.  Total: every representation
/// yields a graph, and the whole result is pinned by [`spec_graph_ok`].
#[verifier::rlimit(100)]
#[verifier::loop_isolation(false)]
pub fn build_call_graph(module: &ModuleInfo) -> (g: CallGraph)
    ensures
        spec_graph_ok(module@, g@),
{
    let ghost mv = module@;
    let nfn = n_fn_imports_of(&module.imports);
    let idxs = build_node_indices(module, nfn);
    let mut nodes: Vec<CallNode> = Vec::new();
    let mut j: usize = 0;
    while j < idxs.len()
        invariant
            j <= idxs.len(),
            nfn == spec_n_fn_imports(imports_view(module.imports@)),
            nodes@.len() == j,
            forall|w: int| 0 <= w < j ==> (#[trigger] nodes@[w])@ == spec_node(mv, idxs@[w]),
        decreases idxs.len() - j,
    {
        let n = node_of(module, nfn, idxs[j]);
        nodes.push(n);
        j = j + 1;
    }
    let edges = build_edges(&module.function_call_instructions);
    let eps = build_entry_points(module);
    let reachable = compute_reachable(module, nfn, &edges, &eps);
    let unreachable_functions = build_unreachable(module, &idxs, &reachable);
    let g = CallGraph { nodes, edges, entry_points: eps, unreachable_functions };
    proof {
        let nv = crate::types::nodes_view(g.nodes@);
        assert forall|w: int|
            0 <= w < nv.len() implies #[trigger] nv[w] == spec_node(mv, nv[w].function_index)
            by {
            assert(nv[w] == g.nodes@[w]@);
        }
        assert(nv.map_values(|n: CallNodeView| n.function_index) =~= idxs@);
        assert forall|i: u32|
            #[trigger] spec_is_node_index(mv, i) <==> seq_contains(
                nv.map_values(|n: CallNodeView| n.function_index),
                i,
            ) by {
            assert(nv.map_values(|n: CallNodeView| n.function_index) == idxs@);
        }
    }
    g
}

/// Builds the call graph of one module representation.
pub struct CallGraphBuilder<'a> {
    pub module_info: &'a ModuleInfo,
}

impl<'a> CallGraphBuilder<'a> {
    pub fn new(module_info: &'a ModuleInfo) -> (r: CallGraphBuilder<'a>)
        ensures
            r.module_info == module_info,
    {
        CallGraphBuilder { module_info }
    }

    /// Exactly [`build_call_graph`] of the module.  Building never fails.
    pub fn build(&mut self) -> (g: CallGraph)
        ensures
            spec_graph_ok(old(self).module_info@, g@),
            *final(self) == *old(self),
    {
        build_call_graph(self.module_info)
    }
}

// ----------------------------------------------------------------------------
// Laws of the graph.

/// Entry-point fallback: a module with no function-kind export and no start
/// function, but at least one defined function, gets exactly its first
/// defined function as entry point.
pub proof fn lemma_entry_point_fallback(m: ModuleInfoView, g: crate::types::CallGraphView)
    requires
        spec_graph_ok(m, g),
        m.start_function is None,
        forall|j: int|
            0 <= j < m.exports.len() ==> (#[trigger] m.exports[j]).kind != ExportKind::Function,
        m.functions.len() >= 1,
    ensures
        g.entry_points =~= seq![m.functions[0].index],
{
    assert(!spec_has_entry_target(m)) by {
        if spec_has_entry_target(m) {
            let i = choose|i: u32| spec_is_entry_target(m, i);
            if spec_is_fn_export(m.exports, i) {
                let j = choose|j: int|
                    0 <= j < m.exports.len() && (#[trigger] m.exports[j]).kind
                        == ExportKind::Function && m.exports[j].index == i;
            }
        }
    }
}

/// Dead code: a module that defines exactly two functions, exports only the
/// first, has no start function, and whose call facts never name the second
/// function as a callee, reports exactly the second function as
/// unreachable.
pub proof fn lemma_dead_code(m: ModuleInfoView, g: crate::types::CallGraphView)
    requires
        spec_graph_ok(m, g),
        m.functions.len() == 2,
        m.imports.len() == 0,
        m.start_function is None,
        m.functions[0].index != m.functions[1].index,
        // Some export targets the first function, and every function-kind
        // export does.
        spec_is_fn_export(m.exports, m.functions[0].index),
        forall|j: int|
            0 <= j < m.exports.len() && (#[trigger] m.exports[j]).kind == ExportKind::Function
                ==> m.exports[j].index == m.functions[0].index,
        // No call fact names the second function as its callee.
        forall|j: int|
            0 <= j < m.function_call_instructions.len() ==> (
            #[trigger] m.function_call_instructions[j]).1 != m.functions[1].index,
    ensures
        g.unreachable_functions =~= seq![m.functions[1].index],
{
    let a = m.functions[0].index;
    let b = m.functions[1].index;
    assert(spec_n_fn_imports(m.imports) == 0);
    // The first function is reachable: it is itself a seed.
    assert(spec_is_entry_target(m, a));
    assert(spec_reachable(m, a)) by {
        let p = seq![a];
        assert(spec_valid_path(m, p) && p.last() == a);
    }
    // The second is not: it is no seed and no fact reaches it.
    assert(!spec_reachable(m, b)) by {
        assert(!spec_is_import_node(m, b));
        if spec_path_reaches(m, b) {
            let p = choose|p: Seq<u32>| #[trigger] spec_valid_path(m, p) && p.last() == b;
            if p.len() == 1 {
                assert(spec_is_seed(m, b));
                assert(spec_has_entry_target(m));
                if spec_is_fn_export(m.exports, b) {
                    let j = choose|j: int|
                        0 <= j < m.exports.len() && (#[trigger] m.exports[j]).kind
                            == ExportKind::Function && m.exports[j].index == b;
                }
                assert(false);
            } else {
                assert(spec_has_fact(m, p[p.len() - 2], p[p.len() - 1]));
                let j = choose|j: int|
                    0 <= j < m.function_call_instructions.len()
                        && #[trigger] m.function_call_instructions[j] == (
                    p[p.len() - 2],
                    p[p.len() - 1],
                );
                assert(m.function_call_instructions[j].1 == b);
                assert(false);
            }
        }
    }
    // Membership pins the list to exactly the second function.
    assert(seq_contains(g.unreachable_functions, b)) by {
        assert(spec_is_defined_idx(m.functions, b)) by {
            assert(m.functions[1].index == b);
        }
    }
    assert forall|w: int| 0 <= w < g.unreachable_functions.len() implies #[trigger]
    g.unreachable_functions[w] == b by {
        let i = g.unreachable_functions[w];
        assert(seq_contains(g.unreachable_functions, i));
        assert(spec_is_defined_idx(m.functions, i) && !spec_reachable(m, i));
        if i != b {
            assert(i == a) by {
                let j = choose|j: int|
                    0 <= j < m.functions.len() && (#[trigger] m.functions[j]).index == i;
            }
            assert(false);
        }
    }
    assert(g.unreachable_functions.len() == 1) by {
        if g.unreachable_functions.len() >= 2 {
            assert(g.unreachable_functions[0] == b && g.unreachable_functions[1] == b);
            assert(strictly_sorted(g.unreachable_functions));
            assert(g.unreachable_functions[0] < g.unreachable_functions[1]);
        }
        let w = choose|w: int|
            0 <= w < g.unreachable_functions.len() && g.unreachable_functions[w] == b;
    }
    assert(g.unreachable_functions[0] == b);
}

} // verus!

