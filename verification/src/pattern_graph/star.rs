//! Star decomposition: the sub-pattern of arcs and edges incident to a
//! chosen root vertex, extracted once per root under one of two
//! policies.

use crate::pattern_graph::ast::Ast;
use crate::pattern_graph::ast::AstView;
use crate::pattern_graph::ast::gisp_text;
use crate::types::ELabel;
use crate::types::VId;
use crate::types::VLabel;
use vstd::prelude::*;

verus! {

/// Whether an arc/edge touches the root.
pub open spec fn incident(e: (VId, VId, ELabel), root: VId) -> bool {
    e.0 == root || e.1 == root
}

/// The arc/edge predicate "incident to `root`", as one function value
/// shared by the specifications and the proofs.
pub open spec fn incident_pred(root: VId) -> spec_fn((VId, VId, ELabel)) -> bool {
    |e: (VId, VId, ELabel)| incident(e, root)
}

/// The arc/edge predicate "not incident to `root`".
pub open spec fn not_incident_pred(root: VId) -> spec_fn((VId, VId, ELabel)) -> bool {
    |e: (VId, VId, ELabel)| !incident(e, root)
}

/// Whether some arc or edge incident to `root` has `vid` as an
/// endpoint; such vertices are the ones a star keeps.
pub open spec fn touches(a: AstView, root: VId, vid: VId) -> bool {
    (exists|k: int|
        0 <= k < a.arcs.len() && incident(#[trigger] a.arcs[k], root) && (a.arcs[k].0 == vid
            || a.arcs[k].1 == vid)) || (exists|k: int|
        0 <= k < a.edges.len() && incident(#[trigger] a.edges[k], root) && (a.edges[k].0 == vid
            || a.edges[k].1 == vid))
}

/// The vertex predicate "touched by an arc/edge incident to `root`".
pub open spec fn touch_pred(a: AstView, root: VId) -> spec_fn((VId, VLabel)) -> bool {
    |v: (VId, VLabel)| touches(a, root, v.0)
}

/// The star of `root`: exactly the incident arcs and edges, and the
/// subsequence of the vertex table touched by them, all in stored
/// order; the constraint is carried over unchanged. A root without
/// incident arcs or edges yields an empty star.
pub open spec fn star_view(a: AstView, root: VId) -> AstView {
    AstView {
        vertices: a.vertices.filter(touch_pred(a, root)),
        arcs: a.arcs.filter(incident_pred(root)),
        edges: a.edges.filter(incident_pred(root)),
        constraint: a.constraint,
    }
}

/// The working pattern after `root`'s star is consumed: every arc and
/// edge incident to `root` is removed; the vertex table stays whole.
pub open spec fn remove_star_view(a: AstView, root: VId) -> AstView {
    AstView {
        vertices: a.vertices,
        arcs: a.arcs.filter(not_incident_pred(root)),
        edges: a.edges.filter(not_incident_pred(root)),
        constraint: a.constraint,
    }
}

/// Filtering after a push keeps the pushed element exactly when the
/// predicate holds of it.
proof fn lemma_filter_push<A>(s: Seq<A>, x: A, pred: spec_fn(A) -> bool)
    ensures
        (s.push(x)).filter(pred) == if pred(x) {
            s.filter(pred).push(x)
        } else {
            s.filter(pred)
        },
{
    reveal(Seq::filter);
    assert(s.push(x).drop_last() =~= s);
    assert(s.push(x).last() == x);
}

/// Everything a filter keeps comes from the filtered sequence and
/// satisfies the predicate.
proof fn lemma_filter_subset<A>(s: Seq<A>, pred: spec_fn(A) -> bool, x: A)
    requires
        s.filter(pred).contains(x),
    ensures
        s.contains(x),
        pred(x),
    decreases s.len(),
{
    reveal(Seq::filter);
    if s.len() == 0 {
    } else {
        let sub = s.drop_last().filter(pred);
        if pred(s.last()) && x == s.last() {
            assert(s[s.len() - 1] == x);
        } else {
            if pred(s.last()) {
                assert(s.filter(pred) == sub.push(s.last()));
                let i = choose|i: int|
                    0 <= i < sub.push(s.last()).len() && sub.push(s.last())[i] == x;
                assert(i < sub.len());
                assert(sub[i] == x);
            } else {
                assert(s.filter(pred) == sub);
            }
            lemma_filter_subset(s.drop_last(), pred, x);
            let j = choose|j: int| 0 <= j < s.drop_last().len() && s.drop_last()[j] == x;
            assert(s[j] == x);
        }
    }
}

/// Keeps the arcs/edges of `es` that are (or are not) incident to the
/// root, in stored order.
#[verifier::loop_isolation(false)]
fn filter_incident(es: &Vec<(VId, VId, ELabel)>, root: VId, keep_incident: bool) -> (r: Vec<
    (VId, VId, ELabel),
>)
    ensures
        keep_incident ==> r@ == es@.filter(incident_pred(root)),
        !keep_incident ==> r@ == es@.filter(not_incident_pred(root)),
{
    let ghost pred = if keep_incident {
        incident_pred(root)
    } else {
        not_incident_pred(root)
    };
    let mut out: Vec<(VId, VId, ELabel)> = Vec::new();
    let mut i: usize = 0;
    proof {
        reveal(Seq::filter);
        assert(es@.take(0).filter(pred) =~= Seq::<(VId, VId, ELabel)>::empty());
    }
    while i < es.len()
        invariant
            i <= es@.len(),
            out@ == es@.take(i as int).filter(pred),
        decreases es@.len() - i,
    {
        proof {
            assert(es@.take(i as int + 1) =~= es@.take(i as int).push(es@[i as int]));
            lemma_filter_push(es@.take(i as int), es@[i as int], pred);
        }
        let (src, dst, _) = es[i];
        let inc = src == root || dst == root;
        let keep = if keep_incident {
            inc
        } else {
            !inc
        };
        if keep {
            out.push(es[i]);
        }
        i = i + 1;
    }
    proof {
        assert(es@.take(es@.len() as int) =~= es@);
    }
    out
}

/// Whether some arc or edge incident to `root` has `vid` as an
/// endpoint.
#[verifier::loop_isolation(false)]
fn is_touched(ast: &Ast, root: VId, vid: VId) -> (r: bool)
    ensures
        r == touches(ast@, root, vid),
{
    let mut i: usize = 0;
    while i < ast.arcs.len()
        invariant
            i <= ast@.arcs.len(),
            forall|k: int|
                0 <= k < i ==> !(incident(#[trigger] ast@.arcs[k], root) && (ast@.arcs[k].0 == vid
                    || ast@.arcs[k].1 == vid)),
        decreases ast@.arcs.len() - i,
    {
        let (src, dst, _) = ast.arcs[i];
        if (src == root || dst == root) && (src == vid || dst == vid) {
            return true;
        }
        i = i + 1;
    }
    let mut i: usize = 0;
    while i < ast.edges.len()
        invariant
            i <= ast@.edges.len(),
            forall|k: int|
                0 <= k < ast@.arcs.len() ==> !(incident(#[trigger] ast@.arcs[k], root) && (
                ast@.arcs[k].0 == vid || ast@.arcs[k].1 == vid)),
            forall|k: int|
                0 <= k < i ==> !(incident(#[trigger] ast@.edges[k], root) && (ast@.edges[k].0 == vid
                    || ast@.edges[k].1 == vid)),
        decreases ast@.edges.len() - i,
    {
        let (src, dst, _) = ast.edges[i];
        if (src == root || dst == root) && (src == vid || dst == vid) {
            return true;
        }
        i = i + 1;
    }
    false
}

/// Builds the star of `root` over the given pattern.
#[verifier::loop_isolation(false)]
pub fn star_ast(ast: &Ast, root: VId) -> (r: Ast)
    ensures
        r@ == star_view(ast@, root),
{
    let arcs = filter_incident(&ast.arcs, root, true);
    let edges = filter_incident(&ast.edges, root, true);
    let ghost pred = touch_pred(ast@, root);
    let mut vertices: Vec<(VId, VLabel)> = Vec::new();
    let mut i: usize = 0;
    proof {
        reveal(Seq::filter);
        assert(ast@.vertices.take(0).filter(pred) =~= Seq::<(VId, VLabel)>::empty());
    }
    while i < ast.vertices.len()
        invariant
            i <= ast@.vertices.len(),
            vertices@ == ast@.vertices.take(i as int).filter(pred),
        decreases ast@.vertices.len() - i,
    {
        proof {
            assert(ast@.vertices.take(i as int + 1) =~= ast@.vertices.take(i as int).push(
                ast@.vertices[i as int],
            ));
            lemma_filter_push(ast@.vertices.take(i as int), ast@.vertices[i as int], pred);
        }
        let (vid, _) = ast.vertices[i];
        if is_touched(ast, root, vid) {
            vertices.push(ast.vertices[i]);
        }
        i = i + 1;
    }
    proof {
        assert(ast@.vertices.take(ast@.vertices.len() as int) =~= ast@.vertices);
    }
    let constraint = match ast.constraint() {
        Some(e) => Some(*e),
        None => None,
    };
    Ast::new(vertices, arcs, edges, constraint)
}

/// Renders the star of `root` back to gisp syntax.
pub fn gisp_to_star(ast: &Ast, root: VId) -> (r: String)
    ensures
        r@ == gisp_text(star_view(ast@, root)),
{
    let star = star_ast(ast, root);
    star.to_text()
}

/// Builds the working pattern left after consuming `root`'s star.
pub fn remove_star(ast: &Ast, root: VId) -> (r: Ast)
    ensures
        r@ == remove_star_view(ast@, root),
{
    let arcs = filter_incident(&ast.arcs, root, false);
    let edges = filter_incident(&ast.edges, root, false);
    let vertices = copy_vertices(&ast.vertices);
    let constraint = match ast.constraint() {
        Some(e) => Some(*e),
        None => None,
    };
    Ast::new(vertices, arcs, edges, constraint)
}

/// A copy of a vertex table.
#[verifier::loop_isolation(false)]
fn copy_vertices(vs: &Vec<(VId, VLabel)>) -> (r: Vec<(VId, VLabel)>)
    ensures
        r@ == vs@,
{
    let mut out: Vec<(VId, VLabel)> = Vec::new();
    let mut i: usize = 0;
    while i < vs.len()
        invariant
            i <= vs@.len(),
            out@ =~= vs@.take(i as int),
        decreases vs@.len() - i,
    {
        proof {
            assert(vs@.take(i as int + 1) =~= vs@.take(i as int).push(vs@[i as int]));
        }
        out.push(vs[i]);
        i = i + 1;
    }
    proof {
        assert(vs@.take(vs@.len() as int) =~= vs@);
    }
    out
}

/// How successive roots see the working pattern.
#[derive(Debug, Clone, Copy, PartialEq, Eq, Structural)]
pub enum StarPolicy {
    /// Every root's star is taken from the original, complete pattern;
    /// stars of different roots may share arcs and edges.
    Full,
    /// After each root its incident arcs and edges leave the working
    /// pattern, so an arc between two roots belongs to whichever root
    /// comes first in the supplied order.
    Consuming,
}

/// One gisp document per root, in the supplied order, each the star of
/// its root over the working pattern of that step.
pub open spec fn star_documents_view(a: AstView, roots: Seq<VId>, policy: StarPolicy) -> Seq<
    Seq<char>,
>
    decreases roots.len(),
{
    if roots.len() == 0 {
        Seq::empty()
    } else {
        let doc = gisp_text(star_view(a, roots[0]));
        let next = if policy is Consuming {
            remove_star_view(a, roots[0])
        } else {
            a
        };
        seq![doc] + star_documents_view(next, roots.skip(1), policy)
    }
}

/// There is one star document per root.
pub proof fn lemma_star_documents_len(a: AstView, roots: Seq<VId>, policy: StarPolicy)
    ensures
        star_documents_view(a, roots, policy).len() == roots.len(),
    decreases roots.len(),
{
    if roots.len() > 0 {
        let next = if policy is Consuming {
            remove_star_view(a, roots[0])
        } else {
            a
        };
        lemma_star_documents_len(next, roots.skip(1), policy);
    }
}

/// Decomposes a pattern into one star document per root, processing the
/// roots exactly in the supplied order, without deduplication.
#[verifier::loop_isolation(false)]
#[verifier::rlimit(60)]
pub fn star_documents(ast: &Ast, roots: &Vec<VId>, policy: StarPolicy) -> (r: Vec<String>)
    ensures
        r@.len() == roots@.len(),
        forall|i: int|
            0 <= i < roots@.len() ==> r@[i]@ == star_documents_view(ast@, roots@, policy)[i],
{
    let ghost full = star_documents_view(ast@, roots@, policy);
    proof {
        lemma_star_documents_len(ast@, roots@, policy);
    }
    let mut work = copy_ast(ast);
    let mut out: Vec<String> = Vec::new();
    let mut i: usize = 0;
    proof {
        assert(roots@.skip(0) =~= roots@);
        assert(full.skip(0) =~= full);
    }
    while i < roots.len()
        invariant
            i <= roots@.len(),
            out@.len() == i,
            forall|j: int| 0 <= j < i ==> out@[j]@ == full[j],
            star_documents_view(work@, roots@.skip(i as int), policy) == full.skip(i as int),
        decreases roots@.len() - i,
    {
        let ghost rem = roots@.skip(i as int);
        proof {
            assert(rem[0] == roots@[i as int]);
            assert(rem.skip(1) =~= roots@.skip(i as int + 1));
        }
        let root = roots[i];
        let ghost before = work@;
        let doc = gisp_to_star(&work, root);
        if policy == StarPolicy::Consuming {
            work = remove_star(&work, root);
        }
        proof {
            let next = if policy is Consuming {
                remove_star_view(before, root)
            } else {
                before
            };
            assert(star_documents_view(before, rem, policy) == seq![
                gisp_text(star_view(before, root)),
            ] + star_documents_view(next, rem.skip(1), policy));
            assert(full.skip(i as int)[0] == full[i as int]);
            assert(doc@ == full[i as int]);
            assert(star_documents_view(work@, roots@.skip(i as int + 1), policy) =~= full.skip(
                i as int,
            ).skip(1));
            assert(full.skip(i as int).skip(1) =~= full.skip(i as int + 1));
        }
        out.push(doc);
        i = i + 1;
    }
    out
}

/// A copy of a whole pattern.
fn copy_ast(ast: &Ast) -> (r: Ast)
    ensures
        r@ == ast@,
{
    let vertices = copy_vertices(&ast.vertices);
    let arcs = filter_incident_all(&ast.arcs);
    let edges = filter_incident_all(&ast.edges);
    let constraint = match ast.constraint() {
        Some(e) => Some(*e),
        None => None,
    };
    Ast::new(vertices, arcs, edges, constraint)
}

/// A copy of an arc/edge table.
#[verifier::loop_isolation(false)]
fn filter_incident_all(es: &Vec<(VId, VId, ELabel)>) -> (r: Vec<(VId, VId, ELabel)>)
    ensures
        r@ == es@,
{
    let mut out: Vec<(VId, VId, ELabel)> = Vec::new();
    let mut i: usize = 0;
    while i < es.len()
        invariant
            i <= es@.len(),
            out@ =~= es@.take(i as int),
        decreases es@.len() - i,
    {
        proof {
            assert(es@.take(i as int + 1) =~= es@.take(i as int).push(es@[i as int]));
        }
        out.push(es[i]);
        i = i + 1;
    }
    proof {
        assert(es@.take(es@.len() as int) =~= es@);
    }
    out
}

/// Star completeness: the star of any root holds every arc and every
/// edge of the pattern incident to that root, and each vertex the star
/// keeps is the root itself or is joined to the root by an arc or edge
/// of the star.
pub proof fn lemma_star_complete(a: AstView, root: VId)
    ensures
        forall|e: (VId, VId, ELabel)|
            a.arcs.contains(e) && incident(e, root) ==> #[trigger] star_view(
                a,
                root,
            ).arcs.contains(e),
        forall|e: (VId, VId, ELabel)|
            a.edges.contains(e) && incident(e, root) ==> #[trigger] star_view(
                a,
                root,
            ).edges.contains(e),
        forall|v: (VId, VLabel)| #[trigger]
            star_view(a, root).vertices.contains(v) ==> v.0 == root || (exists|
                e: (VId, VId, ELabel),
            |
                (star_view(a, root).arcs.contains(e) || star_view(a, root).edges.contains(e)) && ((
                e.0 == v.0 && e.1 == root) || (e.0 == root && e.1 == v.0))),
{
    assert forall|e: (VId, VId, ELabel)|
        a.arcs.contains(e) && incident(e, root) implies #[trigger] star_view(
        a,
        root,
    ).arcs.contains(e) by {
        let j = choose|j: int| 0 <= j < a.arcs.len() && a.arcs[j] == e;
        a.arcs.lemma_filter_contains(incident_pred(root), j);
    }
    assert forall|e: (VId, VId, ELabel)|
        a.edges.contains(e) && incident(e, root) implies #[trigger] star_view(
        a,
        root,
    ).edges.contains(e) by {
        let j = choose|j: int| 0 <= j < a.edges.len() && a.edges[j] == e;
        a.edges.lemma_filter_contains(incident_pred(root), j);
    }
    assert forall|v: (VId, VLabel)| #[trigger]
        star_view(a, root).vertices.contains(v) implies v.0 == root || (exists|
        e: (VId, VId, ELabel),
    |
        (star_view(a, root).arcs.contains(e) || star_view(a, root).edges.contains(e)) && ((e.0
            == v.0 && e.1 == root) || (e.0 == root && e.1 == v.0))) by {
        lemma_filter_subset(a.vertices, touch_pred(a, root), v);
        assert(touches(a, root, v.0));
        if v.0 != root {
            if exists|k: int|
                0 <= k < a.arcs.len() && incident(#[trigger] a.arcs[k], root) && (a.arcs[k].0
                    == v.0 || a.arcs[k].1 == v.0) {
                let k = choose|k: int|
                    0 <= k < a.arcs.len() && incident(#[trigger] a.arcs[k], root) && (a.arcs[k].0
                        == v.0 || a.arcs[k].1 == v.0);
                let e = a.arcs[k];
                a.arcs.lemma_filter_contains(incident_pred(root), k);
                assert(star_view(a, root).arcs.contains(e));
                assert((e.0 == v.0 && e.1 == root) || (e.0 == root && e.1 == v.0));
            } else {
                let k = choose|k: int|
                    0 <= k < a.edges.len() && incident(#[trigger] a.edges[k], root) && (a.edges[k].0
                        == v.0 || a.edges[k].1 == v.0);
                let e = a.edges[k];
                a.edges.lemma_filter_contains(incident_pred(root), k);
                assert(star_view(a, root).edges.contains(e));
                assert((e.0 == v.0 && e.1 == root) || (e.0 == root && e.1 == v.0));
            }
        }
    }
}

/// Star consumption: an arc or edge joining two roots appears in the
/// first root's star, and no longer in any star taken after the first
/// root's star is consumed.
pub proof fn lemma_star_consuming(a: AstView, r1: VId, r2: VId, e: (VId, VId, ELabel))
    requires
        incident(e, r1),
    ensures
        a.arcs.contains(e) ==> star_view(a, r1).arcs.contains(e),
        a.edges.contains(e) ==> star_view(a, r1).edges.contains(e),
        !star_view(remove_star_view(a, r1), r2).arcs.contains(e),
        !star_view(remove_star_view(a, r1), r2).edges.contains(e),
{
    if a.arcs.contains(e) {
        let j = choose|j: int| 0 <= j < a.arcs.len() && a.arcs[j] == e;
        a.arcs.lemma_filter_contains(incident_pred(r1), j);
    }
    if a.edges.contains(e) {
        let j = choose|j: int| 0 <= j < a.edges.len() && a.edges[j] == e;
        a.edges.lemma_filter_contains(incident_pred(r1), j);
    }
    if star_view(remove_star_view(a, r1), r2).arcs.contains(e) {
        lemma_filter_subset(remove_star_view(a, r1).arcs, incident_pred(r2), e);
        lemma_filter_subset(a.arcs, not_incident_pred(r1), e);
    }
    if star_view(remove_star_view(a, r1), r2).edges.contains(e) {
        lemma_filter_subset(remove_star_view(a, r1).edges, incident_pred(r2), e);
        lemma_filter_subset(a.edges, not_incident_pred(r1), e);
    }
}

} // verus!
