//! The relabeling transform: a copy of a pattern whose labels are drawn
//! afresh from a pseudo-random stream seeded with the fixed [`crate::SEED`],
//! so that the same pattern and bounds always yield the same output.

use crate::SEED;
use crate::pattern_graph::ast::Ast;
use crate::pattern_graph::ast::AstView;
use crate::pattern_graph::ast::GispError;
use crate::pattern_graph::ast::gisp_text;
use crate::types::ELabel;
use crate::types::VId;
use crate::types::VLabel;
use vstd::prelude::*;

verus! {

#[verifier::external_type_specification]
#[verifier::external_body]
pub struct ExChaCha20Rng(rand_chacha::ChaCha20Rng);

/// The abstract state of a ChaCha generator.
pub uninterp spec fn rng_state(rng: rand_chacha::ChaCha20Rng) -> Seq<u8>;

/// The state a freshly seeded ChaCha generator starts in.
pub uninterp spec fn seeded_state(seed: u64) -> Seq<u8>;

/// The value a uniform draw from `[0, bound)` yields at a given state.
pub uninterp spec fn draw_result(st: Seq<u8>, bound: i16) -> i16;

/// The generator state after such a draw.
pub uninterp spec fn draw_next(st: Seq<u8>, bound: i16) -> Seq<u8>;

/// Relies on `rand_chacha::ChaCha20Rng::seed_from_u64`: the generator
/// state is a function of the seed alone; the ChaCha generators are
/// documented as portable and reproducible.
#[verifier::external_body]
fn rng_from_seed(seed: u64) -> (r: rand_chacha::ChaCha20Rng)
    ensures
        rng_state(r) == seeded_state(seed),
{
    <rand_chacha::ChaCha20Rng as rand::SeedableRng>::seed_from_u64(seed)
}

/// Relies on `rand::Rng::gen_range` over the non-empty range
/// `0..bound`: it returns a value of that range, determined by the
/// generator state and the bound alone, and leaves the generator in a
/// state determined the same way.
#[verifier::external_body]
fn gen_label(rng: &mut rand_chacha::ChaCha20Rng, bound: i16) -> (r: i16)
    requires
        bound > 0,
    ensures
        0 <= r < bound,
        r == draw_result(rng_state(*old(rng)), bound),
        rng_state(*final(rng)) == draw_next(rng_state(*old(rng)), bound),
{
    rand::Rng::gen_range(rng, 0..bound)
}

/// The vertex table after relabeling from state `st`: one draw below
/// `nv` per vertex, in stored order, identifiers kept; paired with the
/// state the stream is left in.
pub open spec fn relabel_vertices(vs: Seq<(VId, VLabel)>, st: Seq<u8>, nv: VLabel) -> (
    Seq<(VId, VLabel)>,
    Seq<u8>,
)
    decreases vs.len(),
{
    if vs.len() == 0 {
        (Seq::empty(), st)
    } else {
        let rest = relabel_vertices(vs.skip(1), draw_next(st, nv), nv);
        (seq![(vs[0].0, draw_result(st, nv))] + rest.0, rest.1)
    }
}

/// An arc/edge sequence after relabeling from state `st`: one draw
/// below `ne` per element, in stored order, endpoints kept; paired with
/// the state the stream is left in.
pub open spec fn relabel_arcs(es: Seq<(VId, VId, ELabel)>, st: Seq<u8>, ne: ELabel) -> (
    Seq<(VId, VId, ELabel)>,
    Seq<u8>,
)
    decreases es.len(),
{
    if es.len() == 0 {
        (Seq::empty(), st)
    } else {
        let rest = relabel_arcs(es.skip(1), draw_next(st, ne), ne);
        (seq![(es[0].0, es[0].1, draw_result(st, ne))] + rest.0, rest.1)
    }
}

/// The whole relabeled pattern: the stream is seeded with [`SEED`] and
/// consumed in the fixed order vertices, arcs, edges; the constraint is
/// carried over unchanged.
pub open spec fn relabel_view(a: AstView, nv: VLabel, ne: ELabel) -> AstView {
    let v = relabel_vertices(a.vertices, seeded_state(SEED), nv);
    let ar = relabel_arcs(a.arcs, v.1, ne);
    let ed = relabel_arcs(a.edges, ar.1, ne);
    AstView { vertices: v.0, arcs: ar.0, edges: ed.0, constraint: a.constraint }
}

/// Draws a fresh label for every vertex of `vs`, in order.
#[verifier::loop_isolation(false)]
fn relabel_vertex_seq(vs: &Vec<(VId, VLabel)>, rng: &mut rand_chacha::ChaCha20Rng, nv: VLabel) -> (r:
    Vec<(VId, VLabel)>)
    requires
        1 <= nv,
    ensures
        ({
            let full = relabel_vertices(vs@, rng_state(*old(rng)), nv);
            &&& r@ == full.0
            &&& rng_state(*final(rng)) == full.1
        }),
        r@.len() == vs@.len(),
        forall|j: int| 0 <= j < vs@.len() ==> r@[j].0 == vs@[j].0 && 0 <= r@[j].1 < nv,
{
    let ghost full = relabel_vertices(vs@, rng_state(*rng), nv);
    let mut out: Vec<(VId, VLabel)> = Vec::new();
    let mut i: usize = 0;
    proof {
        assert(vs@.skip(0) =~= vs@);
    }
    while i < vs.len()
        invariant
            i <= vs@.len(),
            out@.len() == i,
            ({
                let rem = relabel_vertices(vs@.skip(i as int), rng_state(*rng), nv);
                full.0 == out@ + rem.0 && full.1 == rem.1
            }),
            forall|j: int| 0 <= j < i ==> out@[j].0 == vs@[j].0 && 0 <= out@[j].1 < nv,
        decreases vs@.len() - i,
    {
        let ghost st = rng_state(*rng);
        let ghost rem = relabel_vertices(vs@.skip(i as int), st, nv);
        proof {
            assert(vs@.skip(i as int)[0] == vs@[i as int]);
            assert(vs@.skip(i as int).skip(1) =~= vs@.skip(i as int + 1));
        }
        let (vid, _) = vs[i];
        let l = gen_label(rng, nv);
        proof {
            let rest = relabel_vertices(vs@.skip(i as int + 1), rng_state(*rng), nv);
            assert(rem.0 == seq![(vid, l)] + rest.0 && rem.1 == rest.1);
            assert(out@ + rem.0 =~= out@.push((vid, l)) + rest.0);
        }
        out.push((vid, l));
        i = i + 1;
    }
    proof {
        assert(vs@.skip(vs@.len() as int).len() == 0);
        assert(full.0 =~= out@);
    }
    out
}

/// Draws a fresh label for every arc/edge of `es`, in order.
#[verifier::loop_isolation(false)]
fn relabel_arc_seq(
    es: &Vec<(VId, VId, ELabel)>,
    rng: &mut rand_chacha::ChaCha20Rng,
    ne: ELabel,
) -> (r: Vec<(VId, VId, ELabel)>)
    requires
        1 <= ne,
    ensures
        ({
            let full = relabel_arcs(es@, rng_state(*old(rng)), ne);
            &&& r@ == full.0
            &&& rng_state(*final(rng)) == full.1
        }),
        r@.len() == es@.len(),
        forall|j: int|
            0 <= j < es@.len() ==> r@[j].0 == es@[j].0 && r@[j].1 == es@[j].1 && 0 <= r@[j].2 < ne,
{
    let ghost full = relabel_arcs(es@, rng_state(*rng), ne);
    let mut out: Vec<(VId, VId, ELabel)> = Vec::new();
    let mut i: usize = 0;
    proof {
        assert(es@.skip(0) =~= es@);
    }
    while i < es.len()
        invariant
            i <= es@.len(),
            out@.len() == i,
            ({
                let rem = relabel_arcs(es@.skip(i as int), rng_state(*rng), ne);
                full.0 == out@ + rem.0 && full.1 == rem.1
            }),
            forall|j: int|
                0 <= j < i ==> out@[j].0 == es@[j].0 && out@[j].1 == es@[j].1 && 0 <= out@[j].2
                    < ne,
        decreases es@.len() - i,
    {
        let ghost st = rng_state(*rng);
        let ghost rem = relabel_arcs(es@.skip(i as int), st, ne);
        proof {
            assert(es@.skip(i as int)[0] == es@[i as int]);
            assert(es@.skip(i as int).skip(1) =~= es@.skip(i as int + 1));
        }
        let (src, dst, _) = es[i];
        let l = gen_label(rng, ne);
        proof {
            let rest = relabel_arcs(es@.skip(i as int + 1), rng_state(*rng), ne);
            assert(rem.0 == seq![(src, dst, l)] + rest.0 && rem.1 == rest.1);
            assert(out@ + rem.0 =~= out@.push((src, dst, l)) + rest.0);
        }
        out.push((src, dst, l));
        i = i + 1;
    }
    proof {
        assert(es@.skip(es@.len() as int).len() == 0);
        assert(full.0 =~= out@);
    }
    out
}

/// Relabels a pattern: every vertex label is drawn from `[0, num_vlabels)`
/// and every arc/edge label from `[0, num_elabels)`, from one stream
/// seeded with [`SEED`], in the order vertices, arcs, edges. Topology
/// is untouched: identifiers, endpoints, sequence lengths and order are
/// those of the input. Fails, before any label is drawn, exactly when a
/// bound is zero or too large for a label.
pub fn relabel(ast: &Ast, num_vlabels: u32, num_elabels: u32) -> (r: Result<Ast, GispError>)
    ensures
        match r {
            Ok(out) => {
                &&& 1 <= num_vlabels <= 0x7fff
                &&& 1 <= num_elabels <= 0x7fff
                &&& out@ == relabel_view(ast@, num_vlabels as VLabel, num_elabels as ELabel)
                &&& out@.vertices.len() == ast@.vertices.len()
                &&& out@.arcs.len() == ast@.arcs.len()
                &&& out@.edges.len() == ast@.edges.len()
                &&& forall|j: int|
                    0 <= j < ast@.vertices.len() ==> out@.vertices[j].0 == ast@.vertices[j].0 && 0
                        <= out@.vertices[j].1 < num_vlabels
                &&& forall|j: int|
                    0 <= j < ast@.arcs.len() ==> out@.arcs[j].0 == ast@.arcs[j].0 && out@.arcs[j].1
                        == ast@.arcs[j].1 && 0 <= out@.arcs[j].2 < num_elabels
                &&& forall|j: int|
                    0 <= j < ast@.edges.len() ==> out@.edges[j].0 == ast@.edges[j].0
                        && out@.edges[j].1 == ast@.edges[j].1 && 0 <= out@.edges[j].2 < num_elabels
                &&& out@.constraint == ast@.constraint
            },
            Err(e) => {
                &&& !(1 <= num_vlabels <= 0x7fff && 1 <= num_elabels <= 0x7fff)
                &&& e == GispError::EmptyRange
            },
        },
{
    if num_vlabels == 0 || num_elabels == 0 || num_vlabels > 0x7fff || num_elabels > 0x7fff {
        return Err(GispError::EmptyRange);
    }
    let nv: VLabel = num_vlabels as VLabel;
    let ne: ELabel = num_elabels as ELabel;
    let mut rng = rng_from_seed(SEED);
    let vertices = relabel_vertex_seq(&ast.vertices, &mut rng, nv);
    let arcs = relabel_arc_seq(&ast.arcs, &mut rng, ne);
    let edges = relabel_arc_seq(&ast.edges, &mut rng, ne);
    let constraint = match ast.constraint() {
        Some(e) => Some(*e),
        None => None,
    };
    Ok(Ast::new(vertices, arcs, edges, constraint))
}

/// Renders the relabeled pattern back to gisp syntax. The callers must
/// supply workable bounds; [`relabel`] reports unworkable ones instead.
pub fn gisp_to_gisp(ast: &Ast, num_vlabels: usize, num_elabels: usize) -> (r: String)
    requires
        1 <= num_vlabels <= 0x7fff,
        1 <= num_elabels <= 0x7fff,
    ensures
        r@ == gisp_text(relabel_view(ast@, num_vlabels as VLabel, num_elabels as ELabel)),
{
    match relabel(ast, num_vlabels as u32, num_elabels as u32) {
        Ok(out) => out.to_text(),
        Err(_) => {
            proof {
                assert(false);
            }
            String::new()
        },
    }
}

/// Determinism of relabeling: the label stream is a function of the
/// fixed seed alone, so two relabelings of one pattern with one pair of
/// bounds are one pattern.
pub proof fn lemma_relabel_deterministic(
    a: AstView,
    nv: VLabel,
    ne: ELabel,
    r1: AstView,
    r2: AstView,
)
    requires
        r1 == relabel_view(a, nv, ne),
        r2 == relabel_view(a, nv, ne),
    ensures
        r1 == r2,
{
}

} // verus!
