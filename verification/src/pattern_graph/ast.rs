//! Abstract Syntax Tree of a gisp pattern, its mathematical view, and
//! the textual re-emitter together with its specification.

use crate::text::dec_int;
use crate::text::push_dec_i64;
use crate::types::ELabel;
use crate::types::VId;
use crate::types::VLabel;
use vstd::prelude::*;
use vstd::string::StringExecFns;

verus! {

/// A constraint expression over a pattern. The `where` grammar
/// production is recognized, but no expression form is supported yet:
/// the single variant is a "not yet supported" marker that the parser
/// never produces, so every parsed pattern has no constraint.
#[derive(Debug, Clone, Copy, PartialEq, Eq, Structural)]
pub enum Expr {
    Unsupported,
}

/// The errors of this crate: a malformed gisp document, an arc/edge
/// endpoint missing from the vertex table, and an empty label-sampling
/// range.
#[derive(Debug, Clone, Copy, PartialEq, Eq, Structural)]
pub enum GispError {
    /// The input text is not a well-formed gisp document; `pos` is the
    /// index of the character at which parsing gave up.
    Syntax { pos: usize },
    /// An arc or edge endpoint does not appear in the vertex table.
    MissingVertex { vid: VId },
    /// A label-sampling bound is zero or does not fit a label.
    EmptyRange,
}

/// The mathematical value of an [`Ast`].
#[verifier::ext_equal]
pub ghost struct AstView {
    pub vertices: Seq<(VId, VLabel)>,
    pub arcs: Seq<(VId, VId, ELabel)>,
    pub edges: Seq<(VId, VId, ELabel)>,
    pub constraint: Option<Expr>,
}

/// A parsed gisp pattern: the vertex table, the directed arcs, the
/// undirected edges, and an optional constraint.
#[derive(Debug)]
pub struct Ast {
    pub vertices: Vec<(VId, VLabel)>,
    pub arcs: Vec<(VId, VId, ELabel)>,
    pub edges: Vec<(VId, VId, ELabel)>,
    pub constraint: Option<Expr>,
}

impl View for Ast {
    type V = AstView;

    open spec fn view(&self) -> AstView {
        AstView {
            vertices: self.vertices@,
            arcs: self.arcs@,
            edges: self.edges@,
            constraint: self.constraint,
        }
    }
}

impl Ast {
    /// Builds an `Ast` holding exactly the given sequences.
    pub fn new(
        vertices: Vec<(VId, VLabel)>,
        arcs: Vec<(VId, VId, ELabel)>,
        edges: Vec<(VId, VId, ELabel)>,
        constraint: Option<Expr>,
    ) -> (r: Self)
        ensures
            r@.vertices == vertices@,
            r@.arcs == arcs@,
            r@.edges == edges@,
            r@.constraint == constraint,
    {
        Self { vertices, arcs, edges, constraint }
    }

    /// The vertex table, in stored order.
    pub fn vertices(&self) -> (r: &[(VId, VLabel)])
        ensures
            r@ == self@.vertices,
    {
        self.vertices.as_slice()
    }

    /// The directed arcs, in stored order.
    pub fn arcs(&self) -> (r: &[(VId, VId, ELabel)])
        ensures
            r@ == self@.arcs,
    {
        self.arcs.as_slice()
    }

    /// The undirected edges, in stored order.
    pub fn edges(&self) -> (r: &[(VId, VId, ELabel)])
        ensures
            r@ == self@.edges,
    {
        self.edges.as_slice()
    }

    /// The constraint, when one is present.
    pub fn constraint(&self) -> (r: Option<&Expr>)
        ensures
            match r {
                Some(e) => self@.constraint == Some(*e),
                None => self@.constraint is None,
            },
    {
        self.constraint.as_ref()
    }
}

impl PartialEq for Ast {
    /// Structural equality: the vertex, arc and edge sequences and the
    /// constraints are equal.
    fn eq(&self, other: &Self) -> (r: bool) {
        if self.vertices.len() != other.vertices.len() || self.arcs.len() != other.arcs.len()
            || self.edges.len() != other.edges.len() {
            return false;
        }
        let mut i: usize = 0;
        while i < self.vertices.len()
            invariant
                i <= self.vertices.len(),
                self.vertices.len() == other.vertices.len(),
                forall|j: int| 0 <= j < i ==> self.vertices@[j] == other.vertices@[j],
            decreases self.vertices.len() - i,
        {
            if self.vertices[i].0 != other.vertices[i].0 || self.vertices[i].1
                != other.vertices[i].1 {
                return false;
            }
            i = i + 1;
        }
        let mut i: usize = 0;
        while i < self.arcs.len()
            invariant
                i <= self.arcs.len(),
                self.arcs.len() == other.arcs.len(),
                self.vertices@ =~= other.vertices@,
                forall|j: int| 0 <= j < i ==> self.arcs@[j] == other.arcs@[j],
            decreases self.arcs.len() - i,
        {
            if self.arcs[i].0 != other.arcs[i].0 || self.arcs[i].1 != other.arcs[i].1
                || self.arcs[i].2 != other.arcs[i].2 {
                return false;
            }
            i = i + 1;
        }
        let mut i: usize = 0;
        while i < self.edges.len()
            invariant
                i <= self.edges.len(),
                self.edges.len() == other.edges.len(),
                self.vertices@ =~= other.vertices@,
                self.arcs@ =~= other.arcs@,
                forall|j: int| 0 <= j < i ==> self.edges@[j] == other.edges@[j],
            decreases self.edges.len() - i,
        {
            if self.edges[i].0 != other.edges[i].0 || self.edges[i].1 != other.edges[i].1
                || self.edges[i].2 != other.edges[i].2 {
                return false;
            }
            i = i + 1;
        }
        proof {
            assert(self.vertices@ =~= other.vertices@);
            assert(self.arcs@ =~= other.arcs@);
            assert(self.edges@ =~= other.edges@);
        }
        let constraints_eq = match (&self.constraint, &other.constraint) {
            (Option::None, Option::None) => true,
            (Option::Some(Expr::Unsupported), Option::Some(Expr::Unsupported)) => true,
            _ => false,
        };
        proof {
            if constraints_eq {
                assert(self@ =~= other@);
            }
        }
        constraints_eq
    }
}

impl vstd::std_specs::cmp::PartialEqSpecImpl for Ast {
    open spec fn obeys_eq_spec() -> bool {
        true
    }

    open spec fn eq_spec(&self, other: &Self) -> bool {
        self@ == other@
    }
}

impl Eq for Ast {

}

/// The label of `vid` in the vertex table, when the identifier is
/// declared there; with duplicate declarations the last one wins.
pub open spec fn vlabel_of(vs: Seq<(VId, VLabel)>, vid: VId) -> Option<VLabel>
    decreases vs.len(),
{
    if vs.len() == 0 {
        None
    } else if vs.last().0 == vid {
        Some(vs.last().1)
    } else {
        vlabel_of(vs.drop_last(), vid)
    }
}

/// The label of `vid`, defaulting to zero where none is declared; the
/// exporters only apply it to declared identifiers.
pub open spec fn spec_vlabel(vs: Seq<(VId, VLabel)>, vid: VId) -> VLabel {
    match vlabel_of(vs, vid) {
        Some(l) => l,
        None => 0,
    }
}

/// The first arc/edge endpoint, in stored order (source before
/// destination), that the vertex table does not declare.
pub open spec fn first_missing_endpoint(
    es: Seq<(VId, VId, ELabel)>,
    vs: Seq<(VId, VLabel)>,
) -> Option<VId>
    decreases es.len(),
{
    if es.len() == 0 {
        None
    } else if vlabel_of(vs, es[0].0) is None {
        Some(es[0].0)
    } else if vlabel_of(vs, es[0].1) is None {
        Some(es[0].1)
    } else {
        first_missing_endpoint(es.skip(1), vs)
    }
}

/// Looks a vertex identifier up in the vertex table.
#[verifier::loop_isolation(false)]
pub fn lookup_vlabel(vs: &Vec<(VId, VLabel)>, vid: VId) -> (r: Option<VLabel>)
    ensures
        r == vlabel_of(vs@, vid),
{
    let mut i: usize = vs.len();
    proof {
        assert(vs@.take(vs@.len() as int) =~= vs@);
    }
    while i > 0
        invariant
            i <= vs.len(),
            vlabel_of(vs@, vid) == vlabel_of(vs@.take(i as int), vid),
        decreases i,
    {
        proof {
            assert(vs@.take(i as int).last() == vs@[i - 1]);
            assert(vs@.take(i as int).drop_last() =~= vs@.take(i as int - 1));
        }
        if vs[i - 1].0 == vid {
            return Some(vs[i - 1].1);
        }
        i = i - 1;
    }
    proof {
        assert(vs@.take(0).len() == 0);
    }
    None
}

/// The keyword `match` as a character sequence.
pub open spec fn kw_match() -> Seq<char> {
    seq!['m', 'a', 't', 'c', 'h']
}

/// The keyword `vertices` as a character sequence.
pub open spec fn kw_vertices() -> Seq<char> {
    seq!['v', 'e', 'r', 't', 'i', 'c', 'e', 's']
}

/// The keyword `arcs` as a character sequence.
pub open spec fn kw_arcs() -> Seq<char> {
    seq!['a', 'r', 'c', 's']
}

/// The keyword `edges` as a character sequence.
pub open spec fn kw_edges() -> Seq<char> {
    seq!['e', 'd', 'g', 'e', 's']
}

/// The keyword `where` as a character sequence.
pub open spec fn kw_where() -> Seq<char> {
    seq!['w', 'h', 'e', 'r', 'e']
}

/// The text of one vertex declaration, `(u<id> <label>)`.
pub open spec fn vertex_text(v: (VId, VLabel)) -> Seq<char> {
    seq!['(', 'u'] + dec_int(v.0 as int) + seq![' '] + dec_int(v.1 as int) + seq![')']
}

/// The text of one arc or edge declaration, `(u<src> u<dst> <label>)`.
pub open spec fn arc_text(e: (VId, VId, ELabel)) -> Seq<char> {
    seq!['(', 'u'] + dec_int(e.0 as int) + seq![' ', 'u'] + dec_int(e.1 as int) + seq![' ']
        + dec_int(e.2 as int) + seq![')']
}

/// The space-separated vertex declarations, in stored order.
pub open spec fn vertices_text(vs: Seq<(VId, VLabel)>) -> Seq<char>
    decreases vs.len(),
{
    if vs.len() == 0 {
        Seq::empty()
    } else if vs.len() == 1 {
        vertex_text(vs[0])
    } else {
        vertex_text(vs[0]) + seq![' '] + vertices_text(vs.skip(1))
    }
}

/// The space-separated arc/edge declarations, in stored order.
pub open spec fn arcs_text(es: Seq<(VId, VId, ELabel)>) -> Seq<char>
    decreases es.len(),
{
    if es.len() == 0 {
        Seq::empty()
    } else if es.len() == 1 {
        arc_text(es[0])
    } else {
        arc_text(es[0]) + seq![' '] + arcs_text(es.skip(1))
    }
}

/// The ` (vertices ...)` clause, empty when there is no vertex.
pub open spec fn vertices_block(vs: Seq<(VId, VLabel)>) -> Seq<char> {
    if vs.len() == 0 {
        Seq::empty()
    } else {
        seq![' ', '('] + kw_vertices() + seq![' '] + vertices_text(vs) + seq![')']
    }
}

/// The ` (arcs ...)` clause, empty when there is no arc.
pub open spec fn arcs_block(es: Seq<(VId, VId, ELabel)>) -> Seq<char> {
    if es.len() == 0 {
        Seq::empty()
    } else {
        seq![' ', '('] + kw_arcs() + seq![' '] + arcs_text(es) + seq![')']
    }
}

/// The ` (edges ...)` clause, empty when there is no edge.
pub open spec fn edges_block(es: Seq<(VId, VId, ELabel)>) -> Seq<char> {
    if es.len() == 0 {
        Seq::empty()
    } else {
        seq![' ', '('] + kw_edges() + seq![' '] + arcs_text(es) + seq![')']
    }
}

/// The gisp text of a pattern: `(match ...)` with the vertex, arc and
/// edge clauses in that order, each omitted when empty. A `where`
/// clause is never emitted, since no constraint value can be built.
pub open spec fn gisp_text(a: AstView) -> Seq<char> {
    seq!['('] + kw_match() + vertices_block(a.vertices) + arcs_block(a.arcs) + edges_block(a.edges)
        + seq![')']
}

impl Ast {
    /// Renders this pattern back to gisp syntax.
    pub fn to_text(&self) -> (r: String)
        ensures
            r@ == gisp_text(self@),
    {
        let mut s = String::new();
        s.append("(match");
        proof {
            reveal_strlit("(match");
            assert(s@ =~= seq!['('] + kw_match());
        }
        push_vertices_block(&mut s, &self.vertices);
        push_arcs_block(&mut s, &self.arcs, false);
        push_arcs_block(&mut s, &self.edges, true);
        s.append(")");
        proof {
            reveal_strlit(")");
            assert(s@ =~= gisp_text(self@));
        }
        s
    }
}

/// Appends the ` (vertices ...)` clause of `vs` to `s`.
fn push_vertices_block(s: &mut String, vs: &Vec<(VId, VLabel)>)
    ensures
        final(s)@ == old(s)@ + vertices_block(vs@),
{
    if vs.len() == 0 {
        proof {
            assert(old(s)@ + vertices_block(vs@) =~= old(s)@);
        }
        return ;
    }
    s.append(" (vertices ");
    proof {
        reveal_strlit(" (vertices ");
        assert(s@ =~= old(s)@ + (seq![' ', '('] + kw_vertices() + seq![' ']));
    }
    let ghost base = s@;
    let mut i: usize = 0;
    proof {
        assert(vs@.skip(0) =~= vs@);
    }
    while i < vs.len()
        invariant
            i <= vs.len(),
            vs.len() > 0,
            base + vertices_text(vs@) =~= s@ + vertices_text(vs@.skip(i as int)),
        decreases vs.len() - i,
    {
        let ghost pre = s@;
        let (vid, vlabel) = vs[i];
        s.append("(u");
        push_dec_i64(s, vid as i64);
        s.append(" ");
        push_dec_i64(s, vlabel as i64);
        s.append(")");
        proof {
            reveal_strlit("(u");
            reveal_strlit(" ");
            reveal_strlit(")");
            assert(s@ =~= pre + vertex_text(vs@[i as int]));
        }
        if i + 1 < vs.len() {
            s.append(" ");
            proof {
                reveal_strlit(" ");
                assert(vs@.skip(i as int)[0] == vs@[i as int]);
                assert(vs@.skip(i as int).skip(1) =~= vs@.skip(i as int + 1));
                assert(vertices_text(vs@.skip(i as int)) =~= vertex_text(vs@[i as int])
                    + seq![' '] + vertices_text(vs@.skip(i as int + 1)));
                assert(base + vertices_text(vs@) =~= s@ + vertices_text(vs@.skip(i as int + 1)));
            }
        } else {
            proof {
                assert(vs@.skip(i as int).len() == 1);
                assert(vs@.skip(i as int)[0] == vs@[i as int]);
                assert(vertices_text(vs@.skip(i as int)) =~= vertex_text(vs@[i as int]));
                assert(vs@.skip(i as int + 1).len() == 0);
                assert(base + vertices_text(vs@) =~= s@ + vertices_text(vs@.skip(i as int + 1)));
            }
        }
        i = i + 1;
    }
    proof {
        assert(vs@.skip(vs@.len() as int).len() == 0);
        assert(s@ =~= base + vertices_text(vs@));
    }
    s.append(")");
    proof {
        reveal_strlit(")");
        assert(s@ =~= old(s)@ + vertices_block(vs@));
    }
}

/// Appends the ` (arcs ...)` or ` (edges ...)` clause of `es` to `s`.
fn push_arcs_block(s: &mut String, es: &Vec<(VId, VId, ELabel)>, edges: bool)
    ensures
        !edges ==> final(s)@ == old(s)@ + arcs_block(es@),
        edges ==> final(s)@ == old(s)@ + edges_block(es@),
{
    if es.len() == 0 {
        proof {
            assert(old(s)@ + arcs_block(es@) =~= old(s)@);
            assert(old(s)@ + edges_block(es@) =~= old(s)@);
        }
        return ;
    }
    if edges {
        s.append(" (edges ");
        proof {
            reveal_strlit(" (edges ");
            assert(s@ =~= old(s)@ + (seq![' ', '('] + kw_edges() + seq![' ']));
        }
    } else {
        s.append(" (arcs ");
        proof {
            reveal_strlit(" (arcs ");
            assert(s@ =~= old(s)@ + (seq![' ', '('] + kw_arcs() + seq![' ']));
        }
    }
    let ghost base = s@;
    let mut i: usize = 0;
    proof {
        assert(es@.skip(0) =~= es@);
    }
    while i < es.len()
        invariant
            i <= es.len(),
            es.len() > 0,
            base + arcs_text(es@) =~= s@ + arcs_text(es@.skip(i as int)),
        decreases es.len() - i,
    {
        let ghost pre = s@;
        let (src, dst, elabel) = es[i];
        s.append("(u");
        push_dec_i64(s, src as i64);
        s.append(" u");
        push_dec_i64(s, dst as i64);
        s.append(" ");
        push_dec_i64(s, elabel as i64);
        s.append(")");
        proof {
            reveal_strlit("(u");
            reveal_strlit(" u");
            reveal_strlit(" ");
            reveal_strlit(")");
            assert(s@ =~= pre + arc_text(es@[i as int]));
        }
        if i + 1 < es.len() {
            s.append(" ");
            proof {
                reveal_strlit(" ");
                assert(es@.skip(i as int)[0] == es@[i as int]);
                assert(es@.skip(i as int).skip(1) =~= es@.skip(i as int + 1));
                assert(arcs_text(es@.skip(i as int)) =~= arc_text(es@[i as int]) + seq![' ']
                    + arcs_text(es@.skip(i as int + 1)));
                assert(base + arcs_text(es@) =~= s@ + arcs_text(es@.skip(i as int + 1)));
            }
        } else {
            proof {
                assert(es@.skip(i as int).len() == 1);
                assert(es@.skip(i as int)[0] == es@[i as int]);
                assert(arcs_text(es@.skip(i as int)) =~= arc_text(es@[i as int]));
                assert(es@.skip(i as int + 1).len() == 0);
                assert(base + arcs_text(es@) =~= s@ + arcs_text(es@.skip(i as int + 1)));
            }
        }
        i = i + 1;
    }
    proof {
        assert(es@.skip(es@.len() as int).len() == 0);
        assert(s@ =~= base + arcs_text(es@));
    }
    s.append(")");
    proof {
        reveal_strlit(")");
        if edges {
            assert(s@ =~= old(s)@ + edges_block(es@));
        } else {
            assert(s@ =~= old(s)@ + arcs_block(es@));
        }
    }
}

} // verus!
