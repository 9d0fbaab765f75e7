//! The round-trip law: the re-emitted text of any pattern without a
//! constraint parses back to that same pattern.

use crate::pattern_graph::ast::AstView;
use crate::pattern_graph::ast::arc_text;
use crate::pattern_graph::ast::arcs_block;
use crate::pattern_graph::ast::arcs_text;
use crate::pattern_graph::ast::edges_block;
use crate::pattern_graph::ast::gisp_text;
use crate::pattern_graph::ast::kw_arcs;
use crate::pattern_graph::ast::kw_edges;
use crate::pattern_graph::ast::kw_match;
use crate::pattern_graph::ast::kw_vertices;
use crate::pattern_graph::ast::kw_where;
use crate::pattern_graph::ast::vertex_text;
use crate::pattern_graph::ast::vertices_block;
use crate::pattern_graph::ast::vertices_text;
use crate::pattern_graph::parser::Token;
use crate::pattern_graph::parser::classify;
use crate::pattern_graph::parser::is_atom_char;
use crate::pattern_graph::parser::is_ws;
use crate::pattern_graph::parser::lemma_atom_len_is;
use crate::pattern_graph::parser::lex;
use crate::pattern_graph::parser::parse_spec;
use crate::pattern_graph::parser::prepend_tok;
use crate::pattern_graph::parser::prepend_toks;
use crate::text::dec_int;
use crate::text::int_val;
use crate::text::is_digit_char;
use crate::text::lemma_dec_int_val;
use crate::text::valid_int_text;
use crate::types::ELabel;
use crate::types::VId;
use crate::types::VLabel;
use vstd::prelude::*;

verus! {

/// The tokens of one vertex declaration.
pub open spec fn vertex_tokens(v: (VId, VLabel)) -> Seq<Token> {
    seq![Token::LPar, Token::URef(v.0), Token::Lit(v.1), Token::RPar]
}

/// The tokens of a vertex declaration sequence.
pub open spec fn vertices_tokens(vs: Seq<(VId, VLabel)>) -> Seq<Token>
    decreases vs.len(),
{
    if vs.len() == 0 {
        Seq::empty()
    } else {
        vertex_tokens(vs[0]) + vertices_tokens(vs.skip(1))
    }
}

/// The tokens of one arc/edge declaration.
pub open spec fn arc_tokens(e: (VId, VId, ELabel)) -> Seq<Token> {
    seq![Token::LPar, Token::URef(e.0), Token::URef(e.1), Token::Lit(e.2), Token::RPar]
}

/// The tokens of an arc/edge declaration sequence.
pub open spec fn arcs_tokens(es: Seq<(VId, VId, ELabel)>) -> Seq<Token>
    decreases es.len(),
{
    if es.len() == 0 {
        Seq::empty()
    } else {
        arc_tokens(es[0]) + arcs_tokens(es.skip(1))
    }
}

/// The tokens of the `(vertices ...)` clause, empty when it is omitted.
pub open spec fn vertices_block_tokens(vs: Seq<(VId, VLabel)>) -> Seq<Token> {
    if vs.len() == 0 {
        Seq::empty()
    } else {
        seq![Token::LPar, Token::KwVertices] + vertices_tokens(vs) + seq![Token::RPar]
    }
}

/// The tokens of the `(arcs ...)` clause.
pub open spec fn arcs_block_tokens(es: Seq<(VId, VId, ELabel)>) -> Seq<Token> {
    if es.len() == 0 {
        Seq::empty()
    } else {
        seq![Token::LPar, Token::KwArcs] + arcs_tokens(es) + seq![Token::RPar]
    }
}

/// The tokens of the `(edges ...)` clause.
pub open spec fn edges_block_tokens(es: Seq<(VId, VId, ELabel)>) -> Seq<Token> {
    if es.len() == 0 {
        Seq::empty()
    } else {
        seq![Token::LPar, Token::KwEdges] + arcs_tokens(es) + seq![Token::RPar]
    }
}

/// The tokens of a whole re-emitted pattern.
pub open spec fn query_tokens(a: AstView) -> Seq<Token> {
    seq![Token::LPar, Token::KwMatch] + vertices_block_tokens(a.vertices) + arcs_block_tokens(
        a.arcs,
    ) + edges_block_tokens(a.edges) + seq![Token::RPar]
}

/// Tokenizing after a leading space skips the space.
proof fn lemma_lex_ws(rest: Seq<char>)
    ensures
        lex(seq![' '] + rest) == lex(rest),
{
    let s = seq![' '] + rest;
    assert(s.len() > 0 && is_ws(s[0]));
    assert(s.skip(1) =~= rest);
}

/// A leading `(` tokenizes to `LPar`.
proof fn lemma_lex_lpar(rest: Seq<char>)
    ensures
        lex(seq!['('] + rest) == prepend_tok(Token::LPar, lex(rest)),
{
    let s = seq!['('] + rest;
    assert(s.len() > 0 && !is_ws(s[0]) && s[0] == '(');
    assert(s.skip(1) =~= rest);
}

/// A leading `)` tokenizes to `RPar`.
proof fn lemma_lex_rpar(rest: Seq<char>)
    ensures
        lex(seq![')'] + rest) == prepend_tok(Token::RPar, lex(rest)),
{
    let s = seq![')'] + rest;
    assert(s.len() > 0 && !is_ws(s[0]) && s[0] != '(' && s[0] == ')');
    assert(s.skip(1) =~= rest);
}

/// A leading maximal atom tokenizes to its classification.
proof fn lemma_lex_atom(atm: Seq<char>, rest: Seq<char>)
    requires
        atm.len() >= 1,
        forall|j: int| 0 <= j < atm.len() ==> is_atom_char(#[trigger] atm[j]),
        rest.len() == 0 || !is_atom_char(rest[0]),
    ensures
        lex(atm + rest) == match classify(atm) {
            Some(t) => prepend_tok(t, lex(rest)),
            None => None,
        },
{
    let s = atm + rest;
    assert(s[0] == atm[0]);
    assert(is_atom_char(s[0]));
    assert forall|j: int| 0 <= j < atm.len() implies is_atom_char(#[trigger] s[j]) by {
        assert(s[j] == atm[j]);
    }
    if atm.len() < s.len() {
        assert(s[atm.len() as int] == rest[0]);
    }
    lemma_atom_len_is(s, atm.len() as int);
    assert(s.take(atm.len() as int) =~= atm);
    assert(s.skip(atm.len() as int) =~= rest);
}

/// Prepending one token, then a sequence of them, in either phrasing.
proof fn lemma_pts_assoc(p1: Seq<Token>, p2: Seq<Token>, r: Option<Seq<Token>>)
    ensures
        prepend_toks(p1, prepend_toks(p2, r)) == prepend_toks(p1 + p2, r),
{
    match r {
        Some(x) => {
            assert(p1 + (p2 + x) =~= (p1 + p2) + x);
        },
        None => {
        },
    }
}

/// `prepend_tok` is `prepend_toks` of a singleton.
proof fn lemma_pt_single(t: Token, r: Option<Seq<Token>>)
    ensures
        prepend_tok(t, r) == prepend_toks(seq![t], r),
{
}

/// The rendered form of an integer consists of atom characters.
proof fn lemma_dec_int_atom(n: int)
    ensures
        forall|j: int| 0 <= j < dec_int(n).len() ==> is_atom_char(#[trigger] dec_int(n)[j]),
{
    lemma_dec_int_val(n);
    assert forall|j: int| 0 <= j < dec_int(n).len() implies is_atom_char(
        #[trigger] dec_int(n)[j],
    ) by {
        if j == 0 {
            assert(dec_int(n)[0] == '-' || is_digit_char(dec_int(n)[0]));
        } else {
            assert(is_digit_char(dec_int(n)[j]));
        }
    }
}

/// A `u`-prefixed rendered vertex id classifies as that vertex
/// reference.
proof fn lemma_classify_uref(vid: VId)
    ensures
        classify(seq!['u'] + dec_int(vid as int)) == Some(Token::URef(vid)),
{
    let a = seq!['u'] + dec_int(vid as int);
    lemma_dec_int_val(vid as int);
    assert(a[0] == 'u');
    assert(a != kw_match()) by {
        if a == kw_match() {
            assert(a[0] == 'm');
        }
    }
    assert(a != kw_vertices()) by {
        if a == kw_vertices() {
            assert(a[0] == 'v');
        }
    }
    assert(a != kw_arcs()) by {
        if a == kw_arcs() {
            assert(a[0] == 'a');
        }
    }
    assert(a != kw_edges()) by {
        if a == kw_edges() {
            assert(a[0] == 'e');
        }
    }
    assert(a != kw_where()) by {
        if a == kw_where() {
            assert(a[0] == 'w');
        }
    }
    assert(a.skip(1) =~= dec_int(vid as int));
    assert(valid_int_text(a.skip(1)));
    assert(int_val(a.skip(1)) == vid as int);
}

/// A rendered label classifies as that integer literal.
proof fn lemma_classify_lit(l: ELabel)
    ensures
        classify(dec_int(l as int)) == Some(Token::Lit(l)),
{
    let a = dec_int(l as int);
    lemma_dec_int_val(l as int);
    assert(a[0] == '-' || is_digit_char(a[0]));
    assert(a != kw_match()) by {
        if a == kw_match() {
            assert(a[0] == 'm');
        }
    }
    assert(a != kw_vertices()) by {
        if a == kw_vertices() {
            assert(a[0] == 'v');
        }
    }
    assert(a != kw_arcs()) by {
        if a == kw_arcs() {
            assert(a[0] == 'a');
        }
    }
    assert(a != kw_edges()) by {
        if a == kw_edges() {
            assert(a[0] == 'e');
        }
    }
    assert(a != kw_where()) by {
        if a == kw_where() {
            assert(a[0] == 'w');
        }
    }
    assert(a[0] != 'u');
    assert(valid_int_text(a));
    assert(int_val(a) == l as int);
}

/// A rendered vertex reference atom tokenizes to its `URef`.
proof fn lemma_lex_uref(vid: VId, rest: Seq<char>)
    requires
        rest.len() == 0 || !is_atom_char(rest[0]),
    ensures
        lex((seq!['u'] + dec_int(vid as int)) + rest) == prepend_tok(
            Token::URef(vid),
            lex(rest),
        ),
{
    let atm = seq!['u'] + dec_int(vid as int);
    lemma_dec_int_atom(vid as int);
    assert forall|j: int| 0 <= j < atm.len() implies is_atom_char(#[trigger] atm[j]) by {
        if j > 0 {
            assert(atm[j] == dec_int(vid as int)[j - 1]);
        }
    }
    lemma_lex_atom(atm, rest);
    lemma_classify_uref(vid);
}

/// A rendered label atom tokenizes to its `Lit`.
proof fn lemma_lex_lit(l: ELabel, rest: Seq<char>)
    requires
        rest.len() == 0 || !is_atom_char(rest[0]),
    ensures
        lex(dec_int(l as int) + rest) == prepend_tok(Token::Lit(l), lex(rest)),
{
    lemma_dec_int_atom(l as int);
    lemma_dec_int_val(l as int);
    lemma_lex_atom(dec_int(l as int), rest);
    lemma_classify_lit(l);
}

/// The text of one vertex declaration tokenizes to its four tokens.
proof fn lemma_lex_vertex(v: (VId, VLabel), rest: Seq<char>)
    requires
        rest.len() == 0 || !is_atom_char(rest[0]),
    ensures
        lex(vertex_text(v) + rest) == prepend_toks(vertex_tokens(v), lex(rest)),
{
    let s4 = seq![')'] + rest;
    let s3 = dec_int(v.1 as int) + s4;
    let s2 = seq![' '] + s3;
    let s1 = (seq!['u'] + dec_int(v.0 as int)) + s2;
    let s0 = seq!['('] + s1;
    assert(vertex_text(v) + rest =~= s0);
    lemma_lex_rpar(rest);
    assert(s4[0] == ')');
    lemma_lex_lit(v.1, s4);
    assert(s2[0] == ' ');
    lemma_lex_ws(s3);
    lemma_lex_uref(v.0, s2);
    lemma_lex_lpar(s1);
    let r = lex(rest);
    assert(lex(s0) == prepend_tok(
        Token::LPar,
        prepend_tok(Token::URef(v.0), prepend_tok(Token::Lit(v.1), prepend_tok(Token::RPar, r))),
    ));
    lemma_pt_single(Token::RPar, r);
    lemma_pt_single(Token::Lit(v.1), prepend_toks(seq![Token::RPar], r));
    lemma_pts_assoc(seq![Token::Lit(v.1)], seq![Token::RPar], r);
    lemma_pt_single(Token::URef(v.0), prepend_toks(seq![Token::Lit(v.1), Token::RPar], r));
    lemma_pts_assoc(seq![Token::URef(v.0)], seq![Token::Lit(v.1), Token::RPar], r);
    lemma_pt_single(
        Token::LPar,
        prepend_toks(seq![Token::URef(v.0), Token::Lit(v.1), Token::RPar], r),
    );
    lemma_pts_assoc(
        seq![Token::LPar],
        seq![Token::URef(v.0), Token::Lit(v.1), Token::RPar],
        r,
    );
    assert(seq![Token::LPar] + seq![Token::URef(v.0), Token::Lit(v.1), Token::RPar]
        =~= vertex_tokens(v));
    assert(seq![Token::URef(v.0)] + seq![Token::Lit(v.1), Token::RPar] =~= seq![
        Token::URef(v.0),
        Token::Lit(v.1),
        Token::RPar,
    ]);
    assert(seq![Token::Lit(v.1)] + seq![Token::RPar] =~= seq![Token::Lit(v.1), Token::RPar]);
}

/// The text of one arc/edge declaration tokenizes to its five tokens.
proof fn lemma_lex_arc(e: (VId, VId, ELabel), rest: Seq<char>)
    requires
        rest.len() == 0 || !is_atom_char(rest[0]),
    ensures
        lex(arc_text(e) + rest) == prepend_toks(arc_tokens(e), lex(rest)),
{
    let s6 = seq![')'] + rest;
    let s5 = dec_int(e.2 as int) + s6;
    let s4 = seq![' '] + s5;
    let s3 = (seq!['u'] + dec_int(e.1 as int)) + s4;
    let s2 = seq![' '] + s3;
    let s1 = (seq!['u'] + dec_int(e.0 as int)) + s2;
    let s0 = seq!['('] + s1;
    assert(arc_text(e) + rest =~= s0);
    lemma_lex_rpar(rest);
    assert(s6[0] == ')');
    lemma_lex_lit(e.2, s6);
    assert(s4[0] == ' ');
    lemma_lex_ws(s5);
    lemma_lex_uref(e.1, s4);
    assert(s2[0] == ' ');
    lemma_lex_ws(s3);
    lemma_lex_uref(e.0, s2);
    lemma_lex_lpar(s1);
    let r = lex(rest);
    assert(lex(s0) == prepend_tok(
        Token::LPar,
        prepend_tok(
            Token::URef(e.0),
            prepend_tok(
                Token::URef(e.1),
                prepend_tok(Token::Lit(e.2), prepend_tok(Token::RPar, r)),
            ),
        ),
    ));
    lemma_pt_single(Token::RPar, r);
    lemma_pt_single(Token::Lit(e.2), prepend_toks(seq![Token::RPar], r));
    lemma_pts_assoc(seq![Token::Lit(e.2)], seq![Token::RPar], r);
    assert(seq![Token::Lit(e.2)] + seq![Token::RPar] =~= seq![Token::Lit(e.2), Token::RPar]);
    lemma_pt_single(Token::URef(e.1), prepend_toks(seq![Token::Lit(e.2), Token::RPar], r));
    lemma_pts_assoc(seq![Token::URef(e.1)], seq![Token::Lit(e.2), Token::RPar], r);
    assert(seq![Token::URef(e.1)] + seq![Token::Lit(e.2), Token::RPar] =~= seq![
        Token::URef(e.1),
        Token::Lit(e.2),
        Token::RPar,
    ]);
    lemma_pt_single(
        Token::URef(e.0),
        prepend_toks(seq![Token::URef(e.1), Token::Lit(e.2), Token::RPar], r),
    );
    lemma_pts_assoc(
        seq![Token::URef(e.0)],
        seq![Token::URef(e.1), Token::Lit(e.2), Token::RPar],
        r,
    );
    assert(seq![Token::URef(e.0)] + seq![Token::URef(e.1), Token::Lit(e.2), Token::RPar] =~= seq![
        Token::URef(e.0),
        Token::URef(e.1),
        Token::Lit(e.2),
        Token::RPar,
    ]);
    lemma_pt_single(
        Token::LPar,
        prepend_toks(
            seq![Token::URef(e.0), Token::URef(e.1), Token::Lit(e.2), Token::RPar],
            r,
        ),
    );
    lemma_pts_assoc(
        seq![Token::LPar],
        seq![Token::URef(e.0), Token::URef(e.1), Token::Lit(e.2), Token::RPar],
        r,
    );
    assert(seq![Token::LPar] + seq![
        Token::URef(e.0),
        Token::URef(e.1),
        Token::Lit(e.2),
        Token::RPar,
    ] =~= arc_tokens(e));
}

/// A space-separated vertex list tokenizes to its concatenated tokens.
proof fn lemma_lex_vertices(vs: Seq<(VId, VLabel)>, rest: Seq<char>)
    requires
        vs.len() > 0,
        rest.len() > 0,
        !is_atom_char(rest[0]),
    ensures
        lex(vertices_text(vs) + rest) == prepend_toks(vertices_tokens(vs), lex(rest)),
    decreases vs.len(),
{
    if vs.len() == 1 {
        assert(vertices_text(vs) == vertex_text(vs[0]));
        lemma_lex_vertex(vs[0], rest);
        assert(vertices_tokens(vs.skip(1)).len() == 0);
        assert(vertex_tokens(vs[0]) + vertices_tokens(vs.skip(1)) =~= vertex_tokens(vs[0]));
    } else {
        let tail = seq![' '] + (vertices_text(vs.skip(1)) + rest);
        assert(vertices_text(vs) + rest =~= vertex_text(vs[0]) + tail);
        assert(tail[0] == ' ');
        lemma_lex_vertex(vs[0], tail);
        lemma_lex_ws(vertices_text(vs.skip(1)) + rest);
        lemma_lex_vertices(vs.skip(1), rest);
        lemma_pts_assoc(vertex_tokens(vs[0]), vertices_tokens(vs.skip(1)), lex(rest));
    }
}

/// A space-separated arc/edge list tokenizes to its concatenated
/// tokens.
proof fn lemma_lex_arcs(es: Seq<(VId, VId, ELabel)>, rest: Seq<char>)
    requires
        es.len() > 0,
        rest.len() > 0,
        !is_atom_char(rest[0]),
    ensures
        lex(arcs_text(es) + rest) == prepend_toks(arcs_tokens(es), lex(rest)),
    decreases es.len(),
{
    if es.len() == 1 {
        assert(arcs_text(es) == arc_text(es[0]));
        lemma_lex_arc(es[0], rest);
        assert(arcs_tokens(es.skip(1)).len() == 0);
        assert(arc_tokens(es[0]) + arcs_tokens(es.skip(1)) =~= arc_tokens(es[0]));
    } else {
        let tail = seq![' '] + (arcs_text(es.skip(1)) + rest);
        assert(arcs_text(es) + rest =~= arc_text(es[0]) + tail);
        assert(tail[0] == ' ');
        lemma_lex_arc(es[0], tail);
        lemma_lex_ws(arcs_text(es.skip(1)) + rest);
        lemma_lex_arcs(es.skip(1), rest);
        lemma_pts_assoc(arc_tokens(es[0]), arcs_tokens(es.skip(1)), lex(rest));
    }
}

/// A keyword atom tokenizes to its keyword token.
proof fn lemma_lex_kw(kw: Seq<char>, tok: Token, rest: Seq<char>)
    requires
        classify(kw) == Some(tok),
        kw.len() >= 1,
        forall|j: int| 0 <= j < kw.len() ==> is_atom_char(#[trigger] kw[j]),
        rest.len() == 0 || !is_atom_char(rest[0]),
    ensures
        lex(kw + rest) == prepend_tok(tok, lex(rest)),
{
    lemma_lex_atom(kw, rest);
}

/// The `(vertices ...)` clause tokenizes to its block tokens.
proof fn lemma_lex_vertices_block(vs: Seq<(VId, VLabel)>, rest: Seq<char>)
    requires
        rest.len() > 0,
        !is_atom_char(rest[0]),
    ensures
        lex(vertices_block(vs) + rest) == prepend_toks(vertices_block_tokens(vs), lex(rest)),
{
    if vs.len() == 0 {
        assert(vertices_block(vs) + rest =~= rest);
        match lex(rest) {
            Some(x) => {
                assert(Seq::<Token>::empty() + x =~= x);
            },
            None => {
            },
        }
    } else {
        let s4 = seq![')'] + rest;
        let s3 = vertices_text(vs) + s4;
        let s2 = seq![' '] + s3;
        let s1 = kw_vertices() + s2;
        let s0 = seq!['('] + s1;
        let sm = seq![' '] + s0;
        assert(vertices_block(vs) + rest =~= sm);
        lemma_lex_rpar(rest);
        assert(s4[0] == ')');
        lemma_lex_vertices(vs, s4);
        assert(s2[0] == ' ');
        lemma_lex_ws(s3);
        assert(classify(kw_vertices()) == Some(Token::KwVertices));
        lemma_lex_kw(kw_vertices(), Token::KwVertices, s2);
        lemma_lex_lpar(s1);
        lemma_lex_ws(s0);
        let r = lex(rest);
        assert(lex(sm) == prepend_tok(
            Token::LPar,
            prepend_tok(
                Token::KwVertices,
                prepend_toks(vertices_tokens(vs), prepend_tok(Token::RPar, r)),
            ),
        ));
        lemma_pt_single(Token::RPar, r);
        lemma_pts_assoc(vertices_tokens(vs), seq![Token::RPar], r);
        lemma_pt_single(
            Token::KwVertices,
            prepend_toks(vertices_tokens(vs) + seq![Token::RPar], r),
        );
        lemma_pts_assoc(seq![Token::KwVertices], vertices_tokens(vs) + seq![Token::RPar], r);
        lemma_pt_single(
            Token::LPar,
            prepend_toks(seq![Token::KwVertices] + (vertices_tokens(vs) + seq![Token::RPar]), r),
        );
        lemma_pts_assoc(
            seq![Token::LPar],
            seq![Token::KwVertices] + (vertices_tokens(vs) + seq![Token::RPar]),
            r,
        );
        assert(seq![Token::LPar] + (seq![Token::KwVertices] + (vertices_tokens(vs) + seq![
            Token::RPar,
        ])) =~= vertices_block_tokens(vs));
    }
}

/// The `(arcs ...)` or `(edges ...)` clause tokenizes to its block
/// tokens.
proof fn lemma_lex_arcs_block(es: Seq<(VId, VId, ELabel)>, edges: bool, rest: Seq<char>)
    requires
        rest.len() > 0,
        !is_atom_char(rest[0]),
    ensures
        !edges ==> lex(arcs_block(es) + rest) == prepend_toks(arcs_block_tokens(es), lex(rest)),
        edges ==> lex(edges_block(es) + rest) == prepend_toks(edges_block_tokens(es), lex(rest)),
{
    if es.len() == 0 {
        assert(arcs_block(es) + rest =~= rest);
        assert(edges_block(es) + rest =~= rest);
        match lex(rest) {
            Some(x) => {
                assert(Seq::<Token>::empty() + x =~= x);
            },
            None => {
            },
        }
    } else {
        let kw = if edges {
            kw_edges()
        } else {
            kw_arcs()
        };
        let tok = if edges {
            Token::KwEdges
        } else {
            Token::KwArcs
        };
        let s4 = seq![')'] + rest;
        let s3 = arcs_text(es) + s4;
        let s2 = seq![' '] + s3;
        let s1 = kw + s2;
        let s0 = seq!['('] + s1;
        let sm = seq![' '] + s0;
        if edges {
            assert(edges_block(es) + rest =~= sm);
        } else {
            assert(arcs_block(es) + rest =~= sm);
        }
        lemma_lex_rpar(rest);
        assert(s4[0] == ')');
        lemma_lex_arcs(es, s4);
        assert(s2[0] == ' ');
        lemma_lex_ws(s3);
        assert(classify(kw_arcs()) == Some(Token::KwArcs)) by {
            assert(kw_arcs() != kw_match());
            assert(kw_arcs() != kw_vertices());
        }
        assert(classify(kw_edges()) == Some(Token::KwEdges)) by {
            assert(kw_edges() != kw_match()) by {
                if kw_edges() == kw_match() {
                    assert(kw_edges()[0] == kw_match()[0]);
                }
            }
            assert(kw_edges() != kw_vertices());
            assert(kw_edges() != kw_arcs());
        }
        lemma_lex_kw(kw, tok, s2);
        lemma_lex_lpar(s1);
        lemma_lex_ws(s0);
        let r = lex(rest);
        assert(lex(sm) == prepend_tok(
            Token::LPar,
            prepend_tok(tok, prepend_toks(arcs_tokens(es), prepend_tok(Token::RPar, r))),
        ));
        lemma_pt_single(Token::RPar, r);
        lemma_pts_assoc(arcs_tokens(es), seq![Token::RPar], r);
        lemma_pt_single(tok, prepend_toks(arcs_tokens(es) + seq![Token::RPar], r));
        lemma_pts_assoc(seq![tok], arcs_tokens(es) + seq![Token::RPar], r);
        lemma_pt_single(
            Token::LPar,
            prepend_toks(seq![tok] + (arcs_tokens(es) + seq![Token::RPar]), r),
        );
        lemma_pts_assoc(seq![Token::LPar], seq![tok] + (arcs_tokens(es) + seq![Token::RPar]), r);
        if edges {
            assert(seq![Token::LPar] + (seq![tok] + (arcs_tokens(es) + seq![Token::RPar]))
                =~= edges_block_tokens(es));
        } else {
            assert(seq![Token::LPar] + (seq![tok] + (arcs_tokens(es) + seq![Token::RPar]))
                =~= arcs_block_tokens(es));
        }
    }
}

/// The re-emitted text of a pattern tokenizes to its query tokens.
pub proof fn lemma_lex_gisp(a: AstView)
    ensures
        lex(gisp_text(a)) == Some(query_tokens(a)),
{
    let r3 = seq![')'];
    let r2 = edges_block(a.edges) + r3;
    let r1 = arcs_block(a.arcs) + r2;
    let r0 = vertices_block(a.vertices) + r1;
    let s1 = kw_match() + r0;
    let s0 = seq!['('] + s1;
    assert(gisp_text(a) =~= s0);
    assert(lex(Seq::<char>::empty()) == Some(Seq::<Token>::empty()));
    assert(r3 =~= seq![')'] + Seq::<char>::empty());
    lemma_lex_rpar(Seq::<char>::empty());
    assert(lex(r3) == Some(seq![Token::RPar])) by {
        assert(seq![Token::RPar] + Seq::<Token>::empty() =~= seq![Token::RPar]);
    }
    assert(r3[0] == ')');
    lemma_lex_arcs_block(a.edges, true, r3);
    assert(r2.len() > 0 && !is_atom_char(r2[0])) by {
        if a.edges.len() == 0 {
            assert(r2 =~= r3);
        } else {
            assert(r2[0] == ' ');
        }
    }
    lemma_lex_arcs_block(a.arcs, false, r2);
    assert(r1.len() > 0 && !is_atom_char(r1[0])) by {
        if a.arcs.len() == 0 {
            assert(r1 =~= r2);
        } else {
            assert(r1[0] == ' ');
        }
    }
    lemma_lex_vertices_block(a.vertices, r1);
    assert(r0.len() > 0 && !is_atom_char(r0[0])) by {
        if a.vertices.len() == 0 {
            assert(r0 =~= r1);
        } else {
            assert(r0[0] == ' ');
        }
    }
    assert(classify(kw_match()) == Some(Token::KwMatch));
    lemma_lex_kw(kw_match(), Token::KwMatch, r0);
    lemma_lex_lpar(s1);
    let re = lex(r3);
    assert(lex(s0) == prepend_tok(
        Token::LPar,
        prepend_tok(
            Token::KwMatch,
            prepend_toks(
                vertices_block_tokens(a.vertices),
                prepend_toks(
                    arcs_block_tokens(a.arcs),
                    prepend_toks(edges_block_tokens(a.edges), Some(seq![Token::RPar])),
                ),
            ),
        ),
    ));
    let rp: Option<Seq<Token>> = Some(seq![Token::RPar]);
    lemma_pts_assoc(arcs_block_tokens(a.arcs), edges_block_tokens(a.edges), rp);
    lemma_pts_assoc(
        vertices_block_tokens(a.vertices),
        arcs_block_tokens(a.arcs) + edges_block_tokens(a.edges),
        rp,
    );
    lemma_pt_single(
        Token::KwMatch,
        prepend_toks(
            vertices_block_tokens(a.vertices) + (arcs_block_tokens(a.arcs) + edges_block_tokens(
                a.edges,
            )),
            rp,
        ),
    );
    lemma_pts_assoc(
        seq![Token::KwMatch],
        vertices_block_tokens(a.vertices) + (arcs_block_tokens(a.arcs) + edges_block_tokens(
            a.edges,
        )),
        rp,
    );
    lemma_pt_single(
        Token::LPar,
        prepend_toks(
            seq![Token::KwMatch] + (vertices_block_tokens(a.vertices) + (arcs_block_tokens(a.arcs)
                + edges_block_tokens(a.edges))),
            rp,
        ),
    );
    lemma_pts_assoc(
        seq![Token::LPar],
        seq![Token::KwMatch] + (vertices_block_tokens(a.vertices) + (arcs_block_tokens(a.arcs)
            + edges_block_tokens(a.edges))),
        rp,
    );
    assert((seq![Token::LPar] + (seq![Token::KwMatch] + (vertices_block_tokens(a.vertices) + (
    arcs_block_tokens(a.arcs) + edges_block_tokens(a.edges))))) + seq![Token::RPar]
        =~= query_tokens(a));
}

/// A vertex list has four tokens per vertex.
proof fn lemma_vertices_tokens_len(vs: Seq<(VId, VLabel)>)
    ensures
        vertices_tokens(vs).len() == 4 * vs.len(),
    decreases vs.len(),
{
    if vs.len() > 0 {
        lemma_vertices_tokens_len(vs.skip(1));
    }
}

/// An arc/edge list has five tokens per element.
proof fn lemma_arcs_tokens_len(es: Seq<(VId, VId, ELabel)>)
    ensures
        arcs_tokens(es).len() == 5 * es.len(),
    decreases es.len(),
{
    if es.len() > 0 {
        lemma_arcs_tokens_len(es.skip(1));
    }
}

/// Where a printed vertex list stands in a token sequence, the grammar
/// reads back exactly those vertices.
proof fn lemma_parse_vertex_list_tokens(t: Seq<Token>, i: int, vs: Seq<(VId, VLabel)>)
    requires
        0 <= i,
        i + vertices_tokens(vs).len() <= t.len(),
        t.subrange(i, i + vertices_tokens(vs).len() as int) == vertices_tokens(vs),
        i + vertices_tokens(vs).len() == t.len() || t[i + vertices_tokens(vs).len()]
            != Token::LPar,
    ensures
        crate::pattern_graph::parser::parse_vertex_list(t, i) == Some(
            (vs, i + vertices_tokens(vs).len() as int),
        ),
    decreases vs.len(),
{
    lemma_vertices_tokens_len(vs);
    if vs.len() == 0 {
        assert(vs =~= Seq::<(VId, VLabel)>::empty());
    } else {
        let sub = t.subrange(i, i + 4 * vs.len());
        assert(vertices_tokens(vs) == vertex_tokens(vs[0]) + vertices_tokens(vs.skip(1)));
        lemma_vertices_tokens_len(vs.skip(1));
        assert(t[i] == sub[0] && sub[0] == Token::LPar);
        assert(t[i + 1] == sub[1] && sub[1] == Token::URef(vs[0].0));
        assert(t[i + 2] == sub[2] && sub[2] == Token::Lit(vs[0].1));
        assert(t[i + 3] == sub[3] && sub[3] == Token::RPar);
        assert forall|k: int| 0 <= k < vertices_tokens(vs.skip(1)).len() implies t.subrange(
            i + 4,
            i + 4 + vertices_tokens(vs.skip(1)).len() as int,
        )[k] == vertices_tokens(vs.skip(1))[k] by {
            assert(sub[4 + k] == t[i + 4 + k]);
            assert(sub[4 + k] == vertices_tokens(vs)[4 + k]);
            assert(vertices_tokens(vs)[4 + k] == vertices_tokens(vs.skip(1))[k]);
        }
        assert(t.subrange(i + 4, i + 4 + vertices_tokens(vs.skip(1)).len() as int)
            =~= vertices_tokens(vs.skip(1)));
        lemma_parse_vertex_list_tokens(t, i + 4, vs.skip(1));
        assert(seq![(vs[0].0, vs[0].1)] + vs.skip(1) =~= vs);
    }
}

/// Where a printed arc/edge list stands in a token sequence, the
/// grammar reads back exactly those arcs/edges.
proof fn lemma_parse_arc_list_tokens(t: Seq<Token>, i: int, es: Seq<(VId, VId, ELabel)>)
    requires
        0 <= i,
        i + arcs_tokens(es).len() <= t.len(),
        t.subrange(i, i + arcs_tokens(es).len() as int) == arcs_tokens(es),
        i + arcs_tokens(es).len() == t.len() || t[i + arcs_tokens(es).len()] != Token::LPar,
    ensures
        crate::pattern_graph::parser::parse_arc_list(t, i) == Some(
            (es, i + arcs_tokens(es).len() as int),
        ),
    decreases es.len(),
{
    lemma_arcs_tokens_len(es);
    if es.len() == 0 {
        assert(es =~= Seq::<(VId, VId, ELabel)>::empty());
    } else {
        let sub = t.subrange(i, i + 5 * es.len());
        assert(arcs_tokens(es) == arc_tokens(es[0]) + arcs_tokens(es.skip(1)));
        lemma_arcs_tokens_len(es.skip(1));
        assert(t[i] == sub[0] && sub[0] == Token::LPar);
        assert(t[i + 1] == sub[1] && sub[1] == Token::URef(es[0].0));
        assert(t[i + 2] == sub[2] && sub[2] == Token::URef(es[0].1));
        assert(t[i + 3] == sub[3] && sub[3] == Token::Lit(es[0].2));
        assert(t[i + 4] == sub[4] && sub[4] == Token::RPar);
        assert forall|k: int| 0 <= k < arcs_tokens(es.skip(1)).len() implies t.subrange(
            i + 5,
            i + 5 + arcs_tokens(es.skip(1)).len() as int,
        )[k] == arcs_tokens(es.skip(1))[k] by {
            assert(sub[5 + k] == t[i + 5 + k]);
            assert(sub[5 + k] == arcs_tokens(es)[5 + k]);
            assert(arcs_tokens(es)[5 + k] == arcs_tokens(es.skip(1))[k]);
        }
        assert(t.subrange(i + 5, i + 5 + arcs_tokens(es.skip(1)).len() as int) =~= arcs_tokens(
            es.skip(1),
        ));
        lemma_parse_arc_list_tokens(t, i + 5, es.skip(1));
        assert(seq![(es[0].0, es[0].1, es[0].2)] + es.skip(1) =~= es);
    }
}

/// Where a printed vertices clause stands (possibly as nothing), the
/// grammar reads back exactly those vertices.
proof fn lemma_parse_vertices_block_tokens(t: Seq<Token>, i: int, vs: Seq<(VId, VLabel)>)
    requires
        0 <= i,
        i + vertices_block_tokens(vs).len() <= t.len(),
        t.subrange(i, i + vertices_block_tokens(vs).len() as int) == vertices_block_tokens(vs),
        vs.len() == 0 ==> (i + 2 > t.len() || t[i] != Token::LPar || t[i + 1]
            != Token::KwVertices),
    ensures
        crate::pattern_graph::parser::parse_vertices_block(t, i) == Some(
            (vs, i + vertices_block_tokens(vs).len() as int),
        ),
{
    if vs.len() == 0 {
        assert(vs =~= Seq::<(VId, VLabel)>::empty());
    } else {
        lemma_vertices_tokens_len(vs);
        let bl = vertices_block_tokens(vs).len() as int;
        let sub = t.subrange(i, i + bl);
        assert(t[i] == sub[0] && sub[0] == Token::LPar);
        assert(t[i + 1] == sub[1] && sub[1] == Token::KwVertices);
        assert(t[i + bl - 1] == sub[bl - 1] && sub[bl - 1] == Token::RPar);
        assert forall|k: int| 0 <= k < vertices_tokens(vs).len() implies t.subrange(
            i + 2,
            i + 2 + vertices_tokens(vs).len() as int,
        )[k] == vertices_tokens(vs)[k] by {
            assert(sub[2 + k] == t[i + 2 + k]);
            assert(sub[2 + k] == vertices_block_tokens(vs)[2 + k]);
            assert(vertices_block_tokens(vs)[2 + k] == vertices_tokens(vs)[k]);
        }
        assert(t.subrange(i + 2, i + 2 + vertices_tokens(vs).len() as int) =~= vertices_tokens(
            vs,
        ));
        lemma_parse_vertex_list_tokens(t, i + 2, vs);
    }
}

/// Where a printed arcs or edges clause stands (possibly as nothing),
/// the grammar reads back exactly those arcs/edges.
proof fn lemma_parse_arcs_block_tokens(
    t: Seq<Token>,
    i: int,
    es: Seq<(VId, VId, ELabel)>,
    edges: bool,
)
    requires
        0 <= i,
        ({
            let bt = if edges {
                edges_block_tokens(es)
            } else {
                arcs_block_tokens(es)
            };
            let kw = if edges {
                Token::KwEdges
            } else {
                Token::KwArcs
            };
            &&& i + bt.len() <= t.len()
            &&& t.subrange(i, i + bt.len() as int) == bt
            &&& (es.len() == 0 ==> (i + 2 > t.len() || t[i] != Token::LPar || t[i + 1] != kw))
        }),
    ensures
        ({
            let bt = if edges {
                edges_block_tokens(es)
            } else {
                arcs_block_tokens(es)
            };
            let r = if edges {
                crate::pattern_graph::parser::parse_edges_block(t, i)
            } else {
                crate::pattern_graph::parser::parse_arcs_block(t, i)
            };
            r == Some((es, i + bt.len() as int))
        }),
{
    if es.len() == 0 {
        assert(es =~= Seq::<(VId, VId, ELabel)>::empty());
    } else {
        lemma_arcs_tokens_len(es);
        let bt = if edges {
            edges_block_tokens(es)
        } else {
            arcs_block_tokens(es)
        };
        let bl = bt.len() as int;
        let sub = t.subrange(i, i + bl);
        assert(t[i] == sub[0] && sub[0] == Token::LPar);
        if edges {
            assert(t[i + 1] == sub[1] && sub[1] == Token::KwEdges);
        } else {
            assert(t[i + 1] == sub[1] && sub[1] == Token::KwArcs);
        }
        assert(t[i + bl - 1] == sub[bl - 1] && sub[bl - 1] == Token::RPar);
        assert forall|k: int| 0 <= k < arcs_tokens(es).len() implies t.subrange(
            i + 2,
            i + 2 + arcs_tokens(es).len() as int,
        )[k] == arcs_tokens(es)[k] by {
            assert(sub[2 + k] == t[i + 2 + k]);
            assert(sub[2 + k] == bt[2 + k]);
            assert(bt[2 + k] == arcs_tokens(es)[k]);
        }
        assert(t.subrange(i + 2, i + 2 + arcs_tokens(es).len() as int) =~= arcs_tokens(es));
        lemma_parse_arc_list_tokens(t, i + 2, es);
    }
}

/// The printed tokens of a pattern parse back to that pattern.
pub proof fn lemma_parse_query_tokens(a: AstView)
    requires
        a.constraint is None,
    ensures
        crate::pattern_graph::parser::parse_tokens(query_tokens(a)) == Some(a),
{
    let t = query_tokens(a);
    let vb = vertices_block_tokens(a.vertices);
    let ab = arcs_block_tokens(a.arcs);
    let eb = edges_block_tokens(a.edges);
    lemma_vertices_tokens_len(a.vertices);
    lemma_arcs_tokens_len(a.arcs);
    lemma_arcs_tokens_len(a.edges);
    assert(t.len() == 2 + vb.len() + ab.len() + eb.len() + 1);
    let i1 = 2 + vb.len() as int;
    let i2 = i1 + ab.len() as int;
    let i3 = i2 + eb.len() as int;
    assert(t[0] == Token::LPar);
    assert(t[1] == Token::KwMatch);
    assert(t[i3] == Token::RPar);
    assert(forall|k: int| 0 <= k < vb.len() ==> t[2 + k] == vb[k]);
    assert(forall|k: int| 0 <= k < ab.len() ==> t[i1 + k] == ab[k]);
    assert(forall|k: int| 0 <= k < eb.len() ==> t[i2 + k] == eb[k]);
    assert(t.subrange(2, i1) =~= vb);
    assert(t.subrange(i1, i2) =~= ab);
    assert(t.subrange(i2, i3) =~= eb);
    if a.vertices.len() == 0 {
        if a.arcs.len() > 0 {
            assert(t[3] == ab[1] && ab[1] == Token::KwArcs);
        } else if a.edges.len() > 0 {
            assert(t[3] == eb[1] && eb[1] == Token::KwEdges);
        } else {
            assert(t[2] == Token::RPar);
        }
    }
    lemma_parse_vertices_block_tokens(t, 2, a.vertices);
    if a.arcs.len() == 0 {
        if a.edges.len() > 0 {
            assert(t[i1 + 1] == eb[1] && eb[1] == Token::KwEdges);
        } else {
            assert(t[i1] == Token::RPar);
        }
    }
    lemma_parse_arcs_block_tokens(t, i1, a.arcs, false);
    if a.edges.len() == 0 {
        assert(t[i2] == Token::RPar);
    }
    lemma_parse_arcs_block_tokens(t, i2, a.edges, true);
    assert(i3 + 1 == t.len());
    assert(crate::pattern_graph::parser::parse_tokens(t) == Some(
        AstView { vertices: a.vertices, arcs: a.arcs, edges: a.edges, constraint: None },
    ));
    assert(AstView { vertices: a.vertices, arcs: a.arcs, edges: a.edges, constraint: None } == a);
}

/// Round trip: the re-emitted text of any pattern without a constraint
/// parses back to a structurally equal pattern.
pub proof fn lemma_round_trip(a: AstView)
    requires
        a.constraint is None,
    ensures
        parse_spec(gisp_text(a)) == Some(a),
{
    lemma_lex_gisp(a);
    lemma_parse_query_tokens(a);
}

} // verus!
