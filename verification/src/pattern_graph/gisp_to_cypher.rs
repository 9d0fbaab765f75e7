//! Export of a pattern to a Cypher `MATCH ... RETURN ...` statement.

use crate::pattern_graph::ast::Ast;
use crate::pattern_graph::ast::AstView;
use crate::pattern_graph::ast::GispError;
use crate::pattern_graph::ast::first_missing_endpoint;
use crate::pattern_graph::ast::lookup_vlabel;
use crate::pattern_graph::ast::spec_vlabel;
use crate::text::dec_int;
use crate::text::push_dec_i64;
use crate::types::ELabel;
use crate::types::VId;
use crate::types::VLabel;
use vstd::prelude::*;
use vstd::string::StringExecFns;

verus! {

/// The Cypher text of one arc:
/// ``(u<src>:`<vlabel(src)>`)-[:`<elabel>`]->(u<dst>:`<vlabel(dst)>`)``.
/// Unlike the Graphflow exporter, labels are back-quoted and the edge
/// label carries no offset; the two exporters' conventions differ on
/// purpose.
pub open spec fn cypher_arc_text(e: (VId, VId, ELabel), vs: Seq<(VId, VLabel)>) -> Seq<char> {
    seq!['(', 'u'] + dec_int(e.0 as int) + seq![':', '`'] + dec_int(spec_vlabel(vs, e.0) as int)
        + seq!['`', ')', '-', '[', ':', '`'] + dec_int(e.2 as int) + seq!['`', ']', '-', '>', '(', 'u']
        + dec_int(e.1 as int) + seq![':', '`'] + dec_int(spec_vlabel(vs, e.1) as int) + seq![
        '`',
        ')',
    ]
}

/// The Cypher arc clauses, joined by `", "`, in stored order.
pub open spec fn cypher_arcs_text(es: Seq<(VId, VId, ELabel)>, vs: Seq<(VId, VLabel)>) -> Seq<char>
    decreases es.len(),
{
    if es.len() == 0 {
        Seq::empty()
    } else if es.len() == 1 {
        cypher_arc_text(es[0], vs)
    } else {
        cypher_arc_text(es[0], vs) + seq![',', ' '] + cypher_arcs_text(es.skip(1), vs)
    }
}

/// The `RETURN` items, `ID(u<vid>)` per vertex, joined by `", "`, in
/// vertex-table order.
pub open spec fn cypher_return_text(vs: Seq<(VId, VLabel)>) -> Seq<char>
    decreases vs.len(),
{
    if vs.len() == 0 {
        Seq::empty()
    } else if vs.len() == 1 {
        seq!['I', 'D', '(', 'u'] + dec_int(vs[0].0 as int) + seq![')']
    } else {
        seq!['I', 'D', '(', 'u'] + dec_int(vs[0].0 as int) + seq![')', ',', ' ']
            + cypher_return_text(vs.skip(1))
    }
}

/// The full Cypher statement of a pattern.
pub open spec fn cypher_text(a: AstView) -> Seq<char> {
    seq!['M', 'A', 'T', 'C', 'H', ' '] + cypher_arcs_text(a.arcs, a.vertices) + seq![
        ' ',
        'R',
        'E',
        'T',
        'U',
        'R',
        'N',
        ' ',
    ] + cypher_return_text(a.vertices)
}

/// Exports a pattern as a Cypher `MATCH` statement over its arcs,
/// returning the node identity of every declared vertex. Fails with
/// the first arc endpoint that the vertex table does not declare.
#[verifier::loop_isolation(false)]
#[verifier::rlimit(60)]
pub fn gisp_to_cypher(ast: &Ast) -> (r: Result<String, GispError>)
    ensures
        match r {
            Ok(s) => first_missing_endpoint(ast@.arcs, ast@.vertices) is None && s@ == cypher_text(
                ast@,
            ),
            Err(e) => match first_missing_endpoint(ast@.arcs, ast@.vertices) {
                Some(v) => e == (GispError::MissingVertex { vid: v }),
                None => false,
            },
        },
{
    let ghost arcs = ast@.arcs;
    let ghost vs = ast@.vertices;
    let mut s = String::new();
    s.append("MATCH ");
    proof {
        reveal_strlit("MATCH ");
        assert(s@ =~= seq!['M', 'A', 'T', 'C', 'H', ' ']);
    }
    let ghost base = s@;
    let mut i: usize = 0;
    proof {
        assert(arcs.skip(0) =~= arcs);
    }
    while i < ast.arcs.len()
        invariant
            i <= arcs.len(),
            first_missing_endpoint(arcs, vs) == first_missing_endpoint(arcs.skip(i as int), vs),
            base + cypher_arcs_text(arcs, vs) =~= s@ + cypher_arcs_text(arcs.skip(i as int), vs),
        decreases arcs.len() - i,
    {
        let ghost rem = arcs.skip(i as int);
        proof {
            assert(rem[0] == arcs[i as int]);
            assert(rem.skip(1) =~= arcs.skip(i as int + 1));
        }
        let (src, dst, elabel) = ast.arcs[i];
        let src_label = match lookup_vlabel(&ast.vertices, src) {
            Some(l) => l,
            None => {
                return Err(GispError::MissingVertex { vid: src });
            },
        };
        let dst_label = match lookup_vlabel(&ast.vertices, dst) {
            Some(l) => l,
            None => {
                return Err(GispError::MissingVertex { vid: dst });
            },
        };
        let ghost pre = s@;
        s.append("(u");
        push_dec_i64(&mut s, src as i64);
        s.append(":`");
        push_dec_i64(&mut s, src_label as i64);
        s.append("`)-[:`");
        push_dec_i64(&mut s, elabel as i64);
        s.append("`]->(u");
        push_dec_i64(&mut s, dst as i64);
        s.append(":`");
        push_dec_i64(&mut s, dst_label as i64);
        s.append("`)");
        proof {
            reveal_strlit("(u");
            reveal_strlit(":`");
            reveal_strlit("`)-[:`");
            reveal_strlit("`]->(u");
            reveal_strlit("`)");
            assert(s@ =~= pre + cypher_arc_text(arcs[i as int], vs));
        }
        if i + 1 < ast.arcs.len() {
            s.append(", ");
            proof {
                reveal_strlit(", ");
                assert(cypher_arcs_text(rem, vs) =~= cypher_arc_text(arcs[i as int], vs) + seq![
                    ',',
                    ' ',
                ] + cypher_arcs_text(arcs.skip(i as int + 1), vs));
                assert(base + cypher_arcs_text(arcs, vs) =~= s@ + cypher_arcs_text(
                    arcs.skip(i as int + 1),
                    vs,
                ));
            }
        } else {
            proof {
                assert(rem.len() == 1);
                assert(cypher_arcs_text(rem, vs) =~= cypher_arc_text(arcs[i as int], vs));
                assert(arcs.skip(i as int + 1).len() == 0);
                assert(base + cypher_arcs_text(arcs, vs) =~= s@ + cypher_arcs_text(
                    arcs.skip(i as int + 1),
                    vs,
                ));
            }
        }
        i = i + 1;
    }
    proof {
        assert(arcs.skip(arcs.len() as int).len() == 0);
        assert(s@ =~= base + cypher_arcs_text(arcs, vs));
    }
    s.append(" RETURN ");
    proof {
        reveal_strlit(" RETURN ");
        assert(s@ =~= base + cypher_arcs_text(arcs, vs) + seq![
            ' ',
            'R',
            'E',
            'T',
            'U',
            'R',
            'N',
            ' ',
        ]);
    }
    let ghost base2 = s@;
    let mut i: usize = 0;
    proof {
        assert(vs.skip(0) =~= vs);
    }
    while i < ast.vertices.len()
        invariant
            i <= vs.len(),
            base2 + cypher_return_text(vs) =~= s@ + cypher_return_text(vs.skip(i as int)),
        decreases vs.len() - i,
    {
        let ghost rem = vs.skip(i as int);
        proof {
            assert(rem[0] == vs[i as int]);
            assert(rem.skip(1) =~= vs.skip(i as int + 1));
        }
        let (vid, _vlabel) = ast.vertices[i];
        let ghost pre = s@;
        s.append("ID(u");
        push_dec_i64(&mut s, vid as i64);
        if i + 1 < ast.vertices.len() {
            s.append("), ");
            proof {
                reveal_strlit("ID(u");
                reveal_strlit("), ");
                assert(s@ =~= pre + (seq!['I', 'D', '(', 'u'] + dec_int(vs[i as int].0 as int)
                    + seq![')', ',', ' ']));
                assert(cypher_return_text(rem) =~= seq!['I', 'D', '(', 'u'] + dec_int(
                    vs[i as int].0 as int,
                ) + seq![')', ',', ' '] + cypher_return_text(vs.skip(i as int + 1)));
                assert(base2 + cypher_return_text(vs) =~= s@ + cypher_return_text(
                    vs.skip(i as int + 1),
                ));
            }
        } else {
            s.append(")");
            proof {
                reveal_strlit("ID(u");
                reveal_strlit(")");
                assert(s@ =~= pre + (seq!['I', 'D', '(', 'u'] + dec_int(vs[i as int].0 as int)
                    + seq![')']));
                assert(rem.len() == 1);
                assert(cypher_return_text(rem) =~= seq!['I', 'D', '(', 'u'] + dec_int(
                    vs[i as int].0 as int,
                ) + seq![')']);
                assert(vs.skip(i as int + 1).len() == 0);
                assert(base2 + cypher_return_text(vs) =~= s@ + cypher_return_text(
                    vs.skip(i as int + 1),
                ));
            }
        }
        i = i + 1;
    }
    proof {
        assert(vs.skip(vs.len() as int).len() == 0);
        assert(s@ =~= base2 + cypher_return_text(vs));
        assert(s@ =~= cypher_text(ast@));
    }
    Ok(s)
}

} // verus!
