//! Export of a pattern's arcs to the Graphflow query-pattern syntax.

use crate::pattern_graph::ast::Ast;
use crate::pattern_graph::ast::GispError;
use crate::pattern_graph::ast::first_missing_endpoint;
use crate::pattern_graph::ast::lookup_vlabel;
use crate::pattern_graph::ast::spec_vlabel;
use crate::text::dec_int;
use crate::text::push_dec_i64;
use crate::types::ELabel;
use crate::types::VId;
use crate::types::VLabel;
use vstd::prelude::*;
use vstd::string::StringExecFns;

verus! {

/// The Graphflow text of one arc:
/// `(u<src>:<vlabel(src)>)-[<elabel+1>]->(u<dst>:<vlabel(dst)>)`.
/// The `+1` offset is a fixed convention of the target engine's label
/// space, where label `0` is reserved.
pub open spec fn graphflow_arc_text(e: (VId, VId, ELabel), vs: Seq<(VId, VLabel)>) -> Seq<char> {
    seq!['(', 'u'] + dec_int(e.0 as int) + seq![':'] + dec_int(spec_vlabel(vs, e.0) as int) + seq![
        ')',
        '-',
        '[',
    ] + dec_int(e.2 as int + 1) + seq![']', '-', '>', '(', 'u'] + dec_int(e.1 as int) + seq![':']
        + dec_int(spec_vlabel(vs, e.1) as int) + seq![')']
}

/// The comma-joined Graphflow texts of the arcs, in stored order.
pub open spec fn graphflow_text(es: Seq<(VId, VId, ELabel)>, vs: Seq<(VId, VLabel)>) -> Seq<char>
    decreases es.len(),
{
    if es.len() == 0 {
        Seq::empty()
    } else if es.len() == 1 {
        graphflow_arc_text(es[0], vs)
    } else {
        graphflow_arc_text(es[0], vs) + seq![','] + graphflow_text(es.skip(1), vs)
    }
}

/// Exports a pattern's arcs as a Graphflow query pattern: the arc
/// clauses comma-joined, the empty string for a pattern without arcs.
/// Fails with the first arc endpoint that the vertex table does not
/// declare.
#[verifier::loop_isolation(false)]
pub fn gisp_to_graphflow(ast: &Ast) -> (r: Result<String, GispError>)
    ensures
        match r {
            Ok(s) => first_missing_endpoint(ast@.arcs, ast@.vertices) is None && s@
                == graphflow_text(ast@.arcs, ast@.vertices),
            Err(e) => match first_missing_endpoint(ast@.arcs, ast@.vertices) {
                Some(v) => e == (GispError::MissingVertex { vid: v }),
                None => false,
            },
        },
{
    let ghost arcs = ast@.arcs;
    let ghost vs = ast@.vertices;
    let mut s = String::new();
    let mut i: usize = 0;
    proof {
        assert(arcs.skip(0) =~= arcs);
    }
    while i < ast.arcs.len()
        invariant
            i <= arcs.len(),
            first_missing_endpoint(arcs, vs) == first_missing_endpoint(arcs.skip(i as int), vs),
            graphflow_text(arcs, vs) =~= s@ + graphflow_text(arcs.skip(i as int), vs),
        decreases arcs.len() - i,
    {
        let ghost rem = arcs.skip(i as int);
        proof {
            assert(rem[0] == arcs[i as int]);
            assert(rem.skip(1) =~= arcs.skip(i as int + 1));
        }
        let (src, dst, elabel) = ast.arcs[i];
        let src_label = match lookup_vlabel(&ast.vertices, src) {
            Some(l) => l,
            None => {
                return Err(GispError::MissingVertex { vid: src });
            },
        };
        let dst_label = match lookup_vlabel(&ast.vertices, dst) {
            Some(l) => l,
            None => {
                return Err(GispError::MissingVertex { vid: dst });
            },
        };
        let ghost pre = s@;
        s.append("(u");
        push_dec_i64(&mut s, src as i64);
        s.append(":");
        push_dec_i64(&mut s, src_label as i64);
        s.append(")-[");
        push_dec_i64(&mut s, elabel as i64 + 1);
        s.append("]->(u");
        push_dec_i64(&mut s, dst as i64);
        s.append(":");
        push_dec_i64(&mut s, dst_label as i64);
        s.append(")");
        proof {
            reveal_strlit("(u");
            reveal_strlit(":");
            reveal_strlit(")-[");
            reveal_strlit("]->(u");
            reveal_strlit(")");
            assert(s@ =~= pre + graphflow_arc_text(arcs[i as int], vs));
        }
        if i + 1 < ast.arcs.len() {
            s.append(",");
            proof {
                reveal_strlit(",");
                assert(graphflow_text(rem, vs) =~= graphflow_arc_text(arcs[i as int], vs) + seq![
                    ',',
                ] + graphflow_text(arcs.skip(i as int + 1), vs));
                assert(graphflow_text(arcs, vs) =~= s@ + graphflow_text(
                    arcs.skip(i as int + 1),
                    vs,
                ));
            }
        } else {
            proof {
                assert(rem.len() == 1);
                assert(graphflow_text(rem, vs) =~= graphflow_arc_text(arcs[i as int], vs));
                assert(arcs.skip(i as int + 1).len() == 0);
                assert(graphflow_text(arcs, vs) =~= s@ + graphflow_text(
                    arcs.skip(i as int + 1),
                    vs,
                ));
            }
        }
        i = i + 1;
    }
    proof {
        assert(arcs.skip(arcs.len() as int).len() == 0);
        assert(s@ =~= graphflow_text(arcs, vs));
    }
    Ok(s)
}

} // verus!
