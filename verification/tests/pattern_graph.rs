use opgm_tools::pattern_graph::StarPolicy;
use opgm_tools::pattern_graph::ast::Ast;
use opgm_tools::pattern_graph::ast::GispError;
use opgm_tools::pattern_graph::gisp_to_cypher;
use opgm_tools::pattern_graph::gisp_to_gisp;
use opgm_tools::pattern_graph::gisp_to_graphflow;
use opgm_tools::pattern_graph::gisp_to_star;
use opgm_tools::pattern_graph::parse;
use opgm_tools::pattern_graph::relabel;
use opgm_tools::pattern_graph::remove_star;
use opgm_tools::pattern_graph::star_ast;
use opgm_tools::pattern_graph::star_documents;

#[test]
fn test_triangle() {
    assert_eq!(
        parse(
            "\
(match (vertices (u1 1) (u2 2) (u3 3))
       (arcs (u1 u2 12) (u1 u3 13))
       (edges (u2 u3 23)))"
        ),
        Ok(Ast::new(
            vec![(1, 1), (2, 2), (3, 3)],
            vec![(1, 2, 12), (1, 3, 13)],
            vec![(2, 3, 23)],
            None
        ))
    );
}

#[test]
fn test_gisp_to_graphflow() {
    assert_eq!(
        gisp_to_graphflow(
            &parse("(match (vertices (u1 1) (u2 2) (u3 3)) (arcs (u1 u2 12) (u1 u3 13)))")
                .unwrap()
        )
        .unwrap(),
        "(u1:1)-[13]->(u2:2),(u1:1)-[14]->(u3:3)"
    );
}

#[test]
fn test_gisp_to_cypher() {
    assert_eq!(
        gisp_to_cypher(
            &parse("(match (vertices (u1 1) (u2 2) (u3 3)) (arcs (u1 u2 12) (u1 u3 13)))")
                .unwrap()
        )
        .unwrap(),
        "MATCH (u1:`1`)-[:`12`]->(u2:`2`), (u1:`1`)-[:`13`]->(u3:`3`) RETURN ID(u1), ID(u2), ID(u3)"
    );
}

#[test]
fn test_to_text_round_trip() {
    let ast = parse(
        "(match (vertices (u1 1) (u2 2) (u3 3)) (arcs (u1 u2 12) (u1 u3 13)) (edges (u2 u3 23)))",
    )
    .unwrap();
    let text = ast.to_text();
    assert_eq!(
        text,
        "(match (vertices (u1 1) (u2 2) (u3 3)) (arcs (u1 u2 12) (u1 u3 13)) (edges (u2 u3 23)))"
    );
    assert_eq!(parse(&text), Ok(ast));
}

#[test]
fn test_round_trip_negative_ids() {
    let ast = Ast::new(
        vec![(-5, -1), (0, 32767), (2147483647, -32768)],
        vec![(-5, 0, -7)],
        vec![(0, 2147483647, 23)],
        None,
    );
    let text = ast.to_text();
    assert_eq!(parse(&text), Ok(ast));
}

#[test]
fn test_round_trip_empty() {
    let ast = Ast::new(vec![], vec![], vec![], None);
    let text = ast.to_text();
    assert_eq!(text, "(match)");
    assert_eq!(parse(&text), Ok(ast));
}

#[test]
fn test_parse_whitespace_and_blocks_omitted() {
    let ast = parse("(match\n\t (arcs (u1 u2 3)) )").unwrap();
    assert_eq!(ast.vertices(), &[]);
    assert_eq!(ast.arcs(), &[(1, 2, 3)]);
    assert_eq!(ast.edges(), &[]);
    assert!(ast.constraint().is_none());
}

#[test]
fn test_parse_errors() {
    assert!(matches!(parse("(match"), Err(GispError::Syntax { .. })));
    assert!(matches!(parse(""), Err(GispError::Syntax { .. })));
    assert!(matches!(
        parse("(match (vertices (ux 1)))"),
        Err(GispError::Syntax { .. })
    ));
    assert!(matches!(
        parse("(match (vertices (u1 99999)))"),
        Err(GispError::Syntax { .. })
    ));
    assert!(matches!(
        parse("(match (vertices (u1 1)) extra)"),
        Err(GispError::Syntax { .. })
    ));
    // A where clause is recognized by the grammar but unsupported.
    assert!(matches!(
        parse("(match (vertices (u1 1)) (where x))"),
        Err(GispError::Syntax { .. })
    ));
    assert!(matches!(
        parse("(match (vertices (u1 1)) (where 5))"),
        Err(GispError::Syntax { .. })
    ));
}

#[test]
fn test_parse_out_of_order_blocks_rejected() {
    assert!(matches!(
        parse("(match (arcs (u1 u2 3)) (vertices (u1 1)))"),
        Err(GispError::Syntax { .. })
    ));
}

#[test]
fn test_graphflow_missing_vertex() {
    let ast = parse("(match (vertices (u1 1)) (arcs (u1 u2 3)))").unwrap();
    assert_eq!(
        gisp_to_graphflow(&ast),
        Err(GispError::MissingVertex { vid: 2 })
    );
    assert_eq!(gisp_to_cypher(&ast), Err(GispError::MissingVertex { vid: 2 }));
}

#[test]
fn test_graphflow_duplicate_vertex_last_wins() {
    let ast = parse("(match (vertices (u1 1) (u1 2)) (arcs (u1 u1 3)))").unwrap();
    assert_eq!(gisp_to_graphflow(&ast).unwrap(), "(u1:2)-[4]->(u1:2)");
}

#[test]
fn test_graphflow_largest_label_offset() {
    // The +1 offset is applied to the label value, not to its 16-bit
    // representation: the largest label prints as 32768.
    let ast = parse("(match (vertices (u1 1) (u2 2)) (arcs (u1 u2 32767)))").unwrap();
    assert_eq!(gisp_to_graphflow(&ast).unwrap(), "(u1:1)-[32768]->(u2:2)");
}

#[test]
fn test_graphflow_empty_arcs() {
    let ast = parse("(match (vertices (u1 1)))").unwrap();
    assert_eq!(gisp_to_graphflow(&ast).unwrap(), "");
}

#[test]
fn test_relabel_range_and_topology() {
    let ast = parse(
        "(match (vertices (u1 1) (u2 2) (u3 3)) (arcs (u1 u2 12) (u1 u3 13)) (edges (u2 u3 23)))",
    )
    .unwrap();
    let out = relabel(&ast, 5, 7).unwrap();
    assert_eq!(out.vertices().len(), 3);
    assert_eq!(out.arcs().len(), 2);
    assert_eq!(out.edges().len(), 1);
    for (i, &(vid, vlabel)) in out.vertices().iter().enumerate() {
        assert_eq!(vid, ast.vertices()[i].0);
        assert!((0..5).contains(&vlabel));
    }
    for (i, &(src, dst, elabel)) in out.arcs().iter().enumerate() {
        assert_eq!((src, dst), (ast.arcs()[i].0, ast.arcs()[i].1));
        assert!((0..7).contains(&elabel));
    }
    for (i, &(src, dst, elabel)) in out.edges().iter().enumerate() {
        assert_eq!((src, dst), (ast.edges()[i].0, ast.edges()[i].1));
        assert!((0..7).contains(&elabel));
    }
}

#[test]
fn test_relabel_deterministic() {
    let ast = parse(
        "(match (vertices (u1 1) (u2 2) (u3 3)) (arcs (u1 u2 12) (u1 u3 13)) (edges (u2 u3 23)))",
    )
    .unwrap();
    let a = gisp_to_gisp(&ast, 10, 20);
    let b = gisp_to_gisp(&ast, 10, 20);
    assert_eq!(a, b);
    assert_eq!(relabel(&ast, 10, 20).unwrap(), relabel(&ast, 10, 20).unwrap());
}

#[test]
fn test_relabel_single_label() {
    let ast = parse(
        "(match (vertices (u1 1) (u2 2) (u3 3)) (arcs (u1 u2 12) (u1 u3 13)) (edges (u2 u3 23)))",
    )
    .unwrap();
    let out = relabel(&ast, 1, 1).unwrap();
    assert!(out.vertices().iter().all(|&(_, l)| l == 0));
    assert!(out.arcs().iter().all(|&(_, _, l)| l == 0));
    assert!(out.edges().iter().all(|&(_, _, l)| l == 0));
    assert_eq!(
        gisp_to_gisp(&ast, 1, 1),
        "(match (vertices (u1 0) (u2 0) (u3 0)) (arcs (u1 u2 0) (u1 u3 0)) (edges (u2 u3 0)))"
    );
}

#[test]
fn test_relabel_empty_range() {
    let ast = parse("(match (vertices (u1 1)))").unwrap();
    assert_eq!(relabel(&ast, 0, 5), Err(GispError::EmptyRange));
    assert_eq!(relabel(&ast, 5, 0), Err(GispError::EmptyRange));
    assert_eq!(relabel(&ast, 40000, 5), Err(GispError::EmptyRange));
}

#[test]
fn test_star_full_root_one() {
    let ast = parse(
        "(match (vertices (u1 1) (u2 2) (u3 3)) (arcs (u1 u2 12) (u1 u3 13)) (edges (u2 u3 23)))",
    )
    .unwrap();
    let star = star_ast(&ast, 1);
    assert_eq!(star.vertices(), &[(1, 1), (2, 2), (3, 3)]);
    assert_eq!(star.arcs(), &[(1, 2, 12), (1, 3, 13)]);
    assert_eq!(star.edges(), &[]);
    assert_eq!(
        gisp_to_star(&ast, 1),
        "(match (vertices (u1 1) (u2 2) (u3 3)) (arcs (u1 u2 12) (u1 u3 13)))"
    );
}

#[test]
fn test_star_absent_root() {
    let ast = parse("(match (vertices (u1 1) (u2 2)) (arcs (u1 u2 12)))").unwrap();
    assert_eq!(gisp_to_star(&ast, 9), "(match)");
}

#[test]
fn test_star_consuming_roots_in_order() {
    let ast = parse(
        "(match (vertices (u1 1) (u2 2) (u3 3)) (arcs (u1 u2 12) (u2 u3 23)) (edges (u1 u3 13)))",
    )
    .unwrap();
    let docs = star_documents(&ast, &vec![1, 2], StarPolicy::Consuming);
    assert_eq!(docs.len(), 2);
    // The arc between roots 1 and 2 goes to root 1 and no longer to root 2.
    assert_eq!(
        docs[0],
        "(match (vertices (u1 1) (u2 2) (u3 3)) (arcs (u1 u2 12)) (edges (u1 u3 13)))"
    );
    assert_eq!(
        docs[1],
        "(match (vertices (u2 2) (u3 3)) (arcs (u2 u3 23)))"
    );
    // Under the full policy the shared arc appears in both stars.
    let full = star_documents(&ast, &vec![1, 2], StarPolicy::Full);
    assert_eq!(
        full[0],
        "(match (vertices (u1 1) (u2 2) (u3 3)) (arcs (u1 u2 12)) (edges (u1 u3 13)))"
    );
    assert_eq!(
        full[1],
        "(match (vertices (u1 1) (u2 2) (u3 3)) (arcs (u1 u2 12) (u2 u3 23)))"
    );
}

#[test]
fn test_star_repeated_root_consuming() {
    let ast = parse("(match (vertices (u1 1) (u2 2)) (arcs (u1 u2 12)))").unwrap();
    let docs = star_documents(&ast, &vec![1, 1], StarPolicy::Consuming);
    assert_eq!(docs[0], "(match (vertices (u1 1) (u2 2)) (arcs (u1 u2 12)))");
    assert_eq!(docs[1], "(match)");
}

#[test]
fn test_remove_star_keeps_vertices() {
    let ast = parse("(match (vertices (u1 1) (u2 2)) (arcs (u1 u2 12)))").unwrap();
    let rest = remove_star(&ast, 1);
    assert_eq!(rest.vertices(), &[(1, 1), (2, 2)]);
    assert_eq!(rest.arcs(), &[]);
    assert_eq!(rest.edges(), &[]);
}
