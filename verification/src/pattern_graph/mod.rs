//! The gisp pattern-graph subsystem: grammar and parser, the abstract
//! syntax tree, the textual re-emitter, the exporters, the seeded
//! relabeling transform and the star decomposition.

pub use ast::Ast;
pub use ast::AstView;
pub use ast::Expr;
pub use ast::GispError;

pub use gisp_to_cypher::gisp_to_cypher;
pub use gisp_to_gisp::gisp_to_gisp;
pub use gisp_to_gisp::relabel;
pub use gisp_to_graphflow::gisp_to_graphflow;
pub use parser::parse;
pub use star::StarPolicy;
pub use star::gisp_to_star;
pub use star::remove_star;
pub use star::star_ast;
pub use star::star_documents;

pub mod ast;
pub mod gisp_to_cypher;
pub mod gisp_to_gisp;
pub mod gisp_to_graphflow;
pub mod parser;
pub mod round_trip;
pub mod star;
