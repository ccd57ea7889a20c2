//! The filter AST: an immutable tree built by the parser and consumed by the
//! expression translator and the required-column collector.

use vstd::prelude::*;

verus! {

/// A filter AST node. The parser guarantees that every `Identifier` it puts
/// in a tree has passed identifier-syntax validation, that every
/// `Comparison` operator is one of the six comparison symbols, and that
/// every `LogicalOp` operator is `and` or `or`.
#[derive(Debug, PartialEq)]
pub enum AstNode {
    Comparison { left: Box<AstNode>, operator: String, right: Box<AstNode> },
    LogicalOp { operator: String, left: Box<AstNode>, right: Box<AstNode> },
    InClause { identifier: String, values: Vec<String> },
    Identifier(String),
    Literal(String),
}

/// The mathematical value of an `AstNode`: the same tree over `Seq<char>`.
pub enum AstV {
    Comparison { left: Box<AstV>, operator: Seq<char>, right: Box<AstV> },
    LogicalOp { operator: Seq<char>, left: Box<AstV>, right: Box<AstV> },
    InClause { identifier: Seq<char>, values: Seq<Seq<char>> },
    Identifier(Seq<char>),
    Literal(Seq<char>),
}

/// The views of a sequence of strings.
pub open spec fn strings_view(v: Seq<String>) -> Seq<Seq<char>> {
    v.map_values(|s: String| s@)
}

/// The view of an AST node, spelled out recursively.
pub open spec fn ast_view(a: AstNode) -> AstV
    decreases a,
{
    match a {
        AstNode::Comparison { left, operator, right } => AstV::Comparison {
            left: Box::new(ast_view(*left)),
            operator: operator@,
            right: Box::new(ast_view(*right)),
        },
        AstNode::LogicalOp { operator, left, right } => AstV::LogicalOp {
            operator: operator@,
            left: Box::new(ast_view(*left)),
            right: Box::new(ast_view(*right)),
        },
        AstNode::InClause { identifier, values } => AstV::InClause {
            identifier: identifier@,
            values: strings_view(values@),
        },
        AstNode::Identifier(s) => AstV::Identifier(s@),
        AstNode::Literal(s) => AstV::Literal(s@),
    }
}

/// Well-formedness of a parsed tree: every identifier is syntax-valid,
/// every comparison operator is one of the six comparison symbols, and
/// every logical operator is `and` or `or`. The parser only builds
/// well-formed trees, and translation cannot fail on one.
pub open spec fn wf_ast(a: AstV) -> bool
    decreases a,
{
    match a {
        AstV::Comparison { left, operator, right } => crate::token::is_symbol_op(operator)
            && wf_ast(*left) && wf_ast(*right),
        AstV::LogicalOp { operator, left, right } => (operator == "and"@ || operator == "or"@)
            && wf_ast(*left) && wf_ast(*right),
        AstV::InClause { identifier, values } => true,
        AstV::Identifier(s) => crate::text::valid_ident(s),
        AstV::Literal(_) => true,
    }
}

impl View for AstNode {
    type V = AstV;

    open spec fn view(&self) -> AstV {
        ast_view(*self)
    }
}

} // verus!
