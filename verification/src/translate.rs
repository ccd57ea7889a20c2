//! The expression translator: renders a filter AST into the target tabular
//! engine's boolean-expression syntax. Pure; fails only on a tree the
//! parser could not have built (see `lemma_wf_ast_translates`).

use vstd::prelude::*;
use vstd::string::StringExecFns;
use crate::ast::{strings_view, wf_ast, AstNode, AstV};
use crate::text::{is_valid_identifier, str_eq, valid_ident};
use crate::token::is_symbol_op;

verus! {

/// A translation error: an internal contract violation between parser and
/// translator. A query fails outright on it.
#[derive(Debug, PartialEq)]
pub enum TranslateError {
    /// A comparison operator outside the six known symbols.
    UnknownOperator(String),
    /// An identifier node that fails the identifier syntax rule.
    InvalidIdentifier(String),
}

/// The mathematical value of a `TranslateError`.
pub enum TranslateErrorV {
    UnknownOperator(Seq<char>),
    InvalidIdentifier(Seq<char>),
}

impl View for TranslateError {
    type V = TranslateErrorV;

    open spec fn view(&self) -> TranslateErrorV {
        match self {
            TranslateError::UnknownOperator(s) => TranslateErrorV::UnknownOperator(s@),
            TranslateError::InvalidIdentifier(s) => TranslateErrorV::InvalidIdentifier(s@),
        }
    }
}

/// How a comparison operator is written in the target language: `=` becomes
/// `==`, the rest pass through.
pub open spec fn render_op(op: Seq<char>) -> Seq<char> {
    if op == "="@ {
        "=="@
    } else {
        op
    }
}

/// The values of an `IN` list, joined with a comma and a space.
pub open spec fn join_comma(vs: Seq<Seq<char>>) -> Seq<char>
    decreases vs.len(),
{
    if vs.len() == 0 {
        Seq::empty()
    } else if vs.len() == 1 {
        vs[0]
    } else {
        vs[0] + ", "@ + join_comma(vs.skip(1))
    }
}

proof fn lemma_join_comma_snoc(vs: Seq<Seq<char>>, v: Seq<char>)
    ensures
        vs.len() == 0 ==> join_comma(vs.push(v)) == v,
        vs.len() > 0 ==> join_comma(vs.push(v)) == join_comma(vs) + ", "@ + v,
    decreases vs.len(),
{
    let p = vs.push(v);
    if vs.len() == 0 {
        assert(join_comma(p) == p[0]);
    } else if vs.len() == 1 {
        assert(p.skip(1) =~= Seq::empty().push(v));
        lemma_join_comma_snoc(Seq::empty(), v);
        assert(join_comma(p) == vs[0] + ", "@ + v);
        assert(join_comma(vs) + ", "@ + v =~= vs[0] + ", "@ + v);
    } else {
        lemma_join_comma_snoc(vs.skip(1), v);
        assert(p.skip(1) =~= vs.skip(1).push(v));
        assert(join_comma(p) == p[0] + ", "@ + (join_comma(vs.skip(1)) + ", "@ + v));
        assert(join_comma(vs) + ", "@ + v =~= p[0] + ", "@ + (join_comma(vs.skip(1)) + ", "@ + v));
    }
}

/// Whether the left operand of a comparison is exactly the reserved
/// identifier `ident`.
pub open spec fn left_is_ident(left: AstV, ident: Seq<char>) -> bool {
    left matches AstV::Identifier(s) && s == ident
}

/// What translation yields, node by node. A comparison renders its two
/// sides first (either can reject an invalid identifier), then rejects an
/// unknown operator; a left operand `earliest` or `latest` turns the whole
/// comparison into an inclusive bound on the timestamp column, ignoring the
/// declared operator.
pub open spec fn spec_translate(a: AstV, ts_col: Seq<char>) -> Result<Seq<char>, TranslateErrorV>
    decreases a,
{
    match a {
        AstV::Comparison { left, operator, right } => match spec_translate(*left, ts_col) {
            Err(e) => Err(e),
            Ok(l) => match spec_translate(*right, ts_col) {
                Err(e) => Err(e),
                Ok(r) => if !is_symbol_op(operator) {
                    Err(TranslateErrorV::UnknownOperator(operator))
                } else if left_is_ident(*left, "earliest"@) {
                    Ok("("@ + ts_col + " >= "@ + r + ")"@)
                } else if left_is_ident(*left, "latest"@) {
                    Ok("("@ + ts_col + " <= "@ + r + ")"@)
                } else {
                    Ok("("@ + l + " "@ + render_op(operator) + " "@ + r + ")"@)
                },
            },
        },
        AstV::LogicalOp { operator, left, right } => match spec_translate(*left, ts_col) {
            Err(e) => Err(e),
            Ok(l) => match spec_translate(*right, ts_col) {
                Err(e) => Err(e),
                Ok(r) => Ok("("@ + l + " "@ + operator + " "@ + r + ")"@),
            },
        },
        AstV::InClause { identifier, values } => Ok(
            "("@ + identifier + " in ["@ + join_comma(values) + "])"@,
        ),
        AstV::Identifier(s) => if valid_ident(s) {
            Ok(s)
        } else {
            Err(TranslateErrorV::InvalidIdentifier(s))
        },
        AstV::Literal(v) => Ok(v),
    }
}

/// Translation is total on the trees the parser builds: a well-formed tree
/// never meets an unknown operator or an invalid identifier.
pub proof fn lemma_wf_ast_translates(a: AstV, ts_col: Seq<char>)
    ensures
        wf_ast(a) ==> spec_translate(a, ts_col) is Ok,
    decreases a,
{
    match a {
        AstV::Comparison { left, operator, right } => {
            lemma_wf_ast_translates(*left, ts_col);
            lemma_wf_ast_translates(*right, ts_col);
        },
        AstV::LogicalOp { operator, left, right } => {
            lemma_wf_ast_translates(*left, ts_col);
            lemma_wf_ast_translates(*right, ts_col);
        },
        _ => {},
    }
}

fn join_values(values: &Vec<String>) -> (r: String)
    ensures
        r@ == join_comma(strings_view(values@)),
{
    let ghost vs = strings_view(values@);
    let mut out = String::new();
    let mut i: usize = 0;
    proof {
        assert(vs.take(0) =~= Seq::<Seq<char>>::empty());
    }
    while i < values.len()
        invariant
            i <= values@.len(),
            vs == strings_view(values@),
            vs.len() == values@.len(),
            out@ == join_comma(vs.take(i as int)),
        decreases values@.len() - i,
    {
        proof {
            lemma_join_comma_snoc(vs.take(i as int), vs[i as int]);
            assert(vs.take(i + 1) =~= vs.take(i as int).push(vs[i as int]));
        }
        if i > 0 {
            out.append(", ");
        }
        out.append(values[i].as_str());
        proof {
            assert(out@ == join_comma(vs.take(i + 1)));
        }
        i += 1;
    }
    proof {
        assert(vs.take(values@.len() as int) =~= vs);
    }
    out
}

/// Renders `ast` as a filter expression over named columns, rewriting the
/// reserved bounds `earliest`/`latest` onto `timestamp_col`. Returns
/// exactly what `spec_translate` says, result or error.
pub fn ast_to_query(ast: &AstNode, timestamp_col: &str) -> (r: Result<String, TranslateError>)
    ensures
        match spec_translate(ast@, timestamp_col@) {
            Ok(s) => r matches Ok(q) && q@ == s,
            Err(e) => r matches Err(te) && te@ == e,
        },
    decreases *ast,
{
    match ast {
        AstNode::Comparison { left, operator, right } => {
            let l = match ast_to_query(left, timestamp_col) {
                Ok(s) => s,
                Err(e) => {
                    return Err(e);
                },
            };
            let rr = match ast_to_query(right, timestamp_col) {
                Ok(s) => s,
                Err(e) => {
                    return Err(e);
                },
            };
            let symbol = str_eq(operator.as_str(), "=") || str_eq(operator.as_str(), "!=")
                || str_eq(operator.as_str(), "<") || str_eq(operator.as_str(), ">")
                || str_eq(operator.as_str(), "<=") || str_eq(operator.as_str(), ">=");
            if !symbol {
                return Err(TranslateError::UnknownOperator(operator.clone()));
            }
            let mut bound: u8 = 0;
            match &**left {
                AstNode::Identifier(id) => {
                    if str_eq(id.as_str(), "earliest") {
                        bound = 1;
                    } else if str_eq(id.as_str(), "latest") {
                        bound = 2;
                    }
                },
                _ => {},
            }
            if bound == 1 {
                let mut out = String::from_str("(");
                out.append(timestamp_col);
                out.append(" >= ");
                out.append(rr.as_str());
                out.append(")");
                return Ok(out);
            }
            if bound == 2 {
                let mut out = String::from_str("(");
                out.append(timestamp_col);
                out.append(" <= ");
                out.append(rr.as_str());
                out.append(")");
                return Ok(out);
            }
            let mut out = String::from_str("(");
            out.append(l.as_str());
            out.append(" ");
            if str_eq(operator.as_str(), "=") {
                out.append("==");
            } else {
                out.append(operator.as_str());
            }
            out.append(" ");
            out.append(rr.as_str());
            out.append(")");
            Ok(out)
        },
        AstNode::LogicalOp { operator, left, right } => {
            let l = match ast_to_query(left, timestamp_col) {
                Ok(s) => s,
                Err(e) => {
                    return Err(e);
                },
            };
            let rr = match ast_to_query(right, timestamp_col) {
                Ok(s) => s,
                Err(e) => {
                    return Err(e);
                },
            };
            let mut out = String::from_str("(");
            out.append(l.as_str());
            out.append(" ");
            out.append(operator.as_str());
            out.append(" ");
            out.append(rr.as_str());
            out.append(")");
            Ok(out)
        },
        AstNode::InClause { identifier, values } => {
            let mut out = String::from_str("(");
            out.append(identifier.as_str());
            out.append(" in [");
            let joined = join_values(values);
            out.append(joined.as_str());
            out.append("])");
            Ok(out)
        },
        AstNode::Identifier(s) => {
            if is_valid_identifier(s.as_str()) {
                Ok(s.clone())
            } else {
                Err(TranslateError::InvalidIdentifier(s.clone()))
            }
        },
        AstNode::Literal(v) => Ok(v.clone()),
    }
}

} // verus!
