//! The query planner: splits the raw token stream into index patterns and
//! filter tokens, drives lexer, parser, translator and column collector,
//! and assembles the plan handed to the external tabular engine. A parse
//! failure degrades to "no filter": the query still runs, unfiltered, over
//! all discovered files.

use vstd::prelude::*;
use crate::ast::{strings_view, AstNode};
use crate::columns::{get_required_columns, spec_collect};
use crate::parser::{spec_parse_expression, lemma_expression_props, Parser};
use crate::resolve::clean_pattern_spec;
use crate::resolve::clean_pattern_token;
use crate::text::str_eq;
use crate::token::{classify, tokenize, Token, TokenV};
use crate::translate::{ast_to_query, lemma_wf_ast_translates, spec_translate};

verus! {

/// How raw tokens divide: every `index` `=` `<value>` triple becomes an
/// index pattern (cleaned); every other token, a bare `index` included,
/// passes in order into the filter stream.
pub open spec fn spec_split(ts: Seq<Seq<char>>) -> (Seq<Seq<char>>, Seq<Seq<char>>)
    decreases ts.len(),
{
    if ts.len() == 0 {
        (Seq::<Seq<char>>::empty(), Seq::<Seq<char>>::empty())
    } else if ts[0] == "index"@ && ts.len() >= 3 && ts[1] == "="@ {
        let rest = spec_split(ts.skip(3));
        (seq![clean_pattern_spec(ts[2])] + rest.0, rest.1)
    } else {
        let rest = spec_split(ts.skip(1));
        (rest.0, seq![ts[0]] + rest.1)
    }
}

/// Splits the raw tokens of one query into index patterns and filter
/// tokens.
pub fn split_index_tokens(tokens: &Vec<String>) -> (r: (Vec<String>, Vec<String>))
    ensures
        strings_view(r.0@) == spec_split(strings_view(tokens@)).0,
        strings_view(r.1@) == spec_split(strings_view(tokens@)).1,
{
    let ghost ts = strings_view(tokens@);
    let mut patterns: Vec<String> = Vec::new();
    let mut filters: Vec<String> = Vec::new();
    let mut i: usize = 0;
    proof {
        assert(ts.skip(0) =~= ts);
        assert(strings_view(patterns@) + spec_split(ts).0 =~= spec_split(ts).0);
        assert(strings_view(filters@) + spec_split(ts).1 =~= spec_split(ts).1);
    }
    while i < tokens.len()
        invariant
            i <= tokens@.len(),
            ts == strings_view(tokens@),
            ts.len() == tokens@.len(),
            spec_split(ts).0 == strings_view(patterns@) + spec_split(ts.skip(i as int)).0,
            spec_split(ts).1 == strings_view(filters@) + spec_split(ts.skip(i as int)).1,
        decreases tokens@.len() - i,
    {
        let ghost rem = ts.skip(i as int);
        proof {
            assert(rem[0] == ts[i as int]);
        }
        let mut is_index_triple = false;
        if str_eq(tokens[i].as_str(), "index") && tokens.len() - i > 2 {
            proof {
                assert(rem[1] == ts[i + 1]);
                assert(rem[2] == ts[i + 2]);
            }
            if str_eq(tokens[i + 1].as_str(), "=") {
                is_index_triple = true;
            }
        }
        if is_index_triple {
            let cleaned = clean_pattern_token(tokens[i + 2].as_str());
            let ghost prev = strings_view(patterns@);
            patterns.push(cleaned);
            proof {
                assert(rem.skip(3) =~= ts.skip(i + 3));
                assert(strings_view(patterns@) =~= prev.push(clean_pattern_spec(ts[i + 2])));
                assert(prev.push(clean_pattern_spec(ts[i + 2])) + spec_split(ts.skip(i + 3)).0
                    =~= prev + (seq![clean_pattern_spec(ts[i + 2])] + spec_split(ts.skip(i + 3)).0));
            }
            i += 3;
        } else {
            let ghost prev = strings_view(filters@);
            filters.push(tokens[i].clone());
            proof {
                assert(rem.skip(1) =~= ts.skip(i + 1));
                assert(strings_view(filters@) =~= prev.push(ts[i as int]));
                assert(prev.push(ts[i as int]) + spec_split(ts.skip(i + 1)).1 =~= prev + (seq![
                    ts[i as int],
                ] + spec_split(ts.skip(i + 1)).1));
            }
            i += 1;
        }
    }
    proof {
        assert(ts.skip(ts.len() as int) =~= Seq::<Seq<char>>::empty());
        assert(strings_view(patterns@) + spec_split(ts.skip(ts.len() as int)).0 =~= strings_view(
            patterns@,
        ));
        assert(strings_view(filters@) + spec_split(ts.skip(ts.len() as int)).1 =~= strings_view(
            filters@,
        ));
    }
    (patterns, filters)
}

/// The filter tokens of a query, lexed: what the parser consumes.
pub open spec fn lexed_filter(ts: Seq<Seq<char>>) -> Seq<TokenV> {
    spec_split(ts).1.map_values(|t: Seq<char>| classify(t))
}

/// An assembled query plan: the index patterns to resolve, the filter AST
/// if one parsed, its rendering for the tabular engine, and the column
/// projection it needs (empty means all columns).
pub struct QueryPlan {
    pub patterns: Vec<String>,
    pub ast: Option<AstNode>,
    pub filter_expression: Option<String>,
    pub required_columns: Vec<String>,
}

/// What `build_plan` promises of its result, over the raw token views:
/// the patterns are exactly the extracted `index` triples; if the filter
/// tokens parse, the plan holds that tree, its translation (which cannot
/// fail on a parsed tree) and its collected columns; if they do not, the
/// plan holds no filter and no columns.
pub open spec fn plan_matches(plan: QueryPlan, ts: Seq<Seq<char>>) -> bool {
    &&& strings_view(plan.patterns@) == spec_split(ts).0
    &&& match spec_parse_expression(lexed_filter(ts)) {
        Ok(p) => {
            &&& (plan.ast matches Some(a) && a@ == p.0)
            &&& (spec_translate(p.0, "timestamp"@) matches Ok(s) && (plan.filter_expression
                matches Some(q) && q@ == s))
            &&& strings_view(plan.required_columns@) == spec_collect(
                p.0,
                Seq::<Seq<char>>::empty(),
            )
        },
        Err(_) => {
            &&& plan.ast is None
            &&& plan.filter_expression is None
            &&& strings_view(plan.required_columns@) == Seq::<Seq<char>>::empty()
        },
    }
}

/// Builds the plan for one query from its raw tokens.
pub fn build_plan(tokens: &Vec<String>) -> (plan: QueryPlan)
    ensures
        plan_matches(plan, strings_view(tokens@)),
{
    let ghost ts = strings_view(tokens@);
    let (patterns, filter_tokens) = split_index_tokens(tokens);
    let lexed = tokenize(&filter_tokens);
    let mut parser = Parser::new(lexed);
    proof {
        assert(parser.remaining() =~= lexed_filter(ts));
    }
    let parsed = parser.parse_expression();
    match parsed {
        Ok(ast) => {
            proof {
                lemma_expression_props(lexed_filter(ts));
                lemma_wf_ast_translates(ast@, "timestamp"@);
            }
            let filter_expression = match ast_to_query(&ast, "timestamp") {
                Ok(q) => Some(q),
                Err(_) => None,
            };
            let ast_opt = Some(ast);
            let required_columns = get_required_columns(&ast_opt);
            QueryPlan { patterns, ast: ast_opt, filter_expression, required_columns }
        },
        Err(_) => {
            let required_columns: Vec<String> = Vec::new();
            proof {
                assert(strings_view(required_columns@) =~= Seq::<Seq<char>>::empty());
            }
            QueryPlan { patterns, ast: None, filter_expression: None, required_columns }
        },
    }
}

/// How the per-file results of a plan combine: none loaded yields an
/// explicitly empty result, one is returned unchanged, several are
/// concatenated in file order.
#[derive(Debug, PartialEq, Eq, Structural)]
pub enum MergeAction {
    EmptyResult,
    SingleFile,
    ConcatAll,
}

pub fn merge_action(file_count: usize) -> (r: MergeAction)
    ensures
        file_count == 0 ==> r == MergeAction::EmptyResult,
        file_count == 1 ==> r == MergeAction::SingleFile,
        file_count >= 2 ==> r == MergeAction::ConcatAll,
{
    if file_count == 0 {
        MergeAction::EmptyResult
    } else if file_count == 1 {
        MergeAction::SingleFile
    } else {
        MergeAction::ConcatAll
    }
}

} // verus!
