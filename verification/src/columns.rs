//! The required-column collector: walks a filter AST depth-first,
//! left-to-right, and gathers the columns the filter reads, in first-seen
//! order, without duplicates. A comparison whose left operand is the
//! reserved `earliest` or `latest` contributes the timestamp column
//! instead, mirroring the translator's rewrite.

use vstd::prelude::*;
use vstd::string::StringExecFns;
use crate::ast::{strings_view, AstNode, AstV};
use crate::text::str_eq;

verus! {

/// `name`, appended only if not already present.
pub open spec fn add_column(cols: Seq<Seq<char>>, name: Seq<char>) -> Seq<Seq<char>> {
    if cols.contains(name) {
        cols
    } else {
        cols.push(name)
    }
}

/// What a comparison's left operand contributes: its identifier name, or
/// `timestamp` for the reserved bounds; literals contribute nothing.
pub open spec fn left_column(left: AstV, cols: Seq<Seq<char>>) -> Seq<Seq<char>> {
    match left {
        AstV::Identifier(name) => if name != "earliest"@ && name != "latest"@ {
            add_column(cols, name)
        } else {
            add_column(cols, "timestamp"@)
        },
        _ => cols,
    }
}

/// The collected columns, node by node. A comparison contributes for its
/// left operand and then recurses into its right side only; a logical
/// operator recurses into both sides; an `IN` clause contributes its
/// identifier; bare identifiers and literals contribute nothing.
pub open spec fn spec_collect(a: AstV, cols: Seq<Seq<char>>) -> Seq<Seq<char>>
    decreases a,
{
    match a {
        AstV::Comparison { left, operator, right } => spec_collect(
            *right,
            left_column(*left, cols),
        ),
        AstV::LogicalOp { operator, left, right } => spec_collect(*right, spec_collect(*left, cols)),
        AstV::InClause { identifier, values } => add_column(cols, identifier),
        _ => cols,
    }
}

fn contains_name(cols: &Vec<String>, name: &str) -> (r: bool)
    ensures
        r == strings_view(cols@).contains(name@),
{
    let ghost vs = strings_view(cols@);
    let mut i: usize = 0;
    while i < cols.len()
        invariant
            i <= cols@.len(),
            vs == strings_view(cols@),
            vs.len() == cols@.len(),
            forall|j: int| 0 <= j < i ==> vs[j] != name@,
        decreases cols@.len() - i,
    {
        if str_eq(cols[i].as_str(), name) {
            proof {
                assert(vs[i as int] == name@);
            }
            return true;
        }
        i += 1;
    }
    false
}

/// Appends the columns of `ast` to `columns`, each at most once.
pub fn collect_identifiers(ast: &AstNode, columns: &mut Vec<String>)
    ensures
        strings_view(final(columns)@) == spec_collect(ast@, strings_view(old(columns)@)),
    decreases *ast,
{
    let ghost cols0 = strings_view(columns@);
    match ast {
        AstNode::Comparison { left, operator, right } => {
            match &**left {
                AstNode::Identifier(name) => {
                    if !str_eq(name.as_str(), "earliest") && !str_eq(name.as_str(), "latest") {
                        if !contains_name(columns, name.as_str()) {
                            let ghost prev = strings_view(columns@);
                            columns.push(name.clone());
                            proof {
                                assert(strings_view(columns@) =~= prev.push(name@));
                            }
                        }
                    } else {
                        if !contains_name(columns, "timestamp") {
                            let ghost prev = strings_view(columns@);
                            columns.push(String::from_str("timestamp"));
                            proof {
                                assert(strings_view(columns@) =~= prev.push("timestamp"@));
                            }
                        }
                    }
                },
                _ => {},
            }
            proof {
                assert(strings_view(columns@) == left_column(left@, cols0));
            }
            collect_identifiers(right, columns);
        },
        AstNode::LogicalOp { operator, left, right } => {
            collect_identifiers(left, columns);
            collect_identifiers(right, columns);
        },
        AstNode::InClause { identifier, values } => {
            if !contains_name(columns, identifier.as_str()) {
                let ghost prev = strings_view(columns@);
                columns.push(identifier.clone());
                proof {
                    assert(strings_view(columns@) =~= prev.push(identifier@));
                }
            }
        },
        AstNode::Identifier(_) => {},
        AstNode::Literal(_) => {},
    }
}

/// The minimal column projection for a filter: empty when there is no
/// filter, meaning "load all columns".
pub fn get_required_columns(ast: &Option<AstNode>) -> (r: Vec<String>)
    ensures
        match ast {
            Some(a) => strings_view(r@) == spec_collect(a@, Seq::<Seq<char>>::empty()),
            None => strings_view(r@) == Seq::<Seq<char>>::empty(),
        },
{
    let mut columns: Vec<String> = Vec::new();
    proof {
        assert(strings_view(columns@) =~= Seq::<Seq<char>>::empty());
    }
    match ast {
        Some(a) => collect_identifiers(a, &mut columns),
        None => {},
    }
    columns
}

/// No comparison in the tree bounds the timestamp: no left operand is the
/// reserved `earliest` or `latest`.
pub open spec fn no_timestamp_bounds(a: AstV) -> bool
    decreases a,
{
    match a {
        AstV::Comparison { left, operator, right } => !(*left matches AstV::Identifier(n) && (n
            == "earliest"@ || n == "latest"@)) && no_timestamp_bounds(*right),
        AstV::LogicalOp { operator, left, right } => no_timestamp_bounds(*left)
            && no_timestamp_bounds(*right),
        _ => true,
    }
}

/// Whether `name` appears in the tree as a comparison's left-operand
/// identifier or as an `IN` clause's identifier.
pub open spec fn is_left_identifier(a: AstV, name: Seq<char>) -> bool
    decreases a,
{
    match a {
        AstV::Comparison { left, operator, right } => (*left matches AstV::Identifier(n) && n
            == name) || is_left_identifier(*right, name),
        AstV::LogicalOp { operator, left, right } => is_left_identifier(*left, name)
            || is_left_identifier(*right, name),
        AstV::InClause { identifier, values } => identifier == name,
        _ => false,
    }
}

proof fn lemma_push_contains<A>(s: Seq<A>, v: A)
    ensures
        forall|x: A| #[trigger] s.push(v).contains(x) <==> s.contains(x) || x == v,
{
    assert forall|x: A| #[trigger] s.push(v).contains(x) implies s.contains(x) || x == v by {
        let i = choose|i: int| 0 <= i < s.push(v).len() && s.push(v)[i] == x;
        if i < s.len() {
            assert(s[i] == x);
        }
    };
    assert forall|x: A| s.contains(x) || x == v implies #[trigger] s.push(v).contains(x) by {
        if s.contains(x) {
            let i = choose|i: int| 0 <= i < s.len() && s[i] == x;
            assert(s.push(v)[i] == x);
        } else {
            assert(s.push(v)[s.len() as int] == x);
        }
    };
}

proof fn lemma_add_column_contains(cols: Seq<Seq<char>>, n: Seq<char>)
    ensures
        forall|x: Seq<char>| #[trigger] add_column(cols, n).contains(x) <==> cols.contains(x) || x
            == n,
{
    if !cols.contains(n) {
        lemma_push_contains(cols, n);
    }
}

proof fn lemma_collect_contains(a: AstV, cols: Seq<Seq<char>>)
    requires
        no_timestamp_bounds(a),
    ensures
        forall|x: Seq<char>| #[trigger] spec_collect(a, cols).contains(x) <==> cols.contains(x)
            || is_left_identifier(a, x),
    decreases a,
{
    match a {
        AstV::Comparison { left, operator, right } => {
            match *left {
                AstV::Identifier(n) => {
                    lemma_add_column_contains(cols, n);
                },
                _ => {},
            }
            lemma_collect_contains(*right, left_column(*left, cols));
            assert forall|x: Seq<char>|
                #[trigger] spec_collect(a, cols).contains(x) <==> cols.contains(x)
                    || is_left_identifier(a, x) by {
                assert(spec_collect(a, cols) == spec_collect(*right, left_column(*left, cols)));
                assert(spec_collect(*right, left_column(*left, cols)).contains(x)
                    <==> left_column(*left, cols).contains(x) || is_left_identifier(*right, x));
            };
        },
        AstV::LogicalOp { operator, left, right } => {
            lemma_collect_contains(*left, cols);
            lemma_collect_contains(*right, spec_collect(*left, cols));
            assert forall|x: Seq<char>|
                #[trigger] spec_collect(a, cols).contains(x) <==> cols.contains(x)
                    || is_left_identifier(a, x) by {
                assert(spec_collect(a, cols) == spec_collect(*right, spec_collect(*left, cols)));
                assert(spec_collect(*right, spec_collect(*left, cols)).contains(x)
                    <==> spec_collect(*left, cols).contains(x) || is_left_identifier(*right, x));
                assert(spec_collect(*left, cols).contains(x) <==> cols.contains(x)
                    || is_left_identifier(*left, x));
            };
        },
        AstV::InClause { identifier, values } => {
            lemma_add_column_contains(cols, identifier);
        },
        _ => {},
    }
}

/// For a tree that uses no timestamp bound, the collected columns are, as
/// a set, exactly the identifiers standing as a comparison's left operand
/// or as an `IN` clause's subject — independent of traversal order and of
/// how often a name occurs.
pub proof fn lemma_collected_columns_are_left_identifiers(a: AstV)
    requires
        no_timestamp_bounds(a),
    ensures
        spec_collect(a, Seq::<Seq<char>>::empty()).to_set() == Set::new(
            |name: Seq<char>| is_left_identifier(a, name),
        ),
{
    lemma_collect_contains(a, Seq::<Seq<char>>::empty());
    assert(spec_collect(a, Seq::<Seq<char>>::empty()).to_set() =~= Set::new(
        |name: Seq<char>| is_left_identifier(a, name),
    ));
}

proof fn lemma_add_column_no_duplicates(cols: Seq<Seq<char>>, n: Seq<char>)
    requires
        cols.no_duplicates(),
    ensures
        add_column(cols, n).no_duplicates(),
{
    if !cols.contains(n) {
        assert forall|i: int, j: int|
            0 <= i < j < cols.push(n).len() implies cols.push(n)[i] != cols.push(n)[j] by {
            if j == cols.len() {
                assert(cols[i] == cols.push(n)[i]);
            }
        };
    }
}

/// The collector never records a column twice.
pub proof fn lemma_collected_columns_unique(a: AstV, cols: Seq<Seq<char>>)
    requires
        cols.no_duplicates(),
    ensures
        spec_collect(a, cols).no_duplicates(),
    decreases a,
{
    match a {
        AstV::Comparison { left, operator, right } => {
            match *left {
                AstV::Identifier(n) => {
                    if n != "earliest"@ && n != "latest"@ {
                        lemma_add_column_no_duplicates(cols, n);
                    } else {
                        lemma_add_column_no_duplicates(cols, "timestamp"@);
                    }
                },
                _ => {},
            }
            lemma_collected_columns_unique(*right, left_column(*left, cols));
        },
        AstV::LogicalOp { operator, left, right } => {
            lemma_collected_columns_unique(*left, cols);
            lemma_collected_columns_unique(*right, spec_collect(*left, cols));
        },
        AstV::InClause { identifier, values } => {
            lemma_add_column_no_duplicates(cols, identifier);
        },
        _ => {},
    }
}

} // verus!
