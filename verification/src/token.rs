//! The lexer: turns the pre-split raw token strings of a query into typed
//! tokens. Classification is total; no input is ever rejected or dropped.

use vstd::prelude::*;
use vstd::string::StrSliceExecFns;
use vstd::string::StringExecFns;
use crate::text::{all_digits, is_all_digits, str_eq, trim_char, trim_spec};

verus! {

/// A typed query token.
#[derive(Debug, PartialEq)]
pub enum Token {
    Identifier(String),
    StringLiteral(String),
    NumberLiteral(String),
    Operator(String),
    Parenthesis(String),
    Comma,
}

/// The mathematical value of a `Token`: the same shape over `Seq<char>`.
pub enum TokenV {
    Identifier(Seq<char>),
    StringLiteral(Seq<char>),
    NumberLiteral(Seq<char>),
    Operator(Seq<char>),
    Parenthesis(Seq<char>),
    Comma,
}

impl View for Token {
    type V = TokenV;

    open spec fn view(&self) -> TokenV {
        match self {
            Token::Identifier(s) => TokenV::Identifier(s@),
            Token::StringLiteral(s) => TokenV::StringLiteral(s@),
            Token::NumberLiteral(s) => TokenV::NumberLiteral(s@),
            Token::Operator(s) => TokenV::Operator(s@),
            Token::Parenthesis(s) => TokenV::Parenthesis(s@),
            Token::Comma => TokenV::Comma,
        }
    }
}

/// The six comparison operator symbols.
pub open spec fn is_symbol_op(s: Seq<char>) -> bool {
    ||| s == "="@
    ||| s == "!="@
    ||| s == "<"@
    ||| s == ">"@
    ||| s == "<="@
    ||| s == ">="@
}

/// The keyword `AND`, in any letter case.
pub open spec fn is_kw_and(s: Seq<char>) -> bool {
    s.len() == 3
    && (s[0] == 'A' || s[0] == 'a')
    && (s[1] == 'N' || s[1] == 'n')
    && (s[2] == 'D' || s[2] == 'd')
}

/// The keyword `OR`, in any letter case.
pub open spec fn is_kw_or(s: Seq<char>) -> bool {
    s.len() == 2 && (s[0] == 'O' || s[0] == 'o') && (s[1] == 'R' || s[1] == 'r')
}

/// The keyword `IN`, in any letter case.
pub open spec fn is_kw_in(s: Seq<char>) -> bool {
    s.len() == 2 && (s[0] == 'I' || s[0] == 'i') && (s[1] == 'N' || s[1] == 'n')
}

/// How one raw token string is classified, in priority order: parenthesis,
/// operator (keywords upper-cased), comma, double-quoted string literal
/// (quotes stripped), all-digit number literal, and otherwise an identifier
/// (not yet validated; the parser does that).
pub open spec fn classify(t: Seq<char>) -> TokenV {
    if t == "("@ || t == ")"@ {
        TokenV::Parenthesis(t)
    } else if is_symbol_op(t) {
        TokenV::Operator(t)
    } else if is_kw_and(t) {
        TokenV::Operator("AND"@)
    } else if is_kw_or(t) {
        TokenV::Operator("OR"@)
    } else if is_kw_in(t) {
        TokenV::Operator("IN"@)
    } else if t == ","@ {
        TokenV::Comma
    } else if t.len() >= 1 && t[0] == '"' && t[t.len() - 1] == '"' {
        TokenV::StringLiteral(trim_spec(t, '"'))
    } else if all_digits(t) {
        TokenV::NumberLiteral(t)
    } else {
        TokenV::Identifier(t)
    }
}

fn classify_token(t: &String) -> (r: Token)
    ensures
        r@ == classify(t@),
{
    if str_eq(t.as_str(), "(") || str_eq(t.as_str(), ")") {
        return Token::Parenthesis(t.clone());
    }
    if str_eq(t.as_str(), "=") || str_eq(t.as_str(), "!=") || str_eq(t.as_str(), "<")
        || str_eq(t.as_str(), ">") || str_eq(t.as_str(), "<=") || str_eq(t.as_str(), ">=") {
        return Token::Operator(t.clone());
    }
    let n: usize = t.as_str().unicode_len();
    if n == 3 {
        let c0 = t.as_str().get_char(0);
        let c1 = t.as_str().get_char(1);
        let c2 = t.as_str().get_char(2);
        if (c0 == 'A' || c0 == 'a') && (c1 == 'N' || c1 == 'n') && (c2 == 'D' || c2 == 'd') {
            return Token::Operator(String::from_str("AND"));
        }
    }
    if n == 2 {
        let c0 = t.as_str().get_char(0);
        let c1 = t.as_str().get_char(1);
        if (c0 == 'O' || c0 == 'o') && (c1 == 'R' || c1 == 'r') {
            return Token::Operator(String::from_str("OR"));
        }
        if (c0 == 'I' || c0 == 'i') && (c1 == 'N' || c1 == 'n') {
            return Token::Operator(String::from_str("IN"));
        }
    }
    if str_eq(t.as_str(), ",") {
        return Token::Comma;
    }
    if n >= 1 && t.as_str().get_char(0) == '"' && t.as_str().get_char(n - 1) == '"' {
        let stripped = trim_char(t.as_str(), '"');
        return Token::StringLiteral(String::from_str(stripped));
    }
    if is_all_digits(t.as_str()) {
        return Token::NumberLiteral(t.clone());
    }
    Token::Identifier(t.clone())
}

/// The lexer. Total: every raw token yields exactly one typed token, in
/// order, classified by `classify`.
pub fn tokenize(tokens: &Vec<String>) -> (r: Vec<Token>)
    ensures
        r@.len() == tokens@.len(),
        forall|i: int| 0 <= i < tokens@.len() ==> #[trigger] r@[i]@ == classify(tokens@[i]@),
{
    let mut result: Vec<Token> = Vec::new();
    let mut i: usize = 0;
    while i < tokens.len()
        invariant
            i <= tokens@.len(),
            result@.len() == i,
            forall|j: int| 0 <= j < i ==> #[trigger] result@[j]@ == classify(tokens@[j]@),
        decreases tokens@.len() - i,
    {
        let tok = classify_token(&tokens[i]);
        result.push(tok);
        i += 1;
    }
    result
}

} // verus!
