//! The recursive-descent parser. The grammar, lowest to highest binding
//! strength, left-associative:
//!
//! ```text
//! expr       := or_expr
//! or_expr    := and_expr ( "OR" and_expr )*
//! and_expr   := comparison ( ("AND" comparison) | comparison )*
//! comparison := "(" expr ")"
//!             | operand ( cmpOp operand | "IN" "(" in_list ")" )?
//! operand    := Identifier | StringLiteral | NumberLiteral
//! in_list    := (StringLiteral | NumberLiteral) ("," ...)*
//! ```
//!
//! Juxtaposed comparisons combine with an implicit `and`. The meaning of
//! every parsing method is given by the `spec_parse_*` functions, which walk
//! the same grammar over token views; on any error parsing aborts with no
//! partial tree.

use vstd::prelude::*;
use vstd::string::StringExecFns;
use crate::ast::{wf_ast, AstNode, AstV};
use crate::text::{is_valid_identifier, quote_string_literal, quoted_literal, str_eq, valid_ident};
use crate::token::{is_symbol_op, Token, TokenV};

verus! {

/// A parse error. Each variant names the condition that aborted the parse;
/// payloads carry the offending text or token.
#[derive(Debug, PartialEq)]
pub enum ParseError {
    /// A parenthesized expression is not closed by `)`.
    ExpectedCloseParen,
    /// `IN` is not followed by `(`.
    ExpectedOpenAfterIn,
    /// The left operand of `IN` is not an identifier.
    ExpectedIdentifierBeforeIn,
    /// A token inside an `IN` list is not a literal, comma or `)`.
    UnexpectedTokenInInClause(Token),
    /// The input ends inside an `IN` list.
    UnexpectedEndInInClause,
    /// An identifier operand fails the identifier syntax rule.
    InvalidIdentifier(String),
    /// A token that cannot start an operand.
    UnexpectedToken(Token),
    /// The input ends where an operand is required.
    UnexpectedEndOfInput,
}

/// The mathematical value of a `ParseError`.
pub enum ParseErrorV {
    ExpectedCloseParen,
    ExpectedOpenAfterIn,
    ExpectedIdentifierBeforeIn,
    UnexpectedTokenInInClause(TokenV),
    UnexpectedEndInInClause,
    InvalidIdentifier(Seq<char>),
    UnexpectedToken(TokenV),
    UnexpectedEndOfInput,
}

impl View for ParseError {
    type V = ParseErrorV;

    open spec fn view(&self) -> ParseErrorV {
        match self {
            ParseError::ExpectedCloseParen => ParseErrorV::ExpectedCloseParen,
            ParseError::ExpectedOpenAfterIn => ParseErrorV::ExpectedOpenAfterIn,
            ParseError::ExpectedIdentifierBeforeIn => ParseErrorV::ExpectedIdentifierBeforeIn,
            ParseError::UnexpectedTokenInInClause(t) => ParseErrorV::UnexpectedTokenInInClause(t@),
            ParseError::UnexpectedEndInInClause => ParseErrorV::UnexpectedEndInInClause,
            ParseError::InvalidIdentifier(s) => ParseErrorV::InvalidIdentifier(s@),
            ParseError::UnexpectedToken(t) => ParseErrorV::UnexpectedToken(t@),
            ParseError::UnexpectedEndOfInput => ParseErrorV::UnexpectedEndOfInput,
        }
    }
}

impl Clone for Token {
    fn clone(&self) -> (r: Token)
        ensures
            r@ == self@,
    {
        match self {
            Token::Identifier(s) => Token::Identifier(s.clone()),
            Token::StringLiteral(s) => Token::StringLiteral(s.clone()),
            Token::NumberLiteral(s) => Token::NumberLiteral(s.clone()),
            Token::Operator(s) => Token::Operator(s.clone()),
            Token::Parenthesis(s) => Token::Parenthesis(s.clone()),
            Token::Comma => Token::Comma,
        }
    }
}

/// What one step of the grammar yields: a node and the unconsumed suffix,
/// or the error that aborted the parse.
pub type SpecParsed = Result<(AstV, Seq<TokenV>), ParseErrorV>;

/// An operand: a syntax-validated identifier, or a literal. String
/// literals are single-quoted and escaped here; numbers pass through raw.
pub open spec fn spec_parse_operand(ts: Seq<TokenV>) -> SpecParsed {
    if ts.len() == 0 {
        Err(ParseErrorV::UnexpectedEndOfInput)
    } else {
        match ts[0] {
            TokenV::Identifier(name) => if valid_ident(name) {
                Ok((AstV::Identifier(name), ts.skip(1)))
            } else {
                Err(ParseErrorV::InvalidIdentifier(name))
            },
            TokenV::StringLiteral(s) => Ok((AstV::Literal(quoted_literal(s)), ts.skip(1))),
            TokenV::NumberLiteral(n) => Ok((AstV::Literal(n), ts.skip(1))),
            _ => Err(ParseErrorV::UnexpectedToken(ts[0])),
        }
    }
}

/// The comma-separated literals of an `IN` list, up to the closing `)`.
pub open spec fn spec_parse_in_list(ts: Seq<TokenV>, acc: Seq<Seq<char>>) -> Result<
    (Seq<Seq<char>>, Seq<TokenV>),
    ParseErrorV,
>
    decreases ts.len(),
{
    if ts.len() == 0 {
        Err(ParseErrorV::UnexpectedEndInInClause)
    } else {
        match ts[0] {
            TokenV::StringLiteral(s) => spec_parse_in_list(ts.skip(1), acc.push(quoted_literal(s))),
            TokenV::NumberLiteral(n) => spec_parse_in_list(ts.skip(1), acc.push(n)),
            TokenV::Comma => spec_parse_in_list(ts.skip(1), acc),
            TokenV::Parenthesis(p) => if p == ")"@ {
                Ok((acc, ts.skip(1)))
            } else {
                Err(ParseErrorV::UnexpectedTokenInInClause(ts[0]))
            },
            _ => Err(ParseErrorV::UnexpectedTokenInInClause(ts[0])),
        }
    }
}

pub open spec fn is_open_paren(t: TokenV) -> bool {
    t matches TokenV::Parenthesis(p) && p == "("@
}

pub open spec fn is_close_paren(t: TokenV) -> bool {
    t matches TokenV::Parenthesis(p) && p == ")"@
}

pub open spec fn is_operator(t: TokenV, op: Seq<char>) -> bool {
    t matches TokenV::Operator(o) && o == op
}

/// A comparison: a parenthesized subexpression, an `IN` clause, a binary
/// comparison, or a bare operand.
pub open spec fn spec_parse_comparison(ts: Seq<TokenV>) -> SpecParsed
    decreases ts.len(), 1int,
{
    if ts.len() > 0 && is_open_paren(ts[0]) {
        match spec_parse_expression(ts.skip(1)) {
            Err(e) => Err(e),
            Ok((node, rest)) => if rest.len() > 0 && is_close_paren(rest[0]) {
                Ok((node, rest.skip(1)))
            } else {
                Err(ParseErrorV::ExpectedCloseParen)
            },
        }
    } else {
        match spec_parse_operand(ts) {
            Err(e) => Err(e),
            Ok((left, rest)) => if rest.len() == 0 {
                Ok((left, rest))
            } else {
                match rest[0] {
                    TokenV::Operator(op) => if op == "IN"@ {
                        match left {
                            AstV::Identifier(ident) => {
                                let rest2 = rest.skip(1);
                                if rest2.len() > 0 && is_open_paren(rest2[0]) {
                                    match spec_parse_in_list(rest2.skip(1), Seq::empty()) {
                                        Err(e) => Err(e),
                                        Ok((values, rest3)) => Ok(
                                            (AstV::InClause { identifier: ident, values }, rest3),
                                        ),
                                    }
                                } else {
                                    Err(ParseErrorV::ExpectedOpenAfterIn)
                                }
                            },
                            _ => Err(ParseErrorV::ExpectedIdentifierBeforeIn),
                        }
                    } else if is_symbol_op(op) {
                        match spec_parse_operand(rest.skip(1)) {
                            Err(e) => Err(e),
                            Ok((right, rest2)) => Ok(
                                (
                                    AstV::Comparison {
                                        left: Box::new(left),
                                        operator: op,
                                        right: Box::new(right),
                                    },
                                    rest2,
                                ),
                            ),
                        }
                    } else {
                        Ok((left, rest))
                    },
                    _ => Ok((left, rest)),
                }
            },
        }
    }
}

/// Whether the next token starts another comparison, which juxtaposition
/// combines with an implicit `and`.
pub open spec fn starts_operand(t: TokenV) -> bool {
    ||| t matches TokenV::Identifier(_)
    ||| t matches TokenV::StringLiteral(_)
    ||| t matches TokenV::NumberLiteral(_)
}

/// The `( ("AND" comparison) | comparison )*` tail of an `and_expr`,
/// folded left onto `node`. The `rest.len() < ts.len()` guards only carry
/// the termination argument; a successful step always consumes a token
/// (`lemma_expression_props`), so their else branches are never the value.
pub open spec fn spec_parse_and_tail(node: AstV, ts: Seq<TokenV>) -> SpecParsed
    decreases ts.len(), 2int,
{
    if ts.len() > 0 && is_operator(ts[0], "AND"@) {
        match spec_parse_comparison(ts.skip(1)) {
            Err(e) => Err(e),
            Ok((right, rest)) => if rest.len() < ts.len() {
                spec_parse_and_tail(
                    AstV::LogicalOp {
                        operator: "and"@,
                        left: Box::new(node),
                        right: Box::new(right),
                    },
                    rest,
                )
            } else {
                Ok((node, ts))
            },
        }
    } else if ts.len() > 0 && starts_operand(ts[0]) {
        match spec_parse_comparison(ts) {
            Err(e) => Err(e),
            Ok((right, rest)) => if rest.len() < ts.len() {
                spec_parse_and_tail(
                    AstV::LogicalOp {
                        operator: "and"@,
                        left: Box::new(node),
                        right: Box::new(right),
                    },
                    rest,
                )
            } else {
                Ok((node, ts))
            },
        }
    } else {
        Ok((node, ts))
    }
}

pub open spec fn spec_parse_and(ts: Seq<TokenV>) -> SpecParsed
    decreases ts.len(), 3int,
{
    match spec_parse_comparison(ts) {
        Err(e) => Err(e),
        Ok((node, rest)) => if rest.len() <= ts.len() {
            spec_parse_and_tail(node, rest)
        } else {
            Ok((node, rest))
        },
    }
}

/// The `( "OR" and_expr )*` tail of an `or_expr`, folded left onto `node`.
pub open spec fn spec_parse_or_tail(node: AstV, ts: Seq<TokenV>) -> SpecParsed
    decreases ts.len(), 4int,
{
    if ts.len() > 0 && is_operator(ts[0], "OR"@) {
        match spec_parse_and(ts.skip(1)) {
            Err(e) => Err(e),
            Ok((right, rest)) => if rest.len() < ts.len() {
                spec_parse_or_tail(
                    AstV::LogicalOp {
                        operator: "or"@,
                        left: Box::new(node),
                        right: Box::new(right),
                    },
                    rest,
                )
            } else {
                Ok((node, ts))
            },
        }
    } else {
        Ok((node, ts))
    }
}

pub open spec fn spec_parse_or(ts: Seq<TokenV>) -> SpecParsed
    decreases ts.len(), 5int,
{
    match spec_parse_and(ts) {
        Err(e) => Err(e),
        Ok((node, rest)) => if rest.len() <= ts.len() {
            spec_parse_or_tail(node, rest)
        } else {
            Ok((node, rest))
        },
    }
}

/// The whole grammar: what `Parser::parse_expression` returns and what it
/// leaves unconsumed.
pub open spec fn spec_parse_expression(ts: Seq<TokenV>) -> SpecParsed
    decreases ts.len(), 6int,
{
    spec_parse_or(ts)
}

proof fn lemma_operand_props(ts: Seq<TokenV>)
    ensures
        spec_parse_operand(ts) matches Ok(p) ==> p.1.len() < ts.len() && wf_ast(p.0),
{
}

proof fn lemma_in_list_props(ts: Seq<TokenV>, acc: Seq<Seq<char>>)
    ensures
        spec_parse_in_list(ts, acc) matches Ok(p) ==> p.1.len() < ts.len(),
    decreases ts.len(),
{
    if ts.len() > 0 {
        match ts[0] {
            TokenV::StringLiteral(s) => lemma_in_list_props(ts.skip(1), acc.push(quoted_literal(s))),
            TokenV::NumberLiteral(n) => lemma_in_list_props(ts.skip(1), acc.push(n)),
            TokenV::Comma => lemma_in_list_props(ts.skip(1), acc),
            _ => {},
        }
    }
}

proof fn lemma_comparison_props(ts: Seq<TokenV>)
    ensures
        spec_parse_comparison(ts) matches Ok(p) ==> p.1.len() < ts.len() && wf_ast(p.0),
    decreases ts.len(), 1int,
{
    if ts.len() > 0 && is_open_paren(ts[0]) {
        lemma_expression_props(ts.skip(1));
    } else {
        lemma_operand_props(ts);
        match spec_parse_operand(ts) {
            Ok((left, rest)) => {
                if rest.len() > 0 {
                    match rest[0] {
                        TokenV::Operator(op) => {
                            if op == "IN"@ {
                                let rest2 = rest.skip(1);
                                if rest2.len() > 0 && is_open_paren(rest2[0]) {
                                    lemma_in_list_props(rest2.skip(1), Seq::empty());
                                }
                            } else if is_symbol_op(op) {
                                lemma_operand_props(rest.skip(1));
                            }
                        },
                        _ => {},
                    }
                }
            },
            _ => {},
        }
    }
}

proof fn lemma_and_tail_props(node: AstV, ts: Seq<TokenV>)
    ensures
        spec_parse_and_tail(node, ts) matches Ok(p) ==> p.1.len() <= ts.len() && (wf_ast(node)
            ==> wf_ast(p.0)),
    decreases ts.len(), 2int,
{
    if ts.len() > 0 && is_operator(ts[0], "AND"@) {
        lemma_comparison_props(ts.skip(1));
        match spec_parse_comparison(ts.skip(1)) {
            Ok((right, rest)) => {
                if rest.len() < ts.len() {
                    lemma_and_tail_props(
                        AstV::LogicalOp {
                            operator: "and"@,
                            left: Box::new(node),
                            right: Box::new(right),
                        },
                        rest,
                    );
                }
            },
            _ => {},
        }
    } else if ts.len() > 0 && starts_operand(ts[0]) {
        lemma_comparison_props(ts);
        match spec_parse_comparison(ts) {
            Ok((right, rest)) => {
                if rest.len() < ts.len() {
                    lemma_and_tail_props(
                        AstV::LogicalOp {
                            operator: "and"@,
                            left: Box::new(node),
                            right: Box::new(right),
                        },
                        rest,
                    );
                }
            },
            _ => {},
        }
    }
}

proof fn lemma_and_props(ts: Seq<TokenV>)
    ensures
        spec_parse_and(ts) matches Ok(p) ==> p.1.len() < ts.len() && wf_ast(p.0),
    decreases ts.len(), 3int,
{
    lemma_comparison_props(ts);
    match spec_parse_comparison(ts) {
        Ok((node, rest)) => {
            if rest.len() <= ts.len() {
                lemma_and_tail_props(node, rest);
            }
        },
        _ => {},
    }
}

proof fn lemma_or_tail_props(node: AstV, ts: Seq<TokenV>)
    ensures
        spec_parse_or_tail(node, ts) matches Ok(p) ==> p.1.len() <= ts.len() && (wf_ast(node)
            ==> wf_ast(p.0)),
    decreases ts.len(), 4int,
{
    if ts.len() > 0 && is_operator(ts[0], "OR"@) {
        lemma_and_props(ts.skip(1));
        match spec_parse_and(ts.skip(1)) {
            Ok((right, rest)) => {
                if rest.len() < ts.len() {
                    lemma_or_tail_props(
                        AstV::LogicalOp {
                            operator: "or"@,
                            left: Box::new(node),
                            right: Box::new(right),
                        },
                        rest,
                    );
                }
            },
            _ => {},
        }
    }
}

proof fn lemma_or_props(ts: Seq<TokenV>)
    ensures
        spec_parse_or(ts) matches Ok(p) ==> p.1.len() < ts.len() && wf_ast(p.0),
    decreases ts.len(), 5int,
{
    lemma_and_props(ts);
    match spec_parse_and(ts) {
        Ok((node, rest)) => {
            if rest.len() <= ts.len() {
                lemma_or_tail_props(node, rest);
            }
        },
        _ => {},
    }
}

/// A successful parse consumes at least one token and yields a well-formed
/// tree: every identifier in it is syntax-valid, every comparison operator
/// is one of the six symbols, and every logical operator is `and` or `or`.
pub proof fn lemma_expression_props(ts: Seq<TokenV>)
    ensures
        spec_parse_expression(ts) matches Ok(p) ==> p.1.len() < ts.len() && wf_ast(p.0),
    decreases ts.len(), 6int,
{
    lemma_or_props(ts);
}

/// The parser: an explicit cursor over an owned token sequence. Each parse
/// call is self-contained; nothing global is touched.
pub struct Parser {
    pub tokens: Vec<Token>,
    pub pos: usize,
}

impl Parser {
    /// The cursor never passes the end of the tokens.
    pub open spec fn wf(self) -> bool {
        self.pos <= self.tokens@.len()
    }

    /// The unconsumed suffix of the token stream, as token views.
    pub open spec fn remaining(self) -> Seq<TokenV> {
        self.tokens@.map_values(|t: Token| t@).skip(self.pos as int)
    }

    /// How an executable outcome relates to a `spec_parse_*` outcome: same
    /// tree and same unconsumed suffix, or the same error.
    pub open spec fn parse_outcome(
        r: Result<AstNode, ParseError>,
        rem: Seq<TokenV>,
        sp: SpecParsed,
    ) -> bool {
        match sp {
            Ok(p) => match r {
                Ok(node) => node@ == p.0 && rem == p.1,
                Err(_) => false,
            },
            Err(e) => match r {
                Ok(_) => false,
                Err(pe) => pe@ == e,
            },
        }
    }

    pub fn new(tokens: Vec<Token>) -> (p: Parser)
        ensures
            p.wf(),
            p.remaining() == tokens@.map_values(|t: Token| t@),
    {
        let p = Parser { tokens, pos: 0 };
        proof {
            assert(p.remaining() =~= p.tokens@.map_values(|t: Token| t@));
        }
        p
    }

    /// Pops the front token, if any.
    fn pop_front(&mut self) -> (r: Option<Token>)
        requires
            old(self).wf(),
        ensures
            final(self).wf(),
            final(self).tokens@ == old(self).tokens@,
            old(self).remaining().len() == 0 ==> r is None && final(self).pos == old(self).pos,
            old(self).remaining().len() > 0 ==> (r matches Some(t) && t@ == old(
                self,
            ).remaining()[0] && final(self).remaining() == old(self).remaining().skip(1)),
    {
        if self.pos < self.tokens.len() {
            let t = self.tokens[self.pos].clone();
            self.pos = self.pos + 1;
            proof {
                let m = self.tokens@.map_values(|t: Token| t@);
                assert(m.skip(old(self).pos as int).skip(1) =~= m.skip(self.pos as int));
            }
            Some(t)
        } else {
            None
        }
    }

    pub fn parse_expression(&mut self) -> (r: Result<AstNode, ParseError>)
        requires
            old(self).wf(),
        ensures
            final(self).wf(),
            final(self).tokens@ == old(self).tokens@,
            Self::parse_outcome(r, final(self).remaining(), spec_parse_expression(old(self).remaining())),
        decreases self.remaining().len(), 6int,
    {
        self.parse_or()
    }

    #[verifier::loop_isolation(false)]
    fn parse_or(&mut self) -> (r: Result<AstNode, ParseError>)
        requires
            old(self).wf(),
        ensures
            final(self).wf(),
            final(self).tokens@ == old(self).tokens@,
            Self::parse_outcome(r, final(self).remaining(), spec_parse_or(old(self).remaining())),
        decreases self.remaining().len(), 5int,
    {
        let ghost rem0 = self.remaining();
        let mut node = match self.parse_and() {
            Ok(n) => n,
            Err(e) => {
                return Err(e);
            },
        };
        proof {
            lemma_and_props(rem0);
        }
        loop
            invariant
                self.wf(),
                self.tokens@ == old(self).tokens@,
                spec_parse_or(rem0) == spec_parse_or_tail(node@, self.remaining()),
                self.remaining().len() <= rem0.len(),
            decreases self.remaining().len(),
        {
            let ghost rem = self.remaining();
            let mut is_or = false;
            if self.pos < self.tokens.len() {
                is_or = match &self.tokens[self.pos] {
                    Token::Operator(op) => str_eq(op.as_str(), "OR"),
                    _ => false,
                };
            }
            proof {
                if self.pos < self.tokens@.len() {
                    assert(rem[0] == self.tokens@.map_values(|t: Token| t@)[self.pos as int]);
                }
            }
            if !is_or {
                return Ok(node);
            }
            self.pos = self.pos + 1;
            proof {
                assert(rem.skip(1) =~= self.remaining());
            }
            let right = match self.parse_and() {
                Ok(n) => n,
                Err(e) => {
                    return Err(e);
                },
            };
            proof {
                lemma_and_props(rem.skip(1));
            }
            node = AstNode::LogicalOp {
                operator: String::from_str("or"),
                left: Box::new(node),
                right: Box::new(right),
            };
        }
    }

    #[verifier::loop_isolation(false)]
    fn parse_and(&mut self) -> (r: Result<AstNode, ParseError>)
        requires
            old(self).wf(),
        ensures
            final(self).wf(),
            final(self).tokens@ == old(self).tokens@,
            Self::parse_outcome(r, final(self).remaining(), spec_parse_and(old(self).remaining())),
        decreases self.remaining().len(), 3int,
    {
        let ghost rem0 = self.remaining();
        let mut node = match self.parse_comparison() {
            Ok(n) => n,
            Err(e) => {
                return Err(e);
            },
        };
        proof {
            lemma_comparison_props(rem0);
        }
        loop
            invariant
                self.wf(),
                self.tokens@ == old(self).tokens@,
                spec_parse_and(rem0) == spec_parse_and_tail(node@, self.remaining()),
                self.remaining().len() <= rem0.len(),
            decreases self.remaining().len(),
        {
            let ghost rem = self.remaining();
            let mut kind: u8 = 0;
            if self.pos < self.tokens.len() {
                kind = match &self.tokens[self.pos] {
                    Token::Operator(op) => if str_eq(op.as_str(), "AND") {
                        1
                    } else {
                        0
                    },
                    Token::Identifier(_) => 2,
                    Token::StringLiteral(_) => 2,
                    Token::NumberLiteral(_) => 2,
                    _ => 0,
                };
            }
            proof {
                if self.pos < self.tokens@.len() {
                    assert(rem[0] == self.tokens@.map_values(|t: Token| t@)[self.pos as int]);
                }
            }
            if kind == 0 {
                return Ok(node);
            }
            if kind == 1 {
                self.pos = self.pos + 1;
                proof {
                    assert(rem.skip(1) =~= self.remaining());
                }
            }
            let ghost before = self.remaining();
            let right = match self.parse_comparison() {
                Ok(n) => n,
                Err(e) => {
                    return Err(e);
                },
            };
            proof {
                lemma_comparison_props(before);
            }
            node = AstNode::LogicalOp {
                operator: String::from_str("and"),
                left: Box::new(node),
                right: Box::new(right),
            };
        }
    }

    #[verifier::loop_isolation(false)]
    fn parse_comparison(&mut self) -> (r: Result<AstNode, ParseError>)
        requires
            old(self).wf(),
        ensures
            final(self).wf(),
            final(self).tokens@ == old(self).tokens@,
            Self::parse_outcome(r, final(self).remaining(), spec_parse_comparison(old(self).remaining())),
        decreases self.remaining().len(), 1int,
    {
        let ghost rem0 = self.remaining();
        let mut open_first = false;
        if self.pos < self.tokens.len() {
            open_first = match &self.tokens[self.pos] {
                Token::Parenthesis(p) => str_eq(p.as_str(), "("),
                _ => false,
            };
        }
        proof {
            if self.pos < self.tokens@.len() {
                assert(rem0[0] == self.tokens@.map_values(|t: Token| t@)[self.pos as int]);
            }
        }
        if open_first {
            self.pos = self.pos + 1;
            proof {
                assert(rem0.skip(1) =~= self.remaining());
            }
            let node = match self.parse_expression() {
                Ok(n) => n,
                Err(e) => {
                    return Err(e);
                },
            };
            let ghost rest = self.remaining();
            let mut close_next = false;
            if self.pos < self.tokens.len() {
                close_next = match &self.tokens[self.pos] {
                    Token::Parenthesis(p) => str_eq(p.as_str(), ")"),
                    _ => false,
                };
            }
            proof {
                if self.pos < self.tokens@.len() {
                    assert(rest[0] == self.tokens@.map_values(|t: Token| t@)[self.pos as int]);
                }
            }
            if close_next {
                self.pos = self.pos + 1;
                proof {
                    assert(rest.skip(1) =~= self.remaining());
                }
                return Ok(node);
            }
            return Err(ParseError::ExpectedCloseParen);
        }
        let left = match self.parse_operand() {
            Ok(n) => n,
            Err(e) => {
                return Err(e);
            },
        };
        let ghost rest = self.remaining();
        // Which operator, if any, follows: 0 none, 1 a comparison symbol, 2 IN.
        let mut op_kind: u8 = 0;
        let mut op_str = String::new();
        if self.pos < self.tokens.len() {
            proof {
                assert(rest[0] == self.tokens@.map_values(|t: Token| t@)[self.pos as int]);
            }
            match &self.tokens[self.pos] {
                Token::Operator(op) => {
                    proof {
                        assert(rest[0] == TokenV::Operator(op@));
                    }
                    if str_eq(op.as_str(), "=") || str_eq(op.as_str(), "!=")
                        || str_eq(op.as_str(), "<") || str_eq(op.as_str(), ">")
                        || str_eq(op.as_str(), "<=") || str_eq(op.as_str(), ">=") {
                        op_kind = 1;
                        op_str = op.clone();
                        proof {
                            reveal_strlit("=");
                            reveal_strlit("!=");
                            reveal_strlit("<");
                            reveal_strlit(">");
                            reveal_strlit("<=");
                            reveal_strlit(">=");
                            reveal_strlit("IN");
                            assert("IN"@.len() == 2);
                            assert("IN"@[0] == 'I');
                            assert("="@.len() == 1);
                            assert("!="@[0] == '!');
                            assert("<"@.len() == 1);
                            assert(">"@.len() == 1);
                            assert("<="@[0] == '<');
                            assert(">="@[0] == '>');
                            assert(is_symbol_op(op_str@));
                            assert(op_str@ != "IN"@);
                            assert(rest[0] == TokenV::Operator(op_str@));
                        }
                    } else if str_eq(op.as_str(), "IN") {
                        op_kind = 2;
                        proof {
                            assert(rest[0] == TokenV::Operator("IN"@));
                        }
                    }
                },
                _ => {},
            }
        }
        if op_kind == 0 {
            return Ok(left);
        }
        self.pos = self.pos + 1;
        proof {
            assert(rest.skip(1) =~= self.remaining());
        }
        if op_kind == 2 {
            let ident = match left {
                AstNode::Identifier(ident) => ident,
                _ => {
                    return Err(ParseError::ExpectedIdentifierBeforeIn);
                },
            };
            let ghost rest2 = self.remaining();
            let mut open_next = false;
            if self.pos < self.tokens.len() {
                open_next = match &self.tokens[self.pos] {
                    Token::Parenthesis(p) => str_eq(p.as_str(), "("),
                    _ => false,
                };
            }
            proof {
                if self.pos < self.tokens@.len() {
                    assert(rest2[0] == self.tokens@.map_values(|t: Token| t@)[self.pos as int]);
                }
            }
            if !open_next {
                return Err(ParseError::ExpectedOpenAfterIn);
            }
            self.pos = self.pos + 1;
            proof {
                assert(rest2.skip(1) =~= self.remaining());
            }
            let ghost list0 = self.remaining();
            let mut values: Vec<String> = Vec::new();
            proof {
                assert(crate::ast::strings_view(values@) =~= Seq::<Seq<char>>::empty());
            }
            loop
                invariant
                    self.wf(),
                    self.tokens@ == old(self).tokens@,
                    spec_parse_in_list(list0, Seq::empty()) == spec_parse_in_list(
                        self.remaining(),
                        crate::ast::strings_view(values@),
                    ),
                decreases self.remaining().len(),
            {
                let ghost cur = self.remaining();
                let front = self.pop_front();
                match front {
                    Some(Token::StringLiteral(s)) => {
                        let ghost prev = values@;
                        let q = quote_string_literal(s.as_str());
                        values.push(q);
                        proof {
                            assert(crate::ast::strings_view(values@) =~= crate::ast::strings_view(
                                prev,
                            ).push(quoted_literal(s@)));
                        }
                    },
                    Some(Token::NumberLiteral(n)) => {
                        let ghost prev = values@;
                        values.push(n);
                        proof {
                            let nv = values@[values@.len() - 1]@;
                            assert(crate::ast::strings_view(values@) =~= crate::ast::strings_view(
                                prev,
                            ).push(nv));
                        }
                    },
                    Some(Token::Comma) => {},
                    Some(Token::Parenthesis(p)) => {
                        if str_eq(p.as_str(), ")") {
                            return Ok(AstNode::InClause { identifier: ident, values });
                        }
                        return Err(ParseError::UnexpectedTokenInInClause(Token::Parenthesis(p)));
                    },
                    Some(t) => {
                        return Err(ParseError::UnexpectedTokenInInClause(t));
                    },
                    None => {
                        return Err(ParseError::UnexpectedEndInInClause);
                    },
                }
            }
        }
        // A binary comparison.
        let right = match self.parse_operand() {
            Ok(n) => n,
            Err(e) => {
                return Err(e);
            },
        };
        Ok(AstNode::Comparison { left: Box::new(left), operator: op_str, right: Box::new(right) })
    }

    fn parse_operand(&mut self) -> (r: Result<AstNode, ParseError>)
        requires
            old(self).wf(),
        ensures
            final(self).wf(),
            final(self).tokens@ == old(self).tokens@,
            Self::parse_outcome(r, final(self).remaining(), spec_parse_operand(old(self).remaining())),
        decreases self.remaining().len(), 0int,
    {
        let front = self.pop_front();
        match front {
            Some(Token::Identifier(ident)) => {
                if is_valid_identifier(ident.as_str()) {
                    Ok(AstNode::Identifier(ident))
                } else {
                    Err(ParseError::InvalidIdentifier(ident))
                }
            },
            Some(Token::StringLiteral(s)) => Ok(AstNode::Literal(quote_string_literal(s.as_str()))),
            Some(Token::NumberLiteral(n)) => Ok(AstNode::Literal(n)),
            Some(t) => Err(ParseError::UnexpectedToken(t)),
            None => Err(ParseError::UnexpectedEndOfInput),
        }
    }
}

} // verus!
