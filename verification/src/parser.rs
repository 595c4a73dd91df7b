use vstd::prelude::*;

use crate::ast::{BinaryOperation, ExprKindV, ExprV, Expression, ExpressionKind, Literal,
    LiteralKind, LiteralKindV, LiteralV};
use crate::location::{LocV, Location};
use crate::token::{Operator, TokenKind, TokenKindV};
use crate::tokenizer::{lemma_scan_bounds, scan_at, Scan, Tokenizer, TokenizerError};

verus! {

// ---------------------------------------------------------------------------
// The faults the parser can raise.
// ---------------------------------------------------------------------------
/// A fault that aborts a parse: either a lexical fault passed through from
/// the tokenizer, or a position where a primary expression was required and
/// the token found (its kind and location are carried) is no integer
/// literal.
#[derive(Debug, PartialEq)]
pub enum ParseError {
    UnknownToken(Location, char),
    ExpectedExpression(Location, TokenKind),
}

/// The mathematical model of a `ParseError`.
pub ghost enum ParseErrV {
    UnknownToken { location: LocV, bad: char },
    ExpectedExpression { location: LocV, found: TokenKindV },
}

impl View for ParseError {
    type V = ParseErrV;

    open spec fn view(&self) -> ParseErrV {
        match self {
            ParseError::UnknownToken(l, c) => ParseErrV::UnknownToken { location: l@, bad: *c },
            ParseError::ExpectedExpression(l, k) => ParseErrV::ExpectedExpression {
                location: l@,
                found: k@,
            },
        }
    }
}

// ---------------------------------------------------------------------------
// The fixed precedence table.
// ---------------------------------------------------------------------------
/// The binding power of an operator and its associativity step: the step of
/// 1 raises the minimum power required of the next operator of equal rank,
/// which forces left-to-right grouping.
pub open spec fn power_of(op: Operator) -> (int, int) {
    match op {
        Operator::Star => (1900, 1),
        Operator::Slash => (1900, 1),
        Operator::Plus => (1800, 1),
        Operator::Minus => (1800, 1),
    }
}

/// The tree node an operator token builds.
pub open spec fn operation_of(op: Operator) -> BinaryOperation {
    match op {
        Operator::Plus => BinaryOperation::Add,
        Operator::Minus => BinaryOperation::Subtract,
        Operator::Star => BinaryOperation::Multiply,
        Operator::Slash => BinaryOperation::Divide,
    }
}

// ---------------------------------------------------------------------------
// The parse, stated over the character sequence.
// ---------------------------------------------------------------------------
/// The outcome of parsing an expression at a position: a tree together with
/// the position just past it, or a fault.
pub ghost enum ParseOut {
    Parsed { expr: ExprV, next: int },
    Fault { fault: ParseErrV },
}

/// The outcome of one binary-combination step: a combined tree and the
/// position just past its right operand; a declination (the operator binds
/// too weakly, nothing consumed); or a fault.
pub ghost enum BinOut {
    Combined { expr: ExprV, next: int },
    Declined,
    Fault { fault: ParseErrV },
}

/// Parsing one primary expression at `i`: exactly one token is consumed,
/// and only an integer token yields a tree — a literal node stamped with
/// the token's location. Any other token kind is an expected-expression
/// fault carrying that kind and location; a lexical fault passes through.
pub open spec fn spec_parse_primary(s: Seq<char>, i: int) -> ParseOut {
    match scan_at(s, i) {
        Scan::Fault { location, bad, .. } => ParseOut::Fault {
            fault: ParseErrV::UnknownToken { location, bad },
        },
        Scan::Token { token, end } => match token.kind {
            TokenKindV::Integer { value, radix } => ParseOut::Parsed {
                expr: ExprV {
                    node: ExprKindV::Literal(
                        Box::new(
                            LiteralV {
                                node: LiteralKindV::Integer(value),
                                location: token.location,
                            },
                        ),
                    ),
                    location: token.location,
                },
                next: end,
            },
            _ => ParseOut::Fault {
                fault: ParseErrV::ExpectedExpression {
                    location: token.location,
                    found: token.kind,
                },
            },
        },
    }
}

/// Parsing one expression at `i` with minimum binding power `power`: one
/// primary expression, then as many binary-combination steps as the
/// precedence table allows.
pub open spec fn spec_parse_expression(s: Seq<char>, i: int, power: int) -> ParseOut
    decreases s.len() - i, 0int,
    when 0 <= i <= s.len()
{
    match spec_parse_primary(s, i) {
        ParseOut::Fault { fault } => ParseOut::Fault { fault },
        ParseOut::Parsed { expr, next } => {
            if i < next <= s.len() {
                spec_parse_rest(s, next, expr, power)
            } else {
                // a primary expression always consumes its token, so this
                // branch is never the outcome
                ParseOut::Parsed { expr, next }
            }
        },
    }
}

/// The combination loop: while the lookahead is a binary operator that
/// binds at least as tightly as `power`, fold it and its right operand
/// into the accumulated left operand.
pub open spec fn spec_parse_rest(s: Seq<char>, i: int, left: ExprV, power: int) -> ParseOut
    decreases s.len() - i, 2int,
    when 0 <= i <= s.len()
{
    match scan_at(s, i) {
        Scan::Fault { location, bad, .. } => ParseOut::Fault {
            fault: ParseErrV::UnknownToken { location, bad },
        },
        Scan::Token { token, .. } => {
            if token.kind is Operator {
                match spec_parse_binary(s, i, left, power) {
                    BinOut::Fault { fault } => ParseOut::Fault { fault },
                    BinOut::Declined => ParseOut::Parsed { expr: left, next: i },
                    BinOut::Combined { expr, next } => {
                        if i < next <= s.len() {
                            spec_parse_rest(s, next, expr, power)
                        } else {
                            // a combination consumes at least the operator
                            // token, so this branch is never the outcome
                            ParseOut::Parsed { expr, next }
                        }
                    },
                }
            } else {
                ParseOut::Parsed { expr: left, next: i }
            }
        },
    }
}

/// One binary-combination step at `i`, whose token must be an operator:
/// if the operator binds weaker than `power`, decline without consuming;
/// otherwise consume it, parse the right operand at the operator's power
/// raised by its associativity step, and build the node, stamped with the
/// left operand's location.
pub open spec fn spec_parse_binary(s: Seq<char>, i: int, left: ExprV, power: int) -> BinOut
    decreases s.len() - i, 1int,
    when 0 <= i <= s.len()
{
    match scan_at(s, i) {
        Scan::Token { token, end } => match token.kind {
            TokenKindV::Operator(op) => {
                let (op_power, op_assoc) = power_of(op);
                if op_power < power {
                    BinOut::Declined
                } else if i < end <= s.len() {
                    match spec_parse_expression(s, end, op_power + op_assoc) {
                        ParseOut::Fault { fault } => BinOut::Fault { fault },
                        ParseOut::Parsed { expr: right, next } => BinOut::Combined {
                            expr: ExprV {
                                node: ExprKindV::Binary(
                                    operation_of(op),
                                    Box::new(left),
                                    Box::new(right),
                                ),
                                location: left.location,
                            },
                            next,
                        },
                    }
                } else {
                    // an operator token always ends past its start, so this
                    // branch is never the outcome
                    BinOut::Declined
                }
            },
            // this step is only invoked with an operator in the lookahead
            _ => BinOut::Declined,
        },
        Scan::Fault { .. } => BinOut::Declined,
    }
}

// ---------------------------------------------------------------------------
// The parser.
// ---------------------------------------------------------------------------
/// Builds one expression tree from the token stream by precedence
/// climbing. Holds no state beyond its token source.
pub struct Parser {
    pub tokenizer: Tokenizer,
}

impl Parser {
    pub open spec fn wf(&self) -> bool {
        self.tokenizer.wf()
    }

    pub open spec fn src(&self) -> Seq<char> {
        self.tokenizer.src()
    }

    pub open spec fn cur(&self) -> int {
        self.tokenizer.cur()
    }

    pub fn new(tokenizer: Tokenizer) -> (r: Self)
        ensures
            r.tokenizer == tokenizer,
    {
        Self { tokenizer }
    }

    /// Parses one expression at minimum binding power 0. Does not require
    /// that the whole token stream is consumed: trailing tokens after one
    /// complete expression are left unread.
    pub fn parse(&mut self) -> (r: Result<Box<Expression>, ParseError>)
        requires
            old(self).wf(),
        ensures
            final(self).wf(),
            final(self).src() == old(self).src(),
            match r {
                Ok(e) => spec_parse_expression(old(self).src(), old(self).cur(), 0)
                    == (ParseOut::Parsed { expr: (*e)@, next: final(self).cur() }),
                Err(e) => spec_parse_expression(old(self).src(), old(self).cur(), 0)
                    == (ParseOut::Fault { fault: e@ }),
            },
    {
        match self.parse_expression(0) {
            Ok(e) => Ok(Box::new(e)),
            Err(e) => Err(e),
        }
    }

    /// Whether the token stream is fully consumed: the lookahead is the
    /// end-of-file sentinel. `parse` leaves trailing tokens unread, so a
    /// caller that requires full consumption tests this afterwards.
    pub fn at_end(&mut self) -> (r: Result<bool, ParseError>)
        requires
            old(self).wf(),
        ensures
            final(self).wf(),
            final(self).src() == old(self).src(),
            match r {
                Ok(b) => {
                    &&& b == (scan_at(old(self).src(), old(self).cur()) matches Scan::Token {
                        token,
                        ..
                    } && token.kind is EndOfFile)
                    &&& final(self).cur() == old(self).cur()
                },
                Err(e) => {
                    &&& scan_at(old(self).src(), old(self).cur()) matches Scan::Fault {
                        location,
                        bad,
                        ..
                    } && e@ == (ParseErrV::UnknownToken { location, bad })
                },
            },
    {
        let token = match self.tokenizer.peek() {
            Ok(t) => t,
            Err(TokenizerError::UnknownToken(l, c)) => {
                return Err(ParseError::UnknownToken(l, c));
            },
        };
        Ok(match token.kind {
            TokenKind::EndOfFile => true,
            _ => false,
        })
    }

    /// Consumes exactly one token; succeeds only on an integer token,
    /// producing a literal node stamped with that token's location.
    pub fn parse_primary_expression(&mut self) -> (r: Result<Expression, ParseError>)
        requires
            old(self).wf(),
        ensures
            final(self).wf(),
            final(self).src() == old(self).src(),
            match r {
                Ok(e) => {
                    &&& spec_parse_primary(old(self).src(), old(self).cur())
                        == (ParseOut::Parsed { expr: e@, next: final(self).cur() })
                    &&& old(self).cur() < final(self).cur() <= old(self).src().len()
                },
                Err(e) => spec_parse_primary(old(self).src(), old(self).cur())
                    == (ParseOut::Fault { fault: e@ }),
            },
    {
        let ghost s = self.src();
        let ghost i0 = self.cur();
        let token = match self.tokenizer.next() {
            Ok(t) => t,
            Err(TokenizerError::UnknownToken(l, c)) => {
                return Err(ParseError::UnknownToken(l, c));
            },
        };
        proof {
            lemma_scan_bounds(s, i0);
        }
        match token.kind {
            TokenKind::Integer { value, .. } => Ok(
                Expression {
                    node: ExpressionKind::Literal(
                        Box::new(
                            Literal {
                                node: LiteralKind::Integer(value),
                                location: token.location,
                            },
                        ),
                    ),
                    location: token.location,
                },
            ),
            kind => Err(ParseError::ExpectedExpression(token.location, kind)),
        }
    }

    /// One binary-combination step. The lookahead must be an operator
    /// token: the caller checks it with the binary-operator predicate
    /// first, and any other call sequence is a programming defect, not a
    /// recoverable fault. Declines without consuming anything when the
    /// operator binds weaker than `power`; otherwise consumes the operator,
    /// parses the right operand at the operator's power raised by its
    /// associativity step, and combines.
    pub fn parse_binary_expression(&mut self, operand: Expression, power: u32) -> (r: Result<
        Option<Expression>,
        ParseError,
    >)
        requires
            old(self).wf(),
            scan_at(old(self).src(), old(self).cur()) matches Scan::Token { token, .. }
                && token.kind is Operator,
        ensures
            final(self).wf(),
            final(self).src() == old(self).src(),
            match r {
                Ok(Some(e)) => {
                    &&& spec_parse_binary(old(self).src(), old(self).cur(), operand@, power as int)
                        == (BinOut::Combined { expr: e@, next: final(self).cur() })
                    &&& old(self).cur() < final(self).cur() <= old(self).src().len()
                },
                Ok(None) => {
                    &&& spec_parse_binary(old(self).src(), old(self).cur(), operand@, power as int)
                        is Declined
                    &&& final(self).cur() == old(self).cur()
                },
                Err(e) => spec_parse_binary(old(self).src(), old(self).cur(), operand@, power as int)
                    == (BinOut::Fault { fault: e@ }),
            },
        decreases old(self).src().len() - old(self).cur(), 0int,
    {
        let ghost s = self.src();
        let ghost i0 = self.cur();
        let op = match self.tokenizer.peek() {
            Ok(t) => match t.kind {
                TokenKind::Operator(op) => op,
                _ => {
                    // the precondition puts an operator in the lookahead
                    proof {
                        assert(false);
                    }
                    return Ok(None);
                },
            },
            Err(TokenizerError::UnknownToken(..)) => {
                proof {
                    assert(false);
                }
                return Ok(None);
            },
        };
        let (op_power, op_assoc) = op_powers(op);
        if op_power < power {
            return Ok(None);
        }
        match self.tokenizer.next() {
            Ok(_) => {},
            Err(TokenizerError::UnknownToken(..)) => {
                proof {
                    assert(false);
                }
                return Ok(None);
            },
        }
        proof {
            lemma_scan_bounds(s, i0);
        }
        let operand_right = match self.parse_expression(op_power + op_assoc) {
            Ok(e) => e,
            Err(e) => {
                return Err(e);
            },
        };
        let operation = match op {
            Operator::Plus => BinaryOperation::Add,
            Operator::Minus => BinaryOperation::Subtract,
            Operator::Star => BinaryOperation::Multiply,
            Operator::Slash => BinaryOperation::Divide,
        };
        Ok(
            Some(
                Expression {
                    location: operand.location,
                    node: ExpressionKind::Binary(
                        operation,
                        Box::new(operand),
                        Box::new(operand_right),
                    ),
                },
            ),
        )
    }

    /// Parses one primary expression, then loops: while the lookahead is a
    /// binary operator that the current minimum power lets bind, fold it
    /// into the accumulated expression; stop when it declines or the
    /// lookahead is no operator.
    pub fn parse_expression(&mut self, power: u32) -> (r: Result<Expression, ParseError>)
        requires
            old(self).wf(),
        ensures
            final(self).wf(),
            final(self).src() == old(self).src(),
            match r {
                Ok(e) => {
                    &&& spec_parse_expression(old(self).src(), old(self).cur(), power as int)
                        == (ParseOut::Parsed { expr: e@, next: final(self).cur() })
                    &&& old(self).cur() < final(self).cur() <= old(self).src().len()
                },
                Err(e) => spec_parse_expression(old(self).src(), old(self).cur(), power as int)
                    == (ParseOut::Fault { fault: e@ }),
            },
        decreases old(self).src().len() - old(self).cur(), 1int,
    {
        let ghost s = self.src();
        let ghost i0 = self.cur();
        let mut expr = match self.parse_primary_expression() {
            Ok(e) => e,
            Err(e) => {
                return Err(e);
            },
        };
        loop
            invariant
                self.wf(),
                s == old(self).src(),
                i0 == old(self).cur(),
                self.src() == s,
                0 <= i0 < self.cur() <= s.len(),
                spec_parse_expression(s, i0, power as int) == spec_parse_rest(
                    s,
                    self.cur(),
                    expr@,
                    power as int,
                ),
            ensures
                spec_parse_expression(s, i0, power as int) == (ParseOut::Parsed {
                    expr: expr@,
                    next: self.cur(),
                }),
                self.wf(),
                self.src() == s,
                i0 < self.cur() <= s.len(),
            decreases s.len() - self.cur(),
        {
            let tok = match self.tokenizer.peek() {
                Ok(t) => t,
                Err(TokenizerError::UnknownToken(l, c)) => {
                    return Err(ParseError::UnknownToken(l, c));
                },
            };
            if tok.kind.is_binary_operator() {
                let operand = expr.clone();
                match self.parse_binary_expression(operand, power) {
                    Ok(Some(result)) => {
                        expr = result;
                    },
                    Ok(None) => {
                        // precedence rules say that we should not attempt to
                        // combine with the next operator
                        break ;
                    },
                    Err(e) => {
                        return Err(e);
                    },
                }
            } else {
                // not a binary operator; the expression is complete
                break ;
            }
        }
        Ok(expr)
    }
}

/// The executable precedence table; agrees with `power_of`.
fn op_powers(op: Operator) -> (r: (u32, u32))
    ensures
        power_of(op) == (r.0 as int, r.1 as int),
{
    match op {
        Operator::Star => (1900, 1),
        Operator::Slash => (1900, 1),
        Operator::Plus => (1800, 1),
        Operator::Minus => (1800, 1),
    }
}

} // verus!
