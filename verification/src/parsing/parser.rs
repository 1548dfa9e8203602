//! The parser: a recursive-descent statement parser over the token
//! stream, with a shunting-yard expression parser.
//!
//! A block is a run of statements ending at a closing brace or at the end
//! of the tokens.  Statements are dispatched on their first token: an
//! identifier opens an assignment or a declaration, `if`/`while`/`for`
//! open control statements, `print` opens a print statement, and `Fn` is
//! reserved but not implemented.  An expression is read until a `;` or a
//! `{`, which it consumes, or until a `}` or the end of the tokens, which
//! it leaves for the enclosing block; within it, parentheses group, and
//! operators are placed by the precedence and associativity recorded in
//! their tokens.

use vstd::prelude::*;
use crate::parsing::ast::{AST, AstV, Expression, ExprV, Type, TypeV, asts_view};
use crate::parsing::token::{
    spec_kind,
    Token,
    TokenKind,
    TokenType,
    TokenTypeV,
    TokenV,
};

verus! {

/// A syntactic failure.  Positions, where present, name the token at
/// which the failure was noticed.
#[derive(Clone, Copy, PartialEq, Eq, Structural, Debug)]
pub enum ParseError {
    FnNotImplemented { line: usize, char: usize },
    UnexpectedStatementToken { found: TokenKind, line: usize, char: usize },
    ExpectedAssignOrIdent { found: TokenKind, line: usize, char: usize },
    ExpectedAssignOrIdentEof,
    DeclarationEof,
    UnmatchedRParen { line: usize, char: usize },
    UnmatchedLParen,
    UnexpectedExpressionToken { found: TokenKind, line: usize, char: usize },
    EmptyExpression,
    MalformedExpression,
    ExpectedRCurly { found: TokenKind, line: usize, char: usize },
    ExpectedRCurlyEof,
}

/// The declared type a type name resolves to: the four reserved names, or
/// a custom type carrying the name itself.
pub open spec fn spec_resolve_type(name: Seq<char>) -> TypeV {
    if name == "int"@ {
        TypeV::Integer
    } else if name == "float"@ {
        TypeV::FloatingPoint
    } else if name == "unit"@ {
        TypeV::Unit
    } else if name == "bool"@ {
        TypeV::Boolean
    } else {
        TypeV::Custom(name)
    }
}

/// Outcome of popping operators for a closing parenthesis: the stacks
/// after popping down to the opening parenthesis, or the failures.
pub enum TiltV {
    Done(Seq<ExprV>, Seq<TokenV>),
    NoParen,
    Underflow,
}

/// Outcome of draining the operator stack at the end of an expression.
pub enum DrainV {
    Done(Seq<ExprV>),
    FoundParen,
    Underflow,
}

/// Pops operators whose recorded precedence beats an incoming operator of
/// precedence `p` (or ties it, when the incoming operator is marked
/// left-associative), combining two operands into one for each.
pub open spec fn spec_pop_ops(output: Seq<ExprV>, ops: Seq<TokenV>, p: u8, la: bool) -> Option<
    (Seq<ExprV>, Seq<TokenV>),
>
    decreases ops.len(),
{
    if ops.len() == 0 {
        Some((output, ops))
    } else {
        match ops.last().t_type {
            TokenTypeV::LRoundBracket => Some((output, ops)),
            TokenTypeV::Operator(op2, p2, la2) => {
                if p2 > p || (p2 == p && la) {
                    if output.len() >= 2 {
                        let right = output.last();
                        let left = output[output.len() - 2];
                        spec_pop_ops(
                            output.drop_last().drop_last().push(
                                ExprV::BinaryOperation(Box::new(left), op2, Box::new(right)),
                            ),
                            ops.drop_last(),
                            p,
                            la,
                        )
                    } else {
                        None
                    }
                } else {
                    Some((output, ops))
                }
            },
            _ => None,
        }
    }
}

/// Pops operators down to the opening parenthesis for a closing one,
/// combining two operands into one for each popped operator.
pub open spec fn spec_tilt(output: Seq<ExprV>, ops: Seq<TokenV>) -> TiltV
    decreases ops.len(),
{
    if ops.len() == 0 {
        TiltV::NoParen
    } else {
        match ops.last().t_type {
            TokenTypeV::LRoundBracket => TiltV::Done(output, ops.drop_last()),
            TokenTypeV::Operator(op2, p2, la2) => {
                if output.len() >= 2 {
                    let right = output.last();
                    let left = output[output.len() - 2];
                    spec_tilt(
                        output.drop_last().drop_last().push(
                            ExprV::BinaryOperation(Box::new(left), op2, Box::new(right)),
                        ),
                        ops.drop_last(),
                    )
                } else {
                    TiltV::Underflow
                }
            },
            _ => TiltV::Underflow,
        }
    }
}

/// Drains the operator stack at the end of an expression; a parenthesis
/// still on the stack was never closed.
pub open spec fn spec_drain(output: Seq<ExprV>, ops: Seq<TokenV>) -> DrainV
    decreases ops.len(),
{
    if ops.len() == 0 {
        DrainV::Done(output)
    } else {
        match ops.last().t_type {
            TokenTypeV::LRoundBracket => DrainV::FoundParen,
            TokenTypeV::Operator(op2, p2, la2) => {
                if output.len() >= 2 {
                    let right = output.last();
                    let left = output[output.len() - 2];
                    spec_drain(
                        output.drop_last().drop_last().push(
                            ExprV::BinaryOperation(Box::new(left), op2, Box::new(right)),
                        ),
                        ops.drop_last(),
                    )
                } else {
                    DrainV::Underflow
                }
            },
            _ => DrainV::Underflow,
        }
    }
}

/// What the expression parser returns once its terminator was consumed:
/// the one expression left after draining, positioned at `j`; an empty
/// expression and leftovers of any kind are rejected.
pub open spec fn spec_finish(output: Seq<ExprV>, ops: Seq<TokenV>, j: int) -> Result<
    (ExprV, int),
    ParseError,
> {
    match spec_drain(output, ops) {
        DrainV::FoundParen => Err(ParseError::UnmatchedLParen),
        DrainV::Underflow => Err(ParseError::MalformedExpression),
        DrainV::Done(out) => if out.len() == 1 {
            Ok((out[0], j))
        } else if out.len() == 0 {
            Err(ParseError::EmptyExpression)
        } else {
            Err(ParseError::MalformedExpression)
        },
    }
}

/// The shunting-yard loop: reads operands and operators until a `;` or a
/// `{` (consumed) or the end of the tokens, then finishes the expression.
pub open spec fn spec_shunt(
    toks: Seq<TokenV>,
    i: int,
    output: Seq<ExprV>,
    ops: Seq<TokenV>,
) -> Result<(ExprV, int), ParseError>
    decreases toks.len() - i,
{
    if i < 0 || i >= toks.len() {
        spec_finish(output, ops, i)
    } else {
        let t = toks[i];
        match t.t_type {
            TokenTypeV::Semicolon => spec_finish(output, ops, i + 1),
            TokenTypeV::LCurlyBracket => spec_finish(output, ops, i + 1),
            TokenTypeV::RCurlyBracket => spec_finish(output, ops, i),
            TokenTypeV::Id(name) => spec_shunt(
                toks,
                i + 1,
                output.push(ExprV::Variable(name)),
                ops,
            ),
            TokenTypeV::BooleanLiteral(b) => spec_shunt(
                toks,
                i + 1,
                output.push(ExprV::BooleanLiteral(b)),
                ops,
            ),
            TokenTypeV::IntegerLiteral(v) => spec_shunt(
                toks,
                i + 1,
                output.push(ExprV::IntegerLiteral(v)),
                ops,
            ),
            TokenTypeV::FloatLiteral(b) => spec_shunt(
                toks,
                i + 1,
                output.push(ExprV::FloatLiteral(b)),
                ops,
            ),
            TokenTypeV::LRoundBracket => spec_shunt(toks, i + 1, output, ops.push(t)),
            TokenTypeV::RRoundBracket => match spec_tilt(output, ops) {
                TiltV::Done(out2, ops2) => spec_shunt(toks, i + 1, out2, ops2),
                TiltV::NoParen => Err(
                    ParseError::UnmatchedRParen {
                        line: t.line as usize,
                        char: t.char as usize,
                    },
                ),
                TiltV::Underflow => Err(ParseError::MalformedExpression),
            },
            TokenTypeV::Operator(op, p, la) => match spec_pop_ops(output, ops, p, la) {
                Some((out2, ops2)) => spec_shunt(toks, i + 1, out2, ops2.push(t)),
                None => Err(ParseError::MalformedExpression),
            },
            other => Err(
                ParseError::UnexpectedExpressionToken {
                    found: spec_kind(other),
                    line: t.line as usize,
                    char: t.char as usize,
                },
            ),
        }
    }
}

/// The expression starting at `i`, with the position just past its
/// terminator; or the first syntactic failure.
pub open spec fn spec_parse_expression(toks: Seq<TokenV>, i: int) -> Result<
    (ExprV, int),
    ParseError,
> {
    spec_shunt(toks, i, Seq::empty(), Seq::empty())
}

/// The statements of a block starting at `i`, ending before a closing
/// brace or at the end of the tokens, with the position of that ending.
pub open spec fn spec_parse_block(toks: Seq<TokenV>, i: int) -> Result<
    (Seq<AstV>, int),
    ParseError,
>
    decreases toks.len() - i, 3int,
{
    if i < 0 || i > toks.len() {
        Err(ParseError::MalformedExpression)
    } else if i == toks.len() || toks[i].t_type is RCurlyBracket {
        Ok((Seq::empty(), i))
    } else {
        match spec_parse_statement(toks, i) {
            Err(e) => Err(e),
            Ok((st, j)) => if i < j <= toks.len() {
                match spec_parse_block(toks, j) {
                    Err(e) => Err(e),
                    Ok((rest, k)) => Ok((seq![st] + rest, k)),
                }
            } else {
                // a statement always consumes at least one token and
                // stays within the tokens; this branch is never taken
                Err(ParseError::MalformedExpression)
            },
        }
    }
}

/// The statement starting at `i`, dispatched on its first token, with the
/// position just past it.
pub open spec fn spec_parse_statement(toks: Seq<TokenV>, i: int) -> Result<
    (AstV, int),
    ParseError,
>
    decreases toks.len() - i, 2int,
{
    if i < 0 || i >= toks.len() {
        Err(ParseError::MalformedExpression)
    } else {
        let t = toks[i];
        match t.t_type {
            TokenTypeV::Fn => Err(
                ParseError::FnNotImplemented { line: t.line as usize, char: t.char as usize },
            ),
            TokenTypeV::Id(name) => spec_parse_assign_or_decl(toks, i),
            TokenTypeV::If => spec_parse_if(toks, i),
            TokenTypeV::While => spec_parse_while(toks, i),
            TokenTypeV::For => spec_parse_for(toks, i),
            TokenTypeV::Print => match spec_parse_expression(toks, i + 1) {
                Err(e) => Err(e),
                Ok((e, j)) => Ok((AstV::Print(e), j)),
            },
            other => Err(
                ParseError::UnexpectedStatementToken {
                    found: spec_kind(other),
                    line: t.line as usize,
                    char: t.char as usize,
                },
            ),
        }
    }
}

/// An assignment `x := e` or a declaration `ty x [:= e]`, starting at the
/// leading identifier.
pub open spec fn spec_parse_assign_or_decl(toks: Seq<TokenV>, i: int) -> Result<
    (AstV, int),
    ParseError,
>
    decreases toks.len() - i, 1int,
{
    if i < 0 || i >= toks.len() {
        Err(ParseError::MalformedExpression)
    } else {
        match toks[i].t_type {
            TokenTypeV::Id(name) => {
                if i + 1 >= toks.len() {
                    Err(ParseError::ExpectedAssignOrIdentEof)
                } else {
                    match toks[i + 1].t_type {
                        TokenTypeV::Assignment => spec_parse_assignment(toks, i + 1, name),
                        TokenTypeV::Id(id2) => spec_parse_declaration(toks, i + 1, name),
                        other => Err(
                            ParseError::ExpectedAssignOrIdent {
                                found: spec_kind(other),
                                line: toks[i + 1].line as usize,
                                char: toks[i + 1].char as usize,
                            },
                        ),
                    }
                }
            },
            _ => Err(ParseError::MalformedExpression),
        }
    }
}

/// An assignment to `name`, starting at the `:=` token.
pub open spec fn spec_parse_assignment(toks: Seq<TokenV>, i: int, name: Seq<char>) -> Result<
    (AstV, int),
    ParseError,
> {
    match spec_parse_expression(toks, i + 1) {
        Err(e) => Err(e),
        Ok((e, j)) => Ok((AstV::Assign(name, e), j)),
    }
}

/// A declaration naming type `tyname`, starting at the declared
/// identifier; with a `:=` it also carries the initialising expression.
pub open spec fn spec_parse_declaration(toks: Seq<TokenV>, i: int, tyname: Seq<char>) -> Result<
    (AstV, int),
    ParseError,
> {
    if i < 0 || i >= toks.len() {
        Err(ParseError::MalformedExpression)
    } else {
        match toks[i].t_type {
            TokenTypeV::Id(id2) => {
                let ty = spec_resolve_type(tyname);
                if i + 1 >= toks.len() {
                    Err(ParseError::DeclarationEof)
                } else if toks[i + 1].t_type is Assignment {
                    match spec_parse_expression(toks, i + 2) {
                        Err(e) => Err(e),
                        Ok((e, j)) => Ok((AstV::VarDeclarationAndAssignment(ty, id2, e), j)),
                    }
                } else {
                    Ok((AstV::VarDeclaration(ty, id2), i + 1))
                }
            },
            _ => Err(ParseError::MalformedExpression),
        }
    }
}

/// What follows a parsed block: the closing brace, consumed.
pub open spec fn spec_expect_rcurly(toks: Seq<TokenV>, k: int) -> Result<int, ParseError> {
    if 0 <= k < toks.len() {
        if toks[k].t_type is RCurlyBracket {
            Ok(k + 1)
        } else {
            Err(
                ParseError::ExpectedRCurly {
                    found: spec_kind(toks[k].t_type),
                    line: toks[k].line as usize,
                    char: toks[k].char as usize,
                },
            )
        }
    } else {
        Err(ParseError::ExpectedRCurlyEof)
    }
}

/// An `if` statement: the keyword, a condition expression (terminated by
/// the opening brace), a block, and the closing brace.
pub open spec fn spec_parse_if(toks: Seq<TokenV>, i: int) -> Result<(AstV, int), ParseError>
    decreases toks.len() - i, 1int,
{
    match spec_parse_expression(toks, i + 1) {
        Err(e) => Err(e),
        Ok((cond, j)) => if i < j <= toks.len() {
            match spec_parse_block(toks, j) {
                Err(e) => Err(e),
                Ok((stmts, k)) => match spec_expect_rcurly(toks, k) {
                    Err(e) => Err(e),
                    Ok(k2) => Ok(
                        (AstV::IfStatement(cond, Box::new(AstV::Block(stmts))), k2),
                    ),
                },
            }
        } else {
            Err(ParseError::MalformedExpression)
        },
    }
}

/// A `while` statement: the keyword, a condition expression, a block, and
/// the closing brace.
pub open spec fn spec_parse_while(toks: Seq<TokenV>, i: int) -> Result<(AstV, int), ParseError>
    decreases toks.len() - i, 1int,
{
    match spec_parse_expression(toks, i + 1) {
        Err(e) => Err(e),
        Ok((cond, j)) => if i < j <= toks.len() {
            match spec_parse_block(toks, j) {
                Err(e) => Err(e),
                Ok((stmts, k)) => match spec_expect_rcurly(toks, k) {
                    Err(e) => Err(e),
                    Ok(k2) => Ok(
                        (AstV::WhileStatement(cond, Box::new(AstV::Block(stmts))), k2),
                    ),
                },
            }
        } else {
            Err(ParseError::MalformedExpression)
        },
    }
}

/// A `for` statement: the keyword, an initialising assignment or
/// declaration, a condition expression, an increment assignment or
/// declaration, a block, and the closing brace.
pub open spec fn spec_parse_for(toks: Seq<TokenV>, i: int) -> Result<(AstV, int), ParseError>
    decreases toks.len() - i, 1int,
{
    if i + 1 > toks.len() {
        Err(ParseError::MalformedExpression)
    } else {
        match spec_parse_assign_or_decl(toks, i + 1) {
            Err(e) => Err(e),
            Ok((init, j1)) => match spec_parse_expression(toks, j1) {
                Err(e) => Err(e),
                Ok((cond, j2)) => if i < j2 <= toks.len() {
                    match spec_parse_assign_or_decl(toks, j2) {
                        Err(e) => Err(e),
                        Ok((inc, j3)) => if i < j3 <= toks.len() {
                            match spec_parse_block(toks, j3) {
                                Err(e) => Err(e),
                                Ok((stmts, k)) => match spec_expect_rcurly(toks, k) {
                                    Err(e) => Err(e),
                                    Ok(k2) => Ok(
                                        (
                                            AstV::ForStatement(
                                                Box::new(init),
                                                cond,
                                                Box::new(inc),
                                                Box::new(AstV::Block(stmts)),
                                            ),
                                            k2,
                                        ),
                                    ),
                                },
                            }
                        } else {
                            Err(ParseError::MalformedExpression)
                        },
                    }
                } else {
                    Err(ParseError::MalformedExpression)
                },
            },
        }
    }
}

/// The program a token sequence parses to, from a position onward: one
/// block, ending at a closing brace or at the end of the tokens.  Tokens
/// after that ending brace are not read.
pub open spec fn spec_parse(toks: Seq<TokenV>, i: int) -> Result<AstV, ParseError> {
    match spec_parse_block(toks, i) {
        Err(e) => Err(e),
        Ok((stmts, _)) => Ok(AstV::Block(stmts)),
    }
}

/// The models of a vector of expressions.
pub open spec fn exprs_view(s: Seq<Expression>) -> Seq<ExprV> {
    s.map_values(|e: Expression| e@)
}

/// The models of a vector of tokens.
pub open spec fn toks_view(s: Seq<Token>) -> Seq<TokenV> {
    s.map_values(|t: Token| t@)
}

/// Pops one operand pair and the operator token on top of the stack,
/// pushing the combined operation.
fn pop_operation(
    output: &mut Vec<Expression>,
    operators: &mut Vec<Token>,
    op: crate::parsing::token::Operator,
)
    requires
        old(operators)@.len() > 0,
        old(output)@.len() >= 2,
        old(operators)@.last().t_type@ matches TokenTypeV::Operator(o2, _, _) && o2 == op,
    ensures
        final(operators)@.len() == old(operators)@.len() - 1,
        final(output)@.len() == old(output)@.len() - 1,
        toks_view(final(operators)@) == toks_view(old(operators)@).drop_last(),
        exprs_view(final(output)@) =~= exprs_view(old(output)@).drop_last().drop_last().push(
            ExprV::BinaryOperation(
                Box::new(exprs_view(old(output)@)[old(output)@.len() - 2]),
                op,
                Box::new(exprs_view(old(output)@).last()),
            ),
        ),
{
    let right = output.pop().unwrap();
    let left = output.pop().unwrap();
    let _ = operators.pop();
    output.push(Expression::BinaryOperation(Box::new(left), op, Box::new(right)));
    proof {
        assert(toks_view(final(operators)@) =~= toks_view(old(operators)@).drop_last());
        assert(exprs_view(old(output)@).drop_last().drop_last() =~= exprs_view(
            old(output)@.drop_last().drop_last(),
        ));
        assert(exprs_view(final(output)@) =~= exprs_view(
            old(output)@.drop_last().drop_last(),
        ).push(
            ExprV::BinaryOperation(
                Box::new(exprs_view(old(output)@)[old(output)@.len() - 2]),
                op,
                Box::new(exprs_view(old(output)@).last()),
            ),
        ));
    }
}

/// Pops operators into the output until the opening parenthesis for a
/// closing one is found: reports whether one was found; an operator with
/// too few operands is a malformed expression.
fn tilt_until(operators: &mut Vec<Token>, output: &mut Vec<Expression>) -> (r: Result<
    bool,
    ParseError,
>)
    ensures
        match spec_tilt(exprs_view(old(output)@), toks_view(old(operators)@)) {
            TiltV::Done(out2, ops2) => r == Ok::<bool, ParseError>(true) && exprs_view(
                final(output)@,
            ) == out2 && toks_view(final(operators)@) == ops2,
            TiltV::NoParen => r == Ok::<bool, ParseError>(false),
            TiltV::Underflow => r == Err::<bool, ParseError>(ParseError::MalformedExpression),
        },
    decreases old(operators)@.len(),
{
    if operators.len() == 0 {
        return Ok(false);
    }
    let n = operators.len();
    let is_paren = match &operators[n - 1].t_type {
        TokenType::LRoundBracket => true,
        _ => false,
    };
    if is_paren {
        let _ = operators.pop();
        proof {
            assert(toks_view(final(operators)@) =~= toks_view(old(operators)@).drop_last());
        }
        return Ok(true);
    }
    let op = match &operators[n - 1].t_type {
        TokenType::Operator(op, _, _) => *op,
        _ => {
            return Err(ParseError::MalformedExpression);
        },
    };
    if output.len() < 2 {
        return Err(ParseError::MalformedExpression);
    }
    pop_operation(output, operators, op);
    tilt_until(operators, output)
}

/// Pops operators that beat an incoming operator of precedence `p` (or
/// tie it, when it is left-associative), combining operands for each; an
/// operator with too few operands is a malformed expression.
fn pop_higher(output: &mut Vec<Expression>, operators: &mut Vec<Token>, p: u8, la: bool) -> (r:
    Result<(), ParseError>)
    ensures
        match spec_pop_ops(exprs_view(old(output)@), toks_view(old(operators)@), p, la) {
            Some((out2, ops2)) => r == Ok::<(), ParseError>(()) && exprs_view(final(output)@)
                == out2 && toks_view(final(operators)@) == ops2,
            None => r == Err::<(), ParseError>(ParseError::MalformedExpression),
        },
    decreases old(operators)@.len(),
{
    if operators.len() == 0 {
        return Ok(());
    }
    let n = operators.len();
    match &operators[n - 1].t_type {
        TokenType::LRoundBracket => Ok(()),
        TokenType::Operator(op2, p2, _) => {
            if *p2 > p || (*p2 == p && la) {
                let op = *op2;
                if output.len() < 2 {
                    return Err(ParseError::MalformedExpression);
                }
                pop_operation(output, operators, op);
                pop_higher(output, operators, p, la)
            } else {
                Ok(())
            }
        },
        _ => Err(ParseError::MalformedExpression),
    }
}

/// Drains the operator stack at the end of an expression, combining
/// operands for each popped operator; a parenthesis still on the stack
/// was never closed.
fn drain_ops(output: &mut Vec<Expression>, operators: &mut Vec<Token>) -> (r: Result<
    (),
    ParseError,
>)
    ensures
        match spec_drain(exprs_view(old(output)@), toks_view(old(operators)@)) {
            DrainV::Done(out2) => r == Ok::<(), ParseError>(()) && exprs_view(final(output)@)
                == out2,
            DrainV::FoundParen => r == Err::<(), ParseError>(ParseError::UnmatchedLParen),
            DrainV::Underflow => r == Err::<(), ParseError>(ParseError::MalformedExpression),
        },
    decreases old(operators)@.len(),
{
    if operators.len() == 0 {
        return Ok(());
    }
    let n = operators.len();
    match &operators[n - 1].t_type {
        TokenType::LRoundBracket => Err(ParseError::UnmatchedLParen),
        TokenType::Operator(op2, _, _) => {
            let op = *op2;
            if output.len() < 2 {
                return Err(ParseError::MalformedExpression);
            }
            pop_operation(output, operators, op);
            drain_ops(output, operators)
        },
        _ => Err(ParseError::MalformedExpression),
    }
}

/// Finishes an expression once its terminator was consumed: drains the
/// operators and takes the one expression left.
fn finish_expression(output: Vec<Expression>, operators: Vec<Token>) -> (r: Result<
    Expression,
    ParseError,
>)
    ensures
        match spec_finish(exprs_view(output@), toks_view(operators@), 0) {
            Ok((e, _)) => match r {
                Ok(expr) => expr@ == e,
                Err(_) => false,
            },
            Err(pe) => r == Err::<Expression, ParseError>(pe),
        },
{
    let mut output = output;
    let mut operators = operators;
    match drain_ops(&mut output, &mut operators) {
        Err(e) => Err(e),
        Ok(()) => {
            if output.len() == 1 {
                let e = output.pop().unwrap();
                proof {
                    assert(exprs_view(output@.push(e)).last() == e@);
                }
                Ok(e)
            } else if output.len() == 0 {
                Err(ParseError::EmptyExpression)
            } else {
                Err(ParseError::MalformedExpression)
            }
        },
    }
}

/// Resolves a type name against the reserved names; an unknown name
/// becomes a custom type.
fn resolve_type(name: String) -> (t: Type)
    ensures
        t@ == spec_resolve_type(name@),
{
    if crate::parsing::text::str_eq(name.as_str(), "int") {
        Type::Integer
    } else if crate::parsing::text::str_eq(name.as_str(), "float") {
        Type::FloatingPoint
    } else if crate::parsing::text::str_eq(name.as_str(), "unit") {
        Type::Unit
    } else if crate::parsing::text::str_eq(name.as_str(), "bool") {
        Type::Boolean
    } else {
        Type::Custom(name)
    }
}

/// Mathematical model of a parser: the token models and the cursor.
pub struct ParserV {
    pub tokens: Seq<TokenV>,
    pub pos: int,
}

/// The parser: a cursor over a borrowed token vector.
pub struct Parser<'a> {
    tokens: &'a Vec<Token>,
    pos: usize,
}

impl<'a> View for Parser<'a> {
    type V = ParserV;

    closed spec fn view(&self) -> ParserV {
        ParserV { tokens: toks_view(self.tokens@), pos: self.pos as int }
    }
}

impl<'a> Parser<'a> {
    /// The cursor lies within the tokens.
    pub open spec fn inv(&self) -> bool {
        0 <= self@.pos <= self@.tokens.len()
    }

    /// A parser at the start of the tokens.
    pub fn new(tokens: &'a Vec<Token>) -> (r: Self)
        ensures
            r@ == (ParserV { tokens: toks_view(tokens@), pos: 0 }),
            r.inv(),
    {
        Self { tokens, pos: 0 }
    }

    /// Parses the whole program: one block, ending at a closing brace or
    /// at the end of the tokens.  Tokens after an ending brace are not
    /// read.
    pub fn parse(&mut self) -> (r: Result<AST, ParseError>)
        requires
            old(self).inv(),
        ensures
            final(self).inv(),
            match spec_parse(old(self)@.tokens, old(self)@.pos) {
                Ok(a) => match r {
                    Ok(ast) => ast@ == a,
                    Err(_) => false,
                },
                Err(e) => r == Err::<AST, ParseError>(e),
            },
    {
        self.parse_block()
    }

    /// Parses statements until a closing brace or the end of the tokens,
    /// leaving the cursor on the ending brace if there is one.
    fn parse_block(&mut self) -> (r: Result<AST, ParseError>)
        requires
            old(self).inv(),
        ensures
            final(self).inv(),
            final(self)@.tokens == old(self)@.tokens,
            match spec_parse_block(old(self)@.tokens, old(self)@.pos) {
                Ok((stmts, j)) => match r {
                    Ok(ast) => ast@ == AstV::Block(stmts) && final(self)@.pos == j && old(
                        self,
                    )@.pos <= j <= old(self)@.tokens.len(),
                    Err(_) => false,
                },
                Err(e) => r == Err::<AST, ParseError>(e),
            },
        decreases old(self)@.tokens.len() - old(self)@.pos, 3int,
    {
        let ghost toks = self@.tokens;
        let ghost i0 = self@.pos;
        let mut statements: Vec<AST> = Vec::new();
        loop
            invariant
                self.inv(),
                toks == old(self)@.tokens,
                i0 == old(self)@.pos,
                self@.tokens == toks,
                i0 <= self@.pos,
                match spec_parse_block(toks, self@.pos) {
                    Ok((rest, j)) => spec_parse_block(toks, i0) == Ok::<
                        (Seq<AstV>, int),
                        ParseError,
                    >((asts_view(statements@) + rest, j)),
                    Err(e) => spec_parse_block(toks, i0) == Err::<(Seq<AstV>, int), ParseError>(e),
                },
            decreases toks.len() - self@.pos,
        {
            let at_end = if self.pos >= self.tokens.len() {
                true
            } else {
                match &self.tokens[self.pos].t_type {
                    TokenType::RCurlyBracket => true,
                    _ => false,
                }
            };
            if at_end {
                proof {
                    assert(asts_view(statements@) + Seq::<AstV>::empty() =~= asts_view(
                        statements@,
                    ));
                }
                return Ok(AST::Block(statements));
            }
            match self.parse_statement() {
                Err(e) => {
                    return Err(e);
                },
                Ok(st) => {
                    let ghost st_v = st@;
                    let ghost s0 = statements@;
                    statements.push(st);
                    proof {
                        assert(statements@.drop_last() =~= s0);
                        assert(statements@.last()@ == st_v);
                        assert(asts_view(statements@) == asts_view(statements@.drop_last()).push(
                            statements@.last()@,
                        ));
                        assert(asts_view(statements@) =~= asts_view(s0).push(st_v));
                        assert(asts_view(s0).push(st_v) =~= asts_view(s0) + seq![st_v]);
                        match spec_parse_block(toks, self@.pos) {
                            Ok((rest2, j2)) => {
                                assert((asts_view(s0) + seq![st_v]) + rest2 =~= asts_view(s0) + (
                                seq![st_v] + rest2));
                            },
                            Err(_) => {},
                        }
                    }
                },
            }
        }
    }

    /// Parses one statement, dispatching on its first token.
    fn parse_statement(&mut self) -> (r: Result<AST, ParseError>)
        requires
            old(self).inv(),
        ensures
            final(self).inv(),
            final(self)@.tokens == old(self)@.tokens,
            match spec_parse_statement(old(self)@.tokens, old(self)@.pos) {
                Ok((st, j)) => match r {
                    Ok(ast) => ast@ == st && final(self)@.pos == j && old(self)@.pos < j <= old(
                        self,
                    )@.tokens.len(),
                    Err(_) => false,
                },
                Err(e) => r == Err::<AST, ParseError>(e),
            },
        decreases old(self)@.tokens.len() - old(self)@.pos, 2int,
    {
        if self.pos >= self.tokens.len() {
            return Err(ParseError::MalformedExpression);
        }
        let t = &self.tokens[self.pos];
        match &t.t_type {
            TokenType::Fn => self.parse_function(),
            TokenType::Id(_) => self.parse_assignment_or_declaration(),
            TokenType::If => self.parse_if(),
            TokenType::While => self.parse_while(),
            TokenType::For => self.parse_for(),
            TokenType::Print => {
                self.pos = self.pos + 1;
                match self.parse_expression() {
                    Err(e) => Err(e),
                    Ok(e) => Ok(AST::Print(e)),
                }
            },
            _ => Err(
                ParseError::UnexpectedStatementToken {
                    found: t.t_type.kind(),
                    line: t.line,
                    char: t.char,
                },
            ),
        }
    }

    /// Function declarations are recognized but not implemented.
    fn parse_function(&mut self) -> (r: Result<AST, ParseError>)
        requires
            old(self).inv(),
            old(self)@.pos < old(self)@.tokens.len(),
            old(self)@.tokens[old(self)@.pos].t_type is Fn,
        ensures
            final(self).inv(),
            final(self)@.tokens == old(self)@.tokens,
            r == Err::<AST, ParseError>(
                ParseError::FnNotImplemented {
                    line: old(self)@.tokens[old(self)@.pos].line as usize,
                    char: old(self)@.tokens[old(self)@.pos].char as usize,
                },
            ),
    {
        let t = &self.tokens[self.pos];
        Err(ParseError::FnNotImplemented { line: t.line, char: t.char })
    }

    /// Parses a statement led by an identifier: an assignment when `:=`
    /// follows, a declaration when another identifier follows.
    fn parse_assignment_or_declaration(&mut self) -> (r: Result<AST, ParseError>)
        requires
            old(self).inv(),
            old(self)@.pos < old(self)@.tokens.len(),
            old(self)@.tokens[old(self)@.pos].t_type is Id,
        ensures
            final(self).inv(),
            final(self)@.tokens == old(self)@.tokens,
            match spec_parse_assign_or_decl(old(self)@.tokens, old(self)@.pos) {
                Ok((st, j)) => match r {
                    Ok(ast) => ast@ == st && final(self)@.pos == j && old(self)@.pos < j <= old(
                        self,
                    )@.tokens.len(),
                    Err(_) => false,
                },
                Err(e) => r == Err::<AST, ParseError>(e),
            },
        decreases old(self)@.tokens.len() - old(self)@.pos, 1int,
    {
        let n_toks = self.tokens.len();
        let name = match &self.tokens[self.pos].t_type {
            TokenType::Id(n) => n.clone(),
            _ => {
                return Err(ParseError::MalformedExpression);
            },
        };
        if self.pos + 1 >= n_toks {
            return Err(ParseError::ExpectedAssignOrIdentEof);
        }
        let t1 = &self.tokens[self.pos + 1];
        match &t1.t_type {
            TokenType::Assignment => {
                self.pos = self.pos + 1;
                self.parse_assignment(name)
            },
            TokenType::Id(_) => {
                self.pos = self.pos + 1;
                self.parse_declaration(name)
            },
            _ => Err(
                ParseError::ExpectedAssignOrIdent {
                    found: t1.t_type.kind(),
                    line: t1.line,
                    char: t1.char,
                },
            ),
        }
    }

    /// Parses the assignment to `id`, starting at the `:=` token.
    fn parse_assignment(&mut self, id: String) -> (r: Result<AST, ParseError>)
        requires
            old(self).inv(),
            old(self)@.pos < old(self)@.tokens.len(),
        ensures
            final(self).inv(),
            final(self)@.tokens == old(self)@.tokens,
            match spec_parse_assignment(old(self)@.tokens, old(self)@.pos, id@) {
                Ok((st, j)) => match r {
                    Ok(ast) => ast@ == st && final(self)@.pos == j && old(self)@.pos < j <= old(
                        self,
                    )@.tokens.len(),
                    Err(_) => false,
                },
                Err(e) => r == Err::<AST, ParseError>(e),
            },
        decreases old(self)@.tokens.len() - old(self)@.pos, 0int,
    {
        let _n_toks = self.tokens.len();
        self.pos = self.pos + 1;
        match self.parse_expression() {
            Err(e) => Err(e),
            Ok(e) => Ok(AST::Assign(id, e)),
        }
    }

    /// Parses the declaration of type `ty_name`, starting at the
    /// declared identifier.
    fn parse_declaration(&mut self, ty_name: String) -> (r: Result<AST, ParseError>)
        requires
            old(self).inv(),
            old(self)@.pos < old(self)@.tokens.len(),
        ensures
            final(self).inv(),
            final(self)@.tokens == old(self)@.tokens,
            match spec_parse_declaration(old(self)@.tokens, old(self)@.pos, ty_name@) {
                Ok((st, j)) => match r {
                    Ok(ast) => ast@ == st && final(self)@.pos == j && old(self)@.pos < j <= old(
                        self,
                    )@.tokens.len(),
                    Err(_) => false,
                },
                Err(e) => r == Err::<AST, ParseError>(e),
            },
        decreases old(self)@.tokens.len() - old(self)@.pos, 0int,
    {
        let n_toks = self.tokens.len();
        let id = match &self.tokens[self.pos].t_type {
            TokenType::Id(n) => n.clone(),
            _ => {
                return Err(ParseError::MalformedExpression);
            },
        };
        let found_type = resolve_type(ty_name);
        if self.pos + 1 >= n_toks {
            return Err(ParseError::DeclarationEof);
        }
        let is_assign = match &self.tokens[self.pos + 1].t_type {
            TokenType::Assignment => true,
            _ => false,
        };
        if is_assign {
            self.pos = self.pos + 2;
            match self.parse_expression() {
                Err(e) => Err(e),
                Ok(e) => Ok(AST::VarDeclarationAndAssignment(found_type, id, e)),
            }
        } else {
            self.pos = self.pos + 1;
            Ok(AST::VarDeclaration(found_type, id))
        }
    }

    /// Requires and consumes the closing brace of a block.
    fn expect(&mut self) -> (r: Result<(), ParseError>)
        requires
            old(self).inv(),
        ensures
            final(self).inv(),
            final(self)@.tokens == old(self)@.tokens,
            match spec_expect_rcurly(old(self)@.tokens, old(self)@.pos) {
                Ok(k2) => r == Ok::<(), ParseError>(()) && final(self)@.pos == k2 && old(self)@.pos
                    < k2 <= old(self)@.tokens.len(),
                Err(e) => r == Err::<(), ParseError>(e),
            },
    {
        if self.pos >= self.tokens.len() {
            return Err(ParseError::ExpectedRCurlyEof);
        }
        let t = &self.tokens[self.pos];
        match &t.t_type {
            TokenType::RCurlyBracket => {
                self.pos = self.pos + 1;
                Ok(())
            },
            _ => Err(
                ParseError::ExpectedRCurly { found: t.t_type.kind(), line: t.line, char: t.char },
            ),
        }
    }

    /// Parses an `if` statement, starting at the keyword.
    fn parse_if(&mut self) -> (r: Result<AST, ParseError>)
        requires
            old(self).inv(),
            old(self)@.pos < old(self)@.tokens.len(),
        ensures
            final(self).inv(),
            final(self)@.tokens == old(self)@.tokens,
            match spec_parse_if(old(self)@.tokens, old(self)@.pos) {
                Ok((st, j)) => match r {
                    Ok(ast) => ast@ == st && final(self)@.pos == j && old(self)@.pos < j <= old(
                        self,
                    )@.tokens.len(),
                    Err(_) => false,
                },
                Err(e) => r == Err::<AST, ParseError>(e),
            },
        decreases old(self)@.tokens.len() - old(self)@.pos, 1int,
    {
        let _n_toks = self.tokens.len();
        self.pos = self.pos + 1;
        let clause = match self.parse_expression() {
            Err(e) => {
                return Err(e);
            },
            Ok(c) => c,
        };
        let block = match self.parse_block() {
            Err(e) => {
                return Err(e);
            },
            Ok(b) => b,
        };
        match self.expect() {
            Err(e) => {
                return Err(e);
            },
            Ok(()) => {},
        }
        Ok(AST::IfStatement(clause, Box::new(block)))
    }

    /// Parses a `while` statement, starting at the keyword.
    fn parse_while(&mut self) -> (r: Result<AST, ParseError>)
        requires
            old(self).inv(),
            old(self)@.pos < old(self)@.tokens.len(),
        ensures
            final(self).inv(),
            final(self)@.tokens == old(self)@.tokens,
            match spec_parse_while(old(self)@.tokens, old(self)@.pos) {
                Ok((st, j)) => match r {
                    Ok(ast) => ast@ == st && final(self)@.pos == j && old(self)@.pos < j <= old(
                        self,
                    )@.tokens.len(),
                    Err(_) => false,
                },
                Err(e) => r == Err::<AST, ParseError>(e),
            },
        decreases old(self)@.tokens.len() - old(self)@.pos, 1int,
    {
        let _n_toks = self.tokens.len();
        self.pos = self.pos + 1;
        let clause = match self.parse_expression() {
            Err(e) => {
                return Err(e);
            },
            Ok(c) => c,
        };
        let block = match self.parse_block() {
            Err(e) => {
                return Err(e);
            },
            Ok(b) => b,
        };
        match self.expect() {
            Err(e) => {
                return Err(e);
            },
            Ok(()) => {},
        }
        Ok(AST::WhileStatement(clause, Box::new(block)))
    }

    /// Parses a `for` statement, starting at the keyword.
    fn parse_for(&mut self) -> (r: Result<AST, ParseError>)
        requires
            old(self).inv(),
            old(self)@.pos < old(self)@.tokens.len(),
        ensures
            final(self).inv(),
            final(self)@.tokens == old(self)@.tokens,
            match spec_parse_for(old(self)@.tokens, old(self)@.pos) {
                Ok((st, j)) => match r {
                    Ok(ast) => ast@ == st && final(self)@.pos == j && old(self)@.pos < j <= old(
                        self,
                    )@.tokens.len(),
                    Err(_) => false,
                },
                Err(e) => r == Err::<AST, ParseError>(e),
            },
        decreases old(self)@.tokens.len() - old(self)@.pos, 1int,
    {
        let n_toks = self.tokens.len();
        self.pos = self.pos + 1;
        if self.pos >= n_toks {
            return Err(ParseError::MalformedExpression);
        }
        let has_id = match &self.tokens[self.pos].t_type {
            TokenType::Id(_) => true,
            _ => false,
        };
        if !has_id {
            return Err(ParseError::MalformedExpression);
        }
        let init = match self.parse_assignment_or_declaration() {
            Err(e) => {
                return Err(e);
            },
            Ok(st) => st,
        };
        let clause = match self.parse_expression() {
            Err(e) => {
                return Err(e);
            },
            Ok(c) => c,
        };
        let inc = if self.pos < self.tokens.len() {
            let has_id2 = match &self.tokens[self.pos].t_type {
                TokenType::Id(_) => true,
                _ => false,
            };
            if !has_id2 {
                return Err(ParseError::MalformedExpression);
            }
            match self.parse_assignment_or_declaration() {
                Err(e) => {
                    return Err(e);
                },
                Ok(st) => st,
            }
        } else {
            return Err(ParseError::MalformedExpression);
        };
        let block = match self.parse_block() {
            Err(e) => {
                return Err(e);
            },
            Ok(b) => b,
        };
        match self.expect() {
            Err(e) => {
                return Err(e);
            },
            Ok(()) => {},
        }
        Ok(AST::ForStatement(Box::new(init), clause, Box::new(inc), Box::new(block)))
    }

    /// Parses an expression with the shunting yard, consuming its
    /// terminator.
    fn parse_expression(&mut self) -> (r: Result<Expression, ParseError>)
        requires
            old(self).inv(),
        ensures
            final(self).inv(),
            final(self)@.tokens == old(self)@.tokens,
            match spec_parse_expression(old(self)@.tokens, old(self)@.pos) {
                Ok((e, j)) => match r {
                    Ok(expr) => expr@ == e && final(self)@.pos == j && old(self)@.pos < j <= old(
                        self,
                    )@.tokens.len(),
                    Err(_) => false,
                },
                Err(pe) => r == Err::<Expression, ParseError>(pe),
            },
    {
        let ghost toks = self@.tokens;
        let ghost i0 = self@.pos;
        let mut output: Vec<Expression> = Vec::new();
        let mut operators: Vec<Token> = Vec::new();
        proof {
            assert(exprs_view(output@) =~= Seq::<ExprV>::empty());
            assert(toks_view(operators@) =~= Seq::<TokenV>::empty());
        }
        loop
            invariant
                self.inv(),
                toks == old(self)@.tokens,
                i0 == old(self)@.pos,
                self@.tokens == toks,
                i0 <= self@.pos,
                spec_shunt(toks, self@.pos, exprs_view(output@), toks_view(operators@))
                    == spec_parse_expression(toks, i0),
                self@.pos == i0 ==> output@.len() == 0 && operators@.len() == 0,
            decreases toks.len() - self@.pos,
        {
            if self.pos >= self.tokens.len() {
                let r = finish_expression(output, operators);
                match r {
                    Ok(expr) => {
                        return Ok(expr);
                    },
                    Err(e) => {
                        return Err(e);
                    },
                }
            }
            let t = &self.tokens[self.pos];
            let ghost o0 = output@;
            let ghost p0 = operators@;
            match &t.t_type {
                TokenType::Semicolon => {
                    self.pos = self.pos + 1;
                    return finish_expression(output, operators);
                },
                TokenType::LCurlyBracket => {
                    self.pos = self.pos + 1;
                    return finish_expression(output, operators);
                },
                TokenType::RCurlyBracket => {
                    return finish_expression(output, operators);
                },
                TokenType::Id(name) => {
                    output.push(Expression::Variable(name.clone()));
                    self.pos = self.pos + 1;
                    proof {
                        assert(exprs_view(output@) =~= exprs_view(o0).push(
                            ExprV::Variable(toks[self@.pos - 1].t_type->Id_0),
                        ));
                    }
                },
                TokenType::BooleanLiteral(b) => {
                    output.push(Expression::BooleanLiteral(*b));
                    self.pos = self.pos + 1;
                    proof {
                        assert(exprs_view(output@) =~= exprs_view(o0).push(
                            exprs_view(output@).last(),
                        ));
                    }
                },
                TokenType::IntegerLiteral(v) => {
                    output.push(Expression::IntegerLiteral(*v));
                    self.pos = self.pos + 1;
                    proof {
                        assert(exprs_view(output@) =~= exprs_view(o0).push(
                            exprs_view(output@).last(),
                        ));
                    }
                },
                TokenType::FloatLiteral(b) => {
                    output.push(Expression::FloatLiteral(*b));
                    self.pos = self.pos + 1;
                    proof {
                        assert(exprs_view(output@) =~= exprs_view(o0).push(
                            exprs_view(output@).last(),
                        ));
                    }
                },
                TokenType::LRoundBracket => {
                    operators.push(t.clone());
                    self.pos = self.pos + 1;
                    proof {
                        assert(toks_view(operators@) =~= toks_view(p0).push(
                            toks[self@.pos - 1],
                        ));
                    }
                },
                TokenType::RRoundBracket => {
                    let line = t.line;
                    let char = t.char;
                    match tilt_until(&mut operators, &mut output) {
                        Err(e) => {
                            return Err(e);
                        },
                        Ok(false) => {
                            return Err(ParseError::UnmatchedRParen { line, char });
                        },
                        Ok(true) => {
                            self.pos = self.pos + 1;
                        },
                    }
                },
                TokenType::Operator(_, p, la) => {
                    let p = *p;
                    let la = *la;
                    let tok = t.clone();
                    match pop_higher(&mut output, &mut operators, p, la) {
                        Err(e) => {
                            return Err(e);
                        },
                        Ok(()) => {
                            let ghost p1 = operators@;
                            operators.push(tok);
                            self.pos = self.pos + 1;
                            proof {
                                assert(toks_view(operators@) =~= toks_view(p1).push(
                                    toks[self@.pos - 1],
                                ));
                            }
                        },
                    }
                },
                _ => {
                    return Err(
                        ParseError::UnexpectedExpressionToken {
                            found: t.t_type.kind(),
                            line: t.line,
                            char: t.char,
                        },
                    );
                },
            }
        }
    }
}

} // verus!
