//! The library's stated laws: what holds of the lexer's spans, the
//! parser's grouping, the analyzer's acceptance, and the evaluator's
//! scope discipline, each proved over the models the contracts use.

use vstd::prelude::*;
use crate::float::{float_of_literal, is_digit_char, is_float_literal};
use crate::parsing::analyzer::{
    spec_analyze_stmt,
    spec_analyze_stmts,
    spec_op_type,
    spec_type_of_expr,
    TypeTable,
};
use crate::parsing::ast::{AstV, ExprV, TypeV};
use crate::parsing::lexer::{
    dec_val,
    is_letter_char,
    is_whitespace_char,
    lemma_dec_val_nonneg,
    lemma_scan_while,
    scan_while,
    spec_lex,
    spec_lex_from,
    spec_token_at,
    SpannedV,
};
use crate::parsing::parser::{spec_parse, spec_parse_expression, spec_shunt};
use crate::parsing::symbol_table::{type_declared, type_lookup};
use crate::parsing::token::{
    spec_left_assoc,
    spec_precedence,
    Operator,
    TokenTypeV,
    TokenV,
};
use crate::execution::interpreter::{spec_eval_expr, spec_eval_stmt, MemTable, OutputV};
use crate::execution::value::{RuntimeErrorV, Value};

verus! {

/// The character an operator token was lexed from.
pub open spec fn op_char(op: Operator) -> char {
    match op {
        Operator::Add => '+',
        Operator::Sub => '-',
        Operator::Mul => '*',
        Operator::Div => '/',
        Operator::Pow => '^',
        Operator::And => '&',
        Operator::Or => '|',
        Operator::Eq => '=',
        Operator::Gt => '>',
        Operator::Lt => '<',
    }
}

/// What it means for a stretch of input to spell a token: its lexeme.
/// An operator's recorded precedence and associativity are those of the
/// fixed table.
pub open spec fn lexeme_matches(t: TokenTypeV, lex: Seq<char>) -> bool {
    match t {
        TokenTypeV::Id(n) => lex == n,
        TokenTypeV::LRoundBracket => lex == seq!['('],
        TokenTypeV::RRoundBracket => lex == seq![')'],
        TokenTypeV::LCurlyBracket => lex == seq!['{'],
        TokenTypeV::RCurlyBracket => lex == seq!['}'],
        TokenTypeV::IntegerLiteral(v) => lex.len() > 0 && (forall|j: int|
            0 <= j < lex.len() ==> is_digit_char(#[trigger] lex[j])) && v as int == dec_val(lex),
        TokenTypeV::FloatLiteral(b) => is_float_literal(lex) && b == float_of_literal(lex),
        TokenTypeV::BooleanLiteral(bv) => if bv {
            lex == "true"@
        } else {
            lex == "false"@
        },
        TokenTypeV::Operator(op, p, la) => lex == seq![op_char(op)] && p == spec_precedence(op)
            && la == spec_left_assoc(op),
        TokenTypeV::Print => lex == "print"@,
        TokenTypeV::Semicolon => lex == seq![';'],
        TokenTypeV::Fn => lex == "Fn"@,
        TokenTypeV::Comma => lex == seq![','],
        TokenTypeV::Assignment => lex == seq![':', '='],
        TokenTypeV::If => lex == "if"@,
        TokenTypeV::While => lex == "while"@,
        TokenTypeV::For => lex == "for"@,
    }
}

/// The line and column of a position: lines opened by the newlines
/// before it, columns counted since the last newline.
pub open spec fn line_col_at(s: Seq<char>, i: int) -> (int, int)
    decreases i,
{
    if i <= 0 {
        (0, 0)
    } else {
        let (l, c) = line_col_at(s, i - 1);
        if s[i - 1] == '\n' {
            (l + 1, 0)
        } else {
            (l, c + 1)
        }
    }
}

/// Whether some span covers the position.
pub open spec fn covered(sp: Seq<SpannedV>, j: int) -> bool {
    exists|k: int| 0 <= k < sp.len() && (#[trigger] sp[k]).start <= j < sp[k].end
}

/// The spans partition the input from `i` on: they lie within it in
/// order without overlap, each spells its token's lexeme, everything
/// between them is whitespace, and each token's recorded position is the
/// line and column at the end of its span.
pub open spec fn partitioned(s: Seq<char>, i: int, sp: Seq<SpannedV>) -> bool {
    &&& forall|k: int| 0 <= k < sp.len() ==> i <= (#[trigger] sp[k]).start < sp[k].end <= s.len()
    &&& forall|k1: int, k2: int|
        0 <= k1 < k2 < sp.len() ==> (#[trigger] sp[k1]).end <= (#[trigger] sp[k2]).start
    &&& forall|k: int|
        0 <= k < sp.len() ==> lexeme_matches(
            (#[trigger] sp[k]).token,
            s.subrange(sp[k].start, sp[k].end),
        )
    &&& forall|j: int|
        i <= j < s.len() && !covered(sp, j) ==> is_whitespace_char(#[trigger] s[j])
    &&& forall|k: int|
        0 <= k < sp.len() ==> line_col_at(s, (#[trigger] sp[k]).end) == (sp[k].line, sp[k].char)
}

/// Consuming characters that are not newlines advances the column and
/// keeps the line.
proof fn lemma_line_col_advance(s: Seq<char>, a: int, b: int)
    requires
        0 <= a <= b <= s.len(),
        forall|j: int| a <= j < b ==> #[trigger] s[j] != '\n',
    ensures
        line_col_at(s, b).0 == line_col_at(s, a).0,
        line_col_at(s, b).1 == line_col_at(s, a).1 + (b - a),
    decreases b - a,
{
    if a < b {
        lemma_line_col_advance(s, a, b - 1);
    }
}

/// What one recognized token spells: it covers at least one character,
/// stays within the input, contains no newline, and its stretch of input
/// is exactly its lexeme.
proof fn lemma_token_at_lexeme(s: Seq<char>, i: int, line: int, col: int)
    requires
        0 <= i < s.len(),
        !is_whitespace_char(s[i]),
    ensures
        match spec_token_at(s, i, line, col) {
            Ok((t, end)) => {
                &&& i < end <= s.len()
                &&& lexeme_matches(t, s.subrange(i, end))
                &&& forall|j: int| i <= j < end ==> #[trigger] s[j] != '\n'
            },
            Err(_) => true,
        },
{
    let c = s[i];
    if i + 1 <= s.len() {
        assert(s.subrange(i, i + 1) =~= seq![s[i]]);
    }
    if i + 2 <= s.len() {
        assert(s.subrange(i, i + 2) =~= seq![s[i], s[i + 1]]);
    }
    if c == ':' {
        // `:=` or a failure; both characters are visible above
    } else if is_digit_char(c) {
        lemma_scan_while(s, i, |ch: char| is_digit_char(ch));
        let j = scan_while(s, i, |ch: char| is_digit_char(ch));
        assert(is_digit_char(s[i]));
        if j < s.len() && s[j] == '.' {
            lemma_scan_while(s, j + 1, |ch: char| is_digit_char(ch));
            let k = scan_while(s, j + 1, |ch: char| is_digit_char(ch));
            let w = s.subrange(i, k);
            assert(w[j - i] == '.');
            assert forall|q: int| 0 <= q < w.len() && q != j - i implies is_digit_char(
                #[trigger] w[q],
            ) by {
                if q < j - i {
                    assert(w[q] == s[i + q]);
                } else {
                    assert(w[q] == s[i + q] && j + 1 <= i + q < k);
                }
            }
            assert(is_float_literal(w));
            assert forall|q: int| i <= q < k implies #[trigger] s[q] != '\n' by {
                if q != j {
                    assert(is_digit_char(s[q]));
                }
            }
        } else {
            let w = s.subrange(i, j);
            assert forall|q: int| 0 <= q < w.len() implies is_digit_char(#[trigger] w[q]) by {
                assert(w[q] == s[i + q]);
            }
            lemma_dec_val_nonneg(w);
            assert forall|q: int| i <= q < j implies #[trigger] s[q] != '\n' by {
                assert(is_digit_char(s[q]));
            }
        }
    } else if is_letter_char(c) {
        lemma_scan_while(s, i, |ch: char| crate::parsing::lexer::is_id_char(ch));
        let j = scan_while(s, i, |ch: char| crate::parsing::lexer::is_id_char(ch));
        assert(crate::parsing::lexer::is_id_char(s[i]));
        assert forall|q: int| i <= q < j implies #[trigger] s[q] != '\n' by {
            assert(crate::parsing::lexer::is_id_char(s[q]));
        }
    }
}

/// The lexing of the input from a position onward partitions what
/// remains, provided the position's line and column are named right.
proof fn lemma_lex_from_partition(s: Seq<char>, i: int, line: int, col: int)
    requires
        0 <= i <= s.len(),
        line_col_at(s, i) == (line, col),
    ensures
        match spec_lex_from(s, i, line, col) {
            Ok(sp) => partitioned(s, i, sp),
            Err(_) => true,
        },
    decreases s.len() - i,
{
    if i >= s.len() {
    } else if is_whitespace_char(s[i]) {
        if s[i] == '\n' {
            lemma_lex_from_partition(s, i + 1, line + 1, 0);
        } else {
            lemma_lex_from_partition(s, i + 1, line, col + 1);
        }
        match spec_lex_from(s, i, line, col) {
            Ok(sp) => {
                assert forall|j: int| i <= j < s.len() && !covered(sp, j)
                    implies is_whitespace_char(#[trigger] s[j]) by {
                    if j > i {
                        assert(partitioned(s, i + 1, sp));
                    }
                }
            },
            Err(_) => {},
        }
    } else {
        lemma_token_at_lexeme(s, i, line, col);
        match spec_token_at(s, i, line, col) {
            Err(_) => {},
            Ok((t, end)) => {
                lemma_line_col_advance(s, i, end);
                let col2 = col + (end - i);
                lemma_lex_from_partition(s, end, line, col2);
                match spec_lex_from(s, end, line, col2) {
                    Err(_) => {},
                    Ok(rest) => {
                        let sp0 = SpannedV {
                            token: t,
                            start: i,
                            end: end,
                            line: line,
                            char: col2,
                        };
                        let whole = seq![sp0] + rest;
                        assert(whole[0] == sp0);
                        assert(forall|k: int|
                            1 <= k < whole.len() ==> #[trigger] whole[k] == rest[k - 1]);
                        assert(partitioned(s, end, rest));
                        assert forall|j: int| i <= j < s.len() && !covered(whole, j)
                            implies is_whitespace_char(#[trigger] s[j]) by {
                            if j < end {
                                assert(whole[0].start <= j < whole[0].end);
                                assert(covered(whole, j));
                            } else {
                                if covered(rest, j) {
                                    let k = choose|k: int|
                                        0 <= k < rest.len() && (#[trigger] rest[k]).start <= j
                                            < rest[k].end;
                                    assert(whole[k + 1].start <= j < whole[k + 1].end);
                                    assert(covered(whole, j));
                                }
                            }
                        }
                        assert forall|k1: int, k2: int| 0 <= k1 < k2 < whole.len()
                            implies (#[trigger] whole[k1]).end <= (#[trigger] whole[k2]).start by {
                            if k1 == 0 {
                                assert(whole[k2] == rest[k2 - 1]);
                                assert(rest[k2 - 1].start >= end);
                            } else {
                                assert(whole[k1] == rest[k1 - 1] && whole[k2] == rest[k2 - 1]);
                            }
                        }
                        assert forall|k: int| 0 <= k < whole.len() implies lexeme_matches(
                            (#[trigger] whole[k]).token,
                            s.subrange(whole[k].start, whole[k].end),
                        ) by {
                            if k > 0 {
                                assert(whole[k] == rest[k - 1]);
                            }
                        }
                        assert forall|k: int| 0 <= k < whole.len() implies line_col_at(
                            s,
                            (#[trigger] whole[k]).end,
                        ) == (whole[k].line, whole[k].char) by {
                            if k > 0 {
                                assert(whole[k] == rest[k - 1]);
                            }
                        }
                        assert(partitioned(s, i, whole));
                    },
                }
            },
        }
    }
}

/// Law: the tokens the lexer produces partition the input.  Their spans
/// lie within it, in order and without overlap; each span's characters
/// spell exactly its token's lexeme; every character outside all spans
/// is whitespace; and each token's recorded line and column are those of
/// the end of its span.  Re-reading the lexemes at the recorded
/// positions therefore recovers the input up to whitespace.
pub proof fn lemma_lex_partition(s: Seq<char>)
    ensures
        match spec_lex(s) {
            Ok(sp) => partitioned(s, 0, sp),
            Err(_) => true,
        },
{
    lemma_lex_from_partition(s, 0, 0, 0);
}

/// Law: parsing is a function of the token models alone.  Two token
/// sequences with equal models parse to equal trees, so repeated runs of
/// the parser over one lexing yield structurally identical programs.
pub proof fn lemma_parse_deterministic(t1: Seq<TokenV>, t2: Seq<TokenV>, i: int)
    requires
        t1 == t2,
    ensures
        spec_parse(t1, i) == spec_parse(t2, i),
{
}

/// Whether every variable an expression reads is bound in some live
/// frame, and every operation in it obeys the operator typing table.
pub open spec fn expr_wf(e: ExprV, tbl: TypeTable) -> bool
    decreases e,
{
    match e {
        ExprV::Variable(n) => type_lookup(tbl, n) is Some,
        ExprV::BinaryOperation(l, op, r) => {
            &&& expr_wf(*l, tbl)
            &&& expr_wf(*r, tbl)
            &&& spec_type_of_expr(*l, tbl) is Ok
            &&& spec_type_of_expr(*r, tbl) is Ok
            &&& spec_op_type(
                spec_type_of_expr(*l, tbl)->Ok_0,
                op,
                spec_type_of_expr(*r, tbl)->Ok_0,
            ) is Ok
        },
        _ => true,
    }
}

/// Whether every expression inside a statement is well formed under the
/// table live at its position, scopes threaded as the analyzer threads
/// them.
pub open spec fn stmt_exprs_wf(a: AstV, tbl: TypeTable) -> bool
    decreases a,
{
    match a {
        AstV::Block(ss) => stmts_exprs_wf(ss, tbl),
        AstV::Assign(id, e) => type_lookup(tbl, id) is Some && expr_wf(e, tbl),
        AstV::VarDeclaration(_, _) => true,
        AstV::Print(e) => expr_wf(e, tbl),
        AstV::VarDeclarationAndAssignment(t, id, e) => expr_wf(
            e,
            crate::parsing::analyzer::table_bind(tbl, id, t),
        ),
        AstV::IfStatement(c, body) => expr_wf(c, tbl) && stmt_exprs_wf(
            *body,
            tbl.push(Map::empty()),
        ),
        AstV::WhileStatement(c, body) => expr_wf(c, tbl) && stmt_exprs_wf(
            *body,
            tbl.push(Map::empty()),
        ),
        AstV::ForStatement(init, c, inc, body) => {
            let t0 = tbl.push(Map::empty());
            &&& stmt_exprs_wf(*init, t0)
            &&& match spec_analyze_stmt(*init, t0) {
                Ok(t1) => {
                    &&& expr_wf(c, t1)
                    &&& stmt_exprs_wf(*inc, t1)
                    &&& match spec_analyze_stmt(*inc, t1) {
                        Ok(t2) => stmt_exprs_wf(*body, t2),
                        Err(_) => true,
                    }
                },
                Err(_) => true,
            }
        },
    }
}

/// Statement well-formedness for a run, scopes threaded in order.
pub open spec fn stmts_exprs_wf(ss: Seq<AstV>, tbl: TypeTable) -> bool
    decreases ss,
{
    if ss.len() == 0 {
        true
    } else {
        &&& stmt_exprs_wf(ss[0], tbl)
        &&& match spec_analyze_stmt(ss[0], tbl) {
            Ok(t1) => stmts_exprs_wf(ss.drop_first(), t1),
            Err(_) => true,
        }
    }
}

/// A well-typed expression reads only bound variables and applies
/// operators only as the typing table allows.
proof fn lemma_typed_expr_wf(e: ExprV, tbl: TypeTable)
    ensures
        spec_type_of_expr(e, tbl) is Ok ==> expr_wf(e, tbl),
    decreases e,
{
    match e {
        ExprV::BinaryOperation(l, op, r) => {
            lemma_typed_expr_wf(*l, tbl);
            lemma_typed_expr_wf(*r, tbl);
        },
        _ => {},
    }
}

/// Law: in a tree the analyzer accepts, every variable read refers to a
/// name bound in some frame live at that position, and every operation
/// obeys the operator typing table.
pub proof fn lemma_accepted_tree_wf(a: AstV, tbl: TypeTable)
    requires
        tbl.len() >= 1,
    ensures
        spec_analyze_stmt(a, tbl) is Ok ==> stmt_exprs_wf(a, tbl),
    decreases a,
{
    match a {
        AstV::Block(ss) => {
            lemma_accepted_stmts_wf(ss, tbl);
        },
        AstV::Assign(id, e) => {
            lemma_typed_expr_wf(e, tbl);
        },
        AstV::Print(e) => {
            lemma_typed_expr_wf(e, tbl);
        },
        AstV::VarDeclarationAndAssignment(t, id, e) => {
            lemma_typed_expr_wf(e, crate::parsing::analyzer::table_bind(tbl, id, t));
        },
        AstV::IfStatement(c, body) => {
            lemma_typed_expr_wf(c, tbl);
            lemma_accepted_tree_wf(*body, tbl.push(Map::empty()));
        },
        AstV::WhileStatement(c, body) => {
            lemma_typed_expr_wf(c, tbl);
            lemma_accepted_tree_wf(*body, tbl.push(Map::empty()));
        },
        AstV::ForStatement(init, c, inc, body) => {
            let t0 = tbl.push(Map::empty());
            lemma_accepted_tree_wf(*init, t0);
            match spec_analyze_stmt(*init, t0) {
                Ok(t1) => {
                    crate::parsing::analyzer::lemma_analyze_preserves_len(*init, t0);
                    lemma_typed_expr_wf(c, t1);
                    lemma_accepted_tree_wf(*inc, t1);
                    match spec_analyze_stmt(*inc, t1) {
                        Ok(t2) => {
                            crate::parsing::analyzer::lemma_analyze_preserves_len(*inc, t1);
                            lemma_accepted_tree_wf(*body, t2);
                        },
                        Err(_) => {},
                    }
                },
                Err(_) => {},
            }
        },
        _ => {},
    }
}

/// Statement-run form of the acceptance law.
pub proof fn lemma_accepted_stmts_wf(ss: Seq<AstV>, tbl: TypeTable)
    requires
        tbl.len() >= 1,
    ensures
        spec_analyze_stmts(ss, tbl) is Ok ==> stmts_exprs_wf(ss, tbl),
    decreases ss,
{
    if ss.len() > 0 {
        lemma_accepted_tree_wf(ss[0], tbl);
        match spec_analyze_stmt(ss[0], tbl) {
            Ok(t1) => {
                crate::parsing::analyzer::lemma_analyze_preserves_len(ss[0], tbl);
                lemma_accepted_stmts_wf(ss.drop_first(), t1);
            },
            Err(_) => {},
        }
    }
}

/// Law: the analyzer's verdict is a function of the tree's model and the
/// starting table alone.  Re-running it on a freshly cloned tree, from a
/// fresh table, yields the same verdict.
pub proof fn lemma_analyze_idempotent(a1: AstV, a2: AstV, tbl: TypeTable)
    requires
        a1 == a2,
    ensures
        spec_analyze_stmt(a1, tbl) == spec_analyze_stmt(a2, tbl),
{
}

/// Law: two operators whose recorded precedences tie group to the left
/// whenever the second is marked left-associative.  The fixed table
/// marks `+ - * / & |` and `^` left-associative at their tied
/// precedences, so none of them ever groups to the right; the power
/// symbol in particular follows the table rather than the usual
/// convention.
pub proof fn lemma_left_assoc_grouping(
    t: Seq<TokenV>,
    a: i32,
    b: i32,
    c: i32,
    op1: Operator,
    op2: Operator,
)
    requires
        t.len() == 6,
        t[0].t_type == TokenTypeV::IntegerLiteral(a),
        t[1].t_type == TokenTypeV::Operator(op1, spec_precedence(op1), spec_left_assoc(op1)),
        t[2].t_type == TokenTypeV::IntegerLiteral(b),
        t[3].t_type == TokenTypeV::Operator(op2, spec_precedence(op2), spec_left_assoc(op2)),
        t[4].t_type == TokenTypeV::IntegerLiteral(c),
        t[5].t_type == TokenTypeV::Semicolon,
        spec_precedence(op1) == spec_precedence(op2),
        spec_left_assoc(op2),
    ensures
        spec_parse_expression(t, 0) == Ok::<(ExprV, int), crate::parsing::parser::ParseError>(
            (
                ExprV::BinaryOperation(
                    Box::new(
                        ExprV::BinaryOperation(
                            Box::new(ExprV::IntegerLiteral(a)),
                            op1,
                            Box::new(ExprV::IntegerLiteral(b)),
                        ),
                    ),
                    op2,
                    Box::new(ExprV::IntegerLiteral(c)),
                ),
                6,
            ),
        ),
{
    let e_a = ExprV::IntegerLiteral(a);
    let e_b = ExprV::IntegerLiteral(b);
    let e_c = ExprV::IntegerLiteral(c);
    let e_ab = ExprV::BinaryOperation(Box::new(e_a), op1, Box::new(e_b));
    let e_abc = ExprV::BinaryOperation(Box::new(e_ab), op2, Box::new(e_c));
    assert(spec_shunt(t, 0, Seq::empty(), Seq::empty()) == spec_shunt(
        t,
        1,
        Seq::empty().push(e_a),
        Seq::empty(),
    ));
    assert(spec_shunt(t, 1, Seq::empty().push(e_a), Seq::empty()) == spec_shunt(
        t,
        2,
        Seq::empty().push(e_a),
        Seq::<TokenV>::empty().push(t[1]),
    ));
    let ops1 = Seq::<TokenV>::empty().push(t[1]);
    assert(spec_shunt(t, 2, Seq::empty().push(e_a), ops1) == spec_shunt(
        t,
        3,
        Seq::empty().push(e_a).push(e_b),
        ops1,
    ));
    let out2 = Seq::empty().push(e_a).push(e_b);
    assert(out2.drop_last().drop_last() =~= Seq::<ExprV>::empty());
    assert(out2[out2.len() - 2] == e_a && out2.last() == e_b);
    assert(ops1.drop_last() =~= Seq::<TokenV>::empty());
    let out3 = Seq::<ExprV>::empty().push(e_ab);
    assert(out2.drop_last().drop_last().push(e_ab) == out3);
    assert(crate::parsing::parser::spec_pop_ops(
        out3,
        Seq::<TokenV>::empty(),
        spec_precedence(op2),
        spec_left_assoc(op2),
    ) == Some((out3, Seq::<TokenV>::empty())));
    assert(crate::parsing::parser::spec_pop_ops(
        out2,
        ops1,
        spec_precedence(op2),
        spec_left_assoc(op2),
    ) == Some((out3, Seq::<TokenV>::empty())));
    let ops2 = Seq::<TokenV>::empty().push(t[3]);
    assert(spec_shunt(t, 3, out2, ops1) == spec_shunt(t, 4, out3, ops2));
    let out4 = out3.push(e_c);
    assert(spec_shunt(t, 4, out3, ops2) == spec_shunt(t, 5, out4, ops2));
    assert(spec_shunt(t, 5, out4, ops2) == crate::parsing::parser::spec_finish(out4, ops2, 6));
    assert(out4.drop_last().drop_last() =~= Seq::<ExprV>::empty());
    assert(out4[out4.len() - 2] == e_ab && out4.last() == e_c);
    assert(ops2.drop_last() =~= Seq::<TokenV>::empty());
    let out5 = Seq::<ExprV>::empty().push(e_abc);
    assert(out4.drop_last().drop_last().push(e_abc) == out5);
    assert(crate::parsing::parser::spec_drain(out5, Seq::<TokenV>::empty())
        == crate::parsing::parser::DrainV::Done(out5));
    assert(crate::parsing::parser::spec_drain(out4, ops2)
        == crate::parsing::parser::DrainV::Done(out5));
    assert(out5[0] == e_abc);
}

/// Law: a declaration is rejected exactly when some live frame, at any
/// depth, already binds the name: the redeclaration check walks all
/// frames, not only the innermost one.
pub proof fn lemma_redeclaration_rejected(t: TypeV, id: Seq<char>, tbl: TypeTable)
    requires
        tbl.len() >= 1,
    ensures
        (spec_analyze_stmt(AstV::VarDeclaration(t, id), tbl) is Err) == type_declared(tbl, id),
{
}

/// Law: a `while` whose condition is false leaves the store and the
/// output unchanged; the one transient frame it pushes is popped again
/// and nothing else happens.
pub proof fn lemma_while_false(fuel: nat, c: ExprV, body: AstV, m: MemTable, o: OutputV)
    requires
        spec_eval_expr(c, m.push(Map::empty())) == Ok::<Value, RuntimeErrorV>(
            Value::BooleanValue(false),
        ),
    ensures
        spec_eval_stmt(fuel, AstV::WhileStatement(c, Box::new(body)), m, o) == Some(
            Ok::<(MemTable, OutputV), RuntimeErrorV>((m, o)),
        ),
{
    let m1 = m.push(Map::empty());
    assert(crate::execution::interpreter::spec_eval_while(fuel, c, body, m1, o) == Some(
        Ok::<(MemTable, OutputV), RuntimeErrorV>((m1, o)),
    ));
    assert(m1.drop_last() =~= m);
}

} // verus!


