//! The static analyzer: walks the tree with a scoped symbol table and
//! rejects undeclared or mistyped programs with the first failure found.
//!
//! Declarations bind in the innermost frame and are rejected when any
//! live frame already binds the name.  A bare block opens no scope of its
//! own; `if` and `while` push one frame around their body, and `for`
//! pushes one frame around its whole header and body.  Conditions must be
//! boolean: the operator table makes a condition's type plain, and an
//! `if`, `while`, or `for` over any other type is rejected here, a
//! deliberate tightening over evaluators that would only fail at run
//! time.

use vstd::prelude::*;
use crate::parsing::ast::{AST, AstV, Expression, ExprV, Type, TypeV, asts_view};
use crate::parsing::symbol_table::{type_declared, type_lookup, SymbolTable};
use crate::parsing::token::Operator;

verus! {

/// A semantic failure: the first rule the analyzer found broken.
#[derive(Debug, PartialEq)]
pub enum AnalyzeError {
    Redeclaration { name: String },
    AssignUndeclared { name: String },
    UndeclaredVariable { name: String },
    DeclarationTypeMismatch { name: String, declared: Type, found: Type },
    AssignTypeMismatch { name: String, declared: Type, found: Type },
    InvalidLeftOperand { op: Operator },
    InvalidRightOperand { op: Operator },
    MixedOperandTypes { left: Type, right: Type, op: Operator },
    FloatBitwise { op: Operator },
    BooleanArithmetic { op: Operator },
    ConditionNotBoolean { found: Type },
}

/// Mathematical model of a semantic failure.
pub enum AnalyzeErrorV {
    Redeclaration { name: Seq<char> },
    AssignUndeclared { name: Seq<char> },
    UndeclaredVariable { name: Seq<char> },
    DeclarationTypeMismatch { name: Seq<char>, declared: TypeV, found: TypeV },
    AssignTypeMismatch { name: Seq<char>, declared: TypeV, found: TypeV },
    InvalidLeftOperand { op: Operator },
    InvalidRightOperand { op: Operator },
    MixedOperandTypes { left: TypeV, right: TypeV, op: Operator },
    FloatBitwise { op: Operator },
    BooleanArithmetic { op: Operator },
    ConditionNotBoolean { found: TypeV },
}

impl View for AnalyzeError {
    type V = AnalyzeErrorV;

    open spec fn view(&self) -> AnalyzeErrorV {
        match self {
            AnalyzeError::Redeclaration { name } => AnalyzeErrorV::Redeclaration { name: name@ },
            AnalyzeError::AssignUndeclared { name } => AnalyzeErrorV::AssignUndeclared {
                name: name@,
            },
            AnalyzeError::UndeclaredVariable { name } => AnalyzeErrorV::UndeclaredVariable {
                name: name@,
            },
            AnalyzeError::DeclarationTypeMismatch { name, declared, found } =>
                AnalyzeErrorV::DeclarationTypeMismatch {
                name: name@,
                declared: declared@,
                found: found@,
            },
            AnalyzeError::AssignTypeMismatch { name, declared, found } =>
                AnalyzeErrorV::AssignTypeMismatch {
                name: name@,
                declared: declared@,
                found: found@,
            },
            AnalyzeError::InvalidLeftOperand { op } => AnalyzeErrorV::InvalidLeftOperand {
                op: *op,
            },
            AnalyzeError::InvalidRightOperand { op } => AnalyzeErrorV::InvalidRightOperand {
                op: *op,
            },
            AnalyzeError::MixedOperandTypes { left, right, op } =>
                AnalyzeErrorV::MixedOperandTypes { left: left@, right: right@, op: *op },
            AnalyzeError::FloatBitwise { op } => AnalyzeErrorV::FloatBitwise { op: *op },
            AnalyzeError::BooleanArithmetic { op } => AnalyzeErrorV::BooleanArithmetic {
                op: *op,
            },
            AnalyzeError::ConditionNotBoolean { found } => AnalyzeErrorV::ConditionNotBoolean {
                found: found@,
            },
        }
    }
}

/// The scoped type tables the analyzer walks with.
pub type TypeTable = Seq<Map<Seq<char>, TypeV>>;

/// A table with a name newly bound in its innermost frame.
pub open spec fn table_bind(tbl: TypeTable, id: Seq<char>, t: TypeV) -> TypeTable {
    tbl.update(tbl.len() - 1, tbl.last().insert(id, t))
}

/// The operator typing table: operands must have equal, concrete,
/// non-unit types; comparisons yield booleans; the logical symbols reject
/// floats; arithmetic rejects booleans; the power symbol accepts all
/// three primitives.
pub open spec fn spec_op_type(l: TypeV, op: Operator, r: TypeV) -> Result<TypeV, AnalyzeErrorV> {
    if l == TypeV::Unit || l is Custom {
        Err(AnalyzeErrorV::InvalidLeftOperand { op })
    } else if r == TypeV::Unit || r is Custom {
        Err(AnalyzeErrorV::InvalidRightOperand { op })
    } else if l != r {
        Err(AnalyzeErrorV::MixedOperandTypes { left: l, right: r, op })
    } else {
        match op {
            Operator::Eq | Operator::Gt | Operator::Lt => Ok(TypeV::Boolean),
            Operator::And | Operator::Or => if l == TypeV::FloatingPoint {
                Err(AnalyzeErrorV::FloatBitwise { op })
            } else {
                Ok(l)
            },
            Operator::Pow => Ok(l),
            Operator::Add | Operator::Sub | Operator::Mul | Operator::Div => if l
                == TypeV::Boolean {
                Err(AnalyzeErrorV::BooleanArithmetic { op })
            } else {
                Ok(l)
            },
        }
    }
}

/// The type of an expression under a table: literals type themselves, a
/// variable types as its innermost binding, and operations follow the
/// operator table.
pub open spec fn spec_type_of_expr(e: ExprV, tbl: TypeTable) -> Result<TypeV, AnalyzeErrorV>
    decreases e,
{
    match e {
        ExprV::IntegerLiteral(_) => Ok(TypeV::Integer),
        ExprV::FloatLiteral(_) => Ok(TypeV::FloatingPoint),
        ExprV::BooleanLiteral(_) => Ok(TypeV::Boolean),
        ExprV::Variable(id) => match type_lookup(tbl, id) {
            Some(t) => Ok(t),
            None => Err(AnalyzeErrorV::UndeclaredVariable { name: id }),
        },
        ExprV::BinaryOperation(l, op, r) => match spec_type_of_expr(*l, tbl) {
            Err(e) => Err(e),
            Ok(lt) => match spec_type_of_expr(*r, tbl) {
                Err(e) => Err(e),
                Ok(rt) => spec_op_type(lt, op, rt),
            },
        },
    }
}

/// What analyzing a statement does to the table: the table after it, or
/// the first failure inside it.
pub open spec fn spec_analyze_stmt(a: AstV, tbl: TypeTable) -> Result<TypeTable, AnalyzeErrorV>
    decreases a,
{
    match a {
        AstV::VarDeclaration(t, id) => {
            if tbl.len() == 0 {
                Ok(tbl)
            } else if type_declared(tbl, id) {
                Err(AnalyzeErrorV::Redeclaration { name: id })
            } else {
                Ok(table_bind(tbl, id, t))
            }
        },
        AstV::VarDeclarationAndAssignment(t, id, e) => {
            if tbl.len() == 0 {
                Ok(tbl)
            } else if type_declared(tbl, id) {
                Err(AnalyzeErrorV::Redeclaration { name: id })
            } else {
                let t2 = table_bind(tbl, id, t);
                match spec_type_of_expr(e, t2) {
                    Err(err) => Err(err),
                    Ok(et) => if et != t {
                        Err(
                            AnalyzeErrorV::DeclarationTypeMismatch {
                                name: id,
                                declared: t,
                                found: et,
                            },
                        )
                    } else {
                        Ok(t2)
                    },
                }
            }
        },
        AstV::Assign(id, e) => match type_lookup(tbl, id) {
            None => Err(AnalyzeErrorV::AssignUndeclared { name: id }),
            Some(dt) => match spec_type_of_expr(e, tbl) {
                Err(err) => Err(err),
                Ok(et) => if et != dt {
                    Err(
                        AnalyzeErrorV::AssignTypeMismatch { name: id, declared: dt, found: et },
                    )
                } else {
                    Ok(tbl)
                },
            },
        },
        AstV::Print(e) => match spec_type_of_expr(e, tbl) {
            Err(err) => Err(err),
            Ok(_) => Ok(tbl),
        },
        AstV::Block(ss) => spec_analyze_stmts(ss, tbl),
        AstV::IfStatement(c, body) => match spec_type_of_expr(c, tbl) {
            Err(err) => Err(err),
            Ok(ct) => if ct != TypeV::Boolean {
                Err(AnalyzeErrorV::ConditionNotBoolean { found: ct })
            } else {
                match spec_analyze_stmt(*body, tbl.push(Map::empty())) {
                    Err(err) => Err(err),
                    Ok(t2) => Ok(t2.drop_last()),
                }
            },
        },
        AstV::WhileStatement(c, body) => match spec_type_of_expr(c, tbl) {
            Err(err) => Err(err),
            Ok(ct) => if ct != TypeV::Boolean {
                Err(AnalyzeErrorV::ConditionNotBoolean { found: ct })
            } else {
                match spec_analyze_stmt(*body, tbl.push(Map::empty())) {
                    Err(err) => Err(err),
                    Ok(t2) => Ok(t2.drop_last()),
                }
            },
        },
        AstV::ForStatement(init, c, inc, body) => {
            let t0 = tbl.push(Map::empty());
            match spec_analyze_stmt(*init, t0) {
                Err(err) => Err(err),
                Ok(t1) => match spec_type_of_expr(c, t1) {
                    Err(err) => Err(err),
                    Ok(ct) => if ct != TypeV::Boolean {
                        Err(AnalyzeErrorV::ConditionNotBoolean { found: ct })
                    } else {
                        match spec_analyze_stmt(*inc, t1) {
                            Err(err) => Err(err),
                            Ok(t2) => match spec_analyze_stmt(*body, t2) {
                                Err(err) => Err(err),
                                Ok(t3) => Ok(t3.drop_last()),
                            },
                        }
                    },
                },
            }
        },
    }
}

/// What analyzing a run of statements does to the table, first failure
/// first.
pub open spec fn spec_analyze_stmts(ss: Seq<AstV>, tbl: TypeTable) -> Result<
    TypeTable,
    AnalyzeErrorV,
>
    decreases ss,
{
    if ss.len() == 0 {
        Ok(tbl)
    } else {
        match spec_analyze_stmt(ss[0], tbl) {
            Err(err) => Err(err),
            Ok(t1) => spec_analyze_stmts(ss.drop_first(), t1),
        }
    }
}

/// Analyzing a statement never changes how many frames are live.
pub proof fn lemma_analyze_preserves_len(a: AstV, tbl: TypeTable)
    ensures
        match spec_analyze_stmt(a, tbl) {
            Ok(t2) => t2.len() == tbl.len(),
            Err(_) => true,
        },
    decreases a,
{
    match a {
        AstV::Block(ss) => {
            lemma_analyze_stmts_preserves_len(ss, tbl);
        },
        AstV::IfStatement(c, body) => {
            lemma_analyze_preserves_len(*body, tbl.push(Map::empty()));
        },
        AstV::WhileStatement(c, body) => {
            lemma_analyze_preserves_len(*body, tbl.push(Map::empty()));
        },
        AstV::ForStatement(init, c, inc, body) => {
            let t0 = tbl.push(Map::empty());
            lemma_analyze_preserves_len(*init, t0);
            if spec_analyze_stmt(*init, t0) is Ok {
                let t1 = spec_analyze_stmt(*init, t0)->Ok_0;
                lemma_analyze_preserves_len(*inc, t1);
                if spec_analyze_stmt(*inc, t1) is Ok {
                    let t2 = spec_analyze_stmt(*inc, t1)->Ok_0;
                    lemma_analyze_preserves_len(*body, t2);
                }
            }
        },
        _ => {},
    }
}

/// Analyzing a run of statements never changes how many frames are live.
pub proof fn lemma_analyze_stmts_preserves_len(ss: Seq<AstV>, tbl: TypeTable)
    ensures
        match spec_analyze_stmts(ss, tbl) {
            Ok(t2) => t2.len() == tbl.len(),
            Err(_) => true,
        },
    decreases ss,
{
    if ss.len() > 0 {
        lemma_analyze_preserves_len(ss[0], tbl);
        if spec_analyze_stmt(ss[0], tbl) is Ok {
            lemma_analyze_stmts_preserves_len(
                ss.drop_first(),
                spec_analyze_stmt(ss[0], tbl)->Ok_0,
            );
        }
    }
}

/// The static analyzer: a scoped symbol table walked over the tree.
pub struct StaticAnalyzer {
    symbol_table: SymbolTable,
}

impl View for StaticAnalyzer {
    type V = TypeTable;

    closed spec fn view(&self) -> TypeTable {
        self.symbol_table@
    }
}

impl StaticAnalyzer {
    /// An analyzer over a fresh table holding only the empty root frame.
    pub fn new() -> (r: Self)
        ensures
            r@ =~= seq![Map::<Seq<char>, TypeV>::empty()],
    {
        Self { symbol_table: SymbolTable::new() }
    }

    /// Checks one statement, growing and shrinking the table as scopes
    /// open and close: nothing for a well-typed statement, or the first
    /// failure found.
    pub fn analyze(&mut self, ast: &AST) -> (r: Option<AnalyzeError>)
        requires
            old(self)@.len() >= 1,
        ensures
            match spec_analyze_stmt(ast@, old(self)@) {
                Ok(t2) => r is None && final(self)@ == t2,
                Err(e) => match r {
                    Some(ae) => ae@ == e,
                    None => false,
                },
            },
        decreases *ast,
    {
        match ast {
            AST::VarDeclaration(d_type, id) => {
                if !self.symbol_table.declare(id.clone(), d_type.clone()) {
                    return Some(AnalyzeError::Redeclaration { name: id.clone() });
                }
                None
            },
            AST::VarDeclarationAndAssignment(d_type, id, expr) => {
                if !self.symbol_table.declare(id.clone(), d_type.clone()) {
                    return Some(AnalyzeError::Redeclaration { name: id.clone() });
                }
                match self.analyze_expression(expr) {
                    Err(e) => Some(e),
                    Ok(et) => {
                        if !et.same_as(d_type) {
                            Some(
                                AnalyzeError::DeclarationTypeMismatch {
                                    name: id.clone(),
                                    declared: d_type.clone(),
                                    found: et,
                                },
                            )
                        } else {
                            None
                        }
                    },
                }
            },
            AST::Assign(id, expr) => {
                match self.symbol_table.retrieve_type(id.clone()) {
                    None => Some(AnalyzeError::AssignUndeclared { name: id.clone() }),
                    Some(dt) => match self.analyze_expression(expr) {
                        Err(e) => Some(e),
                        Ok(et) => {
                            if !et.same_as(&dt) {
                                Some(
                                    AnalyzeError::AssignTypeMismatch {
                                        name: id.clone(),
                                        declared: dt,
                                        found: et,
                                    },
                                )
                            } else {
                                None
                            }
                        },
                    },
                }
            },
            AST::Print(expr) => match self.analyze_expression(expr) {
                Err(e) => Some(e),
                Ok(_) => None,
            },
            AST::Block(nodes) => {
                let ghost tbl0 = self@;
                let n = nodes.len();
                let mut i: usize = 0;
                proof {
                    lemma_asts_view_index_local(nodes@);
                    assert(asts_view(nodes@).subrange(0, n as int) =~= asts_view(nodes@));
                }
                while i < n
                    invariant
                        0 <= i <= n,
                        n == nodes@.len(),
                        *ast == AST::Block(*nodes),
                        asts_view(nodes@).len() == n,
                        forall|k: int| 0 <= k < n ==> asts_view(nodes@)[k] == #[trigger] nodes@[k]@,
                        tbl0 == old(self)@,
                        self@.len() >= 1,
                        spec_analyze_stmts(asts_view(nodes@), tbl0) == spec_analyze_stmts(
                            asts_view(nodes@).subrange(i as int, n as int),
                            self@,
                        ),
                    decreases n - i,
                {
                    proof {
                        assert(decreases_to!(*ast => ast->Block_0));
                        assert(decreases_to!(*nodes => nodes@));
                        assert(decreases_to!(nodes@ => nodes@[i as int]));
                        assert(asts_view(nodes@).subrange(i as int, n as int)[0] == nodes@[
                            i as int
                        ]@);
                        assert(asts_view(nodes@).subrange(i as int, n as int).drop_first()
                            =~= asts_view(nodes@).subrange(i + 1, n as int));
                    }
                    let ghost t_pre = self@;
                    match self.analyze(&nodes[i]) {
                        Some(e) => {
                            return Some(e);
                        },
                        None => {},
                    }
                    proof {
                        lemma_analyze_preserves_len(nodes@[i as int]@, t_pre);
                    }
                    i += 1;
                }
                proof {
                    assert(asts_view(nodes@).subrange(n as int, n as int) =~= Seq::<
                        AstV,
                    >::empty());
                }
                None
            },
            AST::IfStatement(cond, then) => {
                let ct = match self.analyze_expression(cond) {
                    Err(e) => {
                        return Some(e);
                    },
                    Ok(t) => t,
                };
                let is_bool = match ct {
                    Type::Boolean => true,
                    _ => false,
                };
                if !is_bool {
                    return Some(AnalyzeError::ConditionNotBoolean { found: ct });
                }
                self.symbol_table.create_frame();
                proof {
                    assert(decreases_to!(*ast => ast->IfStatement_1));
                }
                match self.analyze(then) {
                    Some(e) => Some(e),
                    None => {
                        proof {
                            lemma_analyze_preserves_len(then@, old(self)@.push(Map::empty()));
                        }
                        self.symbol_table.remove_frame();
                        None
                    },
                }
            },
            AST::WhileStatement(cond, body) => {
                let ct = match self.analyze_expression(cond) {
                    Err(e) => {
                        return Some(e);
                    },
                    Ok(t) => t,
                };
                let is_bool = match ct {
                    Type::Boolean => true,
                    _ => false,
                };
                if !is_bool {
                    return Some(AnalyzeError::ConditionNotBoolean { found: ct });
                }
                self.symbol_table.create_frame();
                proof {
                    assert(decreases_to!(*ast => ast->WhileStatement_1));
                }
                match self.analyze(body) {
                    Some(e) => Some(e),
                    None => {
                        proof {
                            lemma_analyze_preserves_len(body@, old(self)@.push(Map::empty()));
                        }
                        self.symbol_table.remove_frame();
                        None
                    },
                }
            },
            AST::ForStatement(dec, cond, inc, body) => {
                self.symbol_table.create_frame();
                let ghost t0 = self@;
                proof {
                    assert(decreases_to!(*ast => ast->ForStatement_0));
                    assert(decreases_to!(*ast => ast->ForStatement_2));
                    assert(decreases_to!(*ast => ast->ForStatement_3));
                }
                match self.analyze(dec) {
                    Some(e) => {
                        return Some(e);
                    },
                    None => {},
                }
                proof {
                    lemma_analyze_preserves_len(dec@, t0);
                }
                let ct = match self.analyze_expression(cond) {
                    Err(e) => {
                        return Some(e);
                    },
                    Ok(t) => t,
                };
                let is_bool = match ct {
                    Type::Boolean => true,
                    _ => false,
                };
                if !is_bool {
                    return Some(AnalyzeError::ConditionNotBoolean { found: ct });
                }
                match self.analyze(inc) {
                    Some(e) => {
                        return Some(e);
                    },
                    None => {},
                }
                proof {
                    lemma_analyze_preserves_len(inc@, spec_analyze_stmt(dec@, t0)->Ok_0);
                }
                match self.analyze(body) {
                    Some(e) => {
                        return Some(e);
                    },
                    None => {},
                }
                proof {
                    lemma_analyze_preserves_len(
                        body@,
                        spec_analyze_stmt(
                            inc@,
                            spec_analyze_stmt(dec@, t0)->Ok_0,
                        )->Ok_0,
                    );
                }
                self.symbol_table.remove_frame();
                None
            },
        }
    }

    /// Types one expression under the current table.
    fn analyze_expression(&self, expr: &Expression) -> (r: Result<Type, AnalyzeError>)
        ensures
            match spec_type_of_expr(expr@, self@) {
                Ok(t) => match r {
                    Ok(ty) => ty@ == t,
                    Err(_) => false,
                },
                Err(e) => match r {
                    Ok(_) => false,
                    Err(ae) => ae@ == e,
                },
            },
        decreases *expr,
    {
        match expr {
            Expression::IntegerLiteral(_) => Ok(Type::Integer),
            Expression::FloatLiteral(_) => Ok(Type::FloatingPoint),
            Expression::BooleanLiteral(_) => Ok(Type::Boolean),
            Expression::Variable(id) => match self.symbol_table.retrieve_type(id.clone()) {
                Some(t) => Ok(t),
                None => Err(AnalyzeError::UndeclaredVariable { name: id.clone() }),
            },
            Expression::BinaryOperation(l, op, r) => {
                let lt = match self.analyze_expression(l) {
                    Err(e) => {
                        return Err(e);
                    },
                    Ok(t) => t,
                };
                let rt = match self.analyze_expression(r) {
                    Err(e) => {
                        return Err(e);
                    },
                    Ok(t) => t,
                };
                self.analyze_operator(lt, *op, rt)
            },
        }
    }

    /// Applies the operator typing table to two resolved operand types.
    fn analyze_operator(&self, l_type: Type, op: Operator, r_type: Type) -> (r: Result<
        Type,
        AnalyzeError,
    >)
        ensures
            match spec_op_type(l_type@, op, r_type@) {
                Ok(t) => match r {
                    Ok(ty) => ty@ == t,
                    Err(_) => false,
                },
                Err(e) => match r {
                    Ok(_) => false,
                    Err(ae) => ae@ == e,
                },
            },
    {
        let l_bad = match &l_type {
            Type::Unit => true,
            Type::Custom(_) => true,
            _ => false,
        };
        if l_bad {
            return Err(AnalyzeError::InvalidLeftOperand { op });
        }
        let r_bad = match &r_type {
            Type::Unit => true,
            Type::Custom(_) => true,
            _ => false,
        };
        if r_bad {
            return Err(AnalyzeError::InvalidRightOperand { op });
        }
        if !l_type.same_as(&r_type) {
            return Err(AnalyzeError::MixedOperandTypes { left: l_type, right: r_type, op });
        }
        match op {
            Operator::Eq | Operator::Gt | Operator::Lt => Ok(Type::Boolean),
            Operator::And | Operator::Or => {
                match &l_type {
                    Type::FloatingPoint => Err(AnalyzeError::FloatBitwise { op }),
                    _ => Ok(l_type),
                }
            },
            Operator::Pow => Ok(l_type),
            Operator::Add | Operator::Sub | Operator::Mul | Operator::Div => {
                match &l_type {
                    Type::Boolean => Err(AnalyzeError::BooleanArithmetic { op }),
                    _ => Ok(l_type),
                }
            },
        }
    }
}

/// The model list of a statement vector indexes element by element.
proof fn lemma_asts_view_index_local(s: Seq<AST>)
    ensures
        asts_view(s).len() == s.len(),
        forall|i: int| 0 <= i < s.len() ==> asts_view(s)[i] == #[trigger] s[i]@,
{
    crate::parsing::ast::lemma_asts_view_index(s);
}

} // verus!
