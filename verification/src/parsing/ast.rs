//! The abstract syntax tree: declared types, expressions, and statements,
//! together with their mathematical models.

use vstd::prelude::*;
use crate::float::FloatBits;
use crate::parsing::token::Operator;

verus! {

/// A declared type.  Declarations that name an unknown type produce
/// `Custom`, which the analyzer rejects at any use.
#[derive(Debug, PartialEq)]
pub enum Type {
    Integer,
    FloatingPoint,
    Unit,
    Boolean,
    Custom(String),
}

/// Mathematical model of a declared type.
pub enum TypeV {
    Integer,
    FloatingPoint,
    Unit,
    Boolean,
    Custom(Seq<char>),
}

impl View for Type {
    type V = TypeV;

    open spec fn view(&self) -> TypeV {
        match self {
            Type::Integer => TypeV::Integer,
            Type::FloatingPoint => TypeV::FloatingPoint,
            Type::Unit => TypeV::Unit,
            Type::Boolean => TypeV::Boolean,
            Type::Custom(s) => TypeV::Custom(s@),
        }
    }
}

impl Clone for Type {
    fn clone(&self) -> (r: Self)
        ensures
            r@ == self@,
    {
        match self {
            Type::Integer => Type::Integer,
            Type::FloatingPoint => Type::FloatingPoint,
            Type::Unit => Type::Unit,
            Type::Boolean => Type::Boolean,
            Type::Custom(s) => Type::Custom(s.clone()),
        }
    }
}

impl Type {
    /// Whether this is a type the program named itself rather than one of
    /// the four built-in ones.
    pub fn is_custom(&self) -> (r: bool)
        ensures
            r == (self@ is Custom),
    {
        match self {
            Type::Custom(_) => true,
            _ => false,
        }
    }

    /// Whether this and another type model the same type.
    pub fn same_as(&self, other: &Type) -> (r: bool)
        ensures
            r == (self@ == other@),
    {
        match (self, other) {
            (Type::Integer, Type::Integer) => true,
            (Type::FloatingPoint, Type::FloatingPoint) => true,
            (Type::Unit, Type::Unit) => true,
            (Type::Boolean, Type::Boolean) => true,
            (Type::Custom(a), Type::Custom(b)) => crate::parsing::text::str_eq(
                a.as_str(),
                b.as_str(),
            ),
            _ => false,
        }
    }
}

/// An expression: a literal, a variable, or a binary operation.
#[derive(Debug, PartialEq)]
pub enum Expression {
    IntegerLiteral(i32),
    FloatLiteral(FloatBits),
    BooleanLiteral(bool),
    BinaryOperation(Box<Expression>, Operator, Box<Expression>),
    Variable(String),
}

/// Mathematical model of an expression.
pub enum ExprV {
    IntegerLiteral(i32),
    FloatLiteral(FloatBits),
    BooleanLiteral(bool),
    BinaryOperation(Box<ExprV>, Operator, Box<ExprV>),
    Variable(Seq<char>),
}

/// The model of an expression.
pub open spec fn expr_view(e: Expression) -> ExprV
    decreases e,
{
    match e {
        Expression::IntegerLiteral(v) => ExprV::IntegerLiteral(v),
        Expression::FloatLiteral(b) => ExprV::FloatLiteral(b),
        Expression::BooleanLiteral(b) => ExprV::BooleanLiteral(b),
        Expression::BinaryOperation(l, op, r) => ExprV::BinaryOperation(
            Box::new(expr_view(*l)),
            op,
            Box::new(expr_view(*r)),
        ),
        Expression::Variable(s) => ExprV::Variable(s@),
    }
}

impl View for Expression {
    type V = ExprV;

    open spec fn view(&self) -> ExprV {
        expr_view(*self)
    }
}

impl Clone for Expression {
    fn clone(&self) -> (r: Self)
        ensures
            r@ == self@,
        decreases self,
    {
        match self {
            Expression::IntegerLiteral(v) => Expression::IntegerLiteral(*v),
            Expression::FloatLiteral(b) => Expression::FloatLiteral(*b),
            Expression::BooleanLiteral(b) => Expression::BooleanLiteral(*b),
            Expression::BinaryOperation(l, op, r) => Expression::BinaryOperation(
                Box::new((**l).clone()),
                *op,
                Box::new((**r).clone()),
            ),
            Expression::Variable(s) => Expression::Variable(s.clone()),
        }
    }
}

/// A statement.  `Block` groups statements without opening a scope of its
/// own; scopes belong to the control statements.
#[derive(Debug, PartialEq)]
pub enum AST {
    Block(Vec<AST>),
    Assign(String, Expression),
    VarDeclaration(Type, String),
    Print(Expression),
    VarDeclarationAndAssignment(Type, String, Expression),
    IfStatement(Expression, Box<AST>),
    WhileStatement(Expression, Box<AST>),
    ForStatement(Box<AST>, Expression, Box<AST>, Box<AST>),
}

/// Mathematical model of a statement.
pub enum AstV {
    Block(Seq<AstV>),
    Assign(Seq<char>, ExprV),
    VarDeclaration(TypeV, Seq<char>),
    Print(ExprV),
    VarDeclarationAndAssignment(TypeV, Seq<char>, ExprV),
    IfStatement(ExprV, Box<AstV>),
    WhileStatement(ExprV, Box<AstV>),
    ForStatement(Box<AstV>, ExprV, Box<AstV>, Box<AstV>),
}

/// The model of a statement.
pub open spec fn ast_view(a: AST) -> AstV
    decreases a,
{
    match a {
        AST::Block(stmts) => AstV::Block(asts_view(stmts@)),
        AST::Assign(id, e) => AstV::Assign(id@, expr_view(e)),
        AST::VarDeclaration(t, id) => AstV::VarDeclaration(t@, id@),
        AST::Print(e) => AstV::Print(expr_view(e)),
        AST::VarDeclarationAndAssignment(t, id, e) => AstV::VarDeclarationAndAssignment(
            t@,
            id@,
            expr_view(e),
        ),
        AST::IfStatement(c, body) => AstV::IfStatement(expr_view(c), Box::new(ast_view(*body))),
        AST::WhileStatement(c, body) => AstV::WhileStatement(
            expr_view(c),
            Box::new(ast_view(*body)),
        ),
        AST::ForStatement(init, c, inc, body) => AstV::ForStatement(
            Box::new(ast_view(*init)),
            expr_view(c),
            Box::new(ast_view(*inc)),
            Box::new(ast_view(*body)),
        ),
    }
}

/// The models of a sequence of statements.
pub open spec fn asts_view(s: Seq<AST>) -> Seq<AstV>
    decreases s,
{
    if s.len() == 0 {
        Seq::empty()
    } else {
        asts_view(s.drop_last()).push(ast_view(s.last()))
    }
}

impl View for AST {
    type V = AstV;

    open spec fn view(&self) -> AstV {
        ast_view(*self)
    }
}

/// The model list of a statement vector indexes element by element.
pub proof fn lemma_asts_view_index(s: Seq<AST>)
    ensures
        asts_view(s).len() == s.len(),
        forall|i: int| 0 <= i < s.len() ==> asts_view(s)[i] == #[trigger] s[i]@,
    decreases s,
{
    if s.len() > 0 {
        lemma_asts_view_index(s.drop_last());
        assert forall|i: int| 0 <= i < s.len() implies asts_view(s)[i] == #[trigger] s[i]@ by {
            if i < s.len() - 1 {
                assert(s.drop_last()[i] == s[i]);
            } else {
                assert(s[i] == s.last());
            }
        }
    }
}

impl Clone for AST {
    fn clone(&self) -> (r: Self)
        ensures
            r@ == self@,
        decreases self,
    {
        match self {
            AST::Block(stmts) => {
                let mut out: Vec<AST> = Vec::new();
                let n = stmts.len();
                let mut i: usize = 0;
                while i < n
                    invariant
                        0 <= i <= n,
                        n == stmts@.len(),
                        *self == AST::Block(*stmts),
                        out@.len() == i,
                        forall|j: int| 0 <= j < i ==> out@[j]@ == #[trigger] stmts@[j]@,
                    decreases n - i,
                {
                    proof {
                        assert(decreases_to!(*self => self->Block_0));
                        assert(decreases_to!(*stmts => stmts@));
                        assert(decreases_to!(stmts@ => stmts@[i as int]));
                    }
                    let c = stmts[i].clone();
                    out.push(c);
                    i += 1;
                }
                proof {
                    lemma_asts_view_index(out@);
                    lemma_asts_view_index(stmts@);
                    assert forall|j: int| 0 <= j < out@.len() implies asts_view(out@)[j]
                        == asts_view(stmts@)[j] by {
                        assert(out@[j]@ == stmts@[j]@);
                    }
                    assert(asts_view(out@) =~= asts_view(stmts@));
                }
                AST::Block(out)
            },
            AST::Assign(id, e) => AST::Assign(id.clone(), e.clone()),
            AST::VarDeclaration(t, id) => AST::VarDeclaration(t.clone(), id.clone()),
            AST::Print(e) => AST::Print(e.clone()),
            AST::VarDeclarationAndAssignment(t, id, e) => AST::VarDeclarationAndAssignment(
                t.clone(),
                id.clone(),
                e.clone(),
            ),
            AST::IfStatement(c, body) => AST::IfStatement(c.clone(), Box::new((**body).clone())),
            AST::WhileStatement(c, body) => AST::WhileStatement(
                c.clone(),
                Box::new((**body).clone()),
            ),
            AST::ForStatement(init, c, inc, body) => AST::ForStatement(
                Box::new((**init).clone()),
                c.clone(),
                Box::new((**inc).clone()),
                Box::new((**body).clone()),
            ),
        }
    }
}

} // verus!
