//! The tree-walking interpreter: evaluates the tree against a scoped
//! value store and collects the lines `print` emits.
//!
//! A bare block runs in the current scope; `if` pushes a frame around a
//! taken branch, `while` pushes one frame around the whole loop, and
//! `for` pushes one frame around its header and body.  Evaluation is
//! bounded by a fuel count spent one unit per loop iteration: a program
//! that would loop longer stops with a distinguished out-of-fuel failure,
//! and every other outcome is exactly that of the unbounded evaluator.

use vstd::prelude::*;
use crate::execution::memory::{mem_assign, mem_lookup, Memory};
use crate::execution::render::{render_value, spec_value_text};
use crate::execution::value::{
    apply_operator,
    spec_apply_operator,
    RuntimeError,
    RuntimeErrorV,
    Value,
};
use crate::parsing::ast::{AST, AstV, Expression, ExprV, asts_view};

verus! {

/// The scoped value stores the interpreter walks with.
pub type MemTable = Seq<Map<Seq<char>, Value>>;

/// The lines printed so far.
pub type OutputV = Seq<Seq<char>>;

/// A store with a name newly bound in its innermost frame.
pub open spec fn mem_bind(m: MemTable, id: Seq<char>, v: Value) -> MemTable {
    m.update(m.len() - 1, m.last().insert(id, v))
}

/// The value of an expression under a store: literals evaluate to
/// themselves, a variable to its innermost binding, and an operation by
/// the value algebra on its evaluated operands, left first.
pub open spec fn spec_eval_expr(e: ExprV, m: MemTable) -> Result<Value, RuntimeErrorV>
    decreases e,
{
    match e {
        ExprV::IntegerLiteral(v) => Ok(Value::IntegerValue(v)),
        ExprV::FloatLiteral(b) => Ok(Value::FloatValue(b)),
        ExprV::BooleanLiteral(b) => Ok(Value::BooleanValue(b)),
        ExprV::Variable(id) => match mem_lookup(m, id) {
            Some(v) => Ok(v),
            None => Err(RuntimeErrorV::UnboundVariable(id)),
        },
        ExprV::BinaryOperation(l, op, r) => match spec_eval_expr(*l, m) {
            Err(er) => Err(er),
            Ok(lv) => match spec_eval_expr(*r, m) {
                Err(er) => Err(er),
                Ok(rv) => spec_apply_operator(op, lv, rv),
            },
        },
    }
}

/// The size of a statement, counting loop nodes twice so that a loop's
/// remaining work is always smaller than the loop statement itself.
pub open spec fn ast_size(a: AstV) -> nat
    decreases a,
{
    match a {
        AstV::Block(ss) => 1 + asts_size(ss),
        AstV::Assign(_, _) => 1,
        AstV::VarDeclaration(_, _) => 1,
        AstV::Print(_) => 1,
        AstV::VarDeclarationAndAssignment(_, _, _) => 1,
        AstV::IfStatement(_, b) => 1 + ast_size(*b),
        AstV::WhileStatement(_, b) => 2 + ast_size(*b),
        AstV::ForStatement(i, _, n, b) => 2 + ast_size(*i) + ast_size(*n) + ast_size(*b),
    }
}

/// The total size of a run of statements.
pub open spec fn asts_size(ss: Seq<AstV>) -> nat
    decreases ss,
{
    if ss.len() == 0 {
        0nat
    } else {
        ast_size(ss[0]) + asts_size(ss.drop_first())
    }
}

/// What evaluating a statement does to the store and the output: the new
/// store and output, a fatal failure, or nothing when the fuel ran out.
pub open spec fn spec_eval_stmt(fuel: nat, a: AstV, m: MemTable, o: OutputV) -> Option<
    Result<(MemTable, OutputV), RuntimeErrorV>,
>
    decreases fuel, ast_size(a), 0int, 0int,
{
    match a {
        AstV::VarDeclaration(_, id) => if m.len() == 0 {
            Some(Ok((m, o)))
        } else {
            Some(Ok((mem_bind(m, id, Value::Unit), o)))
        },
        AstV::VarDeclarationAndAssignment(_, id, e) => match spec_eval_expr(e, m) {
            Err(er) => Some(Err(er)),
            Ok(v) => if m.len() == 0 {
                Some(Ok((m, o)))
            } else {
                Some(Ok((mem_bind(m, id, v), o)))
            },
        },
        AstV::Assign(id, e) => match spec_eval_expr(e, m) {
            Err(er) => Some(Err(er)),
            Ok(v) => Some(Ok((mem_assign(m, id, v), o))),
        },
        AstV::Print(e) => match spec_eval_expr(e, m) {
            Err(er) => Some(Err(er)),
            Ok(v) => Some(Ok((m, o.push(spec_value_text(v))))),
        },
        AstV::Block(ss) => spec_eval_stmts(fuel, ss, m, o),
        AstV::IfStatement(c, body) => match spec_eval_expr(c, m) {
            Err(er) => Some(Err(er)),
            Ok(Value::BooleanValue(true)) => match spec_eval_stmt(
                fuel,
                *body,
                m.push(Map::empty()),
                o,
            ) {
                None => None,
                Some(Err(er)) => Some(Err(er)),
                Some(Ok((m2, o2))) => Some(Ok((m2.drop_last(), o2))),
            },
            Ok(Value::BooleanValue(false)) => Some(Ok((m, o))),
            Ok(v) => Some(Err(RuntimeErrorV::ExpectedBoolean(v))),
        },
        AstV::WhileStatement(c, body) => match spec_eval_while(
            fuel,
            c,
            *body,
            m.push(Map::empty()),
            o,
        ) {
            None => None,
            Some(Err(er)) => Some(Err(er)),
            Some(Ok((m2, o2))) => Some(Ok((m2.drop_last(), o2))),
        },
        AstV::ForStatement(init, c, inc, body) => match spec_eval_stmt(
            fuel,
            *init,
            m.push(Map::empty()),
            o,
        ) {
            None => None,
            Some(Err(er)) => Some(Err(er)),
            Some(Ok((m1, o1))) => match spec_eval_for(fuel, c, *inc, *body, m1, o1) {
                None => None,
                Some(Err(er)) => Some(Err(er)),
                Some(Ok((m2, o2))) => Some(Ok((m2.drop_last(), o2))),
            },
        },
    }
}

/// What evaluating a run of statements does, each in the store the
/// previous one left.
pub open spec fn spec_eval_stmts(fuel: nat, ss: Seq<AstV>, m: MemTable, o: OutputV) -> Option<
    Result<(MemTable, OutputV), RuntimeErrorV>,
>
    decreases fuel, asts_size(ss), ss.len(), 1int,
{
    if ss.len() == 0 {
        Some(Ok((m, o)))
    } else {
        match spec_eval_stmt(fuel, ss[0], m, o) {
            None => None,
            Some(Err(er)) => Some(Err(er)),
            Some(Ok((m1, o1))) => spec_eval_stmts(fuel, ss.drop_first(), m1, o1),
        }
    }
}

/// One `while` loop, its frame already pushed: test the condition, and
/// while it holds run the body, spending one fuel unit per iteration.
pub open spec fn spec_eval_while(fuel: nat, c: ExprV, body: AstV, m: MemTable, o: OutputV) -> Option<
    Result<(MemTable, OutputV), RuntimeErrorV>,
>
    decreases fuel, ast_size(body) + 1, 0int, 0int,
{
    match spec_eval_expr(c, m) {
        Err(er) => Some(Err(er)),
        Ok(Value::BooleanValue(false)) => Some(Ok((m, o))),
        Ok(Value::BooleanValue(true)) => if fuel == 0 {
            None
        } else {
            match spec_eval_stmt(fuel, body, m, o) {
                None => None,
                Some(Err(er)) => Some(Err(er)),
                Some(Ok((m1, o1))) => spec_eval_while((fuel - 1) as nat, c, body, m1, o1),
            }
        },
        Ok(v) => Some(Err(RuntimeErrorV::ExpectedBoolean(v))),
    }
}

/// One `for` loop after its initialiser, its frame already pushed: test
/// the condition, and while it holds run the body then the increment,
/// spending one fuel unit per iteration.
pub open spec fn spec_eval_for(
    fuel: nat,
    c: ExprV,
    inc: AstV,
    body: AstV,
    m: MemTable,
    o: OutputV,
) -> Option<Result<(MemTable, OutputV), RuntimeErrorV>>
    decreases fuel, ast_size(inc) + ast_size(body) + 1, 0int, 0int,
{
    match spec_eval_expr(c, m) {
        Err(er) => Some(Err(er)),
        Ok(Value::BooleanValue(false)) => Some(Ok((m, o))),
        Ok(Value::BooleanValue(true)) => if fuel == 0 {
            None
        } else {
            match spec_eval_stmt(fuel, body, m, o) {
                None => None,
                Some(Err(er)) => Some(Err(er)),
                Some(Ok((m1, o1))) => match spec_eval_stmt(fuel, inc, m1, o1) {
                    None => None,
                    Some(Err(er)) => Some(Err(er)),
                    Some(Ok((m2, o2))) => spec_eval_for((fuel - 1) as nat, c, inc, body, m2, o2),
                },
            }
        },
        Ok(v) => Some(Err(RuntimeErrorV::ExpectedBoolean(v))),
    }
}

/// Scope discipline: a statement that runs to completion leaves exactly
/// as many frames on the store as it found, whatever it printed or
/// bound.  In particular every `if`, `while`, and `for` pops the one
/// frame it pushed.
pub proof fn lemma_eval_stmt_preserves_len(fuel: nat, a: AstV, m: MemTable, o: OutputV)
    ensures
        match spec_eval_stmt(fuel, a, m, o) {
            Some(Ok((m2, _))) => m2.len() == m.len(),
            _ => true,
        },
    decreases fuel, ast_size(a), 0int, 0int,
{
    match a {
        AstV::Assign(id, e) => {
            match spec_eval_expr(e, m) {
                Ok(v) => {
                    lemma_mem_assign_preserves_len(m, id, v);
                },
                Err(_) => {},
            }
        },
        AstV::Block(ss) => {
            lemma_eval_stmts_preserves_len(fuel, ss, m, o);
        },
        AstV::IfStatement(c, body) => {
            lemma_eval_stmt_preserves_len(fuel, *body, m.push(Map::empty()), o);
        },
        AstV::WhileStatement(c, body) => {
            lemma_eval_while_preserves_len(fuel, c, *body, m.push(Map::empty()), o);
        },
        AstV::ForStatement(init, c, inc, body) => {
            let t0 = m.push(Map::empty());
            lemma_eval_stmt_preserves_len(fuel, *init, t0, o);
            match spec_eval_stmt(fuel, *init, t0, o) {
                Some(Ok((m1, o1))) => {
                    lemma_eval_for_preserves_len(fuel, c, *inc, *body, m1, o1);
                },
                _ => {},
            }
        },
        _ => {},
    }
}

/// Scope discipline for a run of statements.
pub proof fn lemma_eval_stmts_preserves_len(fuel: nat, ss: Seq<AstV>, m: MemTable, o: OutputV)
    ensures
        match spec_eval_stmts(fuel, ss, m, o) {
            Some(Ok((m2, _))) => m2.len() == m.len(),
            _ => true,
        },
    decreases fuel, asts_size(ss), ss.len(), 1int,
{
    if ss.len() > 0 {
        lemma_eval_stmt_preserves_len(fuel, ss[0], m, o);
        match spec_eval_stmt(fuel, ss[0], m, o) {
            Some(Ok((m1, o1))) => {
                lemma_eval_stmts_preserves_len(fuel, ss.drop_first(), m1, o1);
            },
            _ => {},
        }
    }
}

/// Scope discipline for a running `while` loop.
pub proof fn lemma_eval_while_preserves_len(fuel: nat, c: ExprV, body: AstV, m: MemTable, o: OutputV)
    ensures
        match spec_eval_while(fuel, c, body, m, o) {
            Some(Ok((m2, _))) => m2.len() == m.len(),
            _ => true,
        },
    decreases fuel, ast_size(body) + 1, 0int, 0int,
{
    match spec_eval_expr(c, m) {
        Ok(Value::BooleanValue(true)) => {
            if fuel > 0 {
                lemma_eval_stmt_preserves_len(fuel, body, m, o);
                match spec_eval_stmt(fuel, body, m, o) {
                    Some(Ok((m1, o1))) => {
                        lemma_eval_while_preserves_len((fuel - 1) as nat, c, body, m1, o1);
                    },
                    _ => {},
                }
            }
        },
        _ => {},
    }
}

/// Scope discipline for a running `for` loop.
pub proof fn lemma_eval_for_preserves_len(
    fuel: nat,
    c: ExprV,
    inc: AstV,
    body: AstV,
    m: MemTable,
    o: OutputV,
)
    ensures
        match spec_eval_for(fuel, c, inc, body, m, o) {
            Some(Ok((m2, _))) => m2.len() == m.len(),
            _ => true,
        },
    decreases fuel, ast_size(inc) + ast_size(body) + 1, 0int, 0int,
{
    match spec_eval_expr(c, m) {
        Ok(Value::BooleanValue(true)) => {
            if fuel > 0 {
                lemma_eval_stmt_preserves_len(fuel, body, m, o);
                match spec_eval_stmt(fuel, body, m, o) {
                    Some(Ok((m1, o1))) => {
                        lemma_eval_stmt_preserves_len(fuel, inc, m1, o1);
                        match spec_eval_stmt(fuel, inc, m1, o1) {
                            Some(Ok((m2, o2))) => {
                                lemma_eval_for_preserves_len(
                                    (fuel - 1) as nat,
                                    c,
                                    inc,
                                    body,
                                    m2,
                                    o2,
                                );
                            },
                            _ => {},
                        }
                    },
                    _ => {},
                }
            }
        },
        _ => {},
    }
}

/// Assigning never changes how many frames are live.
proof fn lemma_mem_assign_preserves_len(m: MemTable, id: Seq<char>, v: Value)
    ensures
        mem_assign(m, id, v).len() == m.len(),
    decreases m.len(),
{
    if m.len() > 0 && !m.last().contains_key(id) {
        lemma_mem_assign_preserves_len(m.drop_last(), id, v);
    }
}

/// An element of a run is never larger than the whole run.
proof fn lemma_asts_size_le(ss: Seq<AstV>, k: int)
    requires
        0 <= k < ss.len(),
    ensures
        ast_size(ss[k]) <= asts_size(ss),
    decreases ss.len(),
{
    if k > 0 {
        lemma_asts_size_le(ss.drop_first(), k - 1);
        assert(ss.drop_first()[k - 1] == ss[k]);
    }
}

/// Mathematical model of an interpreter: the value store and the lines
/// printed so far.
pub struct InterpV {
    pub mem: MemTable,
    pub out: OutputV,
}

/// The interpreter: a scoped value store and the collected output.
pub struct Interpreter {
    memory: Memory,
    output: Vec<String>,
}

impl View for Interpreter {
    type V = InterpV;

    closed spec fn view(&self) -> InterpV {
        InterpV { mem: self.memory@, out: self.output@.map_values(|s: String| s@) }
    }
}

impl Interpreter {
    /// An interpreter over a fresh store holding only the empty root
    /// frame, with no output yet.
    pub fn new() -> (r: Self)
        ensures
            r@.mem =~= seq![Map::<Seq<char>, Value>::empty()],
            r@.out =~= Seq::<Seq<char>>::empty(),
    {
        Self { memory: Memory::new(), output: Vec::new() }
    }

    /// The lines printed so far, in order.
    pub fn output(&self) -> (r: &Vec<String>)
        ensures
            r@.len() == self@.out.len(),
            forall|k: int| 0 <= k < r@.len() ==> r@[k]@ == self@.out[k],
    {
        &self.output
    }

    /// Evaluates one expression under the current store.
    fn eval_expression(&self, expr: &Expression) -> (r: Result<Value, RuntimeError>)
        ensures
            match spec_eval_expr(expr@, self@.mem) {
                Ok(v) => r == Ok::<Value, RuntimeError>(v),
                Err(er) => match r {
                    Ok(_) => false,
                    Err(e) => e@ == er,
                },
            },
        decreases *expr,
    {
        match expr {
            Expression::IntegerLiteral(v) => Ok(Value::IntegerValue(*v)),
            Expression::FloatLiteral(b) => Ok(Value::FloatValue(*b)),
            Expression::BooleanLiteral(b) => Ok(Value::BooleanValue(*b)),
            Expression::Variable(id) => match self.memory.retrieve_val(id.clone()) {
                Some(v) => Ok(v),
                None => Err(RuntimeError::UnboundVariable(id.clone())),
            },
            Expression::BinaryOperation(l, op, r) => {
                let lv = match self.eval_expression(l) {
                    Err(e) => {
                        return Err(e);
                    },
                    Ok(v) => v,
                };
                let rv = match self.eval_expression(r) {
                    Err(e) => {
                        return Err(e);
                    },
                    Ok(v) => v,
                };
                apply_operator(*op, lv, rv)
            },
        }
    }

    /// Evaluates one statement within the given fuel bound: nothing for a
    /// completed statement, the program's own fatal failure, or the
    /// out-of-fuel failure where the bound was hit; the store and the
    /// output then hold exactly what the model evaluator prescribes.
    pub fn eval(&mut self, ast: &AST, fuel: u64) -> (r: Result<(), RuntimeError>)
        requires
            old(self)@.mem.len() >= 1,
        ensures
            match spec_eval_stmt(fuel as nat, ast@, old(self)@.mem, old(self)@.out) {
                None => match r {
                    Err(e) => e@ == RuntimeErrorV::OutOfFuel,
                    Ok(_) => false,
                },
                Some(Ok((m2, o2))) => r == Ok::<(), RuntimeError>(()) && final(self)@.mem == m2
                    && final(self)@.out == o2,
                Some(Err(er)) => match r {
                    Err(e) => e@ == er,
                    Ok(_) => false,
                },
            },
        decreases fuel, ast_size(ast@), 0int, 0int,
    {
        match ast {
            AST::VarDeclaration(_, id) => {
                self.memory.declare(id.clone());
                Ok(())
            },
            AST::VarDeclarationAndAssignment(_, id, expr) => {
                let v = match self.eval_expression(expr) {
                    Err(e) => {
                        return Err(e);
                    },
                    Ok(v) => v,
                };
                self.memory.declare_assign(id.clone(), v);
                Ok(())
            },
            AST::Assign(id, expr) => {
                let v = match self.eval_expression(expr) {
                    Err(e) => {
                        return Err(e);
                    },
                    Ok(v) => v,
                };
                self.memory.assign(id.clone(), v);
                Ok(())
            },
            AST::Print(expr) => {
                let v = match self.eval_expression(expr) {
                    Err(e) => {
                        return Err(e);
                    },
                    Ok(v) => v,
                };
                let line = render_value(v);
                let ghost out0 = self.output@;
                self.output.push(line);
                proof {
                    assert(self@.out =~= out0.map_values(|s: String| s@).push(
                        spec_value_text(v),
                    ));
                }
                Ok(())
            },
            AST::Block(nodes) => {
                let ghost m0 = self@.mem;
                let ghost o0 = self@.out;
                let n = nodes.len();
                let mut i: usize = 0;
                proof {
                    crate::parsing::ast::lemma_asts_view_index(nodes@);
                    assert(asts_view(nodes@).subrange(0, n as int) =~= asts_view(nodes@));
                }
                while i < n
                    invariant
                        0 <= i <= n,
                        n == nodes@.len(),
                        *ast == AST::Block(*nodes),
                        m0 == old(self)@.mem,
                        o0 == old(self)@.out,
                        asts_view(nodes@).len() == n,
                        forall|k: int| 0 <= k < n ==> asts_view(nodes@)[k] == #[trigger] nodes@[k]@,
                        self@.mem.len() >= 1,
                        spec_eval_stmts(fuel as nat, asts_view(nodes@), m0, o0) == spec_eval_stmts(
                            fuel as nat,
                            asts_view(nodes@).subrange(i as int, n as int),
                            self@.mem,
                            self@.out,
                        ),
                    decreases n - i,
                {
                    proof {
                        assert(decreases_to!(*ast => ast->Block_0));
                        assert(decreases_to!(*nodes => nodes@));
                        assert(decreases_to!(nodes@ => nodes@[i as int]));
                        lemma_asts_size_le(asts_view(nodes@), i as int);
                        assert(asts_view(nodes@).subrange(i as int, n as int)[0] == nodes@[
                            i as int
                        ]@);
                        assert(asts_view(nodes@).subrange(i as int, n as int).drop_first()
                            =~= asts_view(nodes@).subrange(i + 1, n as int));
                    }
                    let ghost m_pre = self@.mem;
                    let ghost o_pre = self@.out;
                    match self.eval(&nodes[i], fuel) {
                        Err(e) => {
                            return Err(e);
                        },
                        Ok(()) => {},
                    }
                    proof {
                        lemma_eval_stmt_preserves_len(fuel as nat, nodes@[i as int]@, m_pre, o_pre);
                    }
                    i += 1;
                }
                proof {
                    assert(asts_view(nodes@).subrange(n as int, n as int) =~= Seq::<
                        AstV,
                    >::empty());
                }
                Ok(())
            },
            AST::IfStatement(cond, then_clause) => {
                let cv = match self.eval_expression(cond) {
                    Err(e) => {
                        return Err(e);
                    },
                    Ok(v) => v,
                };
                let b = match cv {
                    Value::BooleanValue(b) => b,
                    v => {
                        return Err(RuntimeError::ExpectedBoolean(v));
                    },
                };
                if b {
                    self.memory.create_frame();
                    let ghost m1 = self@.mem;
                    let ghost o1 = self@.out;
                    proof {
                        assert(decreases_to!(*ast => ast->IfStatement_1));
                    }
                    match self.eval(then_clause, fuel) {
                        Err(e) => {
                            return Err(e);
                        },
                        Ok(()) => {},
                    }
                    proof {
                        lemma_eval_stmt_preserves_len(fuel as nat, then_clause@, m1, o1);
                    }
                    self.memory.remove_frame();
                }
                Ok(())
            },
            AST::WhileStatement(cond, body) => {
                self.memory.create_frame();
                let ghost m1 = self@.mem;
                let ghost o1 = self@.out;
                proof {
                    assert(decreases_to!(*ast => ast->WhileStatement_1));
                }
                match self.eval_while_loop(cond, body, fuel) {
                    Err(e) => {
                        return Err(e);
                    },
                    Ok(()) => {},
                }
                proof {
                    lemma_eval_while_preserves_len(fuel as nat, cond@, body@, m1, o1);
                }
                self.memory.remove_frame();
                Ok(())
            },
            AST::ForStatement(dec, cond, inc, body) => {
                self.memory.create_frame();
                let ghost m1 = self@.mem;
                let ghost o1 = self@.out;
                proof {
                    assert(decreases_to!(*ast => ast->ForStatement_0));
                    assert(decreases_to!(*ast => ast->ForStatement_2));
                    assert(decreases_to!(*ast => ast->ForStatement_3));
                }
                match self.eval(dec, fuel) {
                    Err(e) => {
                        return Err(e);
                    },
                    Ok(()) => {},
                }
                proof {
                    lemma_eval_stmt_preserves_len(fuel as nat, dec@, m1, o1);
                }
                let ghost m2 = self@.mem;
                let ghost o2 = self@.out;
                match self.eval_for_loop(cond, inc, body, fuel) {
                    Err(e) => {
                        return Err(e);
                    },
                    Ok(()) => {},
                }
                proof {
                    lemma_eval_for_preserves_len(fuel as nat, cond@, inc@, body@, m2, o2);
                }
                self.memory.remove_frame();
                Ok(())
            },
        }
    }

    /// Runs one `while` loop whose frame is already pushed, spending one
    /// fuel unit per iteration.
    fn eval_while_loop(&mut self, cond: &Expression, body: &AST, f: u64) -> (r: Result<
        (),
        RuntimeError,
    >)
        requires
            old(self)@.mem.len() >= 1,
        ensures
            match spec_eval_while(f as nat, cond@, body@, old(self)@.mem, old(self)@.out) {
                None => match r {
                    Err(e) => e@ == RuntimeErrorV::OutOfFuel,
                    Ok(_) => false,
                },
                Some(Ok((m2, o2))) => r == Ok::<(), RuntimeError>(()) && final(self)@.mem == m2
                    && final(self)@.out == o2,
                Some(Err(er)) => match r {
                    Err(e) => e@ == er,
                    Ok(_) => false,
                },
            },
        decreases f, ast_size(body@) + 1, 0int, 0int,
    {
        let cv = match self.eval_expression(cond) {
            Err(e) => {
                return Err(e);
            },
            Ok(v) => v,
        };
        let b = match cv {
            Value::BooleanValue(b) => b,
            v => {
                return Err(RuntimeError::ExpectedBoolean(v));
            },
        };
        if !b {
            return Ok(());
        }
        if f == 0 {
            return Err(RuntimeError::OutOfFuel);
        }
        let ghost m1 = self@.mem;
        let ghost o1 = self@.out;
        match self.eval(body, f) {
            Err(e) => {
                return Err(e);
            },
            Ok(()) => {},
        }
        proof {
            lemma_eval_stmt_preserves_len(f as nat, body@, m1, o1);
        }
        self.eval_while_loop(cond, body, f - 1)
    }

    /// Runs one `for` loop after its initialiser, its frame already
    /// pushed: body then increment, one fuel unit per iteration.
    fn eval_for_loop(&mut self, cond: &Expression, inc: &AST, body: &AST, f: u64) -> (r: Result<
        (),
        RuntimeError,
    >)
        requires
            old(self)@.mem.len() >= 1,
        ensures
            match spec_eval_for(f as nat, cond@, inc@, body@, old(self)@.mem, old(self)@.out) {
                None => match r {
                    Err(e) => e@ == RuntimeErrorV::OutOfFuel,
                    Ok(_) => false,
                },
                Some(Ok((m2, o2))) => r == Ok::<(), RuntimeError>(()) && final(self)@.mem == m2
                    && final(self)@.out == o2,
                Some(Err(er)) => match r {
                    Err(e) => e@ == er,
                    Ok(_) => false,
                },
            },
        decreases f, ast_size(inc@) + ast_size(body@) + 1, 0int, 0int,
    {
        let cv = match self.eval_expression(cond) {
            Err(e) => {
                return Err(e);
            },
            Ok(v) => v,
        };
        let b = match cv {
            Value::BooleanValue(b) => b,
            v => {
                return Err(RuntimeError::ExpectedBoolean(v));
            },
        };
        if !b {
            return Ok(());
        }
        if f == 0 {
            return Err(RuntimeError::OutOfFuel);
        }
        let ghost m1 = self@.mem;
        let ghost o1 = self@.out;
        match self.eval(body, f) {
            Err(e) => {
                return Err(e);
            },
            Ok(()) => {},
        }
        proof {
            lemma_eval_stmt_preserves_len(f as nat, body@, m1, o1);
        }
        let ghost m2 = self@.mem;
        let ghost o2 = self@.out;
        match self.eval(inc, f) {
            Err(e) => {
                return Err(e);
            },
            Ok(()) => {},
        }
        proof {
            lemma_eval_stmt_preserves_len(f as nat, inc@, m2, o2);
        }
        self.eval_for_loop(cond, inc, body, f - 1)
    }
}

} // verus!
