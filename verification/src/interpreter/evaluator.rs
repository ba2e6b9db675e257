//! Evaluates an expression over named scopes, one step at a time, handing
//! floating-point work to the caller as the machine does.
use vstd::prelude::*;
use crate::error::{JangError, JangErrorView, JangResult};
use crate::interpreter::bytecode::machine::{bad_stack, ErrorView};
use crate::interpreter::error::{InterpreterError, InterpreterErrorKind};
use crate::interpreter::interpreter::{scopes_lookup, ExecutionScope};
use crate::interpreter::parse_as::{int_error_text, spec_parse_i32};
use crate::interpreter::value::{
    arith_overflows, arith_prefix, by_zero_message, is_arith_op, spec_int_arith, spec_numeric_pair,
    Computed, FloatWork, FloatWorkView, NumericValuePair, Value,
};
use crate::parser::ast::binary_expression::{
    binary_op_text, lemma_expression_view, BinaryOp, ExprView, Expression,
};
use crate::parser::token::literal::{LiteralView, NumericLiteralView};
use crate::text::{push_str, text_of};

verus! {

/// The model of a piece of work left: an expression to evaluate, or an
/// operator to apply to the two values on top of the stack.
pub enum TaskModel {
    Eval(ExprView),
    Apply(BinaryOp),
}

/// The model of an evaluation: the work left, the next piece last, and the
/// values computed so far, the latest last.
pub struct EvalModel<'a> {
    pub tasks: Seq<TaskModel>,
    pub values: Seq<Value<'a>>,
}

/// The model of an `EvalStatus`.
pub enum EvalStatusModel<'a> {
    Running,
    Finished(Value<'a>),
    NeedsFloat(FloatWorkView),
}

/// What the evaluator reports after one step.
pub enum EvalStatus<'a> {
    /// The evaluation goes on.
    Running,
    /// The expression has this value.
    Finished(Value<'a>),
    /// The evaluation waits for floating-point work; hand its value to
    /// `ExpressionEvaluator::resume_with` before the next step.
    NeedsFloat(FloatWork),
}

impl<'a> View for EvalStatus<'a> {
    type V = EvalStatusModel<'a>;

    open spec fn view(&self) -> EvalStatusModel<'a> {
        match self {
            EvalStatus::Running => EvalStatusModel::Running,
            EvalStatus::Finished(v) => EvalStatusModel::Finished(*v),
            EvalStatus::NeedsFloat(w) => EvalStatusModel::NeedsFloat(w@),
        }
    }
}

/// The message for a name that no scope binds.
pub open spec fn unbound_message(name: Seq<char>) -> Seq<char> {
    "binding for \""@ + name + "\" not found"@
}

/// An operator applied to the two values on top of `vals`, the left operand
/// under the right one: the float work it asks for, if any, and the values
/// after it.
pub open spec fn spec_apply<'a>(op: BinaryOp, vals: Seq<Value<'a>>) -> Result<
    (EvalStatusModel<'a>, Seq<Value<'a>>),
    ErrorView,
> {
    let n = vals.len();
    if n < 2 {
        Err(bad_stack())
    } else if !is_arith_op(op) {
        Err((InterpreterErrorKind::Unimplemented, binary_op_text(op)))
    } else {
        let lhs = vals[n - 2];
        let rhs = vals[n - 1];
        let rest = vals.take(n - 2);
        match spec_numeric_pair(lhs, rhs) {
            Err(m) => Err((InterpreterErrorKind::Value, arith_prefix(op) + m)),
            Ok(NumericValuePair::Int32(x, y)) => match spec_int_arith(op, x, y) {
                Some(z) => Ok((EvalStatusModel::Running, rest.push(Value::Int32(z as i32)))),
                None => Err((InterpreterErrorKind::Value, by_zero_message(op, lhs, rhs))),
            },
            Ok(NumericValuePair::Float32(x, y)) => Ok(
                (EvalStatusModel::NeedsFloat(FloatWorkView::Binary(op, x, y)), rest),
            ),
        }
    }
}

/// One step of an evaluation over the scopes `scopes`: with no work left,
/// the value on top; else the next piece of work done.
pub open spec fn spec_eval_step<'a>(m: EvalModel<'a>, scopes: Seq<Map<Seq<char>, Value<'a>>>) -> Result<
    (EvalStatusModel<'a>, EvalModel<'a>),
    JangErrorView,
> {
    if m.tasks.len() == 0 {
        if m.values.len() == 0 {
            Err(JangErrorView::Interpret(bad_stack()))
        } else {
            Ok((EvalStatusModel::Finished(m.values.last()), m))
        }
    } else {
        let rest = m.tasks.drop_last();
        match m.tasks.last() {
            TaskModel::Eval(ExprView::Literal(LiteralView::Numeric(NumericLiteralView::Integral(t)))) => {
                match spec_parse_i32(t) {
                    Ok(v) => Ok(
                        (
                            EvalStatusModel::Running,
                            EvalModel { tasks: rest, values: m.values.push(Value::Int32(v as i32)) },
                        ),
                    ),
                    Err(k) => Err(
                        JangErrorView::Interpret((InterpreterErrorKind::Generic, int_error_text(k))),
                    ),
                }
            },
            TaskModel::Eval(ExprView::Literal(LiteralView::Numeric(NumericLiteralView::Float(t)))) => {
                Ok(
                    (
                        EvalStatusModel::NeedsFloat(FloatWorkView::Parse(t)),
                        EvalModel { tasks: rest, values: m.values },
                    ),
                )
            },
            TaskModel::Eval(ExprView::Ident(name)) => match scopes_lookup(scopes, name) {
                Some(v) => Ok(
                    (EvalStatusModel::Running, EvalModel { tasks: rest, values: m.values.push(v) }),
                ),
                None => Err(
                    JangErrorView::Interpret((InterpreterErrorKind::Generic, unbound_message(name))),
                ),
            },
            TaskModel::Eval(ExprView::Binary(lhs, op, rhs)) => Ok(
                (
                    EvalStatusModel::Running,
                    EvalModel {
                        tasks: rest.push(TaskModel::Apply(op)).push(TaskModel::Eval(*rhs)).push(
                            TaskModel::Eval(*lhs),
                        ),
                        values: m.values,
                    },
                ),
            ),
            TaskModel::Apply(op) => match spec_apply(op, m.values) {
                Ok((st, vals)) => Ok((st, EvalModel { tasks: rest, values: vals })),
                Err(e) => Err(JangErrorView::Interpret(e)),
            },
        }
    }
}

/// Applying an arithmetic operator to two floats hands out float work with
/// the value under the top as its left operand and the top as its right
/// one, and takes both values off.
pub proof fn lemma_apply_float_operand_order<'a>(
    m: EvalModel<'a>,
    scopes: Seq<Map<Seq<char>, Value<'a>>>,
    op: BinaryOp,
    rest: Seq<Value<'a>>,
    x: u32,
    y: u32,
)
    requires
        m.tasks.len() > 0,
        m.tasks.last() == TaskModel::Apply(op),
        op == BinaryOp::Add || op == BinaryOp::Sub || op == BinaryOp::Mul || op == BinaryOp::Div
            || op == BinaryOp::Mod,
        m.values == rest.push(Value::Float32(x)).push(Value::Float32(y)),
    ensures
        spec_eval_step(m, scopes) == Ok::<(EvalStatusModel<'a>, EvalModel<'a>), JangErrorView>(
            (
                EvalStatusModel::NeedsFloat(FloatWorkView::Binary(op, x, y)),
                EvalModel { tasks: m.tasks.drop_last(), values: rest },
            ),
        ),
{
    let v = m.values;
    assert(v[v.len() - 2] == Value::<'a>::Float32(x));
    assert(v[v.len() - 1] == Value::<'a>::Float32(y));
    assert(v.take(v.len() - 2) =~= rest);
}

/// Sum, difference and product of two integers in range: the value under
/// the top is the left operand, so `x` then `y` give `x + y`, `x - y` or
/// `x * y` in their place.
pub proof fn lemma_apply_int_results<'a>(
    m: EvalModel<'a>,
    scopes: Seq<Map<Seq<char>, Value<'a>>>,
    op: BinaryOp,
    rest: Seq<Value<'a>>,
    x: i32,
    y: i32,
)
    requires
        m.tasks.len() > 0,
        m.tasks.last() == TaskModel::Apply(op),
        op == BinaryOp::Add || op == BinaryOp::Sub || op == BinaryOp::Mul,
        m.values == rest.push(Value::Int32(x)).push(Value::Int32(y)),
        i32::MIN <= (if op == BinaryOp::Add {
            x + y
        } else if op == BinaryOp::Sub {
            x - y
        } else {
            x * y
        }) <= i32::MAX,
    ensures
        spec_eval_step(m, scopes) == Ok::<(EvalStatusModel<'a>, EvalModel<'a>), JangErrorView>(
            (
                EvalStatusModel::Running,
                EvalModel {
                    tasks: m.tasks.drop_last(),
                    values: rest.push(
                        Value::Int32(
                            (if op == BinaryOp::Add {
                                x + y
                            } else if op == BinaryOp::Sub {
                                x - y
                            } else {
                                x * y
                            }) as i32,
                        ),
                    ),
                },
            ),
        ),
{
    let v = m.values;
    assert(v[v.len() - 2] == Value::<'a>::Int32(x));
    assert(v[v.len() - 1] == Value::<'a>::Int32(y));
    assert(v.take(v.len() - 2) =~= rest);
}

/// True when the next step would overflow: an `i32` sum, difference or
/// product out of range.
pub open spec fn eval_step_overflows<'a>(m: EvalModel<'a>) -> bool {
    let n = m.values.len();
    m.tasks.len() > 0 && match m.tasks.last() {
        TaskModel::Apply(op) => n >= 2 && arith_overflows(op, m.values[n - 2], m.values[n - 1]),
        _ => false,
    }
}

/// A piece of work left.
enum Task<'e> {
    Eval(&'e Expression),
    Apply(BinaryOp),
}

spec fn task_model<'e>(t: Task<'e>) -> TaskModel {
    match t {
        Task::Eval(e) => TaskModel::Eval(e@),
        Task::Apply(op) => TaskModel::Apply(op),
    }
}

/// Evaluates an expression, with names looked up in a scope.
pub struct ExpressionEvaluator<'e, 'a> {
    scope: &'e ExecutionScope<'a>,
    tasks: Vec<Task<'e>>,
    values: Vec<Value<'a>>,
}

impl<'e, 'a> View for ExpressionEvaluator<'e, 'a> {
    type V = EvalModel<'a>;

    closed spec fn view(&self) -> EvalModel<'a> {
        EvalModel {
            tasks: self.tasks@.map_values(|t: Task<'e>| task_model(t)),
            values: self.values@,
        }
    }
}

impl<'e, 'a> ExpressionEvaluator<'e, 'a> {
    /// The scopes that names are looked up in.
    pub closed spec fn scopes(&self) -> Seq<Map<Seq<char>, Value<'a>>> {
        self.scope@
    }

    /// An evaluator about to evaluate `expr` in `scope`.
    pub fn new(scope: &'e ExecutionScope<'a>, expr: &'e Expression) -> (ev: ExpressionEvaluator<'e, 'a>)
        ensures
            ev@ == (EvalModel::<'a> { tasks: seq![TaskModel::Eval(expr@)], values: Seq::empty() }),
            ev.scopes() == scope@,
    {
        let mut tasks: Vec<Task<'e>> = Vec::new();
        tasks.push(Task::Eval(expr));
        let ev = ExpressionEvaluator { scope, tasks, values: Vec::new() };
        assert(ev@.tasks =~= seq![TaskModel::Eval(expr@)]);
        assert(ev@.values =~= Seq::<Value<'a>>::empty());
        ev
    }

    /// Whether the next step would overflow.
    pub fn next_step_overflows(&self) -> (b: bool)
        ensures
            b == eval_step_overflows(self@),
    {
        let nt = self.tasks.len();
        if nt == 0 {
            return false;
        }
        let n = self.values.len();
        match &self.tasks[nt - 1] {
            Task::Apply(op) => n >= 2 && self.values[n - 2].overflows(*op, &self.values[n - 1]),
            Task::Eval(_) => false,
        }
    }

    /// Does the next piece of work.
    pub fn step(&mut self) -> (r: JangResult<EvalStatus<'a>>)
        requires
            !eval_step_overflows(old(self)@),
        ensures
            final(self).scopes() == old(self).scopes(),
            match spec_eval_step(old(self)@, old(self).scopes()) {
                Ok((st, m)) => r matches Ok(s) && s@ == st && final(self)@ == m,
                Err(e) => r matches Err(err) && err@ == e,
            },
    {
        let ghost before = self@;
        let task = match self.tasks.pop() {
            Some(t) => t,
            None => {
                let n = self.values.len();
                if n == 0 {
                    return Err(
                        JangError::Interpret(InterpreterError::internal_err(text_of("bad stack: empty"))),
                    );
                }
                return Ok(EvalStatus::Finished(self.values[n - 1]));
            },
        };
        proof {
            assert(self@.tasks =~= before.tasks.drop_last());
            assert(task_model(task) == before.tasks.last());
        }
        match task {
            Task::Eval(expr) => {
                proof {
                    lemma_expression_view(*expr);
                }
                match expr {
                    Expression::Literal(literal) => match Value::from_literal(literal) {
                        Ok(Computed::Value(v)) => {
                            self.values.push(v);
                            Ok(EvalStatus::Running)
                        },
                        Ok(Computed::Float(work)) => Ok(EvalStatus::NeedsFloat(work)),
                        Err(e) => Err(JangError::Interpret(e)),
                    },
                    Expression::Ident(name) => match self.scope.lookup_binding(name) {
                        Some(v) => {
                            self.values.push(*v);
                            Ok(EvalStatus::Running)
                        },
                        None => {
                            let mut m = text_of("binding for \"");
                            push_str(&mut m, name.as_str());
                            push_str(&mut m, "\" not found");
                            assert(m@ =~= unbound_message(name@));
                            Err(JangError::Interpret(InterpreterError::generic_err(m)))
                        },
                    },
                    Expression::BinaryExpression(b) => {
                        let ghost t0 = self.tasks@;
                        self.tasks.push(Task::Apply(b.op()));
                        self.tasks.push(Task::Eval(b.rhs()));
                        self.tasks.push(Task::Eval(b.lhs()));
                        proof {
                            assert(self@.tasks =~= before.tasks.drop_last().push(
                                TaskModel::Apply(b@.op),
                            ).push(TaskModel::Eval(b@.rhs)).push(TaskModel::Eval(b@.lhs)));
                        }
                        Ok(EvalStatus::Running)
                    },
                }
            },
            Task::Apply(op) => {
                let ghost vals = self.values@;
                let n = self.values.len();
                if n < 2 {
                    return Err(
                        JangError::Interpret(InterpreterError::internal_err(text_of("bad stack: empty"))),
                    );
                }
                let rhs = self.values.pop().unwrap();
                let lhs = self.values.pop().unwrap();
                proof {
                    assert(lhs == vals[n - 2]);
                    assert(rhs == vals[n - 1]);
                    assert(self.values@ =~= vals.take(n - 2));
                }
                match op {
                    BinaryOp::Add | BinaryOp::Sub | BinaryOp::Mul | BinaryOp::Div | BinaryOp::Mod => {},
                    _ => {
                        return Err(
                            JangError::Interpret(InterpreterError::unimplemented(op.to_text())),
                        );
                    },
                }
                match lhs.arith(op, &rhs) {
                    Ok(Computed::Value(v)) => {
                        self.values.push(v);
                        Ok(EvalStatus::Running)
                    },
                    Ok(Computed::Float(work)) => Ok(EvalStatus::NeedsFloat(work)),
                    Err(e) => Err(JangError::Interpret(e)),
                }
            },
        }
    }

    /// Hands the value of the floating-point work that the last step asked
    /// for to the evaluation: it goes on top of the values.
    pub fn resume_with(&mut self, value: Value<'a>)
        ensures
            final(self).scopes() == old(self).scopes(),
            final(self)@ == (EvalModel { values: old(self)@.values.push(value), ..old(self)@ }),
    {
        self.values.push(value);
    }
}

} // verus!
