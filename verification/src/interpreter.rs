//! The interpreter: evaluates expressions and executes statements against
//! the variables of the running program.
//!
//! The lines the program writes (the values of `print` statements, the
//! reports of runtime errors and of operations that cannot be performed) are
//! kept, in order, for the caller to show.

use vstd::prelude::*;

use crate::ast::expr::{expr_text, Binary, Expr};
use crate::ast::stmt::Stmt;
use crate::environment::Environment;
use crate::errors::{failure_of, failure_text, ErrorCode, Failure, Reporter};
use crate::float::{ask_float, engine_ok, float_result, FloatAnswer, FloatQuery, FloatQueryView};
use crate::object::{
    consistent, fits_i32, lemma_arith_kinds, arith_halts, arith_report, halts, int_to_float, literal_object, object_arith, object_eq, object_of,
    object_order, order_report, order_truth, ArithOp, CompareOp, Object, ObjectKind, ObjectValue, ObjectView,
};
use crate::text::{append, signed_decimal_text, text};
use crate::token::{literal_text, LiteralView, Token, TokenKind};

verus! {

/// What evaluating gives: a value, a failure, or a halt (an integer result
/// out of range or an integer division by zero, which stops the program).
pub enum Eval {
    Value(ObjectView),
    Fail(Failure),
    Halt,
}

/// What a running program changes: its variables, and the lines it wrote.
pub struct RunState {
    pub env: Map<Seq<char>, ObjectView>,
    pub out: Seq<Seq<char>>,
}

/// Whether a kind is number or float.
pub open spec fn numeric_kind(k: ObjectKind) -> bool {
    k == ObjectKind::Number || k == ObjectKind::Float
}

/// Whether a kind is number, float or string.
pub open spec fn numeric_or_string_kind(k: ObjectKind) -> bool {
    numeric_kind(k) || k == ObjectKind::String
}

/// A boolean object.
pub open spec fn bool_object(b: bool) -> ObjectView {
    object_of(LiteralView::Bool(b))
}

/// The truth of an object as `!` gives it: false for nil, the object itself
/// for a boolean, true for anything else.
pub open spec fn truthy(o: ObjectView) -> ObjectView {
    match o.kind {
        ObjectKind::Nil => bool_object(false),
        ObjectKind::Bool => o,
        _ => bool_object(true),
    }
}

/// The state after a line is written.
pub open spec fn write_line(s: RunState, line: Seq<char>) -> RunState {
    RunState { env: s.env, out: s.out.push(line) }
}

/// The state after a line is written, if there is one.
pub open spec fn write_report(s: RunState, line: Option<Seq<char>>) -> RunState {
    match line {
        Some(t) => write_line(s, t),
        None => s,
    }
}

/// A prefix operator applied to a value.
pub open spec fn unary_result<F: Fn(FloatQuery) -> FloatAnswer>(f: F, op: Token, x: ObjectView) -> Eval {
    match op.kind {
        TokenKind::Minus => if !numeric_kind(x.kind) {
            Eval::Fail(Failure::Runtime(op, "Operand must be a number: "@ + literal_text(f, x.value)))
        } else {
            match x.value {
                LiteralView::Number(n) => if n == i32::MIN {
                    Eval::Halt
                } else {
                    Eval::Value(object_of(LiteralView::Float(int_to_float(f, (-n) as i32))))
                },
                LiteralView::Float(b) => Eval::Value(
                    object_of(LiteralView::Float(float_result(f, FloatQueryView::Negate(b)))),
                ),
                _ => Eval::Fail(Failure::Process),
            }
        },
        TokenKind::Bang => Eval::Value(truthy(x)),
        _ => Eval::Fail(Failure::Process),
    }
}

/// The arithmetic operator a token stands for.
pub open spec fn arith_of(k: TokenKind) -> Option<ArithOp> {
    match k {
        TokenKind::Plus => Some(ArithOp::Add),
        TokenKind::Minus => Some(ArithOp::Subtract),
        TokenKind::Slash => Some(ArithOp::Divide),
        TokenKind::Star => Some(ArithOp::Multiply),
        _ => None,
    }
}

/// The comparison operator a token stands for.
pub open spec fn compare_of(k: TokenKind) -> Option<CompareOp> {
    match k {
        TokenKind::Greater => Some(CompareOp::Greater),
        TokenKind::GreaterEqual => Some(CompareOp::GreaterEqual),
        TokenKind::Less => Some(CompareOp::Less),
        TokenKind::LessEqual => Some(CompareOp::LessEqual),
        _ => None,
    }
}

/// The runtime error of operands of the wrong kinds.
pub open spec fn operands_error<F: Fn(FloatQuery) -> FloatAnswer>(
    f: F,
    op: Token,
    message: Seq<char>,
    x: ObjectView,
    y: ObjectView,
) -> Eval {
    Eval::Fail(Failure::Runtime(op, message + literal_text(f, x.value) + " "@ + literal_text(f, y.value)))
}

/// A binary operator applied to the values of its operands, `x` on the left
/// and `y` on the right, with the report the operation makes, if any. `+`
/// takes numbers, floats and strings; the other arithmetic and the
/// comparison operators take numbers and floats; `==` and `!=` take anything.
pub open spec fn binary_result<F: Fn(FloatQuery) -> FloatAnswer>(
    f: F,
    b: Binary,
    x: ObjectView,
    y: ObjectView,
) -> (Eval, Option<Seq<char>>) {
    let op = b.operator;
    match arith_of(op.kind) {
        Some(aop) => if aop == ArithOp::Add && (!numeric_or_string_kind(x.kind) || !numeric_or_string_kind(y.kind)) {
            (operands_error(f, op, "Operands must be two numbers or two strings: "@, x, y), None)
        } else if aop != ArithOp::Add && (!numeric_kind(x.kind) || !numeric_kind(y.kind)) {
            (operands_error(f, op, "Operand must be a number: "@, x, y), None)
        } else if arith_halts(aop, x.value, y.value) {
            (Eval::Halt, None)
        } else {
            (Eval::Value(object_arith(f, aop, x, y)), arith_report(f, aop, x.value, y.value))
        },
        None => match compare_of(op.kind) {
            Some(cop) => if !numeric_kind(x.kind) || !numeric_kind(y.kind) {
                (operands_error(f, op, "Operand must be a number: "@, x, y), None)
            } else {
                (Eval::Value(bool_object(order_truth(object_order(f, cop, x, y)))), order_report(f, cop, x, y))
            },
            None => if op.kind == TokenKind::BangEqual {
                (Eval::Value(bool_object(!object_eq(f, x, y))), None)
            } else if op.kind == TokenKind::EqualEqual {
                (Eval::Value(bool_object(object_eq(f, x, y))), None)
            } else {
                (
                    Eval::Fail(
                        Failure::Runtime(
                            op,
                            "invalid expression: "@ + expr_text(f, *b.left) + " "@ + expr_text(f, *b.right),
                        ),
                    ),
                    None,
                )
            },
        },
    }
}

/// Evaluating an expression: what it gives and the state after it. The
/// right operand of a binary operator is evaluated before the left one.
pub open spec fn eval<F: Fn(FloatQuery) -> FloatAnswer>(f: F, s: RunState, e: Expr) -> (Eval, RunState)
    decreases e,
{
    match e {
        Expr::Literal(l) => (Eval::Value(object_of(l.value@)), s),
        Expr::Grouping(g) => eval(f, s, *g.expression),
        Expr::Variable(v) => if s.env.contains_key(v.name.lexeme@) {
            (Eval::Value(s.env[v.name.lexeme@]), s)
        } else {
            (Eval::Fail(Failure::Process), s)
        },
        Expr::Assign(a) => {
            let (r, s1) = eval(f, s, *a.value);
            match r {
                Eval::Value(x) => if s1.env.contains_key(a.name.lexeme@) {
                    (Eval::Value(x), RunState { env: s1.env.insert(a.name.lexeme@, x), out: s1.out })
                } else {
                    (Eval::Fail(Failure::Process), s1)
                },
                _ => (r, s1),
            }
        },
        Expr::Unary(u) => {
            let (r, s1) = eval(f, s, *u.right);
            match r {
                Eval::Value(x) => (unary_result(f, u.operator, x), s1),
                _ => (r, s1),
            }
        },
        Expr::Binary(b) => {
            let (rr, s1) = eval(f, s, *b.right);
            match rr {
                Eval::Value(y) => {
                    let (lr, s2) = eval(f, s1, *b.left);
                    match lr {
                        Eval::Value(x) => {
                            let (r, report) = binary_result(f, b, x, y);
                            (r, write_report(s2, report))
                        },
                        _ => (lr, s2),
                    }
                },
                _ => (rr, s1),
            }
        },
    }
}

/// Executing a statement: what it gives and the state after it. `print`
/// writes the rendering of its value; `let` and `const` bind the name to the
/// value of the initializer.
#[verifier::opaque]
pub open spec fn run_stmt<F: Fn(FloatQuery) -> FloatAnswer>(f: F, s: RunState, st: Stmt) -> (Eval, RunState) {
    match st {
        Stmt::Expression(x) => eval(f, s, x.expression),
        Stmt::Print(p) => {
            let (r, s1) = eval(f, s, p.expression);
            match r {
                Eval::Value(v) => (r, write_line(s1, literal_text(f, v.value))),
                _ => (r, s1),
            }
        },
        Stmt::Let(l) => {
            let (r, s1) = eval(f, s, l.initializer);
            match r {
                Eval::Value(v) => (r, RunState { env: s1.env.insert(l.name.lexeme@, v), out: s1.out }),
                _ => (r, s1),
            }
        },
        Stmt::Const(c) => {
            let (r, s1) = eval(f, s, c.initializer);
            match r {
                Eval::Value(v) => (r, RunState { env: s1.env.insert(c.name.lexeme@, v), out: s1.out }),
                _ => (r, s1),
            }
        },
    }
}

/// The report of a failure: `Runtime error: ` and its rendering.
pub open spec fn failure_report<F: Fn(FloatQuery) -> FloatAnswer>(f: F, e: Failure) -> Seq<char> {
    "Runtime error: "@ + failure_text(f, e)
}

/// Running the statements from the `i`-th on: the values of those that
/// succeed (none when a statement halts the program) and the state at the
/// end, each failure being reported and the run going on with the next
/// statement.
pub open spec fn run_from<F: Fn(FloatQuery) -> FloatAnswer>(
    f: F,
    s: RunState,
    stmts: Seq<Stmt>,
    i: int,
) -> (Option<Seq<ObjectView>>, RunState)
    decreases stmts.len() - i,
{
    if i < 0 || i >= stmts.len() {
        (Some(Seq::empty()), s)
    } else {
        let (r, s1) = run_stmt(f, s, stmts[i]);
        match r {
            Eval::Halt => (None, s1),
            Eval::Value(v) => {
                let (rest, s2) = run_from(f, s1, stmts, i + 1);
                (
                    match rest {
                        Some(vs) => Some(seq![v] + vs),
                        None => None,
                    },
                    s2,
                )
            },
            Eval::Fail(e) => run_from(f, write_line(s1, failure_report(f, e)), stmts, i + 1),
        }
    }
}

/// The values `vs` after the values `done`, if there are any.
pub open spec fn after_values(done: Seq<ObjectView>, vs: Option<Seq<ObjectView>>) -> Option<Seq<ObjectView>> {
    match vs {
        Some(v) => Some(done + v),
        None => None,
    }
}

/// The lines of a sequence of strings.
pub open spec fn lines_of(v: Seq<String>) -> Seq<Seq<char>> {
    Seq::new(v.len(), |i: int| v[i]@)
}

/// The views of a sequence of objects.
pub open spec fn objects_view(v: Seq<Object>) -> Seq<ObjectView> {
    Seq::new(v.len(), |i: int| v[i]@)
}

/// Builds an [`Interpreter`].
pub struct InterpreterBuilder {
    environment: Environment,
}

impl View for InterpreterBuilder {
    type V = Map<Seq<char>, ObjectView>;

    /// The variables the interpreter will start with.
    closed spec fn view(&self) -> Map<Seq<char>, ObjectView> {
        self.environment@
    }
}

impl Default for InterpreterBuilder {
    /// A builder of an interpreter where no variable is bound.
    fn default() -> (r: Self)
        ensures
            r@ == Map::<Seq<char>, ObjectView>::empty(),
    {
        InterpreterBuilder { environment: Environment::default() }
    }
}

impl InterpreterBuilder {
    /// A builder of an interpreter where no variable is bound.
    pub fn new() -> (r: Self)
        ensures
            r@ == Map::<Seq<char>, ObjectView>::empty(),
    {
        InterpreterBuilder { environment: Environment::default() }
    }

    /// The builder with the variables the interpreter starts with.
    pub fn environment(self, environment: Environment) -> (r: Self)
        ensures
            r@ == environment@,
    {
        InterpreterBuilder { environment }
    }

    /// An interpreter with the builder's variables that has written nothing.
    pub fn build(self) -> (r: Interpreter)
        ensures
            r@ == (RunState { env: self@, out: Seq::empty() }),
    {
        let r = Interpreter { environment: self.environment, output: Vec::new() };
        assert(lines_of(r.output@) =~= Seq::<Seq<char>>::empty());
        r
    }
}

/// Runs programs: holds the variables and the lines written so far.
pub struct Interpreter {
    environment: Environment,
    output: Vec<String>,
}

impl View for Interpreter {
    type V = RunState;

    closed spec fn view(&self) -> RunState {
        RunState { env: self.environment@, out: lines_of(self.output@) }
    }
}

/// What the interpreter's own evaluation gives.
enum Evaluated {
    Value(Object),
    Failed(ErrorCode),
    Halted,
}

/// The mathematical content of an evaluation's outcome.
spec fn evaluated_view(r: Evaluated) -> Eval {
    match r {
        Evaluated::Value(o) => Eval::Value(o@),
        Evaluated::Failed(e) => match failure_of(e) {
            Some(x) => Eval::Fail(x),
            None => Eval::Fail(Failure::Process),
        },
        Evaluated::Halted => Eval::Halt,
    }
}

/// An outcome that is a failure is one a running program raises.
spec fn raised(r: Evaluated) -> bool {
    r matches Evaluated::Failed(e) ==> failure_of(e) is Some
}

/// The runtime error of an operand that is not a number.
fn check_numeric_operand<F: Fn(FloatQuery) -> FloatAnswer>(operator: &Token, right: &Object, floats: &F) -> (r: Result<(), ErrorCode>)
    requires
        engine_ok(*floats),
    ensures
        r is Ok <==> numeric_kind(right.kind),
        r matches Err(e) ==> failure_of(e) == Some(
            Failure::Runtime(*operator, "Operand must be a number: "@ + literal_text(*floats, right.value@)),
        ),
{
    match right.kind {
        ObjectKind::Float | ObjectKind::Number => Ok(()),
        _ => {
            let mut m = text("Operand must be a number: ");
            let t = right.to_string(floats);
            append(&mut m, t.as_str());
            Err(ErrorCode::RuntimeError(operator.clone(), m))
        },
    }
}

/// The runtime error of operands that are not both numbers.
fn check_numeric_operands<F: Fn(FloatQuery) -> FloatAnswer>(
    operator: &Token,
    left: &Object,
    right: &Object,
    floats: &F,
) -> (r: Result<(), ErrorCode>)
    requires
        engine_ok(*floats),
    ensures
        r is Ok <==> numeric_kind(left.kind) && numeric_kind(right.kind),
        r matches Err(e) ==> Eval::Fail(failure_of(e)->0) == operands_error(
            *floats,
            *operator,
            "Operand must be a number: "@,
            left@,
            right@,
        ) && failure_of(e) is Some,
{
    if matches!(left.kind, ObjectKind::Float | ObjectKind::Number) && matches!(
        right.kind,
        ObjectKind::Float | ObjectKind::Number
    ) {
        return Ok(());
    }
    let mut m = text("Operand must be a number: ");
    let l = left.to_string(floats);
    append(&mut m, l.as_str());
    append(&mut m, " ");
    let t = right.to_string(floats);
    append(&mut m, t.as_str());
    Err(ErrorCode::RuntimeError(operator.clone(), m))
}

/// The runtime error of operands that are not both numbers or strings.
fn check_numeric_or_string_operands<F: Fn(FloatQuery) -> FloatAnswer>(
    operator: &Token,
    left: &Object,
    right: &Object,
    floats: &F,
) -> (r: Result<(), ErrorCode>)
    requires
        engine_ok(*floats),
    ensures
        r is Ok <==> numeric_or_string_kind(left.kind) && numeric_or_string_kind(right.kind),
        r matches Err(e) ==> Eval::Fail(failure_of(e)->0) == operands_error(
            *floats,
            *operator,
            "Operands must be two numbers or two strings: "@,
            left@,
            right@,
        ) && failure_of(e) is Some,
{
    if matches!(left.kind, ObjectKind::Float | ObjectKind::Number | ObjectKind::String) && matches!(
        right.kind,
        ObjectKind::Float | ObjectKind::Number | ObjectKind::String
    ) {
        return Ok(());
    }
    let mut m = text("Operands must be two numbers or two strings: ");
    let l = left.to_string(floats);
    append(&mut m, l.as_str());
    append(&mut m, " ");
    let t = right.to_string(floats);
    append(&mut m, t.as_str());
    Err(ErrorCode::RuntimeError(operator.clone(), m))
}

impl Interpreter {
    /// An interpreter builder.
    pub fn builder() -> (r: InterpreterBuilder)
        ensures
            r@ == Map::<Seq<char>, ObjectView>::empty(),
    {
        InterpreterBuilder::default()
    }

    /// The lines written so far, in order.
    pub fn output(&self) -> (r: &Vec<String>)
        ensures
            lines_of(r@) == self@.out,
    {
        &self.output
    }

    /// Writes a line.
    fn write(&mut self, line: String)
        ensures
            final(self)@ == write_line(old(self)@, line@),
    {
        self.output.push(line);
        assert(lines_of(self.output@) =~= lines_of(old(self).output@).push(line@));
    }

    /// The truth of an object (see [`truthy`]).
    fn is_truthy(&self, object: &Object) -> (r: Object)
        ensures
            r@ == truthy(object@),
    {
        match object.kind {
            ObjectKind::Nil => Object::from(false),
            ObjectKind::Bool => object.clone(),
            _ => Object::from(true),
        }
    }
}

impl Interpreter {
    /// Applies an arithmetic operator to operands of fitting kinds.
    fn arithmetic<F: Fn(FloatQuery) -> FloatAnswer>(&mut self, op: ArithOp, left: &Object, right: &Object, floats: &F) -> (r: Evaluated)
        requires
            engine_ok(*floats),
        ensures
            raised(r),
            arith_halts(op, left.value@, right.value@) ==> r is Halted && final(self)@ == old(self)@,
            !arith_halts(op, left.value@, right.value@) ==> evaluated_view(r) == Eval::Value(
                object_arith(*floats, op, left@, right@),
            ) && final(self)@ == write_report(old(self)@, arith_report(*floats, op, left.value@, right.value@)),
    {
        if halts(op, &left.value, &right.value) {
            return Evaluated::Halted;
        }
        let (v, report) = match op {
            ArithOp::Add => left.add(right, floats),
            ArithOp::Subtract => left.sub(right, floats),
            ArithOp::Multiply => left.mul(right, floats),
            ArithOp::Divide => left.div(right, floats),
        };
        match report {
            Some(t) => self.write(t),
            None => {},
        }
        Evaluated::Value(v)
    }

    /// Applies a comparison operator to operands of fitting kinds.
    fn comparison<F: Fn(FloatQuery) -> FloatAnswer>(&mut self, op: CompareOp, left: &Object, right: &Object, floats: &F) -> (r: Evaluated)
        requires
            engine_ok(*floats),
        ensures
            raised(r),
            evaluated_view(r) == Eval::Value(bool_object(order_truth(object_order(*floats, op, left@, right@)))),
            final(self)@ == write_report(old(self)@, order_report(*floats, op, left@, right@)),
    {
        let (t, report) = match op {
            CompareOp::Greater => left.gt(right, floats),
            CompareOp::GreaterEqual => left.ge(right, floats),
            CompareOp::Less => left.lt(right, floats),
            CompareOp::LessEqual => left.le(right, floats),
        };
        match report {
            Some(line) => self.write(line),
            None => {},
        }
        Evaluated::Value(Object::from(t))
    }

    /// A binary operator applied to the values of its operands (see
    /// [`binary_result`]).
    fn binary<F: Fn(FloatQuery) -> FloatAnswer>(&mut self, b: &Binary, left: Object, right: Object, floats: &F) -> (r: Evaluated)
        requires
            engine_ok(*floats),
        ensures
            raised(r),
            evaluated_view(r) == binary_result(*floats, *b, left@, right@).0,
            final(self)@ == write_report(old(self)@, binary_result(*floats, *b, left@, right@).1),
    {
        let op = &b.operator;
        match op.kind {
            TokenKind::Plus => {
                match check_numeric_or_string_operands(op, &left, &right, floats) {
                    Err(e) => Evaluated::Failed(e),
                    Ok(()) => self.arithmetic(ArithOp::Add, &left, &right, floats),
                }
            },
            TokenKind::Minus | TokenKind::Slash | TokenKind::Star => {
                let aop = match op.kind {
                    TokenKind::Minus => ArithOp::Subtract,
                    TokenKind::Slash => ArithOp::Divide,
                    _ => ArithOp::Multiply,
                };
                match check_numeric_operands(op, &left, &right, floats) {
                    Err(e) => Evaluated::Failed(e),
                    Ok(()) => self.arithmetic(aop, &left, &right, floats),
                }
            },
            TokenKind::Greater | TokenKind::GreaterEqual | TokenKind::Less | TokenKind::LessEqual => {
                let cop = match op.kind {
                    TokenKind::Greater => CompareOp::Greater,
                    TokenKind::GreaterEqual => CompareOp::GreaterEqual,
                    TokenKind::Less => CompareOp::Less,
                    _ => CompareOp::LessEqual,
                };
                match check_numeric_operands(op, &left, &right, floats) {
                    Err(e) => Evaluated::Failed(e),
                    Ok(()) => self.comparison(cop, &left, &right, floats),
                }
            },
            TokenKind::BangEqual => Evaluated::Value(Object::from(!left.equals(&right, floats))),
            TokenKind::EqualEqual => Evaluated::Value(Object::from(left.equals(&right, floats))),
            _ => {
                let mut m = text("invalid expression: ");
                let l = b.left.to_string(floats);
                append(&mut m, l.as_str());
                append(&mut m, " ");
                let t = b.right.to_string(floats);
                append(&mut m, t.as_str());
                Evaluated::Failed(ErrorCode::RuntimeError(op.clone(), m))
            },
        }
    }

    /// A prefix operator applied to the value of its operand (see
    /// [`unary_result`]).
    fn unary<F: Fn(FloatQuery) -> FloatAnswer>(&self, operator: &Token, right: Object, floats: &F) -> (r: Evaluated)
        requires
            engine_ok(*floats),
        ensures
            raised(r),
            evaluated_view(r) == unary_result(*floats, *operator, right@),
    {
        match operator.kind {
            TokenKind::Minus => {
                match check_numeric_operand(operator, &right, floats) {
                    Err(e) => {
                        return Evaluated::Failed(e);
                    },
                    Ok(()) => {},
                }
                match right.value {
                    ObjectValue::Number(n) => if n == i32::MIN {
                        Evaluated::Halted
                    } else {
                        Evaluated::Value(Object::float(ask_float(floats, FloatQuery::FromInt(-n))))
                    },
                    ObjectValue::Float(f) => Evaluated::Value(Object::float(ask_float(floats, FloatQuery::Negate(f)))),
                    _ => Evaluated::Failed(ErrorCode::ProcessError),
                }
            },
            TokenKind::Bang => Evaluated::Value(self.is_truthy(&right)),
            _ => Evaluated::Failed(ErrorCode::ProcessError),
        }
    }

    /// Evaluates an expression (see [`eval`]).
    fn eval_expr<F: Fn(FloatQuery) -> FloatAnswer>(&mut self, expr: &Expr, floats: &F) -> (r: Evaluated)
        requires
            engine_ok(*floats),
        ensures
            raised(r),
            evaluated_view(r) == eval(*floats, old(self)@, *expr).0,
            final(self)@ == eval(*floats, old(self)@, *expr).1,
        decreases expr,
    {
        match expr {
            Expr::Literal(l) => Evaluated::Value(Object::from(l.value.clone())),
            Expr::Grouping(g) => self.eval_expr(&g.expression, floats),
            Expr::Variable(v) => match self.environment.get(&v.name) {
                None => Evaluated::Failed(ErrorCode::ProcessError),
                Some(obj) => Evaluated::Value(obj),
            },
            Expr::Assign(a) => {
                let value = match self.eval_expr(&a.value, floats) {
                    Evaluated::Value(v) => v,
                    other => {
                        return other;
                    },
                };
                match self.environment.assign(&a.name, value) {
                    None => Evaluated::Failed(ErrorCode::ProcessError),
                    Some(obj) => Evaluated::Value(obj),
                }
            },
            Expr::Unary(u) => {
                let right = match self.eval_expr(&u.right, floats) {
                    Evaluated::Value(v) => v,
                    other => {
                        return other;
                    },
                };
                self.unary(&u.operator, right, floats)
            },
            Expr::Binary(b) => {
                let right = match self.eval_expr(&b.right, floats) {
                    Evaluated::Value(v) => v,
                    other => {
                        return other;
                    },
                };
                let left = match self.eval_expr(&b.left, floats) {
                    Evaluated::Value(v) => v,
                    other => {
                        return other;
                    },
                };
                self.binary(b, left, right, floats)
            },
        }
    }
}

impl Interpreter {
    /// Executes a statement (see [`run_stmt`]).
    fn run_statement<F: Fn(FloatQuery) -> FloatAnswer>(&mut self, stmt: &Stmt, floats: &F) -> (r: Evaluated)
        requires
            engine_ok(*floats),
        ensures
            raised(r),
            evaluated_view(r) == run_stmt(*floats, old(self)@, *stmt).0,
            final(self)@ == run_stmt(*floats, old(self)@, *stmt).1,
    {
        proof {
            reveal(run_stmt);
        }
        match stmt {
            Stmt::Expression(x) => self.eval_expr(&x.expression, floats),
            Stmt::Print(p) => {
                let value = match self.eval_expr(&p.expression, floats) {
                    Evaluated::Value(v) => v,
                    other => {
                        return other;
                    },
                };
                let line = value.to_string(floats);
                self.write(line);
                Evaluated::Value(value)
            },
            Stmt::Let(l) => {
                let value = match self.eval_expr(&l.initializer, floats) {
                    Evaluated::Value(v) => v,
                    other => {
                        return other;
                    },
                };
                Evaluated::Value(self.environment.define(l.name.lexeme.as_str(), value))
            },
            Stmt::Const(c) => {
                let value = match self.eval_expr(&c.initializer, floats) {
                    Evaluated::Value(v) => v,
                    other => {
                        return other;
                    },
                };
                Evaluated::Value(self.environment.define(c.name.lexeme.as_str(), value))
            },
        }
    }

    /// Evaluates an expression: its value, or the error it raises. An
    /// assignment changes the variables.
    ///
    /// An integer result out of range, an integer division by zero or the
    /// negation of the least `i32` stops the program; such expressions are not
    /// accepted here.
    pub fn evaluate<F: Fn(FloatQuery) -> FloatAnswer>(&mut self, expr: &Expr, floats: &F) -> (r: Result<Object, ErrorCode>)
        requires
            engine_ok(*floats),
            !(eval(*floats, old(self)@, *expr).0 is Halt),
        ensures
            final(self)@ == eval(*floats, old(self)@, *expr).1,
            match r {
                Ok(o) => eval(*floats, old(self)@, *expr).0 == Eval::Value(o@),
                Err(e) => failure_of(e) is Some && eval(*floats, old(self)@, *expr).0 == Eval::Fail(failure_of(e)->0),
            },
    {
        match self.eval_expr(expr, floats) {
            Evaluated::Value(v) => Ok(v),
            Evaluated::Failed(e) => Err(e),
            Evaluated::Halted => Err(ErrorCode::Unknown),
        }
    }

    /// Executes a statement: the value it gives, or the error it raises.
    ///
    /// A statement that stops the program (see [`Interpreter::evaluate`]) is
    /// not accepted here.
    pub fn execute<F: Fn(FloatQuery) -> FloatAnswer>(&mut self, stmt: &Stmt, floats: &F) -> (r: Result<Object, ErrorCode>)
        requires
            engine_ok(*floats),
            !(run_stmt(*floats, old(self)@, *stmt).0 is Halt),
        ensures
            final(self)@ == run_stmt(*floats, old(self)@, *stmt).1,
            match r {
                Ok(o) => run_stmt(*floats, old(self)@, *stmt).0 == Eval::Value(o@),
                Err(e) => failure_of(e) is Some && run_stmt(*floats, old(self)@, *stmt).0 == Eval::Fail(
                    failure_of(e)->0,
                ),
            },
    {
        match self.run_statement(stmt, floats) {
            Evaluated::Value(v) => Ok(v),
            Evaluated::Failed(e) => Err(e),
            Evaluated::Halted => Err(ErrorCode::Unknown),
        }
    }

    /// Runs the statements in order (see [`run_from`]); `None` when one of
    /// them stops the program, the statements before it having run.
    fn run_all<F: Fn(FloatQuery) -> FloatAnswer>(&mut self, statements: &[Stmt], floats: &F) -> (r: Option<Vec<Object>>)
        requires
            engine_ok(*floats),
        ensures
            final(self)@ == run_from(*floats, old(self)@, statements@, 0).1,
            match r {
                Some(v) => run_from(*floats, old(self)@, statements@, 0).0 == Some(objects_view(v@)),
                None => run_from(*floats, old(self)@, statements@, 0).0 is None,
            },
    {
        let mut values: Vec<Object> = Vec::new();
        let mut i: usize = 0;
        while i < statements.len()
            invariant
                engine_ok(*floats),
                i <= statements@.len(),
                run_from(*floats, old(self)@, statements@, 0).1 == run_from(*floats, self@, statements@, i as int).1,
                run_from(*floats, old(self)@, statements@, 0).0 == after_values(
                    objects_view(values@),
                    run_from(*floats, self@, statements@, i as int).0,
                ),
            decreases statements.len() - i,
        {
            let ghost vals = values@;
            match self.run_statement(&statements[i], floats) {
                Evaluated::Value(v) => {
                    values.push(v);
                    proof {
                        assert(objects_view(values@) =~= objects_view(vals).push(v@));
                        match run_from(*floats, self@, statements@, i + 1).0 {
                            Some(vs) => {
                                assert(objects_view(vals) + (seq![v@] + vs) =~= objects_view(values@) + vs);
                            },
                            None => {},
                        }
                    }
                },
                Evaluated::Failed(e) => {
                    let report = Reporter::runtime_error(&e, floats);
                    self.write(report);
                },
                Evaluated::Halted => {
                    return None;
                },
            }
            i = i + 1;
        }
        assert(objects_view(values@) + Seq::empty() =~= objects_view(values@));
        Some(values)
    }

    /// Runs the statements in order: the value of each statement that
    /// succeeds, each error being reported (`Runtime error: ` and the error)
    /// and the run going on with the next statement.
    ///
    /// Statements one of which stops the program (see
    /// [`Interpreter::evaluate`]) are not accepted here (see
    /// [`Interpreter::interpret_checked`]).
    pub fn interpret<F: Fn(FloatQuery) -> FloatAnswer>(&mut self, statements: &[Stmt], floats: &F) -> (r: Result<Vec<Object>, ErrorCode>)
        requires
            engine_ok(*floats),
            run_from(*floats, old(self)@, statements@, 0).0 is Some,
        ensures
            final(self)@ == run_from(*floats, old(self)@, statements@, 0).1,
            r matches Ok(v) && run_from(*floats, old(self)@, statements@, 0).0 == Some(objects_view(v@)),
    {
        match self.run_all(statements, floats) {
            Some(v) => Ok(v),
            None => Ok(Vec::new()),
        }
    }

    /// Runs the statements as [`Interpreter::interpret`] does, or gives
    /// `None` when one of them stops the program, after the statements before
    /// it have run.
    pub fn interpret_checked<F: Fn(FloatQuery) -> FloatAnswer>(&mut self, statements: &[Stmt], floats: &F) -> (r: Option<Result<Vec<Object>, ErrorCode>>)
        requires
            engine_ok(*floats),
        ensures
            final(self)@ == run_from(*floats, old(self)@, statements@, 0).1,
            r is None <==> run_from(*floats, old(self)@, statements@, 0).0 is None,
            r is Some ==> (r matches Some(Ok(v)) && run_from(*floats, old(self)@, statements@, 0).0 == Some(
                objects_view(v@),
            )),
    {
        match self.run_all(statements, floats) {
            Some(v) => Some(Ok(v)),
            None => None,
        }
    }
}

/// Whether every bound value has the kind that goes with it.
pub open spec fn env_consistent(env: Map<Seq<char>, ObjectView>) -> bool {
    forall|k: Seq<char>| env.contains_key(k) ==> consistent(#[trigger] env[k])
}

/// `state` extends `before`: the same names are bound, and the lines written
/// before are kept, at the start.
pub open spec fn extends(before: RunState, state: RunState) -> bool {
    &&& state.env.dom() == before.env.dom()
    &&& before.out.len() <= state.out.len()
    &&& state.out.subrange(0, before.out.len() as int) == before.out
}

/// Evaluating an expression keeps kinds and values together, binds no new
/// name and keeps the lines written before: when every bound value has the
/// kind that goes with it, so does the value the expression gives and every
/// value bound afterwards.
pub proof fn lemma_eval_keeps_kinds<F: Fn(FloatQuery) -> FloatAnswer>(f: F, s: RunState, e: Expr)
    requires
        env_consistent(s.env),
    ensures
        env_consistent(eval(f, s, e).1.env),
        extends(s, eval(f, s, e).1),
        eval(f, s, e).0 matches Eval::Value(v) ==> consistent(v),
    decreases e,
{
    assert(s.out.subrange(0, s.out.len() as int) =~= s.out);
    match e {
        Expr::Literal(l) => {},
        Expr::Grouping(g) => {
            lemma_eval_keeps_kinds(f, s, *g.expression);
        },
        Expr::Variable(v) => {},
        Expr::Assign(a) => {
            lemma_eval_keeps_kinds(f, s, *a.value);
            let (r, s1) = eval(f, s, *a.value);
            if let Eval::Value(x) = r {
                if s1.env.contains_key(a.name.lexeme@) {
                    assert(s1.env.insert(a.name.lexeme@, x).dom() =~= s1.env.dom());
                }
            }
        },
        Expr::Unary(u) => {
            lemma_eval_keeps_kinds(f, s, *u.right);
        },
        Expr::Binary(b) => {
            lemma_eval_keeps_kinds(f, s, *b.right);
            let (rr, s1) = eval(f, s, *b.right);
            if let Eval::Value(y) = rr {
                lemma_eval_keeps_kinds(f, s1, *b.left);
                let (lr, s2) = eval(f, s1, *b.left);
                assert(s2.out.subrange(0, s.out.len() as int) =~= s1.out.subrange(0, s.out.len() as int));
                if let Eval::Value(x) = lr {
                    match arith_of(b.operator.kind) {
                        Some(aop) => {
                            lemma_arith_kinds(f, aop, x, y);
                        },
                        None => {},
                    }
                    let (r, report) = binary_result(f, b, x, y);
                    if let Some(t) = report {
                        assert(s2.out.push(t).subrange(0, s.out.len() as int) =~= s2.out.subrange(0, s.out.len() as int));
                    }
                }
            }
        },
    }
}

/// Executing a statement keeps kinds and values together and keeps the
/// lines written before.
pub proof fn lemma_stmt_keeps_kinds<F: Fn(FloatQuery) -> FloatAnswer>(f: F, s: RunState, st: Stmt)
    requires
        env_consistent(s.env),
    ensures
        env_consistent(run_stmt(f, s, st).1.env),
        s.out.len() <= run_stmt(f, s, st).1.out.len(),
        run_stmt(f, s, st).1.out.subrange(0, s.out.len() as int) == s.out,
        run_stmt(f, s, st).0 matches Eval::Value(v) ==> consistent(v),
{
    reveal(run_stmt);
    let x = match st {
        Stmt::Expression(x) => x.expression,
        Stmt::Print(p) => p.expression,
        Stmt::Let(l) => l.initializer,
        Stmt::Const(c) => c.initializer,
    };
    lemma_eval_keeps_kinds(f, s, x);
    let (r, s1) = eval(f, s, x);
    if let Eval::Value(v) = r {
        let line = literal_text(f, v.value);
        assert(s1.out.push(line).subrange(0, s.out.len() as int) =~= s1.out.subrange(0, s.out.len() as int));
    }
}

/// Running statements keeps kinds and values together: when every bound
/// value has the kind that goes with it, so does every value the statements
/// give and every value bound afterwards; and the lines written before are
/// kept.
pub proof fn lemma_run_keeps_kinds<F: Fn(FloatQuery) -> FloatAnswer>(f: F, s: RunState, stmts: Seq<Stmt>, i: int)
    requires
        env_consistent(s.env),
    ensures
        env_consistent(run_from(f, s, stmts, i).1.env),
        s.out.len() <= run_from(f, s, stmts, i).1.out.len(),
        run_from(f, s, stmts, i).1.out.subrange(0, s.out.len() as int) == s.out,
        run_from(f, s, stmts, i).0 matches Some(vs) ==> forall|j: int| 0 <= j < vs.len() ==> consistent(#[trigger] vs[j]),
    decreases stmts.len() - i,
{
    assert(s.out.subrange(0, s.out.len() as int) =~= s.out);
    if 0 <= i < stmts.len() {
        lemma_stmt_keeps_kinds(f, s, stmts[i]);
        let (r, s1) = run_stmt(f, s, stmts[i]);
        match r {
            Eval::Halt => {},
            Eval::Value(v) => {
                lemma_run_keeps_kinds(f, s1, stmts, i + 1);
                let (rest, s2) = run_from(f, s1, stmts, i + 1);
                assert(s2.out.subrange(0, s.out.len() as int) =~= s2.out.subrange(0, s1.out.len() as int).subrange(
                    0,
                    s.out.len() as int,
                ));
                if let Some(vs) = rest {
                    assert forall|j: int| 0 <= j < vs.len() + 1 implies consistent(#[trigger] (seq![v] + vs)[j]) by {
                        if j > 0 {
                            assert((seq![v] + vs)[j] == vs[j - 1]);
                        }
                    }
                }
            },
            Eval::Fail(e) => {
                let s1w = write_line(s1, failure_report(f, e));
                lemma_run_keeps_kinds(f, s1w, stmts, i + 1);
                let s2 = run_from(f, s1w, stmts, i + 1).1;
                assert(s1w.out.subrange(0, s.out.len() as int) =~= s1.out.subrange(0, s.out.len() as int));
                assert(s2.out.subrange(0, s.out.len() as int) =~= s2.out.subrange(0, s1w.out.len() as int).subrange(
                    0,
                    s.out.len() as int,
                ));
            },
        }
    }
}

/// `==` and `!=` give opposite truths of the same two operands. The right
/// operand is evaluated first, then the left one; when both give values,
/// `==` gives true exactly when the values are equal (see [`object_eq`]),
/// and neither writes anything. When an operand fails, both give that
/// failure.
pub proof fn lemma_equality_operators<F: Fn(FloatQuery) -> FloatAnswer>(
    f: F,
    s: RunState,
    x: Expr,
    y: Expr,
    eq: Token,
    ne: Token,
)
    requires
        eq.kind == TokenKind::EqualEqual,
        ne.kind == TokenKind::BangEqual,
    ensures
        ({
            let e = eval(f, s, Expr::Binary(Binary { left: Box::new(x), operator: eq, right: Box::new(y) }));
            let n = eval(f, s, Expr::Binary(Binary { left: Box::new(x), operator: ne, right: Box::new(y) }));
            let (ry, s1) = eval(f, s, y);
            let (rx, s2) = eval(f, s1, x);
            &&& e.1 == n.1
            &&& ry matches Eval::Value(vy) ==> (rx matches Eval::Value(vx) ==> {
                &&& e.0 == Eval::Value(bool_object(object_eq(f, vx, vy)))
                &&& n.0 == Eval::Value(bool_object(!object_eq(f, vx, vy)))
                &&& e.1 == s2
            })
            &&& !(ry is Value && rx is Value) ==> e.0 == n.0
        }),
{
}

/// Any value but a float is equal to itself: for a literal `v` that is not
/// a float, `v == v` gives true and `v != v` gives false.
pub proof fn lemma_equal_to_itself<F: Fn(FloatQuery) -> FloatAnswer>(
    f: F,
    s: RunState,
    v: crate::ast::expr::Literal,
    eq: Token,
    ne: Token,
)
    requires
        eq.kind == TokenKind::EqualEqual,
        ne.kind == TokenKind::BangEqual,
        !(v.value@ is Float),
    ensures
        eval(
            f,
            s,
            Expr::Binary(Binary { left: Box::new(Expr::Literal(v)), operator: eq, right: Box::new(Expr::Literal(v)) }),
        ) == (Eval::Value(bool_object(true)), s),
        eval(
            f,
            s,
            Expr::Binary(Binary { left: Box::new(Expr::Literal(v)), operator: ne, right: Box::new(Expr::Literal(v)) }),
        ) == (Eval::Value(bool_object(false)), s),
{
    let o = object_of(v.value@);
    assert(eval(f, s, Expr::Literal(v)) == (Eval::Value(o), s));
    assert(object_eq(f, o, o));
}

/// The expression of a number literal.
pub open spec fn number_literal(n: i32) -> Expr {
    Expr::Literal(
        crate::ast::expr::Literal { value: crate::token::Literal { value: crate::token::LiteralKind::Number(n) } },
    )
}

/// The expression of a string literal.
pub open spec fn string_literal(t: String) -> Expr {
    Expr::Literal(
        crate::ast::expr::Literal { value: crate::token::Literal { value: crate::token::LiteralKind::String(t) } },
    )
}

/// An operator on two number literals computes the left operand against
/// the right one and writes nothing: `a + b`, `a - b` and `a * b` give the
/// integer result where it fits in an `i32` and stop the program where it
/// does not; `a / b` stops the program when `b` is zero; `<`, `<=`, `>` and
/// `>=` give the truth of the comparison.
pub proof fn lemma_number_operators<F: Fn(FloatQuery) -> FloatAnswer>(f: F, s: RunState, a: i32, b: i32, op: Token)
    ensures
        ({
            let e = eval(
                f,
                s,
                Expr::Binary(Binary { left: Box::new(number_literal(a)), operator: op, right: Box::new(number_literal(b)) }),
            );
            &&& op.kind == TokenKind::Plus ==> e == if fits_i32(a + b) {
                (Eval::Value(object_of(LiteralView::Number((a + b) as i32))), s)
            } else {
                (Eval::Halt, s)
            }
            &&& op.kind == TokenKind::Minus ==> e == if fits_i32(a - b) {
                (Eval::Value(object_of(LiteralView::Number((a - b) as i32))), s)
            } else {
                (Eval::Halt, s)
            }
            &&& op.kind == TokenKind::Star ==> e == if fits_i32(a * b) {
                (Eval::Value(object_of(LiteralView::Number((a * b) as i32))), s)
            } else {
                (Eval::Halt, s)
            }
            &&& op.kind == TokenKind::Less ==> e == (Eval::Value(bool_object(a < b)), s)
            &&& op.kind == TokenKind::LessEqual ==> e == (Eval::Value(bool_object(a <= b)), s)
            &&& op.kind == TokenKind::Greater ==> e == (Eval::Value(bool_object(a > b)), s)
            &&& op.kind == TokenKind::GreaterEqual ==> e == (Eval::Value(bool_object(a >= b)), s)
            &&& op.kind == TokenKind::Slash && b == 0 ==> e == (Eval::Halt, s)
        }),
{
    assert(eval(f, s, number_literal(b)) == (Eval::Value(object_of(LiteralView::Number(b))), s));
    assert(eval(f, s, number_literal(a)) == (Eval::Value(object_of(LiteralView::Number(a))), s));
}

/// `+` on two string literals joins them, the left one first.
pub proof fn lemma_string_join<F: Fn(FloatQuery) -> FloatAnswer>(f: F, s: RunState, x: String, y: String, op: Token)
    requires
        op.kind == TokenKind::Plus,
    ensures
        eval(
            f,
            s,
            Expr::Binary(Binary { left: Box::new(string_literal(x)), operator: op, right: Box::new(string_literal(y)) }),
        ) == (Eval::Value(object_of(LiteralView::String(x@ + y@))), s),
{
    assert(eval(f, s, string_literal(y)) == (Eval::Value(object_of(LiteralView::String(y@))), s));
    assert(eval(f, s, string_literal(x)) == (Eval::Value(object_of(LiteralView::String(x@))), s));
}

/// A variable reads back what a `let` or `const` statement bound to its
/// name: after either binds a name to the value of its initializer, reading
/// a variable of that name gives that value, nothing is written, and every
/// other name keeps its value.
pub proof fn lemma_bind_then_read<F: Fn(FloatQuery) -> FloatAnswer>(
    f: F,
    s: RunState,
    name: Token,
    init: Expr,
    is_const: bool,
    read: Token,
    other: Seq<char>,
)
    requires
        read.lexeme@ == name.lexeme@,
        other != name.lexeme@,
    ensures
        ({
            let st = if is_const {
                Stmt::Const(crate::ast::stmt::Const { name, initializer: init })
            } else {
                Stmt::Let(crate::ast::stmt::Let { name, initializer: init })
            };
            let (r, s1) = run_stmt(f, s, st);
            let (ri, si) = eval(f, s, init);
            ri matches Eval::Value(v) ==> {
                &&& r == Eval::Value(v)
                &&& eval(f, s1, Expr::Variable(crate::ast::expr::Variable { name: read })) == (Eval::Value(v), s1)
                &&& s1.out == si.out
                &&& s1.env.contains_key(other) == si.env.contains_key(other)
                &&& si.env.contains_key(other) ==> s1.env[other] == si.env[other]
            }
        }),
{
    reveal(run_stmt);
}

/// `print` of a literal writes the literal's rendering as a new line and
/// changes no variable: a number in decimal with its sign, a string as it
/// is, `true`, `false` or `Nil`.
pub proof fn lemma_print_literal<F: Fn(FloatQuery) -> FloatAnswer>(f: F, s: RunState, v: crate::token::Literal)
    ensures
        ({
            let st = Stmt::Print(
                crate::ast::stmt::Print { expression: Expr::Literal(crate::ast::expr::Literal { value: v }) },
            );
            let (r, s1) = run_stmt(f, s, st);
            &&& r == Eval::Value(object_of(v@))
            &&& s1.env == s.env
            &&& s1.out.len() == s.out.len() + 1
            &&& s1.out.subrange(0, s.out.len() as int) == s.out
            &&& v@ matches LiteralView::Number(n) ==> s1.out.last() == signed_decimal_text(n as int)
            &&& v@ matches LiteralView::String(t) ==> s1.out.last() == t
            &&& v@ == LiteralView::Bool(true) ==> s1.out.last() == "true"@
            &&& v@ == LiteralView::Bool(false) ==> s1.out.last() == "false"@
            &&& v@ == LiteralView::Nil ==> s1.out.last() == "Nil"@
        }),
{
    reveal(run_stmt);
    let (r, s1) = run_stmt(f, s, Stmt::Print(
        crate::ast::stmt::Print { expression: Expr::Literal(crate::ast::expr::Literal { value: v }) },
    ));
    assert(s1.out.subrange(0, s.out.len() as int) =~= s.out);
}

} // verus!
