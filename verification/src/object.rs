//! Runtime values: what evaluating an expression gives.
//!
//! A value is a number (`i32`), a float (by its IEEE-754 bit pattern), a
//! string, a boolean or nil, together with its kind. Arithmetic and
//! comparison follow the rules of the language: numbers and floats mix (the
//! number is converted to a float, or, when a number is compared with a float,
//! the float is truncated to an integer), `+` also joins strings with numbers,
//! floats and strings, and an operation on values it does not apply to gives
//! nil together with a report.

use vstd::prelude::*;

use core::cmp::Ordering;

use crate::errors::arithmetic_error_text;
use crate::errors::Reporter;
use crate::float::{
    ask_float, ask_int, ask_text, ask_truth, engine_ok, float_result, int_result, text_result,
    truth_result, FloatAnswer, FloatQuery, FloatQueryView,
};
use crate::text::{append, i32_text, optional_text, text};
use crate::token::{literal_eq, literal_text, Literal, LiteralKind, LiteralView};

verus! {

/// The kind of a runtime value.
#[derive(Clone, Copy, Debug, PartialEq, Eq, Structural)]
pub enum ObjectKind {
    Number,
    Float,
    String,
    Bool,
    Nil,
}

impl Default for ObjectKind {
    fn default() -> (r: Self)
        ensures
            r == ObjectKind::Nil,
    {
        ObjectKind::Nil
    }
}

/// A runtime value; a float is held as its IEEE-754 bit pattern.
#[derive(Debug)]
pub enum ObjectValue {
    Number(i32),
    Float(u32),
    String(String),
    Bool(bool),
    Nil,
}

impl View for ObjectValue {
    type V = LiteralView;

    open spec fn view(&self) -> LiteralView {
        match self {
            ObjectValue::Number(n) => LiteralView::Number(*n),
            ObjectValue::Float(b) => LiteralView::Float(*b),
            ObjectValue::String(s) => LiteralView::String(s@),
            ObjectValue::Bool(b) => LiteralView::Bool(*b),
            ObjectValue::Nil => LiteralView::Nil,
        }
    }
}

impl Clone for ObjectValue {
    fn clone(&self) -> (r: Self)
        ensures
            r == *self,
    {
        match self {
            ObjectValue::Number(n) => ObjectValue::Number(*n),
            ObjectValue::Float(b) => ObjectValue::Float(*b),
            ObjectValue::String(s) => ObjectValue::String(s.clone()),
            ObjectValue::Bool(b) => ObjectValue::Bool(*b),
            ObjectValue::Nil => ObjectValue::Nil,
        }
    }
}

impl Default for ObjectValue {
    fn default() -> (r: Self)
        ensures
            r == ObjectValue::Nil,
    {
        ObjectValue::Nil
    }
}

/// A runtime value and its kind.
#[derive(Debug)]
pub struct Object {
    pub kind: ObjectKind,
    pub value: ObjectValue,
}

/// The mathematical content of an [`Object`].
pub struct ObjectView {
    pub kind: ObjectKind,
    pub value: LiteralView,
}

impl View for Object {
    type V = ObjectView;

    open spec fn view(&self) -> ObjectView {
        ObjectView { kind: self.kind, value: self.value@ }
    }
}

impl Clone for Object {
    fn clone(&self) -> (r: Self)
        ensures
            r == *self,
    {
        Object { kind: self.kind, value: self.value.clone() }
    }
}

/// The kind that goes with a value.
pub open spec fn kind_of(v: LiteralView) -> ObjectKind {
    match v {
        LiteralView::Number(_) => ObjectKind::Number,
        LiteralView::Float(_) => ObjectKind::Float,
        LiteralView::String(_) => ObjectKind::String,
        LiteralView::Bool(_) => ObjectKind::Bool,
        LiteralView::Nil => ObjectKind::Nil,
    }
}

/// A value with the kind that goes with it.
pub open spec fn object_of(v: LiteralView) -> ObjectView {
    ObjectView { kind: kind_of(v), value: v }
}

/// The nil object.
pub open spec fn nil_object() -> ObjectView {
    object_of(LiteralView::Nil)
}

impl Default for Object {
    /// The nil object.
    fn default() -> (r: Self)
        ensures
            r@ == nil_object(),
    {
        Object { kind: ObjectKind::Nil, value: ObjectValue::Nil }
    }
}

/// The object a literal denotes.
pub open spec fn literal_object(l: Literal) -> Object {
    Object { kind: kind_of(l@), value: literal_value(l) }
}

/// The value a literal denotes.
pub open spec fn literal_value(l: Literal) -> ObjectValue {
    match l.value {
        LiteralKind::Number(n) => ObjectValue::Number(n),
        LiteralKind::Float(b) => ObjectValue::Float(b),
        LiteralKind::String(s) => ObjectValue::String(s),
        LiteralKind::Bool(b) => ObjectValue::Bool(b),
        LiteralKind::Nil => ObjectValue::Nil,
    }
}

impl From<Literal> for ObjectKind {
    fn from(v: Literal) -> (r: ObjectKind) {
        match v.value {
            LiteralKind::Number(_) => ObjectKind::Number,
            LiteralKind::Float(_) => ObjectKind::Float,
            LiteralKind::String(_) => ObjectKind::String,
            LiteralKind::Bool(_) => ObjectKind::Bool,
            LiteralKind::Nil => ObjectKind::Nil,
        }
    }
}

impl vstd::std_specs::convert::FromSpecImpl<Literal> for ObjectKind {
    open spec fn obeys_from_spec() -> bool {
        true
    }

    open spec fn from_spec(v: Literal) -> ObjectKind {
        kind_of(v@)
    }
}

impl From<Literal> for ObjectValue {
    fn from(v: Literal) -> (r: ObjectValue) {
        match v.value {
            LiteralKind::Number(n) => ObjectValue::Number(n),
            LiteralKind::Float(b) => ObjectValue::Float(b),
            LiteralKind::String(s) => ObjectValue::String(s),
            LiteralKind::Bool(b) => ObjectValue::Bool(b),
            LiteralKind::Nil => ObjectValue::Nil,
        }
    }
}

impl vstd::std_specs::convert::FromSpecImpl<Literal> for ObjectValue {
    open spec fn obeys_from_spec() -> bool {
        true
    }

    open spec fn from_spec(v: Literal) -> ObjectValue {
        literal_value(v)
    }
}

impl From<Literal> for Object {
    fn from(value: Literal) -> (r: Object) {
        Object { kind: ObjectKind::from(value.clone()), value: ObjectValue::from(value) }
    }
}

impl vstd::std_specs::convert::FromSpecImpl<Literal> for Object {
    open spec fn obeys_from_spec() -> bool {
        true
    }

    open spec fn from_spec(v: Literal) -> Object {
        literal_object(v)
    }
}

impl From<i32> for Object {
    fn from(value: i32) -> (r: Object) {
        Object { kind: ObjectKind::Number, value: ObjectValue::Number(value) }
    }
}

impl vstd::std_specs::convert::FromSpecImpl<i32> for Object {
    open spec fn obeys_from_spec() -> bool {
        true
    }

    open spec fn from_spec(v: i32) -> Object {
        Object { kind: ObjectKind::Number, value: ObjectValue::Number(v) }
    }
}

impl From<bool> for Object {
    fn from(value: bool) -> (r: Object) {
        Object { kind: ObjectKind::Bool, value: ObjectValue::Bool(value) }
    }
}

impl vstd::std_specs::convert::FromSpecImpl<bool> for Object {
    open spec fn obeys_from_spec() -> bool {
        true
    }

    open spec fn from_spec(v: bool) -> Object {
        Object { kind: ObjectKind::Bool, value: ObjectValue::Bool(v) }
    }
}

impl Object {
    /// A float object, given by the float's IEEE-754 bit pattern.
    pub fn float(bits: u32) -> (r: Object)
        ensures
            r@ == object_of(LiteralView::Float(bits)),
    {
        Object { kind: ObjectKind::Float, value: ObjectValue::Float(bits) }
    }

    /// A string object.
    pub fn string(s: &str) -> (r: Object)
        ensures
            r@ == object_of(LiteralView::String(s@)),
    {
        Object { kind: ObjectKind::String, value: ObjectValue::String(text(s)) }
    }

    /// Whether the object is of the kind.
    pub fn is_kind(&self, kind: ObjectKind) -> (r: bool)
        ensures
            r == (self.kind == kind),
    {
        self.kind == kind
    }
}

/// An arithmetic operator.
#[derive(Clone, Copy, Debug, PartialEq, Eq, Structural)]
pub enum ArithOp {
    Add,
    Subtract,
    Multiply,
    Divide,
}

/// The symbol of an arithmetic operator.
pub open spec fn arith_symbol(op: ArithOp) -> Seq<char> {
    match op {
        ArithOp::Add => "+"@,
        ArithOp::Subtract => "-"@,
        ArithOp::Multiply => "*"@,
        ArithOp::Divide => "/"@,
    }
}

/// Integer division rounding toward zero, as `i32` division does.
pub open spec fn trunc_div(a: int, b: int) -> int {
    let q = (if a < 0 { -a } else { a }) / (if b < 0 { -b } else { b });
    if (a < 0) != (b < 0) { -q } else { q }
}

/// The exact integer result of an operator.
pub open spec fn int_arith(op: ArithOp, a: int, b: int) -> int {
    match op {
        ArithOp::Add => a + b,
        ArithOp::Subtract => a - b,
        ArithOp::Multiply => a * b,
        ArithOp::Divide => trunc_div(a, b),
    }
}

/// The engine query for an operator on two floats.
pub open spec fn float_arith_query(op: ArithOp, a: u32, b: u32) -> FloatQueryView {
    match op {
        ArithOp::Add => FloatQueryView::Add(a, b),
        ArithOp::Subtract => FloatQueryView::Subtract(a, b),
        ArithOp::Multiply => FloatQueryView::Multiply(a, b),
        ArithOp::Divide => FloatQueryView::Divide(a, b),
    }
}

/// The float nearest an integer.
pub open spec fn int_to_float<F: Fn(FloatQuery) -> FloatAnswer>(f: F, n: i32) -> u32 {
    float_result(f, FloatQueryView::FromInt(n))
}

/// An operator on two floats.
pub open spec fn float_arith<F: Fn(FloatQuery) -> FloatAnswer>(f: F, op: ArithOp, a: u32, b: u32) -> u32 {
    float_result(f, float_arith_query(op, a, b))
}

/// Whether an integer fits in an `i32`.
pub open spec fn fits_i32(n: int) -> bool {
    i32::MIN <= n <= i32::MAX
}

/// Whether the operator stops the program on these values: an integer
/// result that does not fit in an `i32`, or an integer division by zero.
pub open spec fn arith_halts(op: ArithOp, l: LiteralView, r: LiteralView) -> bool {
    match (l, r) {
        (LiteralView::Number(a), LiteralView::Number(b)) => (op == ArithOp::Divide && b == 0) || !fits_i32(
            int_arith(op, a as int, b as int),
        ),
        _ => false,
    }
}

/// An operator on two values, when it applies to them: numbers and floats
/// mix, a number being converted to a float; `+` also joins a string with a
/// number, a float or a string, on either side, in their renderings.
pub open spec fn value_arith<F: Fn(FloatQuery) -> FloatAnswer>(
    f: F,
    op: ArithOp,
    l: LiteralView,
    r: LiteralView,
) -> Option<LiteralView> {
    match (l, r) {
        (LiteralView::Number(a), LiteralView::Number(b)) => Some(
            LiteralView::Number(int_arith(op, a as int, b as int) as i32),
        ),
        (LiteralView::Number(a), LiteralView::Float(b)) => Some(
            LiteralView::Float(float_arith(f, op, int_to_float(f, a), b)),
        ),
        (LiteralView::Float(a), LiteralView::Number(b)) => Some(
            LiteralView::Float(float_arith(f, op, a, int_to_float(f, b))),
        ),
        (LiteralView::Float(a), LiteralView::Float(b)) => Some(LiteralView::Float(float_arith(f, op, a, b))),
        (LiteralView::String(_), LiteralView::Number(_))
        | (LiteralView::String(_), LiteralView::Float(_))
        | (LiteralView::String(_), LiteralView::String(_))
        | (LiteralView::Number(_), LiteralView::String(_))
        | (LiteralView::Float(_), LiteralView::String(_)) => if op == ArithOp::Add {
            Some(LiteralView::String(literal_text(f, l) + literal_text(f, r)))
        } else {
            None
        },
        _ => None,
    }
}

/// The object an operator gives: the value with its kind, or nil when the
/// operator does not apply.
pub open spec fn object_arith<F: Fn(FloatQuery) -> FloatAnswer>(
    f: F,
    op: ArithOp,
    a: ObjectView,
    b: ObjectView,
) -> ObjectView {
    match value_arith(f, op, a.value, b.value) {
        Some(v) => object_of(v),
        None => nil_object(),
    }
}

/// The report of an operator that does not apply: `l op r` in the values'
/// renderings.
pub open spec fn arith_report<F: Fn(FloatQuery) -> FloatAnswer>(
    f: F,
    op: ArithOp,
    l: LiteralView,
    r: LiteralView,
) -> Option<Seq<char>> {
    match value_arith(f, op, l, r) {
        Some(_) => None,
        None => Some(
            arithmetic_error_text(literal_text(f, l) + " "@ + arith_symbol(op) + " "@ + literal_text(f, r)),
        ),
    }
}

/// The exact integer result of an operator, for an `i32` result.
fn int_op(op: ArithOp, a: i32, b: i32) -> (r: i32)
    requires
        !arith_halts(op, LiteralView::Number(a), LiteralView::Number(b)),
    ensures
        r == int_arith(op, a as int, b as int),
{
    match op {
        ArithOp::Add => a + b,
        ArithOp::Subtract => a - b,
        ArithOp::Multiply => a * b,
        ArithOp::Divide => {
            let wa: i64 = a as i64;
            let wb: i64 = b as i64;
            let ma: i64 = if wa < 0 { -wa } else { wa };
            let mb: i64 = if wb < 0 { -wb } else { wb };
            let q: i64 = ma / mb;
            let r: i64 = if (wa < 0) != (wb < 0) { -q } else { q };
            r as i32
        },
    }
}

/// The engine query for an operator on two floats.
fn float_op<F: Fn(FloatQuery) -> FloatAnswer>(op: ArithOp, a: u32, b: u32, floats: &F) -> (r: u32)
    requires
        engine_ok(*floats),
    ensures
        r == float_arith(*floats, op, a, b),
{
    let q = match op {
        ArithOp::Add => FloatQuery::Add(a, b),
        ArithOp::Subtract => FloatQuery::Subtract(a, b),
        ArithOp::Multiply => FloatQuery::Multiply(a, b),
        ArithOp::Divide => FloatQuery::Divide(a, b),
    };
    ask_float(floats, q)
}

impl ObjectValue {
    /// The rendering of the value (see [`literal_text`]).
    pub fn to_string<F: Fn(FloatQuery) -> FloatAnswer>(&self, floats: &F) -> (r: String)
        requires
            engine_ok(*floats),
        ensures
            r@ == literal_text(*floats, self@),
    {
        match self {
            ObjectValue::Number(n) => i32_text(*n),
            ObjectValue::Float(b) => ask_text(floats, FloatQuery::Display(*b)),
            ObjectValue::String(s) => s.clone(),
            ObjectValue::Bool(b) => if *b {
                text("true")
            } else {
                text("false")
            },
            ObjectValue::Nil => text("Nil"),
        }
    }

    /// An operator on two values, when it applies (see [`value_arith`]).
    fn arith<F: Fn(FloatQuery) -> FloatAnswer>(&self, op: ArithOp, rhs: &ObjectValue, floats: &F) -> (r: Option<ObjectValue>)
        requires
            engine_ok(*floats),
            !arith_halts(op, self@, rhs@),
        ensures
            match r {
                Some(v) => value_arith(*floats, op, self@, rhs@) == Some(v@),
                None => value_arith(*floats, op, self@, rhs@) is None,
            },
    {
        match (self, rhs) {
            (ObjectValue::Number(a), ObjectValue::Number(b)) => Some(ObjectValue::Number(int_op(op, *a, *b))),
            (ObjectValue::Number(a), ObjectValue::Float(b)) => {
                let fa = ask_float(floats, FloatQuery::FromInt(*a));
                Some(ObjectValue::Float(float_op(op, fa, *b, floats)))
            },
            (ObjectValue::Float(a), ObjectValue::Number(b)) => {
                let fb = ask_float(floats, FloatQuery::FromInt(*b));
                Some(ObjectValue::Float(float_op(op, *a, fb, floats)))
            },
            (ObjectValue::Float(a), ObjectValue::Float(b)) => Some(ObjectValue::Float(float_op(op, *a, *b, floats))),
            (ObjectValue::String(_), ObjectValue::Number(_))
            | (ObjectValue::String(_), ObjectValue::Float(_))
            | (ObjectValue::String(_), ObjectValue::String(_))
            | (ObjectValue::Number(_), ObjectValue::String(_))
            | (ObjectValue::Float(_), ObjectValue::String(_)) => {
                if op == ArithOp::Add {
                    let mut s = self.to_string(floats);
                    let t = rhs.to_string(floats);
                    append(&mut s, t.as_str());
                    Some(ObjectValue::String(s))
                } else {
                    None
                }
            },
            _ => None,
        }
    }
}

impl Object {
    /// An operator on two objects, with the report the tool makes when the
    /// operator does not apply.
    fn arith<F: Fn(FloatQuery) -> FloatAnswer>(&self, op: ArithOp, rhs: &Object, floats: &F) -> (r: (Object, Option<String>))
        requires
            engine_ok(*floats),
            !arith_halts(op, self.value@, rhs.value@),
        ensures
            r.0@ == object_arith(*floats, op, self@, rhs@),
            optional_text(r.1) == arith_report(*floats, op, self.value@, rhs.value@),
    {
        match self.value.arith(op, &rhs.value, floats) {
            Some(ObjectValue::Number(n)) => (Object::from(n), None),
            Some(ObjectValue::Float(b)) => (Object::float(b), None),
            Some(ObjectValue::String(s)) => (Object { kind: ObjectKind::String, value: ObjectValue::String(s) }, None),
            Some(_) => (Object::default(), None),
            None => {
                let mut ops = self.value.to_string(floats);
                append(&mut ops, " ");
                let symbol = match op {
                    ArithOp::Add => "+",
                    ArithOp::Subtract => "-",
                    ArithOp::Multiply => "*",
                    ArithOp::Divide => "/",
                };
                append(&mut ops, symbol);
                append(&mut ops, " ");
                let right = rhs.value.to_string(floats);
                append(&mut ops, right.as_str());
                (Object::default(), Some(Reporter::arithmetic_error(ops.as_str())))
            },
        }
    }

    /// `self + rhs` (see [`value_arith`]): the sum, or nil and a report when
    /// `+` does not apply to the values.
    pub fn add<F: Fn(FloatQuery) -> FloatAnswer>(&self, rhs: &Object, floats: &F) -> (r: (Object, Option<String>))
        requires
            engine_ok(*floats),
            !arith_halts(ArithOp::Add, self.value@, rhs.value@),
        ensures
            r.0@ == object_arith(*floats, ArithOp::Add, self@, rhs@),
            optional_text(r.1) == arith_report(*floats, ArithOp::Add, self.value@, rhs.value@),
    {
        self.arith(ArithOp::Add, rhs, floats)
    }

    /// `self - rhs` (see [`value_arith`]): the difference, or nil and a
    /// report when `-` does not apply to the values.
    pub fn sub<F: Fn(FloatQuery) -> FloatAnswer>(&self, rhs: &Object, floats: &F) -> (r: (Object, Option<String>))
        requires
            engine_ok(*floats),
            !arith_halts(ArithOp::Subtract, self.value@, rhs.value@),
        ensures
            r.0@ == object_arith(*floats, ArithOp::Subtract, self@, rhs@),
            optional_text(r.1) == arith_report(*floats, ArithOp::Subtract, self.value@, rhs.value@),
    {
        self.arith(ArithOp::Subtract, rhs, floats)
    }

    /// `self * rhs` (see [`value_arith`]): the product, or nil and a report
    /// when `*` does not apply to the values.
    pub fn mul<F: Fn(FloatQuery) -> FloatAnswer>(&self, rhs: &Object, floats: &F) -> (r: (Object, Option<String>))
        requires
            engine_ok(*floats),
            !arith_halts(ArithOp::Multiply, self.value@, rhs.value@),
        ensures
            r.0@ == object_arith(*floats, ArithOp::Multiply, self@, rhs@),
            optional_text(r.1) == arith_report(*floats, ArithOp::Multiply, self.value@, rhs.value@),
    {
        self.arith(ArithOp::Multiply, rhs, floats)
    }

    /// `self / rhs` (see [`value_arith`]): the quotient, rounded toward zero
    /// for two numbers, or nil and a report when `/` does not apply to the
    /// values.
    pub fn div<F: Fn(FloatQuery) -> FloatAnswer>(&self, rhs: &Object, floats: &F) -> (r: (Object, Option<String>))
        requires
            engine_ok(*floats),
            !arith_halts(ArithOp::Divide, self.value@, rhs.value@),
        ensures
            r.0@ == object_arith(*floats, ArithOp::Divide, self@, rhs@),
            optional_text(r.1) == arith_report(*floats, ArithOp::Divide, self.value@, rhs.value@),
    {
        self.arith(ArithOp::Divide, rhs, floats)
    }
}

/// A comparison operator.
#[derive(Clone, Copy, Debug, PartialEq, Eq, Structural)]
pub enum CompareOp {
    Less,
    LessEqual,
    Greater,
    GreaterEqual,
}

/// A comparison of two integers.
pub open spec fn int_compare(op: CompareOp, a: int, b: int) -> bool {
    match op {
        CompareOp::Less => a < b,
        CompareOp::LessEqual => a <= b,
        CompareOp::Greater => a > b,
        CompareOp::GreaterEqual => a >= b,
    }
}

/// The engine query for a comparison of two floats.
pub open spec fn float_compare_query(op: CompareOp, a: u32, b: u32) -> FloatQueryView {
    match op {
        CompareOp::Less => FloatQueryView::Less(a, b),
        CompareOp::LessEqual => FloatQueryView::LessEqual(a, b),
        CompareOp::Greater => FloatQueryView::Greater(a, b),
        CompareOp::GreaterEqual => FloatQueryView::GreaterEqual(a, b),
    }
}

/// A float truncated to an integer.
pub open spec fn float_to_int<F: Fn(FloatQuery) -> FloatAnswer>(f: F, b: u32) -> i32 {
    int_result(f, FloatQueryView::Truncate(b))
}

/// A comparison of two values. A number is compared with a float truncated
/// to an integer, a float with a number converted to a float. A number or a
/// float compared with any other value gives no answer (a report); any other
/// value on the left compares false.
pub open spec fn value_order<F: Fn(FloatQuery) -> FloatAnswer>(
    f: F,
    op: CompareOp,
    l: LiteralView,
    r: LiteralView,
) -> Option<bool> {
    match (l, r) {
        (LiteralView::Number(a), LiteralView::Number(b)) => Some(int_compare(op, a as int, b as int)),
        (LiteralView::Number(a), LiteralView::Float(b)) => Some(int_compare(op, a as int, float_to_int(f, b) as int)),
        (LiteralView::Float(a), LiteralView::Number(b)) => Some(
            truth_result(f, float_compare_query(op, a, int_to_float(f, b))),
        ),
        (LiteralView::Float(a), LiteralView::Float(b)) => Some(truth_result(f, float_compare_query(op, a, b))),
        (LiteralView::Number(_), _) | (LiteralView::Float(_), _) => None,
        _ => Some(false),
    }
}

/// A comparison of two objects: an object whose kind is neither number nor
/// float compares false; otherwise the values are compared.
pub open spec fn object_order<F: Fn(FloatQuery) -> FloatAnswer>(
    f: F,
    op: CompareOp,
    a: ObjectView,
    b: ObjectView,
) -> Option<bool> {
    if a.kind == ObjectKind::Number || a.kind == ObjectKind::Float {
        value_order(f, op, a.value, b.value)
    } else {
        Some(false)
    }
}

/// The truth a comparison gives: false when it gives no answer.
pub open spec fn order_truth(o: Option<bool>) -> bool {
    match o {
        Some(t) => t,
        None => false,
    }
}

/// The report of a comparison that gives no answer.
pub open spec fn order_report<F: Fn(FloatQuery) -> FloatAnswer>(
    f: F,
    op: CompareOp,
    a: ObjectView,
    b: ObjectView,
) -> Option<Seq<char>> {
    match object_order(f, op, a, b) {
        Some(_) => None,
        None => Some(arithmetic_error_text(literal_text(f, a.value) + " > "@ + literal_text(f, b.value))),
    }
}

/// Whether two values are equal (see [`literal_eq`]).
pub open spec fn value_eq<F: Fn(FloatQuery) -> FloatAnswer>(f: F, l: LiteralView, r: LiteralView) -> bool {
    literal_eq(f, l, r)
}

/// Whether two objects are equal: of one kind, with equal values.
pub open spec fn object_eq<F: Fn(FloatQuery) -> FloatAnswer>(f: F, a: ObjectView, b: ObjectView) -> bool {
    a.kind == b.kind && value_eq(f, a.value, b.value)
}

/// Whether an object is empty: nil, an empty string or a NaN float.
pub open spec fn object_empty<F: Fn(FloatQuery) -> FloatAnswer>(f: F, o: ObjectView) -> bool {
    if o.kind == ObjectKind::Nil {
        true
    } else {
        match o.value {
            LiteralView::Float(b) => truth_result(f, FloatQueryView::IsNan(b)),
            LiteralView::Number(_) => false,
            LiteralView::String(s) => s.len() == 0,
            LiteralView::Bool(_) => false,
            LiteralView::Nil => true,
        }
    }
}

impl ObjectValue {
    /// A comparison of two values (see [`value_order`]).
    fn order<F: Fn(FloatQuery) -> FloatAnswer>(&self, op: CompareOp, other: &ObjectValue, floats: &F) -> (r: Option<bool>)
        requires
            engine_ok(*floats),
        ensures
            r == value_order(*floats, op, self@, other@),
    {
        match (self, other) {
            (ObjectValue::Number(a), ObjectValue::Number(b)) => Some(
                match op {
                    CompareOp::Less => *a < *b,
                    CompareOp::LessEqual => *a <= *b,
                    CompareOp::Greater => *a > *b,
                    CompareOp::GreaterEqual => *a >= *b,
                },
            ),
            (ObjectValue::Number(a), ObjectValue::Float(b)) => {
                let tb = ask_int(floats, FloatQuery::Truncate(*b));
                Some(
                    match op {
                        CompareOp::Less => *a < tb,
                        CompareOp::LessEqual => *a <= tb,
                        CompareOp::Greater => *a > tb,
                        CompareOp::GreaterEqual => *a >= tb,
                    },
                )
            },
            (ObjectValue::Float(a), ObjectValue::Number(b)) => {
                let fb = ask_float(floats, FloatQuery::FromInt(*b));
                Some(float_compare(op, *a, fb, floats))
            },
            (ObjectValue::Float(a), ObjectValue::Float(b)) => Some(float_compare(op, *a, *b, floats)),
            (ObjectValue::Number(_), _) | (ObjectValue::Float(_), _) => None,
            _ => Some(false),
        }
    }

    /// Whether two values are equal (see [`value_eq`]).
    pub fn equals<F: Fn(FloatQuery) -> FloatAnswer>(&self, other: &ObjectValue, floats: &F) -> (r: bool)
        requires
            engine_ok(*floats),
        ensures
            r == value_eq(*floats, self@, other@),
    {
        match (self, other) {
            (ObjectValue::Number(a), ObjectValue::Number(b)) => *a == *b,
            (ObjectValue::Float(a), ObjectValue::Float(b)) => ask_truth(floats, FloatQuery::Equal(*a, *b)),
            (ObjectValue::String(a), ObjectValue::String(b)) => *a == *b,
            (ObjectValue::Bool(a), ObjectValue::Bool(b)) => *a == *b,
            (ObjectValue::Nil, ObjectValue::Nil) => true,
            _ => false,
        }
    }
}

/// The report of a comparison of two values that gives no answer.
pub open spec fn value_order_report<F: Fn(FloatQuery) -> FloatAnswer>(
    f: F,
    op: CompareOp,
    l: LiteralView,
    r: LiteralView,
) -> Option<Seq<char>> {
    match value_order(f, op, l, r) {
        Some(_) => None,
        None => Some(arithmetic_error_text(literal_text(f, l) + " > "@ + literal_text(f, r))),
    }
}

impl ObjectValue {
    /// A comparison of two values, with the report the tool makes when it
    /// gives no answer.
    fn compare<F: Fn(FloatQuery) -> FloatAnswer>(&self, op: CompareOp, other: &ObjectValue, floats: &F) -> (r: (bool, Option<String>))
        requires
            engine_ok(*floats),
        ensures
            r.0 == order_truth(value_order(*floats, op, self@, other@)),
            optional_text(r.1) == value_order_report(*floats, op, self@, other@),
    {
        match self.order(op, other, floats) {
            Some(t) => (t, None),
            None => {
                let mut ops = self.to_string(floats);
                append(&mut ops, " > ");
                let right = other.to_string(floats);
                append(&mut ops, right.as_str());
                (false, Some(Reporter::arithmetic_error(ops.as_str())))
            },
        }
    }

    /// `self < other` (see [`value_order`]), with the report made when the
    /// comparison gives no answer.
    pub fn lt<F: Fn(FloatQuery) -> FloatAnswer>(&self, other: &ObjectValue, floats: &F) -> (r: (bool, Option<String>))
        requires
            engine_ok(*floats),
        ensures
            r.0 == order_truth(value_order(*floats, CompareOp::Less, self@, other@)),
            optional_text(r.1) == value_order_report(*floats, CompareOp::Less, self@, other@),
    {
        self.compare(CompareOp::Less, other, floats)
    }

    /// `self <= other` (see [`value_order`]), with the report made when the
    /// comparison gives no answer.
    pub fn le<F: Fn(FloatQuery) -> FloatAnswer>(&self, other: &ObjectValue, floats: &F) -> (r: (bool, Option<String>))
        requires
            engine_ok(*floats),
        ensures
            r.0 == order_truth(value_order(*floats, CompareOp::LessEqual, self@, other@)),
            optional_text(r.1) == value_order_report(*floats, CompareOp::LessEqual, self@, other@),
    {
        self.compare(CompareOp::LessEqual, other, floats)
    }

    /// `self > other` (see [`value_order`]), with the report made when the
    /// comparison gives no answer.
    pub fn gt<F: Fn(FloatQuery) -> FloatAnswer>(&self, other: &ObjectValue, floats: &F) -> (r: (bool, Option<String>))
        requires
            engine_ok(*floats),
        ensures
            r.0 == order_truth(value_order(*floats, CompareOp::Greater, self@, other@)),
            optional_text(r.1) == value_order_report(*floats, CompareOp::Greater, self@, other@),
    {
        self.compare(CompareOp::Greater, other, floats)
    }

    /// `self >= other` (see [`value_order`]), with the report made when the
    /// comparison gives no answer.
    pub fn ge<F: Fn(FloatQuery) -> FloatAnswer>(&self, other: &ObjectValue, floats: &F) -> (r: (bool, Option<String>))
        requires
            engine_ok(*floats),
        ensures
            r.0 == order_truth(value_order(*floats, CompareOp::GreaterEqual, self@, other@)),
            optional_text(r.1) == value_order_report(*floats, CompareOp::GreaterEqual, self@, other@),
    {
        self.compare(CompareOp::GreaterEqual, other, floats)
    }
}

/// A comparison of two floats, asked of the engine.
fn float_compare<F: Fn(FloatQuery) -> FloatAnswer>(op: CompareOp, a: u32, b: u32, floats: &F) -> (r: bool)
    requires
        engine_ok(*floats),
    ensures
        r == truth_result(*floats, float_compare_query(op, a, b)),
{
    let q = match op {
        CompareOp::Less => FloatQuery::Less(a, b),
        CompareOp::LessEqual => FloatQuery::LessEqual(a, b),
        CompareOp::Greater => FloatQuery::Greater(a, b),
        CompareOp::GreaterEqual => FloatQuery::GreaterEqual(a, b),
    };
    ask_truth(floats, q)
}

impl Object {
    /// A comparison of two objects, with the report the tool makes when it
    /// gives no answer.
    fn order<F: Fn(FloatQuery) -> FloatAnswer>(&self, op: CompareOp, other: &Object, floats: &F) -> (r: (bool, Option<String>))
        requires
            engine_ok(*floats),
        ensures
            r.0 == order_truth(object_order(*floats, op, self@, other@)),
            optional_text(r.1) == order_report(*floats, op, self@, other@),
    {
        match self.kind {
            ObjectKind::Number | ObjectKind::Float => self.value.compare(op, &other.value, floats),
            _ => (false, None),
        }
    }

    /// `self < other` (see [`object_order`]), with the report made when the
    /// comparison gives no answer.
    pub fn lt<F: Fn(FloatQuery) -> FloatAnswer>(&self, other: &Object, floats: &F) -> (r: (bool, Option<String>))
        requires
            engine_ok(*floats),
        ensures
            r.0 == order_truth(object_order(*floats, CompareOp::Less, self@, other@)),
            optional_text(r.1) == order_report(*floats, CompareOp::Less, self@, other@),
    {
        self.order(CompareOp::Less, other, floats)
    }

    /// `self <= other` (see [`object_order`]), with the report made when the
    /// comparison gives no answer.
    pub fn le<F: Fn(FloatQuery) -> FloatAnswer>(&self, other: &Object, floats: &F) -> (r: (bool, Option<String>))
        requires
            engine_ok(*floats),
        ensures
            r.0 == order_truth(object_order(*floats, CompareOp::LessEqual, self@, other@)),
            optional_text(r.1) == order_report(*floats, CompareOp::LessEqual, self@, other@),
    {
        self.order(CompareOp::LessEqual, other, floats)
    }

    /// `self > other` (see [`object_order`]), with the report made when the
    /// comparison gives no answer.
    pub fn gt<F: Fn(FloatQuery) -> FloatAnswer>(&self, other: &Object, floats: &F) -> (r: (bool, Option<String>))
        requires
            engine_ok(*floats),
        ensures
            r.0 == order_truth(object_order(*floats, CompareOp::Greater, self@, other@)),
            optional_text(r.1) == order_report(*floats, CompareOp::Greater, self@, other@),
    {
        self.order(CompareOp::Greater, other, floats)
    }

    /// `self >= other` (see [`object_order`]), with the report made when the
    /// comparison gives no answer.
    pub fn ge<F: Fn(FloatQuery) -> FloatAnswer>(&self, other: &Object, floats: &F) -> (r: (bool, Option<String>))
        requires
            engine_ok(*floats),
        ensures
            r.0 == order_truth(object_order(*floats, CompareOp::GreaterEqual, self@, other@)),
            optional_text(r.1) == order_report(*floats, CompareOp::GreaterEqual, self@, other@),
    {
        self.order(CompareOp::GreaterEqual, other, floats)
    }

    /// Whether two objects are equal (see [`object_eq`]).
    pub fn equals<F: Fn(FloatQuery) -> FloatAnswer>(&self, other: &Object, floats: &F) -> (r: bool)
        requires
            engine_ok(*floats),
        ensures
            r == object_eq(*floats, self@, other@),
    {
        self.kind == other.kind && self.value.equals(&other.value, floats)
    }

    /// Whether the object is empty (see [`object_empty`]).
    pub fn is_empty<F: Fn(FloatQuery) -> FloatAnswer>(&self, floats: &F) -> (r: bool)
        requires
            engine_ok(*floats),
        ensures
            r == object_empty(*floats, self@),
    {
        if self.is_kind(ObjectKind::Nil) || self.value.equals(&ObjectValue::Nil, floats) {
            return true;
        }
        match &self.value {
            ObjectValue::Float(b) => ask_truth(floats, FloatQuery::IsNan(*b)),
            ObjectValue::Number(_) => false,
            ObjectValue::String(s) => s.as_str().is_empty(),
            ObjectValue::Bool(_) => false,
            _ => true,
        }
    }

    /// The rendering of the object: that of its value.
    pub fn to_string<F: Fn(FloatQuery) -> FloatAnswer>(&self, floats: &F) -> (r: String)
        requires
            engine_ok(*floats),
        ensures
            r@ == literal_text(*floats, self.value@),
    {
        self.value.to_string(floats)
    }
}

/// The three-way comparison of two integers.
pub open spec fn int_order(a: i32, b: i32) -> Ordering {
    if a < b {
        Ordering::Less
    } else if a == b {
        Ordering::Equal
    } else {
        Ordering::Greater
    }
}

/// The three-way comparison of two floats, as the engine answers `<`, `==`
/// and `>` in turn; none when it answers none of them true (a NaN).
pub open spec fn float_order<F: Fn(FloatQuery) -> FloatAnswer>(f: F, a: u32, b: u32) -> Option<Ordering> {
    if truth_result(f, FloatQueryView::Less(a, b)) {
        Some(Ordering::Less)
    } else if truth_result(f, FloatQueryView::Equal(a, b)) {
        Some(Ordering::Equal)
    } else if truth_result(f, FloatQueryView::Greater(a, b)) {
        Some(Ordering::Greater)
    } else {
        None
    }
}

/// The three-way comparison of two values: numbers and floats mix as in
/// [`value_order`]; any other pair has none.
pub open spec fn value_order_of<F: Fn(FloatQuery) -> FloatAnswer>(
    f: F,
    l: LiteralView,
    r: LiteralView,
) -> Option<Ordering> {
    match (l, r) {
        (LiteralView::Number(a), LiteralView::Number(b)) => Some(int_order(a, b)),
        (LiteralView::Number(a), LiteralView::Float(b)) => Some(int_order(a, float_to_int(f, b))),
        (LiteralView::Float(a), LiteralView::Number(b)) => float_order(f, a, int_to_float(f, b)),
        (LiteralView::Float(a), LiteralView::Float(b)) => float_order(f, a, b),
        _ => None,
    }
}

/// The three-way comparison of two objects: none unless the first is of
/// kind number or float.
pub open spec fn object_order_of<F: Fn(FloatQuery) -> FloatAnswer>(
    f: F,
    a: ObjectView,
    b: ObjectView,
) -> Option<Ordering> {
    if a.kind == ObjectKind::Number || a.kind == ObjectKind::Float {
        value_order_of(f, a.value, b.value)
    } else {
        None
    }
}

/// The three-way comparison of two integers.
fn order_ints(a: i32, b: i32) -> (r: Ordering)
    ensures
        r == int_order(a, b),
{
    if a < b {
        Ordering::Less
    } else if a == b {
        Ordering::Equal
    } else {
        Ordering::Greater
    }
}

/// The three-way comparison of two floats (see [`float_order`]).
fn order_floats<F: Fn(FloatQuery) -> FloatAnswer>(a: u32, b: u32, floats: &F) -> (r: Option<Ordering>)
    requires
        engine_ok(*floats),
    ensures
        r == float_order(*floats, a, b),
{
    if ask_truth(floats, FloatQuery::Less(a, b)) {
        return Some(Ordering::Less);
    }
    if ask_truth(floats, FloatQuery::Equal(a, b)) {
        return Some(Ordering::Equal);
    }
    if ask_truth(floats, FloatQuery::Greater(a, b)) {
        return Some(Ordering::Greater);
    }
    None
}

impl ObjectValue {
    /// The three-way comparison of two values (see [`value_order_of`]).
    pub fn partial_order<F: Fn(FloatQuery) -> FloatAnswer>(&self, other: &ObjectValue, floats: &F) -> (r: Option<Ordering>)
        requires
            engine_ok(*floats),
        ensures
            r == value_order_of(*floats, self@, other@),
    {
        match (self, other) {
            (ObjectValue::Number(a), ObjectValue::Number(b)) => Some(order_ints(*a, *b)),
            (ObjectValue::Number(a), ObjectValue::Float(b)) => {
                let tb = ask_int(floats, FloatQuery::Truncate(*b));
                Some(order_ints(*a, tb))
            },
            (ObjectValue::Float(a), ObjectValue::Number(b)) => {
                let fb = ask_float(floats, FloatQuery::FromInt(*b));
                order_floats(*a, fb, floats)
            },
            (ObjectValue::Float(a), ObjectValue::Float(b)) => order_floats(*a, *b, floats),
            _ => None,
        }
    }
}

impl Object {
    /// The three-way comparison of two objects (see [`object_order_of`]).
    pub fn partial_order<F: Fn(FloatQuery) -> FloatAnswer>(&self, other: &Object, floats: &F) -> (r: Option<Ordering>)
        requires
            engine_ok(*floats),
        ensures
            r == object_order_of(*floats, self@, other@),
    {
        match self.kind {
            ObjectKind::Number | ObjectKind::Float => self.value.partial_order(&other.value, floats),
            _ => None,
        }
    }
}

/// Whether an operator on two values stops the program (see
/// [`arith_halts`]).
pub(crate) fn halts(op: ArithOp, l: &ObjectValue, r: &ObjectValue) -> (h: bool)
    ensures
        h == arith_halts(op, l@, r@),
{
    match (l, r) {
        (ObjectValue::Number(a), ObjectValue::Number(b)) => {
            if op == ArithOp::Divide && *b == 0 {
                return true;
            }
            let wa: i64 = *a as i64;
            let wb: i64 = *b as i64;
            proof {
                assert(-2147483648 * 2147483648 <= wa * wb <= 2147483648 * 2147483648) by (nonlinear_arith)
                    requires
                        -2147483648 <= wa <= 2147483647,
                        -2147483648 <= wb <= 2147483647,
                ;
            }
            let exact: i64 = match op {
                ArithOp::Add => wa + wb,
                ArithOp::Subtract => wa - wb,
                ArithOp::Multiply => wa * wb,
                ArithOp::Divide => {
                    let ma: i64 = if wa < 0 { -wa } else { wa };
                    let mb: i64 = if wb < 0 { -wb } else { wb };
                    let q: i64 = ma / mb;
                    if (wa < 0) != (wb < 0) { -q } else { q }
                },
            };
            exact < -2147483648 || exact > 2147483647
        },
        _ => false,
    }
}

/// Whether an object's kind is the one its value goes with.
pub open spec fn consistent(o: ObjectView) -> bool {
    o.kind == kind_of(o.value)
}

/// An arithmetic operator gives an object whose kind goes with its value:
/// nil exactly when the operator does not apply to the values, a number for
/// two numbers, a float when a float meets a number or a float, and a string
/// when `+` meets a string.
pub proof fn lemma_arith_kinds<F: Fn(FloatQuery) -> FloatAnswer>(f: F, op: ArithOp, a: ObjectView, b: ObjectView)
    ensures
        consistent(object_arith(f, op, a, b)),
        (object_arith(f, op, a, b).kind == ObjectKind::Nil) <==> value_arith(f, op, a.value, b.value) is None,
        a.value is Number && b.value is Number ==> object_arith(f, op, a, b).kind == ObjectKind::Number,
        (a.value is Float && (b.value is Number || b.value is Float)) || (b.value is Float && a.value is Number)
            ==> object_arith(f, op, a, b).kind == ObjectKind::Float,
        op == ArithOp::Add && (a.value is String || b.value is String) && value_arith(f, op, a.value, b.value) is Some
            ==> object_arith(f, op, a, b).kind == ObjectKind::String,
{
}

/// The engine compares the floats `a` and `b` as IEEE-754 does: at most one
/// of `<`, `==` and `>` holds, `<=` is `<` or `==`, and `>=` is `>` or `==`.
pub open spec fn coherent_floats<F: Fn(FloatQuery) -> FloatAnswer>(f: F, a: u32, b: u32) -> bool {
    let lt = truth_result(f, FloatQueryView::Less(a, b));
    let eq = truth_result(f, FloatQueryView::Equal(a, b));
    let gt = truth_result(f, FloatQueryView::Greater(a, b));
    &&& !(lt && eq) && !(lt && gt) && !(eq && gt)
    &&& truth_result(f, FloatQueryView::LessEqual(a, b)) == (lt || eq)
    &&& truth_result(f, FloatQueryView::GreaterEqual(a, b)) == (gt || eq)
}

/// The two floats that comparing two values puts to the engine, if it puts
/// any: a float with a float, or a float with a number converted to a float.
pub open spec fn compared_floats<F: Fn(FloatQuery) -> FloatAnswer>(
    f: F,
    l: LiteralView,
    r: LiteralView,
) -> Option<(u32, u32)> {
    match (l, r) {
        (LiteralView::Float(a), LiteralView::Number(b)) => Some((a, int_to_float(f, b))),
        (LiteralView::Float(a), LiteralView::Float(b)) => Some((a, b)),
        _ => None,
    }
}

/// Whether a value is a string, a boolean or nil.
pub open spec fn is_unordered(v: LiteralView) -> bool {
    v is String || v is Bool || v is Nil
}

/// `<`, `<=`, `>` and `>=` on two values ([`ObjectValue::lt`] and the
/// others) agree with their three-way comparison
/// ([`ObjectValue::partial_order`]): `<` holds exactly when it gives less, `<=` when it gives less
/// or equal, `>` when it gives greater and `>=` when it gives greater or
/// equal. The three-way comparison gives none when either value is a string,
/// a boolean or nil. Where the engine is asked about two floats, it answers
/// as IEEE-754 does.
pub proof fn lemma_value_order_agrees<F: Fn(FloatQuery) -> FloatAnswer>(f: F, l: LiteralView, r: LiteralView)
    requires
        compared_floats(f, l, r) matches Some(p) ==> coherent_floats(f, p.0, p.1),
    ensures
        order_truth(value_order(f, CompareOp::Less, l, r)) == (value_order_of(f, l, r) == Some(Ordering::Less)),
        order_truth(value_order(f, CompareOp::LessEqual, l, r)) == (value_order_of(f, l, r) == Some(Ordering::Less)
            || value_order_of(f, l, r) == Some(Ordering::Equal)),
        order_truth(value_order(f, CompareOp::Greater, l, r)) == (value_order_of(f, l, r) == Some(
            Ordering::Greater,
        )),
        order_truth(value_order(f, CompareOp::GreaterEqual, l, r)) == (value_order_of(f, l, r) == Some(
            Ordering::Greater,
        ) || value_order_of(f, l, r) == Some(Ordering::Equal)),
        is_unordered(l) || is_unordered(r) ==> value_order_of(f, l, r) is None,
{
}

/// The same agreement on objects: [`Object::lt`], [`Object::le`],
/// [`Object::gt`] and [`Object::ge`] hold exactly when
/// [`Object::partial_order`] gives less, less or equal, greater, and greater
/// or equal; it gives none when either value is a string, a boolean or nil,
/// and when the first object is of neither kind number nor float.
pub proof fn lemma_object_order_agrees<F: Fn(FloatQuery) -> FloatAnswer>(f: F, a: ObjectView, b: ObjectView)
    requires
        compared_floats(f, a.value, b.value) matches Some(p) ==> coherent_floats(f, p.0, p.1),
    ensures
        order_truth(object_order(f, CompareOp::Less, a, b)) == (object_order_of(f, a, b) == Some(Ordering::Less)),
        order_truth(object_order(f, CompareOp::LessEqual, a, b)) == (object_order_of(f, a, b) == Some(
            Ordering::Less,
        ) || object_order_of(f, a, b) == Some(Ordering::Equal)),
        order_truth(object_order(f, CompareOp::Greater, a, b)) == (object_order_of(f, a, b) == Some(
            Ordering::Greater,
        )),
        order_truth(object_order(f, CompareOp::GreaterEqual, a, b)) == (object_order_of(f, a, b) == Some(
            Ordering::Greater,
        ) || object_order_of(f, a, b) == Some(Ordering::Equal)),
        is_unordered(a.value) || is_unordered(b.value) ==> object_order_of(f, a, b) is None,
        !(a.kind == ObjectKind::Number || a.kind == ObjectKind::Float) ==> object_order_of(f, a, b) is None,
{
    lemma_value_order_agrees(f, a.value, b.value);
}

/// Arithmetic keeps its operands in order, the left one first. Two numbers
/// give the integer sum, difference, product, or quotient rounded toward
/// zero. Two floats are put to the engine as they stand. A number met with a
/// float is converted to a float where it stands, on the left or on the
/// right. `+` with a string joins the two renderings, left then right.
pub proof fn lemma_arith_operand_order<F: Fn(FloatQuery) -> FloatAnswer>(
    f: F,
    op: ArithOp,
    a: i32,
    b: i32,
    x: u32,
    y: u32,
    t: Seq<char>,
    v: LiteralView,
)
    ensures
        value_arith(f, ArithOp::Add, LiteralView::Number(a), LiteralView::Number(b)) == Some(
            LiteralView::Number((a + b) as i32),
        ),
        value_arith(f, ArithOp::Subtract, LiteralView::Number(a), LiteralView::Number(b)) == Some(
            LiteralView::Number((a - b) as i32),
        ),
        value_arith(f, ArithOp::Multiply, LiteralView::Number(a), LiteralView::Number(b)) == Some(
            LiteralView::Number((a * b) as i32),
        ),
        value_arith(f, ArithOp::Add, LiteralView::Float(x), LiteralView::Float(y)) == Some(
            LiteralView::Float(float_result(f, FloatQueryView::Add(x, y))),
        ),
        value_arith(f, ArithOp::Subtract, LiteralView::Float(x), LiteralView::Float(y)) == Some(
            LiteralView::Float(float_result(f, FloatQueryView::Subtract(x, y))),
        ),
        value_arith(f, ArithOp::Multiply, LiteralView::Float(x), LiteralView::Float(y)) == Some(
            LiteralView::Float(float_result(f, FloatQueryView::Multiply(x, y))),
        ),
        value_arith(f, ArithOp::Divide, LiteralView::Float(x), LiteralView::Float(y)) == Some(
            LiteralView::Float(float_result(f, FloatQueryView::Divide(x, y))),
        ),
        value_arith(f, op, LiteralView::Number(a), LiteralView::Float(y)) == value_arith(
            f,
            op,
            LiteralView::Float(float_result(f, FloatQueryView::FromInt(a))),
            LiteralView::Float(y),
        ),
        value_arith(f, op, LiteralView::Float(x), LiteralView::Number(b)) == value_arith(
            f,
            op,
            LiteralView::Float(x),
            LiteralView::Float(float_result(f, FloatQueryView::FromInt(b))),
        ),
        (v is Number || v is Float || v is String) ==> value_arith(f, ArithOp::Add, LiteralView::String(t), v)
            == Some(LiteralView::String(t + literal_text(f, v))),
        (v is Number || v is Float || v is String) ==> value_arith(f, ArithOp::Add, v, LiteralView::String(t))
            == Some(LiteralView::String(literal_text(f, v) + t)),
{
}

/// Integer division rounds toward zero: the quotient `q` of `a / b` leaves
/// a remainder `a - q * b` smaller than `b` in size and of the sign of `a`
/// (or zero). The one quotient out of range, `i32::MIN / -1`, is left out.
pub proof fn lemma_int_division_truncates<F: Fn(FloatQuery) -> FloatAnswer>(f: F, a: i32, b: i32)
    requires
        b != 0,
        !(a == i32::MIN && b == -1),
    ensures
        value_arith(f, ArithOp::Divide, LiteralView::Number(a), LiteralView::Number(b)) matches Some(
            LiteralView::Number(q),
        ) && ({
            let r = a - q * b;
            &&& (if r < 0 { -r } else { r }) < (if b < 0 { -b } else { b as int })
            &&& r == 0 || (r < 0) == (a < 0)
        }),
{
    let ma: int = if a < 0 { -a } else { a as int };
    let mb: int = if b < 0 { -b } else { b as int };
    let qq = ma / mb;
    let rr = ma % mb;
    assert(ma == qq * mb + rr && 0 <= rr < mb) by {
        vstd::arithmetic::div_mod::lemma_fundamental_div_mod(ma, mb);
    }
    assert(0 <= qq <= ma) by (nonlinear_arith)
        requires
            ma >= 0,
            mb >= 1,
            qq == ma / mb,
    ;
    assert(mb >= 2 ==> qq * 2 <= ma) by (nonlinear_arith)
        requires
            ma >= 0,
            mb >= 1,
            ma == qq * mb + rr,
            0 <= rr,
            qq >= 0,
    ;
    let q = trunc_div(a as int, b as int);
    assert(q == if (a < 0) != (b < 0) { -qq } else { qq });
    assert(i32::MIN <= q <= i32::MAX);
    assert(a - q * b == if a < 0 { -rr } else { rr }) by (nonlinear_arith)
        requires
            ma == (if a < 0 { -a } else { a as int }),
            mb == (if b < 0 { -b } else { b as int }),
            q == (if (a < 0) != (b < 0) { -qq } else { qq }),
            ma == qq * mb + rr,
    ;
}

/// Comparisons keep their operands in order, the left one first: two
/// numbers compare as integers; a number compares with a float truncated to
/// an integer; a float is put to the engine with the other float, or with
/// the number converted to a float, on the right.
pub proof fn lemma_compare_operand_order<F: Fn(FloatQuery) -> FloatAnswer>(f: F, a: i32, b: i32, x: u32, y: u32)
    ensures
        value_order(f, CompareOp::Less, LiteralView::Number(a), LiteralView::Number(b)) == Some(a < b),
        value_order(f, CompareOp::Less, LiteralView::Number(a), LiteralView::Float(y)) == Some(
            a < int_result(f, FloatQueryView::Truncate(y)),
        ),
        value_order(f, CompareOp::Less, LiteralView::Float(x), LiteralView::Float(y)) == Some(
            truth_result(f, FloatQueryView::Less(x, y)),
        ),
        value_order(f, CompareOp::Less, LiteralView::Float(x), LiteralView::Number(b)) == Some(
            truth_result(f, FloatQueryView::Less(x, float_result(f, FloatQueryView::FromInt(b)))),
        ),
        value_order(f, CompareOp::LessEqual, LiteralView::Number(a), LiteralView::Number(b)) == Some(a <= b),
        value_order(f, CompareOp::LessEqual, LiteralView::Number(a), LiteralView::Float(y)) == Some(
            a <= int_result(f, FloatQueryView::Truncate(y)),
        ),
        value_order(f, CompareOp::LessEqual, LiteralView::Float(x), LiteralView::Float(y)) == Some(
            truth_result(f, FloatQueryView::LessEqual(x, y)),
        ),
        value_order(f, CompareOp::LessEqual, LiteralView::Float(x), LiteralView::Number(b)) == Some(
            truth_result(f, FloatQueryView::LessEqual(x, float_result(f, FloatQueryView::FromInt(b)))),
        ),
        value_order(f, CompareOp::Greater, LiteralView::Number(a), LiteralView::Number(b)) == Some(a > b),
        value_order(f, CompareOp::Greater, LiteralView::Number(a), LiteralView::Float(y)) == Some(
            a > int_result(f, FloatQueryView::Truncate(y)),
        ),
        value_order(f, CompareOp::Greater, LiteralView::Float(x), LiteralView::Float(y)) == Some(
            truth_result(f, FloatQueryView::Greater(x, y)),
        ),
        value_order(f, CompareOp::Greater, LiteralView::Float(x), LiteralView::Number(b)) == Some(
            truth_result(f, FloatQueryView::Greater(x, float_result(f, FloatQueryView::FromInt(b)))),
        ),
        value_order(f, CompareOp::GreaterEqual, LiteralView::Number(a), LiteralView::Number(b)) == Some(a >= b),
        value_order(f, CompareOp::GreaterEqual, LiteralView::Number(a), LiteralView::Float(y)) == Some(
            a >= int_result(f, FloatQueryView::Truncate(y)),
        ),
        value_order(f, CompareOp::GreaterEqual, LiteralView::Float(x), LiteralView::Float(y)) == Some(
            truth_result(f, FloatQueryView::GreaterEqual(x, y)),
        ),
        value_order(f, CompareOp::GreaterEqual, LiteralView::Float(x), LiteralView::Number(b)) == Some(
            truth_result(f, FloatQueryView::GreaterEqual(x, float_result(f, FloatQueryView::FromInt(b)))),
        ),
{
}

} // verus!
