//! Single-precision floating-point numbers.
//!
//! A float is carried as the `u32` holding its IEEE-754 bit pattern. The
//! library never computes on those bits itself: every operation it needs
//! (parsing a decimal literal, arithmetic, comparison, truncation to an
//! integer, the NaN test and the decimal rendering) is asked of a float engine,
//! a function from [`FloatQuery`] to [`FloatAnswer`] supplied by the caller.
//! The contracts state results in terms of the engine's answers; they hold for
//! every engine that answers every query and answers equal queries equally.

use vstd::prelude::*;

verus! {

/// A question put to the float engine.
pub enum FloatQuery {
    /// The float denoted by a decimal literal (`str::parse::<f32>`).
    Parse(String),
    /// The float nearest an integer (`n as f32`).
    FromInt(i32),
    /// The negation of a float.
    Negate(u32),
    /// The sum of two floats.
    Add(u32, u32),
    /// The difference of two floats.
    Subtract(u32, u32),
    /// The product of two floats.
    Multiply(u32, u32),
    /// The quotient of two floats.
    Divide(u32, u32),
    /// Whether the first float is below the second.
    Less(u32, u32),
    /// Whether the first float is at most the second.
    LessEqual(u32, u32),
    /// Whether the first float is above the second.
    Greater(u32, u32),
    /// Whether the first float is at least the second.
    GreaterEqual(u32, u32),
    /// Whether two floats are equal.
    Equal(u32, u32),
    /// A float truncated to an integer (`f as i32`).
    Truncate(u32),
    /// Whether a float is NaN.
    IsNan(u32),
    /// The decimal rendering of a float (`ToString::to_string`).
    Display(u32),
}

/// The engine's reply to a [`FloatQuery`].
pub enum FloatAnswer {
    Float(u32),
    Truth(bool),
    Int(i32),
    Text(String),
}

/// The mathematical content of a [`FloatQuery`].
pub enum FloatQueryView {
    Parse(Seq<char>),
    FromInt(i32),
    Negate(u32),
    Add(u32, u32),
    Subtract(u32, u32),
    Multiply(u32, u32),
    Divide(u32, u32),
    Less(u32, u32),
    LessEqual(u32, u32),
    Greater(u32, u32),
    GreaterEqual(u32, u32),
    Equal(u32, u32),
    Truncate(u32),
    IsNan(u32),
    Display(u32),
}

/// The mathematical content of a [`FloatAnswer`].
pub enum FloatAnswerView {
    Float(u32),
    Truth(bool),
    Int(i32),
    Text(Seq<char>),
}

impl View for FloatQuery {
    type V = FloatQueryView;

    open spec fn view(&self) -> FloatQueryView {
        match self {
            FloatQuery::Parse(s) => FloatQueryView::Parse(s@),
            FloatQuery::FromInt(n) => FloatQueryView::FromInt(*n),
            FloatQuery::Negate(a) => FloatQueryView::Negate(*a),
            FloatQuery::Add(a, b) => FloatQueryView::Add(*a, *b),
            FloatQuery::Subtract(a, b) => FloatQueryView::Subtract(*a, *b),
            FloatQuery::Multiply(a, b) => FloatQueryView::Multiply(*a, *b),
            FloatQuery::Divide(a, b) => FloatQueryView::Divide(*a, *b),
            FloatQuery::Less(a, b) => FloatQueryView::Less(*a, *b),
            FloatQuery::LessEqual(a, b) => FloatQueryView::LessEqual(*a, *b),
            FloatQuery::Greater(a, b) => FloatQueryView::Greater(*a, *b),
            FloatQuery::GreaterEqual(a, b) => FloatQueryView::GreaterEqual(*a, *b),
            FloatQuery::Equal(a, b) => FloatQueryView::Equal(*a, *b),
            FloatQuery::Truncate(a) => FloatQueryView::Truncate(*a),
            FloatQuery::IsNan(a) => FloatQueryView::IsNan(*a),
            FloatQuery::Display(a) => FloatQueryView::Display(*a),
        }
    }
}

impl View for FloatAnswer {
    type V = FloatAnswerView;

    open spec fn view(&self) -> FloatAnswerView {
        match self {
            FloatAnswer::Float(b) => FloatAnswerView::Float(*b),
            FloatAnswer::Truth(t) => FloatAnswerView::Truth(*t),
            FloatAnswer::Int(n) => FloatAnswerView::Int(*n),
            FloatAnswer::Text(s) => FloatAnswerView::Text(s@),
        }
    }
}

/// The engine answers every query, and equal queries get equal answers.
pub open spec fn engine_ok<F: Fn(FloatQuery) -> FloatAnswer>(f: F) -> bool {
    &&& forall|q: FloatQuery| call_requires(f, (q,))
    &&& forall|q1: FloatQuery, q2: FloatQuery, a1: FloatAnswer, a2: FloatAnswer|
        q1@ == q2@ && #[trigger] call_ensures(f, (q1,), a1) && #[trigger] call_ensures(
            f,
            (q2,),
            a2,
        ) ==> a1@ == a2@
}

/// The engine's answer to a query.
pub open spec fn answer<F: Fn(FloatQuery) -> FloatAnswer>(
    f: F,
    q: FloatQueryView,
) -> FloatAnswerView {
    let (x, r) = choose|x: FloatQuery, r: FloatAnswer|
        x@ == q && #[trigger] call_ensures(f, (x,), r);
    r@
}

/// The float carried by an answer (positive zero for an answer of another kind).
pub open spec fn answer_float(a: FloatAnswerView) -> u32 {
    match a {
        FloatAnswerView::Float(b) => b,
        _ => 0,
    }
}

/// The truth value carried by an answer (false for an answer of another kind).
pub open spec fn answer_truth(a: FloatAnswerView) -> bool {
    match a {
        FloatAnswerView::Truth(t) => t,
        _ => false,
    }
}

/// The integer carried by an answer (zero for an answer of another kind).
pub open spec fn answer_int(a: FloatAnswerView) -> i32 {
    match a {
        FloatAnswerView::Int(n) => n,
        _ => 0,
    }
}

/// The text carried by an answer (empty for an answer of another kind).
pub open spec fn answer_text(a: FloatAnswerView) -> Seq<char> {
    match a {
        FloatAnswerView::Text(s) => s,
        _ => Seq::empty(),
    }
}

/// Puts a query to the engine.
pub fn ask<F: Fn(FloatQuery) -> FloatAnswer>(f: &F, q: FloatQuery) -> (r: FloatAnswer)
    requires
        engine_ok(*f),
    ensures
        r@ == answer(*f, q@),
{
    let ghost qv = q@;
    let ghost qc = q;
    let r = f(q);
    proof {
        assert(call_ensures(*f, (qc,), r));
        assert(exists|x: FloatQuery, y: FloatAnswer|
            x@ == qv && #[trigger] call_ensures(*f, (x,), y));
    }
    r
}

/// Asks for a float.
pub fn ask_float<F: Fn(FloatQuery) -> FloatAnswer>(f: &F, q: FloatQuery) -> (r: u32)
    requires
        engine_ok(*f),
    ensures
        r == answer_float(answer(*f, q@)),
{
    match ask(f, q) {
        FloatAnswer::Float(b) => b,
        _ => 0,
    }
}

/// Asks for a truth value.
pub fn ask_truth<F: Fn(FloatQuery) -> FloatAnswer>(f: &F, q: FloatQuery) -> (r: bool)
    requires
        engine_ok(*f),
    ensures
        r == answer_truth(answer(*f, q@)),
{
    match ask(f, q) {
        FloatAnswer::Truth(t) => t,
        _ => false,
    }
}

/// Asks for an integer.
pub fn ask_int<F: Fn(FloatQuery) -> FloatAnswer>(f: &F, q: FloatQuery) -> (r: i32)
    requires
        engine_ok(*f),
    ensures
        r == answer_int(answer(*f, q@)),
{
    match ask(f, q) {
        FloatAnswer::Int(n) => n,
        _ => 0,
    }
}

/// Asks for a text.
pub fn ask_text<F: Fn(FloatQuery) -> FloatAnswer>(f: &F, q: FloatQuery) -> (r: String)
    requires
        engine_ok(*f),
    ensures
        r@ == answer_text(answer(*f, q@)),
{
    match ask(f, q) {
        FloatAnswer::Text(s) => s,
        _ => String::new(),
    }
}

/// The float the engine gives for a query.
pub open spec fn float_result<F: Fn(FloatQuery) -> FloatAnswer>(f: F, q: FloatQueryView) -> u32 {
    answer_float(answer(f, q))
}

/// The truth value the engine gives for a query.
pub open spec fn truth_result<F: Fn(FloatQuery) -> FloatAnswer>(f: F, q: FloatQueryView) -> bool {
    answer_truth(answer(f, q))
}

/// The integer the engine gives for a query.
pub open spec fn int_result<F: Fn(FloatQuery) -> FloatAnswer>(f: F, q: FloatQueryView) -> i32 {
    answer_int(answer(f, q))
}

/// The text the engine gives for a query.
pub open spec fn text_result<F: Fn(FloatQuery) -> FloatAnswer>(f: F, q: FloatQueryView) -> Seq<char> {
    answer_text(answer(f, q))
}

} // verus!
