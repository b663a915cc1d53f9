use oxa::environment::Environment;
use oxa::float::{FloatAnswer, FloatQuery};
use oxa::object::Object;
use oxa::token::{Token, TokenKind};

fn engine(q: FloatQuery) -> FloatAnswer {
    let f = |b: u32| f32::from_bits(b);
    match q {
        FloatQuery::Parse(s) => FloatAnswer::Float(s.parse::<f32>().map(|x| x.to_bits()).unwrap_or(0)),
        FloatQuery::FromInt(n) => FloatAnswer::Float((n as f32).to_bits()),
        FloatQuery::Negate(a) => FloatAnswer::Float((-f(a)).to_bits()),
        FloatQuery::Add(a, b) => FloatAnswer::Float((f(a) + f(b)).to_bits()),
        FloatQuery::Subtract(a, b) => FloatAnswer::Float((f(a) - f(b)).to_bits()),
        FloatQuery::Multiply(a, b) => FloatAnswer::Float((f(a) * f(b)).to_bits()),
        FloatQuery::Divide(a, b) => FloatAnswer::Float((f(a) / f(b)).to_bits()),
        FloatQuery::Less(a, b) => FloatAnswer::Truth(f(a) < f(b)),
        FloatQuery::LessEqual(a, b) => FloatAnswer::Truth(f(a) <= f(b)),
        FloatQuery::Greater(a, b) => FloatAnswer::Truth(f(a) > f(b)),
        FloatQuery::GreaterEqual(a, b) => FloatAnswer::Truth(f(a) >= f(b)),
        FloatQuery::Equal(a, b) => FloatAnswer::Truth(f(a) == f(b)),
        FloatQuery::Truncate(a) => FloatAnswer::Int(f(a) as i32),
        FloatQuery::IsNan(a) => FloatAnswer::Truth(f(a).is_nan()),
        FloatQuery::Display(a) => FloatAnswer::Text(f(a).to_string()),
    }
}


fn name(n: &str) -> Token {
    Token::new(TokenKind::Identifier, n, None, 1)
}

#[test]
fn environment_get_after_define() {
    let mut env = Environment::default();
    let v = env.define("a", Object::from(1));
    assert!(v.equals(&Object::from(1), &engine));
    assert!(env.get(&name("a")).unwrap().equals(&Object::from(1), &engine));
    assert!(env.get(&name("b")).is_none());
}

#[test]
fn environment_define_replaces_value() {
    let mut env = Environment::default();
    env.define("a", Object::from(1));
    env.define("a", Object::string("two"));
    assert!(env.get(&name("a")).unwrap().equals(&Object::string("two"), &engine));
}

#[test]
fn environment_assign_only_bound_names() {
    let mut env = Environment::default();
    assert!(env.assign(&name("a"), Object::from(1)).is_none());
    assert!(env.get(&name("a")).is_none());
    env.define("a", Object::from(1));
    let v = env.assign(&name("a"), Object::from(5)).unwrap();
    assert!(v.equals(&Object::from(5), &engine));
    assert!(env.get(&name("a")).unwrap().equals(&Object::from(5), &engine));
}
