use oxa::float::{FloatAnswer, FloatQuery};
use oxa::object::{Object, ObjectKind, ObjectValue};
use std::cmp::Ordering;

fn engine(q: FloatQuery) -> FloatAnswer {
    let f = |b: u32| f32::from_bits(b);
    match q {
        FloatQuery::Parse(s) => FloatAnswer::Float(s.parse::<f32>().map(|x| x.to_bits()).unwrap_or(0)),
        FloatQuery::FromInt(n) => FloatAnswer::Float((n as f32).to_bits()),
        FloatQuery::Negate(a) => FloatAnswer::Float((-f(a)).to_bits()),
        FloatQuery::Add(a, b) => FloatAnswer::Float((f(a) + f(b)).to_bits()),
        FloatQuery::Subtract(a, b) => FloatAnswer::Float((f(a) - f(b)).to_bits()),
        FloatQuery::Multiply(a, b) => FloatAnswer::Float((f(a) * f(b)).to_bits()),
        FloatQuery::Divide(a, b) => FloatAnswer::Float((f(a) / f(b)).to_bits()),
        FloatQuery::Less(a, b) => FloatAnswer::Truth(f(a) < f(b)),
        FloatQuery::LessEqual(a, b) => FloatAnswer::Truth(f(a) <= f(b)),
        FloatQuery::Greater(a, b) => FloatAnswer::Truth(f(a) > f(b)),
        FloatQuery::GreaterEqual(a, b) => FloatAnswer::Truth(f(a) >= f(b)),
        FloatQuery::Equal(a, b) => FloatAnswer::Truth(f(a) == f(b)),
        FloatQuery::Truncate(a) => FloatAnswer::Int(f(a) as i32),
        FloatQuery::IsNan(a) => FloatAnswer::Truth(f(a).is_nan()),
        FloatQuery::Display(a) => FloatAnswer::Text(f(a).to_string()),
    }
}


#[test]
fn has_correct_object_kind() {
    let data = vec![
        (Object::from(10), ObjectKind::Number),
        (Object::float(10.2f32.to_bits()), ObjectKind::Float),
        (Object::string("string"), ObjectKind::String),
        (Object::from(false), ObjectKind::Bool),
        (Object::default(), ObjectKind::Nil),
    ];

    for (obj, kind) in data {
        assert!(obj.is_kind(kind))
    }
}

#[test]
fn check_for_empty() {
    let data = vec![
        (Object::from(10), false),
        (Object::float(10.2f32.to_bits()), false),
        (Object::float(f32::NAN.to_bits()), true),
        (Object::string("string"), false),
        (Object::string(""), true),
        (Object::from(false), false),
        (Object::default(), true),
    ];

    for (obj, exp) in data {
        assert_eq!(obj.is_empty(&engine), exp)
    }
}

#[test]
fn same_type_arithmetic() {
    let obj_1 = Object::from(10);
    let obj_2 = Object::from(20);
    assert!(obj_1.add(&obj_2, &engine).0.equals(&Object::from(30), &engine));

    let obj_3 = Object::from(10);
    let obj_4 = Object::from(20);
    assert!(obj_3.sub(&obj_4, &engine).0.equals(&Object::from(-10), &engine));

    let obj_5 = Object::from(10);
    let obj_6 = Object::from(20);
    assert!(obj_5.mul(&obj_6, &engine).0.equals(&Object::from(200), &engine));

    let obj_5 = Object::float(10.0f32.to_bits());
    let obj_6 = Object::float(20.0f32.to_bits());
    assert!(obj_5.div(&obj_6, &engine).0.equals(&Object::float(0.5f32.to_bits()), &engine));

    let obj_7 = Object::string("string");
    let obj_8 = Object::string("concat");
    assert!(obj_7.add(&obj_8, &engine).0.equals(&Object::string("stringconcat"), &engine));
}

#[test]
fn returns_nil_for_wrong_operation() {
    let obj_1 = Object::from(10);
    let obj_2 = Object::default();
    let (sum, report) = obj_1.add(&obj_2, &engine);
    assert!(sum.equals(&Object::default(), &engine));
    assert_eq!(report.unwrap(), "cannot perform arithmetic operation: 10 + Nil");

    let obj_3 = Object::string("string");
    let obj_4 = Object::from(false);
    let (difference, report) = obj_3.sub(&obj_4, &engine);
    assert!(difference.equals(&Object::default(), &engine));
    assert_eq!(report.unwrap(), "cannot perform arithmetic operation: string - false");
}

#[test]
fn concat_string_with_other_type() {
    let obj_1 = Object::string("string");
    let obj_2 = Object::string("string");
    assert!(obj_1.add(&obj_2, &engine).0.equals(&Object::string("stringstring"), &engine));

    let obj_3 = Object::string("string");
    let obj_4 = Object::from(10);
    assert!(obj_3.add(&obj_4, &engine).0.equals(&Object::string("string10"), &engine));
}

#[test]
fn logical_same_type() {
    let obj_1 = Object::string("string");
    let obj_2 = Object::string("string");
    assert!(obj_1.equals(&obj_2, &engine));

    let obj_3 = Object::string("string");
    let obj_4 = Object::string("string2");
    assert!(!obj_3.equals(&obj_4, &engine));

    let obj_5 = Object::from(10);
    let obj_6 = Object::from(20);
    assert!(!obj_5.equals(&obj_6, &engine));

    let obj_7 = Object::from(10);
    let obj_8 = Object::from(20);
    assert!(obj_7.lt(&obj_8, &engine).0);

    let obj_9 = Object::from(10);
    let obj_10 = Object::from(20);
    assert!(obj_9.lt(&obj_10, &engine).0);

    let obj_1 = Object::default();
    let obj_2 = Object::default();
    assert!(obj_1.equals(&obj_2, &engine));
}

#[test]
fn logical_wrong_type() {
    let obj_1 = Object::default();
    let obj_2 = Object::string("string");
    assert!(!obj_1.equals(&obj_2, &engine));

    let obj_3 = Object::string("string");
    let obj_4 = Object::float(10.5f32.to_bits());
    assert!(!obj_3.equals(&obj_4, &engine));
}

#[test]
fn object_mixed_number_and_float() {
    let n = Object::from(3);
    let f = Object::float(0.5f32.to_bits());
    assert!(n.add(&f, &engine).0.equals(&Object::float(3.5f32.to_bits()), &engine));
    assert!(f.mul(&n, &engine).0.equals(&Object::float(1.5f32.to_bits()), &engine));
    assert!(Object::from(7).div(&Object::from(-2), &engine).0.equals(&Object::from(-3), &engine));
    assert!(Object::float(2.0f32.to_bits()).add(&Object::string("x"), &engine).0.equals(&Object::string("2x"), &engine));
}

#[test]
fn object_comparisons_and_reports() {
    // a number against a float compares with the float truncated
    assert!(Object::from(2).ge(&Object::float(2.9f32.to_bits()), &engine).0);
    assert!(Object::float(2.5f32.to_bits()).gt(&Object::from(2), &engine).0);
    let (t, report) = Object::from(1).le(&Object::string("a"), &engine);
    assert!(!t);
    assert_eq!(report.unwrap(), "cannot perform arithmetic operation: 1 > a");
    let (t, report) = Object::string("a").lt(&Object::from(1), &engine);
    assert!(!t);
    assert!(report.is_none());
    assert_eq!(Object::from(1).partial_order(&Object::from(2), &engine), Some(std::cmp::Ordering::Less));
    assert_eq!(Object::float(f32::NAN.to_bits()).partial_order(&Object::from(2), &engine), None);
    assert_eq!(Object::string("a").partial_order(&Object::from(2), &engine), None);
}

#[test]
fn object_rendering() {
    assert_eq!(Object::from(-12).to_string(&engine), "-12");
    assert_eq!(Object::from(true).to_string(&engine), "true");
    assert_eq!(Object::default().to_string(&engine), "Nil");
    assert_eq!(Object::float(0.25f32.to_bits()).to_string(&engine), "0.25");
}

#[test]
fn object_doc_examples() {
    assert!(Object::from(10).is_kind(ObjectKind::Number));
    assert!(Object::string("").is_empty(&engine));
    assert!(Object::from(10).sub(&Object::from(20), &engine).0.equals(&Object::from(-10), &engine));
    assert!(Object::from(2).add(&Object::from(4), &engine).0.equals(&Object::from(6), &engine));
    assert!(Object::from(2).mul(&Object::from(4), &engine).0.equals(&Object::from(8), &engine));
    let quotient = Object::float(10.0f32.to_bits()).div(&Object::float(5.0f32.to_bits()), &engine).0;
    assert!(quotient.equals(&Object::float(2.0f32.to_bits()), &engine));
    assert!(quotient.is_kind(ObjectKind::Float));
}

#[test]
fn value_comparisons_agree_with_partial_order() {
    let f = |x: f32| ObjectValue::Float(x.to_bits());
    let values = [
        ObjectValue::Number(1),
        ObjectValue::Number(2),
        f(1.5),
        f(2.0),
        f(f32::NAN),
        ObjectValue::String("a".to_string()),
        ObjectValue::Bool(true),
        ObjectValue::Nil,
    ];
    for a in values.iter() {
        for b in values.iter() {
            let order = a.partial_order(b, &engine);
            assert_eq!(a.lt(b, &engine).0, order == Some(Ordering::Less));
            assert_eq!(a.le(b, &engine).0, order == Some(Ordering::Less) || order == Some(Ordering::Equal));
            assert_eq!(a.gt(b, &engine).0, order == Some(Ordering::Greater));
            assert_eq!(a.ge(b, &engine).0, order == Some(Ordering::Greater) || order == Some(Ordering::Equal));
        }
    }
    assert_eq!(ObjectValue::Number(2).partial_order(&f(1.5), &engine), Some(Ordering::Greater));
    assert_eq!(f(2.0).partial_order(&ObjectValue::Number(2), &engine), Some(Ordering::Equal));
    assert_eq!(ObjectValue::Nil.partial_order(&ObjectValue::Nil, &engine), None);
}

#[test]
fn value_comparison_with_a_string_is_reported() {
    let (truth, report) = ObjectValue::Number(1).lt(&ObjectValue::String("a".to_string()), &engine);
    assert!(!truth);
    assert_eq!(report.unwrap(), "cannot perform arithmetic operation: 1 > a");
    let (truth, report) = ObjectValue::Bool(true).gt(&ObjectValue::Number(1), &engine);
    assert!(!truth);
    assert!(report.is_none());
}
