use worst::data::{Datum, Val};
use worst::interpreter::stack::{Stack, StackError};
use worst::list::List;
use worst::stdlib::ops::{
    bool_and, bool_or, is_equal, is_stack_empty, list_append, list_length, list_pop_head, list_pop_tail,
    list_push_head, list_push_tail, list_swap, num_abs, num_add, num_gt, num_mul, num_negate, op_clone, op_dig,
    op_drop, OpError,
};

fn d(v: Val) -> Datum {
    Datum::new(v)
}

fn num(i: i64) -> Datum {
    d(Val::Int(i))
}

fn stack_of(vs: Vec<Datum>) -> Stack {
    let mut s = Stack::new();
    for v in vs {
        s.push(v);
    }
    s
}

fn top(s: &Stack) -> Val {
    s.ref_datum(0).ok().unwrap().value.clone()
}

fn ints(s: &mut Stack) -> Vec<i64> {
    let mut out = Vec::new();
    while let Ok(x) = s.pop_datum() {
        match x.value {
            Val::Int(i) => out.push(i),
            _ => panic!("not an int"),
        }
    }
    out.reverse();
    out
}

fn list_ints(v: &Val) -> Vec<i64> {
    match v {
        Val::List(l) => l.iter().into_iter().map(|x| match x {
            Val::Int(i) => i,
            _ => panic!("not an int"),
        }).collect(),
        _ => panic!("not a list"),
    }
}

#[test]
fn ops_bools() {
    let mut s = stack_of(vec![d(Val::Bool(true)), num(1)]);
    assert!(bool_and(&mut s, None).is_ok());
    assert!(matches!(top(&s), Val::Bool(true)));
    let mut s = stack_of(vec![d(Val::Bool(false)), num(1)]);
    assert!(bool_and(&mut s, None).is_ok());
    assert!(matches!(top(&s), Val::Bool(false)));
    assert!(bool_or(&mut s, None).is_ok());
    assert!(matches!(top(&s), Val::Bool(true)));
    let mut e = stack_of(vec![num(1)]);
    assert!(matches!(bool_or(&mut e, None), Err(OpError::Stack(StackError::Empty))));
}

#[test]
fn ops_clone_drop_empty() {
    let mut s = stack_of(vec![num(4)]);
    assert!(op_clone(&mut s).is_ok());
    assert_eq!(s.size(), 2);
    assert!(op_drop(&mut s).is_ok());
    assert!(op_drop(&mut s).is_ok());
    assert!(op_drop(&mut s).is_err());
    is_stack_empty(&mut s, None);
    assert!(matches!(top(&s), Val::Bool(true)));
}

#[test]
fn ops_dig() {
    let mut s = stack_of(vec![num(1), num(2), num(3), num(2)]);
    assert!(op_dig(&mut s).is_ok());
    assert_eq!(ints(&mut s), vec![2, 3, 1]);
    let mut s = stack_of(vec![num(1), num(2), num(3), num(-2)]);
    assert!(op_dig(&mut s).is_ok());
    assert_eq!(ints(&mut s), vec![3, 1, 2]);
    let mut s = stack_of(vec![num(1), num(2), num(3), num(-3)]);
    assert!(matches!(op_dig(&mut s), Err(OpError::Stack(StackError::Empty))));
    assert_eq!(ints(&mut s), vec![1, 2]);
    let mut s = stack_of(vec![num(1), num(5)]);
    assert!(matches!(op_dig(&mut s), Err(OpError::Stack(StackError::Empty))));
    assert_eq!(ints(&mut s), vec![1]);
}

#[test]
fn ops_numbers() {
    let mut s = stack_of(vec![num(2), num(3)]);
    assert!(num_add(&mut s).is_ok());
    assert_eq!(ints(&mut s), vec![5]);
    let mut s = stack_of(vec![num(-2), num(3)]);
    assert!(num_mul(&mut s).is_ok());
    assert_eq!(ints(&mut s), vec![-6]);
    let mut s = stack_of(vec![num(7)]);
    assert!(num_negate(&mut s).is_ok());
    assert!(num_abs(&mut s).is_ok());
    assert_eq!(ints(&mut s), vec![7]);
    let mut s = stack_of(vec![num(1), num(2)]);
    assert!(num_gt(&mut s).is_ok());
    assert!(matches!(top(&s), Val::Bool(true)));
    let mut s = stack_of(vec![d(Val::Bool(true)), num(2)]);
    assert!(matches!(num_add(&mut s), Err(OpError::Stack(StackError::WrongType(_, _)))));
}

/// Float texts compared as the numbers they stand for.
fn float_eq(a: &String, b: &String) -> bool {
    match (a.parse::<f64>(), b.parse::<f64>()) {
        (Ok(x), Ok(y)) => x == y,
        _ => false,
    }
}

fn fl(t: &str) -> Datum {
    d(Val::Float(t.to_string()))
}

#[test]
fn ops_equal() {
    let mut s = stack_of(vec![d(Val::Str("a".to_string())), d(Val::Str("a".to_string()))]);
    assert!(is_equal(&mut s, &float_eq).is_ok());
    assert!(matches!(top(&s), Val::Bool(true)));
    let mut s = stack_of(vec![num(1), d(Val::Str("1".to_string()))]);
    assert!(is_equal(&mut s, &float_eq).is_ok());
    assert!(matches!(top(&s), Val::Bool(false)));
}

#[test]
fn ops_equal_floats_as_numbers() {
    let mut s = stack_of(vec![fl("1.0"), fl("1.00")]);
    assert!(is_equal(&mut s, &float_eq).is_ok());
    assert!(matches!(top(&s), Val::Bool(true)));
    let mut s = stack_of(vec![fl("nan"), fl("nan")]);
    assert!(is_equal(&mut s, &float_eq).is_ok());
    assert!(matches!(top(&s), Val::Bool(false)));
    let a = Val::List(List::from_vec(vec![Val::Float("2.5".to_string()), Val::Int(1)]));
    let b = Val::List(List::from_vec(vec![Val::Float("2.50".to_string()), Val::Int(1)]));
    let mut s = stack_of(vec![d(a), d(b)]);
    assert!(is_equal(&mut s, &float_eq).is_ok());
    assert!(matches!(top(&s), Val::Bool(true)));
    let mut s = stack_of(vec![fl("1.0"), num(1)]);
    assert!(is_equal(&mut s, &float_eq).is_ok());
    assert!(matches!(top(&s), Val::Bool(false)));
}

#[test]
fn ops_lists() {
    let l = Val::List(List::from_vec(vec![Val::Int(1), Val::Int(2)]));
    let mut s = stack_of(vec![d(l), num(0)]);
    assert!(list_push_head(&mut s).is_ok());
    assert_eq!(list_ints(&top(&s)), vec![0, 1, 2]);
    s.push(num(3));
    assert!(list_push_tail(&mut s).is_ok());
    assert_eq!(list_ints(&top(&s)), vec![0, 1, 2, 3]);
    assert!(list_length(&mut s, None).is_ok());
    assert!(matches!(top(&s), Val::Int(4)));
    let _ = s.pop_datum();
    s.push(num(0));
    s.push(num(3));
    assert!(list_swap(&mut s).is_ok());
    assert_eq!(list_ints(&top(&s)), vec![3, 1, 2, 0]);
    assert!(list_pop_head(&mut s).is_ok());
    assert!(matches!(top(&s), Val::Int(3)));
    let _ = s.pop_datum();
    assert!(list_pop_tail(&mut s).is_ok());
    assert!(matches!(top(&s), Val::Int(0)));
    let _ = s.pop_datum();
    s.push(d(Val::List(List::from_vec(vec![Val::Int(9)]))));
    assert!(list_append(&mut s).is_ok());
    assert_eq!(list_ints(&top(&s)), vec![1, 2, 9]);
    s.push(num(0));
    s.push(num(7));
    assert!(matches!(list_swap(&mut s), Err(OpError::OutOfRange(0, 2, 7))));
    s.push(num(-1));
    assert!(matches!(list_swap(&mut s), Err(OpError::BadCast(-1))));
    let mut e = stack_of(vec![d(Val::List(List::new()))]);
    assert!(matches!(list_pop_head(&mut e), Err(OpError::ListEmpty)));
}
