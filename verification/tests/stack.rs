use worst::data::{Datum, Val, ValKind};
use worst::interpreter::stack::{Stack, StackError};

fn num(i: i64) -> Datum {
    Datum::new(Val::Int(i))
}

fn ints(s: &mut Stack) -> Vec<i64> {
    let mut out = Vec::new();
    while let Ok(d) = s.pop_datum() {
        match d.value {
            Val::Int(i) => out.push(i),
            _ => panic!("not an int"),
        }
    }
    out.reverse();
    out
}

#[test]
fn stack_push_pop() {
    let mut s = Stack::new();
    assert!(s.pop_datum().is_err());
    s.push(num(1));
    s.push(num(2));
    assert_eq!(s.size(), 2);
    assert!(matches!(s.pop_datum().ok().unwrap().value, Val::Int(2)));
    assert_eq!(s.size(), 1);
}

#[test]
fn stack_rollback_restores() {
    let mut s = Stack::new();
    s.push(num(1));
    s.push(num(2));
    let t = s.transaction();
    s.push(num(3));
    let _ = s.pop_datum();
    let _ = s.pop_datum();
    let _ = s.pop_datum();
    s.push(num(9));
    s.rollback(t);
    assert_eq!(ints(&mut s), vec![1, 2]);
}

#[test]
fn stack_commit_keeps() {
    let mut s = Stack::new();
    s.push(num(1));
    let t = s.transaction();
    s.push(num(2));
    s.commit(t);
    assert_eq!(ints(&mut s), vec![1, 2]);
}

#[test]
fn stack_insert_remove_ref() {
    let mut s = Stack::new();
    s.push(num(1));
    s.push(num(2));
    s.push(num(3));
    assert!(s.insert(num(7), 1).is_ok());
    assert!(s.insert(num(7), 9).is_err());
    assert!(matches!(s.ref_datum(0).ok().unwrap().value, Val::Int(3)));
    // inserted below what was at that depth
    assert!(matches!(s.ref_datum(2).ok().unwrap().value, Val::Int(7)));
    assert!(matches!(s.remove(3).ok().unwrap().value, Val::Int(1)));
    assert!(s.remove(3).is_err());
    assert_eq!(ints(&mut s), vec![7, 2, 3]);
}

#[test]
fn stack_typed() {
    let mut s = Stack::new();
    s.push(Datum::new(Val::Bool(true)));
    assert_eq!(s.type_predicate(0, ValKind::Bool).ok(), Some(true));
    assert!(matches!(s.ref_at(0, ValKind::Int), Err(StackError::WrongType(ValKind::Int, _))));
    match s.top_mut(ValKind::Bool) {
        Ok(d) => d.value = Val::Bool(false),
        Err(_) => panic!("wrong type"),
    }
    assert!(matches!(s.pop(ValKind::Int), Err(StackError::WrongType(_, _))));
    assert_eq!(s.size(), 0);
    assert!(matches!(s.pop(ValKind::Int), Err(StackError::Empty)));
    let f = StackError::Empty.failure();
    assert_eq!(f.name(), "stack-empty");
}
