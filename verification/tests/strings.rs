use worst::data::{Datum, Val};
use worst::interpreter::stack::{Stack, StackError};
use worst::stdlib::ops::OpError;
use worst::stdlib::strings::{
    is_string_char_boundary, string_append, string_get, string_into_list, string_into_symbol,
    string_into_u8vector, string_length, string_pop, string_push, symbol_into_string, u8vector_into_string,
    u8vector_invalid_char_index,
};

fn d(v: Val) -> Datum {
    Datum::new(v)
}

fn st(s: &str) -> Datum {
    d(Val::Str(s.to_string()))
}

fn num(i: i64) -> Datum {
    d(Val::Int(i))
}

fn stack_of(vs: Vec<Datum>) -> Stack {
    let mut s = Stack::new();
    for v in vs {
        s.push(v);
    }
    s
}

fn pop(s: &mut Stack) -> Val {
    s.pop_datum().ok().unwrap().value
}

fn pop_str(s: &mut Stack) -> String {
    match pop(s) {
        Val::Str(x) => x,
        _ => panic!("not a string"),
    }
}

#[test]
fn strings_into_list_and_length() {
    let mut s = stack_of(vec![st("héllo")]);
    assert!(string_length(&mut s).is_ok());
    assert!(matches!(pop(&mut s), Val::Int(5)));
    assert!(string_into_list(&mut s).is_ok());
    match pop(&mut s) {
        Val::List(l) => {
            let cs: Vec<char> = l.iter().into_iter().map(|v| match v { Val::Char(c) => c, _ => '?' }).collect();
            assert_eq!(cs, vec!['h', 'é', 'l', 'l', 'o']);
        },
        _ => panic!("not a list"),
    }
    let mut s = stack_of(vec![num(1)]);
    assert!(matches!(string_length(&mut s), Err(OpError::Stack(StackError::WrongType(_, _)))));
}

#[test]
fn strings_get_from_both_ends() {
    let mut s = stack_of(vec![st("abc"), num(1)]);
    assert!(string_get(&mut s).is_ok());
    assert!(matches!(pop(&mut s), Val::Char('b')));
    let mut s = stack_of(vec![st("abc"), num(-1)]);
    assert!(string_get(&mut s).is_ok());
    assert!(matches!(pop(&mut s), Val::Char('c')));
    let mut s = stack_of(vec![st("abc"), num(-3)]);
    assert!(string_get(&mut s).is_ok());
    assert!(matches!(pop(&mut s), Val::Char('a')));
    assert_eq!(pop_str(&mut s), "abc");
    let mut s = stack_of(vec![st("abc"), num(3)]);
    assert!(matches!(string_get(&mut s), Err(OpError::OutOfRange(0, 2, 3))));
    let mut s = stack_of(vec![st("abc"), num(-4)]);
    assert!(matches!(string_get(&mut s), Err(OpError::OutOfRange(-3, 2, -4))));
}

#[test]
fn strings_append_push_pop() {
    let mut s = stack_of(vec![st("ab"), st("cd")]);
    assert!(string_append(&mut s).is_ok());
    assert_eq!(pop_str(&mut s), "abcd");
    let mut s = stack_of(vec![st("ab"), d(Val::Char('z'))]);
    assert!(string_push(&mut s).is_ok());
    assert_eq!(pop_str(&mut s), "abz");
    let mut s = stack_of(vec![st("ab")]);
    assert!(string_pop(&mut s).is_ok());
    assert!(matches!(pop(&mut s), Val::Char('b')));
    assert_eq!(pop_str(&mut s), "a");
    let mut s = stack_of(vec![st("")]);
    assert!(string_pop(&mut s).is_ok());
    assert!(matches!(pop(&mut s), Val::Bool(false)));
    let mut s = stack_of(vec![num(1), st("x")]);
    assert!(matches!(string_append(&mut s), Err(OpError::Stack(StackError::WrongType(_, _)))));
}

#[test]
fn strings_bytes_round_trip() {
    let mut s = stack_of(vec![st("é!")]);
    assert!(string_into_u8vector(&mut s).is_ok());
    match pop(&mut s) {
        Val::Bytes(b) => assert_eq!(b, vec![0xc3, 0xa9, b'!']),
        _ => panic!("not bytes"),
    }
    let mut s = stack_of(vec![d(Val::Bytes(vec![0xc3, 0xa9, b'!']))]);
    assert!(u8vector_into_string(&mut s).is_ok());
    assert_eq!(pop_str(&mut s), "é!");
    let mut s = stack_of(vec![d(Val::Bytes(vec![b'a', 0xff]))]);
    assert!(matches!(u8vector_into_string(&mut s), Err(OpError::InvalidString)));
    let mut s = stack_of(vec![d(Val::Bytes(vec![b'a', b'b', 0xff, b'c']))]);
    assert!(u8vector_invalid_char_index(&mut s).is_ok());
    assert!(matches!(pop(&mut s), Val::Int(2)));
    let mut s = stack_of(vec![d(Val::Bytes(vec![b'a']))]);
    assert!(u8vector_invalid_char_index(&mut s).is_ok());
    assert!(matches!(pop(&mut s), Val::Bool(false)));
}

#[test]
fn strings_char_boundary() {
    let mut s = stack_of(vec![st("é!"), num(1)]);
    assert!(is_string_char_boundary(&mut s).is_ok());
    assert!(matches!(pop(&mut s), Val::Bool(false)));
    let mut s = stack_of(vec![st("é!"), num(2)]);
    assert!(is_string_char_boundary(&mut s).is_ok());
    assert!(matches!(pop(&mut s), Val::Bool(true)));
    let mut s = stack_of(vec![st("é!"), num(-1)]);
    assert!(matches!(is_string_char_boundary(&mut s), Err(OpError::BadCast(-1))));
}

#[test]
fn strings_symbols() {
    let mut s = stack_of(vec![d(Val::Symbol("abc".to_string()))]);
    assert!(symbol_into_string(&mut s).is_ok());
    assert_eq!(pop_str(&mut s), "abc");
    let mut s = stack_of(vec![st("x y")]);
    assert!(string_into_symbol(&mut s).is_ok());
    assert!(matches!(pop(&mut s), Val::Symbol(n) if n == "x y"));
}

#[test]
fn strings_symbol_round_trip() {
    let mut s = stack_of(vec![num(1), d(Val::Symbol("name".to_string()))]);
    assert!(symbol_into_string(&mut s).is_ok());
    assert!(string_into_symbol(&mut s).is_ok());
    assert!(matches!(pop(&mut s), Val::Symbol(n) if n == "name"));
    assert!(matches!(pop(&mut s), Val::Int(1)));
}

#[test]
fn strings_push_then_pop() {
    let mut s = stack_of(vec![st("ab"), d(Val::Char('q'))]);
    assert!(string_push(&mut s).is_ok());
    assert!(string_pop(&mut s).is_ok());
    assert!(matches!(pop(&mut s), Val::Char('q')));
    assert_eq!(pop_str(&mut s), "ab");
}
