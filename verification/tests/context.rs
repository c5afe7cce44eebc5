use worst::data::{Datum, Val};
use worst::interpreter::context::Context;
use worst::interpreter::definition::Definition;
use worst::parser::data::Source;

fn num(i: i64) -> Datum {
    Datum::new(Val::Int(i))
}

fn drain(c: &mut Context) -> Vec<i64> {
    let mut out = Vec::new();
    while let Ok(Some(d)) = c.next() {
        match d.value {
            Val::Int(i) => out.push(i),
            _ => panic!("not an int"),
        }
    }
    out
}

#[test]
fn context_runs_code_in_order() {
    let mut c = Context::new();
    c.add_code(num(1));
    c.add_code(num(2));
    assert_eq!(drain(&mut c), vec![1, 2]);
    assert!(c.is_root());
}

#[test]
fn context_def_runs_first() {
    let mut c = Context::new();
    c.add_code(num(1));
    c.add_code(num(2));
    let _ = c.next();
    let def = Definition::new(vec![num(10), num(11)]);
    c.push_def(None, &def);
    assert!(!c.is_root());
    assert_eq!(drain(&mut c), vec![10, 11, 2]);
}

#[test]
fn context_uplevel_keeps_order() {
    let mut c = Context::new();
    assert!(c.uplevel(None).is_err());
    c.add_code(num(1));
    let def = Definition::new(vec![num(5), num(6)]);
    c.push_def(None, &def);
    assert!(c.uplevel(None).is_ok());
    assert!(c.is_root());
    assert_eq!(drain(&mut c), vec![5, 6, 1]);
}

#[test]
fn context_resolve_outwards() {
    let mut c = Context::new();
    c.env_mut().define("x".to_string(), Definition::new(vec![num(1)]));
    c.add_code(num(0));
    c.push_def(Some(Source::new()), &Definition::new(vec![num(2)]));
    c.env_mut().define("y".to_string(), Definition::new(vec![num(3)]));
    assert!(c.resolve(&"x".to_string()).is_some());
    assert!(c.resolve(&"y".to_string()).is_some());
    assert!(c.resolve(&"z".to_string()).is_none());
    assert_eq!(c.stack_sources().len(), 2);
    c.reset();
    assert!(c.is_root());
    assert!(c.resolve(&"y".to_string()).is_none());
    assert!(c.resolve(&"x".to_string()).is_some());
    assert!(c.next().ok().unwrap().is_none());
}

#[test]
fn context_uplevel_in_root_names_the_error() {
    let mut c = Context::new();
    match c.uplevel(None) {
        Err(f) => {
            assert_eq!(f.name(), "uplevel-in-root-context");
            assert!(f.args().is_empty());
        },
        Ok(()) => panic!("uplevel at the root"),
    }
}

#[test]
fn context_push_source_adds_empty_frame() {
    let mut c = Context::new();
    c.env_mut().define("x".to_string(), Definition::new(vec![num(1)]));
    c.add_code(num(4));
    c.push_source(Some(Source::new()));
    assert!(!c.is_root());
    assert!(c.source().is_some());
    let s = c.stack_sources();
    assert_eq!(s.len(), 2);
    assert!(s[0].is_some());
    assert!(s[1].is_none());
    assert!(c.resolve(&"x".to_string()).is_some());
    assert_eq!(drain(&mut c), vec![4]);
}
