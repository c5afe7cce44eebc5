use worst::data::Val;
use worst::list::List;
use worst::stdlib::file::{File, OpenFileOptions};
use worst::stdlib::port::{IsPort, Port, StdStream, WrongPortType};

struct ReadOnly;
impl IsPort for ReadOnly {
    fn is_input(&self) -> bool {
        true
    }
    fn is_output(&self) -> bool {
        false
    }
    fn can_seek(&self) -> bool {
        false
    }
    fn port_type(&self) -> Option<String> {
        None
    }
}

#[test]
fn port_std_streams() {
    let p = Port::stdin();
    assert!(p.is_input());
    assert!(!p.is_output());
    assert!(!p.can_seek());
    assert_eq!(p.type_of(), "stdin-port");
    let p = Port::stdout();
    assert!(!p.is_input());
    assert!(p.is_output());
    assert_eq!(p.type_of(), "stdout-port");
    let p = Port::stderr();
    assert!(p.is_output());
    assert_eq!(p.type_of(), "stderr-port");
    assert!(StdStream::Stdin.is_input());
}

#[test]
fn port_defaults() {
    let p = Port::new(ReadOnly);
    assert!(p.is_input());
    assert!(!p.is_output());
    assert!(!p.can_seek());
    assert_eq!(p.type_of(), "port");
}

#[test]
fn port_is_never_unique() {
    let p = Port::stdin();
    assert!(!p.is_unique());
    let q = p.clone();
    assert!(!q.is_unique());
    assert_eq!(q.type_of(), "stdin-port");
}

#[test]
fn port_of_file() {
    let mut o = OpenFileOptions::new();
    o.read();
    let p = File::opened_with(o).port();
    assert!(p.is_input());
    assert!(!p.is_output());
    assert!(p.can_seek());
    assert_eq!(p.type_of(), "file-port");
    let mut o = OpenFileOptions::new();
    o.append();
    let p = File::opened_with(o).port();
    assert!(!p.is_input());
    assert!(p.is_output());
}

#[test]
fn port_wrong_type_message() {
    assert_eq!(WrongPortType().message(), "Wrong port type");
}

#[test]
fn list_iter_mut_changes_in_place() {
    let mut l = List::from_vec(vec![Val::Int(1), Val::Int(2), Val::Int(3)]);
    if let Some(v) = l.iter_mut(0) {
        *v = Val::Int(10);
    }
    if let Some(v) = l.iter_mut(2) {
        *v = Val::Int(30);
    }
    assert!(l.iter_mut(3).is_none());
    let got: Vec<i64> = l.iter().into_iter().map(|v| match v { Val::Int(n) => n, _ => 0 }).collect();
    assert_eq!(got, vec![10, 2, 30]);
}

#[test]
fn list_from_pairs_last_pair_first() {
    let l = List::from_pairs(vec![(Val::Int(1), Val::Int(10)), (Val::Int(2), Val::Int(20))]);
    let got: Vec<i64> = l.iter().into_iter().map(|v| match v { Val::Int(n) => n, _ => 0 }).collect();
    assert_eq!(got, vec![2, 20, 1, 10]);
}
