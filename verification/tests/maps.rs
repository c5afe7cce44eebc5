use worst::data::{Datum, Val};
use worst::defset::DefSet;
use worst::interpreter::definition::Definition;
use worst::interpreter::env::Env;
use worst::stdlib::hashtable::HashTable;

fn num(i: i64) -> Val {
    Val::Int(i)
}

#[test]
fn env_define_get_undefine() {
    let mut e = Env::new();
    assert!(!e.is_defined(&"a".to_string()));
    e.define("a".to_string(), Definition::new(vec![]));
    e.define("b".to_string(), Definition::new(vec![]));
    e.define("a".to_string(), Definition::new(vec![Datum::new(num(1))]));
    assert!(e.is_defined(&"a".to_string()));
    assert_eq!(e.get_definition(&"a".to_string()).unwrap().program().len(), 1);
    assert_eq!(e.current_defines().len(), 2);
    let d = e.undefine(&"a".to_string()).unwrap();
    assert_eq!(d.program().len(), 1);
    assert!(!e.is_defined(&"a".to_string()));
    assert!(e.undefine(&"a".to_string()).is_none());
}

#[test]
fn defset_merge_prepend() {
    let mut a = DefSet::new();
    a.insert("x".to_string(), num(1));
    a.insert("y".to_string(), num(2));
    let mut b = DefSet::new();
    b.insert("y".to_string(), num(20));
    b.insert("z".to_string(), num(30));
    let mut m = a.copy();
    m.append(&b);
    assert_eq!(m.len(), 3);
    assert!(matches!(m.get("y"), Some(Val::Int(20))));
    let mut p = a.copy();
    p.prepend(&b);
    assert!(matches!(p.get("y"), Some(Val::Int(2))));
    assert!(matches!(p.get("z"), Some(Val::Int(30))));
    let merged = a.merged_with(b);
    assert!(matches!(merged.get("x"), Some(Val::Int(1))));
    assert_eq!(merged.iter().len(), 3);
}

#[test]
fn defset_remove() {
    let mut a = DefSet::new();
    assert!(a.is_empty());
    a.insert("x".to_string(), num(1));
    assert!(a.contains("x"));
    assert!(matches!(a.remove("x"), Some(Val::Int(1))));
    assert!(a.remove("x").is_none());
    assert!(a.is_empty());
}

#[test]
fn hashtable_set_get_take() {
    let mut t = HashTable::new();
    t.set(Datum::new(Val::Str("k".to_string())), Datum::new(num(1)));
    t.set(Datum::new(num(5)), Datum::new(num(2)));
    t.set(Datum::new(Val::Str("k".to_string())), Datum::new(num(3)));
    assert_eq!(t.size(), 2);
    assert!(t.has_key(&Datum::new(num(5))));
    assert!(matches!(t.get(&Datum::new(Val::Str("k".to_string()))).unwrap().value, Val::Int(3)));
    assert!(matches!(t.take(&Datum::new(num(5))).unwrap().value, Val::Int(2)));
    assert!(t.take(&Datum::new(num(5))).is_none());
    assert_eq!(t.keys().len(), 1);
    assert!(t.random_key().is_some());
    let (k, v) = t.take_random_pair().unwrap();
    assert!(matches!(k.value, Val::Str(_)));
    assert!(matches!(v.value, Val::Int(3)));
    assert!(t.take_random_pair().is_none());
    assert!(t.random_key().is_none());
}
