use worst::data::Val;
use worst::reader::read_all;

fn read_ok(s: &str) -> Vec<Val> {
    match read_all(s) {
        Ok(v) => v,
        Err(_) => panic!("read failed"),
    }
}

fn vec_read_i64(s: &str) -> Vec<i64> {
    read_ok(s).into_iter().map(|v| match v {
        Val::Int(i) => i,
        _ => panic!("not an integer"),
    }).collect()
}

fn vec_read_bool(s: &str) -> Vec<bool> {
    read_ok(s).into_iter().map(|v| match v {
        Val::Bool(b) => b,
        _ => panic!("not a bool"),
    }).collect()
}

fn vec_read_string(s: &str) -> Vec<String> {
    read_ok(s).into_iter().map(|v| match v {
        Val::Str(x) => x,
        _ => panic!("not a string"),
    }).collect()
}

fn vec_read_symbol(s: &str) -> Vec<String> {
    read_ok(s).into_iter().map(|v| match v {
        Val::Symbol(x) => x,
        _ => panic!("not a symbol"),
    }).collect()
}

#[test]
fn read_none() {
    assert!(vec_read_i64("").is_empty());
    assert!(vec_read_i64(" \n ; test\n").is_empty());
}

#[test]
fn read_bool() {
    assert_eq!(vec_read_bool("#f#t ;yeah\n #f #t "), vec![false, true, false, true]);
}

#[test]
fn read_string() {
    assert_eq!(vec_read_string("\"egg\" \"blub\\nbo\"\"\" \"ok\\\"ok\""),
               vec!["egg", "blub\nbo", "", "ok\"ok"]);
}

#[test]
fn read_i64() {
    assert_eq!(vec_read_i64("123"), vec![123]);
}

#[test]
fn read_symbol() {
    assert_eq!(vec_read_symbol("eggs"), vec!["eggs".to_string()]);
    assert_eq!(vec_read_symbol("time for-some\n.cool.beans"),
               vec!["time".to_string(), "for-some".to_string(), ".cool.beans".to_string()]);
}
