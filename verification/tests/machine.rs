use worst::data::{Val, ValKind};
use worst::list::List;
use worst::interpreter::base::DefScope;
use worst::machine::{Halt, Interpreter, Step};

type Builtin = Box<dyn Fn(&mut Interpreter) -> Result<(), Halt>>;

/// An interpreter with its host functions.
struct Host {
    i: Interpreter,
    builtins: Vec<Builtin>,
}

impl Host {
    fn new(body: Vec<Val>) -> Host {
        Host { i: Interpreter::new(List::from_vec(body)), builtins: Vec::new() }
    }

    fn empty() -> Host {
        Host { i: Interpreter::default(), builtins: Vec::new() }
    }

    fn add_builtin(&mut self, name: &str, f: impl Fn(&mut Interpreter) -> Result<(), Halt> + 'static) {
        let id = self.builtins.len() as u64;
        self.builtins.push(Box::new(f));
        self.i.add_builtin(name.to_string(), id);
    }

    fn run(&mut self) -> Result<(), Halt> {
        loop {
            match self.i.run(1000) {
                Step::Continue => {},
                Step::Done => return Ok(()),
                Step::CallBuiltin(b) => (self.builtins[b as usize])(&mut self.i)?,
                Step::CallOnce(_) => panic!("no one-off functions here"),
                Step::Halted(h) => return Err(h),
            }
        }
    }
}

fn sym(s: &str) -> Val {
    Val::Symbol(s.to_string())
}

fn pop_int(i: &mut Interpreter) -> i64 {
    match i.stack_pop(ValKind::Int) {
        Ok(Val::Int(n)) => n,
        _ => panic!("wrong type"),
    }
}

fn pop_str(i: &mut Interpreter) -> String {
    match i.stack_pop(ValKind::Str) {
        Ok(Val::Str(s)) => s,
        _ => panic!("wrong type"),
    }
}

fn pop_sym(i: &mut Interpreter) -> String {
    match i.stack_pop(ValKind::Symbol) {
        Ok(Val::Symbol(s)) => s,
        _ => panic!("wrong type"),
    }
}

fn list(vs: Vec<Val>) -> Val {
    Val::List(List::from_vec(vs))
}

#[test]
fn interp_empty() {
    assert!(Host::empty().run().is_ok());
}

#[test]
fn interp_simple_1() {
    let mut h = Host::new(vec![Val::Int(7)]);
    assert!(h.i.stack_ref().is_empty());
    assert!(h.run().is_ok());
    assert_eq!(pop_int(&mut h.i), 7);
    assert!(h.i.stack_ref().is_empty());
}

fn toplevel_def(i: &mut Interpreter) -> Result<(), Halt> {
    i.stack_push(Val::Str("yay".to_string()));
    Ok(())
}

#[test]
fn interp_def_1() {
    let mut h = Host::new(vec![sym("thingy"), sym("test")]);
    h.add_builtin("test", |i: &mut Interpreter| {
        i.stack_push(Val::Str("hello".to_string()));
        Ok(())
    });
    h.add_builtin("thingy", toplevel_def);
    assert!(h.run().is_ok());
    assert_eq!(pop_str(&mut h.i), "hello".to_string());
    assert_eq!(pop_str(&mut h.i), "yay".to_string());
    assert!(h.i.stack_ref().is_empty());
}

#[test]
fn quoting() {
    let mut h = Host::new(vec![sym("quote"), sym("egg")]);
    h.add_builtin("quote", |i: &mut Interpreter| {
        let q = i.body_mut().pop().expect("quote");
        i.stack_push(q);
        Ok(())
    });
    assert!(h.run().is_ok());
    assert_eq!(pop_sym(&mut h.i), "egg");
    assert!(h.i.stack_ref().is_empty());
}

#[test]
fn uplevel() {
    let mut h = Host::new(vec![sym("thing"), sym("egg")]);
    h.add_builtin("upquote", |i: &mut Interpreter| {
        i.enter_parent_frame()?;
        let q = i.body_mut().pop().expect("quote");
        i.stack_push(q);
        Ok(())
    });
    h.i.define("thing".to_string(), list(vec![sym("upquote")]));
    assert!(h.run().is_ok());
    assert_eq!(pop_sym(&mut h.i), "egg");
    assert!(h.i.stack_ref().is_empty());
}

#[test]
fn uplevel_closure() {
    let mut h = Host::new(vec![sym("thing")]);
    h.add_builtin("upfive", |i: &mut Interpreter| {
        let five = sym("five");
        i.enter_parent_frame()?;
        i.stack_push(five);
        Ok(())
    });
    h.i.define("thing".to_string(), list(vec![sym("upfive")]));
    assert!(h.run().is_ok());
    assert_eq!(pop_sym(&mut h.i), "five");
    assert!(h.i.stack_ref().is_empty());
}

#[test]
fn uplevel2() {
    let mut h = Host::new(vec![sym("thing1"), sym("egg")]);
    h.add_builtin("upquote2", |i: &mut Interpreter| {
        i.enter_parent_frame()?;
        i.enter_parent_frame()?;
        let q = i.body_mut().pop().expect("quote");
        i.stack_push(q);
        Ok(())
    });
    h.i.define("thing2".to_string(), list(vec![sym("upquote2")]));
    h.i.define("thing1".to_string(), list(vec![sym("thing2")]));
    assert!(h.run().is_ok());
    assert_eq!(pop_sym(&mut h.i), "egg");
    assert!(h.i.stack_ref().is_empty());
}

#[test]
fn stack_pop_empty() {
    let mut h = Host::new(vec![sym("drop")]);
    h.add_builtin("drop", |i: &mut Interpreter| {
        i.stack_pop_val()?;
        Ok(())
    });
    let err = h.run().err().unwrap();
    match err {
        Halt::Error(Val::Symbol(s)) => assert_eq!(s, "stack-empty"),
        _ => panic!("wrong error"),
    }
}

#[test]
fn machine_undefined_and_cyclic() {
    let mut h = Host::new(vec![sym("nope")]);
    match h.run().err().unwrap() {
        Halt::Error(Val::List(l)) => {
            let items = l.iter();
            assert!(matches!(&items[0], Val::Symbol(s) if s == "undefined"));
            assert!(matches!(&items[1], Val::Symbol(s) if s == "nope"));
        },
        _ => panic!("wrong error"),
    }
    let mut h = Host::new(vec![sym("a")]);
    h.i.add_definition("a".to_string(), sym("b"));
    h.i.add_definition("b".to_string(), sym("a"));
    match h.run().err().unwrap() {
        Halt::Error(Val::List(l)) => {
            assert!(matches!(&l.iter()[0], Val::Symbol(s) if s == "cyclic-definition"));
        },
        _ => panic!("wrong error"),
    }
}

#[test]
fn machine_eval_next_reverse_order() {
    let mut h = Host::empty();
    h.add_builtin("one", |i: &mut Interpreter| { i.stack_push(Val::Int(1)); Ok(()) });
    h.add_builtin("two", |i: &mut Interpreter| { i.stack_push(Val::Int(2)); Ok(()) });
    assert!(h.i.eval_next(Val::Builtin(0)).is_ok());
    assert!(h.i.eval_next(Val::Builtin(1)).is_ok());
    assert!(h.run().is_ok());
    // the one given last ran first, so it is under the other
    assert_eq!(pop_int(&mut h.i), 1);
    assert_eq!(pop_int(&mut h.i), 2);
}

#[test]
fn machine_reset_keeps_definitions() {
    let mut h = Host::new(vec![sym("thing"), Val::Int(3)]);
    h.i.define("thing".to_string(), list(vec![Val::Int(1), Val::Int(2)]));
    assert!(matches!(h.i.step(), Step::Continue));
    assert!(matches!(h.i.step(), Step::Continue));
    assert!(!h.i.is_complete());
    h.i.reset();
    assert!(h.i.is_complete());
    assert!(h.i.resolve_definition("thing").is_some());
    assert!(h.i.enter_parent_frame().is_err());
}

#[test]
fn machine_pause() {
    let mut h = Host::new(vec![sym("p"), Val::Int(5)]);
    h.add_builtin("p", |i: &mut Interpreter| i.pause(Val::Int(9)));
    assert!(matches!(h.run(), Err(Halt::Pause(Val::Int(9)))));
    assert!(h.run().is_ok());
    assert_eq!(pop_int(&mut h.i), 5);
}

#[test]
fn embedded_runs_prelude_text() {
    let mut h = Host { i: worst::embedded("7 8"), builtins: Vec::new() };
    assert!(h.run().is_ok());
    assert_eq!(pop_int(&mut h.i), 8);
    assert_eq!(pop_int(&mut h.i), 7);
    assert!(h.i.stack_ref().is_empty());
}

#[test]
fn machine_stack_pop_wrong_type_names_kinds() {
    let mut i = Interpreter::default();
    i.stack_push(Val::Int(3));
    match i.stack_pop(ValKind::Str) {
        Err(Halt::Error(Val::List(l))) => {
            let items = l.iter();
            assert_eq!(items.len(), 5);
            assert!(matches!(&items[0], Val::Symbol(s) if s == "wrong-type"));
            assert!(matches!(&items[1], Val::Int(3)));
            assert!(matches!(&items[2], Val::Symbol(s) if s == "int"));
            assert!(matches!(&items[3], Val::Symbol(s) if s == "string"));
            assert!(matches!(&items[4], Val::Str(s) if s == "string"));
        },
        _ => panic!("wrong error"),
    }
    assert!(i.stack_ref().is_empty());
}

#[test]
fn machine_stack_ops_on_the_interpreter_stack() {
    let mut i = Interpreter::default();
    i.stack_push(Val::Int(2));
    i.stack_push(Val::Int(5));
    let mut s = i.take_stack();
    assert!(i.stack_ref().is_empty());
    assert!(worst::stdlib::ops::num_add(&mut s).is_ok());
    i.put_stack(s);
    assert_eq!(pop_int(&mut i), 7);
    assert!(i.stack_ref().is_empty());
    i.stack_push(Val::Int(1));
    i.stack_push(Val::Int(2));
    let s = i.take_stack();
    i.put_stack(s);
    assert_eq!(pop_int(&mut i), 2);
    assert_eq!(pop_int(&mut i), 1);
}

#[test]
fn machine_scoped_definitions() {
    let mut i = Interpreter::default();
    i.add_definition("x".to_string(), Val::Int(1));
    assert!(matches!(i.get_definition("x", None), Some(Val::Int(1))));
    assert!(matches!(i.get_definition("x", Some(DefScope::Local)), Some(Val::Int(1))));
    assert!(i.get_definition("x", Some(DefScope::DefEnv)).is_none());
    assert!(i.get_definition("y", None).is_none());
}
