use worst::combo::Combo;
use worst::data::{Datum, Val};
use worst::parser::Parser;
use worst::parser::data::{CharClass, Source};
use worst::parser::reader::{Reader, ReaderArm, ReaderInstruction};
use worst::parser::token::TokenType;
use worst::parser_ext::error::ParseErrorReason;

fn state(s: &str) -> Combo<String> {
    Combo::Just(s.to_string())
}

fn words_reader() -> Reader {
    let ws = ReaderArm::new("ws".to_string())
        .accept_state(state("top"))
        .accept_input(Combo::Just(CharClass::Whitespace));
    let start = ReaderArm::new("start".to_string())
        .accept_state(state("top"))
        .accept_input(Combo::Just(CharClass::Alpha))
        .run(ReaderInstruction::start_token())
        .run(ReaderInstruction::set_type(TokenType::Symbol))
        .run(ReaderInstruction::append_token())
        .run(ReaderInstruction::set_state("word".to_string()));
    let cont = ReaderArm::new("cont".to_string())
        .accept_state(state("word"))
        .accept_input(Combo::Just(CharClass::Alpha))
        .run(ReaderInstruction::append_token());
    let end = ReaderArm::new("end".to_string())
        .accept_state(state("word"))
        .accept_input(Combo::Either(Box::new(Combo::Just(CharClass::Whitespace)), Box::new(Combo::Just(CharClass::Eof))))
        .run(ReaderInstruction::finish_token())
        .run(ReaderInstruction::set_state("top".to_string()));
    let eof = ReaderArm::new("eof".to_string())
        .accept_state(state("top"))
        .accept_input(Combo::Just(CharClass::Eof));
    Reader::new("top".to_string(), vec![ws, start, cont, end, eof])
}

fn sym(d: &Datum) -> &str {
    match &d.value {
        Val::Symbol(s) => s.as_str(),
        _ => panic!("not a symbol"),
    }
}

#[test]
fn rules_read_words() {
    let r = words_reader();
    let mut p = Parser::new(Source::new(), &r);
    p.push_input("ab cd");
    let d = p.read_next(&r).ok().unwrap().unwrap();
    assert_eq!(sym(&d), "ab");
    assert!(p.read_next(&r).ok().unwrap().is_none());
    p.set_eof(true);
    let d = p.read_next(&r).ok().unwrap().unwrap();
    assert_eq!(sym(&d), "cd");
    assert!(p.read_next(&r).ok().unwrap().is_none());
    assert!(p.is_eof());
}

#[test]
fn rules_unfinished_tag() {
    let mut r = words_reader();
    let tagger = ReaderArm::new("tag".to_string())
        .accept_state(state("word"))
        .accept_input(Combo::Just(CharClass::One('!')))
        .run(ReaderInstruction::set_tag("bang".to_string()));
    r.add_rule(tagger);
    let mut p = Parser::new(Source::new(), &r);
    p.push_input("ab!");
    assert!(p.read_next(&r).ok().unwrap().is_none());
    assert_eq!(p.unfinished(), vec!["bang"]);
}

#[test]
fn rules_no_matching_state() {
    let r = words_reader();
    let mut p = Parser::new(Source::new(), &r);
    p.read('1');
    match p.read_next(&r) {
        Err(e) => assert_eq!(e.reason, ParseErrorReason::NoMatchingState),
        _ => panic!("no error"),
    }
}

#[test]
fn rules_positions() {
    let r = words_reader();
    let mut p = Parser::new(Source::new(), &r);
    p.push_input("a\nbc ");
    let _ = p.read_next(&r).ok().unwrap().unwrap();
    let _ = p.read_next(&r).ok().unwrap().unwrap();
    let (file, line, col) = p.current_source();
    assert!(file.is_none());
    // while a token is read the start stays where it began
    assert_eq!(line, 2);
    assert_eq!(col, 2);
    p.set_file(Some("f".to_string()));
    assert_eq!(p.current_position().describe(), "file 'f', line 1, column 1");
}

#[test]
fn rules_delete_rule() {
    let mut r = words_reader();
    r.delete_rule(&"ws".to_string());
    assert_eq!(r.rules.len(), 4);
    let mut p = Parser::new(Source::new(), &r);
    p.read(' ');
    assert!(p.read_next(&r).is_err());
}
