use worst::data::Val;
use worst::numeric::IntError;
use worst::parser_basic::{ParseError, Parser, Source, SourcePos};

fn values(src: &str) -> Vec<Val> {
    let mut p = Parser::new(src);
    let mut out = Vec::new();
    loop {
        match p.next() {
            Ok(Some(d)) => out.push(d.value),
            Ok(None) => return out,
            Err(e) => panic!("{}", e.message()),
        }
    }
}

fn first_error(src: &str) -> ParseError<Source> {
    let mut p = Parser::new(src);
    loop {
        match p.next() {
            Ok(Some(_)) => {},
            Ok(None) => panic!("no error"),
            Err(e) => return e,
        }
    }
}

fn sym(v: &Val) -> &str {
    match v {
        Val::Symbol(s) => s.as_str(),
        _ => panic!("not a symbol"),
    }
}

#[test]
fn basic_words_and_numbers() {
    let vs = values("hello 12 3.5 ; comment\n world");
    assert_eq!(vs.len(), 4);
    assert_eq!(sym(&vs[0]), "hello");
    assert!(matches!(vs[1], Val::Int(12)));
    match &vs[2] {
        Val::Float(t) => assert_eq!(t, "3.5"),
        _ => panic!("not a float"),
    }
    assert_eq!(sym(&vs[3]), "world");
}

#[test]
fn basic_lists_nest() {
    let vs = values("[a [b c] \"s\"] d");
    assert_eq!(vs.len(), 2);
    match &vs[0] {
        Val::List(l) => {
            let items = l.iter();
            assert_eq!(items.len(), 3);
            assert_eq!(sym(&items[0]), "a");
            match &items[1] {
                Val::List(inner) => assert_eq!(inner.len(), 2),
                _ => panic!("not a list"),
            }
            match &items[2] {
                Val::Str(s) => assert_eq!(s, "s"),
                _ => panic!("not a string"),
            }
        },
        _ => panic!("not a list"),
    }
    assert_eq!(sym(&vs[1]), "d");
}

#[test]
fn basic_string_escapes() {
    let vs = values("\"a\\nb\\\"c\"");
    match &vs[0] {
        Val::Str(s) => assert_eq!(s, "a\nb\"c"),
        _ => panic!("not a string"),
    }
}

#[test]
fn basic_block_comment() {
    let vs = values("#! ignore [ this !# x");
    assert_eq!(vs.len(), 1);
    assert_eq!(sym(&vs[0]), "x");
}

#[test]
fn basic_hash_words() {
    let vs = values("#t #! c !# #");
    assert_eq!(sym(&vs[0]), "#");
    assert_eq!(sym(&vs[1]), "t");
    assert_eq!(sym(&vs[2]), "#");
    let vs = values("#$x");
    assert_eq!(sym(&vs[0]), "#$");
    assert_eq!(sym(&vs[1]), "x");
}

#[test]
fn basic_quote_is_own_word() {
    let vs = values("'abc :d");
    assert_eq!(sym(&vs[0]), "'");
    assert_eq!(sym(&vs[1]), "abc");
    assert_eq!(sym(&vs[2]), ":");
    assert_eq!(sym(&vs[3]), "d");
}

#[test]
fn basic_unbalanced_close() {
    match first_error("a ]") {
        ParseError::UnbalancedCloseList(s) => {
            // the first character of a word does not move the position
            assert_eq!(s.start.line, 1);
            assert_eq!(s.start.col, 2);
        },
        _ => panic!("wrong error"),
    }
}

#[test]
fn basic_unbalanced_open() {
    match first_error("[a\n[b]") {
        ParseError::UnbalancedOpenList(s) => {
            assert_eq!(s.start.line, 1);
            assert_eq!(s.start.col, 1);
        },
        _ => panic!("wrong error"),
    }
}

#[test]
fn basic_unclosed_string_and_comment() {
    assert!(matches!(first_error("\"abc"), ParseError::UnbalancedString(_)));
    assert!(matches!(first_error("#! abc"), ParseError::UnbalancedComment(_)));
}

#[test]
fn basic_bad_numbers() {
    assert!(matches!(first_error("1.2.3"), ParseError::BadFloat(_)));
    assert!(matches!(first_error("99999999999999999999"), ParseError::BadInteger(_, IntError::Overflow)));
}

#[test]
fn basic_error_message() {
    let e = first_error("\"abc");
    assert_eq!(e.message(), "Parse error: Unclosed string at line 1, column 1");
    let mut p = Parser::new("]").with_file("f.w".to_string());
    match p.next() {
        Err(e) => assert_eq!(e.message(), "Parse error: Unbalanced ] at file 'f.w', line 1, column 1"),
        _ => panic!("no error"),
    }
}

#[test]
fn basic_source_describe() {
    let s = Source { file: None, start: SourcePos { line: 2, col: 3 }, end: SourcePos { line: 2, col: 7 } };
    assert_eq!(s.describe(), "line 2, cols 3-7");
    let s = Source { file: None, start: SourcePos { line: 2, col: 3 }, end: SourcePos { line: 4, col: 1 } };
    assert_eq!(s.describe(), "2:3 - 4:1");
    let s = Source::new().with_file(Some("x".to_string()));
    assert_eq!(s.describe(), "file 'x', line 1, column 1");
}

#[test]
fn basic_block_comment_ends_at_first_close() {
    let vs = values("#! a !!# 5");
    assert_eq!(vs.len(), 1);
    assert!(matches!(vs[0], Val::Int(5)));
    let vs = values("#! ! # !# y");
    assert_eq!(sym(&vs[0]), "y");
}

#[test]
fn basic_string_hex_escape() {
    let vs = values("\"\\x41\\x6a!\"");
    match &vs[0] {
        Val::Str(s) => assert_eq!(s, "Aj!"),
        _ => panic!("not a string"),
    }
    let vs = values("\"\\xzz\"");
    match &vs[0] {
        Val::Str(s) => assert_eq!(s, "xzz"),
        _ => panic!("not a string"),
    }
}

#[test]
fn basic_unicode_space_separates_words() {
    let vs = values("a\u{a0}b\u{3000}c");
    assert_eq!(vs.len(), 3);
    assert_eq!(sym(&vs[2]), "c");
}

#[test]
fn basic_read_iter_push_back_comes_first() {
    let mut r = worst::parser_basic::ReadIter::new("ab");
    assert_eq!(r.next(), Some('a'));
    r.push_back('a');
    r.push_back('z');
    assert_eq!(r.next(), Some('z'));
    assert_eq!(r.next(), Some('a'));
    assert_eq!(r.next(), Some('b'));
    assert_eq!(r.next(), None);
}
