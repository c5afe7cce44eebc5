//! Builtins on strings and symbols. The top of the stack is the last value
//! of its model; strings are sequences of characters, and their bytes are
//! the UTF-8 encoding of those characters.

use vstd::prelude::*;
use vstd::utf8::{decode_utf8, encode_utf8, is_char_boundary, valid_utf8};
use crate::data::{Datum, SDatum, SVal, Val, ValKind, models, lemma_models_empty, lemma_models_push};
use crate::interpreter::stack::{Stack, StackError};
use crate::list::List;
use crate::stdlib::ops::{OpError, SOpError, at, bare, int_of, op_result, pop_kind, pop_spec};
use crate::text::{chars_of, pop_char, push_char, push_str};

verus! {

/// The characters of a string value (none for anything else).
pub open spec fn str_of(d: SDatum) -> Seq<char> {
    match d.value {
        SVal::Str(s) => s,
        _ => Seq::empty(),
    }
}

/// The name of a symbol value (empty for anything else).
pub open spec fn name_of(d: SDatum) -> Seq<char> {
    match d.value {
        SVal::Symbol(s) => s,
        _ => Seq::empty(),
    }
}

/// The character of a character value (`'\0'` for anything else).
pub open spec fn char_of(d: SDatum) -> char {
    match d.value {
        SVal::Char(c) => c,
        _ => '\0',
    }
}

/// The bytes of a byte-vector value (none for anything else).
pub open spec fn bytes_of(d: SDatum) -> Seq<u8> {
    match d.value {
        SVal::Bytes(b) => b,
        _ => Seq::empty(),
    }
}

/// Character values, one for each character.
pub open spec fn char_vals(cs: Seq<char>) -> Seq<SVal>
    decreases cs.len(),
{
    if cs.len() == 0 {
        Seq::empty()
    } else {
        char_vals(cs.drop_last()).push(SVal::Char(cs.last()))
    }
}

/// Adding a character adds its value.
proof fn lemma_char_vals_push(a: Seq<char>, c: char)
    ensures char_vals(a.push(c)) == char_vals(a).push(SVal::Char(c)),
{
    assert(a.push(c).drop_last() =~= a);
}

/// A string value with its characters replaced.
pub open spec fn with_str(d: SDatum, t: Seq<char>) -> SDatum {
    SDatum { value: SVal::Str(t), source: d.source }
}

/// Take the top value off if it has the kind `k`, then go on with `f`.
pub open spec fn pop_then(
    s: Seq<SDatum>,
    k: ValKind,
    f: spec_fn(Seq<SDatum>, SDatum) -> (Seq<SDatum>, Result<(), SOpError>),
) -> (Seq<SDatum>, Result<(), SOpError>) {
    let (s1, r) = pop_spec(s, k);
    match r {
        Err(e) => (s1, Err(e)),
        Ok(d) => f(s1, d),
    }
}

/// Look at the top value, which must have the kind `k`, and go on with `f`.
pub open spec fn peek_then(
    s: Seq<SDatum>,
    k: ValKind,
    f: spec_fn(SDatum) -> (Seq<SDatum>, Result<(), SOpError>),
) -> (Seq<SDatum>, Result<(), SOpError>) {
    if s.len() == 0 {
        (s, Err(SOpError::Empty))
    } else if s.last().value.kind() != k {
        (s, Err(SOpError::WrongType(k, s.last())))
    } else {
        f(s.last())
    }
}

/// Change the string on top with `f`.
pub open spec fn edit_top_str(s: Seq<SDatum>, f: spec_fn(Seq<char>) -> Seq<char>) -> (Seq<SDatum>, Result<(), SOpError>) {
    peek_then(s, ValKind::Str, |d: SDatum| (s.update(s.len() - 1, with_str(d, f(str_of(d)))), Ok(())))
}

/// A character value.
fn char_val(c: char) -> (r: Val)
    ensures r.model() == SVal::Char(c),
{
    Val::Char(c)
}

/// A character datum with no known source.
fn char_datum(c: char) -> (r: Datum)
    ensures r.model() == bare(SVal::Char(c)),
{
    Datum::new(Val::Char(c))
}

/// Push a value with no source.
pub open spec fn push_bare(s: Seq<SDatum>, v: SVal) -> (Seq<SDatum>, Result<(), SOpError>) {
    (s.push(bare(v)), Ok(()))
}

/// `string->list`: a string becomes the list of its characters.
pub fn string_into_list(stack: &mut Stack) -> (r: Result<(), OpError>)
    ensures
        (final(stack)@, op_result(r)) == pop_then(old(stack)@, ValKind::Str,
            |s1: Seq<SDatum>, d: SDatum| push_bare(s1, SVal::List(char_vals(str_of(d)), None))),
        final(stack).log() is Some <==> old(stack).log() is Some,
        old(stack).log() is Some ==> final(stack).origin() == old(stack).origin(),
{
    let d = pop_kind(stack, ValKind::Str)?;
    let cs: Vec<char> = match &d.value {
        Val::Str(s) => chars_of(s.as_str()),
        _ => Vec::new(),
    };
    let mut vals: Vec<Val> = Vec::new();
    proof {
        lemma_models_empty(vals@);
        assert(cs@.take(0).len() == 0);
    }
    let mut i: usize = 0;
    while i < cs.len()
        invariant
            i <= cs.len(),
            models(vals@) == char_vals(cs@.take(i as int)),
        decreases cs.len() - i,
    {
        let ghost before = vals@;
        let v = char_val(cs[i]);
        vals.push(v);
        proof {
            lemma_models_push(before, v);
            assert(cs@.take(i + 1) =~= cs@.take(i as int).push(cs@[i as int]));
            lemma_char_vals_push(cs@.take(i as int), cs@[i as int]);
        }
        i += 1;
    }
    proof { assert(cs@.take(cs@.len() as int) =~= cs@); }
    stack.push(Datum::new(Val::List(List::from_vec(vals))));
    Ok(())
}

/// `string-length`: push the number of characters of the string on top.
pub fn string_length(stack: &mut Stack) -> (r: Result<(), OpError>)
    ensures
        (final(stack)@, op_result(r)) == peek_then(old(stack)@, ValKind::Str,
            |d: SDatum| push_bare(old(stack)@, SVal::Int(str_of(d).len() as i64 as int))),
        final(stack).log() is Some <==> old(stack).log() is Some,
        old(stack).log() is Some ==> final(stack).origin() == old(stack).origin(),
{
    let n = match stack.ref_at(0, ValKind::Str) {
        Ok(d) => match &d.value {
            Val::Str(s) => chars_of(s.as_str()).len(),
            _ => 0,
        },
        Err(e) => { return Err(OpError::Stack(e)); },
    };
    stack.push(Datum::new(Val::Int(n as i64)));
    Ok(())
}

/// The character that `string-get` picks out of `cs` at `idx`: counted
/// from the front for an index of 0 or more, from the back (`-1` is the
/// last) for a negative one.
pub open spec fn char_at_spec(cs: Seq<char>, idx: int) -> Result<char, SOpError> {
    let n = cs.len();
    if idx >= 0 {
        if idx < n {
            Ok(cs[idx])
        } else {
            Err(SOpError::OutOfRange(0, ((n - 1) as i64) as int, idx))
        }
    } else {
        if -idx <= n {
            Ok(cs[n + idx])
        } else {
            Err(SOpError::OutOfRange(-((n as i64) as int), (n as i64) - 1, idx))
        }
    }
}

/// The character of `cs` at `idx`, as `string-get` picks it.
fn char_at(cs: &Vec<char>, idx: i64) -> (r: Result<char, OpError>)
    requires
        idx != i64::MIN,
        idx >= 0 ==> cs@.len() > 0,
        idx < 0 && -idx > cs@.len() ==> (cs@.len() as i64) != i64::MIN,
    ensures
        match char_at_spec(cs@, idx as int) {
            Ok(c) => r == Ok::<char, OpError>(c),
            Err(e) => r matches Err(x) && x.model() == e,
        },
{
    let n = cs.len();
    if idx >= 0 {
        if (idx as u64) < (n as u64) {
            Ok(cs[idx as usize])
        } else {
            Err(OpError::OutOfRange(0, (n - 1) as i64, idx))
        }
    } else {
        let back: u64 = (-idx) as u64;
        if back <= (n as u64) {
            Ok(cs[n - back as usize])
        } else {
            let c: i64 = n as i64;
            Err(OpError::OutOfRange(-c, c - 1, idx))
        }
    }
}

/// Where `string-get` does not return: counting back from
/// `i64::MIN`, reporting an index into an empty string, or a string so
/// long that its length negated does not fit.
pub open spec fn string_get_fails(s: Seq<SDatum>) -> bool {
    s.len() >= 1 && s.last().value is Int && {
        let idx = int_of(s.last());
        ||| idx == i64::MIN
        ||| (s.len() >= 2 && at(s, 1).value is Str && {
            let n = str_of(at(s, 1)).len();
            ||| (idx >= 0 && n == 0)
            ||| (idx < 0 && -idx > n && (n as i64) == i64::MIN)
        })
    }
}

/// `string-get`: take an index off and push the character of the string
/// on top at it.
pub fn string_get(stack: &mut Stack) -> (r: Result<(), OpError>)
    requires !string_get_fails(old(stack)@),
    ensures
        (final(stack)@, op_result(r)) == pop_then(old(stack)@, ValKind::Int,
            |s1: Seq<SDatum>, n: SDatum| peek_then(s1, ValKind::Str,
                |d: SDatum| match char_at_spec(str_of(d), int_of(n)) {
                    Ok(c) => push_bare(s1, SVal::Char(c)),
                    Err(e) => (s1, Err(e)),
                })),
        final(stack).log() is Some <==> old(stack).log() is Some,
        old(stack).log() is Some ==> final(stack).origin() == old(stack).origin(),
{
    let nd = pop_kind(stack, ValKind::Int)?;
    let idx: i64 = match nd.value { Val::Int(n) => n, _ => 0 };
    let got: Result<char, OpError> = match stack.ref_at(0, ValKind::Str) {
        Ok(d) => match &d.value {
            Val::Str(s) => {
                let cs = chars_of(s.as_str());
                char_at(&cs, idx)
            },
            _ => Ok('\0'),
        },
        Err(e) => { return Err(OpError::Stack(e)); },
    };
    match got {
        Ok(c) => {
            stack.push(char_datum(c));
            Ok(())
        },
        Err(e) => Err(e),
    }
}

/// `string-append`: take a string off and append it to the string on top.
pub fn string_append(stack: &mut Stack) -> (r: Result<(), OpError>)
    ensures
        (final(stack)@, op_result(r)) == pop_then(old(stack)@, ValKind::Str,
            |s1: Seq<SDatum>, a: SDatum| edit_top_str(s1, |t: Seq<char>| t + str_of(a))),
        final(stack).log() is Some <==> old(stack).log() is Some,
{
    let a = pop_kind(stack, ValKind::Str)?;
    let top = match stack.top_mut(ValKind::Str) {
        Ok(t) => t,
        Err(e) => { return Err(OpError::Stack(e)); },
    };
    match (&mut top.value, &a.value) {
        (Val::Str(t), Val::Str(x)) => { push_str(t, x.as_str()); },
        _ => {},
    }
    Ok(())
}

/// What `string-push` does.
pub open spec fn string_push_spec(s: Seq<SDatum>) -> (Seq<SDatum>, Result<(), SOpError>) {
    pop_then(s, ValKind::Char, |s1: Seq<SDatum>, c: SDatum| edit_top_str(s1, |t: Seq<char>| t.push(char_of(c))))
}

/// `string-push`: take a character off and add it to the end of the
/// string on top.
pub fn string_push(stack: &mut Stack) -> (r: Result<(), OpError>)
    ensures
        (final(stack)@, op_result(r)) == string_push_spec(old(stack)@),
        final(stack).log() is Some <==> old(stack).log() is Some,
{
    let c = pop_kind(stack, ValKind::Char)?;
    let ch: char = match c.value { Val::Char(x) => x, _ => '\0' };
    let top = match stack.top_mut(ValKind::Str) {
        Ok(t) => t,
        Err(e) => { return Err(OpError::Stack(e)); },
    };
    match &mut top.value {
        Val::Str(t) => { push_char(t, ch); },
        _ => {},
    }
    Ok(())
}

/// What `string-pop` does: take the last character of the string on top
/// and push it, or push `#f` when the string is empty.
pub open spec fn string_pop_spec(s: Seq<SDatum>) -> (Seq<SDatum>, Result<(), SOpError>) {
    peek_then(s, ValKind::Str, |d: SDatum| {
        let t = str_of(d);
        if t.len() == 0 {
            push_bare(s, SVal::Bool(false))
        } else {
            push_bare(s.update(s.len() - 1, with_str(d, t.drop_last())), SVal::Char(t.last()))
        }
    })
}

/// Take the last character off the string in `d`.
fn pop_last_char(d: &mut Datum) -> (r: Option<char>)
    requires old(d).model().value is Str,
    ensures
        str_of(old(d).model()).len() == 0 ==> r is None && final(d).model() == old(d).model(),
        str_of(old(d).model()).len() > 0 ==> r == Some(str_of(old(d).model()).last())
            && final(d).model() == with_str(old(d).model(), str_of(old(d).model()).drop_last()),
{
    match &mut d.value {
        Val::Str(t) => pop_char(t),
        _ => None,
    }
}

/// `string-pop`: take the last character off the string on top and push
/// it; push `#f` if there is none.
pub fn string_pop(stack: &mut Stack) -> (r: Result<(), OpError>)
    ensures
        (final(stack)@, op_result(r)) == string_pop_spec(old(stack)@),
        final(stack).log() is Some <==> old(stack).log() is Some,
{
    let c = {
        let top = match stack.top_mut(ValKind::Str) {
            Ok(t) => t,
            Err(e) => { return Err(OpError::Stack(e)); },
        };
        pop_last_char(top)
    };
    match c {
        Some(c) => stack.push(char_datum(c)),
        None => stack.push(Datum::new(Val::Bool(false))),
    }
    Ok(())
}

/// What `string->u8vector` does.
pub open spec fn into_bytes_spec(s: Seq<SDatum>) -> (Seq<SDatum>, Result<(), SOpError>) {
    pop_then(s, ValKind::Str, |s1: Seq<SDatum>, d: SDatum| push_bare(s1, SVal::Bytes(encode_utf8(str_of(d)))))
}

/// `string->u8vector`: a string becomes its UTF-8 bytes.
pub fn string_into_u8vector(stack: &mut Stack) -> (r: Result<(), OpError>)
    ensures
        (final(stack)@, op_result(r)) == into_bytes_spec(old(stack)@),
        final(stack).log() is Some <==> old(stack).log() is Some,
        old(stack).log() is Some ==> final(stack).origin() == old(stack).origin(),
{
    let d = pop_kind(stack, ValKind::Str)?;
    let mut out: Vec<u8> = Vec::new();
    match &d.value {
        Val::Str(s) => {
            let b: &[u8] = s.as_str().as_bytes();
            let mut i: usize = 0;
            while i < b.len()
                invariant
                    i <= b@.len(),
                    out@ == b@.take(i as int),
                decreases b@.len() - i,
            {
                out.push(b[i]);
                i += 1;
                proof { assert(out@ =~= b@.take(i as int)); }
            }
            proof { assert(b@.take(b@.len() as int) =~= b@); }
        },
        _ => {},
    }
    stack.push(Datum::new(Val::Bytes(out)));
    Ok(())
}

/// `String::from_utf8`: the string whose UTF-8 encoding is the given
/// bytes, or an error when they are not UTF-8.
#[verifier::external_body]
fn string_from_utf8(bytes: Vec<u8>) -> (r: Option<String>)
    ensures
        r is Some <==> valid_utf8(bytes@),
        r matches Some(s) ==> s@ == decode_utf8(bytes@),
{
    String::from_utf8(bytes).ok()
}

/// What `u8vector->string` does.
pub open spec fn from_bytes_spec(s: Seq<SDatum>) -> (Seq<SDatum>, Result<(), SOpError>) {
    pop_then(s, ValKind::Bytes, |s1: Seq<SDatum>, d: SDatum| if valid_utf8(bytes_of(d)) {
        push_bare(s1, SVal::Str(decode_utf8(bytes_of(d))))
    } else {
        (s1, Err(SOpError::InvalidString))
    })
}

/// `u8vector->string`: UTF-8 bytes become a string.
pub fn u8vector_into_string(stack: &mut Stack) -> (r: Result<(), OpError>)
    ensures
        (final(stack)@, op_result(r)) == from_bytes_spec(old(stack)@),
        final(stack).log() is Some <==> old(stack).log() is Some,
        old(stack).log() is Some ==> final(stack).origin() == old(stack).origin(),
{
    let d = pop_kind(stack, ValKind::Bytes)?;
    let bytes = match d.value {
        Val::Bytes(b) => b,
        _ => Vec::new(),
    };
    match string_from_utf8(bytes) {
        Some(s) => {
            stack.push(Datum::new(Val::Str(s)));
            Ok(())
        },
        None => Err(OpError::InvalidString),
    }
}

/// `k` is the length of the longest prefix of `b` that is UTF-8.
pub open spec fn longest_valid_prefix(b: Seq<u8>, k: int) -> bool {
    &&& 0 <= k <= b.len()
    &&& valid_utf8(b.take(k))
    &&& forall|j: int| k < j <= b.len() ==> !valid_utf8(#[trigger] b.take(j))
}

/// There is one longest prefix that is UTF-8.
proof fn lemma_longest_valid_prefix_unique(b: Seq<u8>, k1: int, k2: int)
    requires longest_valid_prefix(b, k1), longest_valid_prefix(b, k2),
    ensures k1 == k2,
{
    if k1 < k2 {
        assert(!valid_utf8(b.take(k2)));
    } else if k2 < k1 {
        assert(!valid_utf8(b.take(k1)));
    }
}

/// The length of the longest prefix of `b` that is UTF-8.
pub open spec fn valid_prefix_len(b: Seq<u8>) -> int {
    choose|k: int| longest_valid_prefix(b, k)
}

/// `std::str::from_utf8`, keeping of its error only `valid_up_to`: `None`
/// when the bytes are UTF-8, else the length of the longest prefix that is.
#[verifier::external_body]
fn utf8_valid_up_to(bytes: &[u8]) -> (r: Option<usize>)
    ensures
        r is None <==> valid_utf8(bytes@),
        r matches Some(k) ==> longest_valid_prefix(bytes@, k as int),
{
    match std::str::from_utf8(bytes) {
        Ok(_) => None,
        Err(e) => Some(e.valid_up_to()),
    }
}

/// `u8vector-invalid-char-index`: push where the bytes on top stop being
/// UTF-8, or `#f` if they are UTF-8 throughout.
pub fn u8vector_invalid_char_index(stack: &mut Stack) -> (r: Result<(), OpError>)
    ensures
        (final(stack)@, op_result(r)) == peek_then(old(stack)@, ValKind::Bytes,
            |d: SDatum| if valid_utf8(bytes_of(d)) {
                push_bare(old(stack)@, SVal::Bool(false))
            } else {
                push_bare(old(stack)@, SVal::Int(valid_prefix_len(bytes_of(d)) as i64 as int))
            }),
        final(stack).log() is Some <==> old(stack).log() is Some,
        old(stack).log() is Some ==> final(stack).origin() == old(stack).origin(),
{
    let found = match stack.ref_at(0, ValKind::Bytes) {
        Ok(d) => match &d.value {
            Val::Bytes(b) => {
                let k = utf8_valid_up_to(b.as_slice());
                proof {
                    if let Some(k) = k {
                        lemma_longest_valid_prefix_unique(b@, k as int, valid_prefix_len(b@));
                    }
                }
                k
            },
            _ => None,
        },
        Err(e) => { return Err(OpError::Stack(e)); },
    };
    match found {
        Some(k) => stack.push(Datum::new(Val::Int(k as i64))),
        None => stack.push(Datum::new(Val::Bool(false))),
    }
    Ok(())
}

/// What `string-char-boundary?` does: with an index on top and a string
/// under it, push whether the index is a character boundary of the
/// string's bytes.
pub open spec fn char_boundary_spec(s: Seq<SDatum>) -> (Seq<SDatum>, Result<(), SOpError>) {
    peek_then(s, ValKind::Int, |nd: SDatum| {
        let n = int_of(nd);
        if n < 0 || n > usize::MAX {
            (s, Err(SOpError::BadCast(n)))
        } else if s.len() < 2 {
            (s, Err(SOpError::Empty))
        } else if !(at(s, 1).value is Str) {
            (s, Err(SOpError::WrongType(ValKind::Str, at(s, 1))))
        } else {
            push_bare(s, SVal::Bool(is_char_boundary(encode_utf8(str_of(at(s, 1))), n)))
        }
    })
}

/// `string-char-boundary?`: push whether the index on top falls on a
/// character boundary of the UTF-8 bytes of the string under it.
pub fn is_string_char_boundary(stack: &mut Stack) -> (r: Result<(), OpError>)
    ensures
        (final(stack)@, op_result(r)) == char_boundary_spec(old(stack)@),
        final(stack).log() is Some <==> old(stack).log() is Some,
        old(stack).log() is Some ==> final(stack).origin() == old(stack).origin(),
{
    let is_boundary = {
        let n: i64 = match stack.ref_at(0, ValKind::Int) {
            Ok(d) => match d.value { Val::Int(n) => n, _ => 0 },
            Err(e) => { return Err(OpError::Stack(e)); },
        };
        if n < 0 || (n as u64) > (usize::MAX as u64) {
            return Err(OpError::BadCast(n));
        }
        let idx = n as usize;
        match stack.ref_at(1, ValKind::Str) {
            Ok(d) => match &d.value {
                Val::Str(s) => s.as_str().is_char_boundary(idx),
                _ => false,
            },
            Err(e) => { return Err(OpError::Stack(e)); },
        }
    };
    stack.push(Datum::new(Val::Bool(is_boundary)));
    Ok(())
}

/// What `symbol->string` does.
pub open spec fn symbol_to_string_spec(s: Seq<SDatum>) -> (Seq<SDatum>, Result<(), SOpError>) {
    pop_then(s, ValKind::Symbol, |s1: Seq<SDatum>, d: SDatum| push_bare(s1, SVal::Str(name_of(d))))
}

/// `symbol->string`: a symbol becomes the string of its name.
pub fn symbol_into_string(stack: &mut Stack) -> (r: Result<(), OpError>)
    ensures
        (final(stack)@, op_result(r)) == symbol_to_string_spec(old(stack)@),
        final(stack).log() is Some <==> old(stack).log() is Some,
        old(stack).log() is Some ==> final(stack).origin() == old(stack).origin(),
{
    let d = pop_kind(stack, ValKind::Symbol)?;
    let s = match d.value {
        Val::Symbol(s) => s,
        _ => String::new(),
    };
    stack.push(Datum::new(Val::Str(s)));
    Ok(())
}

/// What `string->symbol` does.
pub open spec fn string_to_symbol_spec(s: Seq<SDatum>) -> (Seq<SDatum>, Result<(), SOpError>) {
    pop_then(s, ValKind::Str, |s1: Seq<SDatum>, d: SDatum| push_bare(s1, SVal::Symbol(str_of(d))))
}

/// `string->symbol`: a string becomes the symbol of that name.
pub fn string_into_symbol(stack: &mut Stack) -> (r: Result<(), OpError>)
    ensures
        (final(stack)@, op_result(r)) == string_to_symbol_spec(old(stack)@),
        final(stack).log() is Some <==> old(stack).log() is Some,
        old(stack).log() is Some ==> final(stack).origin() == old(stack).origin(),
{
    let d = pop_kind(stack, ValKind::Str)?;
    let s = match d.value {
        Val::Str(s) => s,
        _ => String::new(),
    };
    stack.push(Datum::new(Val::Symbol(s)));
    Ok(())
}

/// Turning a string into its bytes and the bytes back into a string gives
/// the string again (without its source).
pub proof fn law_bytes_round_trip(s: Seq<SDatum>)
    requires s.len() > 0, s.last().value is Str,
    ensures
        into_bytes_spec(s).1 is Ok,
        from_bytes_spec(into_bytes_spec(s).0) == (s.drop_last().push(bare(s.last().value)), Ok::<(), SOpError>(())),
{
    let cs = str_of(s.last());
    vstd::utf8::encode_utf8_valid_utf8(cs);
    vstd::utf8::encode_utf8_decode_utf8(cs);
    let s2 = into_bytes_spec(s).0;
    assert(s2 == s.drop_last().push(bare(SVal::Bytes(encode_utf8(cs)))));
    assert(s2.drop_last() == s.drop_last());
}

/// Turning a symbol into a string and the string back into a symbol gives
/// the symbol again (without its source).
pub proof fn law_symbol_round_trip(s: Seq<SDatum>)
    requires s.len() > 0, s.last().value is Symbol,
    ensures
        symbol_to_string_spec(s).1 is Ok,
        string_to_symbol_spec(symbol_to_string_spec(s).0) == (s.drop_last().push(bare(s.last().value)), Ok::<(), SOpError>(())),
{
    let s2 = symbol_to_string_spec(s).0;
    assert(s2.drop_last() == s.drop_last());
}

/// Pushing a character onto the string on top and popping it again gives
/// back the character, and leaves the string as it was.
pub proof fn law_push_then_pop(s: Seq<SDatum>)
    requires s.len() >= 2, s.last().value is Char, at(s, 1).value is Str,
    ensures
        string_push_spec(s).1 is Ok,
        string_pop_spec(string_push_spec(s).0) == (s.drop_last().push(bare(s.last().value)), Ok::<(), SOpError>(())),
{
    let s1 = s.drop_last();
    let t = str_of(s1.last());
    let s2 = string_push_spec(s).0;
    assert(s2 == s1.update(s1.len() - 1, with_str(s1.last(), t.push(char_of(s.last())))));
    assert(t.push(char_of(s.last())).drop_last() == t);
    assert(s2.update(s2.len() - 1, with_str(s2.last(), t)) == s1);
}

} // verus!
