//! Ports: shared handles on things that can be read, written or sought.
//! The reading and writing happen where the host does its I/O; the library
//! keeps what the interpreter asks of a port.

use vstd::prelude::*;
use std::rc::Rc;

verus! {

/// Something that can stand behind a port: what it answers to the
/// questions the interpreter asks of a port.
pub trait IsPort {
    /// Whether it can be read from (by default, no).
    open spec fn input_spec(&self) -> bool {
        false
    }

    /// Whether it can be written to (by default, no).
    open spec fn output_spec(&self) -> bool {
        false
    }

    /// Whether its position can be moved (by default, no).
    open spec fn seek_spec(&self) -> bool {
        false
    }

    /// The name of its type, where it has one (by default, none).
    open spec fn type_spec(&self) -> Option<Seq<char>> {
        None
    }

    /// Can it be read from?
    fn is_input(&self) -> (r: bool)
        ensures r == self.input_spec();

    /// Can it be written to?
    fn is_output(&self) -> (r: bool)
        ensures r == self.output_spec();

    /// Can its position be moved?
    fn can_seek(&self) -> (r: bool)
        ensures r == self.seek_spec();

    /// The name of its type, where it has one.
    fn port_type(&self) -> (r: Option<String>)
        ensures given_type(r) == self.type_spec();
}

/// The standard streams of the process.
#[derive(PartialEq, Eq, Structural, Clone, Copy, Debug)]
pub enum StdStream {
    Stdin,
    Stdout,
    Stderr,
}

impl IsPort for StdStream {
    open spec fn input_spec(&self) -> bool {
        *self == StdStream::Stdin
    }

    open spec fn output_spec(&self) -> bool {
        *self != StdStream::Stdin
    }

    open spec fn seek_spec(&self) -> bool {
        false
    }

    open spec fn type_spec(&self) -> Option<Seq<char>> {
        Some(std_stream_type(*self))
    }

    fn is_input(&self) -> (r: bool) {
        match self {
            StdStream::Stdin => true,
            _ => false,
        }
    }

    fn is_output(&self) -> (r: bool) {
        match self {
            StdStream::Stdin => false,
            _ => true,
        }
    }

    fn can_seek(&self) -> (r: bool) {
        false
    }

    fn port_type(&self) -> (r: Option<String>) {
        match self {
            StdStream::Stdin => Some("stdin-port".to_string()),
            StdStream::Stdout => Some("stdout-port".to_string()),
            StdStream::Stderr => Some("stderr-port".to_string()),
        }
    }
}

/// The type name of a standard stream's port.
pub open spec fn std_stream_type(s: StdStream) -> Seq<char> {
    match s {
        StdStream::Stdin => "stdin-port"@,
        StdStream::Stdout => "stdout-port"@,
        StdStream::Stderr => "stderr-port"@,
    }
}

/// What a port answers.
pub struct PortInfo {
    pub input: bool,
    pub output: bool,
    pub seekable: bool,
    pub kind: String,
}

/// A port's answers, as values.
pub struct SPort {
    pub input: bool,
    pub output: bool,
    pub seekable: bool,
    pub kind: Seq<char>,
}

/// A port. Copies made by `clone` share the one port behind them.
pub struct Port {
    info: Rc<PortInfo>,
}

impl View for Port {
    type V = SPort;

    closed spec fn view(&self) -> SPort {
        SPort {
            input: self.info.input,
            output: self.info.output,
            seekable: self.info.seekable,
            kind: self.info.kind@,
        }
    }
}

/// The type name of a port whose thing gives `given`: that name, or else
/// `port`.
pub open spec fn port_kind_name(given: Option<Seq<char>>) -> Seq<char> {
    match given {
        Some(t) => t,
        None => "port"@,
    }
}

/// The type name given by an answer of `port_type`, as a value.
pub open spec fn given_type(given: Option<String>) -> Option<Seq<char>> {
    match given {
        Some(t) => Some(t@),
        None => None,
    }
}

impl Port {
    /// A port from the answers of the thing behind it.
    pub fn from_answers(input: bool, output: bool, seekable: bool, given: Option<String>) -> (r: Port)
        ensures
            r@ == (SPort { input, output, seekable, kind: port_kind_name(given_type(given)) }),
    {
        let kind = match given {
            Some(t) => t,
            None => "port".to_string(),
        };
        Port { info: Rc::new(PortInfo { input, output, seekable, kind }) }
    }

    /// A port for `the`, with what it answers.
    pub fn new<T: IsPort>(the: T) -> (r: Port)
        ensures
            r@ == (SPort {
                input: the.input_spec(),
                output: the.output_spec(),
                seekable: the.seek_spec(),
                kind: port_kind_name(the.type_spec()),
            }),
    {
        let input = the.is_input();
        let output = the.is_output();
        let seekable = the.can_seek();
        let given = the.port_type();
        Port::from_answers(input, output, seekable, given)
    }

    /// The standard input of the process.
    pub fn stdin() -> (r: Port)
        ensures
            r@ == (SPort { input: true, output: false, seekable: false, kind: "stdin-port"@ }),
    {
        Port::std_stream(StdStream::Stdin)
    }

    /// The standard output of the process.
    pub fn stdout() -> (r: Port)
        ensures
            r@ == (SPort { input: false, output: true, seekable: false, kind: "stdout-port"@ }),
    {
        Port::std_stream(StdStream::Stdout)
    }

    /// The standard error of the process.
    pub fn stderr() -> (r: Port)
        ensures
            r@ == (SPort { input: false, output: true, seekable: false, kind: "stderr-port"@ }),
    {
        Port::std_stream(StdStream::Stderr)
    }

    /// A port on one of the standard streams.
    pub fn std_stream(s: StdStream) -> (r: Port)
        ensures
            r@ == (SPort {
                input: s == StdStream::Stdin,
                output: s != StdStream::Stdin,
                seekable: false,
                kind: std_stream_type(s),
            }),
    {
        let input = s.is_input();
        let output = s.is_output();
        let seekable = s.can_seek();
        let given = s.port_type();
        Port::from_answers(input, output, seekable, given)
    }

    /// Can this port be read from?
    pub fn is_input(&self) -> (r: bool)
        ensures r == self@.input,
    {
        self.info.input
    }

    /// Can this port be written to?
    pub fn is_output(&self) -> (r: bool)
        ensures r == self@.output,
    {
        self.info.output
    }

    /// Can this port's position be moved?
    pub fn can_seek(&self) -> (r: bool)
        ensures r == self@.seekable,
    {
        self.info.seekable
    }

    /// The name of this port's type.
    pub fn type_of(&self) -> (r: &str)
        ensures r@ == self@.kind,
    {
        self.info.kind.as_str()
    }

    /// Whether this is the only handle on its port, computed as a count of
    /// zero handles: a live port always has itself, so this is never true.
    pub fn is_unique(&self) -> (r: bool)
        ensures !r,
    {
        rc_strong_count(&self.info) == 0
    }
}

impl Clone for Port {
    fn clone(&self) -> (r: Port)
        ensures r@ == self@,
    {
        Port { info: Rc::clone(&self.info) }
    }
}

/// `std::rc::Rc::strong_count`: the number of strong handles on the value,
/// of which the handle asked is one, so at least one.
#[verifier::external_body]
fn rc_strong_count<T>(rc: &Rc<T>) -> (r: usize)
    ensures r >= 1,
{
    Rc::strong_count(rc)
}

/// A port of the wrong kind for what was asked of it.
pub struct WrongPortType();

impl WrongPortType {
    /// `Wrong port type`.
    pub fn message(&self) -> (r: &'static str)
        ensures r@ == "Wrong port type"@,
    {
        "Wrong port type"
    }
}

} // verus!
