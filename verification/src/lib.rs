//! The Worst programming language: values, readers, parsers and
//! interpreter state.

use vstd::prelude::*;

pub mod data;
pub mod list;
pub mod text;
pub mod numeric;
pub mod reader;
pub mod combo;
pub mod parser;
pub mod parser_ext;
pub mod parser_basic;
pub mod interpreter;
pub mod stdlib;
pub mod defset;
pub mod machine;

verus! {

/// An interpreter that runs the given prelude: the text of the prelude
/// file that ships with the language. The text must read without error.
pub fn embedded(prelude: &str) -> (r: machine::Interpreter)
    requires
        reader::read_all_spec(prelude@) is Ok,
    ensures
        r.model() == (machine::SInterp {
            frame: machine::SFrame {
                body: reader::read_all_spec(prelude@)->Ok_0,
                ..machine::empty_frame(Map::empty())
            },
            parents: Seq::empty(),
            stack: Seq::empty(),
            envs: Seq::empty(),
        }),
{
    match reader::read_all(prelude) {
        Ok(vals) => machine::Interpreter::new(list::List::from_vec(vals)),
        Err(_) => machine::Interpreter::new(list::List::new()),
    }
}

} // verus!
