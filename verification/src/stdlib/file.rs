//! How a file is to be opened.

use vstd::prelude::*;
use crate::stdlib::port::{IsPort, Port, SPort};

verus! {

/// Options for opening a file. Which calls were made is all there is to
/// it; turning them into the host's open options happens where files are
/// opened.
#[derive(PartialEq, Eq, Structural, Clone, Copy, Debug, Hash)]
pub struct OpenFileOptions {
    pub read: bool,
    pub write: bool,
    pub append: bool,
    pub truncate: bool,
    pub create: bool,
    pub create_new: bool,
}

impl OpenFileOptions {
    /// No options set.
    pub fn new() -> (r: OpenFileOptions)
        ensures r == (OpenFileOptions { read: false, write: false, append: false, truncate: false, create: false, create_new: false }),
    {
        OpenFileOptions { read: false, write: false, append: false, truncate: false, create: false, create_new: false }
    }

    /// Open for reading.
    pub fn read(&mut self)
        ensures *final(self) == (OpenFileOptions { read: true, ..*old(self) }),
    {
        self.read = true;
    }

    /// Open for writing.
    pub fn write(&mut self)
        ensures *final(self) == (OpenFileOptions { write: true, ..*old(self) }),
    {
        self.write = true;
    }

    /// Open for appending, which is writing at the end.
    pub fn append(&mut self)
        ensures *final(self) == (OpenFileOptions { write: true, append: true, ..*old(self) }),
    {
        self.write = true;
        self.append = true;
    }

    /// Empty the file on opening.
    pub fn truncate(&mut self)
        ensures *final(self) == (OpenFileOptions { truncate: true, ..*old(self) }),
    {
        self.truncate = true;
    }

    /// Create the file if it is missing.
    pub fn create(&mut self)
        ensures *final(self) == (OpenFileOptions { create: true, ..*old(self) }),
    {
        self.create = true;
    }

    /// Create the file, failing if it exists.
    pub fn create_new(&mut self)
        ensures *final(self) == (OpenFileOptions { create_new: true, ..*old(self) }),
    {
        self.create_new = true;
    }
}

impl Default for OpenFileOptions {
    fn default() -> (r: OpenFileOptions)
        ensures r == (OpenFileOptions { read: false, write: false, append: false, truncate: false, create: false, create_new: false }),
    {
        OpenFileOptions::new()
    }
}

/// An open file, as the interpreter sees it: the options that it was
/// opened with. The file itself is held where files are opened.
#[derive(PartialEq, Eq, Structural, Clone, Copy, Debug)]
pub struct File {
    pub opts: OpenFileOptions,
}

impl File {
    /// A file opened with `opts`.
    pub fn opened_with(opts: OpenFileOptions) -> (r: File)
        ensures r.opts == opts,
    {
        File { opts }
    }

    /// A port on this file: readable and writable as it was opened,
    /// always seekable, of type `file-port`.
    pub fn port(&self) -> (r: Port)
        ensures
            r@ == (SPort { input: self.opts.read, output: self.opts.write, seekable: true, kind: "file-port"@ }),
    {
        let input = self.is_input();
        let output = self.is_output();
        let seekable = self.can_seek();
        let given = self.port_type();
        Port::from_answers(input, output, seekable, given)
    }
}

impl IsPort for File {
    open spec fn input_spec(&self) -> bool {
        self.opts.read
    }

    open spec fn output_spec(&self) -> bool {
        self.opts.write
    }

    open spec fn seek_spec(&self) -> bool {
        true
    }

    open spec fn type_spec(&self) -> Option<Seq<char>> {
        Some("file-port"@)
    }

    fn is_input(&self) -> (r: bool) {
        self.opts.read
    }

    fn is_output(&self) -> (r: bool) {
        self.opts.write
    }

    fn can_seek(&self) -> (r: bool) {
        true
    }

    fn port_type(&self) -> (r: Option<String>) {
        Some("file-port".to_string())
    }
}

} // verus!
