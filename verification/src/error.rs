use vstd::prelude::*;

verus! {

/// The kind of an error that can occur while compiling or using a regex.
#[derive(Clone, Copy, Debug, PartialEq, Eq, Structural)]
pub enum ErrorKind {
    /// An error that occurred while compiling a regex.
    Compile,
    /// An error that occurred while JIT compiling a regex.
    JIT,
    /// An error that occurred while executing a regex.
    Match,
    /// An error that occurred while querying a compiled regex for info.
    Info,
    /// An error that occurred while setting an option.
    Option,
}

/// An error that can occur while compiling or using a regex.
///
/// `code` is the PCRE2 error code and `offset`, for compile errors, is the
/// byte offset in the pattern where the error was found.
#[derive(Clone, Copy, Debug, PartialEq, Eq, Structural)]
pub struct Error {
    kind: ErrorKind,
    code: i32,
    offset: Option<usize>,
}

impl Error {
    pub closed spec fn spec_kind(&self) -> ErrorKind {
        self.kind
    }

    pub closed spec fn spec_code(&self) -> i32 {
        self.code
    }

    pub closed spec fn spec_offset(&self) -> Option<usize> {
        self.offset
    }

    /// An error raised by PCRE2 when compiling a pattern, with the offset at
    /// which compilation failed.
    pub fn compile(code: i32, offset: usize) -> (e: Error)
        ensures
            e.spec_kind() == ErrorKind::Compile,
            e.spec_code() == code,
            e.spec_offset() == Some(offset),
    {
        Error { kind: ErrorKind::Compile, code, offset: Some(offset) }
    }

    /// An error raised by PCRE2's JIT compiler.
    pub fn jit(code: i32) -> (e: Error)
        ensures
            e.spec_kind() == ErrorKind::JIT,
            e.spec_code() == code,
            e.spec_offset() == None::<usize>,
    {
        Error { kind: ErrorKind::JIT, code, offset: None }
    }

    /// An error raised by PCRE2 while searching a subject.
    pub fn matching(code: i32) -> (e: Error)
        ensures
            e.spec_kind() == ErrorKind::Match,
            e.spec_code() == code,
            e.spec_offset() == None::<usize>,
    {
        Error { kind: ErrorKind::Match, code, offset: None }
    }

    /// An error raised while reading information about a compiled pattern.
    pub fn info(code: i32) -> (e: Error)
        ensures
            e.spec_kind() == ErrorKind::Info,
            e.spec_code() == code,
            e.spec_offset() == None::<usize>,
    {
        Error { kind: ErrorKind::Info, code, offset: None }
    }

    /// An error raised while setting an option.
    pub fn option(code: i32) -> (e: Error)
        ensures
            e.spec_kind() == ErrorKind::Option,
            e.spec_code() == code,
            e.spec_offset() == None::<usize>,
    {
        Error { kind: ErrorKind::Option, code, offset: None }
    }

    /// The kind of this error.
    pub fn kind(&self) -> (k: &ErrorKind)
        ensures
            *k == self.spec_kind(),
    {
        &self.kind
    }

    /// The PCRE2 error code of this error.
    pub fn code(&self) -> (c: i32)
        ensures
            c == self.spec_code(),
    {
        self.code
    }

    /// The offset in the pattern at which a compile error occurred, if any.
    pub fn offset(&self) -> (o: Option<usize>)
        ensures
            o == self.spec_offset(),
    {
        self.offset
    }
}

} // verus!
