use vstd::prelude::*;

verus! {

/// Where a standard stream of a child process goes or comes from. A file is
/// named by its path; the captured output of an earlier child is kept as text.
#[derive(Clone, Debug)]
pub enum Stream {
    Inherit,
    Piped,
    File(String, FileOption),
    ChildStdout(String),
    Null,
}

/// How a file that receives output is opened.
#[derive(Clone, Copy, Debug, PartialEq, Eq, Structural)]
pub enum FileOption {
    Overwrite,
    Append,
}

impl Stream {
    /// A second value equal to this one.
    pub fn copy(&self) -> (s: Stream)
        ensures
            s == *self,
    {
        match self {
            Stream::Inherit => Stream::Inherit,
            Stream::Piped => Stream::Piped,
            Stream::File(p, o) => Stream::File(p.clone(), *o),
            Stream::ChildStdout(b) => Stream::ChildStdout(b.clone()),
            Stream::Null => Stream::Null,
        }
    }
}

/// A path that can receive a stream.
pub trait StreamFile: Sized {
    fn stream(self, option: FileOption) -> Stream;
}

impl StreamFile for String {
    /// The file at this path, opened as `option` says.
    fn stream(self, option: FileOption) -> (s: Stream)
        ensures
            s == Stream::File(self, option),
    {
        Stream::File(self, option)
    }
}

/// A source whose whole content becomes a stream.
pub trait StreamChildStdout {
    fn stream(&mut self) -> Stream;
}

} // verus!
