//! Which of the standard streams lead to a terminal.
use vstd::prelude::*;

verus! {

/// A standard stream.
#[derive(Debug, Clone, Copy, PartialEq, Eq, Structural)]
pub enum Stream {
    Stdout,
    Stderr,
    Stdin,
}

/// Whether each of the standard streams leads to a terminal.
#[derive(Debug, Clone, Copy, PartialEq, Eq, Structural)]
pub struct Terminals {
    pub stdout: bool,
    pub stderr: bool,
    pub stdin: bool,
}

/// Tells whether a stream leads to a terminal.
pub fn is(stream: Stream, terminals: Terminals) -> (r: bool)
    ensures
        r == (match stream {
            Stream::Stdout => terminals.stdout,
            Stream::Stderr => terminals.stderr,
            Stream::Stdin => terminals.stdin,
        }),
{
    match stream {
        Stream::Stdout => terminals.stdout,
        Stream::Stderr => terminals.stderr,
        Stream::Stdin => terminals.stdin,
    }
}

} // verus!
