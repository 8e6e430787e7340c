//! A supervised gateway for an interactive, line-oriented external program.
//!
//! The external program speaks no structured protocol: responses are plain
//! text, and one response ends where the program prints its interactive
//! prompt.  The heart of the library is therefore prompt-delimited framing
//! (`framing`): deciding, line by line, where one response ends and the next
//! begins, while tolerating end-of-stream and prompt text glued to the tail
//! of a response line.  The `gateway` module gives the handle its explicit
//! lifecycle and the closed set of error kinds.
//!
//! All process and pipe I/O stays outside the library: callers read lines
//! from the child's output and hand them in as plain byte vectors, and take
//! encoded command lines back to write.

pub mod framing;
pub mod gateway;
