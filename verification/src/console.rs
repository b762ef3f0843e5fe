//! The terminal boundary: the few standard-input and standard-output
//! calls the machine needs, each behind a trusted wrapper.  Nothing is
//! promised of the byte a read hands back: the callers state what
//! holds whatever arrived.

use std::io::Write;
use vstd::prelude::*;

verus! {

/// Relies on std::io::Read::read_exact on standard input: `Some` holds
/// the one byte read; `None` means no byte could be read.
#[verifier::external_body]
pub(crate) fn read_byte_from_stdin() -> Option<u8> {
    let mut buffer = [0u8; 1];
    match std::io::Read::read_exact(&mut std::io::stdin(), &mut buffer) {
        Ok(()) => Some(buffer[0]),
        Err(_) => None,
    }
}

/// Relies on the write! macro over std::io::Stdout: prints the byte as
/// the character with that code.
#[verifier::external_body]
pub(crate) fn put_char_to_stdout(character: u8) {
    let _ = write!(std::io::stdout(), "{}", character as char);
}

/// Relies on the writeln! macro over std::io::Stdout: prints the text
/// and ends the line.
#[verifier::external_body]
pub(crate) fn write_line_to_stdout(text: &str) {
    let _ = writeln!(std::io::stdout(), "{}", text);
}

/// Relies on std::io::Write::flush on standard output: what was
/// printed is pushed out to the terminal.
#[verifier::external_body]
pub(crate) fn flush_stdout() {
    let _ = std::io::Write::flush(&mut std::io::stdout());
}

} // verus!
