//! What a finished child process leaves behind.

use vstd::prelude::*;
use vstd::utf8::{decode_utf8, valid_utf8};

verus! {

/// The outcome of one run of a command: whether it exited with status zero, and the bytes
/// it wrote to its two output streams.
#[derive(Debug)]
pub struct ProcessOutput {
    pub success: bool,
    pub stdout: Vec<u8>,
    pub stderr: Vec<u8>,
}

impl Clone for ProcessOutput {
    fn clone(&self) -> (copy: ProcessOutput)
        ensures
            copy.success == self.success,
            copy.stdout@ == self.stdout@,
            copy.stderr@ == self.stderr@,
    {
        ProcessOutput {
            success: self.success,
            stdout: self.stdout.clone(),
            stderr: self.stderr.clone(),
        }
    }
}

/// What `String::from_utf8_lossy` makes of bytes that are not well-formed UTF-8: their
/// text with U+FFFD in place of every ill-formed part.
pub uninterp spec fn utf8_lossy(bytes: Seq<u8>) -> Seq<char>;

/// The text of `bytes`: what they encode where they are well-formed UTF-8, otherwise
/// what a lossy decoding makes of them.
pub open spec fn lossy_text(bytes: Seq<u8>) -> Seq<char> {
    if valid_utf8(bytes) {
        decode_utf8(bytes)
    } else {
        utf8_lossy(bytes)
    }
}

/// Decodes `bytes` with `String::from_utf8_lossy`.
///
/// Trusted: well-formed UTF-8 is decoded as it stands, and of other bytes the result is
/// a function of the bytes alone, named [`utf8_lossy`]. How ill-formed parts are
/// replaced is not stated.
#[verifier::external_body]
pub(crate) fn decode_lossy(bytes: &[u8]) -> (text: String)
    ensures
        valid_utf8(bytes@) ==> text@ == decode_utf8(bytes@),
        !valid_utf8(bytes@) ==> text@ == utf8_lossy(bytes@),
{
    String::from_utf8_lossy(bytes).into_owned()
}

} // verus!
