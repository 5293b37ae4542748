//! The inference collaborator: how it is called and how its answer is read.
//!
//! The collaborator is a program outside this library. The host runs it
//! and hands back whether it exited in good order and what it wrote; this
//! module fixes the command line and turns the answer into a message.

use vstd::prelude::*;
use vstd::string::*;
use vstd::utf8::{decode_utf8, valid_utf8};

verus! {

/// The text that `String::from_utf8_lossy` makes of `bytes`: the text that
/// `bytes` encode, with a replacement character for each part that is not
/// UTF-8.
pub uninterp spec fn lossy_text(bytes: Seq<u8>) -> Seq<char>;

/// Runs `String::from_utf8_lossy` on `bytes` and takes the result as an
/// owned string.
///
/// Trusted: the result depends on `bytes` alone, and bytes that are valid
/// UTF-8 come back as the text they encode.
#[verifier::external_body]
pub(crate) fn decode_lossy(bytes: &[u8]) -> (s: String)
    ensures
        s@ == lossy_text(bytes@),
        valid_utf8(bytes@) ==> s@ == decode_utf8(bytes@),
{
    String::from_utf8_lossy(bytes).into_owned()
}

/// The message that the collaborator's answer becomes: what it wrote to its
/// output if it exited in good order, and what it wrote to its error stream
/// if not.
pub open spec fn reply_text(success: bool, stdout: Seq<u8>, stderr: Seq<u8>) -> Seq<char> {
    if success {
        lossy_text(stdout)
    } else {
        lossy_text(stderr)
    }
}

/// The name of the collaborator's program.
pub fn inference_program() -> (program: &'static str)
    ensures
        program@ == "ollama"@,
{
    "ollama"
}

/// The arguments with which the collaborator is run on `prompt`: the
/// subcommand, the model, and the prompt.
pub fn inference_arguments(prompt: &str) -> (args: Vec<String>)
    ensures
        args.deep_view() == seq!["run"@, "tinyllama"@, prompt@],
{
    let mut args: Vec<String> = Vec::new();
    args.push(String::from_str("run"));
    args.push(String::from_str("tinyllama"));
    args.push(String::from_str(prompt));
    assert(args.deep_view() =~= seq!["run"@, "tinyllama"@, prompt@]);
    args
}

/// Reads the collaborator's answer.
pub fn inference_reply(success: bool, stdout: &[u8], stderr: &[u8]) -> (reply: String)
    ensures
        reply@ == reply_text(success, stdout@, stderr@),
        success && valid_utf8(stdout@) ==> reply@ == decode_utf8(stdout@),
        !success && valid_utf8(stderr@) ==> reply@ == decode_utf8(stderr@),
{
    if success {
        decode_lossy(stdout)
    } else {
        decode_lossy(stderr)
    }
}

} // verus!
