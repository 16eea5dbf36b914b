//! What the terminal tool reports: a redacted preview of the command, and
//! its output decoded and bounded in size.

use vstd::prelude::*;
use vstd::utf8::{decode_utf8, valid_utf8};
use crate::patterns::{regex_replace, regex_replace_all};
use crate::text::owned;

verus! {

/// Most bytes of standard output or error kept.
pub const MAX_OUTPUT_BYTES: usize = 1_000_000;

/// Assignments of API keys, tokens, passwords and secrets on a command line.
pub const COMMAND_SECRET_PATTERN: &'static str = r"(?i)(api.?key|token|password|secret)\s*[:=]\s*[^\s;]+";

/// What such an assignment is replaced by: the name, then `=[REDACTED]`.
pub const COMMAND_SECRET_REPLACEMENT: &'static str = "$1=[REDACTED]";

/// The result of running a command.
pub struct TerminalOutput {
    pub command_preview: String,
    pub exit_code: Option<i32>,
    pub stdout: String,
    pub stderr: String,
    pub timed_out: bool,
    pub cancelled: bool,
}

/// Name of the text that `String::from_utf8_lossy` makes of bytes: valid
/// UTF-8 decoded, each invalid sequence replaced by U+FFFD.
pub uninterp spec fn utf8_lossy(bytes: Seq<u8>) -> Seq<char>;

/// `String::from_utf8_lossy`. The contract names the text and states what
/// the documentation promises of valid UTF-8: it is decoded unchanged.
#[verifier::external_body]
pub(crate) fn lossy_text(bytes: &[u8]) -> (r: String)
    ensures
        r@ == utf8_lossy(bytes@),
        valid_utf8(bytes@) ==> r@ == decode_utf8(bytes@),
{
    String::from_utf8_lossy(bytes).into_owned()
}

/// The first bytes of an output, up to the limit.
pub open spec fn kept_bytes(bytes: Seq<u8>) -> Seq<u8> {
    if bytes.len() <= MAX_OUTPUT_BYTES {
        bytes
    } else {
        bytes.subrange(0, MAX_OUTPUT_BYTES as int)
    }
}

/// The text of at most the first mebibyte-sized prefix of an output.
pub fn bounded(bytes: &[u8]) -> (r: String)
    ensures
        r@ == utf8_lossy(kept_bytes(bytes@)),
{
    let n = if bytes.len() <= MAX_OUTPUT_BYTES {
        bytes.len()
    } else {
        MAX_OUTPUT_BYTES
    };
    let kept = vstd::slice::slice_subrange(bytes, 0, n);
    assert(bytes.len() <= MAX_OUTPUT_BYTES ==> bytes@.subrange(0, n as int) =~= bytes@);
    lossy_text(kept)
}

/// The preview of a command with its secret assignments hidden. Should the
/// pattern fail to compile, the whole command is hidden.
pub open spec fn command_preview(command: Seq<char>) -> Seq<char> {
    match regex_replace(COMMAND_SECRET_PATTERN@, command, COMMAND_SECRET_REPLACEMENT@) {
        Some(s) => s,
        None => "[REDACTED]"@,
    }
}

/// Hides the values of API keys, tokens, passwords and secrets in a command.
pub fn redact_command(command: &str) -> (r: String)
    ensures
        r@ == command_preview(command@),
{
    match regex_replace_all(COMMAND_SECRET_PATTERN, command, COMMAND_SECRET_REPLACEMENT) {
        Some(s) => s,
        None => owned("[REDACTED]"),
    }
}

/// The report of a command that was cancelled before it finished.
pub fn cancelled_output(command: &str) -> (r: TerminalOutput)
    ensures
        r.command_preview@ == command_preview(command@),
        r.exit_code is None,
        r.stdout@.len() == 0,
        r.stderr@.len() == 0,
        !r.timed_out,
        r.cancelled,
{
    TerminalOutput {
        command_preview: redact_command(command),
        exit_code: None,
        stdout: String::new(),
        stderr: String::new(),
        timed_out: false,
        cancelled: true,
    }
}

/// The report of a command that exceeded its timeout and was terminated.
pub fn timed_out_output(command: &str) -> (r: TerminalOutput)
    ensures
        r.command_preview@ == command_preview(command@),
        r.exit_code is None,
        r.stdout@.len() == 0,
        r.stderr@ == "Process exceeded its timeout and was terminated."@,
        r.timed_out,
        !r.cancelled,
{
    TerminalOutput {
        command_preview: redact_command(command),
        exit_code: None,
        stdout: String::new(),
        stderr: owned("Process exceeded its timeout and was terminated."),
        timed_out: true,
        cancelled: false,
    }
}

/// The report of a command that finished with the given exit code and output.
pub fn finished_output(command: &str, exit_code: Option<i32>, stdout: &[u8], stderr: &[u8]) -> (r: TerminalOutput)
    ensures
        r.command_preview@ == command_preview(command@),
        r.exit_code == exit_code,
        r.stdout@ == utf8_lossy(kept_bytes(stdout@)),
        r.stderr@ == utf8_lossy(kept_bytes(stderr@)),
        !r.timed_out,
        !r.cancelled,
{
    TerminalOutput {
        command_preview: redact_command(command),
        exit_code,
        stdout: bounded(stdout),
        stderr: bounded(stderr),
        timed_out: false,
        cancelled: false,
    }
}

} // verus!
