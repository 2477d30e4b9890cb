//! How the output of a finished fetch command is judged.
use vstd::prelude::*;
use vstd::string::*;

use crate::text::{is_blank, trim_seq, trim_text, lemma_trim_empty_iff_blank};

verus! {

/// Why a command produced no usable output.
#[derive(Clone, Copy, Debug, PartialEq, Eq, Structural)]
pub enum CmdError {
    /// The command ran past its time limit and was killed.
    Timeout,
    /// The command wrote to stderr (fetch scripts are silent on success).
    OutputInStderr,
    /// Stdout held nothing but whitespace.
    EmptyStdout,
    /// The command exited with a status other than zero.
    NonzeroStatus,
    /// The command could not be spawned or its output could not be read.
    Io,
}

impl CmdError {
    /// A short description of the error.
    pub fn message(&self) -> (r: String)
        ensures
            r@ == match self {
                CmdError::Timeout => "timeout"@,
                CmdError::OutputInStderr => "output in stderr"@,
                CmdError::EmptyStdout => "empty stdout"@,
                CmdError::NonzeroStatus => "nonzero status"@,
                CmdError::Io => "io error"@,
            },
    {
        match self {
            CmdError::Timeout => String::from_str("timeout"),
            CmdError::OutputInStderr => String::from_str("output in stderr"),
            CmdError::EmptyStdout => String::from_str("empty stdout"),
            CmdError::NonzeroStatus => String::from_str("nonzero status"),
            CmdError::Io => String::from_str("io error"),
        }
    }
}

/// What `String::from_utf8_lossy` makes of a byte string.
pub uninterp spec fn utf8_lossy(b: Seq<u8>) -> Seq<char>;

/// Relies on `String::from_utf8_lossy`: decodes the bytes, replacing invalid
/// sequences; the result depends on the bytes alone and no bytes give no text.
#[verifier::external_body]
fn decode_lossy(b: &[u8]) -> (r: String)
    ensures
        r@ == utf8_lossy(b@),
        b@.len() == 0 ==> r@.len() == 0,
{
    String::from_utf8_lossy(b).into_owned()
}

/// The verdict on a command's output, first matching rule first.
pub open spec fn verdict(timed_out: bool, out: Seq<u8>, err: Seq<u8>, code: Option<i32>) -> Option<
    CmdError,
> {
    if timed_out {
        Some(CmdError::Timeout)
    } else if err.len() > 0 {
        Some(CmdError::OutputInStderr)
    } else if is_blank(utf8_lossy(out)) {
        Some(CmdError::EmptyStdout)
    } else if code != Some(0i32) {
        Some(CmdError::NonzeroStatus)
    } else {
        None
    }
}

/// Classifies what a command left behind: whether it timed out, its stdout and
/// stderr bytes and its exit code (`None` when a signal ended it). On success
/// the result is stdout, decoded and trimmed.
pub fn classify_output(timed_out: bool, stdout: &[u8], stderr: &[u8], code: Option<i32>) -> (r:
    Result<String, CmdError>)
    ensures
        r.is_err() <==> verdict(timed_out, stdout@, stderr@, code).is_some(),
        r matches Err(e) ==> verdict(timed_out, stdout@, stderr@, code) == Some(e),
        r matches Ok(s) ==> s@ == trim_seq(utf8_lossy(stdout@)),
{
    if timed_out {
        return Err(CmdError::Timeout);
    }
    if stderr.len() > 0 {
        return Err(CmdError::OutputInStderr);
    }
    let out = decode_lossy(stdout);
    let trimmed = trim_text(out.as_str());
    proof {
        lemma_trim_empty_iff_blank(out@);
    }
    if trimmed.unicode_len() == 0 {
        return Err(CmdError::EmptyStdout);
    }
    match code {
        Some(c) => {
            if c != 0 {
                return Err(CmdError::NonzeroStatus);
            }
        },
        None => {
            return Err(CmdError::NonzeroStatus);
        },
    }
    Ok(trimmed)
}

} // verus!
