//! Errors of the command wrapper, with rendered messages.

use vstd::prelude::*;
use crate::strutil::{dec_digits, str_to_chars, chars_to_string, chars_concat, u32_to_dec};

verus! {

/// Why executing a build-tool command failed.
#[derive(Debug, Clone)]
pub enum XmakeError {
    /// The command ran and exited unsuccessfully.
    ExecutionFailed { command: String, status_code: i32, stdout: String, stderr: String },
    /// An input/output error, carried as its message.
    IoError { message: String },
    /// The build tool was not found or is unavailable.
    XmakeNotFound,
    /// The configured working directory does not exist.
    InvalidWorkingDirectory { path: String },
    /// The command ran past its time budget.
    Timeout { command: String, timeout_secs: u64 },
    /// The version output could not be parsed.
    VersionParseError { version_str: String },
    /// Anything else.
    Other { message: String },
}

/// The decimal rendering of a signed code.
pub open spec fn spec_i32_dec(n: int) -> Seq<char> {
    if n < 0 {
        seq!['-'] + dec_digits((-n) as nat)
    } else {
        dec_digits(n as nat)
    }
}

/// The decimal rendering of a signed code.
pub fn i32_to_dec(n: i32) -> (r: Vec<char>)
    ensures
        r@ == spec_i32_dec(n as int),
{
    if n < 0 {
        let magnitude: u32 = (-(n as i64)) as u32;
        assert(magnitude as nat == (-(n as int)) as nat);
        let digits = u32_to_dec(magnitude);
        let mut out: Vec<char> = Vec::new();
        out.push('-');
        let r = chars_concat(&out, &digits);
        proof {
            assert(out@ =~= seq!['-']);
        }
        r
    } else {
        u32_to_dec(n as u32)
    }
}

impl XmakeError {
    /// The message shown for the error.
    pub open spec fn spec_message(self) -> Seq<char> {
        match self {
            XmakeError::ExecutionFailed { command, status_code, stderr, .. } => "Command '"@
                + command@ + "' failed with status code "@ + spec_i32_dec(status_code as int)
                + ": "@ + stderr@,
            XmakeError::IoError { message } => "IO error: "@ + message@,
            XmakeError::XmakeNotFound =>
                "xmake command not found. Please ensure xmake is installed and in PATH"@,
            XmakeError::InvalidWorkingDirectory { path } => "Invalid working directory: "@
                + path@,
            XmakeError::Timeout { command, timeout_secs } => "Command '"@ + command@
                + "' timed out after "@ + dec_digits(timeout_secs as nat) + " seconds"@,
            XmakeError::VersionParseError { version_str } =>
                "Failed to parse xmake version from string: "@ + version_str@,
            XmakeError::Other { message } => "Error: "@ + message@,
        }
    }

    /// The message shown for the error.
    pub fn message(&self) -> (r: String)
        ensures
            r@ == self.spec_message(),
    {
        match self {
            XmakeError::ExecutionFailed { command, status_code, stderr, .. } => {
                let mut v = str_to_chars("Command '");
                let c1 = str_to_chars(command.as_str());
                let v = chars_concat(&v, &c1);
                let c2 = str_to_chars("' failed with status code ");
                let v = chars_concat(&v, &c2);
                let c3 = i32_to_dec(*status_code);
                let v = chars_concat(&v, &c3);
                let c4 = str_to_chars(": ");
                let v = chars_concat(&v, &c4);
                let c5 = str_to_chars(stderr.as_str());
                let v = chars_concat(&v, &c5);
                chars_to_string(&v)
            },
            XmakeError::IoError { message } => {
                let v = str_to_chars("IO error: ");
                let c1 = str_to_chars(message.as_str());
                let v = chars_concat(&v, &c1);
                chars_to_string(&v)
            },
            XmakeError::XmakeNotFound => {
                let v = str_to_chars(
                    "xmake command not found. Please ensure xmake is installed and in PATH",
                );
                chars_to_string(&v)
            },
            XmakeError::InvalidWorkingDirectory { path } => {
                let v = str_to_chars("Invalid working directory: ");
                let c1 = str_to_chars(path.as_str());
                let v = chars_concat(&v, &c1);
                chars_to_string(&v)
            },
            XmakeError::Timeout { command, timeout_secs } => {
                let v = str_to_chars("Command '");
                let c1 = str_to_chars(command.as_str());
                let v = chars_concat(&v, &c1);
                let c2 = str_to_chars("' timed out after ");
                let v = chars_concat(&v, &c2);
                let c3 = u64_to_dec(*timeout_secs);
                let v = chars_concat(&v, &c3);
                let c4 = str_to_chars(" seconds");
                let v = chars_concat(&v, &c4);
                chars_to_string(&v)
            },
            XmakeError::VersionParseError { version_str } => {
                let v = str_to_chars("Failed to parse xmake version from string: ");
                let c1 = str_to_chars(version_str.as_str());
                let v = chars_concat(&v, &c1);
                chars_to_string(&v)
            },
            XmakeError::Other { message } => {
                let v = str_to_chars("Error: ");
                let c1 = str_to_chars(message.as_str());
                let v = chars_concat(&v, &c1);
                chars_to_string(&v)
            },
        }
    }
}

/// The decimal representation of a 64-bit number.
pub fn u64_to_dec(n: u64) -> (r: Vec<char>)
    ensures
        r@ == dec_digits(n as nat),
    decreases n,
{
    if n < 10 {
        let mut out: Vec<char> = Vec::new();
        out.push(crate::strutil::digit_to_char((n % 10) as u32));
        proof {
            assert(out@ =~= dec_digits(n as nat));
        }
        out
    } else {
        let mut out = u64_to_dec(n / 10);
        out.push(crate::strutil::digit_to_char((n % 10) as u32));
        out
    }
}

/// The result type of the command wrapper.
pub type XmakeResult<T> = Result<T, XmakeError>;

} // verus!
