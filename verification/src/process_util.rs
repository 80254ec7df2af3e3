//! Decisions taken around running external programs: which file names to
//! look for, and how a finished or failed run is reported.
use vstd::prelude::*;
use crate::job_control::CANCELLED_BY_USER;
use crate::text::{
    eq_ignore_ascii_case, lower_seq, signed_decimal, str_eq, to_signed_decimal, trim, trim_seq,
};

verus! {

/// The file names under which an executable called `name` is looked for:
/// with `.exe` first on Windows, the bare name otherwise.
pub fn executable_candidates(name: &str, windows: bool) -> (r: Vec<String>)
    ensures
        windows ==> r@.len() == 2 && r@[0]@ == name@ + ".exe"@ && r@[1]@ == name@,
        !windows ==> r@.len() == 1 && r@[0]@ == name@,
{
    let mut r: Vec<String> = Vec::new();
    if windows {
        let mut exe = String::from_str(name);
        exe.append(".exe");
        r.push(exe);
    }
    r.push(String::from_str(name));
    r
}

/// A captured stream that says nothing: blank, `null` in any ASCII case, `{}` or `[]`
/// once trimmed.
pub open spec fn meaningless(s: Seq<char>) -> bool {
    let t = trim_seq(s);
    ||| t.len() == 0
    ||| lower_seq(t) == lower_seq("null"@)
    ||| t == "{}"@
    ||| t == "[]"@
}

/// Whether a captured stream says nothing.
pub fn is_meaningless_stream(s: &str) -> (r: bool)
    ensures
        r == meaningless(s@),
{
    let t = trim(s);
    t.unicode_len() == 0 || eq_ignore_ascii_case(t, "null") || str_eq(t, "{}") || str_eq(t, "[]")
}

/// The failure message for a run that ended unsuccessfully.
pub open spec fn failure_text(stderr: Seq<char>, stdout: Seq<char>, exit_code: Option<i32>) -> Seq<
    char,
> {
    let e = trim_seq(stderr);
    let o = trim_seq(stdout);
    if !meaningless(e) {
        "Command failed: "@ + e
    } else if !meaningless(o) {
        "Command failed: "@ + o
    } else {
        match exit_code {
            Some(code) => "Command failed with exit code "@ + signed_decimal(code as int),
            None => "Command failed"@,
        }
    }
}

/// Describes a failed run: the trimmed error stream when it says something,
/// else the trimmed output stream, else the exit code.
pub fn format_command_failure(stderr: &str, stdout: &str, exit_code: Option<i32>) -> (r: String)
    ensures
        r@ == failure_text(stderr@, stdout@, exit_code),
{
    let e = trim(stderr);
    if !is_meaningless_stream(e) {
        let mut r = String::from_str("Command failed: ");
        r.append(e);
        return r;
    }
    let o = trim(stdout);
    if !is_meaningless_stream(o) {
        let mut r = String::from_str("Command failed: ");
        r.append(o);
        return r;
    }
    match exit_code {
        Some(code) => {
            let mut r = String::from_str("Command failed with exit code ");
            let digits = to_signed_decimal(code as i64);
            r.append(digits.as_str());
            r
        },
        None => String::from_str("Command failed"),
    }
}

/// The result of a run that was waited for under job control: the cancellation
/// error if the job was cancelled, the captured output on success, the failure
/// message otherwise.
pub fn finish_command(
    cancelled: bool,
    success: bool,
    stdout: String,
    stderr: &str,
    exit_code: Option<i32>,
) -> (r: Result<String, String>)
    ensures
        cancelled ==> (r matches Err(e) && e@ == CANCELLED_BY_USER@),
        !cancelled && success ==> (r matches Ok(out) && out@ == stdout@),
        !cancelled && !success ==> (r matches Err(e) && e@ == failure_text(
            stderr@,
            stdout@,
            exit_code,
        )),
{
    if cancelled {
        Err(String::from_str(CANCELLED_BY_USER))
    } else if success {
        Ok(stdout)
    } else {
        Err(format_command_failure(stderr, stdout.as_str(), exit_code))
    }
}

/// How `{:?}` shows an optional exit code: `Some(code)` or `None`.
pub open spec fn debug_exit_code(exit_code: Option<i32>) -> Seq<char> {
    match exit_code {
        Some(code) => "Some("@ + signed_decimal(code as int) + ")"@,
        None => "None"@,
    }
}

/// Renders an optional exit code as `{:?}` does.
fn render_exit_code(exit_code: Option<i32>) -> (r: String)
    ensures
        r@ == debug_exit_code(exit_code),
{
    match exit_code {
        Some(code) => {
            let mut r = String::from_str("Some(");
            let digits = to_signed_decimal(code as i64);
            r.append(digits.as_str());
            r.append(")");
            r
        },
        None => String::from_str("None"),
    }
}

/// The result of a short run whose output was captured: the output on
/// success; otherwise the error stream when there is one, else the exit code
/// and the output.
pub fn finish_captured(success: bool, stdout: String, stderr: &str, exit_code: Option<i32>) -> (r:
    Result<String, String>)
    ensures
        success ==> (r matches Ok(out) && out@ == stdout@),
        !success && stderr@.len() == 0 ==> (r matches Err(e) && e@ == "Command failed (exit "@
            + debug_exit_code(exit_code) + "): "@ + stdout@),
        !success && stderr@.len() > 0 ==> (r matches Err(e) && e@ == "Command failed: "@ + stderr@),
{
    if success {
        Ok(stdout)
    } else if stderr.unicode_len() == 0 {
        let mut r = String::from_str("Command failed (exit ");
        let code = render_exit_code(exit_code);
        r.append(code.as_str());
        r.append("): ");
        r.append(stdout.as_str());
        Err(r)
    } else {
        let mut r = String::from_str("Command failed: ");
        r.append(stderr);
        Err(r)
    }
}

/// The result of a long run whose output was not captured.
pub fn finish_uncaptured(success: bool, exit_code: Option<i32>) -> (r: Result<(), String>)
    ensures
        success ==> r is Ok,
        !success ==> (r matches Err(e) && e@ == "Command failed with exit code "@ + debug_exit_code(
            exit_code,
        )),
{
    if success {
        Ok(())
    } else {
        let mut r = String::from_str("Command failed with exit code ");
        let code = render_exit_code(exit_code);
        r.append(code.as_str());
        Err(r)
    }
}

} // verus!
