//! What a model is shown of a program's output.
use crate::text;
use vstd::prelude::*;
use vstd::string::StringExecFns;

verus! {

/// The text, or nothing where it is blank.
pub open spec fn unless_blank(s: Seq<char>) -> Seq<char> {
    if text::is_blank(s) {
        Seq::empty()
    } else {
        s
    }
}

/// Both outputs of a program, each left out where it is blank.
pub open spec fn combined_output(stdout: Seq<char>, stderr: Seq<char>) -> Seq<char> {
    if text::is_blank(stderr) {
        unless_blank(stdout)
    } else if text::is_blank(stdout) {
        stderr
    } else {
        stdout + "\n"@ + stderr
    }
}

/// The exit status of a program; zero where it has none.
pub open spec fn status_number(code: Option<i32>) -> int {
    match code {
        Some(code) => code as int,
        None => 0,
    }
}

/// What a model is shown of a program's output. That there was none, and that
/// the program failed, is said in words.
pub open spec fn output_text(
    stdout: Seq<char>,
    stderr: Seq<char>,
    code: Option<i32>,
    success: bool,
) -> Seq<char> {
    let combined = combined_output(stdout, stderr);
    let body = if combined.len() == 0 {
        "(no output; command exited with status "@ + text::decimal_int(status_number(code))
            + ")"@
    } else {
        combined
    };
    if success {
        body
    } else {
        body + "\n(command exited with status "@ + text::decimal_int(status_number(code)) + ")"@
    }
}

/// What a model is shown of a program's output.
pub fn render_command_output(stdout: &str, stderr: &str, code: Option<i32>, success: bool) -> (r:
    String)
    ensures
        r@ == output_text(stdout@, stderr@, code, success),
{
    let status: i64 = match code {
        Some(code) => code as i64,
        None => 0,
    };
    let mut combined = String::new();
    if !text::blank(stdout) {
        combined = stdout.to_owned();
        proof {
            lemma_not_blank_is_not_empty(stdout@);
        }
    }
    if !text::blank(stderr) {
        if !combined.as_str().is_empty() {
            combined.append("\n");
            combined.append(stderr);
        } else {
            combined = stderr.to_owned();
        }
        proof {
            lemma_not_blank_is_not_empty(stderr@);
        }
    }
    assert(combined@ =~= combined_output(stdout@, stderr@));
    if combined.as_str().is_empty() {
        combined = "(no output; command exited with status ".to_owned();
        combined.append(&text::decimal_int_text(status));
        combined.append(")");
    }
    if !success {
        combined.append("\n(command exited with status ");
        combined.append(&text::decimal_int_text(status));
        combined.append(")");
    }
    combined
}

proof fn lemma_not_blank_is_not_empty(s: Seq<char>)
    requires
        !text::is_blank(s),
    ensures
        s.len() > 0,
{
}

/// What a model is shown of the bytes that a program wrote.
pub fn run_command_capture(
    stdout: &[u8],
    stderr: &[u8],
    code: Option<i32>,
    success: bool,
) -> (r: String)
    ensures
        r@ == output_text(text::utf8_lossy(stdout@), text::utf8_lossy(stderr@), code, success),
{
    render_command_output(&text::lossy_text(stdout), &text::lossy_text(stderr), code, success)
}

/// Whether the search program that reports this version can leave directories
/// out of a recursive search by their names.
pub fn prunes_directories(version: Option<&str>) -> (r: bool)
    ensures
        r == (version matches Some(version) && text::occurs(version@, "GNU grep"@)),
{
    match version {
        Some(version) => text::contains(version, "GNU grep"),
        None => false,
    }
}

/// A model is always shown something.
pub proof fn law_output_is_never_empty(
    stdout: Seq<char>,
    stderr: Seq<char>,
    code: Option<i32>,
    success: bool,
)
    ensures
        output_text(stdout, stderr, code, success).len() > 0,
{
    reveal_strlit(")");
}

/// Where a program succeeds, an output that is not blank is shown as it stands, and
/// both are shown as they stand where neither is blank, with a line feed between them.
pub proof fn law_output_is_shown_as_it_stands(
    stdout: Seq<char>,
    stderr: Seq<char>,
    code: Option<i32>,
)
    ensures
        !text::is_blank(stdout) && text::is_blank(stderr) ==> output_text(
            stdout,
            stderr,
            code,
            true,
        ) == stdout,
        text::is_blank(stdout) && !text::is_blank(stderr) ==> output_text(
            stdout,
            stderr,
            code,
            true,
        ) == stderr,
        !text::is_blank(stdout) && !text::is_blank(stderr) ==> output_text(
            stdout,
            stderr,
            code,
            true,
        ) == stdout + seq!['\n'] + stderr,
{
    reveal_strlit("\n");
    assert("\n"@ =~= seq!['\n']);
}

/// A failure adds nothing but a line with the status, which is zero where there is
/// none; silence is said in words, with the status.
pub proof fn law_failures_are_told_with_their_status(
    stdout: Seq<char>,
    stderr: Seq<char>,
    code: i32,
)
    ensures
        output_text(stdout, stderr, Some(code), false) == output_text(
            stdout,
            stderr,
            Some(code),
            true,
        ) + "\n(command exited with status "@ + text::decimal_int(code as int) + ")"@,
        output_text(stdout, stderr, None, false) == output_text(stdout, stderr, Some(0), false),
        text::is_blank(stdout) && text::is_blank(stderr) ==> output_text(
            stdout,
            stderr,
            Some(code),
            true,
        ) == "(no output; command exited with status "@ + text::decimal_int(code as int) + ")"@,
        code >= 0 ==> text::number_in(text::decimal_int(code as int)) == Some(code as nat),
        code < 0 ==> text::decimal_int(code as int).len() > 0 && text::decimal_int(
            code as int,
        )[0] == '-' && text::number_in(text::decimal_int(code as int).skip(1)) == Some(
            (-code) as nat,
        ),
{
    if code >= 0 {
        text::law_written_numbers_are_read_back(code as nat);
    } else {
        text::law_written_numbers_are_read_back((-code) as nat);
        assert(text::decimal_int(code as int).skip(1) =~= text::decimal((-code) as nat));
    }
}

} // verus!
