//! Why an attempt at a request failed, and what that leaves to try.
use crate::json::{self, Json, JsonView};
use crate::providers::attempts::{self, AttemptFailure, AttemptView, FailureKind};
use crate::providers::status;
use crate::text;
use crate::wire;
use vstd::prelude::*;
use vstd::string::StringExecFns;

verus! {

/// The `error.message` of a parsed error body.
pub open spec fn message_in(body: JsonView) -> Option<Seq<char>> {
    json::str_in(json::get_in(body.get("error"@), "message"@))
}

/// What an error body says: its `error.message`, or the body itself where it has
/// none.
pub open spec fn error_message(parsed: Option<JsonView>, body: Seq<char>) -> Seq<char> {
    match parsed {
        Some(parsed) => match message_in(parsed) {
            Some(message) => message,
            None => text::trimmed(body),
        },
        None => text::trimmed(body),
    }
}

/// What an error body says, given what it parses to.
pub fn message_or_body(parsed: &Option<Json>, body: &str) -> (r: String)
    ensures
        r@ == error_message(
            match parsed {
                Some(parsed) => Some(parsed@),
                None => None,
            },
            body@,
        ),
{
    match parsed {
        Some(parsed) => match parsed.get2_str("error", "message") {
            Some(message) => message.to_owned(),
            None => text::trim(body).to_owned(),
        },
        None => text::trim(body).to_owned(),
    }
}

/// What an error body says: its `error.message`, or the body itself where it has
/// none.
pub fn api_error_message(body: &str) -> (r: String)
    ensures
        r@ == error_message(wire::json_parse(body@), body@),
{
    let parsed = wire::parse(body);
    message_or_body(&parsed, body)
}

/// Whether a text speaks of the account rather than the request.
pub open spec fn blames_account(s: Seq<char>) -> bool {
    let lowered = text::lowered(s);
    ||| text::occurs(lowered, "credit balance"@)
    ||| text::occurs(lowered, "billing"@)
    ||| text::occurs(lowered, "authentication"@)
    ||| text::occurs(lowered, "permission"@)
}

/// Whether a text speaks of the account rather than the request.
pub fn mentions_account_level_problem(s: &str) -> (r: bool)
    ensures
        r == blames_account(s@),
{
    let lowered = text::lower(s);
    text::contains(&lowered, "credit balance") || text::contains(&lowered, "billing")
        || text::contains(&lowered, "authentication") || text::contains(&lowered, "permission")
}

/// Whether a refused request is refused for the account's sake.
pub open spec fn refuses_account(status: u16, body: Seq<char>) -> bool {
    status == 401 || status == 403 || (status == 400 && blames_account(body))
}

/// Whether a refused request is refused for the account's sake.
pub fn is_account_level_failure(status: u16, body: &str) -> (r: bool)
    ensures
        r == refuses_account(status, body@),
{
    status == 401 || status == 403 || (status == 400 && mentions_account_level_problem(body))
}

/// The failure that an `error` event inside a stream stands for.
pub open spec fn stream_error(event: JsonView) -> AttemptView {
    let message = match message_in(event) {
        Some(message) => message,
        None => "stream terminated with an unspecified error"@,
    };
    let error_kind = match json::str_in(json::get_in(event.get("error"@), "type"@)) {
        Some(kind) => kind,
        None => ""@,
    };
    AttemptView {
        report: "Anthropic API ended the stream: "@ + message,
        kind: if blames_account(message) {
            FailureKind::Fatal
        } else if error_kind == "rate_limit_error"@ || error_kind == "overloaded_error"@
            || error_kind == "api_error"@ || text::occurs(text::lowered(message), "rate limit"@) {
            FailureKind::RateLimited
        } else {
            FailureKind::NextVariant
        },
        retry_after: None,
    }
}

/// Classifies an `error` event delivered *inside* a successful response: the
/// balance can hit zero after the response headers are sent, so a healthy status
/// says nothing about whether the turn will finish.
pub fn classify_stream_error_event(event: &Json) -> (r: AttemptFailure)
    ensures
        r@ == stream_error(event@),
{
    let message = match event.get2_str("error", "message") {
        Some(message) => message,
        None => "stream terminated with an unspecified error",
    };
    let error_kind = match event.get2_str("error", "type") {
        Some(kind) => kind,
        None => "",
    };
    let kind = if mentions_account_level_problem(message) {
        FailureKind::Fatal
    } else if text::same(error_kind, "rate_limit_error") || text::same(
        error_kind,
        "overloaded_error",
    ) || text::same(error_kind, "api_error") || text::contains(
        &text::lower(message),
        "rate limit",
    ) {
        FailureKind::RateLimited
    } else {
        FailureKind::NextVariant
    };
    AttemptFailure {
        report: "Anthropic API ended the stream: ".to_owned().concat(message),
        kind,
        retry_after: None,
    }
}

/// The failure that a refused request stands for. `message` is what the body
/// says, `named` how the status is written.
pub open spec fn request_failure(
    label: Seq<char>,
    status: u16,
    named: Seq<char>,
    message: Seq<char>,
    body: Seq<char>,
    retry_after: Option<u64>,
) -> AttemptView {
    if refuses_account(status, body) {
        AttemptView {
            report: "Anthropic API rejected the request ("@ + named + "): "@ + message,
            kind: FailureKind::Fatal,
            retry_after: None,
        }
    } else if status == 429 || 500 <= status < 600 {
        AttemptView {
            report: "Anthropic API is throttling or unavailable ("@ + named + "): "@ + message,
            kind: FailureKind::RateLimited,
            retry_after,
        }
    } else {
        attempts::plain_failure(label + " failed with status "@ + named + ": "@ + body)
    }
}

/// The failure that a refused request stands for, given what its body says and
/// how its status is written.
pub fn describe_request_failure(
    label: &str,
    status: u16,
    named: &str,
    message: &str,
    body: &str,
    retry_after: Option<u64>,
) -> (r: AttemptFailure)
    ensures
        r@ == request_failure(label@, status, named@, message@, body@, retry_after),
{
    if is_account_level_failure(status, body) {
        let mut report = "Anthropic API rejected the request (".to_owned();
        report.append(named);
        report.append("): ");
        report.append(message);
        return AttemptFailure { report, kind: FailureKind::Fatal, retry_after: None };
    }
    if status == 429 || (500 <= status && status < 600) {
        let mut report = "Anthropic API is throttling or unavailable (".to_owned();
        report.append(named);
        report.append("): ");
        report.append(message);
        return AttemptFailure { report, kind: FailureKind::RateLimited, retry_after };
    }
    let mut report = label.to_owned();
    report.append(" failed with status ");
    report.append(named);
    report.append(": ");
    report.append(body);
    AttemptFailure::from(report)
}

/// Classifies a refused request. Throttling and server errors are timing
/// problems, not payload problems.
pub fn classify_request_failure(
    label: &str,
    status: u16,
    body: &str,
    retry_after: Option<u64>,
) -> (r: AttemptFailure)
    requires
        100 <= status <= 999,
    ensures
        r@ == request_failure(
            label@,
            status,
            status::status_text(status),
            error_message(wire::json_parse(body@), body@),
            body@,
            retry_after,
        ),
{
    describe_request_failure(
        label,
        status,
        &status::render_status(status),
        &api_error_message(body),
        body,
        retry_after,
    )
}

/// `reqwest`'s map of headers: those of a response.
#[verifier::external_type_specification]
#[verifier::external_body]
#[verifier::reject_recursive_types(T)]
pub struct ExHeaderMap<T>(reqwest::header::HeaderMap<T>);

/// `reqwest`'s header value, which the map of headers holds.
#[verifier::external_type_specification]
#[verifier::external_body]
pub struct ExHeaderValue(reqwest::header::HeaderValue);

/// The headers that are visible ASCII text: their names in lower case, each with
/// its first value.
pub uninterp spec fn header_texts(
    headers: reqwest::header::HeaderMap<reqwest::header::HeaderValue>,
) -> Map<Seq<char>, Seq<char>>;

/// `reqwest::header::HeaderMap::get` for `retry-after`, with its result as the
/// text that `HeaderValue::to_str` gives: the first value of that header, unless
/// there is none or it is not visible ASCII text.
#[verifier::external_body]
fn retry_after_text(
    headers: &reqwest::header::HeaderMap<reqwest::header::HeaderValue>,
) -> (r: Option<String>)
    ensures
        text::opt_text(r) == header_texts(*headers).get("retry-after"@),
{
    headers.get(reqwest::header::RETRY_AFTER)?.to_str().ok().map(|value| value.to_string())
}

/// The seconds that the value of a `retry-after` header asks to wait. A date is
/// not understood.
pub open spec fn wait_in(value: Seq<char>) -> Option<u64> {
    match text::number_in(text::trimmed(value)) {
        Some(n) => if n <= u64::MAX {
            Some(n as u64)
        } else {
            None
        },
        None => None,
    }
}

/// The seconds that the value of a `retry-after` header asks to wait.
pub fn retry_after_seconds(value: &str) -> (r: Option<u64>)
    ensures
        r == wait_in(value@),
{
    text::parse_u64(text::trim(value))
}

/// Reads the `retry-after` header, which the API sends in seconds.
pub fn parse_retry_after(
    headers: &reqwest::header::HeaderMap<reqwest::header::HeaderValue>,
) -> (r: Option<u64>)
    ensures
        r == match header_texts(*headers).get("retry-after"@) {
            Some(value) => wait_in(value),
            None => None,
        },
{
    match retry_after_text(headers) {
        Some(value) => retry_after_seconds(&value),
        None => None,
    }
}

/// What an error body says is the message under its error, as it stands; a body
/// without one is shown itself.
pub proof fn law_errors_say_their_message(
    parsed: JsonView,
    error: JsonView,
    message: Seq<char>,
    body: Seq<char>,
)
    ensures
        parsed.get("error"@) == Some(error) && error.get("message"@) == Some(JsonView::Text(message))
            ==> error_message(Some(parsed), body) == message,
        parsed.get("error"@) is None ==> error_message(Some(parsed), body) == text::trimmed(body),
        error_message(None, body) == text::trimmed(body),
{
}

/// What is left to try after a refusal goes by its status: nothing after one of the
/// account, the same payload after a wait where the service is busy or down, and
/// another payload otherwise.
pub proof fn law_refusals_are_told_apart_by_status(
    label: Seq<char>,
    status: u16,
    named: Seq<char>,
    message: Seq<char>,
    body: Seq<char>,
    retry_after: Option<u64>,
)
    ensures
        ({
            let failure = request_failure(label, status, named, message, body, retry_after);
            &&& failure.kind == FailureKind::Fatal <==> status == 401 || status == 403 || (status
                == 400 && blames_account(body))
            &&& failure.kind == FailureKind::RateLimited <==> status == 429 || 500 <= status <= 599
            &&& failure.retry_after == if status == 429 || 500 <= status <= 599 {
                retry_after
            } else {
                None
            }
        }),
{
}

/// The report of a refusal names the status and ends with what the service says, or
/// with its body where another payload may work.
pub proof fn law_refusals_report_what_the_service_says(
    label: Seq<char>,
    status: u16,
    named: Seq<char>,
    message: Seq<char>,
    body: Seq<char>,
    retry_after: Option<u64>,
)
    ensures
        ({
            let failure = request_failure(label, status, named, message, body, retry_after);
            &&& failure.kind != FailureKind::NextVariant ==> text::ends_with(
                failure.report,
                " ("@ + named + "): "@ + message,
            )
            &&& failure.kind == FailureKind::NextVariant ==> failure.report == label
                + " failed with status "@ + named + ": "@ + body
        }),
{
    let failure = request_failure(label, status, named, message, body, retry_after);
    reveal_strlit("Anthropic API rejected the request (");
    reveal_strlit("Anthropic API is throttling or unavailable (");
    reveal_strlit(" (");
    let tail = " ("@ + named + "): "@ + message;
    let rejected = "Anthropic API rejected the request ("@;
    let busy = "Anthropic API is throttling or unavailable ("@;
    assert(rejected.skip(34) =~= " ("@);
    assert(busy.skip(42) =~= " ("@);
    let report = failure.report;
    let from = report.len() - tail.len();
    if failure.kind == FailureKind::Fatal {
        assert(report.subrange(from, report.len() as int) =~= rejected.skip(34) + named + "): "@
            + message);
    } else if failure.kind == FailureKind::RateLimited {
        assert(report.subrange(from, report.len() as int) =~= busy.skip(42) + named + "): "@
            + message);
    }
}

/// A text speaks of the account where it holds one of four expressions, in any case
/// of letters and with anything around them.
pub proof fn law_account_problems_are_told_by_their_words(s: Seq<char>)
    ensures
        blames_account(s) <==> text::occurs(text::lowered(s), "credit balance"@) || text::occurs(
            text::lowered(s),
            "billing"@,
        ) || text::occurs(text::lowered(s), "authentication"@) || text::occurs(
            text::lowered(s),
            "permission"@,
        ),
{
}

/// An error inside a stream is reported with its message, as it stands, and is told
/// apart by what it says: of the account, of the service being busy, or of neither.
pub proof fn law_stream_errors_are_told_apart(
    event: JsonView,
    error: JsonView,
    message: Seq<char>,
    kind: Seq<char>,
)
    requires
        event.get("error"@) == Some(error),
        error.get("message"@) == Some(JsonView::Text(message)),
        error.get("type"@) == Some(JsonView::Text(kind)),
    ensures
        ({
            let busy = kind == "rate_limit_error"@ || kind == "overloaded_error"@ || kind
                == "api_error"@ || text::occurs(text::lowered(message), "rate limit"@);
            let failure = stream_error(event);
            &&& failure.report == "Anthropic API ended the stream: "@ + message
            &&& failure.kind == FailureKind::Fatal <==> blames_account(message)
            &&& failure.kind == FailureKind::RateLimited <==> !blames_account(message) && busy
            &&& failure.retry_after is None
        }),
{
}

/// A wait is read as the number of seconds that is written, padded or not; anything
/// else names no wait.
pub proof fn law_waits_are_read_as_written(value: Seq<char>, n: nat)
    ensures
        n <= u64::MAX && text::trimmed(value) == text::decimal(n) ==> wait_in(value) == Some(
            n as u64,
        ),
        text::number_in(text::trimmed(value)) is None ==> wait_in(value) is None,
{
    text::law_written_numbers_are_read_back(n);
}

} // verus!
