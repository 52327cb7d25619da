//! What a model's reply asks for.
use crate::agent::structured;
use crate::json::{self, Json, JsonView};
use crate::text;
use crate::wire;
use vstd::prelude::*;
use vstd::string::StringExecFns;
use vstd::string::StrSliceExecFns;

verus! {

/// Lines of context around a match where a request names no number.
pub const DEFAULT_CONTEXT_LINES: usize = 2;

/// The most lines of context that a request gets.
pub const MAX_CONTEXT_LINES: usize = 20;

/// What a model wants to read.
#[derive(Debug, Clone)]
pub enum ReadRequest {
    ReadFile { path: String },
    Grep { pattern: String, path: String, context_lines: usize },
    ListDir { path: String },
    FindFiles { path: String, glob: Option<String> },
}

/// What a read request says.
pub enum RequestView {
    ReadFile { path: Seq<char> },
    Grep { pattern: Seq<char>, path: Seq<char>, context_lines: usize },
    ListDir { path: Seq<char> },
    FindFiles { path: Seq<char>, glob: Option<Seq<char>> },
}

impl View for ReadRequest {
    type V = RequestView;

    open spec fn view(&self) -> RequestView {
        match self {
            ReadRequest::ReadFile { path } => RequestView::ReadFile { path: path@ },
            ReadRequest::Grep { pattern, path, context_lines } => RequestView::Grep {
                pattern: pattern@,
                path: path@,
                context_lines: *context_lines,
            },
            ReadRequest::ListDir { path } => RequestView::ListDir { path: path@ },
            ReadRequest::FindFiles { path, glob } => RequestView::FindFiles {
                path: path@,
                glob: text::opt_text(*glob),
            },
        }
    }
}

/// A reply: the final answer, or a wish to read something first.
#[derive(Debug)]
pub enum AgentAction {
    Final(Json),
    ReadRequest(ReadRequest),
}

/// What a reply says.
pub enum ActionView {
    Final(JsonView),
    ReadRequest(RequestView),
}

impl View for AgentAction {
    type V = ActionView;

    open spec fn view(&self) -> ActionView {
        match self {
            AgentAction::Final(payload) => ActionView::Final(payload@),
            AgentAction::ReadRequest(request) => ActionView::ReadRequest(request@),
        }
    }
}

/// The fields of a request as they stand in its payload.
struct RawReadRequest {
    action: Option<String>,
    path: Option<String>,
    pattern: Option<String>,
    context_lines: Option<usize>,
    glob: Option<String>,
}

/// What the fields of a request say.
pub struct RawView {
    pub action: Option<Seq<char>>,
    pub path: Option<Seq<char>>,
    pub pattern: Option<Seq<char>>,
    pub context_lines: Option<usize>,
    pub glob: Option<Seq<char>>,
}

impl View for RawReadRequest {
    type V = RawView;

    closed spec fn view(&self) -> RawView {
        RawView {
            action: text::opt_text(self.action),
            path: text::opt_text(self.path),
            pattern: text::opt_text(self.pattern),
            context_lines: self.context_lines,
            glob: text::opt_text(self.glob),
        }
    }
}

/// An optional text field: absent, null or a text; nothing where it is anything
/// else.
pub open spec fn text_field(value: Option<JsonView>) -> Option<Option<Seq<char>>> {
    match value {
        None => Some(None),
        Some(JsonView::Null) => Some(None),
        Some(JsonView::Text(text)) => Some(Some(text)),
        Some(_) => None,
    }
}

/// An optional count field: absent, null or a number that fits; nothing where it
/// is anything else.
pub open spec fn count_field(value: Option<JsonView>) -> Option<Option<usize>> {
    match value {
        None => Some(None),
        Some(JsonView::Null) => Some(None),
        Some(JsonView::Int(n)) => if 0 <= n <= usize::MAX {
            Some(Some(n as usize))
        } else {
            None
        },
        Some(_) => None,
    }
}

/// The fields of a request, where each of them has its kind.
pub open spec fn raw_fields(
    action: Option<JsonView>,
    path: Option<JsonView>,
    pattern: Option<JsonView>,
    context_lines: Option<JsonView>,
    glob: Option<JsonView>,
) -> Option<RawView> {
    match (
        text_field(action),
        text_field(path),
        text_field(pattern),
        count_field(context_lines),
        text_field(glob),
    ) {
        (Some(action), Some(path), Some(pattern), Some(context_lines), Some(glob)) => Some(
            RawView { action, path, pattern, context_lines, glob },
        ),
        _ => None,
    }
}

/// The fields of a request in a payload: the members of an object by their
/// names, or the five items of an array in their order.
pub open spec fn raw_request(payload: JsonView) -> Option<RawView> {
    match payload {
        JsonView::Object(_) => raw_fields(
            payload.get("action"@),
            payload.get("path"@),
            payload.get("pattern"@),
            payload.get("context_lines"@),
            payload.get("glob"@),
        ),
        JsonView::Array(items) => if items.len() == 5 {
            raw_fields(Some(items[0]), Some(items[1]), Some(items[2]), Some(items[3]), Some(items[4]))
        } else {
            None
        },
        _ => None,
    }
}

/// The path of a request, which is the project itself where it names none.
pub open spec fn path_or_root(path: Option<Seq<char>>) -> Seq<char> {
    match path {
        Some(path) => path,
        None => "."@,
    }
}

/// The number of context lines that a request gets.
pub open spec fn granted_context(wanted: Option<usize>) -> usize {
    match wanted {
        Some(n) => if n < MAX_CONTEXT_LINES {
            n
        } else {
            MAX_CONTEXT_LINES
        },
        None => DEFAULT_CONTEXT_LINES,
    }
}

/// Whether a payload without an action is an answer all the same.
pub open spec fn is_bare_answer(payload: JsonView) -> bool {
    json::str_in(payload.get("action"@)) is None && (payload.get("findings"@) is Some
        || payload.get("status"@) is Some)
}

/// What a payload asks for, or the complaint about it.
pub open spec fn action_in(payload: JsonView) -> Result<ActionView, Seq<char>> {
    if is_bare_answer(payload) {
        Ok(ActionView::Final(payload))
    } else {
        match raw_request(payload) {
            None => Err("Invalid agent action payload"@),
            Some(raw) => {
                let action = match raw.action {
                    Some(action) => action,
                    None => "final"@,
                };
                if action == "final"@ {
                    Ok(ActionView::Final(payload))
                } else if action == "read_file"@ {
                    Ok(
                        ActionView::ReadRequest(
                            RequestView::ReadFile { path: path_or_root(raw.path) },
                        ),
                    )
                } else if action == "grep"@ {
                    Ok(
                        ActionView::ReadRequest(
                            RequestView::Grep {
                                pattern: match raw.pattern {
                                    Some(pattern) => pattern,
                                    None => Seq::empty(),
                                },
                                path: path_or_root(raw.path),
                                context_lines: granted_context(raw.context_lines),
                            },
                        ),
                    )
                } else if action == "list_dir"@ {
                    Ok(
                        ActionView::ReadRequest(
                            RequestView::ListDir { path: path_or_root(raw.path) },
                        ),
                    )
                } else if action == "find_files"@ {
                    Ok(
                        ActionView::ReadRequest(
                            RequestView::FindFiles {
                                path: path_or_root(raw.path),
                                glob: raw.glob,
                            },
                        ),
                    )
                } else {
                    Err("Unsupported agent action '"@ + action + "'"@)
                }
            },
        }
    }
}

/// What a reply asks for, or the complaint about it.
pub open spec fn action_of(content: Seq<char>) -> Result<ActionView, Seq<char>> {
    match structured::first_parsed(structured::candidates(content)) {
        Some(payload) => action_in(payload),
        None => Err(structured::not_json_message(content)),
    }
}

/// What a result of reading a reply says.
pub open spec fn result_view(r: Result<AgentAction, String>) -> Result<ActionView, Seq<char>> {
    match r {
        Ok(action) => Ok(action@),
        Err(message) => Err(message@),
    }
}

fn read_text_field(value: Option<&Json>) -> (r: Option<Option<String>>)
    ensures
        text_field(json::opt_view(value)) == match r {
            Some(field) => Some(text::opt_text(field)),
            None => None,
        },
{
    match value {
        None => Some(None),
        Some(value) => match value {
            Json::Null => Some(None),
            Json::Text(text) => Some(Some(text.clone())),
            _ => None,
        },
    }
}

fn read_count_field(value: Option<&Json>) -> (r: Option<Option<usize>>)
    ensures
        r == count_field(json::opt_view(value)),
{
    match value {
        None => Some(None),
        Some(value) => match value {
            Json::Null => Some(None),
            _ => match value.as_u64() {
                Some(n) => if n <= usize::MAX as u64 {
                    Some(Some(n as usize))
                } else {
                    None
                },
                None => None,
            },
        },
    }
}

fn read_raw_fields(
    action: Option<&Json>,
    path: Option<&Json>,
    pattern: Option<&Json>,
    context_lines: Option<&Json>,
    glob: Option<&Json>,
) -> (r: Option<RawReadRequest>)
    ensures
        raw_fields(
            json::opt_view(action),
            json::opt_view(path),
            json::opt_view(pattern),
            json::opt_view(context_lines),
            json::opt_view(glob),
        ) == match r {
            Some(raw) => Some(raw@),
            None => None,
        },
{
    match (
        read_text_field(action),
        read_text_field(path),
        read_text_field(pattern),
        read_count_field(context_lines),
        read_text_field(glob),
    ) {
        (Some(action), Some(path), Some(pattern), Some(context_lines), Some(glob)) => Some(
            RawReadRequest { action, path, pattern, context_lines, glob },
        ),
        _ => None,
    }
}

fn read_raw_request(payload: &Json) -> (r: Option<RawReadRequest>)
    ensures
        raw_request(payload@) == match r {
            Some(raw) => Some(raw@),
            None => None,
        },
{
    match payload {
        Json::Object(_) => read_raw_fields(
            payload.get("action"),
            payload.get("path"),
            payload.get("pattern"),
            payload.get("context_lines"),
            payload.get("glob"),
        ),
        Json::Array(items) => {
            proof {
                json::lemma_views_of(items@);
            }
            if items.len() == 5 {
                read_raw_fields(
                    Some(&items[0]),
                    Some(&items[1]),
                    Some(&items[2]),
                    Some(&items[3]),
                    Some(&items[4]),
                )
            } else {
                None
            }
        },
        _ => None,
    }
}

fn root_unless_named(path: Option<String>) -> (r: String)
    ensures
        r@ == path_or_root(text::opt_text(path)),
{
    match path {
        Some(path) => path,
        None => ".".to_owned(),
    }
}

/// What a payload asks for, or the complaint about it.
pub fn classify_payload(payload: Json) -> (r: Result<AgentAction, String>)
    ensures
        result_view(r) == action_in(payload@),
{
    let bare = payload.get_str("action").is_none() && (payload.get("findings").is_some()
        || payload.get("status").is_some());
    if bare {
        return Ok(AgentAction::Final(payload));
    }
    let raw = match read_raw_request(&payload) {
        Some(raw) => raw,
        None => {
            return Err("Invalid agent action payload".to_owned());
        },
    };
    let action = match raw.action {
        Some(action) => action,
        None => "final".to_owned(),
    };
    if text::same(&action, "final") {
        Ok(AgentAction::Final(payload))
    } else if text::same(&action, "read_file") {
        Ok(AgentAction::ReadRequest(ReadRequest::ReadFile { path: root_unless_named(raw.path) }))
    } else if text::same(&action, "grep") {
        let context_lines = match raw.context_lines {
            Some(n) => if n < MAX_CONTEXT_LINES {
                n
            } else {
                MAX_CONTEXT_LINES
            },
            None => DEFAULT_CONTEXT_LINES,
        };
        let pattern = match raw.pattern {
            Some(pattern) => pattern,
            None => String::new(),
        };
        Ok(
            AgentAction::ReadRequest(
                ReadRequest::Grep { pattern, path: root_unless_named(raw.path), context_lines },
            ),
        )
    } else if text::same(&action, "list_dir") {
        Ok(AgentAction::ReadRequest(ReadRequest::ListDir { path: root_unless_named(raw.path) }))
    } else if text::same(&action, "find_files") {
        Ok(
            AgentAction::ReadRequest(
                ReadRequest::FindFiles { path: root_unless_named(raw.path), glob: raw.glob },
            ),
        )
    } else {
        let mut message = "Unsupported agent action '".to_owned();
        message.append(&action);
        message.append("'");
        Err(message)
    }
}

/// What a reply asks for, or the complaint about it.
pub fn parse_agent_action(content: &str) -> (r: Result<AgentAction, String>)
    ensures
        result_view(r) == action_of(content@),
{
    match structured::parse_structured_content(content) {
        Ok(payload) => classify_payload(payload),
        Err(message) => Err(message),
    }
}

pub open spec fn glob_or_star(glob: Option<Seq<char>>) -> Seq<char> {
    match glob {
        Some(glob) => glob,
        None => "*"@,
    }
}

/// The request in one line, as the model and the log are shown it.
pub open spec fn summary_of(request: RequestView) -> Seq<char> {
    match request {
        RequestView::ReadFile { path } => "read_file "@ + path,
        RequestView::Grep { pattern, path, context_lines } => "grep pattern='"@ + pattern
            + "' path="@ + path + " context_lines="@ + text::decimal(context_lines as nat),
        RequestView::ListDir { path } => "list_dir "@ + path,
        RequestView::FindFiles { path, glob } => "find_files path="@ + path + " glob="@
            + glob_or_star(glob),
    }
}

/// The request in plain words, as the log shows it.
pub open spec fn description_of(request: RequestView) -> Seq<char> {
    match request {
        RequestView::ReadFile { path } => "read file '"@ + path + "'"@,
        RequestView::Grep { pattern, path, context_lines } => "search '"@ + pattern + "' in '"@
            + path + "' ("@ + text::decimal(context_lines as nat) + " context lines)"@,
        RequestView::ListDir { path } => "list directory '"@ + path + "'"@,
        RequestView::FindFiles { path, glob } => "find files in '"@ + path + "' with glob '"@
            + glob_or_star(glob) + "'"@,
    }
}

/// What the log shows of the output of a request: of a file only its length.
pub open spec fn logged_output(request: RequestView, output: Seq<char>) -> Seq<char> {
    match request {
        RequestView::ReadFile { path } => "📄 File '"@ + path
            + "' read (content hidden in logs, "@ + text::decimal(output.len()) + " chars)"@,
        _ => output,
    }
}

fn star_unless_named(glob: &Option<String>) -> (r: String)
    ensures
        r@ == glob_or_star(text::opt_text(*glob)),
{
    match glob {
        Some(glob) => glob.clone(),
        None => "*".to_owned(),
    }
}

/// The request in one line.
pub fn summarize_read_request(request: &ReadRequest) -> (r: String)
    ensures
        r@ == summary_of(request@),
{
    match request {
        ReadRequest::ReadFile { path } => "read_file ".to_owned().concat(path),
        ReadRequest::Grep { pattern, path, context_lines } => {
            let mut r = "grep pattern='".to_owned();
            r.append(pattern);
            r.append("' path=");
            r.append(path);
            r.append(" context_lines=");
            r.append(&text::decimal_text(*context_lines as u64));
            r
        },
        ReadRequest::ListDir { path } => "list_dir ".to_owned().concat(path),
        ReadRequest::FindFiles { path, glob } => {
            let mut r = "find_files path=".to_owned();
            r.append(path);
            r.append(" glob=");
            r.append(&star_unless_named(glob));
            r
        },
    }
}

/// The request in plain words.
pub fn describe_read_request_friendly(request: &ReadRequest) -> (r: String)
    ensures
        r@ == description_of(request@),
{
    match request {
        ReadRequest::ReadFile { path } => "read file '".to_owned().concat(path).concat("'"),
        ReadRequest::Grep { pattern, path, context_lines } => {
            let mut r = "search '".to_owned();
            r.append(pattern);
            r.append("' in '");
            r.append(path);
            r.append("' (");
            r.append(&text::decimal_text(*context_lines as u64));
            r.append(" context lines)");
            r
        },
        ReadRequest::ListDir { path } => "list directory '".to_owned().concat(path).concat("'"),
        ReadRequest::FindFiles { path, glob } => {
            let mut r = "find files in '".to_owned();
            r.append(path);
            r.append("' with glob '");
            r.append(&star_unless_named(glob));
            r.append("'");
            r
        },
    }
}

/// What the log shows of the output of a request.
pub fn render_tool_output_for_log(request: &ReadRequest, output: &str) -> (r: String)
    ensures
        r@ == logged_output(request@, output@),
{
    match request {
        ReadRequest::ReadFile { path } => {
            let mut r = "📄 File '".to_owned();
            r.append(path);
            r.append("' read (content hidden in logs, ");
            r.append(&text::decimal_text(output.unicode_len() as u64));
            r.append(" chars)");
            r
        },
        _ => output.to_owned(),
    }
}

/// A request never gets more context than the most that there is.
pub proof fn law_context_is_capped(payload: JsonView)
    ensures
        action_in(payload) matches Ok(ActionView::ReadRequest(RequestView::Grep {
            context_lines,
            ..
        })) ==> context_lines <= MAX_CONTEXT_LINES,
{
}

/// A payload that names no action and has the shape of an answer is the answer,
/// unchanged.
pub proof fn law_bare_answer_is_final(payload: JsonView)
    requires
        payload.get("action"@) is None,
        payload.get("findings"@) is Some || payload.get("status"@) is Some,
    ensures
        action_in(payload) == Ok::<ActionView, Seq<char>>(ActionView::Final(payload)),
{
}

/// The log never shows what a file holds: two files of the same length are
/// logged alike.
pub proof fn law_file_content_stays_out_of_the_log(
    path: Seq<char>,
    output: Seq<char>,
    other: Seq<char>,
)
    requires
        output.len() == other.len(),
    ensures
        logged_output(RequestView::ReadFile { path }, output) == logged_output(
            RequestView::ReadFile { path },
            other,
        ),
{
}

/// Whether a member is there as a text, or is absent or null.
pub open spec fn is_text_or_absent(value: Option<JsonView>) -> bool {
    value is None || value == Some(JsonView::Null) || value->0 is Text
}

/// Whether a member is there as a number of lines, or is absent or null.
pub open spec fn is_count_or_absent(value: Option<JsonView>) -> bool {
    value is None || value == Some(JsonView::Null) || (value->0 matches JsonView::Int(n) && 0 <= n
        <= usize::MAX)
}

/// Whether the payload is an object in which each field of a request that is there
/// has its kind.
pub open spec fn has_request_fields(payload: JsonView) -> bool {
    &&& payload is Object
    &&& is_text_or_absent(payload.get("path"@))
    &&& is_text_or_absent(payload.get("pattern"@))
    &&& is_text_or_absent(payload.get("glob"@))
    &&& is_count_or_absent(payload.get("context_lines"@))
}

/// Whether the payload names this path: as a text, or the project itself where it
/// names none.
pub open spec fn is_path_in(payload: JsonView, path: Seq<char>) -> bool {
    payload.get("path"@) == Some(JsonView::Text(path)) || ((payload.get("path"@) is None
        || payload.get("path"@) == Some(JsonView::Null)) && path == "."@)
}

proof fn lemma_actions_differ()
    ensures
        "final"@ != "read_file"@,
        "final"@ != "grep"@,
        "final"@ != "list_dir"@,
        "final"@ != "find_files"@,
        "read_file"@ != "grep"@,
        "read_file"@ != "list_dir"@,
        "read_file"@ != "find_files"@,
        "grep"@ != "list_dir"@,
        "grep"@ != "find_files"@,
        "list_dir"@ != "find_files"@,
{
    reveal_strlit("final");
    reveal_strlit("read_file");
    reveal_strlit("grep");
    reveal_strlit("list_dir");
    reveal_strlit("find_files");
    assert("final"@.len() == 5 && "read_file"@.len() == 9 && "grep"@.len() == 4);
    assert("list_dir"@.len() == 8 && "find_files"@.len() == 10);
}

/// A request to read a file or to list a directory names the path that the payload
/// names, unchanged.
pub proof fn law_reads_and_listings_name_the_path_asked_for(payload: JsonView, path: Seq<char>)
    requires
        has_request_fields(payload),
        is_path_in(payload, path),
    ensures
        payload.get("action"@) == Some(JsonView::Text("read_file"@)) ==> action_in(payload) == Ok::<
            ActionView,
            Seq<char>,
        >(ActionView::ReadRequest(RequestView::ReadFile { path })),
        payload.get("action"@) == Some(JsonView::Text("list_dir"@)) ==> action_in(payload) == Ok::<
            ActionView,
            Seq<char>,
        >(ActionView::ReadRequest(RequestView::ListDir { path })),
{
    lemma_actions_differ();
}

/// A search names the pattern and the path that the payload names, unchanged, and
/// gets the context that it asks for: two lines where it asks for none, and never
/// more than twenty.
pub proof fn law_searches_name_what_is_asked_for(
    payload: JsonView,
    path: Seq<char>,
    pattern: Seq<char>,
    context: int,
)
    requires
        has_request_fields(payload),
        payload.get("action"@) == Some(JsonView::Text("grep"@)),
        is_path_in(payload, path),
        payload.get("pattern"@) == Some(JsonView::Text(pattern)) || (!(payload.get(
            "pattern"@,
        ) matches Some(JsonView::Text(_))) && pattern == Seq::<char>::empty()),
        match payload.get("context_lines"@) {
            Some(JsonView::Int(n)) => context == if n > 20 {
                20
            } else {
                n
            },
            _ => context == 2,
        },
    ensures
        action_in(payload) == Ok::<ActionView, Seq<char>>(
            ActionView::ReadRequest(
                RequestView::Grep { pattern, path, context_lines: context as usize },
            ),
        ),
        0 <= context <= 20,
{
    lemma_actions_differ();
}

/// A request for files names the path and the glob that the payload names,
/// unchanged, and no glob where it names none.
pub proof fn law_file_requests_name_what_is_asked_for(
    payload: JsonView,
    path: Seq<char>,
    glob: Seq<char>,
)
    requires
        has_request_fields(payload),
        payload.get("action"@) == Some(JsonView::Text("find_files"@)),
        is_path_in(payload, path),
    ensures
        payload.get("glob"@) == Some(JsonView::Text(glob)) ==> action_in(payload) == Ok::<
            ActionView,
            Seq<char>,
        >(ActionView::ReadRequest(RequestView::FindFiles { path, glob: Some(glob) })),
        !(payload.get("glob"@) matches Some(JsonView::Text(_))) ==> action_in(payload) == Ok::<
            ActionView,
            Seq<char>,
        >(ActionView::ReadRequest(RequestView::FindFiles { path, glob: None })),
{
    lemma_actions_differ();
}

/// A request for the project itself comes only of a payload that names it, or that
/// names no path.
pub proof fn law_the_project_is_read_only_where_asked_for(payload: JsonView)
    requires
        payload is Object,
        payload.get("path"@) matches Some(JsonView::Text(path)) && path != "."@,
    ensures
        action_in(payload) matches Ok(ActionView::ReadRequest(request)) ==> match request {
            RequestView::ReadFile { path } => path != "."@,
            RequestView::Grep { path, .. } => path != "."@,
            RequestView::ListDir { path } => path != "."@,
            RequestView::FindFiles { path, .. } => path != "."@,
        },
{
}

/// A payload that says that it is final is the answer, unchanged; so is one that
/// says nothing of its kind.
pub proof fn law_final_answers_are_handed_on(payload: JsonView)
    requires
        has_request_fields(payload),
        payload.get("action"@) == Some(JsonView::Text("final"@)) || payload.get("action"@) is None
            || payload.get("action"@) == Some(JsonView::Null),
    ensures
        action_in(payload) == Ok::<ActionView, Seq<char>>(ActionView::Final(payload)),
{
    lemma_actions_differ();
}

/// A payload with the shape of an answer is the answer where its action is no text,
/// whatever else it holds.
pub proof fn law_answers_need_no_action(payload: JsonView)
    requires
        !(payload.get("action"@) matches Some(JsonView::Text(_))),
        payload.get("findings"@) is Some || payload.get("status"@) is Some,
    ensures
        action_in(payload) == Ok::<ActionView, Seq<char>>(ActionView::Final(payload)),
{
}

/// An action that is none of the five is refused by its name.
pub proof fn law_unknown_actions_are_refused(payload: JsonView, action: Seq<char>)
    requires
        has_request_fields(payload),
        payload.get("action"@) == Some(JsonView::Text(action)),
        action != "final"@ && action != "read_file"@ && action != "grep"@ && action != "list_dir"@
            && action != "find_files"@,
    ensures
        action_in(payload) == Err::<ActionView, Seq<char>>(
            "Unsupported agent action '"@ + action + "'"@,
        ),
{
}

/// A payload that is no answer by its shape is refused where a field of it has
/// another kind than it should, or where it is neither an object nor an array.
pub proof fn law_misshapen_payloads_are_refused(payload: JsonView)
    requires
        payload.get("findings"@) is None && payload.get("status"@) is None || payload.get(
            "action"@,
        ) matches Some(JsonView::Text(_)),
        !(payload is Array),
        !has_request_fields(payload) || !is_text_or_absent(payload.get("action"@)),
    ensures
        action_in(payload) == Err::<ActionView, Seq<char>>("Invalid agent action payload"@),
{
}

/// The five fields of a request may come in a row: action, path, pattern, context
/// and glob. A row asks for what the object with these members asks for.
pub proof fn law_rows_of_fields_are_read_in_order(items: Seq<JsonView>, payload: JsonView)
    requires
        items.len() == 5,
        payload is Object,
        payload.get("action"@) == Some(items[0]),
        payload.get("path"@) == Some(items[1]),
        payload.get("pattern"@) == Some(items[2]),
        payload.get("context_lines"@) == Some(items[3]),
        payload.get("glob"@) == Some(items[4]),
        items[0] is Text,
    ensures
        action_in(payload) matches Ok(ActionView::ReadRequest(request)) ==> action_in(
            JsonView::Array(items),
        ) == Ok::<ActionView, Seq<char>>(ActionView::ReadRequest(request)),
        action_in(payload) is Err ==> action_in(JsonView::Array(items)) == action_in(payload),
{
}

/// The line that stands for a request names what it asks for.
pub proof fn law_summaries_name_what_is_asked_for(
    path: Seq<char>,
    pattern: Seq<char>,
    context_lines: usize,
    glob: Seq<char>,
)
    ensures
        summary_of(RequestView::ReadFile { path }) == "read_file "@ + path,
        summary_of(RequestView::ListDir { path }) == "list_dir "@ + path,
        text::starts_with(
            summary_of(RequestView::Grep { pattern, path, context_lines }),
            "grep pattern='"@ + pattern + "' path="@ + path,
        ),
        text::ends_with(
            summary_of(RequestView::Grep { pattern, path, context_lines }),
            " context_lines="@ + text::decimal(context_lines as nat),
        ),
        text::starts_with(
            summary_of(RequestView::FindFiles { path, glob: Some(glob) }),
            "find_files path="@ + path,
        ),
        text::ends_with(
            summary_of(RequestView::FindFiles { path, glob: Some(glob) }),
            " glob="@ + glob,
        ),
        text::ends_with(summary_of(RequestView::FindFiles { path, glob: None }), " glob=*"@),
{
    let search = summary_of(RequestView::Grep { pattern, path, context_lines });
    let head = "grep pattern='"@ + pattern + "' path="@ + path;
    let tail = " context_lines="@ + text::decimal(context_lines as nat);
    assert(search =~= head + tail);
    assert(search.subrange(0, head.len() as int) =~= head);
    assert(search.subrange(search.len() - tail.len(), search.len() as int) =~= tail);
    let named = summary_of(RequestView::FindFiles { path, glob: Some(glob) });
    let start = "find_files path="@ + path;
    let end = " glob="@ + glob;
    assert(named =~= start + end);
    assert(named.subrange(0, start.len() as int) =~= start);
    assert(named.subrange(named.len() - end.len(), named.len() as int) =~= end);
    reveal_strlit(" glob=");
    reveal_strlit("*");
    reveal_strlit(" glob=*");
    let any = summary_of(RequestView::FindFiles { path, glob: None });
    assert(" glob=*"@ =~= " glob="@ + "*"@);
    assert(any =~= start + " glob=*"@);
    assert(any.subrange(any.len() - " glob=*"@.len(), any.len() as int) =~= " glob=*"@);
}

/// The log shows the output of a request as it is, but for that of a file, of which
/// it shows the path and the number of characters.
pub proof fn law_the_log_shows_other_output_whole(request: RequestView, output: Seq<char>)
    ensures
        !(request is ReadFile) ==> logged_output(request, output) == output,
        request matches RequestView::ReadFile { path } ==> text::occurs(
            logged_output(request, output),
            "'"@ + path + "'"@,
        ) && text::occurs(
            logged_output(request, output),
            " "@ + text::decimal(output.len()) + " chars)"@,
        ),
{
    if let RequestView::ReadFile { path } = request {
        let logged = logged_output(request, output);
        reveal_strlit("📄 File '");
        reveal_strlit("' read (content hidden in logs, ");
        reveal_strlit(" chars)");
        reveal_strlit("'");
        reveal_strlit(" ");
        let named = "'"@ + path + "'"@;
        let counted = " "@ + text::decimal(output.len()) + " chars)"@;
        let head = "📄 File '"@;
        let middle = "' read (content hidden in logs, "@;
        let i = head.len() - 1;
        assert(logged.subrange(i, i + named.len()) =~= named);
        assert(text::is_at(logged, named, i));
        let j = head.len() + path.len() + middle.len() - 1;
        assert(logged.subrange(j, j + counted.len()) =~= counted);
        assert(text::is_at(logged, counted, j));
    }
}

/// A reply that is JSON asks for what its payload asks for.
pub proof fn law_replies_in_json_are_taken_at_their_word(content: Seq<char>, payload: JsonView)
    requires
        wire::json_parse(content) == Some(payload),
    ensures
        action_of(content) == action_in(payload),
{
    structured::law_plain_json_is_taken_as_it_stands(content);
}

/// The log's words for a request name what it asks for as it stands: the file or the
/// directory, and of a search the pattern, the path and the lines of context.
pub proof fn law_descriptions_name_what_is_asked_for(
    path: Seq<char>,
    pattern: Seq<char>,
    context_lines: usize,
)
    ensures
        description_of(RequestView::ReadFile { path }) == "read file '"@ + path + "'"@,
        description_of(RequestView::ListDir { path }) == "list directory '"@ + path + "'"@,
        text::starts_with(
            description_of(RequestView::Grep { pattern, path, context_lines }),
            "search '"@ + pattern + "' in '"@ + path,
        ),
        text::ends_with(
            description_of(RequestView::Grep { pattern, path, context_lines }),
            "' ("@ + text::decimal(context_lines as nat) + " context lines)"@,
        ),
{
    let search = description_of(RequestView::Grep { pattern, path, context_lines });
    let head = "search '"@ + pattern + "' in '"@ + path;
    let tail = "' ("@ + text::decimal(context_lines as nat) + " context lines)"@;
    assert(search =~= head + tail);
    text::law_parts_are_found_where_they_stand(head, tail, tail);
    text::law_parts_are_found_where_they_stand(head, head, tail);
}

/// So do its words for a request for files: the directory and the glob, which is a star
/// where none is given.
pub proof fn law_descriptions_name_the_glob(path: Seq<char>, glob: Seq<char>)
    ensures
        description_of(RequestView::FindFiles { path, glob: Some(glob) }) == "find files in '"@
            + path + ("' with glob '"@ + glob + "'"@),
        description_of(RequestView::FindFiles { path, glob: None }) == "find files in '"@ + path + (
        "' with glob '"@ + "*"@ + "'"@),
{
    assert(description_of(RequestView::FindFiles { path, glob: Some(glob) })
        =~= "find files in '"@ + path + ("' with glob '"@ + glob + "'"@));
    assert(description_of(RequestView::FindFiles { path, glob: None }) =~= "find files in '"@ + path
        + ("' with glob '"@ + "*"@ + "'"@));
}

/// A row that does not have exactly the five fields is refused.
pub proof fn law_rows_have_five_fields(items: Seq<JsonView>)
    requires
        items.len() != 5,
    ensures
        action_in(JsonView::Array(items)) == Err::<ActionView, Seq<char>>(
            "Invalid agent action payload"@,
        ),
{
}

} // verus!
