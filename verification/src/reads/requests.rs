//! How a model's read requests are decided and carried out.
use crate::agent::actions::{ReadRequest, RequestView};
use crate::model::PermissionPromptSpec;
use crate::reads::glob;
use crate::reads::scope::{self, Denial, DenialView, LocatedPath, PathView};
use crate::text;
use vstd::prelude::*;
use vstd::string::StringExecFns;

verus! {

/// The command that stands for a kind of request.
pub open spec fn command_for(request: RequestView) -> Seq<char> {
    match request {
        RequestView::ReadFile { .. } => "cat"@,
        RequestView::Grep { .. } => "grep"@,
        RequestView::ListDir { .. } => "ls"@,
        RequestView::FindFiles { .. } => "find"@,
    }
}

/// The path that a request names.
pub open spec fn path_named(request: RequestView) -> Seq<char> {
    match request {
        RequestView::ReadFile { path } => path,
        RequestView::Grep { path, .. } => path,
        RequestView::ListDir { path } => path,
        RequestView::FindFiles { path, .. } => path,
    }
}

/// The verdict on a request whose path leads to `located`, or nowhere: the path
/// to read, or why it is not read.
pub open spec fn read_verdict(
    request: RequestView,
    root: Seq<Seq<char>>,
    permissions: PermissionPromptSpec,
    located: Option<PathView>,
    is_file: bool,
    sources: Seq<Option<PathView>>,
) -> Result<PathView, DenialView> {
    if !scope::permits(permissions, command_for(request)) {
        Err(DenialView::CommandNotPermitted { command: command_for(request) })
    } else {
        match scope::resolution(root, path_named(request), located) {
            Err(denial) => Err(denial),
            Ok(path) => match scope::scope_verdict(
                request,
                path,
                is_file,
                root,
                permissions,
                sources,
            ) {
                Err(denial) => Err(denial),
                Ok(_) => Ok(path),
            },
        }
    }
}

/// The path that a request names.
pub fn named_path(request: &ReadRequest) -> (r: &String)
    ensures
        r@ == path_named(request@),
{
    match request {
        ReadRequest::ReadFile { path } => path,
        ReadRequest::Grep { path, .. } => path,
        ReadRequest::ListDir { path } => path,
        ReadRequest::FindFiles { path, .. } => path,
    }
}

fn command_name(request: &ReadRequest) -> (r: &'static str)
    ensures
        r@ == command_for(request@),
{
    match request {
        ReadRequest::ReadFile { .. } => "cat",
        ReadRequest::Grep { .. } => "grep",
        ReadRequest::ListDir { .. } => "ls",
        ReadRequest::FindFiles { .. } => "find",
    }
}

/// Decides a request. `located` says where its path leads, `is_file` whether to
/// a file, and `sources` where each of the known sources leads.
pub fn check_read_request(
    request: &ReadRequest,
    project_root: &Vec<String>,
    permission_prompt: &PermissionPromptSpec,
    located: Option<LocatedPath>,
    is_file: bool,
    sources: &Vec<Option<LocatedPath>>,
) -> (r: Result<LocatedPath, Denial>)
    ensures
        scope::resolution_view(r) == read_verdict(
            request@,
            text::texts(project_root@),
            *permission_prompt,
            scope::opt_path(located),
            is_file,
            scope::opt_paths(sources@),
        ),
{
    match scope::ensure_allowed(permission_prompt, command_name(request)) {
        Err(denial) => {
            return Err(denial);
        },
        Ok(()) => {},
    }
    let path = match scope::resolve_scoped_path(project_root, named_path(request), located) {
        Err(denial) => {
            return Err(denial);
        },
        Ok(path) => path,
    };
    match scope::enforce_read_scope(
        request,
        &path,
        is_file,
        project_root,
        permission_prompt,
        sources,
    ) {
        Err(denial) => Err(denial),
        Ok(()) => Ok(path),
    }
}

/// Whatever the scope and the request, what is read lies in the project and
/// neither in an excluded directory nor in a nested project.
pub proof fn law_excluded_directories_are_unreachable(
    request: RequestView,
    root: Seq<Seq<char>>,
    permissions: PermissionPromptSpec,
    located: Option<PathView>,
    is_file: bool,
    sources: Seq<Option<PathView>>,
)
    ensures
        read_verdict(request, root, permissions, located, is_file, sources) matches Ok(path) ==> {
            &&& located == Some(path)
            &&& scope::under(root, path.parts)
            &&& !scope::ignored(root, path)
            &&& forall|i: int|
                root.len() <= i < path.parts.len() && scope::names_directory(path, i)
                    ==> !scope::excluded_names().contains(#[trigger] path.parts[i])
        },
{
    if let Ok(path) = read_verdict(request, root, permissions, located, is_file, sources) {
        assert forall|i: int|
            root.len() <= i < path.parts.len() && scope::names_directory(
                path,
                i,
            ) implies !scope::excluded_names().contains(#[trigger] path.parts[i]) by {
            assert(!scope::leaves_audit(path, i));
        }
    }
}

/// Under the strict scope nothing but a known source file is read, and nothing
/// is listed or searched for.
pub proof fn law_strict_scope_reads_known_sources_only(
    request: RequestView,
    root: Seq<Seq<char>>,
    permissions: PermissionPromptSpec,
    located: Option<PathView>,
    is_file: bool,
    sources: Seq<Option<PathView>>,
)
    requires
        scope::is_strict(permissions),
    ensures
        read_verdict(request, root, permissions, located, is_file, sources) matches Ok(path) ==> {
            &&& is_file
            &&& request is ReadFile || request is Grep
            &&& scope::is_known_source(
                permissions.allowed_paths@.len(),
                sources,
                path.parts,
            )
        },
{
}

/// Under any other scope every path of the project outside the excluded
/// directories and nested projects can be read, with a permitted command.
pub proof fn law_workspace_scope_reads_the_project(
    request: RequestView,
    root: Seq<Seq<char>>,
    permissions: PermissionPromptSpec,
    path: PathView,
    is_file: bool,
    sources: Seq<Option<PathView>>,
)
    requires
        !scope::is_strict(permissions),
        scope::permits(permissions, command_for(request)),
        scope::under(root, path.parts),
        !scope::ignored(root, path),
    ensures
        read_verdict(request, root, permissions, Some(path), is_file, sources) == Ok::<
            PathView,
            DenialView,
        >(path),
{
}

/// A request whose command the permissions do not list is never carried out.
pub proof fn law_unlisted_commands_are_refused(
    request: RequestView,
    root: Seq<Seq<char>>,
    permissions: PermissionPromptSpec,
    located: Option<PathView>,
    is_file: bool,
    sources: Seq<Option<PathView>>,
)
    requires
        !scope::permits(permissions, command_for(request)),
    ensures
        read_verdict(request, root, permissions, located, is_file, sources) == Err::<
            PathView,
            DenialView,
        >(DenialView::CommandNotPermitted { command: command_for(request) }),
{
}

/// What is done for a request that was granted.
#[derive(Debug)]
pub enum ReadPlan {
    /// Run the program; its output is the result.
    Run { program: String, args: Vec<String> },
    /// Collect the files below the path. Where the search program can leave
    /// directories out by their names and no nested project was left out on the
    /// way, search the directory as a whole with the arguments `whole`; else
    /// search the files, with `args` before their names.
    Search { whole: Vec<String>, args: Vec<String> },
    /// List the directory with these arguments, and leave out what is excluded.
    List { args: Vec<String> },
    /// Collect the files below the path, and keep those that the glob matches.
    Find,
}

/// What a plan says.
pub enum PlanView {
    Run { program: Seq<char>, args: Seq<Seq<char>> },
    Search { whole: Seq<Seq<char>>, args: Seq<Seq<char>> },
    List { args: Seq<Seq<char>> },
    Find,
}

impl View for ReadPlan {
    type V = PlanView;

    open spec fn view(&self) -> PlanView {
        match self {
            ReadPlan::Run { program, args } => PlanView::Run {
                program: program@,
                args: text::texts(args@),
            },
            ReadPlan::Search { whole, args } => PlanView::Search {
                whole: text::texts(whole@),
                args: text::texts(args@),
            },
            ReadPlan::List { args } => PlanView::List { args: text::texts(args@) },
            ReadPlan::Find => PlanView::Find,
        }
    }
}

/// The arguments of every search: extended patterns, line numbers, context.
pub open spec fn search_options(context_lines: usize) -> Seq<Seq<char>> {
    seq!["-E"@, "-n"@, "-C"@, text::decimal(context_lines as nat)]
}

/// The arguments that keep a recursive search out of the excluded directories.
pub open spec fn pruning_options() -> Seq<Seq<char>> {
    Seq::new(
        scope::excluded_names().len(),
        |i: int| "--exclude-dir="@ + scope::excluded_names()[i],
    )
}

/// What is done for a request that was granted for the path.
pub open spec fn plan_for(request: RequestView, path: PathView) -> PlanView {
    let written = path.written;
    match request {
        RequestView::ReadFile { .. } => PlanView::Run { program: "cat"@, args: seq![written] },
        RequestView::Grep { pattern, context_lines, .. } => {
            let options = search_options(context_lines);
            if path.is_dir {
                PlanView::Search {
                    whole: options + seq!["-r"@] + pruning_options() + seq![
                        "--"@,
                        pattern,
                        written,
                    ],
                    args: options + seq!["--"@, pattern],
                }
            } else {
                PlanView::Run {
                    program: "grep"@,
                    args: options + seq!["--"@, pattern, written],
                }
            }
        },
        RequestView::ListDir { .. } => PlanView::List { args: seq!["-la"@, written] },
        RequestView::FindFiles { .. } => PlanView::Find,
    }
}

fn push_pruning_options(args: &mut Vec<String>)
    ensures
        text::texts(final(args)@) == text::texts(old(args)@) + pruning_options(),
{
    let names = scope::excluded_dir_names();
    let ghost before = text::texts(args@);
    let ghost all = pruning_options();
    let mut i: usize = 0;
    assert(before + all.take(0) =~= before);
    while i < names.len()
        invariant
            i <= names.len(),
            text::texts(names@) == scope::excluded_names(),
            all == pruning_options(),
            text::texts(args@) == before + all.take(i as int),
        decreases names.len() - i,
    {
        let ghost held = args@;
        assert(text::texts(names@)[i as int] == names@[i as int]@);
        args.push("--exclude-dir=".to_owned().concat(&names[i]));
        assert(text::texts(args@) =~= text::texts(held).push(all[i as int]));
        assert(before + all.take(i + 1) =~= (before + all.take(i as int)).push(all[i as int]));
        i += 1;
    }
    assert(text::texts(names@).len() == names.len());
    assert(all.take(i as int) =~= all);
}

fn search_option_list(context_lines: usize) -> (r: Vec<String>)
    ensures
        text::texts(r@) == search_options(context_lines),
{
    let mut args: Vec<String> = Vec::new();
    args.push("-E".to_owned());
    args.push("-n".to_owned());
    args.push("-C".to_owned());
    args.push(text::decimal_text(context_lines as u64));
    assert(text::texts(args@) =~= search_options(context_lines));
    args
}

/// What is done for a request that was granted for the path.
pub fn plan_read_request(request: &ReadRequest, scoped_path: &LocatedPath) -> (r: ReadPlan)
    ensures
        r@ == plan_for(request@, scoped_path@),
{
    match request {
        ReadRequest::ReadFile { .. } => {
            let mut args: Vec<String> = Vec::new();
            args.push(scoped_path.written.clone());
            assert(text::texts(args@) =~= seq![scoped_path.written@]);
            ReadPlan::Run { program: "cat".to_owned(), args }
        },
        ReadRequest::Grep { pattern, context_lines, .. } => {
            let mut args = search_option_list(*context_lines);
            let ghost options = search_options(*context_lines);
            args.push("--".to_owned());
            args.push(pattern.clone());
            assert(text::texts(args@) =~= options + seq!["--"@, pattern@]);
            if !scoped_path.is_dir {
                args.push(scoped_path.written.clone());
                assert(text::texts(args@) =~= options + seq![
                    "--"@,
                    pattern@,
                    scoped_path.written@,
                ]);
                return ReadPlan::Run { program: "grep".to_owned(), args };
            }
            let mut whole = search_option_list(*context_lines);
            whole.push("-r".to_owned());
            assert(text::texts(whole@) =~= options + seq!["-r"@]);
            push_pruning_options(&mut whole);
            let ghost pruned = text::texts(whole@);
            whole.push("--".to_owned());
            whole.push(pattern.clone());
            whole.push(scoped_path.written.clone());
            assert(text::texts(whole@) =~= pruned + seq!["--"@, pattern@, scoped_path.written@]);
            ReadPlan::Search { whole, args }
        },
        ReadRequest::ListDir { .. } => {
            let mut args: Vec<String> = Vec::new();
            args.push("-la".to_owned());
            args.push(scoped_path.written.clone());
            assert(text::texts(args@) =~= seq!["-la"@, scoped_path.written@]);
            ReadPlan::List { args }
        },
        ReadRequest::FindFiles { .. } => ReadPlan::Find,
    }
}

/// The paths as they are written.
pub open spec fn written_paths(files: Seq<LocatedPath>) -> Seq<Seq<char>> {
    Seq::new(files.len(), |i: int| files[i].written@)
}

/// The arguments for a search of the files: what stands before them, then each
/// of them.
pub fn search_arguments(args: Vec<String>, files: &Vec<LocatedPath>) -> (r: Vec<String>)
    ensures
        text::texts(r@) == text::texts(args@) + written_paths(files@),
{
    let ghost before = text::texts(args@);
    let ghost all = written_paths(files@);
    let mut r = args;
    let mut i: usize = 0;
    assert(before + all.take(0) =~= before);
    while i < files.len()
        invariant
            i <= files.len(),
            all == written_paths(files@),
            text::texts(r@) == before + all.take(i as int),
        decreases files.len() - i,
    {
        let ghost held = r@;
        r.push(files[i].written.clone());
        assert(text::texts(r@) =~= text::texts(held).push(all[i as int]));
        assert(before + all.take(i + 1) =~= (before + all.take(i as int)).push(all[i as int]));
        i += 1;
    }
    assert(all.take(i as int) =~= all);
    r
}

/// The result of a search with no files to search.
pub fn nothing_to_search() -> (r: String)
    ensures
        r@ == "(no in-scope files to search)"@,
{
    "(no in-scope files to search)".to_owned()
}

/// The last name of a path; empty where it has none.
pub open spec fn last_name(path: PathView) -> Seq<char> {
    if path.parts.len() == 0 {
        Seq::empty()
    } else {
        path.parts.last()
    }
}

/// The last name of a path; empty where it has none.
pub fn file_name_of(path: &LocatedPath) -> (r: String)
    ensures
        r@ == last_name(path@),
{
    let n = path.parts.len();
    if n == 0 {
        String::new()
    } else {
        assert(path@.parts.last() == path.parts@[n - 1]@);
        path.parts[n - 1].clone()
    }
}

/// Whether a file is among those asked for: any file, where no glob is given.
pub open spec fn is_wanted(file: PathView, wanted: Option<Seq<char>>) -> bool {
    match wanted {
        Some(pattern) => glob::matches(pattern, last_name(file)),
        None => true,
    }
}

/// The files asked for, as they are written.
pub open spec fn wanted_files(files: Seq<LocatedPath>, wanted: Option<Seq<char>>) -> Seq<
    Seq<char>,
>
    decreases files.len(),
{
    if files.len() == 0 {
        Seq::empty()
    } else {
        let front = wanted_files(files.drop_last(), wanted);
        if is_wanted(files.last()@, wanted) {
            front.push(files.last().written@)
        } else {
            front
        }
    }
}

/// The result of looking for files.
pub open spec fn found_text(files: Seq<LocatedPath>, wanted: Option<Seq<char>>) -> Seq<char> {
    let found = wanted_files(files, wanted);
    if found.len() == 0 {
        "(no matching files found)"@
    } else {
        text::joined(found, "\n"@)
    }
}

/// The result of looking for files: those that the glob matches, a line each.
pub fn find_result(files: &Vec<LocatedPath>, pattern: &Option<String>) -> (r: String)
    ensures
        r@ == found_text(files@, text::opt_text(*pattern)),
{
    let ghost wanted = text::opt_text(*pattern);
    let mut found: Vec<String> = Vec::new();
    let mut i: usize = 0;
    assert(text::texts(found@) =~= Seq::empty());
    while i < files.len()
        invariant
            i <= files.len(),
            wanted == text::opt_text(*pattern),
            text::texts(found@) == wanted_files(files@.take(i as int), wanted),
        decreases files.len() - i,
    {
        let ghost held = found@;
        assert(files@.take(i + 1).drop_last() =~= files@.take(i as int));
        let keep = match pattern {
            Some(pattern) => glob::glob_match(pattern, &file_name_of(&files[i])),
            None => true,
        };
        if keep {
            found.push(files[i].written.clone());
            assert(text::texts(found@) =~= text::texts(held).push(files@[i as int].written@));
        }
        i += 1;
    }
    assert(files@.take(i as int) =~= files@);
    if found.len() == 0 {
        assert(text::texts(found@).len() == 0);
        "(no matching files found)".to_owned()
    } else {
        assert(text::texts(found@).len() > 0);
        text::join(&found, "\n")
    }
}

/// Whether a line of a listing stays: unless its last word leads, from the listed
/// directory, to something that is ignored.
pub open spec fn is_listed(
    root: Seq<Seq<char>>,
    line: Seq<char>,
    located: Option<PathView>,
) -> bool {
    text::last_word_of(line) is None || !(located matches Some(path) && scope::ignored(root, path))
}

/// The lines of a listing that stay.
pub open spec fn listed_lines(
    root: Seq<Seq<char>>,
    lines: Seq<Seq<char>>,
    located: Seq<Option<PathView>>,
) -> Seq<Seq<char>>
    decreases lines.len(),
{
    if lines.len() == 0 {
        Seq::empty()
    } else {
        let front = listed_lines(root, lines.drop_last(), located);
        if is_listed(root, lines.last(), scope::located_at(located, lines.len() - 1)) {
            front.push(lines.last())
        } else {
            front
        }
    }
}

/// A listing without what is excluded. `located` says for each line of it where
/// its last word leads from the listed directory.
pub fn list_result(
    project_root: &Vec<String>,
    listing: &str,
    located: &Vec<Option<LocatedPath>>,
) -> (r: String)
    ensures
        r@ == text::joined(
            listed_lines(
                text::texts(project_root@),
                text::lines_from(listing@, 0),
                scope::opt_paths(located@),
            ),
            "\n"@,
        ),
{
    let lines = text::lines(listing);
    let ghost root = text::texts(project_root@);
    let ghost all = text::texts(lines@);
    let ghost places = scope::opt_paths(located@);
    let mut kept: Vec<String> = Vec::new();
    let mut i: usize = 0;
    assert(text::texts(kept@) =~= Seq::empty());
    while i < lines.len()
        invariant
            i <= lines.len(),
            root == text::texts(project_root@),
            all == text::texts(lines@),
            places == scope::opt_paths(located@),
            text::texts(kept@) == listed_lines(root, all.take(i as int), places),
        decreases lines.len() - i,
    {
        let ghost held = kept@;
        assert(all.take(i + 1).drop_last() =~= all.take(i as int));
        assert(all.take(i + 1).last() == lines@[i as int]@);
        let keep = match text::last_word(&lines[i]) {
            Some(_) => {
                let led_out = if i < located.len() {
                    match &located[i] {
                        Some(path) => scope::is_ignored_path(project_root, path),
                        None => false,
                    }
                } else {
                    false
                };
                !led_out
            },
            None => true,
        };
        assert(keep == is_listed(root, lines@[i as int]@, scope::located_at(places, i as int)));
        if keep {
            kept.push(lines[i].clone());
            assert(text::texts(kept@) =~= text::texts(held).push(lines@[i as int]@));
        }
        i += 1;
    }
    assert(all.take(i as int) =~= all);
    text::join(&kept, "\n")
}

/// Whether `kept` is a line of the listing that is to stay.
pub open spec fn is_kept(
    root: Seq<Seq<char>>,
    lines: Seq<Seq<char>>,
    located: Seq<Option<PathView>>,
    kept: Seq<char>,
) -> bool {
    exists|k: int|
        0 <= k < lines.len() && #[trigger] lines[k] == kept && is_listed(
            root,
            lines[k],
            scope::located_at(located, k),
        )
}

/// Every line of a listing that stays is one whose last word leads to nothing that
/// is ignored.
pub proof fn law_listings_show_nothing_that_is_ignored(
    root: Seq<Seq<char>>,
    lines: Seq<Seq<char>>,
    located: Seq<Option<PathView>>,
)
    ensures
        forall|i: int|
            0 <= i < listed_lines(root, lines, located).len() ==> is_kept(
                root,
                lines,
                located,
                #[trigger] listed_lines(root, lines, located)[i],
            ),
    decreases lines.len(),
{
    if lines.len() > 0 {
        let front = lines.drop_last();
        law_listings_show_nothing_that_is_ignored(root, front, located);
        let kept = listed_lines(root, lines, located);
        assert forall|i: int| 0 <= i < kept.len() implies is_kept(
            root,
            lines,
            located,
            #[trigger] kept[i],
        ) by {
            if i < listed_lines(root, front, located).len() {
                assert(kept[i] == listed_lines(root, front, located)[i]);
                let k = choose|k: int|
                    0 <= k < front.len() && #[trigger] front[k] == kept[i] && is_listed(
                        root,
                        front[k],
                        scope::located_at(located, k),
                    );
                assert(lines[k] == front[k]);
            } else {
                assert(lines[lines.len() - 1] == lines.last());
            }
        }
    }
}

/// Whether `found` is one of the files that were asked for.
pub open spec fn is_asked_for(
    files: Seq<LocatedPath>,
    wanted: Option<Seq<char>>,
    found: Seq<char>,
) -> bool {
    exists|k: int|
        0 <= k < files.len() && (#[trigger] files[k]).written@ == found && is_wanted(
            files[k]@,
            wanted,
        )
}

/// Every file that is reported is one of those collected, with a name that the
/// glob matches.
pub proof fn law_found_files_match_the_glob(files: Seq<LocatedPath>, wanted: Option<Seq<char>>)
    ensures
        forall|i: int|
            0 <= i < wanted_files(files, wanted).len() ==> is_asked_for(
                files,
                wanted,
                #[trigger] wanted_files(files, wanted)[i],
            ),
    decreases files.len(),
{
    if files.len() > 0 {
        let front = files.drop_last();
        law_found_files_match_the_glob(front, wanted);
        let found = wanted_files(files, wanted);
        assert forall|i: int| 0 <= i < found.len() implies is_asked_for(
            files,
            wanted,
            #[trigger] found[i],
        ) by {
            if i < wanted_files(front, wanted).len() {
                assert(found[i] == wanted_files(front, wanted)[i]);
                let k = choose|k: int|
                    0 <= k < front.len() && (#[trigger] front[k]).written@ == found[i]
                        && is_wanted(front[k]@, wanted);
                assert(files[k] == front[k]);
            } else {
                assert(files[files.len() - 1] == files.last());
            }
        }
    }
}

/// Each kind of request stands for one command and is about the path that it names.
pub proof fn law_requests_stand_for_commands(
    path: Seq<char>,
    pattern: Seq<char>,
    context_lines: usize,
    wanted: Option<Seq<char>>,
)
    ensures
        command_for(RequestView::ReadFile { path }) == "cat"@,
        command_for(RequestView::Grep { pattern, path, context_lines }) == "grep"@,
        command_for(RequestView::ListDir { path }) == "ls"@,
        command_for(RequestView::FindFiles { path, glob: wanted }) == "find"@,
        path_named(RequestView::ReadFile { path }) == path,
        path_named(RequestView::Grep { pattern, path, context_lines }) == path,
        path_named(RequestView::ListDir { path }) == path,
        path_named(RequestView::FindFiles { path, glob: wanted }) == path,
{
}

/// A file is read and a directory listed by the path that was checked, and by nothing
/// else.
pub proof fn law_files_are_read_by_the_checked_path(asked: Seq<char>, path: PathView)
    ensures
        plan_for(RequestView::ReadFile { path: asked }, path) matches PlanView::Run {
            program,
            args,
        } && program == "cat"@ && args.len() == 1 && args[0] == path.written,
        plan_for(RequestView::ListDir { path: asked }, path) matches PlanView::List { args }
            && args.len() == 2 && args[0] == "-la"@ && args[1] == path.written,
{
}

/// A search is for the pattern that was asked for, in the path that was checked, with
/// as many lines of context as were asked for. The pattern stands behind the mark that
/// ends the options, and no excluded directory is searched.
pub proof fn law_searches_look_for_what_was_asked(
    pattern: Seq<char>,
    asked: Seq<char>,
    context_lines: usize,
    path: PathView,
)
    ensures
        ({
            let plan = plan_for(RequestView::Grep { pattern, path: asked, context_lines }, path);
            if path.is_dir {
                plan matches PlanView::Search { whole, args } && has_search_options(
                    whole,
                    context_lines,
                ) && whole.len() == 12 && whole[4] == "-r"@ && whole.contains(
                    "--exclude-dir="@ + ".git"@,
                ) && whole.contains("--exclude-dir="@ + "target"@) && whole.contains(
                    "--exclude-dir="@ + ".tx3"@,
                ) && whole.contains("--exclude-dir="@ + "build"@) && whole[9] == "--"@ && whole[10]
                    == pattern && whole[11] == path.written && has_search_options(
                    args,
                    context_lines,
                ) && args.len() == 6 && args[4] == "--"@ && args[5] == pattern
            } else {
                plan matches PlanView::Run { program, args } && program == "grep"@
                    && has_search_options(args, context_lines) && args.len() == 7 && args[4]
                    == "--"@ && args[5] == pattern && args[6] == path.written
            }
        }),
{
    text::law_written_numbers_are_read_back(context_lines as nat);
    let plan = plan_for(RequestView::Grep { pattern, path: asked, context_lines }, path);
    let pruning = pruning_options();
    assert(pruning.len() == 4);
    assert(pruning[0] == "--exclude-dir="@ + ".git"@);
    assert(pruning[1] == "--exclude-dir="@ + "target"@);
    assert(pruning[2] == "--exclude-dir="@ + ".tx3"@);
    assert(pruning[3] == "--exclude-dir="@ + "build"@);
    if let PlanView::Search { whole, args } = plan {
        assert(whole[5] == pruning[0] && whole[6] == pruning[1] && whole[7] == pruning[2]
            && whole[8] == pruning[3]);
    }
}

/// Whether the arguments begin with those of every search: extended patterns, line
/// numbers, and this many lines of context.
pub open spec fn has_search_options(args: Seq<Seq<char>>, context_lines: usize) -> bool {
    args.len() >= 4 && args[0] == "-E"@ && args[1] == "-n"@ && args[2] == "-C"@
        && text::number_in(args[3]) == Some(context_lines as nat)
}

/// The files that are reported of two rows of files are those of the first, then those
/// of the second; and of one file it is that file where no glob is given or its last
/// name matches. So every file asked for is reported, as it is written and in order.
pub proof fn law_every_file_asked_for_is_reported(
    left: Seq<LocatedPath>,
    right: Seq<LocatedPath>,
    file: LocatedPath,
    names: Seq<Seq<char>>,
    name: Seq<char>,
    pattern: Seq<char>,
)
    ensures
        wanted_files(left + right, Some(pattern)) == wanted_files(left, Some(pattern))
            + wanted_files(right, Some(pattern)),
        wanted_files(left, None).len() == left.len(),
        forall|i: int|
            0 <= i < left.len() ==> #[trigger] wanted_files(left, None)[i] == left[i].written@,
        file@.parts == names.push(name) ==> wanted_files(seq![file], Some(pattern)) == (
        if glob::matches(pattern, name) {
            seq![file.written@]
        } else {
            Seq::<Seq<char>>::empty()
        }),
    decreases left.len() + right.len(),
{
    if right.len() > 0 {
        law_every_file_asked_for_is_reported(left, right.drop_last(), file, names, name, pattern);
        assert((left + right).drop_last() =~= left + right.drop_last());
        assert((left + right).last() == right.last());
        assert(wanted_files(left + right, Some(pattern)) =~= wanted_files(left, Some(pattern))
            + wanted_files(right, Some(pattern)));
    } else {
        assert(left + right =~= left);
        assert(wanted_files(left, Some(pattern)) + wanted_files(right, Some(pattern))
            =~= wanted_files(left, Some(pattern)));
        if left.len() > 0 {
            law_every_file_asked_for_is_reported(
                left.drop_last(),
                right,
                file,
                names,
                name,
                pattern,
            );
            assert forall|i: int| 0 <= i < left.len() implies #[trigger] wanted_files(
                left,
                None,
            )[i] == left[i].written@ by {
                if i < left.len() - 1 {
                    assert(wanted_files(left.drop_last(), None)[i]
                        == left.drop_last()[i].written@);
                }
            }
        }
    }
    assert(seq![file].drop_last() =~= Seq::<LocatedPath>::empty());
    assert(wanted_files(seq![file].drop_last(), Some(pattern)) =~= Seq::<Seq<char>>::empty());
    if file@.parts == names.push(name) {
        assert(last_name(file@) == name);
        assert(wanted_files(seq![file], Some(pattern)) =~= if glob::matches(pattern, name) {
            seq![file.written@]
        } else {
            Seq::<Seq<char>>::empty()
        });
    }
}

/// What is reported of the files is a line for each of them, and that there are none
/// where there are none.
pub proof fn law_found_files_have_a_line_each(
    files: Seq<LocatedPath>,
    wanted: Option<Seq<char>>,
    first: Seq<char>,
    second: Seq<char>,
)
    ensures
        wanted_files(files, wanted) == Seq::<Seq<char>>::empty() ==> found_text(files, wanted)
            == "(no matching files found)"@,
        wanted_files(files, wanted) == seq![first] ==> found_text(files, wanted) == first,
        wanted_files(files, wanted) == seq![first, second] ==> found_text(files, wanted) == first
            + seq!['\n'] + second,
        wanted_files(files, wanted).len() > 0 ==> found_text(files, wanted) == text::joined(
            wanted_files(files, wanted),
            seq!['\n'],
        ),
{
    reveal_strlit("\n");
    assert("\n"@ =~= seq!['\n']);
    assert(seq![first, second].drop_last() =~= seq![first]);
    reveal_with_fuel(text::joined, 3);
}

/// The lines that stay of two listings, one below the other, are those of the first,
/// then those of the second. A line whose last word leads to something ignored is left
/// out, and any other line stays as it stands.
pub proof fn law_every_other_line_is_listed(
    root: Seq<Seq<char>>,
    left: Seq<Seq<char>>,
    right: Seq<Seq<char>>,
    left_places: Seq<Option<PathView>>,
    right_places: Seq<Option<PathView>>,
    line: Seq<char>,
    place: Option<PathView>,
)
    requires
        left_places.len() == left.len(),
        right_places.len() >= right.len(),
    ensures
        listed_lines(root, left + right, left_places + right_places) == listed_lines(
            root,
            left,
            left_places,
        ) + listed_lines(root, right, right_places),
        text::last_word_of(line) is None || place is None || !scope::ignored(root, place->0)
            ==> listed_lines(root, seq![line], seq![place]) == seq![line],
        text::last_word_of(line) is Some && place is Some && scope::ignored(root, place->0)
            ==> listed_lines(root, seq![line], seq![place]) == Seq::<Seq<char>>::empty(),
    decreases right.len(),
{
    let all = left_places + right_places;
    if right.len() > 0 {
        law_every_other_line_is_listed(
            root,
            left,
            right.drop_last(),
            left_places,
            right_places,
            line,
            place,
        );
        assert((left + right).drop_last() =~= left + right.drop_last());
        assert((left + right).last() == right.last());
        let k = right.len() - 1;
        assert(all[left.len() + k] == right_places[k]);
        assert(scope::located_at(all, left.len() + k) == scope::located_at(right_places, k));
        assert(listed_lines(root, left + right, all) =~= listed_lines(root, left, left_places)
            + listed_lines(root, right, right_places));
    } else {
        assert(left + right =~= left);
        lemma_listed_by_own_places(root, left, left_places, all);
        assert(listed_lines(root, left + right, all) =~= listed_lines(root, left, left_places)
            + listed_lines(root, right, right_places));
    }
    assert(seq![line].drop_last() =~= Seq::<Seq<char>>::empty());
    assert(scope::located_at(seq![place], 0) == place);
    assert(listed_lines(root, seq![line].drop_last(), seq![place]) =~= Seq::<Seq<char>>::empty());
    assert(Seq::<Seq<char>>::empty().push(line) =~= seq![line]);
}

proof fn lemma_listed_by_own_places(
    root: Seq<Seq<char>>,
    lines: Seq<Seq<char>>,
    places: Seq<Option<PathView>>,
    more: Seq<Option<PathView>>,
)
    requires
        lines.len() <= places.len() <= more.len(),
        forall|i: int| 0 <= i < places.len() ==> #[trigger] more[i] == places[i],
    ensures
        listed_lines(root, lines, more) == listed_lines(root, lines, places),
    decreases lines.len(),
{
    if lines.len() > 0 {
        lemma_listed_by_own_places(root, lines.drop_last(), places, more);
        assert(more[lines.len() - 1] == places[lines.len() - 1]);
    }
}

/// A request is decided step by step: the command first, then where its path leads,
/// then the read scope; what passes all three is the path as it was located.
pub proof fn law_requests_are_decided_in_order(
    request: RequestView,
    root: Seq<Seq<char>>,
    permissions: PermissionPromptSpec,
    path: PathView,
    is_file: bool,
    sources: Seq<Option<PathView>>,
    denial: DenialView,
)
    requires
        scope::permits(permissions, command_for(request)),
    ensures
        read_verdict(request, root, permissions, None, is_file, sources) is Err,
        !scope::under(root, path.parts) ==> read_verdict(
            request,
            root,
            permissions,
            Some(path),
            is_file,
            sources,
        ) is Err,
        scope::under(root, path.parts) && scope::scope_verdict(
            request,
            path,
            is_file,
            root,
            permissions,
            sources,
        ) == Err::<(), DenialView>(denial) ==> read_verdict(
            request,
            root,
            permissions,
            Some(path),
            is_file,
            sources,
        ) == Err::<PathView, DenialView>(denial),
        scope::under(root, path.parts) && scope::scope_verdict(
            request,
            path,
            is_file,
            root,
            permissions,
            sources,
        ) is Ok ==> read_verdict(request, root, permissions, Some(path), is_file, sources) == Ok::<
            PathView,
            DenialView,
        >(path),
{
}

} // verus!
