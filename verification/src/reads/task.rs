//! One read request from the check to the result.
use crate::agent::actions::{self, ReadRequest, RequestView};
use crate::model::PermissionPromptSpec;
use crate::reads::requests::{self, PlanView, ReadPlan};
use crate::reads::scope::{self, Denial, DenialView, LocatedPath, PathView};
use crate::text;
use vstd::prelude::*;

verus! {

/// What a request waits for.
#[derive(Debug)]
pub enum Stage {
    /// The user's word.
    Confirming,
    /// Whether the search program can leave directories out by their names. The
    /// arguments are those for a search of the directory as a whole, and those
    /// that stand before the files.
    Probing { whole: Vec<String>, args: Vec<String> },
    /// A program's output, which is the result.
    Running,
    /// The files to search: the arguments that stand before them, and those for a
    /// search of the directory as a whole.
    Searching { as_whole: Option<Vec<String>>, args: Vec<String> },
    /// The files to choose from.
    Finding,
    /// A listing.
    Listing,
    /// Nothing more.
    Over,
}

/// What a request waits for, as a value.
pub enum StageView {
    Confirming,
    Probing { whole: Seq<Seq<char>>, args: Seq<Seq<char>> },
    Running,
    Searching { as_whole: Option<Seq<Seq<char>>>, args: Seq<Seq<char>> },
    Finding,
    Listing,
    Over,
}

impl View for Stage {
    type V = StageView;

    open spec fn view(&self) -> StageView {
        match self {
            Stage::Confirming => StageView::Confirming,
            Stage::Probing { whole, args } => StageView::Probing {
                whole: text::texts(whole@),
                args: text::texts(args@),
            },
            Stage::Running => StageView::Running,
            Stage::Searching { as_whole, args } => StageView::Searching {
                as_whole: match as_whole {
                    Some(whole) => Some(text::texts(whole@)),
                    None => None,
                },
                args: text::texts(args@),
            },
            Stage::Finding => StageView::Finding,
            Stage::Listing => StageView::Listing,
            Stage::Over => StageView::Over,
        }
    }
}

/// A request that passed the checks.
#[derive(Debug)]
pub struct ReadTask {
    request: ReadRequest,
    project_root: Vec<String>,
    path: LocatedPath,
    stage: Stage,
}

/// A request that passed the checks, as a value.
pub struct TaskView {
    pub request: RequestView,
    pub root: Seq<Seq<char>>,
    pub path: PathView,
    pub stage: StageView,
}

impl View for ReadTask {
    type V = TaskView;

    closed spec fn view(&self) -> TaskView {
        TaskView {
            request: self.request@,
            root: text::texts(self.project_root@),
            path: self.path@,
            stage: self.stage@,
        }
    }
}

/// What to do next for a request.
#[derive(Debug)]
pub enum Step {
    /// Show the user this and ask whether to go on.
    Confirm(String),
    /// Run the program and hand its output back.
    Run { program: String, args: Vec<String> },
    /// Find out whether the search program can leave directories out by their
    /// names.
    Probe,
    /// Collect the files below the path and hand them back, with whether a nested
    /// project was left out. Where `tolerant`, a directory that cannot be read
    /// counts as one that holds nothing, and links are left aside.
    Collect { tolerant: bool },
    /// List the directory with these arguments and hand the listing back.
    List { args: Vec<String> },
    /// The result, or why there is none.
    Done(Result<String, Denial>),
    /// What was handed in is not what the request waits for.
    Unexpected,
}

/// What to do next for a request, as a value.
pub enum StepView {
    Confirm(Seq<char>),
    Run { program: Seq<char>, args: Seq<Seq<char>> },
    Probe,
    Collect { tolerant: bool },
    List { args: Seq<Seq<char>> },
    Done(Result<Seq<char>, DenialView>),
    Unexpected,
}

impl View for Step {
    type V = StepView;

    open spec fn view(&self) -> StepView {
        match self {
            Step::Confirm(notice) => StepView::Confirm(notice@),
            Step::Run { program, args } => StepView::Run {
                program: program@,
                args: text::texts(args@),
            },
            Step::Probe => StepView::Probe,
            Step::Collect { tolerant } => StepView::Collect { tolerant: *tolerant },
            Step::List { args } => StepView::List { args: text::texts(args@) },
            Step::Done(Ok(output)) => StepView::Done(Ok(output@)),
            Step::Done(Err(denial)) => StepView::Done(Err(denial@)),
            Step::Unexpected => StepView::Unexpected,
        }
    }
}

/// What was done for a request.
#[derive(Debug)]
pub enum Handed {
    Answer(String),
    Probed { prunes: bool },
    Output(String),
    Files { files: Vec<LocatedPath>, nested: bool },
    /// A listing, and for each line of it where its last word leads from the
    /// listed directory.
    Listing { listing: String, located: Vec<Option<LocatedPath>> },
}

/// What is done for a request that nothing stands against any more.
pub open spec fn set_off(task: TaskView) -> (TaskView, StepView) {
    match requests::plan_for(task.request, task.path) {
        PlanView::Run { program, args } => (
            TaskView { stage: StageView::Running, ..task },
            StepView::Run { program, args },
        ),
        PlanView::Search { whole, args } => (
            TaskView { stage: StageView::Probing { whole, args }, ..task },
            StepView::Probe,
        ),
        PlanView::List { args } => (
            TaskView { stage: StageView::Listing, ..task },
            StepView::List { args },
        ),
        PlanView::Find => (
            TaskView { stage: StageView::Finding, ..task },
            StepView::Collect { tolerant: false },
        ),
    }
}

/// The first step for a request that passed the checks: the user is asked where
/// the permissions say so.
pub open spec fn first_step(
    request: RequestView,
    root: Seq<Seq<char>>,
    interactive: bool,
    path: PathView,
) -> (TaskView, StepView) {
    let task = TaskView { request, root, path, stage: StageView::Confirming };
    if interactive {
        (task, StepView::Confirm(scope::confirmation_text(request, root, path)))
    } else {
        set_off(task)
    }
}

/// The end of a request.
pub open spec fn finished(task: TaskView, result: Result<Seq<char>, DenialView>) -> (
    TaskView,
    StepView,
) {
    (TaskView { stage: StageView::Over, ..task }, StepView::Done(result))
}

/// The glob of a request.
pub open spec fn glob_of(request: RequestView) -> Option<Seq<char>> {
    match request {
        RequestView::FindFiles { glob, .. } => glob,
        _ => None,
    }
}

/// The search once the files are known: of the directory as a whole where the
/// program leaves out all that is to be left out, else of the files.
pub open spec fn search_step(
    task: TaskView,
    whole: Option<Seq<Seq<char>>>,
    args: Seq<Seq<char>>,
    files: Seq<LocatedPath>,
    nested: bool,
) -> (TaskView, StepView) {
    if whole is Some && !nested {
        (
            TaskView { stage: StageView::Running, ..task },
            StepView::Run { program: "grep"@, args: whole->0 },
        )
    } else if files.len() == 0 {
        finished(task, Ok("(no in-scope files to search)"@))
    } else {
        (
            TaskView { stage: StageView::Running, ..task },
            StepView::Run { program: "grep"@, args: args + requests::written_paths(files) },
        )
    }
}

/// The step after something was done for a request.
pub open spec fn next_step(task: TaskView, handed: Handed) -> (TaskView, StepView) {
    match (task.stage, handed) {
        (StageView::Confirming, Handed::Answer(answer)) => if scope::is_yes(answer@) {
            set_off(task)
        } else {
            finished(
                task,
                Err(DenialView::RefusedByUser { request: actions::summary_of(task.request) }),
            )
        },
        (StageView::Probing { whole, args }, Handed::Probed { prunes }) => (
            TaskView {
                stage: StageView::Searching {
                    as_whole: if prunes {
                        Some(whole)
                    } else {
                        None
                    },
                    args,
                },
                ..task
            },
            StepView::Collect { tolerant: prunes },
        ),
        (StageView::Running, Handed::Output(output)) => finished(task, Ok(output@)),
        (StageView::Searching { as_whole, args }, Handed::Files { files, nested }) => search_step(
            task,
            as_whole,
            args,
            files@,
            nested,
        ),
        (StageView::Finding, Handed::Files { files, .. }) => finished(
            task,
            Ok(requests::found_text(files@, glob_of(task.request))),
        ),
        (StageView::Listing, Handed::Listing { listing, located }) => finished(
            task,
            Ok(
                text::joined(
                    requests::listed_lines(
                        task.root,
                        text::lines_from(listing@, 0),
                        scope::opt_paths(located@),
                    ),
                    "\n"@,
                ),
            ),
        ),
        _ => (task, StepView::Unexpected),
    }
}

/// What opening a request gives.
pub open spec fn opened_view(r: Result<(ReadTask, Step), Denial>) -> Result<
    (TaskView, StepView),
    DenialView,
> {
    match r {
        Ok((task, step)) => Ok((task@, step@)),
        Err(denial) => Err(denial@),
    }
}

/// What opening a request gives: its first step, or why it is not carried out.
pub open spec fn opened(
    request: RequestView,
    root: Seq<Seq<char>>,
    permissions: PermissionPromptSpec,
    located: Option<PathView>,
    is_file: bool,
    sources: Seq<Option<PathView>>,
) -> Result<(TaskView, StepView), DenialView> {
    match requests::read_verdict(request, root, permissions, located, is_file, sources) {
        Ok(path) => Ok(
            first_step(request, root, permissions.interactive_permissions, path),
        ),
        Err(denial) => Err(denial),
    }
}

impl ReadTask {
    /// Checks a request and says what to do first. `located` says where its path
    /// leads, `is_file` whether to a file, and `sources` where each of the known
    /// sources leads.
    pub fn open(
        request: ReadRequest,
        project_root: Vec<String>,
        permission_prompt: &PermissionPromptSpec,
        located: Option<LocatedPath>,
        is_file: bool,
        sources: &Vec<Option<LocatedPath>>,
    ) -> (r: Result<(ReadTask, Step), Denial>)
        ensures
            opened_view(r) == opened(
                request@,
                text::texts(project_root@),
                *permission_prompt,
                scope::opt_path(located),
                is_file,
                scope::opt_paths(sources@),
            ),
    {
        let path = match requests::check_read_request(
            &request,
            &project_root,
            permission_prompt,
            located,
            is_file,
            sources,
        ) {
            Err(denial) => {
                return Err(denial);
            },
            Ok(path) => path,
        };
        let notice = scope::confirmation_notice(&request, &project_root, &path);
        let mut task = ReadTask {
            request,
            project_root,
            path,
            stage: Stage::Confirming,
        };
        let step = if permission_prompt.interactive_permissions {
            Step::Confirm(notice)
        } else {
            task.begin()
        };
        Ok((task, step))
    }

    /// The path to read.
    pub fn path(&self) -> (r: &LocatedPath)
        ensures
            r@ == self@.path,
    {
        &self.path
    }

    fn begin(&mut self) -> (r: Step)
        ensures
            (final(self)@, r@) == set_off(old(self)@),
    {
        match requests::plan_read_request(&self.request, &self.path) {
            ReadPlan::Run { program, args } => {
                self.stage = Stage::Running;
                Step::Run { program, args }
            },
            ReadPlan::Search { whole, args } => {
                self.stage = Stage::Probing { whole, args };
                Step::Probe
            },
            ReadPlan::List { args } => {
                self.stage = Stage::Listing;
                Step::List { args }
            },
            ReadPlan::Find => {
                self.stage = Stage::Finding;
                Step::Collect { tolerant: false }
            },
        }
    }

    fn end(&mut self, output: String) -> (r: Step)
        ensures
            (final(self)@, r@) == finished(old(self)@, Ok(output@)),
    {
        self.stage = Stage::Over;
        Step::Done(Ok(output))
    }

    fn take_files(&mut self, files: &Vec<LocatedPath>, nested: bool) -> (r: Step)
        ensures
            (final(self)@, r@) == match old(self)@.stage {
                StageView::Searching { as_whole, args } => search_step(
                    old(self)@,
                    as_whole,
                    args,
                    files@,
                    nested,
                ),
                StageView::Finding => finished(
                    old(self)@,
                    Ok(requests::found_text(files@, glob_of(old(self)@.request))),
                ),
                _ => (old(self)@, StepView::Unexpected),
            },
    {
        match &self.stage {
            Stage::Searching { as_whole, args } => {
                match as_whole {
                    Some(whole) => {
                        if !nested {
                            let args = text::copies(whole);
                            self.stage = Stage::Running;
                            return Step::Run { program: "grep".to_owned(), args };
                        }
                    },
                    None => {},
                }
                if files.len() == 0 {
                    return self.end(requests::nothing_to_search());
                }
                let args = requests::search_arguments(text::copies(args), files);
                self.stage = Stage::Running;
                Step::Run { program: "grep".to_owned(), args }
            },
            Stage::Finding => {
                let found = match &self.request {
                    ReadRequest::FindFiles { glob, .. } => requests::find_result(files, glob),
                    _ => requests::find_result(files, &None),
                };
                self.end(found)
            },
            _ => Step::Unexpected,
        }
    }

    /// Takes in what was done and says what to do next.
    pub fn proceed(&mut self, handed: &Handed) -> (r: Step)
        ensures
            (final(self)@, r@) == next_step(old(self)@, *handed),
    {
        match handed {
            Handed::Answer(answer) => {
                if matches!(self.stage, Stage::Confirming) {
                    match scope::confirm_request_if_interactive(&self.request, true, answer) {
                        Ok(()) => {
                            return self.begin();
                        },
                        Err(denial) => {
                            self.stage = Stage::Over;
                            return Step::Done(Err(denial));
                        },
                    }
                }
            },
            Handed::Probed { prunes } => {
                let known = match &self.stage {
                    Stage::Probing { whole, args } => Some(
                        (text::copies(whole), text::copies(args)),
                    ),
                    _ => None,
                };
                match known {
                    Some((whole, args)) => {
                        let as_whole = if *prunes {
                            Some(whole)
                        } else {
                            None
                        };
                        self.stage = Stage::Searching { as_whole, args };
                        return Step::Collect { tolerant: *prunes };
                    },
                    None => {},
                }
            },
            Handed::Output(output) => {
                if matches!(self.stage, Stage::Running) {
                    return self.end(output.clone());
                }
            },
            Handed::Files { files, nested } => {
                return self.take_files(files, *nested);
            },
            Handed::Listing { listing, located } => {
                if matches!(self.stage, Stage::Listing) {
                    let kept = requests::list_result(&self.project_root, listing, located);
                    return self.end(kept);
                }
            },
        }
        Step::Unexpected
    }
}

/// Whether a step goes about reading something.
pub open spec fn reads(step: StepView) -> bool {
    step is Run || step is Probe || step is Collect || step is List
}

/// Nothing is read for a request before it has passed the checks, nor, where the
/// permissions ask for it, before the user has been asked.
pub proof fn law_nothing_is_read_unchecked(
    request: RequestView,
    root: Seq<Seq<char>>,
    permissions: PermissionPromptSpec,
    located: Option<PathView>,
    is_file: bool,
    sources: Seq<Option<PathView>>,
)
    ensures
        opened(
            request,
            root,
            permissions,
            located,
            is_file,
            sources,
        ) matches Ok((task, step)) ==> {
            &&& requests::read_verdict(request, root, permissions, located, is_file, sources)
                == Ok::<PathView, DenialView>(task.path)
            &&& reads(step) <==> !permissions.interactive_permissions
            &&& permissions.interactive_permissions ==> task.stage is Confirming
        },
{
}

/// A request that waits for the user's word goes on only on a yes, and ends on
/// anything else that is answered.
pub proof fn law_only_a_yes_lets_a_request_go_on(task: TaskView, handed: Handed)
    requires
        task.stage is Confirming,
    ensures
        reads(next_step(task, handed).1) <==> (handed matches Handed::Answer(answer)
            && scope::is_yes(answer@)),
        next_step(task, handed).1 is Done <==> (handed matches Handed::Answer(answer)
            && !scope::is_yes(answer@)),
{
}

/// A directory is searched as a whole only by a program that can leave directories
/// out by their names, and only where no nested project lies in it. Else the files
/// that a walk collected are searched, and nothing where there are none.
pub proof fn law_nothing_left_out_is_searched(
    task: TaskView,
    prunes: bool,
    files: Vec<LocatedPath>,
    nested: bool,
)
    requires
        task.stage is Probing,
    ensures
        next_step(
            next_step(task, Handed::Probed { prunes }).0,
            Handed::Files { files, nested },
        ).1 == (if prunes && !nested {
            StepView::Run { program: "grep"@, args: task.stage->Probing_whole }
        } else if files@.len() > 0 {
            StepView::Run {
                program: "grep"@,
                args: task.stage->Probing_args + requests::written_paths(files@),
            }
        } else {
            StepView::Done(Ok("(no in-scope files to search)"@))
        }),
{
}

/// Whatever is handed in, the path of a request stays the one that was checked.
pub proof fn law_the_checked_path_stays(task: TaskView, handed: Handed)
    ensures
        next_step(task, handed).0.path == task.path,
        next_step(task, handed).0.request == task.request,
{
}

/// The output of a program is the result as it stands, and nothing that is handed in
/// afterwards changes it.
pub proof fn law_output_is_the_result(task: TaskView, output: String, handed: Handed)
    requires
        task.stage is Running,
    ensures
        next_step(task, Handed::Output(output)).1 == StepView::Done(Ok(output@)),
        next_step(next_step(task, Handed::Output(output)).0, handed).1 is Unexpected,
{
}

/// A file is read with one program and a directory listed at once; a search first asks
/// what the search program can do, and looking for files collects them, with errors
/// reported.
pub proof fn law_requests_set_off_by_their_kind(task: TaskView)
    ensures
        task.request is ReadFile ==> set_off(task).0.stage is Running && (set_off(
            task,
        ).1 matches StepView::Run { program, args } && program == "cat"@ && args == seq![
            task.path.written,
        ]),
        task.request is ListDir ==> set_off(task).0.stage is Listing && (set_off(
            task,
        ).1 matches StepView::List { args } && args == seq!["-la"@, task.path.written]),
        task.request is FindFiles ==> set_off(task).0.stage is Finding && set_off(task).1
            == (StepView::Collect { tolerant: false }),
        task.request is Grep && task.path.is_dir ==> set_off(task).0.stage is Probing && set_off(
            task,
        ).1 is Probe,
        task.request is Grep && !task.path.is_dir ==> set_off(task).0.stage is Running && (set_off(
            task,
        ).1 matches StepView::Run { program, .. } && program == "grep"@),
        set_off(task).0.path == task.path,
        set_off(task).0.request == task.request,
        set_off(task).0.root == task.root,
{
}

/// A yes leads to what would have been done without asking, and a refusal says what
/// was refused.
pub proof fn law_answers_are_heeded(
    request: RequestView,
    root: Seq<Seq<char>>,
    path: PathView,
    answer: String,
)
    ensures
        scope::is_yes(answer@) ==> next_step(
            first_step(request, root, true, path).0,
            Handed::Answer(answer),
        ) == first_step(request, root, false, path),
        !scope::is_yes(answer@) ==> next_step(
            first_step(request, root, true, path).0,
            Handed::Answer(answer),
        ).1 == StepView::Done(
            Err(DenialView::RefusedByUser { request: actions::summary_of(request) }),
        ),
        first_step(request, root, true, path).1 == StepView::Confirm(
            scope::confirmation_text(request, root, path),
        ),
{
}

/// Files that were collected are all searched, in the order in which they were handed
/// in, behind the arguments that were planned.
pub proof fn law_every_collected_file_is_searched(
    task: TaskView,
    files: Vec<LocatedPath>,
    nested: bool,
    i: int,
)
    requires
        task.stage matches StageView::Searching { as_whole, .. } && as_whole is None,
        0 <= i < files@.len(),
    ensures
        next_step(task, Handed::Files { files, nested }).1 matches StepView::Run { program, args }
            && program == "grep"@ && args.len() == task.stage->Searching_args.len() + files@.len()
            && args.take(task.stage->Searching_args.len() as int) == task.stage->Searching_args
            && args[task.stage->Searching_args.len() + i] == files@[i].written@,
{
    let before = task.stage->Searching_args;
    let all = before + requests::written_paths(files@);
    assert(all.take(before.len() as int) =~= before);
}

/// The files found are those that the glob of the request matches; a listing is what
/// is left of it without what is ignored.
pub proof fn law_results_are_of_what_was_asked_for(
    task: TaskView,
    path: Seq<char>,
    wanted: Option<Seq<char>>,
    files: Vec<LocatedPath>,
    nested: bool,
    listing: String,
    located: Vec<Option<LocatedPath>>,
)
    ensures
        task.stage is Finding && task.request == (RequestView::FindFiles { path, glob: wanted })
            ==> next_step(task, Handed::Files { files, nested }).1 == StepView::Done(
            Ok(requests::found_text(files@, wanted)),
        ),
        task.stage is Listing ==> next_step(task, Handed::Listing { listing, located }).1
            == StepView::Done(
            Ok(
                text::joined(
                    requests::listed_lines(
                        task.root,
                        text::lines_from(listing@, 0),
                        scope::opt_paths(located@),
                    ),
                    seq!['\n'],
                ),
            ),
        ),
{
    reveal_strlit("\n");
    assert("\n"@ =~= seq!['\n']);
}

/// A program that can leave directories out is told to overlook what cannot be read
/// while the files are collected, and any other is not; what was planned is kept.
pub proof fn law_searches_collect_their_files(task: TaskView, prunes: bool)
    requires
        task.stage is Probing,
    ensures
        next_step(task, Handed::Probed { prunes }).1 == (StepView::Collect { tolerant: prunes }),
        next_step(task, Handed::Probed { prunes }).0.stage matches StageView::Searching {
            as_whole,
            args,
        } && args == task.stage->Probing_args && (prunes ==> as_whole == Some(
            task.stage->Probing_whole,
        )) && (!prunes ==> as_whole is None),
{
}

/// What a request does not wait for changes nothing of it, and is said to be
/// unexpected.
pub proof fn law_unexpected_things_change_nothing(task: TaskView, handed: Handed)
    requires
        !(task.stage is Confirming && handed is Answer),
        !(task.stage is Probing && handed is Probed),
        !(task.stage is Running && handed is Output),
        !(task.stage is Searching && handed is Files),
        !(task.stage is Finding && handed is Files),
        !(task.stage is Listing && handed is Listing),
    ensures
        next_step(task, handed) == (task, StepView::Unexpected),
{
}

} // verus!
