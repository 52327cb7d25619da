//! Where in a project a model may read.
use crate::agent::actions::{self, ReadRequest, RequestView};
use crate::model::PermissionPromptSpec;
use crate::text;
use vstd::prelude::*;
use vstd::string::StringExecFns;

verus! {

/// A path from the root of the file system down: its names, for each of them
/// whether the directory that the path names up to there holds an `aiken.toml`
/// file, whether the path leads to a directory, and the path as it is written.
/// Where nothing is said of a directory, it holds none.
#[derive(Debug, Clone)]
pub struct LocatedPath {
    pub parts: Vec<String>,
    pub manifests: Vec<bool>,
    pub is_dir: bool,
    pub written: String,
}

/// What a located path says.
pub struct PathView {
    pub parts: Seq<Seq<char>>,
    pub manifests: Seq<bool>,
    pub is_dir: bool,
    pub written: Seq<char>,
}

impl View for LocatedPath {
    type V = PathView;

    open spec fn view(&self) -> PathView {
        PathView {
            parts: text::texts(self.parts@),
            manifests: self.manifests@,
            is_dir: self.is_dir,
            written: self.written@,
        }
    }
}

/// What an optional located path says.
pub open spec fn opt_path(path: Option<LocatedPath>) -> Option<PathView> {
    match path {
        Some(path) => Some(path@),
        None => None,
    }
}

/// What located paths say.
pub open spec fn opt_paths(paths: Seq<Option<LocatedPath>>) -> Seq<Option<PathView>> {
    Seq::new(paths.len(), |i: int| opt_path(paths[i]))
}

/// The names of the directories that are always outside the audit.
pub open spec fn excluded_names() -> Seq<Seq<char>> {
    seq![".git"@, "target"@, ".tx3"@, "build"@]
}

/// Whether the path lies at or below the root.
pub open spec fn under(root: Seq<Seq<char>>, parts: Seq<Seq<char>>) -> bool {
    root.len() <= parts.len() && parts.take(root.len() as int) == root
}

/// Whether the `i`-th name of the path is that of a directory: every name is but
/// the last, and the last where the path leads to one.
pub open spec fn names_directory(path: PathView, i: int) -> bool {
    i + 1 < path.parts.len() || path.is_dir
}

/// Whether the `i`-th name of the path leads out of the audit: into an excluded
/// directory, or into a project of its own.
pub open spec fn leaves_audit(path: PathView, i: int) -> bool {
    names_directory(path, i) && (excluded_names().contains(path.parts[i]) || (i
        < path.manifests.len() && path.manifests[i]))
}

/// Whether the path, below the root, is or lies in an excluded directory or a
/// nested project.
pub open spec fn ignored(root: Seq<Seq<char>>, path: PathView) -> bool {
    under(root, path.parts) && exists|i: int|
        root.len() <= i < path.parts.len() && #[trigger] leaves_audit(path, i)
}

/// The path below the root as it is shown; the whole path where it lies outside.
pub open spec fn shown(root: Seq<Seq<char>>, path: PathView) -> Seq<char> {
    if under(root, path.parts) {
        text::joined(path.parts.skip(root.len() as int), "/"@)
    } else {
        path.written
    }
}

/// Why a request is not carried out.
#[derive(Debug)]
pub enum Denial {
    CommandNotPermitted { command: String },
    Inaccessible { path: String },
    EscapesRoot { path: String },
    Excluded { path: String },
    StrictListing,
    StrictNotAFile,
    StrictUnknownFile { path: String },
    RefusedByUser { request: String },
}

/// What a denial says.
pub enum DenialView {
    CommandNotPermitted { command: Seq<char> },
    Inaccessible { path: Seq<char> },
    EscapesRoot { path: Seq<char> },
    Excluded { path: Seq<char> },
    StrictListing,
    StrictNotAFile,
    StrictUnknownFile { path: Seq<char> },
    RefusedByUser { request: Seq<char> },
}

impl View for Denial {
    type V = DenialView;

    open spec fn view(&self) -> DenialView {
        match self {
            Denial::CommandNotPermitted { command } => DenialView::CommandNotPermitted {
                command: command@,
            },
            Denial::Inaccessible { path } => DenialView::Inaccessible { path: path@ },
            Denial::EscapesRoot { path } => DenialView::EscapesRoot { path: path@ },
            Denial::Excluded { path } => DenialView::Excluded { path: path@ },
            Denial::StrictListing => DenialView::StrictListing,
            Denial::StrictNotAFile => DenialView::StrictNotAFile,
            Denial::StrictUnknownFile { path } => DenialView::StrictUnknownFile { path: path@ },
            Denial::RefusedByUser { request } => DenialView::RefusedByUser { request: request@ },
        }
    }
}

/// The denial in words.
pub open spec fn denial_text(denial: DenialView) -> Seq<char> {
    match denial {
        DenialView::CommandNotPermitted { command } => "Command '"@ + command
            + "' is not permitted by permission prompt"@,
        DenialView::Inaccessible { path } => "Path does not exist or is inaccessible: "@ + path,
        DenialView::EscapesRoot { path } => "Path escapes project root and is not allowed: "@
            + path,
        DenialView::Excluded { path } => "Request denied: '"@ + path
            + "' is inside an excluded directory ("@ + text::joined(excluded_names(), ", "@)
            + "); these directories are outside the audit scope"@,
        DenialView::StrictListing =>
            "Request denied by strict read scope: directory listing and file discovery are not allowed"@,
        DenialView::StrictNotAFile =>
            "Request denied by strict read scope: only known source files can be accessed"@,
        DenialView::StrictUnknownFile { path } => "Request denied by strict read scope: '"@ + path
            + "' is not an allowed source file"@,
        DenialView::RefusedByUser { request } => "Request denied by user confirmation: "@
            + request,
    }
}

/// What a result of a check says.
pub open spec fn check_view<T>(r: Result<T, Denial>) -> Result<T, DenialView> {
    match r {
        Ok(value) => Ok(value),
        Err(denial) => Err(denial@),
    }
}

/// The names of the directories that are always outside the audit.
pub fn excluded_dir_names() -> (r: Vec<String>)
    ensures
        text::texts(r@) == excluded_names(),
{
    let mut r: Vec<String> = Vec::new();
    r.push(".git".to_owned());
    r.push("target".to_owned());
    r.push(".tx3".to_owned());
    r.push("build".to_owned());
    assert(text::texts(r@) =~= excluded_names());
    r
}

/// Whether a directory of this name is always outside the audit.
pub fn is_excluded_name(name: &str) -> (r: bool)
    ensures
        r == excluded_names().contains(name@),
{
    let r = text::same(name, ".git") || text::same(name, "target") || text::same(name, ".tx3")
        || text::same(name, "build");
    assert(r == excluded_names().contains(name@)) by {
        let all = excluded_names();
        assert(all[0] == ".git"@ && all[1] == "target"@ && all[2] == ".tx3"@ && all[3]
            == "build"@);
        if all.contains(name@) {
            let i = choose|i: int| 0 <= i < all.len() && all[i] == name@;
            assert(i == 0 || i == 1 || i == 2 || i == 3);
        }
    }
    r
}

fn is_under(root: &Vec<String>, parts: &Vec<String>) -> (r: bool)
    ensures
        r == under(text::texts(root@), text::texts(parts@)),
{
    if root.len() > parts.len() {
        return false;
    }
    let ghost above = text::texts(root@);
    let ghost names = text::texts(parts@);
    let mut i: usize = 0;
    while i < root.len()
        invariant
            i <= root.len() <= parts.len(),
            above == text::texts(root@),
            names == text::texts(parts@),
            forall|k: int| 0 <= k < i ==> #[trigger] above[k] == names[k],
        decreases root.len() - i,
    {
        if !text::same(&root[i], &parts[i]) {
            assert(names.take(above.len() as int)[i as int] != above[i as int]);
            return false;
        }
        i += 1;
    }
    assert(names.take(above.len() as int) =~= above);
    true
}

fn is_same_path(a: &Vec<String>, b: &Vec<String>) -> (r: bool)
    ensures
        r == (text::texts(a@) == text::texts(b@)),
{
    let r = a.len() == b.len() && is_under(a, b);
    proof {
        assert(text::texts(a@).len() == a.len() && text::texts(b@).len() == b.len());
        if a.len() == b.len() {
            assert(text::texts(b@).take(a.len() as int) =~= text::texts(b@));
        }
    }
    r
}

/// Whether the path, below the root, is or lies in an excluded directory or a
/// nested project. A file is not excluded for its own name.
pub fn is_ignored_path(project_root: &Vec<String>, path: &LocatedPath) -> (r: bool)
    ensures
        r == ignored(text::texts(project_root@), path@),
{
    if !is_under(project_root, &path.parts) {
        return false;
    }
    let mut i: usize = project_root.len();
    while i < path.parts.len()
        invariant
            project_root.len() <= i,
            under(text::texts(project_root@), path@.parts),
            forall|k: int| project_root.len() <= k < i ==> !#[trigger] leaves_audit(path@, k),
        decreases path.parts.len() - i,
    {
        assert(path@.parts[i as int] == path.parts@[i as int]@);
        let is_dir = i < path.parts.len() - 1 || path.is_dir;
        if is_dir && (is_excluded_name(&path.parts[i]) || (i < path.manifests.len()
            && path.manifests[i])) {
            assert(leaves_audit(path@, i as int));
            return true;
        }
        i += 1;
    }
    false
}

/// The path below the root as it is shown.
pub fn display_relative_path(project_root: &Vec<String>, scoped_path: &LocatedPath) -> (r: String)
    ensures
        r@ == shown(text::texts(project_root@), scoped_path@),
{
    if is_under(project_root, &scoped_path.parts) {
        let mut names: Vec<String> = Vec::new();
        let mut i: usize = project_root.len();
        let ghost all = scoped_path@.parts.skip(project_root.len() as int);
        while i < scoped_path.parts.len()
            invariant
                project_root.len() <= i <= scoped_path.parts.len(),
                all == scoped_path@.parts.skip(project_root.len() as int),
                names.len() == i - project_root.len(),
                forall|k: int| 0 <= k < names.len() ==> #[trigger] names@[k]@ == all[k],
            decreases scoped_path.parts.len() - i,
        {
            names.push(scoped_path.parts[i].clone());
            i += 1;
        }
        assert(text::texts(names@) =~= all);
        text::join(&names, "/")
    } else {
        scoped_path.written.clone()
    }
}

impl Denial {
    /// The denial in words.
    pub fn message(&self) -> (r: String)
        ensures
            r@ == denial_text(self@),
    {
        match self {
            Denial::CommandNotPermitted { command } => "Command '".to_owned().concat(
                command,
            ).concat("' is not permitted by permission prompt"),
            Denial::Inaccessible { path } =>
                "Path does not exist or is inaccessible: ".to_owned().concat(path),
            Denial::EscapesRoot { path } =>
                "Path escapes project root and is not allowed: ".to_owned().concat(path),
            Denial::Excluded { path } => {
                let mut r = "Request denied: '".to_owned();
                r.append(path);
                r.append("' is inside an excluded directory (");
                r.append(&text::join(&excluded_dir_names(), ", "));
                r.append("); these directories are outside the audit scope");
                r
            },
            Denial::StrictListing =>
                "Request denied by strict read scope: directory listing and file discovery are not allowed".to_owned(),
            Denial::StrictNotAFile =>
                "Request denied by strict read scope: only known source files can be accessed".to_owned(),
            Denial::StrictUnknownFile { path } =>
                "Request denied by strict read scope: '".to_owned().concat(path).concat(
                "' is not an allowed source file",
            ),
            Denial::RefusedByUser { request } =>
                "Request denied by user confirmation: ".to_owned().concat(request),
        }
    }
}

/// Whether the permissions list the command, in any case of letters.
pub open spec fn permits(permissions: PermissionPromptSpec, command: Seq<char>) -> bool {
    exists|i: int|
        0 <= i < permissions.allowed_commands@.len() && text::lowered(
            #[trigger] permissions.allowed_commands@[i]@,
        ) == text::lowered(command)
}

/// Whether the permissions restrict reads to the known sources.
pub open spec fn is_strict(permissions: PermissionPromptSpec) -> bool {
    text::lowered(permissions.read_scope@) == text::lowered("strict"@)
}

/// Refuses a command that the permissions do not list.
pub fn ensure_allowed(permission_prompt: &PermissionPromptSpec, command: &str) -> (r: Result<
    (),
    Denial,
>)
    ensures
        check_view(r) == if permits(*permission_prompt, command@) {
            Ok(())
        } else {
            Err(DenialView::CommandNotPermitted { command: command@ })
        },
{
    let commands = &permission_prompt.allowed_commands;
    let mut i: usize = 0;
    while i < commands.len()
        invariant
            i <= commands.len(),
            *commands == permission_prompt.allowed_commands,
            forall|k: int|
                0 <= k < i ==> text::lowered(#[trigger] commands@[k]@) != text::lowered(command@),
        decreases commands.len() - i,
    {
        if text::same_ignoring_case(&commands[i], command) {
            return Ok(());
        }
        i += 1;
    }
    Err(Denial::CommandNotPermitted { command: command.to_owned() })
}

/// The path that a request asks for, which is the project itself where it asks
/// for none.
pub open spec fn wanted_path(requested: Seq<char>) -> Seq<char> {
    if text::is_blank(requested) {
        "."@
    } else {
        text::trimmed(requested)
    }
}

/// The path that a request asks for.
pub fn requested_path(requested: &str) -> (r: String)
    ensures
        r@ == wanted_path(requested@),
{
    let trimmed = text::trim(requested);
    if trimmed.is_empty() {
        ".".to_owned()
    } else {
        trimmed.to_owned()
    }
}

/// What becomes of a requested path that leads to `located`, or nowhere.
pub open spec fn resolution(
    root: Seq<Seq<char>>,
    requested: Seq<char>,
    located: Option<PathView>,
) -> Result<PathView, DenialView> {
    match located {
        None => Err(DenialView::Inaccessible { path: wanted_path(requested) }),
        Some(path) => if under(root, path.parts) {
            Ok(path)
        } else {
            Err(DenialView::EscapesRoot { path: wanted_path(requested) })
        },
    }
}

/// What a result of resolving a path says.
pub open spec fn resolution_view(r: Result<LocatedPath, Denial>) -> Result<PathView, DenialView> {
    match r {
        Ok(path) => Ok(path@),
        Err(denial) => Err(denial@),
    }
}

/// Refuses a requested path that leads nowhere or out of the project.
pub fn resolve_scoped_path(
    project_root: &Vec<String>,
    requested: &str,
    located: Option<LocatedPath>,
) -> (r: Result<LocatedPath, Denial>)
    ensures
        resolution_view(r) == resolution(
            text::texts(project_root@),
            requested@,
            opt_path(located),
        ),
{
    match located {
        None => Err(Denial::Inaccessible { path: requested_path(requested) }),
        Some(path) => if is_under(project_root, &path.parts) {
            Ok(path)
        } else {
            Err(Denial::EscapesRoot { path: requested_path(requested) })
        },
    }
}

/// Where the `i`-th of the known sources leads.
pub open spec fn located_at(located: Seq<Option<PathView>>, i: int) -> Option<PathView> {
    if 0 <= i < located.len() {
        located[i]
    } else {
        None
    }
}

/// The complaint about the first of the known sources, from the `i`-th on, that
/// leads nowhere or out of the project.
pub open spec fn allowed_denial(
    root: Seq<Seq<char>>,
    allowed: Seq<Seq<char>>,
    located: Seq<Option<PathView>>,
    i: int,
) -> Option<DenialView>
    decreases allowed.len() - i,
{
    if 0 <= i < allowed.len() {
        match resolution(root, allowed[i], located_at(located, i)) {
            Err(denial) => Some(denial),
            Ok(_) => allowed_denial(root, allowed, located, i + 1),
        }
    } else {
        None
    }
}

/// Whether one of the known sources leads to the path.
pub open spec fn is_known_source(
    allowed: nat,
    located: Seq<Option<PathView>>,
    parts: Seq<Seq<char>>,
) -> bool {
    exists|i: int|
        0 <= i < allowed && (#[trigger] located_at(located, i) matches Some(path) && path.parts
            == parts)
}

/// What the read scope says to a request for a path.
pub open spec fn scope_verdict(
    request: RequestView,
    path: PathView,
    is_file: bool,
    root: Seq<Seq<char>>,
    permissions: PermissionPromptSpec,
    located: Seq<Option<PathView>>,
) -> Result<(), DenialView> {
    let allowed = text::texts(permissions.allowed_paths@);
    if ignored(root, path) {
        Err(DenialView::Excluded { path: shown(root, path) })
    } else if !is_strict(permissions) {
        Ok(())
    } else if request is ListDir || request is FindFiles {
        Err(DenialView::StrictListing)
    } else if !is_file {
        Err(DenialView::StrictNotAFile)
    } else {
        match allowed_denial(root, allowed, located, 0) {
            Some(denial) => Err(denial),
            None => if is_known_source(allowed.len(), located, path.parts) {
                Ok(())
            } else {
                Err(DenialView::StrictUnknownFile { path: shown(root, path) })
            },
        }
    }
}

/// Refuses known sources that lead nowhere or out of the project. `located` says
/// where each of them leads.
pub fn resolve_allowed_paths(
    project_root: &Vec<String>,
    permission_prompt: &PermissionPromptSpec,
    located: &Vec<Option<LocatedPath>>,
) -> (r: Result<(), Denial>)
    ensures
        check_view(r) == match allowed_denial(
            text::texts(project_root@),
            text::texts(permission_prompt.allowed_paths@),
            opt_paths(located@),
            0,
        ) {
            Some(denial) => Err(denial),
            None => Ok(()),
        },
{
    let ghost root = text::texts(project_root@);
    let ghost allowed = text::texts(permission_prompt.allowed_paths@);
    let ghost places = opt_paths(located@);
    let paths = &permission_prompt.allowed_paths;
    let mut i: usize = 0;
    while i < paths.len()
        invariant
            i <= paths.len(),
            *paths == permission_prompt.allowed_paths,
            root == text::texts(project_root@),
            allowed == text::texts(paths@),
            places == opt_paths(located@),
            allowed_denial(root, allowed, places, 0) == allowed_denial(
                root,
                allowed,
                places,
                i as int,
            ),
        decreases paths.len() - i,
    {
        assert(allowed[i as int] == paths@[i as int]@);
        let missing: Option<LocatedPath> = None;
        let place = if i < located.len() {
            &located[i]
        } else {
            &missing
        };
        assert(opt_path(*place) == located_at(places, i as int));
        match place {
            None => {
                return Err(Denial::Inaccessible { path: requested_path(&paths[i]) });
            },
            Some(path) => if !is_under(project_root, &path.parts) {
                return Err(Denial::EscapesRoot { path: requested_path(&paths[i]) });
            },
        }
        i += 1;
    }
    Ok(())
}

/// Refuses what the read scope does not let a request read. `is_file` says
/// whether the path is a file, `located` where each of the known sources leads.
pub fn enforce_read_scope(
    request: &ReadRequest,
    scoped_path: &LocatedPath,
    is_file: bool,
    project_root: &Vec<String>,
    permission_prompt: &PermissionPromptSpec,
    located: &Vec<Option<LocatedPath>>,
) -> (r: Result<(), Denial>)
    ensures
        check_view(r) == scope_verdict(
            request@,
            scoped_path@,
            is_file,
            text::texts(project_root@),
            *permission_prompt,
            opt_paths(located@),
        ),
{
    if is_ignored_path(project_root, scoped_path) {
        return Err(Denial::Excluded { path: display_relative_path(project_root, scoped_path) });
    }
    if !text::same_ignoring_case(&permission_prompt.read_scope, "strict") {
        return Ok(());
    }
    let listing = match request {
        ReadRequest::ListDir { .. } => true,
        ReadRequest::FindFiles { .. } => true,
        _ => false,
    };
    if listing {
        return Err(Denial::StrictListing);
    }
    if !is_file {
        return Err(Denial::StrictNotAFile);
    }
    match resolve_allowed_paths(project_root, permission_prompt, located) {
        Err(denial) => {
            return Err(denial);
        },
        Ok(()) => {},
    }
    let ghost places = opt_paths(located@);
    let mut i: usize = 0;
    while i < permission_prompt.allowed_paths.len() && i < located.len()
        invariant
            i <= permission_prompt.allowed_paths.len(),
            i <= located.len(),
            places == opt_paths(located@),
            scope_verdict(
                request@,
                scoped_path@,
                is_file,
                text::texts(project_root@),
                *permission_prompt,
                places,
            ) == if is_known_source(
                permission_prompt.allowed_paths@.len(),
                places,
                scoped_path@.parts,
            ) {
                Ok::<(), DenialView>(())
            } else {
                Err(
                    DenialView::StrictUnknownFile {
                        path: shown(text::texts(project_root@), scoped_path@),
                    },
                )
            },
            forall|k: int|
                0 <= k < i ==> !(#[trigger] located_at(places, k) matches Some(path) && path.parts
                    == scoped_path@.parts),
        decreases located.len() - i,
    {
        assert(located_at(places, i as int) == opt_path(located@[i as int]));
        match &located[i] {
            Some(path) => if is_same_path(&path.parts, &scoped_path.parts) {
                return Ok(());
            },
            None => {},
        }
        i += 1;
    }
    Err(Denial::StrictUnknownFile { path: display_relative_path(project_root, scoped_path) })
}

/// Whether an answer to a yes-or-no question is a yes.
pub open spec fn is_yes(answer: Seq<char>) -> bool {
    let word = text::lowered(text::trimmed(answer));
    word == "y"@ || word == "yes"@
}

/// Whether an answer to a yes-or-no question is a yes.
pub fn is_affirmative(answer: &str) -> (r: bool)
    ensures
        r == is_yes(answer@),
{
    let word = text::lower(text::trim(answer));
    text::same(&word, "y") || text::same(&word, "yes")
}

/// Refuses a request that the user was asked about and did not confirm.
pub fn confirm_request_if_interactive(
    request: &ReadRequest,
    interactive: bool,
    answer: &str,
) -> (r: Result<(), Denial>)
    ensures
        check_view(r) == if interactive && !is_yes(answer@) {
            Err(DenialView::RefusedByUser { request: actions::summary_of(request@) })
        } else {
            Ok(())
        },
{
    if !interactive || is_affirmative(answer) {
        Ok(())
    } else {
        Err(Denial::RefusedByUser { request: actions::summarize_read_request(request) })
    }
}

/// What the user is shown before being asked to confirm a request.
pub open spec fn confirmation_text(
    request: RequestView,
    root: Seq<Seq<char>>,
    path: PathView,
) -> Seq<char> {
    "[audit][permission] "@ + actions::summary_of(request) + " -> "@ + shown(root, path)
}

/// What the user is shown before being asked to confirm a request.
pub fn confirmation_notice(
    request: &ReadRequest,
    project_root: &Vec<String>,
    scoped_path: &LocatedPath,
) -> (r: String)
    ensures
        r@ == confirmation_text(request@, text::texts(project_root@), scoped_path@),
{
    let mut r = "[audit][permission] ".to_owned();
    r.append(&actions::summarize_read_request(request));
    r.append(" -> ");
    r.append(&display_relative_path(project_root, scoped_path));
    r
}

proof fn lemma_letters(c: char)
    ensures
        text::lower_char(c) == 'y' <==> c == 'y' || c == 'Y',
        text::lower_char(c) == 'e' <==> c == 'e' || c == 'E',
        text::lower_char(c) == 's' <==> c == 's' || c == 'S',
{
}

/// An answer is a yes where, white space around it aside, it is `y` or `yes` in any
/// mixture of small letters and capitals, and no other answer is one.
pub proof fn law_a_yes_is_told_by_its_letters(front: Seq<char>, word: Seq<char>, back: Seq<char>)
    requires
        forall|i: int| 0 <= i < front.len() ==> text::is_space(#[trigger] front[i]),
        forall|i: int| 0 <= i < back.len() ==> text::is_space(#[trigger] back[i]),
        word.len() > 0 ==> !text::is_space(word[0]) && !text::is_space(word.last()),
    ensures
        is_yes(front + word + back) <==> ((word.len() == 1 && (word[0] == 'y' || word[0] == 'Y'))
            || (word.len() == 3 && (word[0] == 'y' || word[0] == 'Y') && (word[1] == 'e' || word[1]
            == 'E') && (word[2] == 's' || word[2] == 'S'))),
{
    text::law_trimming_takes_the_padding(front, word, back);
    reveal_strlit("y");
    reveal_strlit("yes");
    let small = text::lowered(word);
    if word.len() == 1 {
        lemma_letters(word[0]);
        assert(small[0] == 'y' ==> small =~= "y"@);
    } else if word.len() == 3 {
        lemma_letters(word[0]);
        lemma_letters(word[1]);
        lemma_letters(word[2]);
        assert(small[0] == 'y' && small[1] == 'e' && small[2] == 's' ==> small =~= "yes"@);
        assert(small =~= "yes"@ ==> small[0] == 'y' && small[1] == 'e' && small[2] == 's');
    }
    assert("y"@.len() == 1 && "y"@[0] == 'y');
    assert("yes"@.len() == 3 && "yes"@[0] == 'y' && "yes"@[1] == 'e' && "yes"@[2] == 's');
    assert(small.len() == word.len());
}

/// A request asks for the path that it names without the white space around it, and
/// for the project itself where it names none.
pub proof fn law_requests_ask_for_the_path_they_name(
    front: Seq<char>,
    core: Seq<char>,
    back: Seq<char>,
)
    requires
        forall|i: int| 0 <= i < front.len() ==> text::is_space(#[trigger] front[i]),
        forall|i: int| 0 <= i < back.len() ==> text::is_space(#[trigger] back[i]),
        core.len() > 0 ==> !text::is_space(core[0]) && !text::is_space(core.last()),
    ensures
        core.len() > 0 ==> wanted_path(front + core + back) == core,
        core.len() == 0 ==> wanted_path(front + core + back) == seq!['.'],
{
    text::law_trimming_takes_the_padding(front, core, back);
    reveal_strlit(".");
    assert("."@ =~= seq!['.']);
}

/// A path below the root is let through unchanged and shown by its names below the
/// root, with slashes between them.
pub proof fn law_paths_below_the_root_are_let_through(
    root: Seq<Seq<char>>,
    below: Seq<Seq<char>>,
    requested: Seq<char>,
    path: PathView,
)
    requires
        path.parts == root + below,
    ensures
        resolution(root, requested, Some(path)) == Ok::<PathView, DenialView>(path),
        shown(root, path) == text::joined(below, seq!['/']),
{
    assert((root + below).take(root.len() as int) =~= root);
    assert((root + below).skip(root.len() as int) =~= below);
    reveal_strlit("/");
    assert("/"@ =~= seq!['/']);
}

/// A path that parts from the root somewhere, or ends above it, escapes the project,
/// and a path that leads nowhere is inaccessible; the complaint names what was asked
/// for.
pub proof fn law_paths_elsewhere_are_refused(
    root: Seq<Seq<char>>,
    requested: Seq<char>,
    path: PathView,
    i: int,
)
    requires
        path.parts.len() < root.len() || (0 <= i < root.len() && path.parts[i] != root[i]),
        requested.len() > 0,
        !text::is_space(requested[0]),
        !text::is_space(requested.last()),
    ensures
        resolution(root, requested, Some(path)) == Err::<PathView, DenialView>(
            DenialView::EscapesRoot { path: requested },
        ),
        resolution(root, requested, None) == Err::<PathView, DenialView>(
            DenialView::Inaccessible { path: requested },
        ),
        shown(root, path) == path.written,
        !ignored(root, path),
{
    let none = Seq::<char>::empty();
    assert(none + requested + none =~= requested);
    text::law_trimming_takes_the_padding(none, requested, none);
    if root.len() <= path.parts.len() {
        assert(path.parts.take(root.len() as int)[i] == path.parts[i]);
    }
}

proof fn lemma_excluded_names(name: Seq<char>)
    ensures
        excluded_names().contains(name) <==> name == ".git"@ || name == "target"@ || name
            == ".tx3"@ || name == "build"@,
{
    let all = excluded_names();
    assert(all[0] == ".git"@ && all[1] == "target"@ && all[2] == ".tx3"@ && all[3] == "build"@);
    if all.contains(name) {
        let i = choose|i: int| 0 <= i < all.len() && all[i] == name;
        assert(i == 0 || i == 1 || i == 2 || i == 3);
    }
}

/// What lies at or below a directory of an excluded name, or one with a manifest of
/// its own, is ignored wherever below the root the directory stands.
pub proof fn law_excluded_directories_are_ignored_at_any_depth(
    root: Seq<Seq<char>>,
    above: Seq<Seq<char>>,
    name: Seq<char>,
    below: Seq<Seq<char>>,
    path: PathView,
)
    requires
        path.parts == root + above + seq![name] + below,
        below.len() > 0 || path.is_dir,
        name == ".git"@ || name == "target"@ || name == ".tx3"@ || name == "build"@ || (
        path.manifests.len() > root.len() + above.len() && path.manifests[(root.len()
            + above.len()) as int]),
    ensures
        ignored(root, path),
{
    let i = (root.len() + above.len()) as int;
    lemma_excluded_names(name);
    assert(path.parts.take(root.len() as int) =~= root);
    assert(path.parts[i] == name);
    assert(leaves_audit(path, i));
}

/// A path below the root is not ignored where none of the directories on it has an
/// excluded name or a manifest. The root itself and the name of a file do not count.
pub proof fn law_nothing_else_is_ignored(root: Seq<Seq<char>>, path: PathView)
    requires
        forall|i: int|
            root.len() <= i < path.parts.len() && (i + 1 < path.parts.len() || path.is_dir) ==> (
            #[trigger] path.parts[i]) != ".git"@ && path.parts[i] != "target"@ && path.parts[i]
                != ".tx3"@ && path.parts[i] != "build"@ && !(i < path.manifests.len()
                && path.manifests[i]),
    ensures
        !ignored(root, path),
{
    assert forall|i: int| root.len() <= i < path.parts.len() implies !#[trigger] leaves_audit(
        path,
        i,
    ) by {
        lemma_excluded_names(path.parts[i]);
    }
}

/// A denial repeats what it refuses as it stands.
pub proof fn law_denials_name_what_they_refuse(what: Seq<char>)
    ensures
        text::occurs(denial_text(DenialView::CommandNotPermitted { command: what }), what),
        text::ends_with(denial_text(DenialView::Inaccessible { path: what }), what),
        text::ends_with(denial_text(DenialView::EscapesRoot { path: what }), what),
        text::occurs(denial_text(DenialView::Excluded { path: what }), what),
        text::occurs(denial_text(DenialView::StrictUnknownFile { path: what }), what),
        text::ends_with(denial_text(DenialView::RefusedByUser { request: what }), what),
{
    let command = denial_text(DenialView::CommandNotPermitted { command: what });
    let a = "Command '"@.len() as int;
    assert(command.subrange(a, a + what.len()) =~= what);
    assert(text::is_at(command, what, a));
    let missing = denial_text(DenialView::Inaccessible { path: what });
    assert(missing.subrange(missing.len() - what.len(), missing.len() as int) =~= what);
    let escapes = denial_text(DenialView::EscapesRoot { path: what });
    assert(escapes.subrange(escapes.len() - what.len(), escapes.len() as int) =~= what);
    let excluded = denial_text(DenialView::Excluded { path: what });
    let b = "Request denied: '"@.len() as int;
    assert(excluded.subrange(b, b + what.len()) =~= what);
    assert(text::is_at(excluded, what, b));
    let unknown = denial_text(DenialView::StrictUnknownFile { path: what });
    let c = "Request denied by strict read scope: '"@.len() as int;
    assert(unknown.subrange(c, c + what.len()) =~= what);
    assert(text::is_at(unknown, what, c));
    let refused = denial_text(DenialView::RefusedByUser { request: what });
    assert(refused.subrange(refused.len() - what.len(), refused.len() as int) =~= what);
}

/// A command is permitted where it is anywhere in the list, capitals aside, and
/// nowhere else; reads are restricted where the scope is called `strict`.
pub proof fn law_permissions_are_read_as_listed(
    permissions: PermissionPromptSpec,
    command: Seq<char>,
    i: int,
)
    ensures
        0 <= i < permissions.allowed_commands@.len() && text::lowered(
            permissions.allowed_commands@[i]@,
        ) == text::lowered(command) ==> permits(permissions, command),
        (forall|k: int|
            0 <= k < permissions.allowed_commands@.len() ==> text::lowered(
                #[trigger] permissions.allowed_commands@[k]@,
            ) != text::lowered(command)) ==> !permits(permissions, command),
        is_strict(permissions) <==> text::lowered(permissions.read_scope@) == "strict"@,
{
    reveal_strlit("strict");
    reveal_with_fuel(text::is_small_from, 8);
    text::lemma_small_text_stays("strict"@);
}

proof fn lemma_no_complaint(
    root: Seq<Seq<char>>,
    allowed: Seq<Seq<char>>,
    located: Seq<Option<PathView>>,
    i: int,
)
    requires
        0 <= i,
        located.len() == allowed.len(),
        forall|k: int|
            0 <= k < located.len() ==> (#[trigger] located[k] matches Some(path) && under(
                root,
                path.parts,
            )),
    ensures
        allowed_denial(root, allowed, located, i) is None,
    decreases allowed.len() - i,
{
    if i < allowed.len() {
        assert(located_at(located, i) == located[i]);
        lemma_no_complaint(root, allowed, located, i + 1);
    }
}

/// Under the strict scope a file that any of the known sources leads to may be read
/// and searched, and any other file is refused by the name it is shown by.
pub proof fn law_strict_scope_lets_known_sources_through(
    request: RequestView,
    path: PathView,
    root: Seq<Seq<char>>,
    permissions: PermissionPromptSpec,
    located: Seq<Option<PathView>>,
    i: int,
)
    requires
        is_strict(permissions),
        request is ReadFile || request is Grep,
        !ignored(root, path),
        located.len() == permissions.allowed_paths@.len(),
        forall|k: int|
            0 <= k < located.len() ==> (#[trigger] located[k] matches Some(source) && under(
                root,
                source.parts,
            )),
    ensures
        0 <= i < located.len() && located[i]->0.parts == path.parts ==> scope_verdict(
            request,
            path,
            true,
            root,
            permissions,
            located,
        ) == Ok::<(), DenialView>(()),
        (forall|k: int| 0 <= k < located.len() ==> (#[trigger] located[k])->0.parts != path.parts)
            ==> scope_verdict(request, path, true, root, permissions, located) == Err::<
            (),
            DenialView,
        >(DenialView::StrictUnknownFile { path: shown(root, path) }),
        scope_verdict(request, path, false, root, permissions, located) == Err::<(), DenialView>(
            DenialView::StrictNotAFile,
        ),
{
    let allowed = text::texts(permissions.allowed_paths@);
    lemma_no_complaint(root, allowed, located, 0);
    if 0 <= i < located.len() {
        assert(located_at(located, i) == located[i]);
    }
    if is_known_source(allowed.len(), located, path.parts) {
        let k = choose|k: int|
            0 <= k < allowed.len() && (#[trigger] located_at(located, k) matches Some(source)
                && source.parts == path.parts);
        assert(located[k]->0.parts == path.parts);
    }
}

/// Where a known source leads nowhere or out of the project, the first such source is
/// what a strict request is refused for.
pub proof fn law_lost_sources_are_complained_of(
    root: Seq<Seq<char>>,
    allowed: Seq<Seq<char>>,
    located: Seq<Option<PathView>>,
    from: int,
    i: int,
)
    requires
        0 <= from <= i < allowed.len(),
        located.len() == allowed.len(),
        forall|k: int|
            from <= k < i ==> (#[trigger] located[k] matches Some(path) && under(root, path.parts)),
        allowed[i].len() > 0,
        !text::is_space(allowed[i][0]),
        !text::is_space(allowed[i].last()),
    ensures
        located[i] is None ==> allowed_denial(root, allowed, located, from) == Some(
            DenialView::Inaccessible { path: allowed[i] },
        ),
        located[i] matches Some(path) && !under(root, path.parts) ==> allowed_denial(
            root,
            allowed,
            located,
            from,
        ) == Some(DenialView::EscapesRoot { path: allowed[i] }),
    decreases i - from,
{
    assert(located_at(located, from) == located[from]);
    if from < i {
        law_lost_sources_are_complained_of(root, allowed, located, from + 1, i);
    } else {
        let none = Seq::<char>::empty();
        assert(none + allowed[i] + none =~= allowed[i]);
        text::law_trimming_takes_the_padding(none, allowed[i], none);
    }
}

/// The user is shown the whole request and the path that it leads to.
pub proof fn law_users_see_what_they_confirm(
    request: RequestView,
    root: Seq<Seq<char>>,
    path: PathView,
)
    ensures
        text::occurs(confirmation_text(request, root, path), actions::summary_of(request)),
        text::ends_with(confirmation_text(request, root, path), shown(root, path)),
{
    let notice = confirmation_text(request, root, path);
    let words = actions::summary_of(request);
    let a = "[audit][permission] "@.len() as int;
    assert(notice.subrange(a, a + words.len()) =~= words);
    assert(text::is_at(notice, words, a));
    let place = shown(root, path);
    assert(notice.subrange(notice.len() - place.len(), notice.len() as int) =~= place);
}

} // verus!
