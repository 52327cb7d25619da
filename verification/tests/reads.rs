use preflight::agent::actions::ReadRequest;
use preflight::model::PermissionPromptSpec;
use preflight::reads::command::{prunes_directories, render_command_output, run_command_capture};
use preflight::reads::glob::glob_match;
use preflight::reads::requests::{
    check_read_request, file_name_of, find_result, list_result, nothing_to_search,
    plan_read_request, search_arguments, ReadPlan,
};
use preflight::reads::scope::{
    confirm_request_if_interactive, confirmation_notice, display_relative_path, is_affirmative,
    is_ignored_path, requested_path, LocatedPath,
};
use preflight::reads::task::{Handed, ReadTask, Step};
use preflight::reads::walk::{DirectoryEntry, FileWalk};
use preflight::text;

fn root() -> Vec<String> {
    vec!["/".to_string(), "work".to_string(), "project".to_string()]
}

/// The path below the root, with the directories in `nested` holding a manifest.
fn located(relative: &str, is_dir: bool, nested: &[&str]) -> LocatedPath {
    let mut parts = root();
    let mut manifests = vec![false, false, true];
    let mut walked = String::new();
    let mut written = "/work/project".to_string();
    for name in relative.split('/').filter(|name| !name.is_empty()) {
        if !walked.is_empty() {
            walked.push('/');
        }
        walked.push_str(name);
        written.push('/');
        written.push_str(name);
        parts.push(name.to_string());
        manifests.push(nested.contains(&walked.as_str()));
    }
    LocatedPath { parts, manifests, is_dir, written }
}

/// The file below the root.
fn file(relative: &str) -> LocatedPath {
    located(relative, false, &[])
}

/// The directory below the root.
fn dir(relative: &str) -> LocatedPath {
    located(relative, true, &[])
}

/// A project in memory: the files with what they hold, the directories beside
/// those that hold a file, and the directories that cannot be read.
struct Disk {
    files: Vec<(String, String)>,
    dirs: Vec<String>,
    locked: Vec<String>,
    /// Whether the search program can leave directories out by their names.
    prunes: bool,
}

impl Disk {
    fn new() -> Disk {
        Disk { files: vec![], dirs: vec![], locked: vec![], prunes: true }
    }

    /// A project with a source and with something in each excluded directory.
    fn seeded() -> Disk {
        let mut disk = Disk::new();
        disk.write("validators/spend.ak", "validator spend {}\n");
        for dir in ["build", "target", ".git", ".tx3"] {
            disk.dirs.push(dir.to_string());
        }
        disk.write("build/secret.ak", "validator secret {}\n");
        disk.write(".git/config", "[core]\n");
        disk
    }

    fn write(&mut self, path: &str, content: &str) {
        self.files.push((path.to_string(), content.to_string()));
    }

    fn is_file(&self, path: &str) -> bool {
        self.files.iter().any(|(name, _)| name == path)
    }

    fn is_dir(&self, path: &str) -> bool {
        let within = format!("{path}/");
        path.is_empty()
            || self.dirs.iter().any(|dir| dir == path || dir.starts_with(&within))
            || self.files.iter().any(|(name, _)| name.starts_with(&within))
    }

    fn has_manifest(&self, path: &str) -> bool {
        self.is_file(&format!("{path}/aiken.toml"))
    }

    fn located(&self, path: &str) -> Option<LocatedPath> {
        if !self.is_file(path) && !self.is_dir(path) {
            return None;
        }
        let nested: Vec<&str> = self
            .files
            .iter()
            .filter_map(|(name, _)| name.strip_suffix("/aiken.toml"))
            .collect();
        Some(located(path, self.is_dir(path), &nested))
    }

    /// The path below the root that is written so.
    fn relative(written: &str) -> String {
        let rest = written.strip_prefix("/work/project").expect("below the root");
        rest.trim_start_matches('/').to_string()
    }

    fn names_in(&self, dir: &str) -> Vec<String> {
        let within = if dir.is_empty() { String::new() } else { format!("{dir}/") };
        let mut names: Vec<String> = self
            .files
            .iter()
            .map(|(name, _)| name)
            .chain(self.dirs.iter())
            .filter_map(|path| path.strip_prefix(within.as_str()))
            .map(|rest| rest.split('/').next().expect("a name").to_string())
            .collect();
        names.sort();
        names.dedup();
        names
    }

    fn entries_of(&self, written: &str) -> Option<Vec<DirectoryEntry>> {
        let dir = Disk::relative(written);
        if self.locked.contains(&dir) {
            return None;
        }
        let entry_of = |name: &String| {
            let path = if dir.is_empty() { name.clone() } else { format!("{dir}/{name}") };
            DirectoryEntry {
                name: name.clone(),
                is_dir: self.is_dir(&path),
                has_manifest: self.has_manifest(&path),
                written: format!("{written}/{name}"),
            }
        };
        Some(self.names_in(&dir).iter().map(entry_of).collect())
    }

    fn collect(&self, target: LocatedPath, tolerant: bool) -> Result<Handed, String> {
        let is_file = !target.is_dir;
        let mut walk = FileWalk::start(target, is_file);
        while let Some(dir) = walk.next_dir() {
            let entries = match self.entries_of(&dir.written) {
                Some(entries) => entries,
                None if tolerant => vec![],
                None => return Err(format!("Failed to read directory {}", dir.written)),
            };
            walk.visit(&root(), &dir, entries);
        }
        let nested = walk.nested;
        Ok(Handed::Files { files: walk.finish(), nested })
    }

    /// The output of a program, as far as the requests below need it. Without
    /// `-E` an alternation is taken as it is written, and without `-r` no
    /// directory is searched.
    fn run(&self, program: &str, args: &[String]) -> String {
        match program {
            "cat" => {
                let wanted = Disk::relative(&args[0]);
                let found = self.files.iter().find(|(name, _)| *name == wanted);
                let content = found.map(|(_, content)| content.as_str()).unwrap_or("");
                run_command_capture(content.as_bytes(), b"", Some(0), true)
            }
            "grep" => {
                let end = args.iter().position(|arg| arg == "--").expect("an end of options");
                let options = &args[..end];
                let pattern = &args[end + 1];
                let recursive = options.contains(&"-r".to_string());
                let words: Vec<&str> = if options.contains(&"-E".to_string()) {
                    pattern.split('|').collect()
                } else {
                    vec![pattern.as_str()]
                };
                let mut matches = String::new();
                let mut complaints = String::new();
                for target in &args[end + 2..] {
                    let target = Disk::relative(target);
                    if self.is_dir(&target) && !recursive {
                        complaints.push_str(&format!("grep: {target}: Is a directory\n"));
                        continue;
                    }
                    for (name, content) in &self.files {
                        let below = target.is_empty() || name.starts_with(&format!("{target}/"));
                        let pruned = name
                            .split('/')
                            .rev()
                            .skip(1)
                            .any(|dir| options.contains(&format!("--exclude-dir={dir}")));
                        let locked =
                            self.locked.iter().any(|dir| name.starts_with(&format!("{dir}/")));
                        if *name != target && (!below || pruned || locked) {
                            continue;
                        }
                        for line in content.lines() {
                            if words.iter().any(|word| line.contains(word)) {
                                matches.push_str(&format!("{name}:{line}\n"));
                            }
                        }
                    }
                }
                run_command_capture(matches.as_bytes(), complaints.as_bytes(), Some(0), true)
            }
            other => panic!("got {other}"),
        }
    }

    fn list(&self, args: &[String]) -> Handed {
        assert_eq!(args[0], "-la");
        let dir = Disk::relative(&args[1]);
        let mut listing = "total 0\ndrwxr-xr-x 1 u g 0 Jan 1 .\n".to_string();
        for name in self.names_in(&dir) {
            listing.push_str(&format!("-rw-r--r-- 1 u g 0 Jan 1 {name}\n"));
        }
        let located = text::lines(&listing)
            .iter()
            .map(|line| {
                let name = text::last_word(line)?;
                let path = if dir.is_empty() { name.to_string() } else { format!("{dir}/{name}") };
                Some(self.located(&path).unwrap_or(file(&path)))
            })
            .collect();
        Handed::Listing { listing, located }
    }

    /// Carries a read request out: the result, or why there is none.
    fn execute(
        &self,
        request: ReadRequest,
        path: &str,
        permissions: &PermissionPromptSpec,
    ) -> Result<String, String> {
        let wanted = requested_path(path);
        let wanted = if wanted == "." { "" } else { wanted.as_str() };
        let sources = permissions.allowed_paths.iter().map(|path| self.located(path)).collect();
        let (mut task, mut step) = ReadTask::open(
            request,
            root(),
            permissions,
            self.located(wanted),
            self.is_file(wanted),
            &sources,
        )
        .map_err(|denial| denial.message())?;
        loop {
            let handed = match step {
                Step::Run { program, args } => Handed::Output(self.run(&program, &args)),
                Step::Probe => Handed::Probed { prunes: self.prunes },
                Step::Collect { tolerant } => self.collect(task.path().clone(), tolerant)?,
                Step::List { args } => self.list(&args),
                Step::Done(Ok(output)) => return Ok(output),
                Step::Done(Err(denial)) => return Err(denial.message()),
                Step::Confirm(_) | Step::Unexpected => panic!("got {:?}", step),
            };
            step = task.proceed(&handed);
        }
    }
}

fn prompt(scope: &str, commands: &[&str], allowed: &[&str]) -> PermissionPromptSpec {
    PermissionPromptSpec {
        shell: "bash".to_string(),
        allowed_commands: commands.iter().map(|command| command.to_string()).collect(),
        scope_rules: vec![],
        workspace_root: "/work/project".to_string(),
        read_scope: scope.to_string(),
        interactive_permissions: false,
        allowed_paths: allowed.iter().map(|path| path.to_string()).collect(),
    }
}

fn read(path: &str) -> ReadRequest {
    ReadRequest::ReadFile { path: path.to_string() }
}

#[test]
fn execute_read_request_strict_allows_known_file() {
    let mut disk = Disk::new();
    disk.write("validators/spend.ak", "validator spend {}\n");
    let output = disk
        .execute(
            read("validators/spend.ak"),
            "validators/spend.ak",
            &prompt("strict", &["cat"], &["validators/spend.ak"]),
        )
        .expect("request should be allowed");

    assert!(output.contains("validator spend"));
    let granted = file("validators/spend.ak");
    match plan_read_request(&read("validators/spend.ak"), &granted) {
        ReadPlan::Run { program, args } => {
            assert_eq!(program, "cat");
            assert_eq!(args, vec!["/work/project/validators/spend.ak".to_string()]);
        }
        other => panic!("got {:?}", other),
    }
}

#[test]
fn execute_read_request_strict_rejects_list_dir() {
    let err = Disk::new()
        .execute(
            ReadRequest::ListDir { path: ".".to_string() },
            ".",
            &prompt("strict", &["ls"], &["validators/spend.ak"]),
        )
        .expect_err("strict scope should reject list_dir");

    assert!(err.contains("strict read scope"));
}

#[test]
fn is_ignored_path_detects_excluded_and_nested_project_paths() {
    let mut disk = Disk::new();
    disk.dirs.push("build".to_string());
    disk.write("lib/vendored/aiken.toml", "");
    disk.write("validators/x.ak", "");
    disk.write("build/secret.ak", "");
    let ignored = |path: &str| is_ignored_path(&root(), &disk.located(path).expect("a path"));

    assert!(ignored("build/secret.ak"));
    assert!(ignored("build"));
    assert!(ignored("lib/vendored/aiken.toml"));
    assert!(ignored("lib/vendored"));
    assert!(!ignored("validators/x.ak"));
    assert!(!ignored("validators"));
    assert!(!ignored(""));
}

#[test]
fn only_directories_are_excluded_by_their_names() {
    assert!(!is_ignored_path(&root(), &file("build")));
    assert!(!is_ignored_path(&root(), &file("tools/target")));
    assert!(is_ignored_path(&root(), &dir("tools/target")));
    assert!(is_ignored_path(&root(), &file("tools/target/x")));

    let mut disk = Disk::new();
    disk.write("build", "just a script\n");
    disk.write("lib/a.ak", "test a() {}\n");
    let all = prompt("workspace", &["cat", "ls", "find"], &[]);
    assert_eq!(disk.execute(read("build"), "build", &all), Ok("just a script\n".to_string()));
    let list = ReadRequest::ListDir { path: ".".to_string() };
    let listing = disk.execute(list, ".", &all).expect("a listing");
    assert!(listing.lines().any(|line| line.ends_with(" build")), "{listing}");
    let find = ReadRequest::FindFiles { path: ".".to_string(), glob: None };
    assert_eq!(
        disk.execute(find, ".", &all),
        Ok("/work/project/build\n/work/project/lib/a.ak".to_string())
    );
}

#[test]
fn paths_outside_the_root_are_not_ignored_but_refused() {
    let outside = LocatedPath {
        parts: vec!["/".to_string(), "etc".to_string(), "build".to_string()],
        manifests: vec![false, false, false],
        is_dir: false,
        written: "/etc/build".to_string(),
    };
    assert!(!is_ignored_path(&root(), &outside));
    assert_eq!(display_relative_path(&root(), &outside), "/etc/build");
    let err = check_read_request(
        &read("../../etc/build"),
        &root(),
        &prompt("workspace", &["cat"], &[]),
        Some(outside),
        true,
        &vec![],
    )
    .expect_err("outside");
    assert_eq!(err.message(), "Path escapes project root and is not allowed: ../../etc/build");
}

#[test]
fn read_file_inside_excluded_dir_is_denied_even_in_workspace_scope() {
    let err = Disk::seeded()
        .execute(
            read("build/secret.ak"),
            "build/secret.ak",
            &prompt("workspace", &["cat"], &[]),
        )
        .expect_err("read inside excluded dir must be denied");

    assert!(err.contains("excluded directory"));
    assert_eq!(
        err,
        "Request denied: 'build/secret.ak' is inside an excluded directory (.git, target, .tx3, build); these directories are outside the audit scope"
    );
}

#[test]
fn read_file_in_normal_dir_is_allowed_in_workspace_scope() {
    let output = Disk::seeded()
        .execute(
            read("validators/spend.ak"),
            "validators/spend.ak",
            &prompt("workspace", &["cat"], &[]),
        )
        .expect("normal read should be allowed");

    assert!(output.contains("validator spend"));
}

#[test]
fn every_denial_says_why() {
    let denied = |request: &ReadRequest,
                  permissions: &PermissionPromptSpec,
                  located: Option<LocatedPath>,
                  is_file: bool| {
        check_read_request(
            request,
            &root(),
            permissions,
            located,
            is_file,
            &vec![Some(file("known.ak"))],
        )
        .expect_err("denied")
        .message()
    };
    assert_eq!(
        denied(&read("a.ak"), &prompt("workspace", &["grep"], &[]), Some(file("a.ak")), true),
        "Command 'cat' is not permitted by permission prompt"
    );
    assert_eq!(
        denied(&read("  "), &prompt("workspace", &["CAT"], &[]), None, true),
        "Path does not exist or is inaccessible: ."
    );
    let strict = prompt("Strict", &["cat"], &["known.ak"]);
    assert_eq!(
        denied(&read("lib"), &strict, Some(dir("lib")), false),
        "Request denied by strict read scope: only known source files can be accessed"
    );
    assert_eq!(
        denied(&read("other.ak"), &strict, Some(file("other.ak")), true),
        "Request denied by strict read scope: 'other.ak' is not an allowed source file"
    );
    let missing = prompt("strict", &["cat"], &["known.ak", "gone.ak"]);
    assert_eq!(
        denied(&read("known.ak"), &missing, Some(file("known.ak")), true),
        "Path does not exist or is inaccessible: gone.ak"
    );
}

#[test]
fn interactive_requests_need_a_yes() {
    assert!(confirm_request_if_interactive(&read("a.ak"), false, "").is_ok());
    assert!(confirm_request_if_interactive(&read("a.ak"), true, " Yes\n").is_ok());
    let err = confirm_request_if_interactive(&read("a.ak"), true, "no").expect_err("refused");
    assert_eq!(err.message(), "Request denied by user confirmation: read_file a.ak");
    assert!(is_affirmative("Y"));
    assert!(!is_affirmative("yep"));
    assert_eq!(
        confirmation_notice(&read("lib/a.ak"), &root(), &file("lib/a.ak")),
        "[audit][permission] read_file lib/a.ak -> lib/a.ak"
    );
}

fn grep(pattern: &str) -> ReadRequest {
    ReadRequest::Grep { pattern: pattern.to_string(), path: "lib".to_string(), context_lines: 1 }
}

#[test]
fn directories_are_searched_recursively_without_the_excluded_ones() {
    match plan_read_request(&grep("a|b"), &dir("lib")) {
        ReadPlan::Search { whole, args } => {
            assert_eq!(
                whole,
                vec![
                    "-E",
                    "-n",
                    "-C",
                    "1",
                    "-r",
                    "--exclude-dir=.git",
                    "--exclude-dir=target",
                    "--exclude-dir=.tx3",
                    "--exclude-dir=build",
                    "--",
                    "a|b",
                    "/work/project/lib"
                ]
            );
            assert_eq!(args, vec!["-E", "-n", "-C", "1", "--", "a|b"]);
            assert_eq!(
                search_arguments(args, &vec![file("lib/a.ak")]),
                vec!["-E", "-n", "-C", "1", "--", "a|b", "/work/project/lib/a.ak"]
            );
        }
        other => panic!("got {:?}", other),
    }
    match plan_read_request(&grep("-v"), &file("lib/a.ak")) {
        ReadPlan::Run { args, .. } => {
            assert_eq!(args, vec!["-E", "-n", "-C", "1", "--", "-v", "/work/project/lib/a.ak"]);
        }
        other => panic!("got {:?}", other),
    }
    assert_eq!(nothing_to_search(), "(no in-scope files to search)");
    assert!(prunes_directories(Some("grep (GNU grep) 3.11")));
    assert!(!prunes_directories(Some("grep (BSD grep) 2.6")));
    assert!(!prunes_directories(None));
}

#[test]
fn find_files_on_root_excludes_build_git_target_tx3() {
    let mut disk = Disk::seeded();
    disk.write("validators/extra.ak", "");
    let find = |glob: Option<&str>| {
        let glob = glob.map(|glob| glob.to_string());
        let request = ReadRequest::FindFiles { path: ".".to_string(), glob };
        disk.execute(request, ".", &prompt("workspace", &["find"], &[]))
            .expect("find should succeed")
    };
    let output = find(Some("*.ak"));

    assert!(output.contains("spend.ak"), "got: {output}");
    assert!(output.contains("extra.ak"), "got: {output}");
    assert!(!output.contains("secret.ak"), "excluded dir file must not leak: {output}");
    assert_eq!(
        output,
        "/work/project/validators/extra.ak\n/work/project/validators/spend.ak"
    );
    assert_eq!(find(Some("*.compact")), "(no matching files found)");
    assert_eq!(find(None), output);
    assert_eq!(find_result(&vec![], &None), "(no matching files found)");
}

#[test]
fn a_finished_walk_misses_nothing() {
    let mut disk = Disk::seeded();
    disk.write("aiken.toml", "");
    disk.write("lib/deep/er/a.ak", "");
    disk.write("lib/b.ak", "");
    disk.write("vendored/aiken.toml", "");
    disk.write("vendored/c.ak", "");
    let mut walk = FileWalk::start(dir(""), false);
    let mut visited = Vec::new();
    while let Some(dir) = walk.next_dir() {
        visited.push(Disk::relative(&dir.written));
        let entries = disk.entries_of(&dir.written).expect("readable");
        walk.visit(&root(), &dir, entries);
    }
    visited.sort();
    assert_eq!(visited, vec!["", "lib", "lib/deep", "lib/deep/er", "validators"]);
    assert!(walk.nested, "the vendored project was left out");
    let files: Vec<String> =
        walk.finish().iter().map(|path| Disk::relative(&path.written)).collect();
    assert_eq!(files, vec!["aiken.toml", "lib/b.ak", "lib/deep/er/a.ak", "validators/spend.ak"]);
}

#[test]
fn a_walk_from_a_file_is_that_file() {
    let mut walk = FileWalk::start(file("lib/a.ak"), true);
    assert!(walk.next_dir().is_none());
    assert!(!walk.nested);
    let files = walk.finish();
    assert_eq!(files.len(), 1);
    assert_eq!(file_name_of(&files[0]), "a.ak");
}

#[test]
fn list_dir_on_root_omits_excluded_dirs() {
    let output = Disk::seeded()
        .execute(
            ReadRequest::ListDir { path: ".".to_string() },
            ".",
            &prompt("workspace", &["ls"], &[]),
        )
        .expect("list_dir should succeed");

    for excluded in [".git", "target", ".tx3", "build"] {
        assert!(!output.lines().any(|line| line.ends_with(excluded)), "{output}");
    }
    assert!(output.lines().any(|line| line.ends_with("validators")), "{output}");
}

#[test]
fn listings_omit_nested_projects() {
    let listing = "total 0\n\ndrwx 1 u g 0 vendored\ndrwx 1 u g 0 validators\n";
    let found = vec![
        Some(file("0")),
        None,
        Some(located("vendored", true, &["vendored"])),
        Some(dir("validators")),
    ];
    assert_eq!(
        list_result(&root(), listing, &found),
        "total 0\n\ndrwx 1 u g 0 validators"
    );
}

fn open(
    request: ReadRequest,
    permissions: &PermissionPromptSpec,
    path: LocatedPath,
) -> (ReadTask, Step) {
    let is_file = !path.is_dir;
    ReadTask::open(request, root(), permissions, Some(path), is_file, &vec![]).expect("granted")
}

#[test]
fn a_request_waits_for_a_yes_before_anything_is_read() {
    let mut permissions = prompt("workspace", &["cat"], &[]);
    permissions.interactive_permissions = true;
    let (mut task, step) = open(read("lib/a.ak"), &permissions, file("lib/a.ak"));
    match step {
        Step::Confirm(notice) => {
            assert_eq!(notice, "[audit][permission] read_file lib/a.ak -> lib/a.ak");
        }
        other => panic!("got {:?}", other),
    }
    assert!(matches!(task.proceed(&Handed::Output("x".to_string())), Step::Unexpected));
    match task.proceed(&Handed::Answer("y".to_string())) {
        Step::Run { program, args } => {
            assert_eq!(program, "cat");
            assert_eq!(args, vec!["/work/project/lib/a.ak"]);
        }
        other => panic!("got {:?}", other),
    }
    match task.proceed(&Handed::Output("text".to_string())) {
        Step::Done(Ok(output)) => assert_eq!(output, "text"),
        other => panic!("got {:?}", other),
    }
    assert!(matches!(task.proceed(&Handed::Output("more".to_string())), Step::Unexpected));

    let (mut refused, _) = open(read("lib/a.ak"), &permissions, file("lib/a.ak"));
    match refused.proceed(&Handed::Answer("later".to_string())) {
        Step::Done(Err(denial)) => {
            assert_eq!(denial.message(), "Request denied by user confirmation: read_file lib/a.ak");
        }
        other => panic!("got {:?}", other),
    }
}

#[test]
fn a_search_asks_for_the_program_only_once_it_is_granted() {
    let mut permissions = prompt("workspace", &["grep"], &[]);
    permissions.interactive_permissions = true;
    let (mut task, step) = open(grep("x"), &permissions, dir("lib"));
    assert!(matches!(step, Step::Confirm(_)));
    assert!(matches!(task.proceed(&Handed::Probed { prunes: true }), Step::Unexpected));
    assert!(matches!(task.proceed(&Handed::Answer("yes".to_string())), Step::Probe));
    assert_eq!(task.path().written, "/work/project/lib");
    let step = task.proceed(&Handed::Probed { prunes: false });
    assert!(matches!(step, Step::Collect { tolerant: false }));

    let find = ReadRequest::FindFiles { path: "lib".to_string(), glob: None };
    let (_, step) = open(find, &prompt("workspace", &["find"], &[]), dir("lib"));
    assert!(matches!(step, Step::Collect { tolerant: false }));
    let (_, step) = open(grep("x"), &prompt("workspace", &["grep"], &[]), file("lib/a.ak"));
    assert!(matches!(step, Step::Run { .. }));
}

#[test]
fn grep_on_root_prunes_excluded_dirs() {
    let mut disk = Disk::seeded();
    disk.write("validators/extra.ak", "validator extra {}\n");
    let request = || ReadRequest::Grep {
        pattern: "validator".to_string(),
        path: ".".to_string(),
        context_lines: 0,
    };
    let permissions = prompt("workspace", &["grep"], &[]);
    for prunes in [true, false] {
        disk.prunes = prunes;
        let output = disk.execute(request(), ".", &permissions).expect("grep should succeed");

        assert!(output.contains("spend.ak"), "got: {output}");
        assert!(
            !output.contains("secret.ak"),
            "grep must not descend into excluded dirs: {output}"
        );
        assert!(output.contains("extra.ak"), "got: {output}");
    }

    let (mut task, step) = open(request(), &permissions, dir(""));
    assert!(matches!(step, Step::Probe));
    let step = task.proceed(&Handed::Probed { prunes: true });
    assert!(matches!(step, Step::Collect { tolerant: true }));
    let files = vec![file("validators/spend.ak")];
    match task.proceed(&Handed::Files { files, nested: false }) {
        Step::Run { program, args } => {
            assert_eq!(program, "grep");
            assert!(args.contains(&"-r".to_string()));
            assert!(args.contains(&"--exclude-dir=build".to_string()));
            assert_eq!(args.last().map(|arg| arg.as_str()), Some("/work/project"));
        }
        other => panic!("got {:?}", other),
    }
}

#[test]
fn grep_searches_directories_recursively() {
    let mut disk = Disk::new();
    disk.write("lib/butane/subvalidators/treasury.ak", "expect d: types.MonoDatum = raw\n");
    let request = || ReadRequest::Grep {
        pattern: "MonoDatum".to_string(),
        path: "lib/butane".to_string(),
        context_lines: 1,
    };
    for prunes in [true, false] {
        disk.prunes = prunes;
        let output = disk
            .execute(request(), "lib/butane", &prompt("workspace", &["grep"], &[]))
            .expect("directory grep should work");

        assert!(output.contains("MonoDatum"), "got: {}", output);
        assert!(
            !output.contains("Is a directory") && !output.contains("Es un directorio"),
            "got: {}",
            output
        );
    }
}

#[test]
fn grep_supports_extended_regex_alternation() {
    let mut disk = Disk::new();
    disk.write("lib/utils.ak", "fn stake_cred_from_hash() {}\n");
    let output = disk
        .execute(
            ReadRequest::Grep {
                pattern: "nonexistent_helper|stake_cred_from_hash".to_string(),
                path: "lib".to_string(),
                context_lines: 0,
            },
            "lib",
            &prompt("workspace", &["grep"], &[]),
        )
        .expect("alternation grep should work");

    assert!(output.contains("stake_cred_from_hash"), "got: {}", output);
}

#[test]
fn nested_projects_are_kept_out_of_every_search() {
    let mut disk = Disk::new();
    disk.write("lib/a.ak", "needle\n");
    disk.write("lib/vendored/aiken.toml", "");
    disk.write("lib/vendored/b.ak", "needle\n");
    for prunes in [true, false] {
        disk.prunes = prunes;
        let output = disk
            .execute(grep("needle"), "lib", &prompt("workspace", &["grep"], &[]))
            .expect("a search");
        assert_eq!(output, "lib/a.ak:needle\n");
    }
}

#[test]
fn an_unreadable_directory_stops_only_searches_that_go_file_by_file() {
    let mut disk = Disk::new();
    disk.write("lib/a.ak", "needle\n");
    disk.write("lib/locked/b.ak", "needle\n");
    disk.locked.push("lib/locked".to_string());
    let permissions = prompt("workspace", &["grep", "find"], &[]);
    let output = disk.execute(grep("needle"), "lib", &permissions).expect("a search");
    assert!(output.contains("lib/a.ak:needle"), "got: {output}");
    disk.prunes = false;
    let refused = Err("Failed to read directory /work/project/lib/locked".to_string());
    assert_eq!(disk.execute(grep("needle"), "lib", &permissions), refused);
    let find = ReadRequest::FindFiles { path: "lib".to_string(), glob: None };
    assert_eq!(disk.execute(find, "lib", &permissions), refused);
}

#[test]
fn searches_without_pruning_go_file_by_file() {
    let permissions = prompt("workspace", &["grep", "find", "ls"], &[]);
    let (mut task, _) = open(grep("x"), &permissions, dir("lib"));
    task.proceed(&Handed::Probed { prunes: false });
    match task.proceed(&Handed::Files { files: vec![file("lib/a.ak")], nested: false }) {
        Step::Run { program, args } => {
            assert_eq!(program, "grep");
            assert_eq!(args, vec!["-E", "-n", "-C", "1", "--", "x", "/work/project/lib/a.ak"]);
        }
        other => panic!("got {:?}", other),
    }

    let (mut empty, _) = open(grep("x"), &permissions, dir("lib"));
    empty.proceed(&Handed::Probed { prunes: false });
    match empty.proceed(&Handed::Files { files: vec![], nested: false }) {
        Step::Done(Ok(output)) => assert_eq!(output, "(no in-scope files to search)"),
        other => panic!("got {:?}", other),
    }

    let find =
        ReadRequest::FindFiles { path: "lib".to_string(), glob: Some("*.md".to_string()) };
    let (mut finding, _) = open(find, &permissions, dir("lib"));
    let files = vec![file("lib/a.ak"), file("lib/b.md")];
    match finding.proceed(&Handed::Files { files, nested: false }) {
        Step::Done(Ok(output)) => assert_eq!(output, "/work/project/lib/b.md"),
        other => panic!("got {:?}", other),
    }

    let list = ReadRequest::ListDir { path: "lib".to_string() };
    let (mut listing, step) = open(list, &permissions, dir("lib"));
    match step {
        Step::List { args } => assert_eq!(args, vec!["-la", "/work/project/lib"]),
        other => panic!("got {:?}", other),
    }
    let handed = Handed::Listing {
        listing: "a build\nb lib".to_string(),
        located: vec![Some(dir("lib/build")), Some(dir("lib/lib"))],
    };
    match listing.proceed(&handed) {
        Step::Done(Ok(output)) => assert_eq!(output, "b lib"),
        other => panic!("got {:?}", other),
    }
}

#[test]
fn globs_match_whole_names() {
    assert!(glob_match("*.ak", "spend.ak"));
    assert!(!glob_match("*.ak", "spend.akx"));
    assert!(glob_match("*test*.compact", "my_test_1.compact"));
    assert!(glob_match("?", "é"));
    assert!(!glob_match("?", ""));
    assert!(glob_match("", ""));
    assert!(!glob_match("", "a"));
    assert!(glob_match("a*b*c", "aXbYbZc"));
    assert!(!glob_match("a*b*c", "aXbYbZ"));
    assert!(glob_match("**", "anything"));
}

#[test]
fn command_output_is_never_silent() {
    assert_eq!(render_command_output("out\n", "", Some(0), true), "out\n");
    assert_eq!(render_command_output("out", "err", Some(0), true), "out\nerr");
    assert_eq!(render_command_output(" \n", "err", Some(0), true), "err");
    assert_eq!(
        render_command_output("", " ", None, true),
        "(no output; command exited with status 0)"
    );
    assert_eq!(
        render_command_output("", "", Some(1), false),
        "(no output; command exited with status 1)\n(command exited with status 1)"
    );
    assert_eq!(
        render_command_output("", "boom", Some(-9), false),
        "boom\n(command exited with status -9)"
    );
}

#[test]
fn command_output_is_decoded_with_replacement() {
    assert_eq!(run_command_capture("sí".as_bytes(), b"", Some(0), true), "sí");
    assert_eq!(run_command_capture(b"a\xffb", b"", Some(0), true), "a\u{fffd}b");
}
