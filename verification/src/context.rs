use crate::core_types::{Dependency, Project, Task};
use std::collections::HashMap;
use crate::glob::{
    any_glob_matches, builder_patterns, filter_compiles, glob_is_valid, glob_matches, glob_new,
    glob_set_builder_add, glob_set_builder_build, glob_set_builder_new, glob_set_builds,
    glob_set_is_match, set_patterns, GlobFilter,
};
use crate::text::{replace_all, replaced};
use globset::GlobSet;
use crate::names::{names_for, strings_view, ConfigFileNames};
use crate::path::{
    ancestors_of, joined, lemma_ancestors_chain, parent_of, path_ancestors, path_join, path_parent,
};
use crate::probe::{
    asked_in_order, first_file_at, lemma_first_file_found, lemma_no_file_found, no_file_among,
    probe_candidates, probe_reported, probes_decided, probes_failed_with, probes_found,
    probes_reported,
    probes_undecided, search_outcome, FileAnswer, FileProbe, FileSearch,
};
use crate::sys::{bytes_answer, text_answer, ContextSys};
use vstd::prelude::*;

verus! {

/// Why building a context, or answering from it, failed.
#[derive(Debug)]
pub enum ContextError {
    /// A call to the system failed.
    Io(std::io::Error),
    /// A glob pattern did not parse, or a set of globs did not build.
    Glob(globset::Error),
    /// No ancestor of the current directory, or not the root directory,
    /// holds a workspace configuration file.
    WorkspaceNotFound,
    /// The projects were asked for before they were loaded.
    ProjectsNotLoaded,
    /// A project configuration file's path has no parent directory.
    NoParentDir,
    /// Two loaded projects share a name: the name, and the directories of
    /// every project that has it, in load order.
    DuplicateProjectName { name: String, dirs: Vec<String> },
}

/// Calls `std::io::Error`'s `Display`; nothing is claimed of the text.
#[verifier::external_body]
fn io_error_text(e: &std::io::Error) -> String {
    format!("{}", e)
}

/// Calls `globset::Error`'s `Display`; nothing is claimed of the text.
#[verifier::external_body]
fn glob_error_text(e: &globset::Error) -> String {
    format!("{}", e)
}

/// The names of a list of projects, in order.
pub open spec fn project_names(projects: Seq<Project>) -> Seq<Seq<char>> {
    projects.map_values(|p: Project| p.name@)
}

/// Whether the name at `j` already occurs before `j`.
pub open spec fn named_earlier(names: Seq<Seq<char>>, j: int) -> bool {
    exists|i: int| 0 <= i < j && names[i] == #[trigger] names[j]
}

/// Whether no name occurs twice.
pub open spec fn all_distinct(names: Seq<Seq<char>>) -> bool {
    forall|i: int, j: int| 0 <= i < j < names.len() ==> names[i] != names[j]
}

/// Whether `j` is the first position whose name occurs before it.
pub open spec fn first_repeat(names: Seq<Seq<char>>, j: int) -> bool {
    &&& 0 <= j < names.len()
    &&& named_earlier(names, j)
    &&& all_distinct(names.take(j))
}

/// The directories of the projects called `name`, in order.
pub open spec fn dirs_named(projects: Seq<Project>, name: Seq<char>) -> Seq<Seq<char>>
    decreases projects.len(),
{
    if projects.len() == 0 {
        Seq::empty()
    } else if projects.last().name@ == name {
        dirs_named(projects.drop_last(), name).push(projects.last().dir@)
    } else {
        dirs_named(projects.drop_last(), name)
    }
}

/// Lines joined with a line break between each two.
pub open spec fn lines_joined(lines: Seq<Seq<char>>) -> Seq<char>
    decreases lines.len(),
{
    if lines.len() == 0 {
        Seq::empty()
    } else if lines.len() == 1 {
        lines[0]
    } else {
        lines_joined(lines.drop_last()) + "\n"@ + lines.last()
    }
}

/// The report of a duplicate project name.
pub open spec fn duplicate_message(name: Seq<char>, dirs: Seq<Seq<char>>) -> Seq<char> {
    "Duplicate project name: "@ + name + "\n\nProjects with same name:\n"@ + lines_joined(
        dirs.map_values(|d: Seq<char>| "  -> "@ + d),
    )
}

/// The report lines of a list of directories.
pub open spec fn dir_lines(dirs: Seq<Seq<char>>) -> Seq<Seq<char>> {
    dirs.map_values(|d: Seq<char>| "  -> "@ + d)
}

/// The report of a duplicate project name.
fn duplicate_text(name: &String, dirs: &Vec<String>) -> (r: String)
    ensures
        r@ == duplicate_message(name@, strings_view(dirs@)),
{
    let ghost lines = dir_lines(strings_view(dirs@));
    let mut out = String::from_str("Duplicate project name: ");
    out.append(name.as_str());
    out.append("\n\nProjects with same name:\n");
    let ghost head = out@;
    let mut i: usize = 0;
    assert(lines.take(0) =~= Seq::<Seq<char>>::empty());
    while i < dirs.len()
        invariant
            i <= dirs@.len(),
            lines == dir_lines(strings_view(dirs@)),
            out@ == head + lines_joined(lines.take(i as int)),
        decreases dirs.len() - i,
    {
        assert(lines.take(i + 1).drop_last() =~= lines.take(i as int));
        assert(lines[i as int] == "  -> "@ + dirs@[i as int]@);
        if i > 0 {
            out.append("\n");
        } else {
            assert(lines.take(0) =~= Seq::<Seq<char>>::empty());
        }
        out.append("  -> ");
        out.append(dirs[i].as_str());
        i = i + 1;
    }
    assert(lines.take(dirs@.len() as int) =~= lines);
    out
}

impl ContextError {
    /// The text that reports the error.
    pub fn message(&self) -> (r: String)
        ensures
            self matches ContextError::DuplicateProjectName { name, dirs } ==> r@
                == duplicate_message(name@, strings_view(dirs@)),
            self is WorkspaceNotFound ==> r@ == "Could not find workspace configuration file"@,
            self is ProjectsNotLoaded ==> r@ == "Failed to get projects"@,
            self is NoParentDir ==> r@ == "Can't get parent"@,
    {
        match self {
            ContextError::Io(e) => io_error_text(e),
            ContextError::Glob(e) => glob_error_text(e),
            ContextError::WorkspaceNotFound => String::from_str(
                "Could not find workspace configuration file",
            ),
            ContextError::ProjectsNotLoaded => String::from_str("Failed to get projects"),
            ContextError::NoParentDir => String::from_str("Can't get parent"),
            ContextError::DuplicateProjectName { name, dirs } => duplicate_text(name, dirs),
        }
    }
}

/// Whether `name` is one of the names in `seen`.
fn seen_before(seen: &Vec<String>, name: &String) -> (r: bool)
    ensures
        r == exists|i: int| 0 <= i < seen@.len() && #[trigger] seen@[i]@ == name@,
{
    let mut i: usize = 0;
    while i < seen.len()
        invariant
            i <= seen@.len(),
            forall|k: int| 0 <= k < i ==> #[trigger] seen@[k]@ != name@,
        decreases seen.len() - i,
    {
        if seen[i] == *name {
            return true;
        }
        i = i + 1;
    }
    false
}

/// The directories of the projects called `name`, in order.
fn collect_dirs_named(projects: &Vec<Project>, name: &String) -> (r: Vec<String>)
    ensures
        strings_view(r@) == dirs_named(projects@, name@),
{
    let mut out: Vec<String> = Vec::new();
    let mut i: usize = 0;
    assert(projects@.take(0) =~= Seq::<Project>::empty());
    while i < projects.len()
        invariant
            i <= projects@.len(),
            strings_view(out@) == dirs_named(projects@.take(i as int), name@),
        decreases projects.len() - i,
    {
        assert(projects@.take(i + 1).drop_last() =~= projects@.take(i as int));
        let ghost before = out@;
        if projects[i].name == *name {
            out.push(projects[i].dir.clone());
            assert(strings_view(out@) =~= strings_view(before).push(projects@[i as int].dir@));
        }
        i = i + 1;
    }
    assert(projects@.take(projects@.len() as int) =~= projects@);
    out
}

/// Checks that no two projects share a name. On the first project whose
/// name an earlier one already has, fails with that name and the
/// directories of all projects that have it.
pub fn check_duplicate_project_names(projects: &Vec<Project>) -> (r: Result<(), ContextError>)
    ensures
        r is Ok <==> all_distinct(project_names(projects@)),
        r is Err ==> r->Err_0 is DuplicateProjectName,
        r matches Err(ContextError::DuplicateProjectName { name, dirs }) ==> {
            &&& exists|j: int|
                first_repeat(project_names(projects@), j) && #[trigger] project_names(projects@)[j]
                    == name@
            &&& strings_view(dirs@) == dirs_named(projects@, name@)
        },
{
    let ghost names = project_names(projects@);
    let mut seen: Vec<String> = Vec::new();
    let mut j: usize = 0;
    while j < projects.len()
        invariant
            j <= projects@.len(),
            names == project_names(projects@),
            seen@.len() == j,
            forall|k: int| 0 <= k < j ==> #[trigger] seen@[k]@ == names[k],
            all_distinct(names.take(j as int)),
        decreases projects.len() - j,
    {
        let name = &projects[j].name;
        if seen_before(&seen, name) {
            let dirs = collect_dirs_named(projects, name);
            assert(first_repeat(names, j as int));
            return Err(ContextError::DuplicateProjectName { name: name.clone(), dirs });
        }
        proof {
            let nt = names.take(j + 1);
            assert forall|a: int, b: int| 0 <= a < b < j + 1 implies #[trigger] nt[a]
                != #[trigger] nt[b] by {
                if b < j {
                    assert(names.take(j as int)[a] != names.take(j as int)[b]);
                } else {
                    assert(seen@[a]@ == names[a]);
                }
            }
        }
        seen.push(name.clone());
        j = j + 1;
    }
    assert(names.take(j as int) =~= names);
    Ok(())
}

/// The candidate paths of configuration files in `dir`: `dir` joined with
/// each file name, in order.
pub open spec fn candidates_in(dir: Seq<char>, files: Seq<Seq<char>>) -> Seq<Seq<char>> {
    files.map_values(|f: Seq<char>| joined(dir, f))
}

/// Joins `dir` with each of `files`.
pub fn config_candidates(dir: &str, files: &Vec<String>) -> (r: Vec<String>)
    ensures
        strings_view(r@) == candidates_in(dir@, strings_view(files@)),
{
    let mut out: Vec<String> = Vec::new();
    let mut i: usize = 0;
    while i < files.len()
        invariant
            i <= files@.len(),
            out@.len() == i,
            forall|k: int| 0 <= k < i ==> #[trigger] out@[k]@ == joined(dir@, files@[k]@),
        decreases files.len() - i,
    {
        out.push(path_join(dir, files[i].as_str()));
        i = i + 1;
    }
    assert(strings_view(out@) =~= candidates_in(dir@, strings_view(files@)));
    out
}

/// The names a project configuration file may have.
pub open spec fn project_names_of(names: ConfigFileNames) -> Seq<Seq<char>> {
    names_for(names.project_template@, strings_view(names.extensions@))
}

/// The names a workspace configuration file may have.
pub open spec fn workspace_names(names: ConfigFileNames) -> Seq<Seq<char>> {
    names_for(names.workspace_template@, strings_view(names.extensions@))
}

/// The candidate paths of the workspace configuration file in `dir`.
pub open spec fn workspace_candidates(dir: Seq<char>, names: ConfigFileNames) -> Seq<Seq<char>> {
    candidates_in(dir, workspace_names(names))
}

/// Whether `r` is what a search through `candidates` gives for the answers
/// `probes`: the candidate of the last answer when it found a regular file,
/// the error of the call that failed, or `WorkspaceNotFound` when no answer
/// ended the search.
pub open spec fn file_search_result(
    candidates: Seq<Seq<char>>,
    probes: Seq<FileProbe>,
    r: Result<String, ContextError>,
) -> bool {
    match r {
        Ok(f) => probes_found(probes) && f@ == candidates[probes.len() - 1],
        Err(ContextError::Io(e)) => probes_failed_with(probes, e),
        Err(ContextError::WorkspaceNotFound) => probes_undecided(probes),
        Err(_) => false,
    }
}

/// The configuration file that the answers about `candidates`, asked in
/// order, point to.
pub fn workspace_file_from_probes(candidates: &Vec<String>, probes: Vec<FileProbe>) -> (r: Result<
    String,
    ContextError,
>)
    requires
        probes@.len() <= candidates@.len(),
    ensures
        file_search_result(strings_view(candidates@), probes@, r),
{
    let n = probes.len();
    match search_outcome(probes) {
        FileSearch::Found => {
            assert(strings_view(candidates@)[n - 1] == candidates@[n - 1]@);
            Ok(candidates[n - 1].clone())
        },
        FileSearch::Failed(e) => Err(ContextError::Io(e)),
        FileSearch::Undecided => Err(ContextError::WorkspaceNotFound),
    }
}

/// The answers of lists of probes.
pub open spec fn probe_lists(v: Seq<Vec<FileProbe>>) -> Seq<Seq<FileProbe>> {
    v.map_values(|p: Vec<FileProbe>| p@)
}

/// Whether `pss` are the answers of a root search over `ancestors`, with
/// the file names `files`: for each directory in order, its candidates (the
/// directory joined with each name) asked in order, stopping at the first
/// directory whose answers ended the search.
pub open spec fn root_asked_in_order(
    ancestors: Seq<Seq<char>>,
    files: Seq<Seq<char>>,
    pss: Seq<Seq<FileProbe>>,
) -> bool {
    &&& pss.len() <= ancestors.len()
    &&& forall|i: int|
        0 <= i < pss.len() ==> asked_in_order(candidates_in(ancestors[i], files), #[trigger] pss[i])
    &&& forall|i: int| 0 <= i < pss.len() - 1 ==> probes_undecided(#[trigger] pss[i])
    &&& pss.len() < ancestors.len() ==> pss.len() > 0 && !probes_undecided(pss.last())
}

/// Whether the answers of a root search found the workspace root `dir`: the
/// directory of the last answers, which found a file.
pub open spec fn root_found_at(ancestors: Seq<Seq<char>>, pss: Seq<Seq<FileProbe>>, dir: Seq<
    char,
>) -> bool {
    pss.len() > 0 && probes_found(pss.last()) && dir == ancestors[pss.len() - 1]
}

/// Whether `r` is what a root search over `ancestors` gives for the answers
/// `pss`.
pub open spec fn root_search_result(
    ancestors: Seq<Seq<char>>,
    pss: Seq<Seq<FileProbe>>,
    r: Result<String, ContextError>,
) -> bool {
    match r {
        Ok(d) => root_found_at(ancestors, pss, d@),
        Err(ContextError::Io(e)) => pss.len() > 0 && probes_failed_with(pss.last(), e),
        Err(ContextError::WorkspaceNotFound) => pss.len() == 0 || probes_undecided(pss.last()),
        Err(_) => false,
    }
}

/// Whether every answer of a root search is one the system may give.
pub open spec fn roots_reported<S: ContextSys>(sys: &S, pss: Seq<Seq<FileProbe>>) -> bool {
    forall|i: int| 0 <= i < pss.len() ==> probes_reported(sys, #[trigger] pss[i])
}

/// Whether the system reports `ancestors[i]` as the nearest of `ancestors`
/// that holds a file named by one of `files`: in it some candidate is
/// reported as a regular file with every earlier candidate as none, and in
/// every nearer directory every candidate is reported as none.
pub open spec fn nearest_root_at<S: ContextSys>(
    sys: &S,
    ancestors: Seq<Seq<char>>,
    files: Seq<Seq<char>>,
    i: int,
) -> bool {
    &&& 0 <= i < ancestors.len()
    &&& exists|k: int| #[trigger] first_file_at(sys, candidates_in(ancestors[i], files), k)
    &&& forall|m: int| 0 <= m < i ==> no_file_among(sys, candidates_in(#[trigger] ancestors[m], files))
}

/// Whether the system reports no directory of `ancestors` as holding a file
/// named by one of `files`.
pub open spec fn no_root_among<S: ContextSys>(
    sys: &S,
    ancestors: Seq<Seq<char>>,
    files: Seq<Seq<char>>,
) -> bool {
    forall|m: int| 0 <= m < ancestors.len() ==> no_file_among(sys, candidates_in(#[trigger] ancestors[m], files))
}

/// A root search, asked in order with answers the system may give, ends at
/// the nearest directory that the system reports as holding a file, and
/// finds a file there.
pub proof fn lemma_nearest_root_found<S: ContextSys>(
    sys: &S,
    ancestors: Seq<Seq<char>>,
    files: Seq<Seq<char>>,
    pss: Seq<Seq<FileProbe>>,
    i: int,
)
    requires
        root_asked_in_order(ancestors, files, pss),
        roots_reported(sys, pss),
        nearest_root_at(sys, ancestors, files, i),
    ensures
        pss.len() == i + 1,
        probes_found(pss.last()),
{
    assert forall|m: int| 0 <= m < i && m < pss.len() implies probes_undecided(#[trigger] pss[m]) by {
        assert(no_file_among(sys, candidates_in(ancestors[m], files)));
        assert(probes_reported(sys, pss[m]));
        lemma_no_file_found(sys, candidates_in(ancestors[m], files), pss[m]);
    }
    if pss.len() <= i {
        if pss.len() < ancestors.len() {
            assert(!probes_undecided(pss[pss.len() - 1]));
        }
    }
    let k = choose|k: int| #[trigger] first_file_at(sys, candidates_in(ancestors[i], files), k);
    assert(probes_reported(sys, pss[i]));
    lemma_first_file_found(sys, candidates_in(ancestors[i], files), pss[i], k);
    if pss.len() > i + 1 {
        assert(probes_undecided(pss[i]));
    }
}

/// A root search, asked in order with answers the system may give, where
/// the system reports no directory as holding a file, ends undecided.
pub proof fn lemma_no_root_found<S: ContextSys>(
    sys: &S,
    ancestors: Seq<Seq<char>>,
    files: Seq<Seq<char>>,
    pss: Seq<Seq<FileProbe>>,
)
    requires
        root_asked_in_order(ancestors, files, pss),
        roots_reported(sys, pss),
        no_root_among(sys, ancestors, files),
    ensures
        pss.len() == 0 || probes_undecided(pss.last()),
{
    if pss.len() > 0 {
        let m = pss.len() - 1;
        assert(no_file_among(sys, candidates_in(ancestors[m], files)));
        assert(probes_reported(sys, pss[m]));
        lemma_no_file_found(sys, candidates_in(ancestors[m], files), pss[m]);
    }
}

/// Whether `r` is what the root search from `current_dir` gives for some
/// answers the system may give, asked as `find_root_dir` asks them.
pub open spec fn root_search_from<S: ContextSys>(
    sys: &S,
    current_dir: Seq<char>,
    names: ConfigFileNames,
    r: Result<String, ContextError>,
) -> bool {
    exists|pss: Seq<Seq<FileProbe>>|
        #![trigger root_search_result(ancestors_of(current_dir), pss, r)]
        root_asked_in_order(ancestors_of(current_dir), workspace_names(names), pss)
            && roots_reported(sys, pss) && root_search_result(ancestors_of(current_dir), pss, r)
}

/// Whether `r` is what finding the workspace root gives when the system
/// reported `current_dir` as the current directory: its error as is, or
/// the root search from it.
pub open spec fn root_result_from<S: ContextSys>(
    sys: &S,
    current_dir: Result<String, std::io::Error>,
    names: ConfigFileNames,
    r: Result<String, ContextError>,
) -> bool {
    match current_dir {
        Err(e) => r == Err::<String, ContextError>(ContextError::Io(e)),
        Ok(c) => root_search_from(sys, c@, names, r),
    }
}

/// The workspace root that the answers of a root search over `ancestors`
/// point to.
pub fn root_dir_from_probes(ancestors: &Vec<String>, probes: Vec<Vec<FileProbe>>) -> (r: Result<
    String,
    ContextError,
>)
    requires
        probes@.len() <= ancestors@.len(),
    ensures
        root_search_result(strings_view(ancestors@), probe_lists(probes@), r),
{
    let ghost pss = probe_lists(probes@);
    let mut probes = probes;
    match probes.pop() {
        None => Err(ContextError::WorkspaceNotFound),
        Some(last) => {
            let k = probes.len();
            assert(pss.last() == last@);
            assert(strings_view(ancestors@)[k as int] == ancestors@[k as int]@);
            match search_outcome(last) {
                FileSearch::Found => Ok(ancestors[k].clone()),
                FileSearch::Failed(e) => Err(ContextError::Io(e)),
                FileSearch::Undecided => Err(ContextError::WorkspaceNotFound),
            }
        },
    }
}

/// Searches `current_dir` and then each of its ancestors, nearest first, for
/// a workspace configuration file, asking about the directory joined with
/// each name in order: returns the first directory in which one exists as a
/// regular file, the error of the first system call that fails, or
/// `WorkspaceNotFound` when every candidate of every directory was asked
/// about and none is a file.
pub fn find_root_dir<S: ContextSys>(sys: &S, current_dir: &str, names: &ConfigFileNames) -> (r:
    Result<String, ContextError>)
    ensures
        root_search_from(sys, current_dir@, *names, r),
        forall|k: int|
            #[trigger] first_file_at(sys, workspace_candidates(current_dir@, *names), k) ==> (r matches Ok(
                d,
            ) && d@ == current_dir@),
        forall|i: int|
            #[trigger] nearest_root_at(sys, ancestors_of(current_dir@), workspace_names(*names), i)
                ==> (r matches Ok(d) && d@ == ancestors_of(current_dir@)[i]),
        no_root_among(sys, ancestors_of(current_dir@), workspace_names(*names)) ==> (r matches Err(
            ContextError::WorkspaceNotFound,
        )),
        r matches Ok(d) ==> ancestors_of(current_dir@).contains(d@),
        names.extensions@.len() == 0 ==> r matches Err(ContextError::WorkspaceNotFound),
{
    let ancestors = path_ancestors(current_dir);
    let ghost ancs = ancestors_of(current_dir@);
    assert(strings_view(ancestors@) =~= ancs);
    let workspace_files = names.workspace_files();
    let ghost wf = workspace_names(*names);
    assert(workspace_files@.len() == strings_view(workspace_files@).len());
    let mut collected: Vec<Vec<FileProbe>> = Vec::new();
    let mut done = false;
    assert(probe_lists(collected@) =~= Seq::<Seq<FileProbe>>::empty());
    while collected.len() < ancestors.len() && !done
        invariant
            collected@.len() <= ancestors@.len(),
            strings_view(workspace_files@) == wf,
            ancs == strings_view(ancestors@),
            forall|i: int|
                0 <= i < probe_lists(collected@).len() ==> asked_in_order(
                    candidates_in(ancs[i], wf),
                    #[trigger] probe_lists(collected@)[i],
                ),
            forall|i: int|
                0 <= i < probe_lists(collected@).len() - 1 ==> probes_undecided(
                    #[trigger] probe_lists(collected@)[i],
                ),
            roots_reported(sys, probe_lists(collected@)),
            done ==> collected@.len() > 0 && !probes_undecided(probe_lists(collected@).last()),
            !done ==> collected@.len() == 0 || probes_undecided(probe_lists(collected@).last()),
        decreases ancestors.len() - collected.len(),
    {
        let k = collected.len();
        let cands = config_candidates(ancestors[k].as_str(), &workspace_files);
        assert(ancs[k as int] == ancestors@[k as int]@);
        let ps = probe_candidates(sys, &cands);
        done = probes_decided(&ps);
        let ghost before = probe_lists(collected@);
        collected.push(ps);
        assert(probe_lists(collected@) =~= before.push(ps@));
    }
    let ghost pss = probe_lists(collected@);
    assert(root_asked_in_order(ancs, wf, pss));
    let r = root_dir_from_probes(&ancestors, collected);
    proof {
        if names.extensions@.len() == 0 && pss.len() > 0 {
            assert(asked_in_order(candidates_in(ancs[pss.len() - 1], wf), pss[pss.len() - 1]));
        }
        if r is Ok {
            assert(ancs[pss.len() - 1] == r->Ok_0@);
        }
        assert(root_search_result(ancs, pss, r));
        assert forall|i: int| #[trigger] nearest_root_at(sys, ancs, wf, i) implies (r matches Ok(d)
            && d@ == ancs[i]) by {
            lemma_nearest_root_found(sys, ancs, wf, pss, i);
        }
        if no_root_among(sys, ancs, wf) {
            lemma_no_root_found(sys, ancs, wf, pss);
        }
        assert forall|k: int|
            #[trigger] first_file_at(sys, workspace_candidates(current_dir@, *names), k) implies (r matches Ok(
                d,
            ) && d@ == current_dir@) by {
            lemma_ancestors_chain(current_dir@);
            assert(candidates_in(ancs[0], wf) == workspace_candidates(current_dir@, *names));
            assert(nearest_root_at(sys, ancs, wf, 0));
        }
    }
    r
}

/// Finds the workspace root from the current directory the system
/// reported: its error as is, or the search of `find_root_dir`.
pub fn find_root_dir_from<S: ContextSys>(
    sys: &S,
    current_dir: Result<String, std::io::Error>,
    names: &ConfigFileNames,
) -> (r: Result<String, ContextError>)
    ensures
        root_result_from(sys, current_dir, *names, r),
        forall|i: int|
            current_dir is Ok && #[trigger] nearest_root_at(
                sys,
                ancestors_of(current_dir->Ok_0@),
                workspace_names(*names),
                i,
            ) ==> (r matches Ok(d) && d@ == ancestors_of(current_dir->Ok_0@)[i]),
        names.extensions@.len() == 0 ==> r is Err,
{
    match current_dir {
        Ok(d) => find_root_dir(sys, d.as_str(), names),
        Err(e) => Err(ContextError::Io(e)),
    }
}

/// Finds the root directory of the workspace: the nearest of the current
/// directory and its ancestors that holds a workspace configuration file,
/// as `find_root_dir_from` finds it from what the system reports as the
/// current directory.
pub fn get_root_dir<S: ContextSys>(sys: &S, names: &ConfigFileNames) -> (r: Result<
    String,
    ContextError,
>)
    ensures
        exists|cwd: Result<String, std::io::Error>|
            sys.current_dir_answer(text_answer(cwd)) && #[trigger] root_result_from(
                sys,
                cwd,
                *names,
                r,
            ),
        forall|c: Seq<char>, k: int|
            reports_current_dir(sys, c) && #[trigger] first_file_at(
                sys,
                workspace_candidates(c, *names),
                k,
            ) ==> (r matches Ok(d) && d@ == c),
        forall|c: Seq<char>, i: int|
            reports_current_dir(sys, c) && #[trigger] nearest_root_at(
                sys,
                ancestors_of(c),
                workspace_names(*names),
                i,
            ) ==> (r matches Ok(d) && d@ == ancestors_of(c)[i]),
        r matches Err(e) ==> e is Io || e is WorkspaceNotFound,
        names.extensions@.len() == 0 ==> r is Err,
{
    let current_dir = sys.env_current_dir();
    let ghost cwd = current_dir;
    let r = find_root_dir_from(sys, current_dir, names);
    proof {
        assert(root_result_from(sys, cwd, *names, r));
        if r is Err && !(r->Err_0 is Io) {
            if let Ok(c) = cwd {
                let pss = choose|pss: Seq<Seq<FileProbe>>|
                    root_asked_in_order(ancestors_of(c@), workspace_names(*names), pss)
                        && roots_reported(sys, pss) && #[trigger] root_search_result(
                        ancestors_of(c@),
                        pss,
                        r,
                    );
                assert(root_search_result(ancestors_of(c@), pss, r));
            }
        }
        assert forall|c: Seq<char>, i: int|
            reports_current_dir(sys, c) && #[trigger] nearest_root_at(
                sys,
                ancestors_of(c),
                workspace_names(*names),
                i,
            ) implies (r matches Ok(d) && d@ == ancestors_of(c)[i]) by {
            assert(sys.current_dir_answer(text_answer(cwd)));
        }
        assert forall|c: Seq<char>, k: int|
            reports_current_dir(sys, c) && #[trigger] first_file_at(
                sys,
                workspace_candidates(c, *names),
                k,
            ) implies (r matches Ok(d) && d@ == c) by {
            assert(sys.current_dir_answer(text_answer(cwd)));
            lemma_ancestors_chain(c);
            assert(candidates_in(ancestors_of(c)[0], workspace_names(*names))
                == workspace_candidates(c, *names));
            assert(nearest_root_at(sys, ancestors_of(c), workspace_names(*names), 0));
        }
    }
    r
}

/// Whether the system reports `dir` as the current directory: every answer
/// it may give for the current directory is `dir`.
pub open spec fn reports_current_dir<S: ContextSys>(sys: &S, dir: Seq<char>) -> bool {
    forall|a: Result<Seq<char>, std::io::Error>|
        #[trigger] sys.current_dir_answer(a) ==> a == Ok::<Seq<char>, std::io::Error>(dir)
}

/// Finds the workspace configuration file in `root_dir`: asks about
/// `root_dir` joined with each name in order and returns the first that
/// exists as a regular file, the error of the first system call that
/// fails, or `WorkspaceNotFound` when every candidate was asked about and
/// none is a file. Only `root_dir` is searched.
pub fn find_workspace_file<S: ContextSys>(sys: &S, root_dir: &str, names: &ConfigFileNames) -> (r:
    Result<String, ContextError>)
    ensures
        exists|ps: Seq<FileProbe>|
            #![trigger file_search_result(workspace_candidates(root_dir@, *names), ps, r)]
            asked_in_order(workspace_candidates(root_dir@, *names), ps) && probes_reported(sys, ps)
                && file_search_result(workspace_candidates(root_dir@, *names), ps, r),
        forall|k: int|
            #[trigger] first_file_at(sys, workspace_candidates(root_dir@, *names), k) ==> (r matches Ok(
                f,
            ) && f@ == workspace_candidates(root_dir@, *names)[k]),
        no_file_among(sys, workspace_candidates(root_dir@, *names)) ==> (r matches Err(
            ContextError::WorkspaceNotFound,
        )),
        r matches Ok(f) ==> workspace_candidates(root_dir@, *names).contains(f@),
        r matches Err(e) ==> e is Io || e is WorkspaceNotFound,
        names.extensions@.len() == 0 ==> r matches Err(ContextError::WorkspaceNotFound),
{
    let workspace_files = names.workspace_files();
    let candidates = config_candidates(root_dir, &workspace_files);
    assert(candidates@.len() == strings_view(candidates@).len());
    let ps = probe_candidates(sys, &candidates);
    let ghost probes = ps@;
    let ghost cands = workspace_candidates(root_dir@, *names);
    let r = workspace_file_from_probes(&candidates, ps);
    proof {
        if r is Ok {
            assert(cands[probes.len() - 1] == r->Ok_0@);
        }
        assert forall|k: int| #[trigger] first_file_at(sys, cands, k) implies (r matches Ok(f) && f@
            == cands[k]) by {
            lemma_first_file_found(sys, cands, probes, k);
        }
        if no_file_among(sys, cands) {
            lemma_no_file_found(sys, cands, probes);
        }
    }
    r
}

/// Whether `r` is what reading the workspace file found by the answers
/// `probes` about `candidates` gives: the file and its bytes, the error of
/// the search or of the read, or `WorkspaceNotFound`.
pub open spec fn workspace_read_result(
    candidates: Seq<Seq<char>>,
    probes: Seq<FileProbe>,
    r: Result<(String, Vec<u8>), ContextError>,
) -> bool {
    match r {
        Ok((f, _)) => probes_found(probes) && f@ == candidates[probes.len() - 1],
        Err(ContextError::Io(e)) => probes_failed_with(probes, e) || probes_found(probes),
        Err(ContextError::WorkspaceNotFound) => probes_undecided(probes),
        Err(_) => false,
    }
}

/// Whether `r` is what reading the workspace file of `root_dir` gives for
/// some answers the system may give, asked as `find_workspace_file` asks
/// them.
pub open spec fn workspace_read_from<S: ContextSys>(
    sys: &S,
    root_dir: Seq<char>,
    names: ConfigFileNames,
    r: Result<(String, Vec<u8>), ContextError>,
) -> bool {
    exists|ps: Seq<FileProbe>|
        #![trigger workspace_read_result(workspace_candidates(root_dir, names), ps, r)]
        asked_in_order(workspace_candidates(root_dir, names), ps) && probes_reported(sys, ps)
            && workspace_read_result(
            workspace_candidates(root_dir, names),
            ps,
            r,
        )
}

/// Reads the workspace configuration file of `root_dir`, found as
/// `find_workspace_file` finds it: its path and its bytes.
pub fn read_workspace_file<S: ContextSys>(sys: &S, root_dir: &str, names: &ConfigFileNames) -> (r:
    Result<(String, Vec<u8>), ContextError>)
    ensures
        workspace_read_from(sys, root_dir@, *names, r),
        r matches Ok((f, b)) ==> sys.read_answer(f@, Ok(b@)),
        forall|k: int, b: Seq<u8>|
            #![trigger first_file_at(sys, workspace_candidates(root_dir@, *names), k), reports_bytes(sys, workspace_candidates(root_dir@, *names)[k], b)]
            first_file_at(sys, workspace_candidates(root_dir@, *names), k) && reports_bytes(
                sys,
                workspace_candidates(root_dir@, *names)[k],
                b,
            ) ==> (r matches Ok((f, c)) && f@ == workspace_candidates(root_dir@, *names)[k] && c@
                == b),
        no_file_among(sys, workspace_candidates(root_dir@, *names)) ==> (r matches Err(
            ContextError::WorkspaceNotFound,
        )),
        r matches Err(e) ==> e is Io || e is WorkspaceNotFound,
        names.extensions@.len() == 0 ==> r matches Err(ContextError::WorkspaceNotFound),
{
    let found = find_workspace_file(sys, root_dir, names);
    let ghost cands = workspace_candidates(root_dir@, *names);
    let ghost ps = choose|ps: Seq<FileProbe>|
        asked_in_order(cands, ps) && probes_reported(sys, ps) && #[trigger] file_search_result(
            cands,
            ps,
            found,
        );
    let path = match found {
        Ok(p) => p,
        Err(e) => {
            let r = Err(e);
            assert(workspace_read_result(cands, ps, r));
            return r;
        },
    };
    let read = sys.fs_read(path.as_str());
    let r = match read {
        Ok(bytes) => Ok((path, bytes)),
        Err(e) => Err(ContextError::Io(e)),
    };
    assert(workspace_read_result(cands, ps, r));
    proof {
        assert forall|k: int, b: Seq<u8>|
            first_file_at(sys, cands, k) && #[trigger] reports_bytes(sys, cands[k], b) implies (r matches Ok(
                (f, c),
            ) && f@ == cands[k] && c@ == b) by {
            assert(sys.read_answer(path@, bytes_answer(read)));
        }
    }
    r
}

/// Whether the system reports `bytes` as the contents of the file at
/// `path`: every answer it may give to reading it is those bytes.
pub open spec fn reports_bytes<S: ContextSys>(sys: &S, path: Seq<char>, bytes: Seq<u8>) -> bool {
    forall|a: Result<Seq<u8>, std::io::Error>|
        #[trigger] sys.read_answer(path, a) ==> a == Ok::<Seq<u8>, std::io::Error>(bytes)
}

/// Whether two strings are equal.
fn str_eq(a: &str, b: &str) -> (r: bool)
    ensures
        r == (a@ == b@),
{
    let n = a.unicode_len();
    if n != b.unicode_len() {
        return false;
    }
    let mut i: usize = 0;
    while i < n
        invariant
            n == a@.len(),
            n == b@.len(),
            i <= n,
            forall|k: int| 0 <= k < i ==> a@[k] == b@[k],
        decreases n - i,
    {
        if a.get_char(i) != b.get_char(i) {
            return false;
        }
        i = i + 1;
    }
    assert(a@ =~= b@);
    true
}

/// The arguments of the command line that a context is built from: the
/// environment's name, the templates of the env files to load, in which
/// `{ENV}` stands for the environment's name, and the marker of the root
/// directory of env files.
pub struct CliArgs {
    pub env: Option<String>,
    pub env_file: Vec<String>,
    pub env_root_dir_marker: Option<String>,
}

/// The environment's name: the one given, else `development`.
pub open spec fn env_name(env: Option<String>) -> Seq<char> {
    match env {
        Some(e) => e@,
        None => "development"@,
    }
}

/// The env files for an environment: each template with every `{ENV}`
/// replaced by the environment's name.
pub open spec fn expanded_env_files(templates: Seq<Seq<char>>, env: Seq<char>) -> Seq<Seq<char>> {
    templates.map_values(|t: Seq<char>| replaced(t, "{ENV}"@, env))
}

/// The env files that the arguments name, for the environment they name.
pub fn expand_env_files(env: &Option<String>, env_file: &Vec<String>) -> (r: Vec<String>)
    ensures
        strings_view(r@) == expanded_env_files(strings_view(env_file@), env_name(*env)),
{
    proof {
        reveal_strlit("{ENV}");
    }
    let env_str: &str = match env {
        Some(e) => e.as_str(),
        None => "development",
    };
    let mut out: Vec<String> = Vec::new();
    let mut i: usize = 0;
    while i < env_file.len()
        invariant
            i <= env_file@.len(),
            env_str@ == env_name(*env),
            "{ENV}"@.len() > 0,
            out@.len() == i,
            forall|k: int|
                0 <= k < i ==> #[trigger] out@[k]@ == replaced(env_file@[k]@, "{ENV}"@, env_str@),
        decreases env_file.len() - i,
    {
        out.push(replace_all(env_file[i].as_str(), "{ENV}", env_str));
        i = i + 1;
    }
    assert(strings_view(out@) =~= expanded_env_files(strings_view(env_file@), env_name(*env)));
    out
}

/// The key under which the env vars of a task are kept: the project's name,
/// `#`, and the task's name.
pub fn task_env_key(project: &str, task: &str) -> (r: String)
    ensures
        r@ == project@ + "#"@ + task@,
{
    let mut out = String::from_str(project);
    out.append("#");
    out.append(task);
    out
}

/// The directory of a project: the parent of its configuration file.
pub fn project_dir_of(config_path: &str) -> (r: Result<String, ContextError>)
    ensures
        r matches Ok(d) ==> parent_of(config_path@) == Some(d@),
        r is Err <==> parent_of(config_path@) is None,
        r matches Err(e) ==> e is NoParentDir,
{
    match path_parent(config_path) {
        Some(d) => Ok(d),
        None => Err(ContextError::NoParentDir),
    }
}

/// The glob patterns of project directories: each pattern of the workspace,
/// under the root directory.
pub open spec fn project_patterns_under(root_dir: Seq<char>, patterns: Seq<Seq<char>>) -> Seq<
    Seq<char>,
> {
    patterns.map_values(|p: Seq<char>| root_dir + "/"@ + p)
}

/// Prefixes each pattern of the workspace with the root directory.
pub fn project_glob_patterns(root_dir: &str, patterns: &Vec<String>) -> (r: Vec<String>)
    ensures
        strings_view(r@) == project_patterns_under(root_dir@, strings_view(patterns@)),
{
    let mut out: Vec<String> = Vec::new();
    let mut i: usize = 0;
    while i < patterns.len()
        invariant
            i <= patterns@.len(),
            out@.len() == i,
            forall|k: int| 0 <= k < i ==> #[trigger] out@[k]@ == root_dir@ + "/"@ + patterns@[k]@,
        decreases patterns.len() - i,
    {
        let mut p = String::from_str(root_dir);
        p.append("/");
        p.append(patterns[i].as_str());
        out.push(p);
        i = i + 1;
    }
    assert(strings_view(out@) =~= project_patterns_under(root_dir@, strings_view(patterns@)));
    out
}

/// Whether every pattern parses.
pub open spec fn all_valid(patterns: Seq<Seq<char>>) -> bool {
    forall|i: int| 0 <= i < patterns.len() ==> glob_is_valid(#[trigger] patterns[i])
}

/// Builds the set of globs that project directories must match: each pattern
/// of the workspace, under the root directory. Fails on the first pattern
/// that does not parse, or when the set does not build.
pub fn project_glob_set(root_dir: &str, patterns: &Vec<String>) -> (r: Result<GlobSet, ContextError>)
    ensures
        r matches Ok(set) ==> set_patterns(set) == project_patterns_under(
            root_dir@,
            strings_view(patterns@),
        ),
        r matches Err(e) ==> e is Glob,
        r is Ok <==> all_valid(project_patterns_under(root_dir@, strings_view(patterns@)))
            && glob_set_builds(project_patterns_under(root_dir@, strings_view(patterns@))),
{
    let full = project_glob_patterns(root_dir, patterns);
    let ghost want = project_patterns_under(root_dir@, strings_view(patterns@));
    let mut builder = glob_set_builder_new();
    let mut i: usize = 0;
    while i < full.len()
        invariant
            i <= full@.len(),
            strings_view(full@) == want,
            want == project_patterns_under(root_dir@, strings_view(patterns@)),
            full@.len() == want.len(),
            builder_patterns(builder) == want.take(i as int),
            forall|k: int| 0 <= k < i ==> glob_is_valid(#[trigger] want[k]),
        decreases full.len() - i,
    {
        assert(full@[i as int]@ == want[i as int]);
        let glob = match glob_new(full[i].as_str()) {
            Ok(g) => g,
            Err(e) => {
                assert(!glob_is_valid(want[i as int]));
                assert(!all_valid(want));
                return Err(ContextError::Glob(e));
            },
        };
        glob_set_builder_add(&mut builder, glob);
        assert(want.take(i + 1) =~= want.take(i as int).push(want[i as int]));
        i = i + 1;
    }
    assert(want.take(full@.len() as int) =~= want);
    assert(all_valid(want));
    match glob_set_builder_build(&builder) {
        Ok(set) => Ok(set),
        Err(e) => Err(ContextError::Glob(e)),
    }
}

/// Whether a filter selects every project without being matched.
pub open spec fn matches_all(filter: Seq<char>) -> bool {
    filter == "*"@ || filter == "**"@
}

/// The projects whose name the glob `pattern` matches, in order.
pub open spec fn projects_matching(projects: Seq<Project>, pattern: Seq<char>) -> Seq<Project>
    decreases projects.len(),
{
    if projects.len() == 0 {
        Seq::empty()
    } else if glob_matches(pattern, projects.last().name@) {
        projects_matching(projects.drop_last(), pattern).push(projects.last())
    } else {
        projects_matching(projects.drop_last(), pattern)
    }
}

/// Filtering keeps the order of the projects and only projects whose name
/// the pattern matches, and drops none of those: a project of the result is
/// a loaded project that matches, and a loaded project that matches is in the
/// result.
pub proof fn lemma_projects_matching(projects: Seq<Project>, pattern: Seq<char>)
    ensures
        projects_matching(projects, pattern).len() <= projects.len(),
        forall|k: int|
            0 <= k < projects_matching(projects, pattern).len() ==> {
                &&& projects.contains(#[trigger] projects_matching(projects, pattern)[k])
                &&& glob_matches(pattern, projects_matching(projects, pattern)[k].name@)
            },
        forall|i: int|
            0 <= i < projects.len() && glob_matches(pattern, #[trigger] projects[i].name@)
                ==> projects_matching(projects, pattern).contains(projects[i]),
    decreases projects.len(),
{
    if projects.len() > 0 {
        let rest = projects.drop_last();
        lemma_projects_matching(rest, pattern);
        let m = projects_matching(projects, pattern);
        let mr = projects_matching(rest, pattern);
        assert forall|k: int| 0 <= k < m.len() implies projects.contains(#[trigger] m[k])
            && glob_matches(pattern, m[k].name@) by {
            if k < mr.len() {
                assert(m[k] == mr[k]);
                let j = choose|j: int| 0 <= j < rest.len() && rest[j] == mr[k];
                assert(projects[j] == rest[j]);
            } else {
                assert(m[k] == projects.last());
                assert(projects[projects.len() - 1] == projects.last());
            }
        }
        assert forall|i: int|
            0 <= i < projects.len() && glob_matches(pattern, #[trigger] projects[i].name@) implies m.contains(
            projects[i],
        ) by {
            if i < rest.len() {
                assert(rest[i] == projects[i]);
                assert(mr.contains(rest[i]));
                let k = choose|k: int| 0 <= k < mr.len() && mr[k] == rest[i];
                assert(m[k] == mr[k]);
            } else {
                assert(m[m.len() - 1] == projects[i]);
            }
        }
    }
}

/// A pattern that matches every name selects every project, in order. Since
/// `glob_new` states that `*` and `**` match every path, the short cut that
/// `get_filtered_projects` takes for them gives what filtering by their glob
/// gives.
pub proof fn lemma_filter_matching_every_name(projects: Seq<Project>, pattern: Seq<char>)
    requires
        forall|name: Seq<char>| glob_matches(pattern, name),
    ensures
        projects_matching(projects, pattern) == projects,
    decreases projects.len(),
{
    if projects.len() > 0 {
        lemma_filter_matching_every_name(projects.drop_last(), pattern);
        assert(glob_matches(pattern, projects.last().name@));
        assert(projects.drop_last().push(projects.last()) =~= projects);
    }
}

/// What filtering the projects (`None` when not loaded) with `filter` gives:
/// all of them for `*` and `**`, else a glob error when the filter does not
/// parse, else those whose name the filter matches.
pub open spec fn filtered_as_specified(
    projects: Option<Seq<Project>>,
    filter: Seq<char>,
    r: Result<Vec<&Project>, ContextError>,
) -> bool {
    if matches_all(filter) {
        match projects {
            Some(ps) => (r matches Ok(v) && deref_projects(v@) == ps),
            None => r matches Err(ContextError::ProjectsNotLoaded),
        }
    } else if !filter_compiles(filter) {
        r matches Err(ContextError::Glob(_))
    } else {
        match projects {
            Some(ps) => (r matches Ok(v) && deref_projects(v@) == projects_matching(ps, filter)),
            None => false,
        }
    }
}

/// The projects a list of references points to.
pub open spec fn deref_projects(projects: Seq<&Project>) -> Seq<Project> {
    projects.map_values(|p: &Project| *p)
}

/// References to every project of a list, in order.
fn all_project_refs(projects: &Vec<Project>) -> (r: Vec<&Project>)
    ensures
        deref_projects(r@) == projects@,
{
    let mut out: Vec<&Project> = Vec::new();
    let mut i: usize = 0;
    while i < projects.len()
        invariant
            i <= projects@.len(),
            out@.len() == i,
            forall|k: int| 0 <= k < i ==> *(#[trigger] out@[k]) == projects@[k],
        decreases projects.len() - i,
    {
        out.push(&projects[i]);
        i = i + 1;
    }
    assert(deref_projects(out@) =~= projects@);
    out
}

/// References to the projects whose name `filter` matches, in order.
fn project_refs_matching<'a>(projects: &'a Vec<Project>, filter: &GlobFilter) -> (r: Vec<&'a Project>)
    ensures
        deref_projects(r@) == projects_matching(projects@, filter.pattern()),
{
    let mut out: Vec<&Project> = Vec::new();
    let mut i: usize = 0;
    assert(projects@.take(0) =~= Seq::<Project>::empty());
    while i < projects.len()
        invariant
            i <= projects@.len(),
            deref_projects(out@) == projects_matching(projects@.take(i as int), filter.pattern()),
        decreases projects.len() - i,
    {
        assert(projects@.take(i + 1).drop_last() =~= projects@.take(i as int));
        let ghost before = out@;
        if filter.is_match(projects[i].name.as_str()) {
            out.push(&projects[i]);
            assert(deref_projects(out@) =~= deref_projects(before).push(projects@[i as int]));
        }
        i = i + 1;
    }
    assert(projects@.take(projects@.len() as int) =~= projects@);
    out
}

/// What the system answered about the project file found in a directory:
/// the path asked to canonicalise, and the answer.
pub struct ProjectFileAnswer {
    pub asked: String,
    pub canonical: Result<String, std::io::Error>,
}

/// What the system answered about an entry of a walk: asking whether it is
/// a directory failed; it is not one; canonicalising it failed; or it is a
/// directory with this canonical path, with the answers about the project
/// file names in it (asked only when a project glob matches the canonical
/// path) and, when one was found to be a file, the answer about that file.
pub enum EntryKind {
    DirFailed(std::io::Error),
    NotDir,
    CanonicalFailed(std::io::Error),
    Dir { canonical: String, files: Vec<FileProbe>, project: Option<ProjectFileAnswer> },
}

/// The entry asked about and the system's answers.
pub struct EntryAnswer {
    pub entry: String,
    pub kind: EntryKind,
}

/// Whether an entry's answers are those asked as `ask_entry` asks them,
/// against the glob patterns `patterns`, with the project file names
/// `project_names`: the names are asked about in the entry, in order, and
/// the file canonicalised is the canonical directory joined with the name
/// whose answer found a file.
pub open spec fn entry_well_asked(
    patterns: Seq<Seq<char>>,
    project_names: Seq<Seq<char>>,
    a: EntryAnswer,
) -> bool {
    match a.kind {
        EntryKind::Dir { canonical, files, project } => if any_glob_matches(
            patterns,
            canonical@,
        ) {
            &&& asked_in_order(candidates_in(a.entry@, project_names), files@)
            &&& (project is Some <==> probes_found(files@))
            &&& project matches Some(pf) ==> pf.asked@ == joined(
                canonical@,
                project_names[files@.len() - 1],
            )
        } else {
            files@.len() == 0 && project is None
        },
        _ => true,
    }
}

/// Whether an entry's answers are ones the system may give: to "is it a
/// directory", to canonicalising the entry, to the questions about the
/// project file names in it, and to canonicalising the project file found.
pub open spec fn entry_reported<S: ContextSys>(sys: &S, a: EntryAnswer) -> bool {
    match a.kind {
        EntryKind::DirFailed(e) => sys.is_dir_answer(a.entry@, Err(e)),
        EntryKind::NotDir => sys.is_dir_answer(a.entry@, Ok(false)),
        EntryKind::CanonicalFailed(e) => sys.is_dir_answer(a.entry@, Ok(true)) && sys.canonical_answer(
            a.entry@,
            Err(e),
        ),
        EntryKind::Dir { canonical, files, project } => {
            &&& sys.is_dir_answer(a.entry@, Ok(true))
            &&& sys.canonical_answer(a.entry@, Ok(canonical@))
            &&& probes_reported(sys, files@)
            &&& project matches Some(pf) ==> sys.canonical_answer(pf.asked@, text_answer(pf.canonical))
        },
    }
}

/// Whether the system never fails: no answer it may give to "exists", "is a
/// regular file", "is a directory" or to canonicalising a path is an error.
pub open spec fn reports_no_errors<S: ContextSys>(sys: &S) -> bool {
    &&& forall|path: Seq<char>, e: std::io::Error| !#[trigger] sys.exists_answer(path, Err(e))
    &&& forall|path: Seq<char>, e: std::io::Error| !#[trigger] sys.is_file_answer(path, Err(e))
    &&& forall|path: Seq<char>, e: std::io::Error| !#[trigger] sys.is_dir_answer(path, Err(e))
    &&& forall|path: Seq<char>, e: std::io::Error| !#[trigger] sys.canonical_answer(path, Err(e))
}

/// Whether the system reports `path` as a directory: every answer it may
/// give to "is it a directory" is yes.
pub open spec fn reports_dir<S: ContextSys>(sys: &S, path: Seq<char>) -> bool {
    forall|a: Result<bool, std::io::Error>|
        #[trigger] sys.is_dir_answer(path, a) ==> a == Ok::<bool, std::io::Error>(true)
}

/// Whether the system reports `canonical` as the canonical form of `path`:
/// every answer it may give to canonicalising it is that path.
pub open spec fn reports_canonical<S: ContextSys>(sys: &S, path: Seq<char>, canonical: Seq<char>) -> bool {
    forall|a: Result<Seq<char>, std::io::Error>|
        #[trigger] sys.canonical_answer(path, a) ==> a == Ok::<Seq<char>, std::io::Error>(canonical)
}

/// Whether the system reports `entry` as a directory whose canonical path
/// one of `patterns` matches and which holds a project file named by one of
/// `project_names` as a regular file, the first such name giving the file
/// whose canonical path is `path`.
pub open spec fn reports_project_file<S: ContextSys>(
    sys: &S,
    patterns: Seq<Seq<char>>,
    project_names: Seq<Seq<char>>,
    entry: Seq<char>,
    path: Seq<char>,
) -> bool {
    &&& reports_dir(sys, entry)
    &&& exists|c: Seq<char>, k: int|
        #![trigger reports_canonical(sys, joined(c, project_names[k]), path)]
        reports_canonical(sys, entry, c) && any_glob_matches(patterns, c) && first_file_at(
            sys,
            candidates_in(entry, project_names),
            k,
        ) && reports_canonical(sys, joined(c, project_names[k]), path)
}

/// The answers about an entry that the system may give, where the system
/// never fails, hold no failed call.
pub proof fn lemma_entry_without_errors<S: ContextSys>(sys: &S, a: EntryAnswer)
    requires
        entry_reported(sys, a),
        reports_no_errors(sys),
    ensures
        !entry_fails(a),
{
    match a.kind {
        EntryKind::DirFailed(e) => assert(sys.is_dir_answer(a.entry@, Err(e))),
        EntryKind::CanonicalFailed(e) => assert(sys.canonical_answer(a.entry@, Err(e))),
        EntryKind::Dir { canonical, files, project } => {
            if files@.len() > 0 {
                let p = files@.last();
                assert(probe_reported(sys, files@[files@.len() - 1]));
                if let FileAnswer::Failed(e) = p.answer {
                    if sys.exists_answer(p.path@, Err(e)) {
                    } else {
                        assert(sys.is_file_answer(p.path@, Err(e)));
                    }
                }
            }
            if let Some(pf) = project {
                if let Err(e) = pf.canonical {
                    assert(sys.canonical_answer(pf.asked@, Err(e)));
                }
            }
        },
        EntryKind::NotDir => {},
    }
}

/// The answers about an entry, asked as `ask_entry` asks them and ones the
/// system may give, find the project file that the system reports for it.
pub proof fn lemma_entry_finds_project<S: ContextSys>(
    sys: &S,
    patterns: Seq<Seq<char>>,
    project_names: Seq<Seq<char>>,
    a: EntryAnswer,
    path: Seq<char>,
)
    requires
        entry_well_asked(patterns, project_names, a),
        entry_reported(sys, a),
        reports_project_file(sys, patterns, project_names, a.entry@, path),
    ensures
        entry_path(a) == Some(path),
{
    let (c, k) = choose|c: Seq<char>, k: int|
        reports_canonical(sys, a.entry@, c) && any_glob_matches(patterns, c) && first_file_at(
            sys,
            candidates_in(a.entry@, project_names),
            k,
        ) && #[trigger] reports_canonical(sys, joined(c, project_names[k]), path);
    match a.kind {
        EntryKind::DirFailed(e) => assert(sys.is_dir_answer(a.entry@, Err(e))),
        EntryKind::NotDir => assert(sys.is_dir_answer(a.entry@, Ok(false))),
        EntryKind::CanonicalFailed(e) => assert(sys.canonical_answer(a.entry@, Err(e))),
        EntryKind::Dir { canonical, files, project } => {
            assert(sys.canonical_answer(a.entry@, Ok(canonical@)));
            assert(canonical@ == c);
            lemma_first_file_found(sys, candidates_in(a.entry@, project_names), files@, k);
            let pf = project->Some_0;
            assert(sys.canonical_answer(pf.asked@, text_answer(pf.canonical)));
        },
    }
}

/// A path that one entry's answers found is among the paths found by all.
pub proof fn lemma_paths_found_contains(answers: Seq<EntryAnswer>, i: int, path: Seq<char>)
    requires
        0 <= i < answers.len(),
        entry_path(answers[i]) == Some(path),
    ensures
        paths_found(answers).contains(path),
    decreases answers.len(),
{
    if i == answers.len() - 1 {
        assert(paths_found(answers) == paths_found(answers.drop_last()).push(path));
        assert(paths_found(answers).last() == path);
    } else {
        lemma_paths_found_contains(answers.drop_last(), i, path);
        let before = paths_found(answers.drop_last());
        let j = choose|j: int| 0 <= j < before.len() && before[j] == path;
        match entry_path(answers.last()) {
            Some(q) => assert(before.push(q)[j] == path),
            None => {},
        }
    }
}

/// Whether an entry's answers hold a failed system call.
pub open spec fn entry_fails(a: EntryAnswer) -> bool {
    match a.kind {
        EntryKind::DirFailed(_) => true,
        EntryKind::CanonicalFailed(_) => true,
        EntryKind::Dir { files, project, .. } => (files@.len() > 0 && files@.last().answer is Failed)
            || (project matches Some(pf) && pf.canonical is Err),
        EntryKind::NotDir => false,
    }
}

/// Whether an entry's answers hold a failed system call with error `e`.
pub open spec fn entry_fails_with(a: EntryAnswer, e: std::io::Error) -> bool {
    match a.kind {
        EntryKind::DirFailed(x) => x == e,
        EntryKind::CanonicalFailed(x) => x == e,
        EntryKind::Dir { files, project, .. } => probes_failed_with(files@, e) || (project matches Some(
            pf,
        ) && pf.canonical == Err::<String, std::io::Error>(e)),
        EntryKind::NotDir => false,
    }
}

/// The project file an entry's answers found, if any.
pub open spec fn entry_path(a: EntryAnswer) -> Option<Seq<char>> {
    match a.kind {
        EntryKind::Dir { project: Some(pf), .. } => match pf.canonical {
            Ok(p) => Some(p@),
            Err(_) => None,
        },
        _ => None,
    }
}

/// Whether `answers` are those asked about the first entries of `entries`,
/// each about its entry, in order, stopping at the first entry whose answers
/// hold a failed call.
pub open spec fn entries_well_asked(
    patterns: Seq<Seq<char>>,
    project_names: Seq<Seq<char>>,
    entries: Seq<Seq<char>>,
    answers: Seq<EntryAnswer>,
) -> bool {
    &&& answers.len() <= entries.len()
    &&& forall|i: int| 0 <= i < answers.len() ==> (#[trigger] answers[i]).entry@ == entries[i]
    &&& forall|i: int|
        0 <= i < answers.len() ==> entry_well_asked(patterns, project_names, #[trigger] answers[i])
    &&& forall|i: int| 0 <= i < answers.len() - 1 ==> !entry_fails(#[trigger] answers[i])
    &&& answers.len() < entries.len() ==> answers.len() > 0 && entry_fails(answers.last())
}

/// The project files that entries' answers found, in entry order.
pub open spec fn paths_found(answers: Seq<EntryAnswer>) -> Seq<Seq<char>>
    decreases answers.len(),
{
    if answers.len() == 0 {
        Seq::empty()
    } else {
        match entry_path(answers.last()) {
            Some(p) => paths_found(answers.drop_last()).push(p),
            None => paths_found(answers.drop_last()),
        }
    }
}

/// Whether `r` is what the search for project files gives for the answers:
/// the error of the failed call that ended them, else the files found.
pub open spec fn project_search_result(
    answers: Seq<EntryAnswer>,
    r: Result<Vec<String>, ContextError>,
) -> bool {
    match r {
        Ok(ps) => (answers.len() == 0 || !entry_fails(answers.last())) && strings_view(ps@)
            == paths_found(answers),
        Err(ContextError::Io(e)) => answers.len() > 0 && entry_fails_with(answers.last(), e),
        Err(_) => false,
    }
}

/// Whether an entry's answers hold a failed call.
fn entry_failed(a: &EntryAnswer) -> (r: bool)
    ensures
        r == entry_fails(*a),
{
    match &a.kind {
        EntryKind::DirFailed(_) => true,
        EntryKind::CanonicalFailed(_) => true,
        EntryKind::NotDir => false,
        EntryKind::Dir { files, project, .. } => {
            let last_failed = if files.len() > 0 {
                match &files[files.len() - 1].answer {
                    FileAnswer::Failed(_) => true,
                    _ => false,
                }
            } else {
                false
            };
            let project_failed = match project {
                Some(pf) => pf.canonical.is_err(),
                None => false,
            };
            last_failed || project_failed
        },
    }
}

/// The error of a failed call in an entry's answers.
fn entry_error(a: EntryAnswer) -> (e: std::io::Error)
    requires
        entry_fails(a),
    ensures
        entry_fails_with(a, e),
{
    let ghost whole = a;
    match a.kind {
        EntryKind::DirFailed(e) => e,
        EntryKind::CanonicalFailed(e) => e,
        EntryKind::NotDir => vstd::pervasive::unreached(),
        EntryKind::Dir { files, project, .. } => {
            let ghost fs = files@;
            let mut files = files;
            let last = files.pop();
            match last {
                Some(FileProbe { answer: FileAnswer::Failed(e), .. }) => e,
                _ => match project {
                    Some(ProjectFileAnswer { canonical: Err(e), .. }) => e,
                    _ => vstd::pervasive::unreached(),
                },
            }
        },
    }
}

/// The project files that entries' answers, asked in order, found: the
/// error of the failed call that ended them, else for each entry that found
/// one, in order, its canonical project file.
pub fn project_paths_from_answers(answers: Vec<EntryAnswer>) -> (r: Result<Vec<String>, ContextError>)
    requires
        forall|i: int| 0 <= i < answers@.len() - 1 ==> !entry_fails(#[trigger] answers@[i]),
    ensures
        project_search_result(answers@, r),
{
    let ghost all = answers@;
    if answers.len() > 0 && entry_failed(&answers[answers.len() - 1]) {
        let mut answers = answers;
        let last = answers.pop().unwrap();
        assert(last == all.last());
        return Err(ContextError::Io(entry_error(last)));
    }
    let mut out: Vec<String> = Vec::new();
    let mut i: usize = 0;
    assert(all.take(0) =~= Seq::<EntryAnswer>::empty());
    while i < answers.len()
        invariant
            all == answers@,
            i <= answers@.len(),
            strings_view(out@) == paths_found(all.take(i as int)),
        decreases answers.len() - i,
    {
        assert(all.take(i + 1).drop_last() =~= all.take(i as int));
        assert(all.take(i + 1).last() == all[i as int]);
        let ghost before = out@;
        match &answers[i].kind {
            EntryKind::Dir { project: Some(ProjectFileAnswer { canonical: Ok(p), .. }), .. } => {
                out.push(p.clone());
                assert(strings_view(out@) =~= strings_view(before).push(p@));
            },
            _ => {},
        }
        i = i + 1;
    }
    assert(all.take(all.len() as int) =~= all);
    Ok(out)
}

/// Asks the system about one entry of a walk: whether it is a directory,
/// its canonical path, and, when a glob of `set` matches that path, whether
/// each project file name exists in the entry as a regular file, in order,
/// until one does or a call fails; for the name found, the canonical path
/// of the canonical directory joined with it.
fn ask_entry<S: ContextSys>(sys: &S, set: &GlobSet, entry: &String, project_files: &Vec<String>) -> (r:
    EntryAnswer)
    ensures
        r.entry@ == entry@,
        entry_well_asked(set_patterns(*set), strings_view(project_files@), r),
        entry_reported(sys, r),
{
    let kind = match sys.fs_is_dir(entry.as_str()) {
        Err(e) => EntryKind::DirFailed(e),
        Ok(false) => EntryKind::NotDir,
        Ok(true) => match sys.fs_canonicalize(entry.as_str()) {
            Err(e) => EntryKind::CanonicalFailed(e),
            Ok(dir) => if !glob_set_is_match(set, dir.as_str()) {
                EntryKind::Dir { canonical: dir, files: Vec::new(), project: None }
            } else {
                let candidates = config_candidates(entry.as_str(), project_files);
                assert(candidates@.len() == strings_view(candidates@).len());
                assert(project_files@.len() == strings_view(project_files@).len());
                let files = probe_candidates(sys, &candidates);
                let n = files.len();
                let found = if n > 0 {
                    match &files[n - 1].answer {
                        FileAnswer::File => true,
                        _ => false,
                    }
                } else {
                    false
                };
                let project = if found {
                    let asked = path_join(dir.as_str(), project_files[n - 1].as_str());
                    assert(strings_view(project_files@)[n - 1] == project_files@[n - 1]@);
                    let canonical = sys.fs_canonicalize(asked.as_str());
                    Some(ProjectFileAnswer { asked, canonical })
                } else {
                    None
                };
                EntryKind::Dir { canonical: dir, files, project }
            },
        },
    };
    EntryAnswer { entry: entry.clone(), kind }
}

/// A project's configuration as loaded from its file: the project's name,
/// the path of the file, the configuration files it extends (resolved to
/// their paths), its dependencies and its tasks by name.
pub struct ProjectConfig {
    pub name: String,
    pub path: String,
    pub extends: Vec<String>,
    pub dependencies: Vec<Dependency>,
    pub tasks: HashMap<String, Task>,
}

/// The configurations extended that are not loaded, in order.
pub open spec fn not_loaded(extends: Seq<Seq<char>>, loaded: Seq<Seq<char>>) -> Seq<Seq<char>>
    decreases extends.len(),
{
    if extends.len() == 0 {
        Seq::empty()
    } else if loaded.contains(extends.last()) {
        not_loaded(extends.drop_last(), loaded)
    } else {
        not_loaded(extends.drop_last(), loaded).push(extends.last())
    }
}

/// Whether `name` is one of `seen`, by value.
fn contains_string(seen: &Vec<String>, name: &String) -> (r: bool)
    ensures
        r == strings_view(seen@).contains(name@),
{
    let r = seen_before(seen, name);
    proof {
        if r {
            let i = choose|i: int| 0 <= i < seen@.len() && #[trigger] seen@[i]@ == name@;
            assert(strings_view(seen@)[i] == name@);
        } else {
            if strings_view(seen@).contains(name@) {
                let i = choose|i: int|
                    0 <= i < strings_view(seen@).len() && strings_view(seen@)[i] == name@;
                assert(seen@[i]@ == name@);
            }
        }
    }
    r
}

/// One step of following `extends` when a configuration has been loaded:
/// its path joins the loaded paths, and each configuration it extends that
/// is not loaded is pushed onto the paths still to load, in order.
pub fn extends_step(to_process: Vec<String>, loaded: Vec<String>, config: &ProjectConfig) -> (r: (
    Vec<String>,
    Vec<String>,
))
    ensures
        strings_view(r.1@) == strings_view(loaded@).push(config.path@),
        strings_view(r.0@) == strings_view(to_process@) + not_loaded(
            strings_view(config.extends@),
            strings_view(loaded@).push(config.path@),
        ),
{
    let mut loaded = loaded;
    let ghost l0 = strings_view(loaded@);
    loaded.push(config.path.clone());
    assert(strings_view(loaded@) =~= l0.push(config.path@));
    let ghost l = strings_view(loaded@);
    let ghost ex = strings_view(config.extends@);
    let ghost t0 = strings_view(to_process@);
    let mut to_process = to_process;
    let mut i: usize = 0;
    assert(ex.take(0) =~= Seq::<Seq<char>>::empty());
    assert(t0 + not_loaded(ex.take(0), l) =~= t0);
    while i < config.extends.len()
        invariant
            i <= config.extends@.len(),
            ex == strings_view(config.extends@),
            l == strings_view(loaded@),
            strings_view(to_process@) == t0 + not_loaded(ex.take(i as int), l),
        decreases config.extends.len() - i,
    {
        assert(ex.take(i + 1).drop_last() =~= ex.take(i as int));
        assert(ex.take(i + 1).last() == config.extends@[i as int]@);
        let ghost before = strings_view(to_process@);
        if !contains_string(&loaded, &config.extends[i]) {
            to_process.push(config.extends[i].clone());
            assert(strings_view(to_process@) =~= before.push(config.extends@[i as int]@));
        }
        i = i + 1;
    }
    assert(ex.take(ex.len() as int) =~= ex);
    (to_process, loaded)
}

/// The configurations whose path the project-file search found, in order.
pub open spec fn kept_configs(configs: Seq<ProjectConfig>, found: Seq<Seq<char>>) -> Seq<
    ProjectConfig,
>
    decreases configs.len(),
{
    if configs.len() == 0 {
        Seq::empty()
    } else if found.contains(configs.last().path@) {
        kept_configs(configs.drop_last(), found).push(configs.last())
    } else {
        kept_configs(configs.drop_last(), found)
    }
}

/// Whether a kept configuration's path has no parent directory.
pub open spec fn kept_without_parent(configs: Seq<ProjectConfig>, found: Seq<Seq<char>>) -> bool {
    exists|i: int|
        0 <= i < configs.len() && found.contains(#[trigger] configs[i].path@) && parent_of(
            configs[i].path@,
        ) is None
}

/// Whether `p` is the project of the configuration `c`: its name,
/// dependencies and tasks, in the directory of its file.
pub open spec fn project_of_config(c: ProjectConfig, p: Project) -> bool {
    &&& p.name == c.name
    &&& parent_of(c.path@) == Some(p.dir@)
    &&& p.dependencies == c.dependencies
    &&& p.tasks == c.tasks
}

/// Whether `projects` are the projects of `configs`, one for one, in order.
pub open spec fn projects_built(configs: Seq<ProjectConfig>, projects: Seq<Project>) -> bool {
    &&& projects.len() == configs.len()
    &&& forall|i: int| 0 <= i < configs.len() ==> project_of_config(configs[i], #[trigger] projects[i])
}

/// Builds the projects of the configurations whose path the project-file
/// search found, in order: each with its configuration's name,
/// dependencies and tasks, in the directory of its file. Fails with
/// `NoParentDir` exactly when the path of such a configuration has no parent.
pub fn projects_from_configs(configs: Vec<ProjectConfig>, found: &Vec<String>) -> (r: Result<
    Vec<Project>,
    ContextError,
>)
    ensures
        r is Err <==> kept_without_parent(configs@, strings_view(found@)),
        r matches Err(e) ==> e is NoParentDir,
        r matches Ok(ps) ==> projects_built(kept_configs(configs@, strings_view(found@)), ps@),
{
    let ghost all = configs@;
    let ghost fv = strings_view(found@);
    let mut rest = configs;
    let mut out: Vec<Project> = Vec::new();
    let ghost mut k: int = 0;
    assert(all.take(0) =~= Seq::<ProjectConfig>::empty());
    assert(all.skip(0) =~= all);
    while rest.len() > 0
        invariant
            0 <= k <= all.len(),
            all == configs@,
            rest@ == all.skip(k),
            fv == strings_view(found@),
            projects_built(kept_configs(all.take(k), fv), out@),
            forall|j: int|
                0 <= j < k && fv.contains(#[trigger] all[j].path@) ==> parent_of(all[j].path@) is Some,
        decreases rest.len(),
    {
        let c = rest.remove(0);
        assert(c == all[k]);
        assert(all.take(k + 1).drop_last() =~= all.take(k));
        assert(all.take(k + 1).last() == c);
        assert(rest@ =~= all.skip(k + 1));
        let ghost kept_before = kept_configs(all.take(k), fv);
        if contains_string(found, &c.path) {
            let dir = match path_parent(c.path.as_str()) {
                Some(d) => d,
                None => {
                    assert(fv.contains(all[k].path@) && parent_of(all[k].path@) is None);
                    return Err(ContextError::NoParentDir);
                },
            };
            let ghost cfg = c;
            let ProjectConfig { name, dependencies, tasks, .. } = c;
            let p = Project::new(name, dir, dependencies, tasks);
            let ghost out_before = out@;
            out.push(p);
            assert(kept_configs(all.take(k + 1), fv) == kept_before.push(cfg));
            assert(project_of_config(cfg, p));
            assert forall|i: int| 0 <= i < kept_before.len() + 1 implies project_of_config(
                kept_configs(all.take(k + 1), fv)[i],
                #[trigger] out@[i],
            ) by {
                if i < kept_before.len() {
                    assert(out@[i] == out_before[i]);
                    assert(project_of_config(kept_before[i], out_before[i]));
                }
            }
        } else {
            assert(kept_configs(all.take(k + 1), fv) == kept_before);
        }
        proof {
            k = k + 1;
        }
    }
    assert(all.take(k) =~= all);
    Ok(out)
}

/// The state of a workspace that commands run against: the environment's
/// env files and the marker of their root directory, the workspace's root
/// directory and configuration file, the projects once loaded, and the
/// system.
pub struct Context<S: ContextSys> {
    env_root_dir_marker: String,
    env_files: Vec<String>,
    projects: Option<Vec<Project>>,
    root_dir: String,
    workspace_file: String,
    workspace_contents: Vec<u8>,
    sys: S,
}

impl<S: ContextSys> Context<S> {
    /// The env files of the environment.
    pub closed spec fn env_files_view(&self) -> Seq<Seq<char>> {
        strings_view(self.env_files@)
    }

    /// The marker of the root directory of env files.
    pub closed spec fn env_root_dir_marker_view(&self) -> Seq<char> {
        self.env_root_dir_marker@
    }

    /// The projects, once loaded.
    pub closed spec fn projects_view(&self) -> Option<Seq<Project>> {
        match self.projects {
            Some(p) => Some(p@),
            None => None,
        }
    }

    /// The workspace's root directory.
    pub closed spec fn root_dir_view(&self) -> Seq<char> {
        self.root_dir@
    }

    /// The workspace's configuration file.
    pub closed spec fn workspace_file_view(&self) -> Seq<char> {
        self.workspace_file@
    }

    /// The bytes of the workspace's configuration file.
    pub closed spec fn workspace_contents_view(&self) -> Seq<u8> {
        self.workspace_contents@
    }

    /// The system.
    pub closed spec fn sys_view(&self) -> S {
        self.sys
    }

    /// Builds the context for the arguments of the command line: the env
    /// files of the environment named (`development` when none is), the
    /// workspace's root directory as `get_root_dir` finds it, the root marker
    /// given or else the YAML workspace file name, and the workspace's
    /// configuration file as `read_workspace_file` finds and reads it in the
    /// root directory. Fails with the error of either.
    pub fn from_args_and_sys(cli: &CliArgs, names: &ConfigFileNames, sys: S) -> (r: Result<
        Context<S>,
        ContextError,
    >)
        ensures
            r matches Ok(ctx) ==> {
                &&& ctx.env_files_view() == expanded_env_files(
                    strings_view(cli.env_file@),
                    env_name(cli.env),
                )
                &&& ctx.env_root_dir_marker_view() == match cli.env_root_dir_marker {
                    Some(m) => m@,
                    None => replaced(names.workspace_template@, "{ext}"@, "yaml"@),
                }
                &&& ctx.projects_view() is None
                &&& exists|cur: Seq<char>, pss: Seq<Seq<FileProbe>>|
                    #![trigger root_found_at(ancestors_of(cur), pss, ctx.root_dir_view())]
                    sys.current_dir_answer(Ok(cur)) && root_asked_in_order(
                        ancestors_of(cur),
                        workspace_names(*names),
                        pss,
                    ) && roots_reported(&sys, pss) && root_found_at(
                        ancestors_of(cur),
                        pss,
                        ctx.root_dir_view(),
                    )
                &&& forall|c: Seq<char>, i: int|
                    reports_current_dir(&sys, c) && #[trigger] nearest_root_at(
                        &sys,
                        ancestors_of(c),
                        workspace_names(*names),
                        i,
                    ) ==> ctx.root_dir_view() == ancestors_of(c)[i]
                &&& exists|ps: Seq<FileProbe>|
                    #![trigger asked_in_order(workspace_candidates(ctx.root_dir_view(), *names), ps)]
                    asked_in_order(workspace_candidates(ctx.root_dir_view(), *names), ps)
                        && probes_reported(&sys, ps) && probes_found(ps) && ctx.workspace_file_view()
                        == workspace_candidates(ctx.root_dir_view(), *names)[ps.len() - 1]
                &&& forall|k: int|
                    #[trigger] first_file_at(&sys, workspace_candidates(ctx.root_dir_view(), *names), k)
                        ==> ctx.workspace_file_view() == workspace_candidates(
                        ctx.root_dir_view(),
                        *names,
                    )[k]
                &&& sys.read_answer(ctx.workspace_file_view(), Ok(ctx.workspace_contents_view()))
                &&& forall|b: Seq<u8>|
                    #[trigger] reports_bytes(&sys, ctx.workspace_file_view(), b)
                        ==> ctx.workspace_contents_view() == b
                &&& ctx.sys_view() == sys
            },
            r matches Err(e) ==> e is Io || e is WorkspaceNotFound,
            r matches Err(e) ==> (exists|cwd: Result<String, std::io::Error>|
                sys.current_dir_answer(text_answer(cwd)) && #[trigger] root_result_from(
                    &sys,
                    cwd,
                    *names,
                    Err::<String, ContextError>(e),
                )) || (exists|d: String|
                #![trigger workspace_read_from(&sys, d@, *names, Err::<(String, Vec<u8>), ContextError>(e))]
                (exists|cwd: Result<String, std::io::Error>|
                    sys.current_dir_answer(text_answer(cwd)) && #[trigger] root_result_from(
                        &sys,
                        cwd,
                        *names,
                        Ok::<String, ContextError>(d),
                    )) && workspace_read_from(
                    &sys,
                    d@,
                    *names,
                    Err::<(String, Vec<u8>), ContextError>(e),
                )),
            forall|c: Seq<char>, i: int, k: int, b: Seq<u8>|
                reports_current_dir(&sys, c) && nearest_root_at(
                    &sys,
                    ancestors_of(c),
                    workspace_names(*names),
                    i,
                ) && #[trigger] first_file_at(
                    &sys,
                    workspace_candidates(ancestors_of(c)[i], *names),
                    k,
                ) && #[trigger] reports_bytes(
                    &sys,
                    workspace_candidates(ancestors_of(c)[i], *names)[k],
                    b,
                ) ==> (r matches Ok(ctx) && ctx.root_dir_view() == ancestors_of(c)[i]
                    && ctx.workspace_file_view() == workspace_candidates(ancestors_of(c)[i], *names)[k]
                    && ctx.workspace_contents_view() == b),
            names.extensions@.len() == 0 ==> r is Err,
    {
        let env_files = expand_env_files(&cli.env, &cli.env_file);
        let found_root = get_root_dir(&sys, names);
        let ghost cwd = choose|cwd: Result<String, std::io::Error>|
            sys.current_dir_answer(text_answer(cwd)) && #[trigger] root_result_from(
                &sys,
                cwd,
                *names,
                found_root,
            );
        let root_dir = match found_root {
            Ok(d) => d,
            Err(e) => {
                assert(root_result_from(&sys, cwd, *names, Err::<String, ContextError>(e)));
                return Err(e);
            },
        };
        let ghost c = cwd->Ok_0@;
        let ghost pss = choose|pss: Seq<Seq<FileProbe>>|
            root_asked_in_order(ancestors_of(c), workspace_names(*names), pss) && roots_reported(
                &sys,
                pss,
            ) && #[trigger] root_search_result(ancestors_of(c), pss, found_root);
        let root_marker = match &cli.env_root_dir_marker {
            Some(m) => m.clone(),
            None => names.default_root_marker(),
        };
        let read = read_workspace_file(&sys, root_dir.as_str(), names);
        let (workspace_file, workspace_contents) = match read {
            Ok(fc) => fc,
            Err(e) => {
                assert(root_result_from(&sys, cwd, *names, Ok::<String, ContextError>(root_dir)));
                assert(workspace_read_from(
                    &sys,
                    root_dir@,
                    *names,
                    Err::<(String, Vec<u8>), ContextError>(e),
                ));
                return Err(e);
            },
        };
        let ghost ps = choose|ps: Seq<FileProbe>|
            asked_in_order(workspace_candidates(root_dir@, *names), ps) && probes_reported(&sys, ps)
                && #[trigger] workspace_read_result(workspace_candidates(root_dir@, *names), ps, read);
        let ctx = Context {
            env_root_dir_marker: root_marker,
            env_files,
            projects: None,
            root_dir,
            workspace_file,
            workspace_contents,
            sys,
        };
        assert(root_found_at(ancestors_of(c), pss, ctx.root_dir_view()));
        assert(asked_in_order(workspace_candidates(ctx.root_dir_view(), *names), ps));
        assert(sys.current_dir_answer(Ok(c)));
        proof {
            assert forall|k: int|
                #[trigger] first_file_at(&sys, workspace_candidates(ctx.root_dir_view(), *names), k)
                    implies ctx.workspace_file_view() == workspace_candidates(
                    ctx.root_dir_view(),
                    *names,
                )[k] by {
                lemma_first_file_found(&sys, workspace_candidates(root_dir@, *names), ps, k);
            }
            assert forall|b: Seq<u8>| #[trigger] reports_bytes(&sys, ctx.workspace_file_view(), b)
                implies ctx.workspace_contents_view() == b by {
                assert(sys.read_answer(ctx.workspace_file_view(), Ok(ctx.workspace_contents_view())));
            }
        }
        Ok(ctx)
    }

    /// The system.
    pub fn sys(&self) -> (r: &S)
        ensures
            *r == self.sys_view(),
    {
        &self.sys
    }

    /// The env files of the environment.
    pub fn env_files(&self) -> (r: &[String])
        ensures
            strings_view(r@) == self.env_files_view(),
    {
        self.env_files.as_slice()
    }

    /// The marker of the root directory of env files.
    pub fn env_root_dir_marker(&self) -> (r: &str)
        ensures
            r@ == self.env_root_dir_marker_view(),
    {
        self.env_root_dir_marker.as_str()
    }

    /// The workspace's root directory.
    pub fn root_dir(&self) -> (r: &str)
        ensures
            r@ == self.root_dir_view(),
    {
        self.root_dir.as_str()
    }

    /// The current directory, as the system reports it.
    pub fn get_current_dir(&self) -> (r: Result<String, std::io::Error>)
        ensures
            self.sys_view().current_dir_answer(text_answer(r)),
    {
        self.sys.env_current_dir()
    }

    /// The bytes of the workspace's configuration file, as read when the
    /// context was built.
    pub fn workspace_contents(&self) -> (r: &[u8])
        ensures
            r@ == self.workspace_contents_view(),
    {
        self.workspace_contents.as_slice()
    }

    /// The workspace's configuration file.
    pub fn workspace_file(&self) -> (r: &str)
        ensures
            r@ == self.workspace_file_view(),
    {
        self.workspace_file.as_str()
    }

    /// The projects, once loaded.
    pub fn get_projects(&self) -> (r: Option<&Vec<Project>>)
        ensures
            r is Some <==> self.projects_view() is Some,
            r matches Some(p) ==> self.projects_view() == Some(p@),
    {
        self.projects.as_ref()
    }

    /// Compiles a glob that filters projects by name.
    pub fn get_filter_matcher(&self, glob_filter: &str) -> (r: Result<GlobFilter, ContextError>)
        ensures
            r is Ok <==> filter_compiles(glob_filter@),
            r matches Ok(m) ==> m.pattern() == glob_filter@,
            r matches Err(e) ==> e is Glob,
    {
        match GlobFilter::new(glob_filter) {
            Ok(f) => Ok(f),
            Err(e) => Err(ContextError::Glob(e)),
        }
    }

    /// The projects whose name `glob_filter` matches, in load order; `*` and
    /// `**` select them all. The projects must have been loaded unless the
    /// filter selects them all or does not parse.
    pub fn get_filtered_projects(&self, glob_filter: &str) -> (r: Result<Vec<&Project>, ContextError>)
        requires
            !matches_all(glob_filter@) && glob_is_valid(glob_filter@) ==> self.projects_view() is Some,
        ensures
            filtered_as_specified(self.projects_view(), glob_filter@, r),
    {
        proof {
            reveal_strlit("*");
            reveal_strlit("**");
        }
        if str_eq(glob_filter, "*") || str_eq(glob_filter, "**") {
            return match &self.projects {
                Some(ps) => Ok(all_project_refs(ps)),
                None => Err(ContextError::ProjectsNotLoaded),
            };
        }
        let matcher = self.get_filter_matcher(glob_filter)?;
        let ps = self.projects.as_ref().unwrap();
        Ok(project_refs_matching(ps, &matcher))
    }

    /// Filters the projects as `get_filtered_projects` does, where that can
    /// be done: `None` when the projects are not loaded and the filter is a
    /// glob that parses and does not select them all.
    pub fn try_get_filtered_projects(&self, glob_filter: &str) -> (r: Option<
        Result<Vec<&Project>, ContextError>,
    >)
        ensures
            r is None <==> (!matches_all(glob_filter@) && glob_is_valid(glob_filter@)
                && self.projects_view() is None),
            r matches Some(res) ==> filtered_as_specified(self.projects_view(), glob_filter@, res),
    {
        proof {
            reveal_strlit("*");
            reveal_strlit("**");
        }
        if self.projects.is_some() || str_eq(glob_filter, "*") || str_eq(glob_filter, "**") {
            return Some(self.get_filtered_projects(glob_filter));
        }
        match glob_new(glob_filter) {
            Ok(_) => None,
            Err(e) => Some(Err(ContextError::Glob(e))),
        }
    }

    /// Finds the project configuration files among the directory entries of
    /// a walk of the workspace. It builds the set of the workspace's project
    /// globs under the root directory (failing with `Glob` when a pattern
    /// does not parse or the set does not build), then asks about each entry
    /// in order, as `ask_entry` does, and stops at the first failed system
    /// call. The result is what `project_paths_from_answers` gives for the
    /// answers: for each entry that is a directory whose canonical path a glob
    /// matches and where a project file name exists as a regular file, the
    /// canonical path of the first such file in that directory.
    pub fn find_project_paths(
        &self,
        entries: &Vec<String>,
        project_globs: &Vec<String>,
        names: &ConfigFileNames,
    ) -> (r: Result<Vec<String>, ContextError>)
        ensures
            (r matches Err(ContextError::Glob(_))) <==> !(all_valid(
                project_patterns_under(self.root_dir_view(), strings_view(project_globs@)),
            ) && glob_set_builds(
                project_patterns_under(self.root_dir_view(), strings_view(project_globs@)),
            )),
            !(r matches Err(ContextError::Glob(_))) ==> exists|answers: Seq<EntryAnswer>|
                #![trigger project_search_result(answers, r)]
                entries_well_asked(
                    project_patterns_under(self.root_dir_view(), strings_view(project_globs@)),
                    project_names_of(*names),
                    strings_view(entries@),
                    answers,
                ) && (forall|i: int|
                    0 <= i < answers.len() ==> entry_reported(&self.sys_view(), #[trigger] answers[i]))
                    && project_search_result(answers, r),
            reports_no_errors(&self.sys_view()) && all_valid(
                project_patterns_under(self.root_dir_view(), strings_view(project_globs@)),
            ) && glob_set_builds(
                project_patterns_under(self.root_dir_view(), strings_view(project_globs@)),
            ) ==> r is Ok,
            forall|i: int, p: Seq<char>|
                reports_no_errors(&self.sys_view()) && all_valid(
                    project_patterns_under(self.root_dir_view(), strings_view(project_globs@)),
                ) && glob_set_builds(
                    project_patterns_under(self.root_dir_view(), strings_view(project_globs@)),
                ) && 0 <= i < entries@.len() && #[trigger] reports_project_file(
                    &self.sys_view(),
                    project_patterns_under(self.root_dir_view(), strings_view(project_globs@)),
                    project_names_of(*names),
                    strings_view(entries@)[i],
                    p,
                ) ==> (r matches Ok(ps) && strings_view(ps@).contains(p)),
            r matches Err(e) ==> e is Io || e is Glob,
    {
        let ghost pats = project_patterns_under(self.root_dir@, strings_view(project_globs@));
        let set = match project_glob_set(self.root_dir.as_str(), project_globs) {
            Ok(s) => s,
            Err(e) => return Err(e),
        };
        let project_files = names.project_files();
        let ghost nf = project_names_of(*names);
        let ghost es = strings_view(entries@);
        let mut answers: Vec<EntryAnswer> = Vec::new();
        let mut done = false;
        while answers.len() < entries.len() && !done
            invariant
                answers@.len() <= entries@.len(),
                strings_view(project_files@) == nf,
                es == strings_view(entries@),
                set_patterns(set) == pats,
                forall|i: int| 0 <= i < answers@.len() ==> (#[trigger] answers@[i]).entry@ == es[i],
                forall|i: int|
                    0 <= i < answers@.len() ==> entry_well_asked(pats, nf, #[trigger] answers@[i]),
                forall|i: int| 0 <= i < answers@.len() - 1 ==> !entry_fails(#[trigger] answers@[i]),
                forall|i: int|
                    0 <= i < answers@.len() ==> entry_reported(&self.sys, #[trigger] answers@[i]),
                done ==> answers@.len() > 0 && entry_fails(answers@.last()),
                !done ==> answers@.len() == 0 || !entry_fails(answers@.last()),
            decreases entries.len() - answers.len(),
        {
            let k = answers.len();
            let a = ask_entry(&self.sys, &set, &entries[k], &project_files);
            assert(es[k as int] == entries@[k as int]@);
            done = entry_failed(&a);
            answers.push(a);
        }
        let ghost all = answers@;
        assert(entries_well_asked(pats, nf, es, all));
        let r = project_paths_from_answers(answers);
        proof {
            if reports_no_errors(&self.sys) {
                if all.len() > 0 {
                    lemma_entry_without_errors(&self.sys, all[all.len() - 1]);
                }
                assert forall|i: int, p: Seq<char>|
                    0 <= i < es.len() && #[trigger] reports_project_file(&self.sys, pats, nf, es[i], p)
                        implies (r matches Ok(ps) && strings_view(ps@).contains(p)) by {
                    assert(all[i].entry@ == es[i]);
                    lemma_entry_finds_project(&self.sys, pats, nf, all[i], p);
                    lemma_paths_found_contains(all, i, p);
                }
            }
        }
        r
    }

    /// Whether `after` and `r` are what storing `projects` into `self` gives:
    /// the projects stored and returned when no two share a name, and every
    /// other part kept; else the first repeated name with the directories of
    /// every project that has it, and the context unchanged.
    pub open spec fn stored_as(
        self,
        after: Self,
        projects: Seq<Project>,
        r: Result<&Vec<Project>, ContextError>,
    ) -> bool {
        &&& r is Ok <==> all_distinct(project_names(projects))
        &&& r matches Ok(p) ==> p@ == projects
        &&& r is Ok ==> after.projects_view() == Some(projects)
        &&& r is Ok ==> after.env_files_view() == self.env_files_view()
            && after.env_root_dir_marker_view() == self.env_root_dir_marker_view()
            && after.root_dir_view() == self.root_dir_view() && after.workspace_file_view()
            == self.workspace_file_view() && after.workspace_contents_view()
            == self.workspace_contents_view() && after.sys_view() == self.sys_view()
        &&& r is Err ==> after == self
        &&& r matches Err(e) ==> e is DuplicateProjectName
        &&& r matches Err(ContextError::DuplicateProjectName { name, dirs }) ==> {
            &&& exists|j: int|
                first_repeat(project_names(projects), j) && #[trigger] project_names(projects)[j]
                    == name@
            &&& strings_view(dirs@) == dirs_named(projects, name@)
        }
    }

    /// Loads the projects of the configurations that the project-file search
    /// found: builds them as `projects_from_configs` does and stores them as
    /// `store_projects` does. A configuration whose path has no parent fails
    /// the call and leaves the context unchanged.
    pub fn load_projects(&mut self, configs: Vec<ProjectConfig>, found: &Vec<String>) -> (r: Result<
        &Vec<Project>,
        ContextError,
    >)
        ensures
            (r matches Err(ContextError::NoParentDir)) <==> kept_without_parent(
                configs@,
                strings_view(found@),
            ),
            r matches Err(ContextError::NoParentDir) ==> *final(self) == *old(self),
            !kept_without_parent(configs@, strings_view(found@)) ==> exists|ps: Seq<Project>|
                #![trigger projects_built(kept_configs(configs@, strings_view(found@)), ps)]
                projects_built(kept_configs(configs@, strings_view(found@)), ps) && old(
                    self,
                ).stored_as(*final(self), ps, r),
    {
        let projects = match projects_from_configs(configs, found) {
            Ok(ps) => ps,
            Err(e) => return Err(e),
        };
        let ghost ps = projects@;
        let r = self.store_projects(projects);
        r
    }

    /// Stores the loaded projects, once it has checked that no two of them
    /// share a name; on a duplicate name it leaves the context unchanged.
    pub fn store_projects(&mut self, projects: Vec<Project>) -> (r: Result<&Vec<Project>, ContextError>)
        ensures
            old(self).stored_as(*final(self), projects@, r),
    {
        match check_duplicate_project_names(&projects) {
            Ok(()) => {},
            Err(e) => return Err(e),
        }
        self.projects = Some(projects);
        Ok(self.projects.as_ref().unwrap())
    }
}

} // verus!
