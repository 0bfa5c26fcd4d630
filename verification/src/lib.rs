//! Workspace context for the omni task runner: the verified core.
//!
//! The modules hold the merge strategy used by configuration values, the
//! project and task records, the naming of configuration files, the search
//! for the workspace root, glob filtering of projects, and the checks that a
//! loaded set of projects must pass.

mod context;
mod core_types;
mod glob;
mod names;
mod path;
mod probe;
mod replace;
mod sys;
mod text;

pub use context::{
    extends_step, find_root_dir_from, kept_configs, kept_without_parent, not_loaded,
    project_names_of, project_of_config, projects_built, projects_from_configs, root_result_from,
    root_search_from, workspace_names, workspace_read_from, EntryKind, ProjectConfig,
    ProjectFileAnswer,
    entries_well_asked, entry_fails, entry_fails_with, entry_path, entry_well_asked,
    file_search_result, paths_found, probe_lists, project_paths_from_answers,
    project_search_result, root_asked_in_order, root_dir_from_probes, root_found_at,
    root_search_result, workspace_candidates, workspace_file_from_probes, workspace_read_result,
    EntryAnswer,
    all_distinct, all_valid, candidates_in, check_duplicate_project_names, config_candidates,
    deref_projects, dir_lines, dirs_named, duplicate_message, env_name, expand_env_files,
    expanded_env_files, filtered_as_specified, find_root_dir, find_workspace_file, first_repeat,
    get_root_dir, lemma_filter_matching_every_name, lemma_projects_matching, lines_joined, matches_all, named_earlier,
    project_dir_of, project_glob_patterns, project_glob_set, project_names,
    project_patterns_under, projects_matching, read_workspace_file, task_env_key, CliArgs,
    Context, ContextError,
    entry_reported, lemma_entry_finds_project, lemma_entry_without_errors,
    lemma_nearest_root_found, lemma_no_root_found, lemma_paths_found_contains, nearest_root_at,
    no_root_among, reports_bytes, reports_canonical, reports_current_dir, reports_dir,
    reports_no_errors, reports_project_file, roots_reported,
};
pub use core_types::{Dependency, Project, Task};
pub use glob::{
    any_glob_matches, builder_patterns, filter_compiles, glob_is_valid, glob_matches,
    glob_set_builds, set_patterns, GlobFilter, GlobPattern,
};
pub use names::{names_for, strings_view, ConfigFileNames};
pub use path::{ancestors_of, joined, lemma_ancestors_chain, parent_of, path_ancestors};
pub use probe::{
    asked_in_order, decides, is_decisive, probe_candidates, probes_decided, probes_failed_with,
    probes_found, probes_undecided, search_outcome, FileAnswer, FileProbe, FileSearch,
    first_file_at, lemma_first_file_found, lemma_no_file_found, lemma_probe_reported,
    no_file_among, probe_reported, probes_reported, reports_file, reports_no_file,
};
pub use replace::{lemma_merge_last_wins, merged, replace, Replace};
pub use sys::{bytes_answer, text_answer, ContextSys};
pub use text::{lemma_replaced_without_occurrence, occurs_in, replace_all, replaced};
