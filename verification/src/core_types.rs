use std::collections::HashMap;
use vstd::prelude::*;

verus! {

/// A dependency of a project or a task: on a task of a project, on a whole
/// project, or on a task of the same project.
#[derive(Debug, Clone, PartialEq, Eq)]
pub struct Dependency {
    pub project: Option<String>,
    pub task: Option<String>,
}

impl Dependency {
    /// Builds a dependency from its fields.
    pub fn new(project: Option<String>, task: Option<String>) -> (r: Self)
        ensures
            r.project == project,
            r.task == task,
    {
        Dependency { project, task }
    }
}

/// A project of the workspace: its name, the directory that holds its
/// configuration file, its dependencies and its tasks by name.
#[derive(Debug, Clone, PartialEq, Eq)]
pub struct Project {
    pub name: String,
    pub dir: String,
    pub dependencies: Vec<Dependency>,
    pub tasks: HashMap<String, Task>,
}

impl Project {
    /// Builds a project from its fields.
    pub fn new(
        name: String,
        dir: String,
        dependencies: Vec<Dependency>,
        tasks: HashMap<String, Task>,
    ) -> (r: Self)
        ensures
            r.name == name,
            r.dir == dir,
            r.dependencies == dependencies,
            r.tasks == tasks,
    {
        Project { name, dir, dependencies, tasks }
    }
}

/// A task: the command it runs and what it depends on.
#[derive(Debug, Clone, PartialEq, Eq)]
pub struct Task {
    pub command: String,
    pub dependencies: Vec<Dependency>,
}

impl Task {
    /// Builds a task from its fields.
    pub fn new(command: String, dependencies: Vec<Dependency>) -> (r: Self)
        ensures
            r.command == command,
            r.dependencies == dependencies,
    {
        Task { command, dependencies }
    }
}

} // verus!
