use std::collections::HashMap;

use omni::{Dependency, Project, Task};

#[test]
fn constructors_keep_fields() {
    let dep = Dependency::new(Some("p".to_string()), None);
    assert_eq!(dep.project.as_deref(), Some("p"));
    assert_eq!(dep.task, None);

    let task = Task::new("echo hi".to_string(), vec![dep.clone()]);
    assert_eq!(task.command, "echo hi");
    assert_eq!(task.dependencies, vec![dep.clone()]);

    let mut tasks = HashMap::new();
    tasks.insert("build".to_string(), task.clone());
    let project = Project::new("p".to_string(), "/p".to_string(), vec![dep], tasks);
    assert_eq!(project.name, "p");
    assert_eq!(project.dir, "/p");
    assert_eq!(project.tasks["build"], task);
}
