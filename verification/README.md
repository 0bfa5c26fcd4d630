# omni — verified workspace context

The core of omni's workspace context, written in Verus.

- `src/replace.rs` — the "later value wins" merge of configuration values.
- `src/core_types.rs` — projects, tasks and dependencies.
- `src/text.rs`, `src/names.rs` — `{ext}` / `{ENV}` templating of file names.
- `src/path.rs` — ancestors of a path, over `std::path::Path`.
- `src/glob.rs` — the `globset` calls the library makes, with their contracts.
- `src/sys.rs` — the system a context works against.
- `src/probe.rs` — asking the system about candidate files, in order, each
  answer recording the path asked, and what the answers decide.
- `src/context.rs` — finding the workspace root and file, finding project
  files, following `extends`, building, checking and storing projects,
  filtering them by glob.

`app/` holds what the library cannot: the serde / schemars / derive_more
copies of the records, the `merge` and `garde` impls, the `sys_traits`
backed system, and a driver that walks the root directory, parses the
workspace and project files and loads the projects.

Left out, for want of their sources: merging the configurations a project
extends into it, expanding variables in `extends` paths, loading env files
and task env vars, and the project graph.
