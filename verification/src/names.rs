use crate::text::{replace_all, replaced};
use vstd::prelude::*;

verus! {

/// The contents of a list of strings.
pub open spec fn strings_view(v: Seq<String>) -> Seq<Seq<char>> {
    v.map_values(|s: String| s@)
}

/// The names that `template` gives, one for each extension, in order: each is
/// the template with every `{ext}` replaced by the extension.
pub open spec fn names_for(template: Seq<char>, extensions: Seq<Seq<char>>) -> Seq<Seq<char>> {
    extensions.map_values(|e: Seq<char>| replaced(template, "{ext}"@, e))
}

/// How configuration files are named: a template for the workspace file and
/// one for project files, in which `{ext}` stands for one of the supported
/// extensions, tried in the order given.
pub struct ConfigFileNames {
    pub workspace_template: String,
    pub project_template: String,
    pub extensions: Vec<String>,
}

/// Instantiates `template` with each of `extensions`.
fn names_from(template: &str, extensions: &Vec<String>) -> (r: Vec<String>)
    ensures
        strings_view(r@) == names_for(template@, strings_view(extensions@)),
{
    proof {
        reveal_strlit("{ext}");
    }
    let mut out: Vec<String> = Vec::new();
    let mut i: usize = 0;
    while i < extensions.len()
        invariant
            i <= extensions@.len(),
            "{ext}"@.len() > 0,
            out@.len() == i,
            forall|j: int|
                0 <= j < i ==> #[trigger] out@[j]@ == replaced(template@, "{ext}"@, extensions@[j]@),
        decreases extensions.len() - i,
    {
        let name = replace_all(template, "{ext}", extensions[i].as_str());
        out.push(name);
        i = i + 1;
    }
    assert(strings_view(out@) =~= names_for(template@, strings_view(extensions@)));
    out
}

impl ConfigFileNames {
    /// The names a workspace configuration file may have, in the order they
    /// are looked for.
    pub fn workspace_files(&self) -> (r: Vec<String>)
        ensures
            strings_view(r@) == names_for(self.workspace_template@, strings_view(self.extensions@)),
    {
        names_from(self.workspace_template.as_str(), &self.extensions)
    }

    /// The names a project configuration file may have, in the order they are
    /// looked for.
    pub fn project_files(&self) -> (r: Vec<String>)
        ensures
            strings_view(r@) == names_for(self.project_template@, strings_view(self.extensions@)),
    {
        names_from(self.project_template.as_str(), &self.extensions)
    }

    /// The marker of the root directory used when none is given: the YAML
    /// workspace file name.
    pub fn default_root_marker(&self) -> (r: String)
        ensures
            r@ == replaced(self.workspace_template@, "{ext}"@, "yaml"@),
    {
        proof {
            reveal_strlit("{ext}");
        }
        replace_all(self.workspace_template.as_str(), "{ext}", "yaml")
    }
}

} // verus!
