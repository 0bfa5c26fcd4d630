use globset::{Glob, GlobSet, GlobSetBuilder};
use vstd::prelude::*;

verus! {

/// `globset::Glob`, a parsed glob pattern.
#[verifier::external_type_specification]
#[verifier::external_body]
pub struct ExGlob(globset::Glob);

/// `globset::GlobSetBuilder`, the globs gathered for a set.
#[verifier::external_type_specification]
#[verifier::external_body]
pub struct ExGlobSetBuilder(globset::GlobSetBuilder);

/// `globset::GlobSet`, a set of globs matched together.
#[verifier::external_type_specification]
#[verifier::external_body]
pub struct ExGlobSet(globset::GlobSet);

/// `globset::Error`, the error of parsing or building globs.
#[verifier::external_type_specification]
#[verifier::external_body]
pub struct ExGlobError(globset::Error);

/// Whether `globset::Glob::new` accepts a pattern.
pub uninterp spec fn glob_is_valid(pattern: Seq<char>) -> bool;

/// Whether the glob of a pattern (default options) matches a path, in the
/// sense `globset::GlobSet::is_match` tests for each glob of a set.
pub uninterp spec fn glob_matches(pattern: Seq<char>, path: Seq<char>) -> bool;

/// Whether `globset::GlobSetBuilder::build` succeeds for the globs of these
/// patterns, added in this order.
pub uninterp spec fn glob_set_builds(patterns: Seq<Seq<char>>) -> bool;

/// The patterns of the globs that a `globset::GlobSetBuilder` holds, in the
/// order they were added.
pub uninterp spec fn builder_patterns(builder: GlobSetBuilder) -> Seq<Seq<char>>;

/// The patterns of the globs that a `globset::GlobSet` was built from, in
/// order.
pub uninterp spec fn set_patterns(set: GlobSet) -> Seq<Seq<char>>;

/// Whether some pattern of `patterns` matches `path`.
pub open spec fn any_glob_matches(patterns: Seq<Seq<char>>, path: Seq<char>) -> bool {
    exists|i: int| 0 <= i < patterns.len() && glob_matches(#[trigger] patterns[i], path)
}

/// Whether a filter pattern can be used: it parses, and the set of its one
/// glob builds.
pub open spec fn filter_compiles(pattern: Seq<char>) -> bool {
    glob_is_valid(pattern) && glob_set_builds(seq![pattern])
}

/// A glob pattern together with the glob parsed from it. Only `glob_new`
/// builds one, so the glob is always the parse of the pattern.
pub struct GlobPattern {
    pattern: String,
    glob: Glob,
}

impl GlobPattern {
    /// The text of the pattern.
    pub closed spec fn pattern(self) -> Seq<char> {
        self.pattern@
    }
}

/// Calls `globset::Glob::new`: succeeds exactly when the pattern parses,
/// which `glob_is_valid` names; on success the result keeps the pattern's
/// text beside the glob. As globset's documentation says, `*` matches zero
/// or more characters (a separator too, by default) and `**` matches
/// everything, so either matches every path.
#[verifier::external_body]
pub(crate) fn glob_new(pattern: &str) -> (r: Result<GlobPattern, globset::Error>)
    ensures
        r is Ok <==> glob_is_valid(pattern@),
        r matches Ok(g) ==> g.pattern() == pattern@,
        r is Ok && (pattern@ == "*"@ || pattern@ == "**"@) ==> forall|path: Seq<char>|
            glob_matches(pattern@, path),
{
    match Glob::new(pattern) {
        Ok(glob) => Ok(GlobPattern { pattern: pattern.to_string(), glob }),
        Err(e) => Err(e),
    }
}

/// Calls `globset::GlobSetBuilder::new`, which starts with no globs.
#[verifier::external_body]
pub(crate) fn glob_set_builder_new() -> (r: GlobSetBuilder)
    ensures
        builder_patterns(r) == Seq::<Seq<char>>::empty(),
{
    GlobSetBuilder::new()
}

/// Calls `globset::GlobSetBuilder::add`, which appends the glob.
#[verifier::external_body]
pub(crate) fn glob_set_builder_add(builder: &mut GlobSetBuilder, glob: GlobPattern)
    ensures
        builder_patterns(*final(builder)) == builder_patterns(*old(builder)).push(glob.pattern()),
{
    builder.add(glob.glob);
}

/// Calls `globset::GlobSetBuilder::build`: it succeeds exactly when the set
/// of the builder's globs builds, which `glob_set_builds` names, and a set it
/// returns holds the builder's globs, in order.
#[verifier::external_body]
pub(crate) fn glob_set_builder_build(builder: &GlobSetBuilder) -> (r: Result<GlobSet, globset::Error>)
    ensures
        r is Ok <==> glob_set_builds(builder_patterns(*builder)),
        r matches Ok(set) ==> set_patterns(set) == builder_patterns(*builder),
{
    builder.build()
}

/// Calls `globset::GlobSet::is_match`, which, as its documentation says,
/// answers whether any glob of the set matches the path.
#[verifier::external_body]
pub(crate) fn glob_set_is_match(set: &GlobSet, path: &str) -> (r: bool)
    ensures
        r == any_glob_matches(set_patterns(*set), path@),
{
    set.is_match(path)
}

/// A compiled filter: the set of the one glob of a pattern.
pub struct GlobFilter {
    pattern: String,
    set: GlobSet,
}

impl GlobFilter {
    /// The set holds exactly the glob of the pattern.
    #[verifier::type_invariant]
    spec fn set_of_pattern(self) -> bool {
        set_patterns(self.set) == seq![self.pattern@]
    }

    /// The text of the pattern the filter was compiled from.
    pub closed spec fn pattern(self) -> Seq<char> {
        self.pattern@
    }

    /// Compiles `pattern` into a filter: fails when it does not parse or
    /// its glob does not build.
    pub fn new(pattern: &str) -> (r: Result<GlobFilter, globset::Error>)
        ensures
            r is Ok <==> filter_compiles(pattern@),
            r matches Ok(f) ==> f.pattern() == pattern@,
    {
        let glob = glob_new(pattern)?;
        let mut builder = glob_set_builder_new();
        glob_set_builder_add(&mut builder, glob);
        assert(builder_patterns(builder) =~= seq![pattern@]);
        let set = glob_set_builder_build(&builder)?;
        Ok(GlobFilter { pattern: String::from_str(pattern), set })
    }

    /// Whether the pattern matches `path`.
    pub fn is_match(&self, path: &str) -> (r: bool)
        ensures
            r == glob_matches(self.pattern(), path@),
    {
        proof {
            use_type_invariant(self);
        }
        let r = glob_set_is_match(&self.set, path);
        proof {
            let pats = set_patterns(self.set);
            if glob_matches(self.pattern(), path@) {
                assert(glob_matches(pats[0], path@));
            }
        }
        r
    }
}

} // verus!
