//! Glob patterns and pattern sets, backed by the `globset` crate.

use vstd::prelude::*;

verus! {

#[verifier::external_type_specification]
#[verifier::external_body]
pub struct ExGlobSet(globset::GlobSet);

#[verifier::external_type_specification]
#[verifier::external_body]
pub struct ExGlobSetBuilder(globset::GlobSetBuilder);

/// The regular expression that `globset` compiles a glob pattern into, built with
/// `literal_separator` set (so `*` and `?` never match `/`) and the other options
/// at their defaults; `None` when the pattern is malformed.
pub uninterp spec fn glob_regex(pattern: Seq<char>) -> Option<Seq<char>>;

/// Whether a single well-formed glob pattern, built with `literal_separator` set
/// and the other options at their defaults, matches a path.
pub uninterp spec fn glob_matches(pattern: Seq<char>, path: Seq<char>) -> bool;

/// The patterns held by a glob set builder, in the order they were added.
pub uninterp spec fn builder_globs(b: globset::GlobSetBuilder) -> Seq<Seq<char>>;

/// The patterns held by a built glob set.
pub uninterp spec fn set_globs(s: globset::GlobSet) -> Seq<Seq<char>>;

/// Whether `globset` can combine the given patterns into one matcher.
pub uninterp spec fn glob_set_builds(globs: Seq<Seq<char>>) -> bool;

/// A path matches a set of patterns when it matches any one of them.
pub open spec fn set_matches(globs: Seq<Seq<char>>, path: Seq<char>) -> bool {
    exists|i: int| 0 <= i < globs.len() && glob_matches(#[trigger] globs[i], path)
}

/// The patterns among `ps` that compile, in their original order.
pub open spec fn valid_patterns(ps: Seq<String>) -> Seq<Seq<char>>
    decreases ps.len(),
{
    if ps.len() == 0 {
        Seq::empty()
    } else {
        let rest = valid_patterns(ps.drop_last());
        if glob_regex(ps.last()@) is Some {
            rest.push(ps.last()@)
        } else {
            rest
        }
    }
}

/// Relies on `globset::GlobBuilder` (with `literal_separator(true)`) and
/// `globset::Glob::regex`: the pattern either fails to parse or yields its
/// regular expression.
#[verifier::external_body]
fn compile_to_regex(pattern: &str) -> (r: Option<String>)
    ensures
        match r {
            Some(re) => glob_regex(pattern@) == Some(re@),
            None => glob_regex(pattern@) is None,
        },
{
    globset::GlobBuilder::new(pattern).literal_separator(true).build().ok().map(
        |g| g.regex().to_string(),
    )
}

/// Relies on `globset::GlobSetBuilder::new`: a new builder holds no patterns.
#[verifier::external_body]
fn new_builder() -> (r: globset::GlobSetBuilder)
    ensures
        builder_globs(r) == Seq::<Seq<char>>::empty(),
{
    globset::GlobSetBuilder::new()
}

/// Relies on `globset::GlobBuilder` (with `literal_separator(true)`) and
/// `globset::GlobSetBuilder::add`: a pattern that parses is appended to the
/// builder; one that does not leaves it unchanged.
#[verifier::external_body]
fn add_pattern(b: &mut globset::GlobSetBuilder, pattern: &str) -> (added: bool)
    ensures
        added == (glob_regex(pattern@) is Some),
        added ==> builder_globs(*final(b)) == builder_globs(*old(b)).push(pattern@),
        !added ==> builder_globs(*final(b)) == builder_globs(*old(b)),
{
    match globset::GlobBuilder::new(pattern).literal_separator(true).build() {
        Ok(g) => {
            b.add(g);
            true
        },
        Err(_) => false,
    }
}

/// Relies on `globset::GlobSetBuilder::build`: on success the set holds exactly
/// the builder's patterns.
#[verifier::external_body]
fn build_set(b: &globset::GlobSetBuilder) -> (r: Option<globset::GlobSet>)
    ensures
        r is Some == glob_set_builds(builder_globs(*b)),
        r matches Some(s) ==> set_globs(s) == builder_globs(*b),
{
    b.build().ok()
}

/// Relies on `globset::GlobSet::is_match`: true when any glob of the set matches.
#[verifier::external_body]
fn set_is_match(s: &globset::GlobSet, path: &str) -> (r: bool)
    ensures
        r == (exists|i: int|
            0 <= i < set_globs(*s).len() && glob_matches(#[trigger] set_globs(*s)[i], path@)),
{
    s.is_match(path)
}

/// A compiled set of glob patterns, matched with "any of" semantics. In a glob
/// `*` and `?` stop at `/`, while `**` spans whole path segments.
pub struct PatternSet {
    set: globset::GlobSet,
}

impl PatternSet {
    /// The patterns this set was built from.
    pub closed spec fn globs(&self) -> Seq<Seq<char>> {
        set_globs(self.set)
    }

    /// Compiles every pattern of `patterns` that parses, skipping the others, and
    /// combines them into one set. `None` when the combined set cannot be built.
    pub fn from_patterns(patterns: &Vec<String>) -> (r: Option<PatternSet>)
        ensures
            r is Some == glob_set_builds(valid_patterns(patterns@)),
            r matches Some(ps) ==> ps.globs() == valid_patterns(patterns@),
    {
        let mut b = new_builder();
        let mut i: usize = 0;
        while i < patterns.len()
            invariant
                i <= patterns.len(),
                builder_globs(b) == valid_patterns(patterns@.subrange(0, i as int)),
            decreases patterns.len() - i,
        {
            let _ = add_pattern(&mut b, patterns[i].as_str());
            assert(patterns@.subrange(0, i + 1).drop_last() =~= patterns@.subrange(0, i as int));
            i = i + 1;
        }
        assert(patterns@.subrange(0, patterns.len() as int) =~= patterns@);
        match build_set(&b) {
            Some(set) => Some(PatternSet { set }),
            None => None,
        }
    }

    /// Whether `path` matches any pattern of the set.
    pub fn is_match(&self, path: &str) -> (r: bool)
        ensures
            r == set_matches(self.globs(), path@),
    {
        set_is_match(&self.set, path)
    }
}

/// The regular expression that `glob` compiles to, or `None` when it is malformed.
pub fn glob_to_regex(glob: String) -> (r: Option<String>)
    ensures
        r is Some == glob_regex(glob@) is Some,
        r matches Some(re) ==> glob_regex(glob@) == Some(re@),
{
    compile_to_regex(glob.as_str())
}

} // verus!
