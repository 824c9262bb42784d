//! Reading the submodule mount points declared in `.gitmodules`-style text.

use vstd::prelude::*;

verus! {

#[verifier::external_type_specification]
#[verifier::external_body]
pub struct ExConfigError(gix_config::parse::Error);

/// What `gix_config` reads from configuration text: `None` when the text is not a
/// well-formed configuration file, `Some(None)` when it has no `submodule`
/// section, and otherwise, for each `submodule` section in file order, its `path`
/// value (`None` for a section without one).
pub uninterp spec fn parsed_submodules(text: Seq<char>) -> Option<Option<Seq<Option<Seq<char>>>>>;

/// The text of each string of a sequence.
pub open spec fn texts(v: Seq<String>) -> Seq<Seq<char>> {
    v.map_values(|s: String| s@)
}

/// The text of each optional string of a sequence.
pub open spec fn optional_texts(v: Seq<Option<String>>) -> Seq<Option<Seq<char>>> {
    v.map_values(|o: Option<String>| match o {
        Some(s) => Some(s@),
        None => None,
    })
}

/// Relies on `gix_config::File::from_str`, `gix_config::File::sections_by_name`
/// and the section's `value`: parses the text and lists the `path` value of every
/// `submodule` section.
#[verifier::external_body]
fn parse_submodule_sections(text: &str) -> (r: Result<
    Option<Vec<Option<String>>>,
    gix_config::parse::Error,
>)
    ensures
        match r {
            Err(_) => parsed_submodules(text@) is None,
            Ok(None) => parsed_submodules(text@) == Some(None::<Seq<Option<Seq<char>>>>),
            Ok(Some(v)) => parsed_submodules(text@) == Some(Some(optional_texts(v@))),
        },
{
    let file = <gix_config::File as std::str::FromStr>::from_str(text)?;
    Ok(
        file.sections_by_name("submodule").map(
            |sections| sections.map(|s| s.value("path").map(|v| v.to_string())).collect(),
        ),
    )
}

/// Configuration text that is not well-formed.
#[derive(Debug, PartialEq, Eq, Structural, Clone, Copy)]
pub struct ConfigParseError;

/// The values that are present, in order.
pub open spec fn present_paths(entries: Seq<Option<Seq<char>>>) -> Seq<Seq<char>>
    decreases entries.len(),
{
    if entries.len() == 0 {
        Seq::empty()
    } else {
        let rest = present_paths(entries.drop_last());
        match entries.last() {
            Some(p) => rest.push(p),
            None => rest,
        }
    }
}

/// The submodule paths declared by configuration text: `Some(None)` when it has
/// no `submodule` section, `None` when it is malformed.
pub open spec fn declared_submodules(text: Seq<char>) -> Option<Option<Seq<Seq<char>>>> {
    match parsed_submodules(text) {
        None => None,
        Some(None) => Some(None),
        Some(Some(entries)) => Some(Some(present_paths(entries))),
    }
}

fn collect_present(entries: Vec<Option<String>>) -> (r: Vec<String>)
    ensures
        texts(r@) == present_paths(optional_texts(entries@)),
{
    let mut r: Vec<String> = Vec::new();
    let mut i: usize = 0;
    while i < entries.len()
        invariant
            i <= entries.len(),
            texts(r@) == present_paths(optional_texts(entries@.subrange(0, i as int))),
        decreases entries.len() - i,
    {
        let ghost before = r@;
        assert(optional_texts(entries@.subrange(0, i + 1)).drop_last() =~= optional_texts(
            entries@.subrange(0, i as int),
        ));
        match &entries[i] {
            Some(p) => {
                r.push(p.clone());
                assert(texts(r@) =~= texts(before).push(p@));
            },
            None => {},
        }
        i = i + 1;
    }
    assert(entries@.subrange(0, entries.len() as int) =~= entries@);
    r
}

/// Parses `.gitmodules`-style text and returns the `path` of every `submodule`
/// section that has one. `Ok(None)` when there is no `submodule` section at all.
pub fn read_submodule_paths(gitmodules: &str) -> (r: Result<Option<Vec<String>>, ConfigParseError>)
    ensures
        match declared_submodules(gitmodules@) {
            None => r is Err,
            Some(None) => r matches Ok(None),
            Some(Some(paths)) => r matches Ok(Some(v)) && texts(v@) == paths,
        },
{
    match parse_submodule_sections(gitmodules) {
        Err(_) => Err(ConfigParseError),
        Ok(None) => Ok(None),
        Ok(Some(entries)) => Ok(Some(collect_present(entries))),
    }
}

/// The submodule paths of a repository, given the content of its `.gitmodules`
/// file if that file could be read. Absence, malformed content and a file with no
/// `submodule` section all give `None`.
pub fn get_submodule_paths(gitmodules: Option<String>) -> (r: Option<Vec<String>>)
    ensures
        match gitmodules {
            Some(text) => match declared_submodules(text@) {
                Some(Some(paths)) => r matches Some(v) && texts(v@) == paths,
                _ => r is None,
            },
            None => r is None,
        },
{
    match gitmodules {
        None => None,
        Some(text) => match read_submodule_paths(text.as_str()) {
            Ok(paths) => paths,
            Err(_) => None,
        },
    }
}

/// Text whose only `submodule` section carries the path `p` declares exactly `[p]`.
pub proof fn lemma_single_submodule(text: Seq<char>, p: Seq<char>)
    requires
        parsed_submodules(text) == Some(Some(seq![Some(p)])),
    ensures
        declared_submodules(text) == Some(Some(seq![p])),
{
    let es: Seq<Option<Seq<char>>> = seq![Some(p)];
    assert(es.drop_last() =~= Seq::<Option<Seq<char>>>::empty());
    assert(es.last() == Some(p));
    assert(present_paths(es.drop_last()) == Seq::<Seq<char>>::empty());
    assert(present_paths(es) =~= seq![p]);
}

/// Text without any `submodule` section declares no submodules.
pub proof fn lemma_no_submodule_section(text: Seq<char>)
    requires
        parsed_submodules(text) == Some(None::<Seq<Option<Seq<char>>>>),
    ensures
        declared_submodules(text) == Some(None::<Seq<Seq<char>>>),
{
}

} // verus!
