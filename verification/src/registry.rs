//! Resolution of a textual encoding name against the registered encodings:
//! an exact, case-sensitive scan, with a fixed default name substituted for
//! the empty name. An unknown name resolves to nothing — there is no fuzzy
//! matching and no further fallback.

use vstd::prelude::*;
use vstd::string::StrSliceExecFns;
use vstd::string::StringExecFns;

verus! {

/// The name that stands in for the empty encoding name.
pub open spec fn default_encoding_name() -> Seq<char> {
    "ascii"@
}

/// The name actually looked up: the default for the empty name, the
/// requested name itself otherwise.
pub open spec fn resolved_query(requested: Seq<char>) -> Seq<char> {
    if requested.len() == 0 {
        default_encoding_name()
    } else {
        requested
    }
}

/// Resolving the empty name is the same as resolving the default name:
/// both look up the default name itself.
pub proof fn lemma_default_resolution()
    ensures
        resolved_query(""@) == resolved_query(default_encoding_name()),
{
    reveal_strlit("");
    reveal_strlit("ascii");
}

/// The index of the first registered name that matches the requested name
/// exactly (after default substitution), and nothing when no name matches.
pub fn resolve_index(names: &Vec<String>, requested: &str) -> (r: Option<usize>)
    ensures
        match r {
            Some(i) => {
                &&& i < names@.len()
                &&& names@[i as int]@ == resolved_query(requested@)
                &&& forall|j: int|
                    0 <= j < i ==> (#[trigger] names@[j])@ != resolved_query(requested@)
            },
            None => forall|j: int|
                0 <= j < names@.len() ==> (#[trigger] names@[j])@ != resolved_query(requested@),
        },
{
    let query: &str = if requested.unicode_len() == 0 {
        "ascii"
    } else {
        requested
    };
    let query = String::from_str(query);
    let mut i: usize = 0;
    while i < names.len()
        invariant
            i <= names@.len(),
            query@ == resolved_query(requested@),
            forall|j: int| 0 <= j < i ==> (#[trigger] names@[j])@ != resolved_query(requested@),
        decreases names@.len() - i,
    {
        if names[i] == query {
            return Some(i);
        }
        i = i + 1;
    }
    None
}

/// The names of the registered encodings, in registry order. The registry
/// is one fixed list compiled into the encoding crate, the same in every
/// run, so the argument is immaterial; call sites pass 0.
pub uninterp spec fn registry_names(k: int) -> Seq<Seq<char>>;

/// Relies on `encoding::all::encodings` and `Encoding::name`: the fixed
/// list of registered encodings, each reduced to its name, in registry
/// order. The registry always carries an encoding named `"ascii"`.
#[verifier::external_body]
fn registered_encoding_names() -> (names: Vec<String>)
    ensures
        names@.map_values(|s: String| s@) == registry_names(0),
        exists|i: int| 0 <= i < names@.len() && (#[trigger] names@[i])@ == "ascii"@,
{
    encoding::all::encodings().iter().map(|e| e.name().to_string()).collect()
}

/// The index, among the registered encodings in registry order, of the
/// first whose name matches the requested name exactly (after default
/// substitution). The default name always resolves; an unknown name
/// resolves to nothing, never to a substitute.
pub fn resolve_encoding(requested: &str) -> (r: Option<usize>)
    ensures
        match r {
            Some(i) => {
                &&& i < registry_names(0).len()
                &&& registry_names(0)[i as int] == resolved_query(requested@)
                &&& forall|j: int|
                    0 <= j < i ==> #[trigger] registry_names(0)[j] != resolved_query(requested@)
            },
            None => forall|j: int|
                0 <= j < registry_names(0).len() ==> #[trigger] registry_names(0)[j]
                    != resolved_query(requested@),
        },
        requested@.len() == 0 || requested@ == default_encoding_name() ==> r is Some,
{
    let names = registered_encoding_names();
    let r = resolve_index(&names, requested);
    proof {
        let mapped = names@.map_values(|s: String| s@);
        assert(mapped.len() == names@.len());
        assert(forall|j: int| 0 <= j < names@.len() ==> mapped[j] == (#[trigger] names@[j])@);
        if requested@.len() == 0 || requested@ == default_encoding_name() {
            reveal_strlit("ascii");
            assert(resolved_query(requested@) == "ascii"@);
            let w = choose|i: int| 0 <= i < names@.len() && (#[trigger] names@[i])@ == "ascii"@;
            if r is None {
                assert(names@[w]@ != resolved_query(requested@));
                assert(false);
            }
        }
    }
    r
}

} // verus!
