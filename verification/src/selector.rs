use vstd::prelude::*;
use vstd::string::StrSliceExecFns;
use vstd::string::StringExecFns;
use crate::catalog::ReleaseEntry;

verus! {

/// Whether some catalog entry's version is exactly `v`.
pub open spec fn catalog_has_version(entries: Seq<ReleaseEntry>, v: Seq<char>) -> bool {
    exists|i: int| 0 <= i < entries.len() && entries[i]@.version == v
}

/// The normalized form of accepted free-form input: the input itself when
/// it already starts with `v`, else the input with `v` prefixed.
pub open spec fn normalized_input(input: Seq<char>) -> Seq<char> {
    if input.len() > 0 && input[0] == 'v' {
        input
    } else {
        seq!['v'] + input
    }
}

/// The menu shown to the operator, in fixed order: the long-term-support
/// choice, the latest choice, and the free-form specific-version choice.
pub fn selection_items(lts: &String, latest: &String) -> (r: Vec<String>)
    ensures
        r@.len() == 3,
        r@[0]@ == "LTS ("@ + lts@ + ")"@,
        r@[1]@ == "Latest ("@ + latest@ + ")"@,
        r@[2]@ == "Specific Version"@,
{
    let mut items: Vec<String> = Vec::new();
    items.push(String::from_str("LTS (").concat(lts.as_str()).concat(")"));
    items.push(String::from_str("Latest (").concat(latest.as_str()).concat(")"));
    items.push(String::from_str("Specific Version"));
    items
}

/// The version that a menu choice settles immediately: choice 0 is the
/// long-term-support version and choice 1 the latest. The specific-version
/// choice settles nothing yet, so it yields `None` and the caller prompts
/// for free-form input.
pub fn resolve_choice(choice: usize, lts: &String, latest: &String) -> (r: Option<String>)
    ensures
        choice == 0 ==> (r matches Some(v) && v@ == lts@),
        choice == 1 ==> (r matches Some(v) && v@ == latest@),
        choice >= 2 ==> r is None,
{
    if choice == 0 {
        Some(lts.clone())
    } else if choice == 1 {
        Some(latest.clone())
    } else {
        None
    }
}

/// Validates free-form operator input against the catalog and normalizes
/// it. The input is accepted exactly when prefixing it with `v` yields a
/// version present in the catalog; the accepted version keeps a leading
/// `v` the operator already supplied and adds one otherwise. Rejected
/// input yields `None`, on which the caller re-prompts.
pub fn accept_specific(entries: &Vec<ReleaseEntry>, input: &String) -> (r: Option<String>)
    ensures
        r is Some <==> catalog_has_version(entries@, seq!['v'] + input@),
        r matches Some(v) ==> v@ == normalized_input(input@),
{
    let candidate = String::from_str("v").concat(input.as_str());
    proof {
        reveal_strlit("v");
        assert(candidate@ =~= seq!['v'] + input@);
    }
    let n = entries.len();
    for i in 0..n
        invariant
            n == entries@.len(),
            candidate@ == seq!['v'] + input@,
            forall|j: int| 0 <= j < i ==> entries@[j]@.version != seq!['v'] + input@,
    {
        if entries[i].version == candidate {
            if !input.as_str().is_empty() && input.as_str().get_char(0) == 'v' {
                return Some(input.clone());
            } else {
                return Some(candidate);
            }
        }
    }
    None
}

} // verus!
