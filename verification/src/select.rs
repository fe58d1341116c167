//! Looking up one of several named things.
use vstd::prelude::*;

verus! {

/// The first position from `from` on at which `x` stands in `s`.
pub open spec fn first_at<T>(s: Seq<T>, x: T, from: int) -> Option<int>
    decreases s.len() - from,
{
    if from < 0 || from >= s.len() {
        None
    } else if s[from] == x {
        Some(from)
    } else {
        first_at(s, x, from + 1)
    }
}

/// The first position at which `x` stands in `s`.
pub open spec fn first_index<T>(s: Seq<T>, x: T) -> Option<int> {
    first_at(s, x, 0)
}

/// An index as a mathematical integer.
pub open spec fn as_index(i: Option<usize>) -> Option<int> {
    match i {
        Some(k) => Some(k as int),
        None => None,
    }
}

/// What a list of names holds, where a name may be unknown.
pub open spec fn name_texts(names: Seq<Option<String>>) -> Seq<Option<Seq<char>>> {
    names.map_values(|n: Option<String>| opt_text(n))
}

/// What an optional string holds.
pub open spec fn opt_text(s: Option<String>) -> Option<Seq<char>> {
    match s {
        Some(t) => Some(t@),
        None => None,
    }
}

/// A name that is known and reads `wanted`.
pub open spec fn is_named(name: Option<String>, wanted: Seq<char>) -> bool {
    name matches Some(s) && s@ == wanted
}

/// `i` is the first place of the list with the name `wanted`.
pub open spec fn first_named(names: Seq<Option<String>>, wanted: Seq<char>, i: int) -> bool {
    &&& 0 <= i < names.len()
    &&& is_named(names[i], wanted)
    &&& forall|j: int| 0 <= j < i ==> !is_named(#[trigger] names[j], wanted)
}

/// No place of the list has the name `wanted`.
pub open spec fn none_named(names: Seq<Option<String>>, wanted: Seq<char>) -> bool {
    forall|j: int| 0 <= j < names.len() ==> !is_named(#[trigger] names[j], wanted)
}

/// The first position of a value is one where it stands with none before it,
/// and there is no such position exactly if the value does not occur.
pub proof fn law_first_index<T>(s: Seq<T>, x: T)
    ensures
        first_index(s, x) is None <==> !s.contains(x),
        first_index(s, x) matches Some(i) ==> {
            &&& 0 <= i < s.len()
            &&& s[i] == x
            &&& forall|j: int| 0 <= j < i ==> s[j] != x
        },
{
    lemma_first_at(s, x, 0);
}

/// What `first_at` finds, wherever it starts.
pub proof fn lemma_first_at<T>(s: Seq<T>, x: T, from: int)
    requires
        0 <= from,
    ensures
        first_at(s, x, from) matches Some(i) ==> {
            &&& from <= i < s.len()
            &&& s[i] == x
            &&& forall|j: int| from <= j < i ==> s[j] != x
        },
        first_at(s, x, from) is None ==> forall|j: int| from <= j < s.len() ==> s[j] != x,
    decreases s.len() - from,
{
    if from < s.len() && s[from] != x {
        lemma_first_at(s, x, from + 1);
    }
}

/// A search may skip positions that do not match.
pub proof fn lemma_skip<T>(s: Seq<T>, x: T, from: int)
    requires
        0 <= from <= s.len(),
        forall|j: int| 0 <= j < from ==> s[j] != x,
    ensures
        first_index(s, x) == first_at(s, x, from),
    decreases from,
{
    if from > 0 {
        lemma_skip(s, x, from - 1);
    }
}

/// The position of the first thing whose name is known and is `wanted`.
pub fn find_name(names: &Vec<Option<String>>, wanted: &str) -> (r: Option<usize>)
    ensures
        as_index(r) == first_index(name_texts(names@), Some(wanted@)),
        r matches Some(i) ==> first_named(names@, wanted@, i as int),
        r is None ==> none_named(names@, wanted@),
{
    let target = wanted.to_owned();
    let ghost all = name_texts(names@);
    let mut i: usize = 0;
    while i < names.len()
        invariant
            i <= names.len(),
            target@ == wanted@,
            all == name_texts(names@),
            forall|j: int| 0 <= j < i ==> all[j] != Some(wanted@),
            forall|j: int| 0 <= j < i ==> !is_named(#[trigger] names@[j], wanted@),
        decreases names.len() - i,
    {
        if let Some(name) = &names[i] {
            if *name == target {
                proof {
                    lemma_skip(all, Some(wanted@), i as int);
                }
                return Some(i);
            }
        }
        i = i + 1;
    }
    proof {
        lemma_skip(all, Some(wanted@), i as int);
    }
    None
}

/// The position of the first of `names` that is `wanted`.
pub fn position(names: &[String], wanted: &String) -> (r: Option<usize>)
    ensures
        as_index(r) == first_index(crate::text::texts(names@), wanted@),
        r matches Some(i) ==> i < names@.len() && names@[i as int]@ == wanted@ && forall|j: int|
            0 <= j < i ==> (#[trigger] names@[j])@ != wanted@,
        r is None ==> forall|j: int| 0 <= j < names@.len() ==> (#[trigger] names@[j])@ != wanted@,
{
    let ghost all = crate::text::texts(names@);
    let mut i: usize = 0;
    while i < names.len()
        invariant
            i <= names.len(),
            all == crate::text::texts(names@),
            forall|j: int| 0 <= j < i ==> all[j] != wanted@,
            forall|j: int| 0 <= j < i ==> (#[trigger] names@[j])@ != wanted@,
        decreases names.len() - i,
    {
        if names[i] == *wanted {
            proof {
                lemma_skip(all, wanted@, i as int);
            }
            return Some(i);
        }
        i = i + 1;
    }
    proof {
        lemma_skip(all, wanted@, i as int);
    }
    None
}

} // verus!
