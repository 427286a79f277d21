//! Views of sequences, element by element.
use vstd::prelude::*;

verus! {

/// The views of the elements of `s`, in order.
pub open spec fn views<T: View>(s: Seq<T>) -> Seq<T::V> {
    Seq::new(s.len(), |i: int| s[i]@)
}

/// Appending an element appends its view.
pub proof fn lemma_views_push<T: View>(s: Seq<T>, x: T)
    ensures
        views(s.push(x)) == views(s).push(x@),
{
    assert(views(s.push(x)) =~= views(s).push(x@));
}

/// The first place at or after `from` at which `names` holds `name`.
pub open spec fn position_from(names: Seq<Seq<char>>, name: Seq<char>, from: int) -> Option<int>
    decreases names.len() - from,
{
    if from < 0 || from >= names.len() {
        None
    } else if names[from] == name {
        Some(from)
    } else {
        position_from(names, name, from + 1)
    }
}

/// What `position_from` finds is the first match, and where it finds nothing
/// there is none.
pub proof fn lemma_position_from(names: Seq<Seq<char>>, name: Seq<char>, from: int)
    requires
        0 <= from,
    ensures
        match position_from(names, name, from) {
            Some(i) => {
                &&& from <= i < names.len()
                &&& names[i] == name
                &&& forall|j: int| from <= j < i ==> names[j] != name
            },
            None => forall|j: int| from <= j < names.len() ==> names[j] != name,
        },
    decreases names.len() - from,
{
    if from < names.len() && names[from] != name {
        lemma_position_from(names, name, from + 1);
    }
}

/// Names behind the end of the search do not matter to what it finds before.
pub proof fn lemma_position_push(names: Seq<Seq<char>>, extra: Seq<char>, name: Seq<char>, from: int)
    requires
        0 <= from,
    ensures
        position_from(names.push(extra), name, from) == match position_from(names, name, from) {
            Some(i) => Some(i),
            None => if extra == name && from <= names.len() {
                Some(names.len() as int)
            } else {
                None
            },
        },
    decreases names.len() - from,
{
    if from < names.len() {
        assert(names.push(extra)[from] == names[from]);
        if names[from] != name {
            lemma_position_push(names, extra, name, from + 1);
        }
    } else if from == names.len() {
        assert(names.push(extra)[from] == extra);
        if extra != name {
            assert(position_from(names.push(extra), name, from + 1) == None::<int>);
        }
    }
}

} // verus!
