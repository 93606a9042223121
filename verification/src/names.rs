//! Identifiers of synthesized declarations must be unique.

use vstd::prelude::*;
use crate::model::{Declaration, DeclarationView};
use crate::text::same_text;

verus! {

/// The names of `decls`, in order.
pub open spec fn names_of(decls: Seq<DeclarationView>) -> Seq<Seq<char>> {
    decls.map_values(|d: DeclarationView| d.name)
}

/// No two of `names` are equal.
pub open spec fn distinct(names: Seq<Seq<char>>) -> bool {
    forall|i: int, j: int| 0 <= i < j < names.len() ==> names[i] != names[j]
}

/// `second` is the earliest position that repeats an earlier name, and
/// `first` is the earliest position of that name.
pub open spec fn is_first_collision(names: Seq<Seq<char>>, first: int, second: int) -> bool {
    &&& 0 <= first < second < names.len()
    &&& names[first] == names[second]
    &&& distinct(names.take(second))
    &&& forall|i: int| 0 <= i < first ==> names[i] != names[second]
}

/// At most one pair of positions is the first collision, and there is one
/// exactly when the names are not distinct.
pub proof fn lemma_first_collision_is_unique(
    names: Seq<Seq<char>>,
    a: (int, int),
    b: (int, int),
)
    requires
        is_first_collision(names, a.0, a.1),
        is_first_collision(names, b.0, b.1),
    ensures
        a == b,
        !distinct(names),
{
    if a.1 < b.1 {
        assert(names.take(b.1)[a.0] == names.take(b.1)[a.1]);
    } else if b.1 < a.1 {
        assert(names.take(a.1)[b.0] == names.take(a.1)[b.1]);
    }
}

/// Looks for two declarations with one name.
pub fn find_collision(decls: &Vec<Declaration>) -> (hit: Option<(usize, usize)>)
    ensures
        match hit {
            None => distinct(names_of(decls.deep_view())),
            Some((first, second)) => is_first_collision(
                names_of(decls.deep_view()),
                first as int,
                second as int,
            ),
        },
{
    let ghost names = names_of(decls.deep_view());
    let mut second: usize = 0;
    while second < decls.len()
        invariant
            second <= decls.len(),
            names == names_of(decls.deep_view()),
            distinct(names.take(second as int)),
        decreases decls.len() - second,
    {
        let mut first: usize = 0;
        while first < second
            invariant
                first <= second < decls.len(),
                names == names_of(decls.deep_view()),
                distinct(names.take(second as int)),
                forall|i: int| 0 <= i < first ==> names[i] != names[second as int],
            decreases second - first,
        {
            if same_text(decls[first].name.as_str(), decls[second].name.as_str()) {
                return Some((first, second));
            }
            first += 1;
        }
        proof {
            let wider = names.take(second + 1);
            assert forall|i: int, j: int| 0 <= i < j < wider.len() implies wider[i] != wider[j] by {
                if j < second {
                    assert(names.take(second as int)[i] != names.take(second as int)[j]);
                }
            }
        }
        second += 1;
    }
    proof {
        assert(names.take(decls.len() as int) =~= names);
    }
    None
}

/// `i` is the earliest position of `names` whose name is among `taken`.
pub open spec fn is_first_alias(names: Seq<Seq<char>>, taken: Seq<Seq<char>>, i: int) -> bool {
    &&& 0 <= i < names.len()
    &&& taken.contains(names[i])
    &&& forall|k: int| 0 <= k < i ==> !taken.contains(#[trigger] names[k])
}

/// None of `names` is among `taken`.
pub open spec fn disjoint(names: Seq<Seq<char>>, taken: Seq<Seq<char>>) -> bool {
    forall|k: int| 0 <= k < names.len() ==> !taken.contains(#[trigger] names[k])
}

/// Tells whether some declaration of `decls` is named `name`.
pub fn is_taken(decls: &Vec<Declaration>, name: &str) -> (found: bool)
    ensures
        found == names_of(decls.deep_view()).contains(name@),
{
    let ghost taken = names_of(decls.deep_view());
    let mut i: usize = 0;
    while i < decls.len()
        invariant
            i <= decls.len(),
            taken == names_of(decls.deep_view()),
            forall|k: int| 0 <= k < i ==> taken[k] != name@,
        decreases decls.len() - i,
    {
        if same_text(decls[i].name.as_str(), name) {
            assert(taken[i as int] == name@);
            return true;
        }
        i += 1;
    }
    false
}

/// Looks for the first of `decls` that is named like one of `others`.
pub fn find_alias(decls: &Vec<Declaration>, others: &Vec<Declaration>) -> (hit: Option<usize>)
    ensures
        match hit {
            None => disjoint(names_of(decls.deep_view()), names_of(others.deep_view())),
            Some(i) => is_first_alias(
                names_of(decls.deep_view()),
                names_of(others.deep_view()),
                i as int,
            ),
        },
{
    let ghost names = names_of(decls.deep_view());
    let ghost taken = names_of(others.deep_view());
    let mut i: usize = 0;
    while i < decls.len()
        invariant
            i <= decls.len(),
            names == names_of(decls.deep_view()),
            taken == names_of(others.deep_view()),
            forall|k: int| 0 <= k < i ==> !taken.contains(#[trigger] names[k]),
        decreases decls.len() - i,
    {
        if is_taken(others, decls[i].name.as_str()) {
            return Some(i);
        }
        i += 1;
    }
    None
}

} // verus!
