//! The helper extractor: which declarations of a sequence are helpers, and
//! where they stand.

use vstd::prelude::*;
use crate::model::{Category, Declaration, DeclarationView};
use crate::text::{has_prefix, starts_with};

verus! {

/// Helpers are named with this prefix.
pub open spec fn helper_prefix() -> Seq<char> {
    "bpf_"@
}

/// A helper is an extern static whose name carries the helper prefix: the
/// form in which an inline function of the header reaches the bindings.
pub open spec fn is_helper(d: DeclarationView) -> bool {
    d.category == Category::Static && has_prefix(d.name, helper_prefix())
}

/// The positions of the helpers among `decls`, in increasing order.
pub open spec fn helper_positions(decls: Seq<DeclarationView>) -> Seq<int>
    decreases decls.len(),
{
    if decls.len() == 0 {
        Seq::empty()
    } else if is_helper(decls.last()) {
        helper_positions(decls.drop_last()).push(decls.len() - 1)
    } else {
        helper_positions(decls.drop_last())
    }
}

/// The helpers among `decls`, in the order in which they stand.
pub open spec fn helper_declarations(decls: Seq<DeclarationView>) -> Seq<DeclarationView> {
    helper_positions(decls).map_values(|p: int| decls[p])
}

/// The view of a list of positions.
pub open spec fn positions_view(positions: Seq<usize>) -> Seq<int> {
    positions.map_values(|p: usize| p as int)
}

/// Every classified position is a valid index of a helper, the positions
/// strictly increase (so no two are equal), and no helper is left out.
pub proof fn lemma_helper_positions(decls: Seq<DeclarationView>)
    ensures
        helper_positions(decls).len() <= decls.len(),
        forall|i: int|
            0 <= i < helper_positions(decls).len() ==> 0 <= #[trigger] helper_positions(decls)[i]
                < decls.len() && is_helper(decls[helper_positions(decls)[i]]),
        forall|i: int, j: int|
            0 <= i < j < helper_positions(decls).len() ==> helper_positions(decls)[i]
                < helper_positions(decls)[j],
        forall|p: int|
            0 <= p < decls.len() && is_helper(#[trigger] decls[p]) ==> helper_positions(
                decls,
            ).contains(p),
    decreases decls.len(),
{
    if decls.len() > 0 {
        let front = decls.drop_last();
        let rest = helper_positions(front);
        lemma_helper_positions(front);
        assert forall|p: int| 0 <= p < decls.len() && is_helper(#[trigger] decls[p]) implies helper_positions(
            decls,
        ).contains(p) by {
            if p < decls.len() - 1 {
                assert(is_helper(front[p]));
                let k = choose|k: int| 0 <= k < rest.len() && rest[k] == p;
                assert(helper_positions(decls)[k] == p);
            } else {
                assert(helper_positions(decls)[rest.len() as int] == p);
            }
        }
    }
}

/// The classified positions and the extracted declarations have one length,
/// and every position is a valid index that occurs once.
pub proof fn lemma_extraction_is_consistent(decls: Seq<DeclarationView>)
    ensures
        helper_positions(decls).len() == helper_declarations(decls).len(),
        forall|i: int|
            0 <= i < helper_positions(decls).len() ==> 0 <= #[trigger] helper_positions(decls)[i]
                < decls.len(),
        forall|i: int, j: int|
            0 <= i < helper_positions(decls).len() && 0 <= j < helper_positions(decls).len() && i
                != j ==> helper_positions(decls)[i] != helper_positions(decls)[j],
{
    lemma_helper_positions(decls);
    assert forall|i: int, j: int|
        0 <= i < helper_positions(decls).len() && 0 <= j < helper_positions(decls).len() && i
            != j implies helper_positions(decls)[i] != helper_positions(decls)[j] by {
        if i < j {
            assert(helper_positions(decls)[i] < helper_positions(decls)[j]);
        } else {
            assert(helper_positions(decls)[j] < helper_positions(decls)[i]);
        }
    }
}

/// Tells whether `d` is a helper.
pub fn declaration_is_helper(d: &Declaration) -> (found: bool)
    ensures
        found == is_helper(d.deep_view()),
{
    match d.category {
        Category::Static => starts_with(d.name.as_str(), "bpf_"),
        _ => false,
    }
}

/// Classifies every declaration of the sequence once, in order, and returns
/// the positions of the helpers with a copy of each. The sequence itself is
/// left as it is.
pub fn extract_helpers(decls: &Vec<Declaration>) -> (found: (Vec<usize>, Vec<Declaration>))
    ensures
        positions_view(found.0@) == helper_positions(decls.deep_view()),
        found.1.deep_view() == helper_declarations(decls.deep_view()),
        found.0.len() == found.1.len(),
        forall|k: int| 0 <= k < found.0.len() ==> found.0[k] < decls.len(),
        forall|k: int, m: int| 0 <= k < m < found.0.len() ==> found.0[k] < found.0[m],
{
    let mut positions: Vec<usize> = Vec::new();
    let mut helpers: Vec<Declaration> = Vec::new();
    let mut i: usize = 0;
    while i < decls.len()
        invariant
            i <= decls.len(),
            positions.len() == helpers.len(),
            positions_view(positions@) == helper_positions(decls.deep_view().take(i as int)),
            helpers.deep_view() == helper_declarations(decls.deep_view().take(i as int)),
        decreases decls.len() - i,
    {
        let ghost all = decls.deep_view();
        let ghost before = all.take(i as int);
        let ghost after = all.take(i + 1);
        proof {
            assert(after.drop_last() =~= before);
            assert(after.last() == decls[i as int].deep_view());
            lemma_helper_positions(before);
        }
        if declaration_is_helper(&decls[i]) {
            let ghost old_positions = positions@;
            let ghost old_helpers = helpers.deep_view();
            positions.push(i);
            helpers.push(decls[i].duplicate());
            proof {
                assert(positions_view(positions@) =~= positions_view(old_positions).push(i as int));
                assert(helpers.deep_view() =~= old_helpers.push(decls[i as int].deep_view()));
                assert(helper_declarations(after) =~= helper_declarations(before).push(
                    all[i as int],
                ));
            }
        } else {
            proof {
                assert(helper_declarations(after) =~= helper_declarations(before));
            }
        }
        i += 1;
    }
    proof {
        assert(decls.deep_view().take(decls.len() as int) =~= decls.deep_view());
        lemma_helper_positions(decls.deep_view());
        assert forall|k: int, m: int| 0 <= k < m < positions.len() implies positions[k]
            < positions[m] by {
            assert(positions_view(positions@)[k] == positions[k]);
            assert(positions_view(positions@)[m] == positions[m]);
        }
        assert forall|k: int| 0 <= k < positions.len() implies positions[k] < decls.len() by {
            assert(positions_view(positions@)[k] == positions[k]);
        }
    }
    (positions, helpers)
}

} // verus!
