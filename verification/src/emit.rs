//! The emitter's text: helper positions are blanked in place, and each
//! declaration sequence is rendered as the contents of one file.

use vstd::prelude::*;
use vstd::string::*;
use crate::helpers::{helper_positions, is_helper, lemma_helper_positions, positions_view};
use crate::model::{empty_declaration, Declaration, DeclarationView};
use crate::text::{join, joined};

verus! {

/// `decls` with every slot named by `positions` emptied. Nothing is added
/// or removed, and the other slots keep their contents and their order.
pub open spec fn blanked(decls: Seq<DeclarationView>, positions: Seq<int>) -> Seq<DeclarationView> {
    Seq::new(
        decls.len(),
        |i: int|
            if positions.contains(i) {
                empty_declaration()
            } else {
                decls[i]
            },
    )
}

/// Blanking the helper positions keeps the number of declarations, empties
/// exactly the helpers, and leaves every other declaration where it was.
pub proof fn lemma_blanking_keeps_positions(decls: Seq<DeclarationView>)
    ensures
        blanked(decls, helper_positions(decls)).len() == decls.len(),
        forall|i: int|
            0 <= i < decls.len() ==> #[trigger] blanked(decls, helper_positions(decls))[i] == (
            if is_helper(decls[i]) {
                empty_declaration()
            } else {
                decls[i]
            }),
{
    lemma_helper_positions(decls);
    let positions = helper_positions(decls);
    assert forall|i: int| 0 <= i < decls.len() implies #[trigger] blanked(decls, positions)[i] == (
    if is_helper(decls[i]) {
        empty_declaration()
    } else {
        decls[i]
    }) by {
        if positions.contains(i) {
            let k = choose|k: int| 0 <= k < positions.len() && positions[k] == i;
            assert(is_helper(decls[positions[k]]));
        }
    }
}

/// Empties the slots of `decls` that `positions` names.
pub fn blank_positions(decls: &mut Vec<Declaration>, positions: &Vec<usize>)
    requires
        forall|k: int| 0 <= k < positions.len() ==> positions[k] < old(decls).len(),
    ensures
        final(decls).deep_view() == blanked(old(decls).deep_view(), positions_view(positions@)),
        final(decls).len() == old(decls).len(),
{
    let ghost start = decls.deep_view();
    let ghost all = positions_view(positions@);
    let mut k: usize = 0;
    assert(decls.deep_view() =~= blanked(start, all.take(0)));
    while k < positions.len()
        invariant
            k <= positions.len(),
            all == positions_view(positions@),
            decls.len() == start.len(),
            forall|j: int| 0 <= j < positions.len() ==> positions[j] < start.len(),
            decls.deep_view() == blanked(start, all.take(k as int)),
        decreases positions.len() - k,
    {
        let ghost before = decls.deep_view();
        let p: usize = positions[k];
        decls.set(p, Declaration::empty());
        proof {
            let wider = all.take(k + 1);
            assert(wider[k as int] == p);
            assert forall|i: int| 0 <= i < start.len() implies decls.deep_view()[i] == blanked(
                start,
                wider,
            )[i] by {
                if i == p {
                    assert(wider.contains(i));
                } else {
                    assert(decls.deep_view()[i] == before[i]);
                    if all.take(k as int).contains(i) {
                        let m = choose|m: int|
                            0 <= m < all.take(k as int).len() && all.take(k as int)[m] == i;
                        assert(wider[m] == i);
                    } else if wider.contains(i) {
                        let m = choose|m: int| 0 <= m < wider.len() && wider[m] == i;
                        assert(all.take(k as int)[m] == i);
                    }
                }
            }
            assert(decls.deep_view() =~= blanked(start, wider));
        }
        k += 1;
    }
    proof {
        assert(all.take(positions.len() as int) =~= all);
    }
}

/// The texts of `decls` that are not empty, in order. A blanked slot has
/// an empty text, and so has no part in what is printed.
pub open spec fn texts_of(decls: Seq<DeclarationView>) -> Seq<Seq<char>>
    decreases decls.len(),
{
    if decls.len() == 0 {
        Seq::empty()
    } else if decls.last().text.len() == 0 {
        texts_of(decls.drop_last())
    } else {
        texts_of(decls.drop_last()).push(decls.last().text)
    }
}

/// The contents of a file that holds `decls`: their texts in order, one
/// space between neighbours.
pub open spec fn rendered(decls: Seq<DeclarationView>) -> Seq<char> {
    joined(texts_of(decls), " "@)
}

/// The import that the derived files begin with.
pub open spec fn import_line() -> Seq<char> {
    "use super::bindings::*; "@
}

/// Renders `decls` as the contents of one file.
pub fn render(decls: &Vec<Declaration>) -> (contents: String)
    ensures
        contents@ == rendered(decls.deep_view()),
{
    let ghost dv = decls.deep_view();
    let mut texts: Vec<String> = Vec::new();
    let mut i: usize = 0;
    assert(texts.deep_view() =~= texts_of(dv.take(0)));
    while i < decls.len()
        invariant
            i <= decls.len(),
            dv == decls.deep_view(),
            texts.deep_view() == texts_of(dv.take(i as int)),
        decreases decls.len() - i,
    {
        let ghost before = texts.deep_view();
        proof {
            assert(dv.take(i + 1).drop_last() =~= dv.take(i as int));
            assert(dv.take(i + 1).last() == decls[i as int].deep_view());
        }
        if decls[i].text.as_str().unicode_len() != 0 {
            texts.push(decls[i].text.clone());
            assert(texts.deep_view() =~= before.push(decls[i as int].text@));
        }
        i += 1;
    }
    proof {
        assert(dv.take(decls.len() as int) =~= dv);
    }
    join(&texts, " ")
}

/// Renders `decls` behind the import of the bindings.
pub fn render_with_import(decls: &Vec<Declaration>) -> (contents: String)
    ensures
        contents@ == import_line() + rendered(decls.deep_view()),
{
    let mut contents = String::from_str("use super::bindings::*; ");
    contents.append(render(decls).as_str());
    contents
}

} // verus!
