//! The helper expander: each extracted helper becomes a function of the
//! same name and signature that calls through a function pointer.

use vstd::prelude::*;
use vstd::string::*;
use crate::error::{stage_view, CodegenError, CodegenErrorView};
use crate::model::{
    BindingView, Category, Declaration, DeclarationView, Shape, ShapeView, Signature,
    SignatureView,
};
use crate::names::{
    distinct, find_collision, is_first_collision, lemma_first_collision_is_unique, names_of,
};
use crate::text::{decimal, decimal_text, join, joined};

verus! {

/// A helper can be expanded when its type decomposes into a function
/// pointer that is not variadic and names every parameter.
pub open spec fn expandable(d: DeclarationView) -> bool {
    &&& d.shape matches ShapeView::FnPointer(signature)
    &&& !signature.variadic
    &&& forall|i: int| 0 <= i < signature.params.len() ==> signature.params[i].name is Some
}

/// `name : type`
pub open spec fn parameter_text(b: BindingView) -> Seq<char> {
    b.name->0 + " : "@ + b.ty
}

/// The parameters as they stand between the brackets of the function.
pub open spec fn parameter_list(params: Seq<BindingView>) -> Seq<char> {
    joined(params.map_values(|b: BindingView| parameter_text(b)), " , "@)
}

/// The parameter names as they are forwarded in the call.
pub open spec fn argument_list(params: Seq<BindingView>) -> Seq<char> {
    joined(params.map_values(|b: BindingView| b.name->0), " , "@)
}

/// ` -> type`, or nothing for a function that returns unit.
pub open spec fn return_clause(output: Option<Seq<char>>) -> Seq<char> {
    match output {
        Some(ty) => " -> "@ + ty,
        None => Seq::empty(),
    }
}

/// The source text of an expanded helper. The function has the helper's
/// name, parameters and return type; its body makes a pointer of the
/// helper's own pointer type from the helper's call number and calls
/// through it, forwarding every parameter.
pub open spec fn expansion_text(name: Seq<char>, signature: SignatureView, number: nat) -> Seq<
    char,
> {
    "pub unsafe fn "@ + name + " ("@ + parameter_list(signature.params) + ")"@ + return_clause(
        signature.output,
    ) + " { let fun : "@ + signature.pointer + " = :: core :: mem :: transmute ("@ + decimal(
        number,
    ) + "usize) ; fun ("@ + argument_list(signature.params) + ") }"@
}

/// The expanded helper made from `d` and its call number.
pub open spec fn expansion(d: DeclarationView, number: nat) -> DeclarationView {
    DeclarationView {
        category: Category::Function,
        name: d.name,
        shape: ShapeView::Opaque,
        text: expansion_text(d.name, d.shape->FnPointer_0, number),
    }
}

/// An expanded helper is visible under the name of the helper it was
/// derived from, whatever its call number.
pub proof fn lemma_expansion_keeps_name(d: DeclarationView, number: nat)
    ensures
        expansion(d, number).name == d.name,
        expansion(d, number).well_formed(),
{
}

/// Expands one helper. `number` is the helper's call number.
pub fn expand_helper(helper: &Declaration, number: usize) -> (out: Option<Declaration>)
    ensures
        out.deep_view() == (if expandable(helper.deep_view()) {
            Some(expansion(helper.deep_view(), number as nat))
        } else {
            None
        }),
{
    match &helper.shape {
        Shape::FnPointer(signature) => {
            if signature.variadic {
                return None;
            }
            let ghost sv = signature.deep_view();
            let mut params: Vec<String> = Vec::new();
            let mut args: Vec<String> = Vec::new();
            let mut i: usize = 0;
            while i < signature.params.len()
                invariant
                    i <= signature.params.len(),
                    sv == signature.deep_view(),
                    helper.deep_view().shape == ShapeView::FnPointer(sv),
                    forall|k: int| 0 <= k < i ==> sv.params[k].name is Some,
                    params.deep_view() == sv.params.take(i as int).map_values(
                        |b: BindingView| parameter_text(b),
                    ),
                    args.deep_view() == sv.params.take(i as int).map_values(
                        |b: BindingView| b.name->0,
                    ),
                decreases signature.params.len() - i,
            {
                let param = &signature.params[i];
                assert(param.deep_view() == sv.params[i as int]);
                match &param.name {
                    None => {
                        assert(sv.params[i as int].name is None);
                        assert(!expandable(helper.deep_view()));
                        return None;
                    },
                    Some(name) => {
                        let ghost old_params = params.deep_view();
                        let ghost old_args = args.deep_view();
                        let mut text = name.clone();
                        text.append(" : ");
                        text.append(param.ty.as_str());
                        params.push(text);
                        args.push(name.clone());
                        proof {
                            assert(sv.params.take(i + 1) =~= sv.params.take(i as int).push(
                                sv.params[i as int],
                            ));
                            assert(params.deep_view() =~= old_params.push(
                                parameter_text(sv.params[i as int]),
                            ));
                            assert(args.deep_view() =~= old_args.push(sv.params[i as int].name->0));
                            assert(params.deep_view() =~= sv.params.take(i + 1).map_values(
                                |b: BindingView| parameter_text(b),
                            ));
                            assert(args.deep_view() =~= sv.params.take(i + 1).map_values(
                                |b: BindingView| b.name->0,
                            ));
                        }
                    },
                }
                i += 1;
            }
            proof {
                assert(sv.params.take(signature.params.len() as int) =~= sv.params);
            }
            let mut text = String::from_str("pub unsafe fn ");
            text.append(helper.name.as_str());
            text.append(" (");
            text.append(join(&params, " , ").as_str());
            text.append(")");
            match &signature.output {
                Some(ty) => {
                    let mut clause = String::from_str(" -> ");
                    clause.append(ty.as_str());
                    text.append(clause.as_str());
                },
                None => {
                    assert(text@ + Seq::<char>::empty() =~= text@);
                },
            }
            text.append(" { let fun : ");
            text.append(signature.pointer.as_str());
            text.append(" = :: core :: mem :: transmute (");
            text.append(decimal_text(number).as_str());
            text.append("usize) ; fun (");
            text.append(join(&args, " , ").as_str());
            text.append(") }");
            Some(
                Declaration {
                    category: Category::Function,
                    name: helper.name.clone(),
                    shape: Shape::Opaque,
                    text,
                },
            )
        },
        _ => None,
    }
}

/// Every helper of the list can be expanded.
pub open spec fn all_expandable(helpers: Seq<DeclarationView>) -> bool {
    forall|i: int| 0 <= i < helpers.len() ==> expandable(#[trigger] helpers[i])
}

/// `i` is the position of the first helper that cannot be expanded.
pub open spec fn is_first_unsupported(helpers: Seq<DeclarationView>, i: int) -> bool {
    &&& 0 <= i < helpers.len()
    &&& !expandable(helpers[i])
    &&& forall|k: int| 0 <= k < i ==> expandable(#[trigger] helpers[k])
}

/// Where some helper cannot be expanded, there is a first one.
pub proof fn lemma_first_unsupported_exists(helpers: Seq<DeclarationView>, k: int)
    requires
        0 <= k < helpers.len(),
        !expandable(helpers[k]),
    ensures
        exists|i: int| is_first_unsupported(helpers, i),
    decreases k,
{
    if forall|j: int| 0 <= j < k ==> expandable(#[trigger] helpers[j]) {
        assert(is_first_unsupported(helpers, k));
    } else {
        let j = choose|j: int| 0 <= j < k && !expandable(#[trigger] helpers[j]);
        lemma_first_unsupported_exists(helpers, j);
    }
}

/// The expansions of `helpers`: the helper at position `i` has call number
/// `i + 1`.
pub open spec fn expansions(helpers: Seq<DeclarationView>) -> Seq<DeclarationView> {
    Seq::new(helpers.len(), |i: int| expansion(helpers[i], (i + 1) as nat))
}

/// What the expander returns for `helpers`: the first helper that cannot be
/// expanded fails the whole set; else two helpers of one name do; else
/// there is one expansion for each helper.
pub open spec fn expand_result(helpers: Seq<DeclarationView>) -> Result<
    Seq<DeclarationView>,
    CodegenErrorView,
> {
    if !all_expandable(helpers) {
        let i = choose|i: int| is_first_unsupported(helpers, i);
        Err(CodegenErrorView::HelperShapeUnsupported(helpers[i].name))
    } else if !distinct(names_of(helpers)) {
        let pair = choose|pair: (int, int)| is_first_collision(names_of(helpers), pair.0, pair.1);
        Err(CodegenErrorView::NameCollision(helpers[pair.0].name))
    } else {
        Ok(expansions(helpers))
    }
}

/// Where expansion succeeds there is one expanded helper for each helper,
/// each under its helper's name, and no two of them share a name.
pub proof fn lemma_expansions_keep_names(helpers: Seq<DeclarationView>)
    requires
        expand_result(helpers) is Ok,
    ensures
        expand_result(helpers)->Ok_0.len() == helpers.len(),
        forall|i: int|
            0 <= i < helpers.len() ==> (#[trigger] expand_result(helpers)->Ok_0[i]).name
                == helpers[i].name,
        distinct(names_of(expand_result(helpers)->Ok_0)),
{
    assert(names_of(expansions(helpers)) =~= names_of(helpers));
}

/// Expands every helper of the list, or none.
pub fn expand_helpers(helpers: &Vec<Declaration>) -> (out: Result<Vec<Declaration>, CodegenError>)
    ensures
        stage_view(out) == expand_result(helpers.deep_view()),
{
    let ghost hv = helpers.deep_view();
    let mut expanded: Vec<Declaration> = Vec::new();
    let mut i: usize = 0;
    while i < helpers.len()
        invariant
            i <= helpers.len(),
            hv == helpers.deep_view(),
            expanded.len() == i,
            forall|k: int| 0 <= k < i ==> expandable(#[trigger] hv[k]),
            forall|k: int|
                0 <= k < i ==> (#[trigger] expanded[k]).deep_view() == expansion(
                    hv[k],
                    (k + 1) as nat,
                ),
        decreases helpers.len() - i,
    {
        assert(helpers[i as int].deep_view() == hv[i as int]);
        match expand_helper(&helpers[i], i + 1) {
            Some(function) => {
                expanded.push(function);
            },
            None => {
                proof {
                    assert(is_first_unsupported(hv, i as int));
                    let c = choose|c: int| is_first_unsupported(hv, c);
                    assert(c == i);
                }
                return Err(CodegenError::HelperShapeUnsupported(helpers[i].name.clone()));
            },
        }
        i += 1;
    }
    match find_collision(helpers) {
        Some((first, second)) => {
            proof {
                let names = names_of(hv);
                let found = (first as int, second as int);
                assert(is_first_collision(names, found.0, found.1));
                let pair = choose|pair: (int, int)| is_first_collision(names, pair.0, pair.1);
                lemma_first_collision_is_unique(names, pair, found);
            }
            Err(CodegenError::NameCollision(helpers[first].name.clone()))
        },
        None => {
            proof {
                assert(expanded.deep_view() =~= expansions(hv));
            }
            Ok(expanded)
        },
    }
}

} // verus!
