//! The getter synthesizer: one accessor function for each eligible field of
//! each struct, reading the field through the safe memory-read primitive.
//!
//! A field is eligible when it is named and its type is one of the scalar
//! types of known width listed by [`scalar_size`]. Pointers, arrays and
//! aggregates get no getter.

use vstd::prelude::*;
use vstd::string::*;
use crate::error::{stage_view, CodegenError, CodegenErrorView};
use crate::model::{
    Binding, BindingView, Category, Declaration, DeclarationView, Shape, ShapeView,
};
use crate::names::{
    disjoint, distinct, find_alias, find_collision, is_first_alias, is_first_collision,
    lemma_first_collision_is_unique, names_of,
};
use crate::text::{decimal, decimal_text, same_text};

verus! {

/// The width in bytes of a scalar type, by its name.
pub open spec fn scalar_size(ty: Seq<char>) -> Option<nat> {
    if ty == "u8"@ || ty == "i8"@ || ty == "bool"@ || ty == "__u8"@ || ty == "__s8"@ {
        Some(1)
    } else if ty == "u16"@ || ty == "i16"@ || ty == "__u16"@ || ty == "__s16"@ {
        Some(2)
    } else if ty == "u32"@ || ty == "i32"@ || ty == "__u32"@ || ty == "__s32"@ {
        Some(4)
    } else if ty == "u64"@ || ty == "i64"@ || ty == "__u64"@ || ty == "__s64"@ {
        Some(8)
    } else {
        None
    }
}

/// Looks up the width of a scalar type.
pub fn scalar_size_of(ty: &str) -> (size: Option<usize>)
    ensures
        match size {
            Some(n) => scalar_size(ty@) == Some(n as nat),
            None => scalar_size(ty@) is None,
        },
{
    if same_text(ty, "u8") || same_text(ty, "i8") || same_text(ty, "bool") || same_text(ty, "__u8")
        || same_text(ty, "__s8") {
        Some(1)
    } else if same_text(ty, "u16") || same_text(ty, "i16") || same_text(ty, "__u16") || same_text(
        ty,
        "__s16",
    ) {
        Some(2)
    } else if same_text(ty, "u32") || same_text(ty, "i32") || same_text(ty, "__u32") || same_text(
        ty,
        "__s32",
    ) {
        Some(4)
    } else if same_text(ty, "u64") || same_text(ty, "i64") || same_text(ty, "__u64") || same_text(
        ty,
        "__s64",
    ) {
        Some(8)
    } else {
        None
    }
}

/// The eligibility rule.
pub open spec fn eligible(field: BindingView) -> bool {
    field.name is Some && scalar_size(field.ty) is Some
}

/// The identifier of the getter of `field` in `owner`.
pub open spec fn getter_name(owner: Seq<char>, field: Seq<char>) -> Seq<char> {
    owner + "_"@ + field
}

/// The source text of a getter. It reads `size` bytes from the field of
/// `this` into a fresh value of the field's type with `read`, which is
/// called as `read(destination, size, source)` and returns 0 on success;
/// the getter returns the value, or `None` where the read failed.
pub open spec fn getter_text(
    owner: Seq<char>,
    field: Seq<char>,
    ty: Seq<char>,
    size: nat,
    read: Seq<char>,
) -> Seq<char> {
    "pub fn "@ + getter_name(owner, field) + " (this : & "@ + owner + ") -> Option < "@ + ty
        + " > { let mut value : "@ + ty + " = unsafe { :: core :: mem :: zeroed () } ; if unsafe { "@
        + read + " (& mut value as * mut "@ + ty + " as * mut _ , "@ + decimal(size)
        + " , & this . "@ + field + " as * const "@ + ty
        + " as * const _) } == 0 { Some (value) } else { None } }"@
}

/// The getter of an eligible field.
pub open spec fn getter(owner: Seq<char>, field: BindingView, read: Seq<char>) -> DeclarationView {
    DeclarationView {
        category: Category::Function,
        name: getter_name(owner, field.name->0),
        shape: ShapeView::Opaque,
        text: getter_text(owner, field.name->0, field.ty, scalar_size(field.ty)->0, read),
    }
}

/// The getters of the eligible fields among `fields`, in field order.
pub open spec fn field_getters(owner: Seq<char>, fields: Seq<BindingView>, read: Seq<char>) -> Seq<
    DeclarationView,
>
    decreases fields.len(),
{
    if fields.len() == 0 {
        Seq::empty()
    } else if eligible(fields.last()) {
        field_getters(owner, fields.drop_last(), read).push(getter(owner, fields.last(), read))
    } else {
        field_getters(owner, fields.drop_last(), read)
    }
}

/// The getters of one declaration: those of its fields where it is a
/// struct, none otherwise.
pub open spec fn declaration_getters(d: DeclarationView, read: Seq<char>) -> Seq<DeclarationView> {
    match d.shape {
        ShapeView::Record(fields) if d.category == Category::Struct => field_getters(
            d.name,
            fields,
            read,
        ),
        _ => Seq::empty(),
    }
}

/// The getters of a whole sequence, in declaration order.
pub open spec fn all_getters(decls: Seq<DeclarationView>, read: Seq<char>) -> Seq<DeclarationView>
    decreases decls.len(),
{
    if decls.len() == 0 {
        Seq::empty()
    } else {
        all_getters(decls.drop_last(), read) + declaration_getters(decls.last(), read)
    }
}

/// What the synthesizer returns: two getters of one identifier fail the
/// whole set, and so does a getter whose identifier is the name of a
/// declaration of the sequence; else every getter is returned.
pub open spec fn getters_result(decls: Seq<DeclarationView>, read: Seq<char>) -> Result<
    Seq<DeclarationView>,
    CodegenErrorView,
> {
    let getters = all_getters(decls, read);
    if !distinct(names_of(getters)) {
        let pair = choose|pair: (int, int)| is_first_collision(names_of(getters), pair.0, pair.1);
        Err(CodegenErrorView::NameCollision(getters[pair.0].name))
    } else if !disjoint(names_of(getters), names_of(decls)) {
        let i = choose|i: int| is_first_alias(names_of(getters), names_of(decls), i);
        Err(CodegenErrorView::NameCollision(getters[i].name))
    } else {
        Ok(getters)
    }
}

/// Where synthesis succeeds, no two getters share an identifier, and none
/// is named like a declaration of the sequence.
pub proof fn lemma_getters_are_distinct(decls: Seq<DeclarationView>, read: Seq<char>)
    requires
        getters_result(decls, read) is Ok,
    ensures
        getters_result(decls, read)->Ok_0 == all_getters(decls, read),
        distinct(names_of(getters_result(decls, read)->Ok_0)),
        disjoint(names_of(getters_result(decls, read)->Ok_0), names_of(decls)),
{
}

/// A sequence without structs has no getters.
pub proof fn lemma_no_struct_no_getters(decls: Seq<DeclarationView>, read: Seq<char>)
    requires
        forall|i: int| 0 <= i < decls.len() ==> (#[trigger] decls[i]).category != Category::Struct,
    ensures
        all_getters(decls, read) == Seq::<DeclarationView>::empty(),
    decreases decls.len(),
{
    if decls.len() > 0 {
        assert(decls.last() == decls[decls.len() - 1]);
        assert forall|i: int| 0 <= i < decls.drop_last().len() implies (
        #[trigger] decls.drop_last()[i]).category != Category::Struct by {
            assert(decls.drop_last()[i] == decls[i]);
        }
        lemma_no_struct_no_getters(decls.drop_last(), read);
        assert(all_getters(decls, read) =~= Seq::<DeclarationView>::empty());
    }
}

/// Synthesizes the getter of one field, if the field is eligible.
pub fn synthesize_getter(owner: &str, field: &Binding, read: &str) -> (out: Option<Declaration>)
    ensures
        out.deep_view() == (if eligible(field.deep_view()) {
            Some(getter(owner@, field.deep_view(), read@))
        } else {
            None
        }),
{
    let name = match &field.name {
        Some(name) => name,
        None => {
            return None;
        },
    };
    let size = match scalar_size_of(field.ty.as_str()) {
        Some(size) => size,
        None => {
            return None;
        },
    };
    let ty = field.ty.as_str();
    let mut identifier = String::from_str(owner);
    identifier.append("_");
    identifier.append(name.as_str());
    let mut text = String::from_str("pub fn ");
    text.append(identifier.as_str());
    text.append(" (this : & ");
    text.append(owner);
    text.append(") -> Option < ");
    text.append(ty);
    text.append(" > { let mut value : ");
    text.append(ty);
    text.append(" = unsafe { :: core :: mem :: zeroed () } ; if unsafe { ");
    text.append(read);
    text.append(" (& mut value as * mut ");
    text.append(ty);
    text.append(" as * mut _ , ");
    text.append(decimal_text(size).as_str());
    text.append(" , & this . ");
    text.append(name.as_str());
    text.append(" as * const ");
    text.append(ty);
    text.append(" as * const _) } == 0 { Some (value) } else { None } }");
    Some(Declaration { category: Category::Function, name: identifier, shape: Shape::Opaque, text })
}

/// Appends the getters of one declaration to `getters`.
fn push_declaration_getters(getters: &mut Vec<Declaration>, d: &Declaration, read: &str)
    ensures
        final(getters).deep_view() == old(getters).deep_view() + declaration_getters(
            d.deep_view(),
            read@,
        ),
{
    let ghost start = getters.deep_view();
    match d.category {
        Category::Struct => {},
        _ => {
            assert(start + Seq::<DeclarationView>::empty() =~= start);
            return ;
        },
    }
    match &d.shape {
        Shape::Record(fields) => {
            let ghost fv = fields.deep_view();
            let mut i: usize = 0;
            assert(start + field_getters(d.name@, fv.take(0), read@) =~= start);
            while i < fields.len()
                invariant
                    i <= fields.len(),
                    fv == fields.deep_view(),
                    getters.deep_view() == start + field_getters(d.name@, fv.take(i as int), read@),
                decreases fields.len() - i,
            {
                let ghost before = getters.deep_view();
                proof {
                    assert(fv.take(i + 1).drop_last() =~= fv.take(i as int));
                    assert(fv.take(i + 1).last() == fields[i as int].deep_view());
                }
                match synthesize_getter(d.name.as_str(), &fields[i], read) {
                    Some(g) => {
                        getters.push(g);
                        assert(getters.deep_view() =~= before.push(
                            getter(d.name@, fv[i as int], read@),
                        ));
                        assert(getters.deep_view() =~= start + field_getters(
                            d.name@,
                            fv.take(i + 1),
                            read@,
                        ));
                    },
                    None => {},
                }
                i += 1;
            }
            assert(fv.take(fields.len() as int) =~= fv);
        },
        _ => {
            assert(start + Seq::<DeclarationView>::empty() =~= start);
        },
    }
}

/// Synthesizes the getters of every struct of the sequence, or none where
/// two of them would share an identifier. `read` is the path of the safe
/// memory-read primitive.
pub fn generate_getters(decls: &Vec<Declaration>, read: &str) -> (out: Result<
    Vec<Declaration>,
    CodegenError,
>)
    ensures
        stage_view(out) == getters_result(decls.deep_view(), read@),
{
    let ghost dv = decls.deep_view();
    let mut getters: Vec<Declaration> = Vec::new();
    let mut i: usize = 0;
    assert(getters.deep_view() =~= all_getters(dv.take(0), read@));
    while i < decls.len()
        invariant
            i <= decls.len(),
            dv == decls.deep_view(),
            getters.deep_view() == all_getters(dv.take(i as int), read@),
        decreases decls.len() - i,
    {
        proof {
            assert(dv.take(i + 1).drop_last() =~= dv.take(i as int));
            assert(dv.take(i + 1).last() == decls[i as int].deep_view());
        }
        push_declaration_getters(&mut getters, &decls[i], read);
        i += 1;
    }
    proof {
        assert(dv.take(decls.len() as int) =~= dv);
    }
    match find_collision(&getters) {
        Some((first, second)) => {
            proof {
                let names = names_of(getters.deep_view());
                let found = (first as int, second as int);
                assert(is_first_collision(names, found.0, found.1));
                let pair = choose|pair: (int, int)| is_first_collision(names, pair.0, pair.1);
                lemma_first_collision_is_unique(names, pair, found);
            }
            return Err(CodegenError::NameCollision(getters[first].name.clone()));
        },
        None => {},
    }
    match find_alias(&getters, decls) {
        Some(i) => {
            proof {
                let names = names_of(getters.deep_view());
                let taken = names_of(dv);
                assert(is_first_alias(names, taken, i as int));
                let c = choose|c: int| is_first_alias(names, taken, c);
                assert(c == i);
            }
            Err(CodegenError::NameCollision(getters[i].name.clone()))
        },
        None => Ok(getters),
    }
}

} // verus!
