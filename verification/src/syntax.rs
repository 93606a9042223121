//! The syntax parser: generated source text becomes a declaration sequence.
//!
//! The grammar is `syn`'s. Each call into it is a function from text to
//! plain values, and the decisions between the calls are verified. The
//! parser is taken in a version whose literal parser accepts every literal
//! token that the lexer makes, so that text it cannot read is an error and
//! never a panic.

use quote::ToTokens;
use vstd::prelude::*;
use vstd::string::*;
use crate::error::{stage_view, CodegenError, CodegenErrorView};
use crate::model::{
    duplicate_text, Arguments, ArgumentsView, Binding, BindingView, Category, Declaration,
    DeclarationView, Segment, Shape, ShapeView, Signature, SignatureView, TypePath, TypePathView,
};
use crate::text::same_text;

verus! {

/// Of the file `source`: the token text of each attribute of the file
/// itself, and the token text of each top-level item, both in order; `None`
/// where `source` is not a valid file.
pub uninterp spec fn parsed_file(source: Seq<char>) -> Option<(Seq<Seq<char>>, Seq<Seq<char>>)>;

/// The items of the extern block `item`, in order: name and type of each
/// static, `None` for any other item; `None` where `item` is no extern block.
pub uninterp spec fn parsed_extern_block(item: Seq<char>) -> Option<Seq<Option<BindingView>>>;

/// The name and the fields of the struct `item`, in declaration order;
/// `None` where `item` is no struct definition.
pub uninterp spec fn parsed_struct(item: Seq<char>) -> Option<(Seq<char>, Seq<BindingView>)>;

/// Of the type `ty`, where it is written as a path: whether it begins with
/// a qualified self, and every segment with its generic arguments; `None`
/// where `ty` is not a type written as a path.
pub uninterp spec fn parsed_type_path(ty: Seq<char>) -> Option<TypePathView>;

/// Of the function-pointer type `ty`: its inputs in order, its return
/// type unless that is unit, and whether the inputs end in a variadic;
/// `None` where `ty` is not a function-pointer type.
pub uninterp spec fn parsed_fn_pointer(ty: Seq<char>) -> Option<
    (Seq<BindingView>, Option<Seq<char>>, bool),
>;

/// Calls `syn::parse_str::<syn::File>` and prints each attribute and each
/// item of the file with `ToTokens::to_token_stream`. Parsing and printing
/// depend on the text alone, so the result is named: `parsed_file`.
#[verifier::external_body]
fn split_file(source: &str) -> (parts: Option<(Vec<String>, Vec<String>)>)
    ensures
        parts.deep_view() == parsed_file(source@),
{
    match syn::parse_str::<syn::File>(source) {
        Ok(file) => Some((
            file.attrs.iter().map(|a| a.to_token_stream().to_string()).collect(),
            file.items.iter().map(|i| i.to_token_stream().to_string()).collect(),
        )),
        Err(_) => None,
    }
}

/// Calls `syn::parse_str::<syn::ItemForeignMod>` and hands out the items
/// of the block: identifier and printed type of each
/// `syn::ForeignItem::Static`, `None` for every other variant. The result
/// is named: `parsed_extern_block`.
#[verifier::external_body]
fn extern_block_entries(item: &str) -> (entries: Option<Vec<Option<Binding>>>)
    ensures
        entries.deep_view() == parsed_extern_block(item@),
{
    match syn::parse_str::<syn::ItemForeignMod>(item) {
        Ok(block) => Some(block.items.iter().map(|entry| match entry {
            syn::ForeignItem::Static(s) => Some(Binding {
                name: Some(s.ident.to_string()),
                ty: s.ty.to_token_stream().to_string(),
            }),
            _ => None,
        }).collect()),
        Err(_) => None,
    }
}

/// Calls `syn::parse_str::<syn::ItemStruct>` and hands out the struct's
/// identifier with the identifier, if any, and the printed type of each of
/// its fields. The result is named: `parsed_struct`.
#[verifier::external_body]
fn struct_definition(item: &str) -> (definition: Option<(String, Vec<Binding>)>)
    ensures
        definition.deep_view() == parsed_struct(item@),
{
    match syn::parse_str::<syn::ItemStruct>(item) {
        Ok(def) => Some((def.ident.to_string(), def.fields.iter().map(|f| Binding {
            name: f.ident.as_ref().map(|i| i.to_string()),
            ty: f.ty.to_token_stream().to_string(),
        }).collect())),
        Err(_) => None,
    }
}

/// Calls `syn::parse_str::<syn::Type>` and, of a `syn::Type::Path`, hands
/// out whether it has a qualified self, and of every segment the
/// identifier and the arguments: of arguments in angle brackets each
/// `syn::GenericArgument::Type` printed and `None` for every other variant.
/// The result is named: `parsed_type_path`.
#[verifier::external_body]
fn type_path(ty: &str) -> (path: Option<TypePath>)
    ensures
        path.deep_view() == parsed_type_path(ty@),
{
    let Ok(syn::Type::Path(p)) = syn::parse_str::<syn::Type>(ty) else { return None };
    let segments = p.path.segments.iter().map(|s| Segment {
        name: s.ident.to_string(),
        arguments: match &s.arguments {
            syn::PathArguments::None => Arguments::Absent,
            syn::PathArguments::Parenthesized(_) => Arguments::Parenthesized,
            syn::PathArguments::AngleBracketed(a) => Arguments::AngleBracketed(a.args.iter().map(
                |g| match g { syn::GenericArgument::Type(t) => Some(t.to_token_stream().to_string()), _ => None },
            ).collect()),
        },
    }).collect();
    Some(TypePath { qualified: p.qself.is_some(), segments })
}

/// Calls `syn::parse_str::<syn::Type>` and, of a `syn::Type::BareFn`,
/// hands out the name, if any, and the printed type of each input, the
/// printed return type, and whether the inputs end in a variadic. The
/// result is named: `parsed_fn_pointer`.
#[verifier::external_body]
fn fn_pointer_parts(ty: &str) -> (parts: Option<(Vec<Binding>, Option<String>, bool)>)
    ensures
        parts.deep_view() == parsed_fn_pointer(ty@),
{
    let Ok(syn::Type::BareFn(f)) = syn::parse_str::<syn::Type>(ty) else { return None };
    let params = f.inputs.iter().map(|a| Binding {
        name: a.name.as_ref().map(|n| n.0.to_string()),
        ty: a.ty.to_token_stream().to_string(),
    }).collect();
    let output = match &f.output {
        syn::ReturnType::Default => None,
        syn::ReturnType::Type(_, t) => Some(t.to_token_stream().to_string()),
    };
    Some((params, output, f.variadic.is_some()))
}

/// The static of an extern block that declares one static and nothing
/// else.
pub open spec fn sole_static(entries: Option<Seq<Option<BindingView>>>) -> Option<BindingView> {
    match entries {
        Some(e) => if e.len() == 1 {
            e[0]
        } else {
            None
        },
        None => None,
    }
}

/// Picks the static of an extern block that declares one static and
/// nothing else.
pub fn sole_static_of(entries: &Option<Vec<Option<Binding>>>) -> (found: Option<Binding>)
    ensures
        found.deep_view() == sole_static(entries.deep_view()),
{
    match entries {
        Some(e) => {
            if e.len() == 1 {
                assert(e.deep_view()[0] == e[0].deep_view());
                match &e[0] {
                    Some(binding) => Some(binding.duplicate()),
                    None => None,
                }
            } else {
                None
            }
        },
        None => None,
    }
}

/// The type inside `Option < .. >`: the one generic argument of a path
/// without qualified self whose last segment is named `Option`, where that
/// argument is a type. The segments before the last are not looked at, so
/// that `Option` may be written with or without its module path.
pub open spec fn option_payload(path: Option<TypePathView>) -> Option<Seq<char>> {
    match path {
        Some(p) => if !p.qualified && p.segments.len() > 0 && p.segments.last().name == "Option"@ {
            match p.segments.last().arguments {
                ArgumentsView::AngleBracketed(arguments) => if arguments.len() == 1 {
                    arguments[0]
                } else {
                    None
                },
                _ => None,
            }
        } else {
            None
        },
        None => None,
    }
}

/// Picks the type inside `Option < .. >`.
pub fn option_payload_of(path: &Option<TypePath>) -> (inner: Option<String>)
    ensures
        inner.deep_view() == option_payload(path.deep_view()),
{
    let p = match path {
        Some(p) => p,
        None => {
            return None;
        },
    };
    let n: usize = p.segments.len();
    if p.qualified || n == 0 {
        return None;
    }
    let last = &p.segments[n - 1];
    assert(p.deep_view().segments.last() == last.deep_view());
    if !same_text(last.name.as_str(), "Option") {
        return None;
    }
    match &last.arguments {
        Arguments::AngleBracketed(arguments) => {
            if arguments.len() == 1 {
                assert(arguments.deep_view()[0] == arguments[0].deep_view());
                duplicate_text(&arguments[0])
            } else {
                None
            }
        },
        _ => None,
    }
}

/// The shape of a static whose type holds the pointer type `pointer`.
pub open spec fn pointer_shape(
    pointer: Seq<char>,
    parts: Option<(Seq<BindingView>, Option<Seq<char>>, bool)>,
) -> ShapeView {
    match parts {
        Some((params, output, variadic)) => ShapeView::FnPointer(
            SignatureView { pointer, params, output, variadic },
        ),
        None => ShapeView::Opaque,
    }
}

/// Builds the shape of a static from the parts of its pointer type.
pub fn pointer_shape_of(pointer: String, parts: Option<(Vec<Binding>, Option<String>, bool)>) -> (shape:
    Shape)
    ensures
        shape.deep_view() == pointer_shape(pointer@, parts.deep_view()),
{
    match parts {
        Some((params, output, variadic)) => Shape::FnPointer(
            Signature { pointer, params, output, variadic },
        ),
        None => Shape::Opaque,
    }
}

/// The shape of a static of type `ty`: a function pointer where `ty` is an
/// `Option` of a function-pointer type, opaque otherwise.
pub open spec fn static_shape(ty: Seq<char>) -> ShapeView {
    match option_payload(parsed_type_path(ty)) {
        Some(inner) => pointer_shape(inner, parsed_fn_pointer(inner)),
        None => ShapeView::Opaque,
    }
}

/// Decomposes the type of a static.
pub fn static_shape_of(ty: &str) -> (shape: Shape)
    ensures
        shape.deep_view() == static_shape(ty@),
{
    let path = type_path(ty);
    match option_payload_of(&path) {
        Some(inner) => {
            let parts = fn_pointer_parts(inner.as_str());
            pointer_shape_of(inner, parts)
        },
        None => Shape::Opaque,
    }
}

/// The name that a binding carries, empty where it carries none.
pub open spec fn binding_name(b: BindingView) -> Seq<char> {
    match b.name {
        Some(name) => name,
        None => Seq::empty(),
    }
}

/// The declaration that stands for an extern block with one static.
pub open spec fn static_declaration(b: BindingView, shape: ShapeView, item: Seq<char>) -> DeclarationView {
    DeclarationView { category: Category::Static, name: binding_name(b), shape, text: item }
}

/// The declaration that stands for an item that is no such extern block.
pub open spec fn plain_declaration(
    definition: Option<(Seq<char>, Seq<BindingView>)>,
    item: Seq<char>,
) -> DeclarationView {
    match definition {
        Some((name, fields)) => DeclarationView {
            category: Category::Struct,
            name,
            shape: ShapeView::Record(fields),
            text: item,
        },
        None => DeclarationView {
            category: Category::Other,
            name: Seq::empty(),
            shape: ShapeView::Opaque,
            text: item,
        },
    }
}

/// Builds the declaration that stands for an extern block with one static.
pub fn static_declaration_of(b: Binding, shape: Shape, item: &str) -> (d: Declaration)
    ensures
        d.deep_view() == static_declaration(b.deep_view(), shape.deep_view(), item@),
{
    let name = match b.name {
        Some(name) => name,
        None => String::new(),
    };
    Declaration { category: Category::Static, name, shape, text: String::from_str(item) }
}

/// Builds the declaration that stands for a struct, or for an item that the
/// pass does not read.
pub fn plain_declaration_of(definition: Option<(String, Vec<Binding>)>, item: &str) -> (d:
    Declaration)
    ensures
        d.deep_view() == plain_declaration(definition.deep_view(), item@),
{
    match definition {
        Some((name, fields)) => Declaration {
            category: Category::Struct,
            name,
            shape: Shape::Record(fields),
            text: String::from_str(item),
        },
        None => Declaration {
            category: Category::Other,
            name: String::new(),
            shape: Shape::Opaque,
            text: String::from_str(item),
        },
    }
}

/// The declaration that stands for the item `item`.
pub open spec fn lowered(item: Seq<char>) -> DeclarationView {
    match sole_static(parsed_extern_block(item)) {
        Some(b) => static_declaration(b, static_shape(b.ty), item),
        None => plain_declaration(parsed_struct(item), item),
    }
}

/// Every declaration that the parser makes is well formed and keeps the
/// text of its item.
pub proof fn lemma_lowered_is_well_formed(item: Seq<char>)
    ensures
        lowered(item).well_formed(),
        lowered(item).text == item,
        !(lowered(item).category is Empty),
        !(lowered(item).category is Function),
{
}

/// Reads one item.
pub fn lower_item(item: &str) -> (d: Declaration)
    ensures
        d.deep_view() == lowered(item@),
{
    let entries = extern_block_entries(item);
    match sole_static_of(&entries) {
        Some(b) => {
            let shape = static_shape_of(b.ty.as_str());
            static_declaration_of(b, shape, item)
        },
        None => plain_declaration_of(struct_definition(item), item),
    }
}

/// The declaration sequence of a file: its own attributes first, each as a
/// declaration that the pass does not read, then its items.
pub open spec fn file_declarations(attributes: Seq<Seq<char>>, items: Seq<Seq<char>>) -> Seq<
    DeclarationView,
> {
    attributes.map_values(|a: Seq<char>| plain_declaration(None, a)) + items.map_values(
        |item: Seq<char>| lowered(item),
    )
}

/// What the parser returns for `source`.
pub open spec fn parse_result(source: Seq<char>) -> Result<Seq<DeclarationView>, CodegenErrorView> {
    match parsed_file(source) {
        Some((attributes, items)) => Ok(file_declarations(attributes, items)),
        None => Err(CodegenErrorView::ParseFailure),
    }
}

/// Reads the declarations that the attributes and the items of a parsed
/// file stand for.
pub fn declarations_of(attributes: &Vec<String>, items: &Vec<String>) -> (decls: Vec<Declaration>)
    ensures
        decls.deep_view() == file_declarations(attributes.deep_view(), items.deep_view()),
{
    let mut decls: Vec<Declaration> = Vec::new();
    let mut i: usize = 0;
    while i < attributes.len()
        invariant
            i <= attributes.len(),
            decls.len() == i,
            forall|j: int|
                0 <= j < i ==> (#[trigger] decls[j]).deep_view() == plain_declaration(
                    None,
                    attributes[j]@,
                ),
        decreases attributes.len() - i,
    {
        decls.push(plain_declaration_of(None, attributes[i].as_str()));
        i += 1;
    }
    let mut k: usize = 0;
    while k < items.len()
        invariant
            k <= items.len(),
            decls.len() == attributes.len() + k,
            forall|j: int|
                0 <= j < attributes.len() ==> (#[trigger] decls[j]).deep_view()
                    == plain_declaration(None, attributes[j]@),
            forall|j: int|
                0 <= j < k ==> (#[trigger] decls[attributes.len() + j]).deep_view() == lowered(
                    items[j]@,
                ),
        decreases items.len() - k,
    {
        decls.push(lower_item(items[k].as_str()));
        k += 1;
    }
    proof {
        let expected = file_declarations(attributes.deep_view(), items.deep_view());
        assert(decls.deep_view().len() == expected.len());
        assert forall|j: int| 0 <= j < expected.len() implies decls.deep_view()[j]
            == expected[j] by {
            if j >= attributes.len() {
                assert(decls[attributes.len() + (j - attributes.len())].deep_view() == lowered(
                    items[j - attributes.len()]@,
                ));
            }
        }
        assert(decls.deep_view() =~= expected);
    }
    decls
}

/// Parses generated source text into its declaration sequence. Text that
/// is not a valid file is a parse failure.
pub fn parse_declarations(source: &str) -> (out: Result<Vec<Declaration>, CodegenError>)
    ensures
        stage_view(out) == parse_result(source@),
{
    match split_file(source) {
        Some((attributes, items)) => Ok(declarations_of(&attributes, &items)),
        None => Err(CodegenError::ParseFailure),
    }
}

} // verus!
