//! The declaration model: what the rewrite pass reads of each top-level item
//! of the generated source, held as plain values.

use vstd::prelude::*;

verus! {

/// A name bound to a type: a parameter of a function pointer, a field of a
/// struct, or a static of an extern block. Types are kept as token text.
#[derive(Clone, Debug, PartialEq, Eq)]
pub struct Binding {
    pub name: Option<String>,
    pub ty: String,
}

pub struct BindingView {
    pub name: Option<Seq<char>>,
    pub ty: Seq<char>,
}

impl DeepView for Binding {
    type V = BindingView;

    open spec fn deep_view(&self) -> BindingView {
        BindingView { name: self.name.deep_view(), ty: self.ty@ }
    }
}

/// The decomposed type of a function pointer.
#[derive(Clone, Debug, PartialEq, Eq)]
pub struct Signature {
    /// Token text of the whole function-pointer type.
    pub pointer: String,
    pub params: Vec<Binding>,
    /// Token text of the return type; `None` where no return type is
    /// written.
    pub output: Option<String>,
    pub variadic: bool,
}

pub struct SignatureView {
    pub pointer: Seq<char>,
    pub params: Seq<BindingView>,
    pub output: Option<Seq<char>>,
    pub variadic: bool,
}

impl DeepView for Signature {
    type V = SignatureView;

    open spec fn deep_view(&self) -> SignatureView {
        SignatureView {
            pointer: self.pointer@,
            params: self.params.deep_view(),
            output: self.output.deep_view(),
            variadic: self.variadic,
        }
    }
}

/// The structure a declaration exposes beyond its name.
#[derive(Clone, Debug, PartialEq, Eq)]
pub enum Shape {
    /// Nothing the pass reads.
    Opaque,
    /// An optional pointer to a function with the given signature.
    FnPointer(Signature),
    /// The fields of a struct, in declaration order.
    Record(Vec<Binding>),
}

pub enum ShapeView {
    Opaque,
    FnPointer(SignatureView),
    Record(Seq<BindingView>),
}

impl DeepView for Shape {
    type V = ShapeView;

    open spec fn deep_view(&self) -> ShapeView {
        match self {
            Shape::Opaque => ShapeView::Opaque,
            Shape::FnPointer(signature) => ShapeView::FnPointer(signature.deep_view()),
            Shape::Record(fields) => ShapeView::Record(fields.deep_view()),
        }
    }
}

/// The syntactic category of a declaration.
#[derive(Clone, Copy, Debug, PartialEq, Eq, Structural)]
pub enum Category {
    /// A blanked slot: it keeps its position and holds nothing.
    Empty,
    /// An extern block that declares exactly one static.
    Static,
    /// A struct definition.
    Struct,
    /// A function synthesized by this pass.
    Function,
    /// Any other top-level construct: an item that the pass does not read,
    /// or an attribute of the file itself.
    Other,
}

/// One top-level item of the generated source.
#[derive(Clone, Debug, PartialEq, Eq)]
pub struct Declaration {
    pub category: Category,
    /// The identifier the item declares; empty where it declares none.
    pub name: String,
    pub shape: Shape,
    /// Token text of the whole item.
    pub text: String,
}

pub struct DeclarationView {
    pub category: Category,
    pub name: Seq<char>,
    pub shape: ShapeView,
    pub text: Seq<char>,
}

impl DeepView for Declaration {
    type V = DeclarationView;

    open spec fn deep_view(&self) -> DeclarationView {
        DeclarationView {
            category: self.category,
            name: self.name@,
            shape: self.shape.deep_view(),
            text: self.text@,
        }
    }
}

/// The generic arguments of one segment of a path.
#[derive(Clone, Debug, PartialEq, Eq)]
pub enum Arguments {
    /// The segment has none.
    Absent,
    /// Arguments in angle brackets, in order: the token text of each
    /// argument that is a type, `None` for an argument of another kind.
    AngleBracketed(Vec<Option<String>>),
    /// Arguments in round brackets, as in `Fn(A) -> B`.
    Parenthesized,
}

pub enum ArgumentsView {
    Absent,
    AngleBracketed(Seq<Option<Seq<char>>>),
    Parenthesized,
}

impl DeepView for Arguments {
    type V = ArgumentsView;

    open spec fn deep_view(&self) -> ArgumentsView {
        match self {
            Arguments::Absent => ArgumentsView::Absent,
            Arguments::AngleBracketed(arguments) => ArgumentsView::AngleBracketed(
                arguments.deep_view(),
            ),
            Arguments::Parenthesized => ArgumentsView::Parenthesized,
        }
    }
}

/// One segment of a path.
#[derive(Clone, Debug, PartialEq, Eq)]
pub struct Segment {
    pub name: String,
    pub arguments: Arguments,
}

pub struct SegmentView {
    pub name: Seq<char>,
    pub arguments: ArgumentsView,
}

impl DeepView for Segment {
    type V = SegmentView;

    open spec fn deep_view(&self) -> SegmentView {
        SegmentView { name: self.name@, arguments: self.arguments.deep_view() }
    }
}

/// A type that is written as a path.
#[derive(Clone, Debug, PartialEq, Eq)]
pub struct TypePath {
    /// Whether the path begins with a qualified self, as in
    /// `<T as Trait>::Name`.
    pub qualified: bool,
    /// The segments of the path, in order.
    pub segments: Vec<Segment>,
}

pub struct TypePathView {
    pub qualified: bool,
    pub segments: Seq<SegmentView>,
}

impl DeepView for TypePath {
    type V = TypePathView;

    open spec fn deep_view(&self) -> TypePathView {
        TypePathView { qualified: self.qualified, segments: self.segments.deep_view() }
    }
}

/// The value of a blanked slot.
pub open spec fn empty_declaration() -> DeclarationView {
    DeclarationView {
        category: Category::Empty,
        name: Seq::empty(),
        shape: ShapeView::Opaque,
        text: Seq::empty(),
    }
}

impl DeclarationView {
    /// The shape agrees with the category, and a blanked slot holds nothing.
    pub open spec fn well_formed(self) -> bool {
        match self.category {
            Category::Empty => self == empty_declaration(),
            Category::Static => !(self.shape is Record),
            Category::Struct => self.shape is Record,
            Category::Function => self.shape is Opaque,
            Category::Other => self.shape is Opaque && self.name.len() == 0,
        }
    }
}

/// Copies an optional text.
pub fn duplicate_text(text: &Option<String>) -> (copy: Option<String>)
    ensures
        copy.deep_view() == text.deep_view(),
{
    match text {
        Some(t) => Some(t.clone()),
        None => None,
    }
}

impl Binding {
    pub fn duplicate(&self) -> (copy: Binding)
        ensures
            copy.deep_view() == self.deep_view(),
    {
        Binding { name: duplicate_text(&self.name), ty: self.ty.clone() }
    }
}

/// Copies a list of bindings.
pub fn duplicate_bindings(bindings: &Vec<Binding>) -> (copy: Vec<Binding>)
    ensures
        copy.deep_view() == bindings.deep_view(),
{
    let mut copy: Vec<Binding> = Vec::new();
    let mut i: usize = 0;
    while i < bindings.len()
        invariant
            i <= bindings.len(),
            copy.len() == i,
            forall|j: int| 0 <= j < i ==> copy[j].deep_view() == bindings[j].deep_view(),
        decreases bindings.len() - i,
    {
        copy.push(bindings[i].duplicate());
        i += 1;
    }
    assert(copy.deep_view() =~= bindings.deep_view());
    copy
}

impl Signature {
    pub fn duplicate(&self) -> (copy: Signature)
        ensures
            copy.deep_view() == self.deep_view(),
    {
        Signature {
            pointer: self.pointer.clone(),
            params: duplicate_bindings(&self.params),
            output: duplicate_text(&self.output),
            variadic: self.variadic,
        }
    }
}

impl Shape {
    pub fn duplicate(&self) -> (copy: Shape)
        ensures
            copy.deep_view() == self.deep_view(),
    {
        match self {
            Shape::Opaque => Shape::Opaque,
            Shape::FnPointer(signature) => Shape::FnPointer(signature.duplicate()),
            Shape::Record(fields) => Shape::Record(duplicate_bindings(fields)),
        }
    }
}

impl Declaration {
    /// The blanked slot.
    pub fn empty() -> (slot: Declaration)
        ensures
            slot.deep_view() == empty_declaration(),
    {
        Declaration {
            category: Category::Empty,
            name: String::new(),
            shape: Shape::Opaque,
            text: String::new(),
        }
    }

    pub fn duplicate(&self) -> (copy: Declaration)
        ensures
            copy.deep_view() == self.deep_view(),
    {
        Declaration {
            category: self.category,
            name: self.name.clone(),
            shape: self.shape.duplicate(),
            text: self.text.clone(),
        }
    }
}

} // verus!
