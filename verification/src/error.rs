//! The ways in which one run of the code generator fails.

use vstd::prelude::*;
use vstd::string::*;
use crate::model::{Declaration, DeclarationView};

verus! {

/// Every failure ends the run; none is retried.
#[derive(Clone, Debug, PartialEq, Eq)]
pub enum CodegenError {
    /// The binding generator produced no output.
    GeneratorFailure,
    /// The generator's output is not valid source text.
    ParseFailure,
    /// The named helper's type is not a function pointer that can be
    /// re-expressed as a function.
    HelperShapeUnsupported(String),
    /// Two synthesized declarations would share the named identifier.
    NameCollision(String),
    /// The file at `path` could not be written, for the reason that the
    /// writer gave.
    WriteFailure { path: String, cause: String },
}

pub enum CodegenErrorView {
    GeneratorFailure,
    ParseFailure,
    HelperShapeUnsupported(Seq<char>),
    NameCollision(Seq<char>),
    WriteFailure { path: Seq<char>, cause: Seq<char> },
}

impl DeepView for CodegenError {
    type V = CodegenErrorView;

    open spec fn deep_view(&self) -> CodegenErrorView {
        match self {
            CodegenError::GeneratorFailure => CodegenErrorView::GeneratorFailure,
            CodegenError::ParseFailure => CodegenErrorView::ParseFailure,
            CodegenError::HelperShapeUnsupported(name) => CodegenErrorView::HelperShapeUnsupported(
                name@,
            ),
            CodegenError::NameCollision(name) => CodegenErrorView::NameCollision(name@),
            CodegenError::WriteFailure { path, cause } => CodegenErrorView::WriteFailure {
                path: path@,
                cause: cause@,
            },
        }
    }
}

/// The message that a failure is reported with.
pub open spec fn message(e: CodegenErrorView) -> Seq<char> {
    match e {
        CodegenErrorView::GeneratorFailure => "bindgen failed"@,
        CodegenErrorView::ParseFailure => "generated bindings are not valid source"@,
        CodegenErrorView::HelperShapeUnsupported(name) => "unexpected bindgen helper signature: "@
            + name,
        CodegenErrorView::NameCollision(name) => "duplicate identifier: "@ + name,
        CodegenErrorView::WriteFailure { path, cause } => "could not write "@ + path + ": "@ + cause,
    }
}

impl CodegenError {
    /// Describes the failure and names the declaration or file it is about.
    pub fn describe(&self) -> (text: String)
        ensures
            text@ == message(self.deep_view()),
    {
        match self {
            CodegenError::GeneratorFailure => String::from_str("bindgen failed"),
            CodegenError::ParseFailure => String::from_str("generated bindings are not valid source"),
            CodegenError::HelperShapeUnsupported(name) => {
                let mut text = String::from_str("unexpected bindgen helper signature: ");
                text.append(name.as_str());
                text
            },
            CodegenError::NameCollision(name) => {
                let mut text = String::from_str("duplicate identifier: ");
                text.append(name.as_str());
                text
            },
            CodegenError::WriteFailure { path, cause } => {
                let mut text = String::from_str("could not write ");
                text.append(path.as_str());
                text.append(": ");
                text.append(cause.as_str());
                text
            },
        }
    }
}

/// The view of what a stage of the pass returns.
pub open spec fn stage_view(out: Result<Vec<Declaration>, CodegenError>) -> Result<
    Seq<DeclarationView>,
    CodegenErrorView,
> {
    match out {
        Ok(decls) => Ok(decls.deep_view()),
        Err(e) => Err(e.deep_view()),
    }
}

} // verus!
