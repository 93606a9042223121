//! The target architectures that bindings are generated for.

use vstd::prelude::*;
use crate::text::same_text;

verus! {

#[derive(Clone, Copy, Debug, PartialEq, Eq, Structural)]
pub enum Architecture {
    X86_64,
    AArch64,
}

impl Architecture {
    /// The name of the architecture, as it is written on the command line
    /// and in the path of the generated files.
    pub open spec fn spec_name(self) -> Seq<char> {
        match self {
            Architecture::X86_64 => "x86_64"@,
            Architecture::AArch64 => "aarch64"@,
        }
    }

    pub fn name(self) -> (name: &'static str)
        ensures
            name@ == self.spec_name(),
    {
        match self {
            Architecture::X86_64 => "x86_64",
            Architecture::AArch64 => "aarch64",
        }
    }

    /// Reads an architecture from its name.
    pub fn parse(text: &str) -> (arch: Option<Architecture>)
        ensures
            match arch {
                Some(a) => text@ == a.spec_name(),
                None => forall|a: Architecture| text@ != a.spec_name(),
            },
    {
        if same_text(text, "x86_64") {
            Some(Architecture::X86_64)
        } else if same_text(text, "aarch64") {
            Some(Architecture::AArch64)
        } else {
            None
        }
    }
}

/// No two architectures share a name, so a name is read back as the
/// architecture it was written for.
pub proof fn lemma_architecture_names_differ(a: Architecture, b: Architecture)
    requires
        a.spec_name() == b.spec_name(),
    ensures
        a == b,
{
    reveal_strlit("x86_64");
    reveal_strlit("aarch64");
    if a != b {
        assert("x86_64"@[0] == 'x');
        assert("aarch64"@[0] == 'a');
    }
}

} // verus!
