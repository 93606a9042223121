//! The code generator as a whole: what is asked of the binding generator,
//! and which files are written from what it returns.

use vstd::prelude::*;
use vstd::string::*;
use crate::arch::Architecture;
use crate::emit::{
    blank_positions, blanked, import_line, render, render_with_import, rendered, texts_of,
};
use crate::error::{CodegenError, CodegenErrorView};
use crate::expand::{
    all_expandable, expand_helpers, expand_result, expandable, expansions, is_first_unsupported,
    lemma_first_unsupported_exists,
};
use crate::getters::{generate_getters, getters_result, lemma_no_struct_no_getters};
use crate::helpers::{
    extract_helpers, helper_declarations, helper_positions, is_helper, lemma_helper_positions,
    positions_view,
};
use crate::model::{Category, Declaration, DeclarationView};
use crate::names::names_of;
use crate::syntax::{parse_declarations, parse_result};

verus! {

/// The options of one run.
#[derive(Clone, Debug, PartialEq, Eq)]
pub struct CodegenOptions {
    pub arch: Architecture,
    /// The root of the libbpf sources; its `src` directory is searched for
    /// headers.
    pub libbpf_dir: String,
}

/// What is asked of the binding generator.
#[derive(Clone, Debug, PartialEq, Eq)]
pub struct BindingRequest {
    pub header: String,
    pub clang_args: Vec<String>,
    /// Patterns of the type names to keep.
    pub types: Vec<String>,
    /// Patterns of the variable names to keep.
    pub vars: Vec<String>,
}

pub struct BindingRequestView {
    pub header: Seq<char>,
    pub clang_args: Seq<Seq<char>>,
    pub types: Seq<Seq<char>>,
    pub vars: Seq<Seq<char>>,
}

impl DeepView for BindingRequest {
    type V = BindingRequestView;

    open spec fn deep_view(&self) -> BindingRequestView {
        BindingRequestView {
            header: self.header@,
            clang_args: self.clang_args.deep_view(),
            types: self.types.deep_view(),
            vars: self.vars.deep_view(),
        }
    }
}

/// One file to write.
#[derive(Clone, Debug, PartialEq, Eq)]
pub struct FileWrite {
    pub path: String,
    pub contents: String,
    /// Whether the contents go through the source formatter on the way.
    pub format: bool,
}

pub struct FileWriteView {
    pub path: Seq<char>,
    pub contents: Seq<char>,
    pub format: bool,
}

impl DeepView for FileWrite {
    type V = FileWriteView;

    open spec fn deep_view(&self) -> FileWriteView {
        FileWriteView { path: self.path@, contents: self.contents@, format: self.format }
    }
}

/// `leaf` below the directory `base`.
pub open spec fn join_path(base: Seq<char>, leaf: Seq<char>) -> Seq<char> {
    if base.len() == 0 {
        leaf
    } else if base.last() == '/' {
        base + leaf
    } else {
        base + "/"@ + leaf
    }
}

/// Puts `leaf` below the directory `base`.
pub fn path_below(base: &str, leaf: &str) -> (path: String)
    ensures
        path@ == join_path(base@, leaf@),
{
    let n: usize = base.unicode_len();
    if n == 0 {
        String::from_str(leaf)
    } else {
        let mut path = String::from_str(base);
        if base.get_char(n - 1) != '/' {
            path.append("/");
        }
        path.append(leaf);
        path
    }
}

/// The directory of the project that holds the bindings.
pub open spec fn project_dir() -> Seq<char> {
    "bpf/aya-bpf-bindings"@
}

/// The directory that the files of `arch` are written to.
pub open spec fn output_dir(arch: Architecture) -> Seq<char> {
    join_path(join_path(project_dir(), "src"@), arch.spec_name())
}

/// The request of a run with the given libbpf directory: the project's
/// header, libbpf's sources on the include path, and the fixed whitelist.
pub open spec fn request_for(libbpf_dir: Seq<char>) -> BindingRequestView {
    BindingRequestView {
        header: join_path(project_dir(), "include/bindings.h"@),
        clang_args: seq!["-I"@, join_path(libbpf_dir, "src"@)],
        types: seq!["bpf_map_.*"@],
        vars: seq!["BPF_.*"@, "bpf_.*"@],
    }
}

/// Assembles the request to the binding generator.
pub fn binding_request(opts: &CodegenOptions) -> (request: BindingRequest)
    ensures
        request.deep_view() == request_for(opts.libbpf_dir@),
{
    let mut clang_args: Vec<String> = Vec::new();
    clang_args.push(String::from_str("-I"));
    clang_args.push(path_below(opts.libbpf_dir.as_str(), "src"));
    let mut types: Vec<String> = Vec::new();
    types.push(String::from_str("bpf_map_.*"));
    let mut vars: Vec<String> = Vec::new();
    vars.push(String::from_str("BPF_.*"));
    vars.push(String::from_str("bpf_.*"));
    let request = BindingRequest {
        header: path_below("bpf/aya-bpf-bindings", "include/bindings.h"),
        clang_args,
        types,
        vars,
    };
    proof {
        let expected = request_for(opts.libbpf_dir@);
        assert(request.clang_args.deep_view() =~= expected.clang_args);
        assert(request.types.deep_view() =~= expected.types);
        assert(request.vars.deep_view() =~= expected.vars);
    }
    request
}

/// The path of the safe memory-read primitive that the getters call.
pub open spec fn read_primitive() -> Seq<char> {
    "crate::bpf_probe_read"@
}

/// The three files of a run on `decls`, in the order in which they are
/// written: the bindings with the helpers blanked, the expanded helpers,
/// and the getters. A failure of the expander or of the synthesizer leaves
/// no file to write.
pub open spec fn writes_for(arch: Architecture, decls: Seq<DeclarationView>) -> Result<
    Seq<FileWriteView>,
    CodegenErrorView,
> {
    match expand_result(helper_declarations(decls)) {
        Err(e) => Err(e),
        Ok(expanded) => match getters_result(decls, read_primitive()) {
            Err(e) => Err(e),
            Ok(getters) => Ok(
                seq![
                    FileWriteView {
                        path: join_path(output_dir(arch), "bindings.rs"@),
                        contents: rendered(blanked(decls, helper_positions(decls))),
                        format: false,
                    },
                    FileWriteView {
                        path: join_path(output_dir(arch), "helpers.rs"@),
                        contents: import_line() + rendered(expanded),
                        format: true,
                    },
                    FileWriteView {
                        path: join_path(output_dir(arch), "getters.rs"@),
                        contents: import_line() + rendered(getters),
                        format: true,
                    },
                ],
            ),
        },
    }
}

/// The view of a plan of writes, or of the failure in its place.
pub open spec fn plan_view(out: Result<Vec<FileWrite>, CodegenError>) -> Result<
    Seq<FileWriteView>,
    CodegenErrorView,
> {
    match out {
        Ok(writes) => Ok(writes.deep_view()),
        Err(e) => Err(e.deep_view()),
    }
}

/// Rewrites a declaration sequence into the three files of a run.
pub fn plan_writes(arch: Architecture, decls: Vec<Declaration>) -> (out: Result<
    Vec<FileWrite>,
    CodegenError,
>)
    ensures
        plan_view(out) == writes_for(arch, decls.deep_view()),
{
    let mut decls = decls;
    let ghost dv = decls.deep_view();
    let (positions, helpers) = extract_helpers(&decls);
    let expanded = match expand_helpers(&helpers) {
        Ok(expanded) => expanded,
        Err(e) => {
            return Err(e);
        },
    };
    let getters = match generate_getters(&decls, "crate::bpf_probe_read") {
        Ok(getters) => getters,
        Err(e) => {
            return Err(e);
        },
    };
    proof {
        lemma_helper_positions(dv);
        assert forall|k: int| 0 <= k < positions.len() implies positions[k] < decls.len() by {
            assert(positions_view(positions@)[k] == helper_positions(dv)[k]);
        }
    }
    blank_positions(&mut decls, &positions);
    let src = path_below("bpf/aya-bpf-bindings", "src");
    let dir = path_below(src.as_str(), arch.name());
    let mut writes: Vec<FileWrite> = Vec::new();
    writes.push(
        FileWrite {
            path: path_below(dir.as_str(), "bindings.rs"),
            contents: render(&decls),
            format: false,
        },
    );
    writes.push(
        FileWrite {
            path: path_below(dir.as_str(), "helpers.rs"),
            contents: render_with_import(&expanded),
            format: true,
        },
    );
    writes.push(
        FileWrite {
            path: path_below(dir.as_str(), "getters.rs"),
            contents: render_with_import(&getters),
            format: true,
        },
    );
    proof {
        assert(writes.deep_view() =~= writes_for(arch, dv)->Ok_0);
    }
    Ok(writes)
}

/// What a run returns. `generated` is the output of the binding generator,
/// `None` where the generator failed.
pub open spec fn codegen_result(arch: Architecture, generated: Option<Seq<char>>) -> Result<
    Seq<FileWriteView>,
    CodegenErrorView,
> {
    match generated {
        None => Err(CodegenErrorView::GeneratorFailure),
        Some(source) => match parse_result(source) {
            Err(e) => Err(e),
            Ok(decls) => writes_for(arch, decls),
        },
    }
}

/// Generates the files of one run from the output of the binding
/// generator. Either all three files are planned, or the run fails and
/// nothing is to be written.
pub fn codegen(opts: &CodegenOptions, generated: Option<&str>) -> (out: Result<
    Vec<FileWrite>,
    CodegenError,
>)
    ensures
        plan_view(out) == codegen_result(opts.arch, generated.deep_view()),
{
    let source = match generated {
        Some(source) => source,
        None => {
            return Err(CodegenError::GeneratorFailure);
        },
    };
    match parse_declarations(source) {
        Ok(decls) => plan_writes(opts.arch, decls),
        Err(e) => Err(e),
    }
}

/// How far the writing of a plan has come.
#[derive(Clone, Debug, PartialEq, Eq)]
pub enum Progress {
    /// The first `written` files of the plan are written, and no write has
    /// failed.
    Writing { written: usize },
    /// The write of the file at position `failed` failed for `cause`. Of
    /// the files at that position and before it, the last `removed` have
    /// been taken away again.
    Undoing { failed: usize, cause: String, removed: usize },
}

pub enum ProgressView {
    Writing { written: int },
    Undoing { failed: int, cause: Seq<char>, removed: int },
}

impl DeepView for Progress {
    type V = ProgressView;

    open spec fn deep_view(&self) -> ProgressView {
        match self {
            Progress::Writing { written } => ProgressView::Writing { written: *written as int },
            Progress::Undoing { failed, cause, removed } => ProgressView::Undoing {
                failed: *failed as int,
                cause: cause@,
                removed: *removed as int,
            },
        }
    }
}

/// How the step that was due went.
#[derive(Clone, Debug, PartialEq, Eq)]
pub enum Outcome {
    Done,
    /// It failed, for the reason given.
    Failed(String),
}

pub enum OutcomeView {
    Done,
    Failed(Seq<char>),
}

impl DeepView for Outcome {
    type V = OutcomeView;

    open spec fn deep_view(&self) -> OutcomeView {
        match self {
            Outcome::Done => OutcomeView::Done,
            Outcome::Failed(cause) => OutcomeView::Failed(cause@),
        }
    }
}

/// What the run does next.
#[derive(Clone, Debug, PartialEq, Eq)]
pub enum Step {
    /// Write the file at this position of the plan.
    Write(usize),
    /// Take away the file at this position of the plan, which this run
    /// wrote or began to write.
    Remove(usize),
    /// Every file is written: the run succeeds.
    Finished,
    /// No file of this run is left: the run fails with this error.
    Failed(CodegenError),
}

pub enum StepView {
    Write(int),
    Remove(int),
    Finished,
    Failed(CodegenErrorView),
}

impl DeepView for Step {
    type V = StepView;

    open spec fn deep_view(&self) -> StepView {
        match self {
            Step::Write(i) => StepView::Write(*i as int),
            Step::Remove(i) => StepView::Remove(*i as int),
            Step::Finished => StepView::Finished,
            Step::Failed(e) => StepView::Failed(e.deep_view()),
        }
    }
}

/// The path of the file at position `i` of the plan; empty where the plan
/// has no such position.
pub open spec fn path_at(writes: Seq<FileWriteView>, i: int) -> Seq<char> {
    if 0 <= i < writes.len() {
        writes[i].path
    } else {
        Seq::empty()
    }
}

/// Whether a removal is still due after the write at `failed` failed and
/// `removed` files were taken away.
pub open spec fn removal_due(writes: Seq<FileWriteView>, failed: int, removed: int) -> bool {
    0 <= removed <= failed < writes.len()
}

/// The step that is due. The files are written in the order of the plan.
/// After a failed write nothing more is written: the file whose write
/// failed and every file written before it are taken away, the latest
/// first, and then the run fails with the path and the cause of the failed
/// write.
pub open spec fn step_for(writes: Seq<FileWriteView>, progress: ProgressView) -> StepView {
    match progress {
        ProgressView::Writing { written } => if 0 <= written < writes.len() {
            StepView::Write(written)
        } else {
            StepView::Finished
        },
        ProgressView::Undoing { failed, cause, removed } => if removal_due(writes, failed, removed) {
            StepView::Remove(failed - removed)
        } else {
            StepView::Failed(CodegenErrorView::WriteFailure { path: path_at(writes, failed), cause })
        },
    }
}

/// The progress after the step that was due has been taken with the given
/// outcome. A failed write begins the undoing. A removal counts as made
/// whether or not it succeeded, so that the undoing goes on to the files
/// before. Where no step was due the progress stays as it is.
pub open spec fn progress_after(
    writes: Seq<FileWriteView>,
    progress: ProgressView,
    outcome: OutcomeView,
) -> ProgressView {
    match progress {
        ProgressView::Writing { written } => if 0 <= written < writes.len() {
            match outcome {
                OutcomeView::Done => ProgressView::Writing { written: written + 1 },
                OutcomeView::Failed(cause) => ProgressView::Undoing {
                    failed: written,
                    cause,
                    removed: 0,
                },
            }
        } else {
            progress
        },
        ProgressView::Undoing { failed, cause, removed } => if removal_due(writes, failed, removed) {
            ProgressView::Undoing { failed, cause, removed: removed + 1 }
        } else {
            progress
        },
    }
}

impl Progress {
    /// The progress of a run that has written nothing yet.
    pub fn start() -> (progress: Progress)
        ensures
            progress.deep_view() == (ProgressView::Writing { written: 0 }),
    {
        Progress::Writing { written: 0 }
    }
}

/// Decides the next step of writing the plan.
pub fn next_step(writes: &Vec<FileWrite>, progress: &Progress) -> (step: Step)
    ensures
        step.deep_view() == step_for(writes.deep_view(), progress.deep_view()),
{
    match progress {
        Progress::Writing { written } => {
            if *written < writes.len() {
                Step::Write(*written)
            } else {
                Step::Finished
            }
        },
        Progress::Undoing { failed, cause, removed } => {
            if *failed < writes.len() {
                if *removed <= *failed {
                    Step::Remove(*failed - *removed)
                } else {
                    Step::Failed(
                        CodegenError::WriteFailure {
                            path: writes[*failed].path.clone(),
                            cause: cause.clone(),
                        },
                    )
                }
            } else {
                Step::Failed(CodegenError::WriteFailure { path: String::new(), cause: cause.clone() })
            }
        },
    }
}

/// Records how the step that was due went.
pub fn advance(writes: &Vec<FileWrite>, progress: Progress, outcome: Outcome) -> (next: Progress)
    ensures
        next.deep_view() == progress_after(
            writes.deep_view(),
            progress.deep_view(),
            outcome.deep_view(),
        ),
{
    match progress {
        Progress::Writing { written } => {
            if written < writes.len() {
                match outcome {
                    Outcome::Done => Progress::Writing { written: written + 1 },
                    Outcome::Failed(cause) => Progress::Undoing { failed: written, cause, removed: 0 },
                }
            } else {
                Progress::Writing { written }
            }
        },
        Progress::Undoing { failed, cause, removed } => {
            if failed < writes.len() && removed <= failed {
                Progress::Undoing { failed, cause, removed: removed + 1 }
            } else {
                Progress::Undoing { failed, cause, removed }
            }
        },
    }
}

/// The progress of a run after the steps that were due, one after the
/// other, went as `outcomes` says.
pub open spec fn progress_after_all(
    writes: Seq<FileWriteView>,
    progress: ProgressView,
    outcomes: Seq<OutcomeView>,
) -> ProgressView
    decreases outcomes.len(),
{
    if outcomes.len() == 0 {
        progress
    } else {
        progress_after(
            writes,
            progress_after_all(writes, progress, outcomes.drop_last()),
            outcomes.last(),
        )
    }
}

/// A run whose first `k` writes succeed has written exactly the first `k`
/// files, in the order of the plan, and then writes the next or, after the
/// last, is finished.
pub proof fn lemma_writes_follow_the_plan(writes: Seq<FileWriteView>, outcomes: Seq<OutcomeView>)
    requires
        outcomes.len() <= writes.len(),
        forall|i: int| 0 <= i < outcomes.len() ==> outcomes[i] is Done,
    ensures
        progress_after_all(writes, ProgressView::Writing { written: 0 }, outcomes)
            == (ProgressView::Writing { written: outcomes.len() as int }),
        step_for(
            writes,
            progress_after_all(writes, ProgressView::Writing { written: 0 }, outcomes),
        ) == (if outcomes.len() < writes.len() {
            StepView::Write(outcomes.len() as int)
        } else {
            StepView::Finished
        }),
    decreases outcomes.len(),
{
    if outcomes.len() > 0 {
        lemma_writes_follow_the_plan(writes, outcomes.drop_last());
    }
}

/// Once a write has failed, nothing is written any more and the run cannot
/// finish: whatever the later outcomes, the progress stays an undoing of
/// the same failed write, and the step due is a removal or the failure.
pub proof fn lemma_failure_is_final(
    writes: Seq<FileWriteView>,
    progress: ProgressView,
    outcomes: Seq<OutcomeView>,
)
    requires
        progress is Undoing,
    ensures
        progress_after_all(writes, progress, outcomes) is Undoing,
        progress_after_all(writes, progress, outcomes)->failed == progress->failed,
        progress_after_all(writes, progress, outcomes)->cause == progress->cause,
        !(step_for(writes, progress_after_all(writes, progress, outcomes)) is Write),
        !(step_for(writes, progress_after_all(writes, progress, outcomes)) is Finished),
    decreases outcomes.len(),
{
    if outcomes.len() > 0 {
        lemma_failure_is_final(writes, progress, outcomes.drop_last());
    }
}

/// After the write at position `k` failed and `r` removals were made, the
/// removal due is that of the file at `k - r`: the files at `k`, `k - 1`,
/// down to `0` are taken away, each once.
pub proof fn lemma_undoing_goes_backwards(
    writes: Seq<FileWriteView>,
    k: int,
    cause: Seq<char>,
    outcomes: Seq<OutcomeView>,
)
    requires
        0 <= k < writes.len(),
        outcomes.len() <= k + 1,
    ensures
        progress_after_all(
            writes,
            ProgressView::Undoing { failed: k, cause, removed: 0 },
            outcomes,
        ) == (ProgressView::Undoing { failed: k, cause, removed: outcomes.len() as int }),
        step_for(
            writes,
            progress_after_all(
                writes,
                ProgressView::Undoing { failed: k, cause, removed: 0 },
                outcomes,
            ),
        ) == (if outcomes.len() <= k {
            StepView::Remove(k - outcomes.len())
        } else {
            StepView::Failed(CodegenErrorView::WriteFailure { path: writes[k].path, cause })
        }),
    decreases outcomes.len(),
{
    if outcomes.len() > 0 {
        lemma_undoing_goes_backwards(writes, k, cause, outcomes.drop_last());
    }
}

/// The outcomes may be replayed in two parts.
pub proof fn lemma_progress_in_two_parts(
    writes: Seq<FileWriteView>,
    progress: ProgressView,
    first: Seq<OutcomeView>,
    second: Seq<OutcomeView>,
)
    ensures
        progress_after_all(writes, progress, first + second) == progress_after_all(
            writes,
            progress_after_all(writes, progress, first),
            second,
        ),
    decreases second.len(),
{
    if second.len() == 0 {
        assert(first + second =~= first);
    } else {
        assert((first + second).drop_last() =~= first + second.drop_last());
        assert((first + second).last() == second.last());
        lemma_progress_in_two_parts(writes, progress, first, second.drop_last());
    }
}

/// A run in which the write at position `k` is the first to fail, for
/// `cause`, attempts exactly the writes at `0` to `k`, takes every one of
/// those files away again, and fails with the path of the file at `k` and
/// with `cause`. So a run leaves all its files or none.
pub proof fn lemma_failed_write_undoes_the_run(
    writes: Seq<FileWriteView>,
    k: int,
    cause: Seq<char>,
    removals: Seq<OutcomeView>,
)
    requires
        0 <= k < writes.len(),
        removals.len() == k + 1,
    ensures
        ({
            let before = Seq::new(k as nat, |i: int| OutcomeView::Done);
            let outcomes = before.push(OutcomeView::Failed(cause)) + removals;
            let start = ProgressView::Writing { written: 0 };
            &&& step_for(writes, progress_after_all(writes, start, before)) == StepView::Write(k)
            &&& progress_after_all(writes, start, before.push(OutcomeView::Failed(cause)))
                == (ProgressView::Undoing { failed: k, cause, removed: 0 })
            &&& step_for(writes, progress_after_all(writes, start, outcomes)) == StepView::Failed(
                CodegenErrorView::WriteFailure { path: writes[k].path, cause },
            )
        }),
{
    let before = Seq::new(k as nat, |i: int| OutcomeView::Done);
    let failed = before.push(OutcomeView::Failed(cause));
    let start = ProgressView::Writing { written: 0 };
    lemma_writes_follow_the_plan(writes, before);
    assert(failed.drop_last() =~= before);
    assert(progress_after_all(writes, start, failed) == (ProgressView::Undoing {
        failed: k,
        cause,
        removed: 0,
    }));
    lemma_progress_in_two_parts(writes, start, failed, removals);
    lemma_undoing_goes_backwards(writes, k, cause, removals);
}

/// Two runs on one architecture and one generator output plan the same
/// files with the same contents, or fail alike.
pub proof fn lemma_runs_agree(
    arch: Architecture,
    generated: Option<Seq<char>>,
    first: Result<Vec<FileWrite>, CodegenError>,
    second: Result<Vec<FileWrite>, CodegenError>,
)
    requires
        plan_view(first) == codegen_result(arch, generated),
        plan_view(second) == codegen_result(arch, generated),
    ensures
        plan_view(first) == plan_view(second),
{
}

/// A sequence without helpers and without structs gives three files: the
/// declarations as they are, and two files that hold the import alone.
pub proof fn lemma_nothing_to_rewrite(arch: Architecture, decls: Seq<DeclarationView>)
    requires
        forall|i: int| 0 <= i < decls.len() ==> !is_helper(#[trigger] decls[i]),
        forall|i: int| 0 <= i < decls.len() ==> (#[trigger] decls[i]).category != Category::Struct,
    ensures
        writes_for(arch, decls) matches Ok(writes) && writes.len() == 3 && writes[0].contents
            == rendered(decls) && writes[1].contents == import_line() && writes[2].contents
            == import_line(),
{
    lemma_helper_positions(decls);
    let positions = helper_positions(decls);
    if positions.len() > 0 {
        assert(is_helper(decls[positions[0]]));
    }
    assert(helper_declarations(decls) =~= Seq::empty());
    assert(expansions(helper_declarations(decls)) =~= Seq::empty());
    lemma_no_struct_no_getters(decls, read_primitive());
    assert(names_of(Seq::<DeclarationView>::empty()) =~= Seq::empty());
    assert(blanked(decls, positions) =~= decls);
    assert(texts_of(Seq::<DeclarationView>::empty()) =~= Seq::empty());
    assert(import_line() + Seq::<char>::empty() =~= import_line());
}

/// A helper that cannot be expanded fails the run before any file is
/// planned, and the failure names the first such helper.
pub proof fn lemma_unsupported_helper_fails(arch: Architecture, decls: Seq<DeclarationView>)
    requires
        !all_expandable(helper_declarations(decls)),
    ensures
        writes_for(arch, decls) matches Err(CodegenErrorView::HelperShapeUnsupported(name))
            && exists|i: int|
            is_first_unsupported(helper_declarations(decls), i) && name == helper_declarations(
                decls,
            )[i].name,
{
    let helpers = helper_declarations(decls);
    let k = choose|k: int| 0 <= k < helpers.len() && !expandable(#[trigger] helpers[k]);
    lemma_first_unsupported_exists(helpers, k);
}

} // verus!
