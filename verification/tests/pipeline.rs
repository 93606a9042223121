use xtask::arch::Architecture;
use xtask::bindings::{
    advance, binding_request, codegen, next_step, path_below, plan_writes, CodegenOptions,
    FileWrite, Outcome, Progress, Step,
};
use xtask::error::CodegenError;
use xtask::model::{Binding, Category, Declaration, Shape, Signature};
use xtask::syntax::{lower_item, parse_declarations, static_shape_of};

const SOURCE: &str = r#"
#[repr(C)]
pub struct bpf_map_def {
    pub type_: u32,
    pub key_size: u32,
}
extern "C" {
    pub static mut bpf_map_lookup_elem: ::core::option::Option<
        unsafe extern "C" fn(map: *mut c_void, key: *const c_void) -> *mut c_void,
    >;
}
pub const BPF_ANY: u32 = 0;
"#;

const STRUCT_TEXT: &str = "# [repr (C)] pub struct bpf_map_def { pub type_ : u32 , pub key_size : u32 , }";

const POINTER_TEXT: &str =
    "unsafe extern \"C\" fn (map : * mut c_void , key : * const c_void) -> * mut c_void";

fn options() -> CodegenOptions {
    CodegenOptions { arch: Architecture::X86_64, libbpf_dir: String::from("/opt/libbpf") }
}

fn binding(name: &str, ty: &str) -> Binding {
    Binding { name: Some(String::from(name)), ty: String::from(ty) }
}

#[test]
fn parses_struct_static_and_constant() {
    let decls = parse_declarations(SOURCE).unwrap();
    assert_eq!(decls.len(), 3);
    assert_eq!(
        decls[0],
        Declaration {
            category: Category::Struct,
            name: String::from("bpf_map_def"),
            shape: Shape::Record(vec![binding("type_", "u32"), binding("key_size", "u32")]),
            text: String::from(STRUCT_TEXT),
        }
    );
    assert_eq!(decls[1].category, Category::Static);
    assert_eq!(decls[1].name, "bpf_map_lookup_elem");
    assert_eq!(
        decls[1].shape,
        Shape::FnPointer(Signature {
            pointer: String::from(POINTER_TEXT),
            params: vec![binding("map", "* mut c_void"), binding("key", "* const c_void")],
            output: Some(String::from("* mut c_void")),
            variadic: false,
        })
    );
    assert_eq!(
        decls[2],
        Declaration {
            category: Category::Other,
            name: String::new(),
            shape: Shape::Opaque,
            text: String::from("pub const BPF_ANY : u32 = 0 ;"),
        }
    );
}

#[test]
fn struct_and_helper_give_three_files() {
    let writes = codegen(&options(), Some(SOURCE)).unwrap();
    assert_eq!(writes.len(), 3);
    assert_eq!(
        writes[0],
        FileWrite {
            path: String::from("bpf/aya-bpf-bindings/src/x86_64/bindings.rs"),
            contents: format!("{} pub const BPF_ANY : u32 = 0 ;", STRUCT_TEXT),
            format: false,
        }
    );
    assert_eq!(
        writes[1],
        FileWrite {
            path: String::from("bpf/aya-bpf-bindings/src/x86_64/helpers.rs"),
            contents: format!(
                "use super::bindings::*; pub unsafe fn bpf_map_lookup_elem (map : * mut c_void , key : * const c_void) -> * mut c_void {{ let fun : {} = :: core :: mem :: transmute (1usize) ; fun (map , key) }}",
                POINTER_TEXT
            ),
            format: true,
        }
    );
    let getter = |field: &str| {
        format!(
            "pub fn bpf_map_def_{0} (this : & bpf_map_def) -> Option < u32 > {{ let mut value : u32 = unsafe {{ :: core :: mem :: zeroed () }} ; if unsafe {{ crate::bpf_probe_read (& mut value as * mut u32 as * mut _ , 4 , & this . {0} as * const u32 as * const _) }} == 0 {{ Some (value) }} else {{ None }} }}",
            field
        )
    };
    assert_eq!(
        writes[2],
        FileWrite {
            path: String::from("bpf/aya-bpf-bindings/src/x86_64/getters.rs"),
            contents: format!("use super::bindings::*; {} {}", getter("type_"), getter("key_size")),
            format: true,
        }
    );
}

#[test]
fn nothing_matching_gives_three_near_empty_files() {
    let opts = CodegenOptions { arch: Architecture::AArch64, libbpf_dir: String::new() };
    let writes = codegen(&opts, Some("")).unwrap();
    assert_eq!(
        writes,
        vec![
            FileWrite {
                path: String::from("bpf/aya-bpf-bindings/src/aarch64/bindings.rs"),
                contents: String::new(),
                format: false,
            },
            FileWrite {
                path: String::from("bpf/aya-bpf-bindings/src/aarch64/helpers.rs"),
                contents: String::from("use super::bindings::*; "),
                format: true,
            },
            FileWrite {
                path: String::from("bpf/aya-bpf-bindings/src/aarch64/getters.rs"),
                contents: String::from("use super::bindings::*; "),
                format: true,
            },
        ]
    );
    assert_eq!(next_step(&writes, &Progress::Writing { written: 3 }), Step::Finished);
}

#[test]
fn unsupported_helper_shape_fails_the_run() {
    let source = "pub struct bpf_map_def { pub key_size: u32 } extern \"C\" { pub static mut bpf_broken: u32; }";
    assert_eq!(
        codegen(&options(), Some(source)),
        Err(CodegenError::HelperShapeUnsupported(String::from("bpf_broken")))
    );
}

#[test]
fn unnamed_parameter_is_an_unsupported_shape() {
    let source = "extern \"C\" { pub static mut bpf_anon: Option<unsafe extern \"C\" fn(u32) -> u32>; }";
    assert_eq!(
        codegen(&options(), Some(source)),
        Err(CodegenError::HelperShapeUnsupported(String::from("bpf_anon")))
    );
}

#[test]
fn variadic_helper_is_an_unsupported_shape() {
    let source = "extern \"C\" { pub static mut bpf_printk: Option<unsafe extern \"C\" fn(fmt: *const u8, ...) -> i64>; }";
    assert_eq!(
        codegen(&options(), Some(source)),
        Err(CodegenError::HelperShapeUnsupported(String::from("bpf_printk")))
    );
}

#[test]
fn pointer_outside_option_is_an_unsupported_shape() {
    let source = "extern \"C\" { pub static mut bpf_raw: Box<unsafe extern \"C\" fn(a: u32)>; }";
    assert_eq!(
        codegen(&options(), Some(source)),
        Err(CodegenError::HelperShapeUnsupported(String::from("bpf_raw")))
    );
}

#[test]
fn invalid_source_is_a_parse_failure() {
    assert_eq!(codegen(&options(), Some("pub struct {")), Err(CodegenError::ParseFailure));
    assert_eq!(parse_declarations("fn ("), Err(CodegenError::ParseFailure));
}

#[test]
fn missing_generator_output_is_a_generator_failure() {
    assert_eq!(codegen(&options(), None), Err(CodegenError::GeneratorFailure));
}

#[test]
fn two_helpers_of_one_name_collide() {
    let source = "extern \"C\" { pub static mut bpf_twice: Option<unsafe extern \"C\" fn()>; } extern \"C\" { pub static mut bpf_twice: Option<unsafe extern \"C\" fn()>; }";
    assert_eq!(
        codegen(&options(), Some(source)),
        Err(CodegenError::NameCollision(String::from("bpf_twice")))
    );
}

#[test]
fn two_getters_of_one_name_collide() {
    let source = "pub struct a { pub b_c: u32 } pub struct a_b { pub c: u64 }";
    assert_eq!(
        codegen(&options(), Some(source)),
        Err(CodegenError::NameCollision(String::from("a_b_c")))
    );
}

#[test]
fn getter_named_like_a_declaration_collides() {
    let source = "pub struct bpf_map { pub def: u32 } pub struct bpf_map_def { pub key: [u8; 4] }";
    assert_eq!(
        codegen(&options(), Some(source)),
        Err(CodegenError::NameCollision(String::from("bpf_map_def")))
    );
}

#[test]
fn running_twice_gives_the_same_files() {
    let first = codegen(&options(), Some(SOURCE));
    let second = codegen(&options(), Some(SOURCE));
    assert!(first.is_ok());
    assert_eq!(first, second);
}

#[test]
fn helper_without_return_type_and_parameters() {
    let source = "extern \"C\" { pub static mut bpf_nop: Option<unsafe extern \"C\" fn()>; }";
    let writes = codegen(&options(), Some(source)).unwrap();
    assert_eq!(writes[0].contents, "");
    assert_eq!(
        writes[1].contents,
        "use super::bindings::*; pub unsafe fn bpf_nop () { let fun : unsafe extern \"C\" fn () = :: core :: mem :: transmute (1usize) ; fun () }"
    );
}

#[test]
fn call_numbers_follow_the_order_of_the_helpers() {
    let mut source = String::new();
    for i in 0..12 {
        source.push_str(&format!(
            "extern \"C\" {{ pub static mut bpf_h{}: Option<unsafe extern \"C\" fn()>; }} ",
            i
        ));
    }
    let writes = codegen(&options(), Some(source.as_str())).unwrap();
    assert!(writes[1].contents.contains("pub unsafe fn bpf_h0 () { let fun : unsafe extern \"C\" fn () = :: core :: mem :: transmute (1usize) ;"));
    assert!(writes[1].contents.contains("pub unsafe fn bpf_h9 () { let fun : unsafe extern \"C\" fn () = :: core :: mem :: transmute (10usize) ;"));
    assert!(writes[1].contents.contains("pub unsafe fn bpf_h11 () { let fun : unsafe extern \"C\" fn () = :: core :: mem :: transmute (12usize) ;"));
}

#[test]
fn extern_block_with_two_statics_is_no_helper() {
    let item = "extern \"C\" { pub static mut bpf_a: u32; pub static mut bpf_b: u32; }";
    let d = lower_item(item);
    assert_eq!(d.category, Category::Other);
    assert_eq!(d.name, "");
    assert_eq!(d.shape, Shape::Opaque);
}

#[test]
fn extern_function_is_no_helper() {
    let d = lower_item("extern \"C\" { pub fn bpf_call(a: u32) -> u32; }");
    assert_eq!(d.category, Category::Other);
    let writes = codegen(&options(), Some("extern \"C\" { pub fn bpf_call(a: u32) -> u32; }")).unwrap();
    assert_eq!(writes[0].contents, "extern \"C\" { pub fn bpf_call (a : u32) -> u32 ; }");
    assert_eq!(writes[1].contents, "use super::bindings::*; ");
}

#[test]
fn static_without_helper_prefix_stays() {
    let source = "extern \"C\" { pub static mut other_fn: Option<unsafe extern \"C\" fn()>; }";
    let decls = parse_declarations(source).unwrap();
    assert_eq!(decls[0].category, Category::Static);
    assert_eq!(decls[0].name, "other_fn");
    let writes = plan_writes(Architecture::X86_64, decls).unwrap();
    assert_eq!(
        writes[0].contents,
        "extern \"C\" { pub static mut other_fn : Option < unsafe extern \"C\" fn () > ; }"
    );
    assert_eq!(writes[1].contents, "use super::bindings::*; ");
}

#[test]
fn tuple_struct_fields_have_no_name() {
    let d = lower_item("pub struct pair(pub u32, pub u64);");
    assert_eq!(d.category, Category::Struct);
    assert_eq!(d.name, "pair");
    assert_eq!(
        d.shape,
        Shape::Record(vec![
            Binding { name: None, ty: String::from("u32") },
            Binding { name: None, ty: String::from("u64") },
        ])
    );
}

#[test]
fn request_names_header_include_path_and_whitelist() {
    let request = binding_request(&options());
    assert_eq!(request.header, "bpf/aya-bpf-bindings/include/bindings.h");
    assert_eq!(request.clang_args, vec![String::from("-I"), String::from("/opt/libbpf/src")]);
    assert_eq!(request.types, vec![String::from("bpf_map_.*")]);
    assert_eq!(request.vars, vec![String::from("BPF_.*"), String::from("bpf_.*")]);
}

#[test]
fn paths_are_joined_with_one_separator() {
    assert_eq!(path_below("a", "b"), "a/b");
    assert_eq!(path_below("a/", "b"), "a/b");
    assert_eq!(path_below("", "b"), "b");
    assert_eq!(path_below("/", "src"), "/src");
}

/// Runs the plan with a writer that fails at the given position, and
/// returns every step taken.
fn run_with_failure_at(writes: &Vec<FileWrite>, failing: Option<usize>) -> Vec<Step> {
    let mut steps = Vec::new();
    let mut progress = Progress::start();
    loop {
        let step = next_step(writes, &progress);
        steps.push(step.clone());
        let outcome = match step {
            Step::Write(i) if Some(i) == failing => Outcome::Failed(String::from("disk full")),
            Step::Write(_) => Outcome::Done,
            Step::Remove(_) => Outcome::Failed(String::from("gone already")),
            Step::Finished | Step::Failed(_) => return steps,
        };
        progress = advance(writes, progress, outcome);
    }
}

fn write_failure(path: &str) -> Step {
    Step::Failed(CodegenError::WriteFailure {
        path: String::from(path),
        cause: String::from("disk full"),
    })
}

#[test]
fn files_are_written_in_the_order_of_the_plan() {
    let writes = codegen(&options(), Some(SOURCE)).unwrap();
    assert_eq!(
        run_with_failure_at(&writes, None),
        vec![Step::Write(0), Step::Write(1), Step::Write(2), Step::Finished]
    );
}

#[test]
fn first_failed_write_ends_the_run() {
    let writes = codegen(&options(), Some(SOURCE)).unwrap();
    assert_eq!(
        run_with_failure_at(&writes, Some(0)),
        vec![
            Step::Write(0),
            Step::Remove(0),
            write_failure("bpf/aya-bpf-bindings/src/x86_64/bindings.rs"),
        ]
    );
    assert_eq!(
        run_with_failure_at(&writes, Some(1)),
        vec![
            Step::Write(0),
            Step::Write(1),
            Step::Remove(1),
            Step::Remove(0),
            write_failure("bpf/aya-bpf-bindings/src/x86_64/helpers.rs"),
        ]
    );
    assert_eq!(
        run_with_failure_at(&writes, Some(2)),
        vec![
            Step::Write(0),
            Step::Write(1),
            Step::Write(2),
            Step::Remove(2),
            Step::Remove(1),
            Step::Remove(0),
            write_failure("bpf/aya-bpf-bindings/src/x86_64/getters.rs"),
        ]
    );
}

#[test]
fn progress_is_recorded_step_by_step() {
    let writes = codegen(&options(), Some(SOURCE)).unwrap();
    assert_eq!(Progress::start(), Progress::Writing { written: 0 });
    assert_eq!(
        advance(&writes, Progress::Writing { written: 1 }, Outcome::Done),
        Progress::Writing { written: 2 }
    );
    assert_eq!(
        advance(&writes, Progress::Writing { written: 1 }, Outcome::Failed(String::from("e"))),
        Progress::Undoing { failed: 1, cause: String::from("e"), removed: 0 }
    );
    assert_eq!(
        advance(&writes, Progress::Writing { written: 3 }, Outcome::Done),
        Progress::Writing { written: 3 }
    );
    assert_eq!(
        advance(&writes, Progress::Writing { written: 3 }, Outcome::Failed(String::from("e"))),
        Progress::Writing { written: 3 }
    );
    let undoing = |removed| Progress::Undoing { failed: 1, cause: String::from("e"), removed };
    assert_eq!(advance(&writes, undoing(0), Outcome::Done), undoing(1));
    assert_eq!(advance(&writes, undoing(1), Outcome::Failed(String::from("x"))), undoing(2));
    assert_eq!(advance(&writes, undoing(2), Outcome::Done), undoing(2));
    assert_eq!(next_step(&writes, &undoing(0)), Step::Remove(1));
    assert_eq!(next_step(&writes, &undoing(1)), Step::Remove(0));
    assert_eq!(
        next_step(&writes, &undoing(2)),
        Step::Failed(CodegenError::WriteFailure {
            path: String::from("bpf/aya-bpf-bindings/src/x86_64/helpers.rs"),
            cause: String::from("e"),
        })
    );
    let outside = Progress::Undoing { failed: 7, cause: String::from("e"), removed: 0 };
    assert_eq!(
        next_step(&writes, &outside),
        Step::Failed(CodegenError::WriteFailure { path: String::new(), cause: String::from("e") })
    );
    assert_eq!(advance(&writes, outside.clone(), Outcome::Done), outside);
}

#[test]
fn attributes_of_the_file_come_first() {
    let source = "#![allow(non_camel_case_types)] #![no_std] pub const BPF_ANY: u32 = 0;";
    let decls = parse_declarations(source).unwrap();
    assert_eq!(decls.len(), 3);
    assert_eq!(
        decls[0],
        Declaration {
            category: Category::Other,
            name: String::new(),
            shape: Shape::Opaque,
            text: String::from("# ! [allow (non_camel_case_types)]"),
        }
    );
    assert_eq!(decls[1].text, "# ! [no_std]");
    let writes = codegen(&options(), Some(source)).unwrap();
    assert_eq!(
        writes[0].contents,
        "# ! [allow (non_camel_case_types)] # ! [no_std] pub const BPF_ANY : u32 = 0 ;"
    );
}

#[test]
fn blanked_helper_leaves_no_trace_in_the_bindings() {
    let source = "pub const A: u32 = 0; extern \"C\" { pub static mut bpf_nop: Option<unsafe extern \"C\" fn()>; } pub const B: u32 = 1;";
    let writes = codegen(&options(), Some(source)).unwrap();
    assert_eq!(writes[0].contents, "pub const A : u32 = 0 ; pub const B : u32 = 1 ;");
}

#[test]
fn literals_of_every_kind_are_parsed() {
    let writes = codegen(&options(), Some("const X: &core::ffi::CStr = c\"x\";")).unwrap();
    assert_eq!(writes[0].contents, "const X : & core :: ffi :: CStr = c\"x\" ;");
    let d = lower_item("extern \"C\" { static X: [u8; c\"x\"]; }");
    assert_eq!(d.category, Category::Static);
    assert_eq!(d.name, "X");
    assert_eq!(d.shape, Shape::Opaque);
    let d = lower_item("struct S { f: [u8; c\"x\"] }");
    assert_eq!(d.category, Category::Struct);
    assert_eq!(
        d.shape,
        Shape::Record(vec![Binding { name: Some(String::from("f")), ty: String::from("[u8 ; c\"x\"]") }])
    );
    assert_eq!(static_shape_of("Option<c\"x\">"), Shape::Opaque);
    assert_eq!(static_shape_of("Option<fn([u8; c\"x\"])>"), Shape::FnPointer(Signature {
        pointer: String::from("fn ([u8 ; c\"x\"])"),
        params: vec![Binding { name: None, ty: String::from("[u8 ; c\"x\"]") }],
        output: None,
        variadic: false,
    }));
}

#[test]
fn error_marker_and_odd_literals_are_parsed() {
    let writes = codegen(&options(), Some("const X: u8 = (/*ERROR*/);")).unwrap();
    assert_eq!(writes[0].contents, "const X : u8 = (/*ERROR*/) ;");
    assert_eq!(static_shape_of("Option<(/*ERROR*/)>"), Shape::Opaque);
    let d = lower_item("struct S { f: [u8; (/*ERROR*/)] }");
    assert_eq!(
        d.shape,
        Shape::Record(vec![Binding {
            name: Some(String::from("f")),
            ty: String::from("[u8 ; (/*ERROR*/)]"),
        }])
    );
    let writes = codegen(&options(), Some("const Y: f32 = -1.0; const Z: u8 = 1e;")).unwrap();
    assert_eq!(writes[0].contents, "const Y : f32 = - 1.0 ; const Z : u8 = 1e ;");
}

#[test]
fn only_an_option_of_a_function_pointer_decomposes() {
    let pointer = |ty: &str| match static_shape_of(ty) {
        Shape::FnPointer(signature) => Some(signature.pointer),
        _ => None,
    };
    assert_eq!(pointer("Option<fn()>"), Some(String::from("fn ()")));
    assert_eq!(pointer("::core::option::Option<fn()>"), Some(String::from("fn ()")));
    assert_eq!(pointer("std::option::Option<unsafe extern \"C\" fn(a: u8) -> ()>"), Some(String::from("unsafe extern \"C\" fn (a : u8) -> ()")));
    assert_eq!(pointer("Option<fn(), u8>"), None);
    assert_eq!(pointer("Option<'a>"), None);
    assert_eq!(pointer("Option<u8>"), None);
    assert_eq!(pointer("Option"), None);
    assert_eq!(pointer("Option<fn()>::Inner"), None);
    assert_eq!(pointer("<Option<fn()> as T>::Option<fn()>"), None);
    assert_eq!(pointer("Box<fn()>"), None);
    assert_eq!(pointer("Fn(u8) -> u8"), None);
    assert_eq!(pointer("fn()"), None);
    assert_eq!(pointer("* mut u8"), None);
    assert_eq!(pointer("not a type at all {"), None);
}

#[test]
fn written_unit_return_type_is_kept() {
    match static_shape_of("Option<fn() -> ()>") {
        Shape::FnPointer(signature) => assert_eq!(signature.output, Some(String::from("()"))),
        other => panic!("{:?}", other),
    }
}

#[test]
fn failures_are_described() {
    assert_eq!(CodegenError::GeneratorFailure.describe(), "bindgen failed");
    assert_eq!(CodegenError::ParseFailure.describe(), "generated bindings are not valid source");
    assert_eq!(
        CodegenError::HelperShapeUnsupported(String::from("bpf_x")).describe(),
        "unexpected bindgen helper signature: bpf_x"
    );
    assert_eq!(
        CodegenError::NameCollision(String::from("a_b")).describe(),
        "duplicate identifier: a_b"
    );
    assert_eq!(
        CodegenError::WriteFailure {
            path: String::from("out/helpers.rs"),
            cause: String::from("permission denied"),
        }
        .describe(),
        "could not write out/helpers.rs: permission denied"
    );
}
