use scx_utils::builder::{BpfBuilder, BuildError};
use scx_utils::flags::{bundle_dir, resolve_cflags, split_flags, FlagOverrides, ToolchainInfo};
use scx_utils::paths::{decimal, file_name, join, parent};
use scx_utils::strset::{str_eq, str_less, SourceSet};
use scx_utils::toolchain::{arch_of_triple, kernel_target, probe};

fn strs(v: &[&str]) -> Vec<String> {
    v.iter().map(|s| s.to_string()).collect()
}

fn toolchain() -> ToolchainInfo {
    ToolchainInfo {
        compiler_path: "clang".to_string(),
        kernel_target: "x86".to_string(),
        baseline_flags: strs(&["-g", "-O2"]),
    }
}

fn no_overrides() -> FlagOverrides {
    FlagOverrides { full: None, base: None, pre_incl: None, post_incl: None }
}

fn builder() -> BpfBuilder {
    BpfBuilder::new(toolchain(), "/out".to_string(), &no_overrides())
}

#[test]
fn default_flags() {
    let r = resolve_cflags(&toolchain(), "/out", &no_overrides());
    assert_eq!(
        r,
        strs(&[
            "-g",
            "-O2",
            "-I/out/scx_utils-bpf_h/arch/x86",
            "-I/out/scx_utils-bpf_h",
            "-I/out/scx_utils-bpf_h/bpf-compat",
        ])
    );
}

#[test]
fn flag_order_with_pre_and_post() {
    let ov = FlagOverrides {
        full: None,
        base: None,
        pre_incl: Some("-I/pre1   -I/pre2".to_string()),
        post_incl: Some(" -I/post\t".to_string()),
    };
    let r = resolve_cflags(&toolchain(), "/out/", &ov);
    assert_eq!(
        r,
        strs(&[
            "-g",
            "-O2",
            "-I/pre1",
            "-I/pre2",
            "-I/out/scx_utils-bpf_h/arch/x86",
            "-I/out/scx_utils-bpf_h",
            "-I/out/scx_utils-bpf_h/bpf-compat",
            "-I/post",
        ])
    );
}

#[test]
fn base_override_replaces_baseline() {
    let ov = FlagOverrides {
        full: None,
        base: Some("-O1 -DX".to_string()),
        pre_incl: None,
        post_incl: Some("".to_string()),
    };
    let r = resolve_cflags(&toolchain(), "o", &ov);
    assert_eq!(
        r,
        strs(&[
            "-O1",
            "-DX",
            "-Io/scx_utils-bpf_h/arch/x86",
            "-Io/scx_utils-bpf_h",
            "-Io/scx_utils-bpf_h/bpf-compat",
        ])
    );
}

#[test]
fn full_override_supersedes_everything() {
    let ov = FlagOverrides {
        full: Some("  -O2\t-g\n-Wall ".to_string()),
        base: Some("-O1".to_string()),
        pre_incl: Some("-I/pre".to_string()),
        post_incl: Some("-I/post".to_string()),
    };
    let r = resolve_cflags(&toolchain(), "/out", &ov);
    assert_eq!(r, strs(&["-O2", "-g", "-Wall"]));
    let b = BpfBuilder::new(toolchain(), "/out".to_string(), &ov);
    assert_eq!(b.cflags, strs(&["-O2", "-g", "-Wall"]));
}

#[test]
fn bundle_directory() {
    assert_eq!(bundle_dir("/out"), "/out/scx_utils-bpf_h");
    assert_eq!(bundle_dir(""), "scx_utils-bpf_h");
}

#[test]
fn nothing_enabled_plans_nothing() {
    let mut b = builder();
    b.add_source("src/a.bpf.c");
    let plan = b.build();
    assert!(plan.intf.is_none());
    assert!(plan.skel.is_none());
    assert_eq!(plan.deps.len(), 0);
    assert!(b.compile_link_gen().is_none());
    assert_eq!(b.dep_patterns(), Ok(strs(&["src/*.[hc]"])));
}

#[test]
fn skeleton_scenario() {
    let mut b = builder();
    b.enable_skel("dir/main.bpf.c", "sched");
    let plan = b.build();
    assert!(plan.intf.is_none());
    let skel = plan.skel.unwrap();
    assert_eq!(skel.source, "dir/main.bpf.c");
    assert_eq!(skel.obj, "/out/sched.bpf.o");
    assert_eq!(skel.skel_path, "/out/sched_skel.rs");
    assert_eq!(b.dep_patterns(), Ok(strs(&["dir/*.[hc]"])));

    let mut deps = plan.deps;
    deps.insert_all(&strs(&["dir/main.bpf.c", "dir/intf.h", "dir/helpers.h"]));
    let r = b.gen_cargo_reruns(&deps);
    assert_eq!(
        r,
        strs(&[
            "cargo:rerun-if-env-changed=BPF_CLANG",
            "cargo:rerun-if-env-changed=BPF_CFLAGS",
            "cargo:rerun-if-env-changed=BPF_BASE_CFLAGS",
            "cargo:rerun-if-env-changed=BPF_EXTRA_CFLAGS_PRE_INCL",
            "cargo:rerun-if-env-changed=BPF_EXTRA_CFLAGS_POST_INCL",
            "cargo:rerun-if-changed=dir/helpers.h",
            "cargo:rerun-if-changed=dir/intf.h",
            "cargo:rerun-if-changed=dir/main.bpf.c",
            "cargo:rerun-if-changed=dir/main.bpf.c",
        ])
    );
}

#[test]
fn intf_scenario() {
    let mut b = builder();
    b.enable_intf("intf.h", "bpf_intf.rs");
    let plan = b.build();
    assert!(plan.skel.is_none());
    assert!(b.compile_link_gen().is_none());
    let intf = plan.intf.unwrap();
    assert_eq!(intf.header, "intf.h");
    assert_eq!(intf.output, "/out/bpf_intf.rs");
    let mut args = b.cflags.clone();
    args.push("-target".to_string());
    args.push("bpf".to_string());
    assert_eq!(intf.clang_args, args);
    assert_eq!(plan.deps.to_vec(), strs(&["intf.h"]));
    assert_eq!(b.dep_patterns(), Ok(vec![]));
}

#[test]
fn link_plan_for_several_sources() {
    let mut b = builder();
    b.enable_skel("src/bpf/main.bpf.c", "main");
    b.add_source("src/bpf/lib.bpf.c");
    b.add_source("src/bpf/main.bpf.c");
    let job = b.compile_link_gen().unwrap();
    assert_eq!(job.link_obj, "/out/main.bpf.o");
    assert_eq!(job.skel_path, "/out/main_skel.rs");
    assert_eq!(job.units.len(), 2);
    assert_eq!(job.units[0].source, "src/bpf/lib.bpf.c");
    assert_eq!(job.units[0].obj, "/out/0-lib.bpf.c.o");
    assert_eq!(job.units[1].source, "src/bpf/main.bpf.c");
    assert_eq!(job.units[1].obj, "/out/1-main.bpf.c.o");
    assert_eq!(b.dep_patterns(), Ok(strs(&["src/bpf/*.[hc]", "src/bpf/*.[hc]"])));
}

#[test]
fn empty_source_has_no_directory() {
    let mut b = builder();
    b.enable_skel("a.bpf.c", "a");
    b.add_source("");
    assert_eq!(b.dep_patterns(), Err(BuildError::NoParentDir));
    let mut d = builder();
    d.add_source("");
    assert_eq!(d.dep_patterns(), Err(BuildError::NoParentDir));
    let mut c = builder();
    c.enable_skel("a.bpf.c", "a");
    assert_eq!(c.dep_patterns(), Ok(strs(&["./*.[hc]"])));
}

#[test]
fn sources_are_sorted_and_unique() {
    let mut s = SourceSet::new();
    s.insert("b");
    s.insert("a");
    s.insert("ab");
    s.insert("b");
    s.insert("");
    assert_eq!(s.to_vec(), strs(&["", "a", "ab", "b"]));
    assert!(s.contains("ab"));
    assert!(!s.contains("c"));
}

#[test]
fn lexicographic_order() {
    assert!(str_less("a", "b"));
    assert!(str_less("a", "ab"));
    assert!(!str_less("ab", "a"));
    assert!(!str_less("a", "a"));
    assert!(str_less("", "a"));
    assert!(str_less("Z", "a"));
    assert!(str_less("z", "é"));
    assert!(str_eq("ab", "ab"));
    assert!(!str_eq("ab", "abc"));
}

#[test]
fn path_helpers() {
    assert_eq!(join("a", "b"), "a/b");
    assert_eq!(join("a/", "b"), "a/b");
    assert_eq!(join("", "b"), "b");
    assert_eq!(join("a", "/b"), "/b");
    assert_eq!(parent("dir/main.bpf.c"), "dir");
    assert_eq!(parent("a/b/c.h"), "a/b");
    assert_eq!(parent("main.bpf.c"), ".");
    assert_eq!(parent("/main.c"), "/");
    assert_eq!(file_name("a/b/c.h"), "c.h");
    assert_eq!(file_name("c.h"), "c.h");
    assert_eq!(file_name("a/"), "");
}

#[test]
fn probe_x86_64() {
    let tc = probe("clang".to_string(), "x86_64-pc-linux-gnu").unwrap();
    assert_eq!(tc.compiler_path, "clang");
    assert_eq!(tc.kernel_target, "x86");
    assert_eq!(
        tc.baseline_flags,
        strs(&[
            "-g",
            "-O2",
            "-Wall",
            "-Wno-compare-distinct-pointer-types",
            "-D__TARGET_ARCH_x86",
            "-mcpu=v3",
            "-mlittle-endian",
        ])
    );
}

#[test]
fn probe_big_endian_and_unknown() {
    let tc = probe("clang-17".to_string(), "s390x-ibm-linux-gnu").unwrap();
    assert_eq!(tc.kernel_target, "s390");
    assert_eq!(tc.baseline_flags[4], "-D__TARGET_ARCH_s390");
    assert_eq!(tc.baseline_flags[6], "-mbig-endian");
    assert_eq!(kernel_target("aarch64"), Some("arm64".to_string()));
    assert_eq!(arch_of_triple("aarch64-unknown-linux-gnu"), "aarch64");
    assert_eq!(arch_of_triple("riscv64"), "riscv64");
    assert!(probe("clang".to_string(), "sparc64-linux").is_none());
    assert!(probe("clang".to_string(), "").is_none());
}

#[test]
fn new_builder_fields() {
    let tc = probe("clang".to_string(), "x86_64-unknown-linux-gnu").unwrap();
    let b = BpfBuilder::new(tc, "/out".to_string(), &no_overrides());
    assert_eq!(b.clang, "clang");
    assert_eq!(b.out_dir, "/out");
    assert_eq!(b.cflags.len(), 10);
    assert_eq!(b.cflags[7], "-I/out/scx_utils-bpf_h/arch/x86");
    assert_eq!(b.sources.len(), 0);
    assert!(b.intf_input_output.is_none());
    assert!(b.skel_input_name.is_none());
}

#[test]
fn same_file_name_gets_distinct_objects() {
    let mut b = builder();
    b.enable_skel("a/x.bpf.c", "x");
    b.add_source("b/x.bpf.c");
    let job = b.compile_link_gen().unwrap();
    assert_eq!(job.units.len(), 2);
    assert_eq!(job.units[0].obj, "/out/0-x.bpf.c.o");
    assert_eq!(job.units[1].obj, "/out/1-x.bpf.c.o");
    assert_ne!(job.units[0].obj, job.units[1].obj);
}

#[test]
fn decimal_forms() {
    assert_eq!(decimal(0), "0");
    assert_eq!(decimal(7), "7");
    assert_eq!(decimal(10), "10");
    assert_eq!(decimal(1234), "1234");
}

#[test]
fn whitespace_splitting() {
    assert_eq!(split_flags(""), Vec::<String>::new());
    assert_eq!(split_flags(" \t\n "), Vec::<String>::new());
    assert_eq!(split_flags("a"), strs(&["a"]));
    assert_eq!(split_flags("  -O2\t-g\n-Wall "), strs(&["-O2", "-g", "-Wall"]));
    assert_eq!(split_flags("a\u{3000}b\u{a0}c\u{2009}d\u{85}e"), strs(&["a", "b", "c", "d", "e"]));
    assert_eq!(split_flags("a\u{200b}b"), strs(&["a\u{200b}b"]));
    let s = "x \u{1680} y\u{202f}z\u{c}w";
    let std_split: Vec<String> = s.split_whitespace().map(|t| t.to_string()).collect();
    assert_eq!(split_flags(s), std_split);
}
