//! What the compiler's target triple tells about the build: the
//! architecture, the bundled header set that matches it, and the baseline
//! flags for compiling BPF against kernel headers.
use vstd::prelude::*;
use vstd::string::*;
use crate::flags::ToolchainInfo;
use crate::paths::concat;
use crate::strset::{str_eq, views};

verus! {

/// The architecture part of a target triple: what precedes its first `-`.
pub open spec fn triple_arch(t: Seq<char>) -> Seq<char>
    decreases t.len(),
{
    if t.len() == 0 || t[0] == '-' {
        Seq::empty()
    } else {
        seq![t[0]] + triple_arch(t.drop_first())
    }
}

/// The name of the bundled header set for an architecture, if it has one.
pub open spec fn kernel_target_of(arch: Seq<char>) -> Option<Seq<char>> {
    if arch == "x86_64"@ {
        Some("x86"@)
    } else if arch == "aarch64"@ {
        Some("arm64"@)
    } else if arch == "s390x"@ {
        Some("s390"@)
    } else if arch == "powerpc64"@ || arch == "powerpc64le"@ {
        Some("powerpc"@)
    } else if arch == "riscv64"@ {
        Some("riscv"@)
    } else if arch == "loongarch64"@ {
        Some("loongarch"@)
    } else {
        None
    }
}

/// Whether the architecture stores words most significant byte first.
pub open spec fn big_endian(arch: Seq<char>) -> bool {
    arch == "s390x"@ || arch == "powerpc64"@
}

/// The baseline flags for compiling BPF programs on `arch`, whose header
/// set is `target`.
pub open spec fn baseline_flags_of(arch: Seq<char>, target: Seq<char>) -> Seq<Seq<char>> {
    seq![
        "-g"@,
        "-O2"@,
        "-Wall"@,
        "-Wno-compare-distinct-pointer-types"@,
        "-D__TARGET_ARCH_"@ + target,
        "-mcpu=v3"@,
        if big_endian(arch) { "-mbig-endian"@ } else { "-mlittle-endian"@ },
    ]
}

/// The architecture of the target triple `t`.
pub fn arch_of_triple(t: &str) -> (r: String)
    ensures
        r@ == triple_arch(t@),
{
    let n = t.unicode_len();
    let mut k: usize = 0;
    assert(t@.skip(0) =~= t@);
    while k < n && t.get_char(k) != '-'
        invariant
            n == t@.len(),
            k <= n,
            triple_arch(t@) == t@.subrange(0, k as int) + triple_arch(t@.skip(k as int)),
        decreases n - k,
    {
        let ghost rest = t@.skip(k as int);
        assert(rest.drop_first() =~= t@.skip(k + 1));
        assert(t@.subrange(0, k + 1) =~= t@.subrange(0, k as int) + seq![rest[0]]);
        assert(t@.subrange(0, k as int) + (seq![rest[0]] + triple_arch(rest.drop_first()))
            =~= t@.subrange(0, k + 1) + triple_arch(t@.skip(k + 1)));
        k = k + 1;
    }
    assert(triple_arch(t@.skip(k as int)) =~= Seq::<char>::empty());
    assert(t@.subrange(0, k as int) + Seq::<char>::empty() =~= t@.subrange(0, k as int));
    String::from_str(t.substring_char(0, k))
}

/// The header set for `arch`, if there is one.
pub fn kernel_target(arch: &str) -> (r: Option<String>)
    ensures
        opt_seq(r) == kernel_target_of(arch@),
{
    proof {
        reveal_strlit("x86_64");
        reveal_strlit("aarch64");
        reveal_strlit("s390x");
        reveal_strlit("powerpc64");
        reveal_strlit("powerpc64le");
        reveal_strlit("riscv64");
        reveal_strlit("loongarch64");
    }
    if str_eq(arch, "x86_64") {
        Some(String::from_str("x86"))
    } else if str_eq(arch, "aarch64") {
        Some(String::from_str("arm64"))
    } else if str_eq(arch, "s390x") {
        Some(String::from_str("s390"))
    } else if str_eq(arch, "powerpc64") || str_eq(arch, "powerpc64le") {
        Some(String::from_str("powerpc"))
    } else if str_eq(arch, "riscv64") {
        Some(String::from_str("riscv"))
    } else if str_eq(arch, "loongarch64") {
        Some(String::from_str("loongarch"))
    } else {
        None
    }
}

pub open spec fn opt_seq(o: Option<String>) -> Option<Seq<char>> {
    match o {
        Some(s) => Some(s@),
        None => None,
    }
}

/// The toolchain for the compiler `compiler_path`, whose target triple is
/// `triple`; `None` when the triple's architecture has no header set.
pub fn probe(compiler_path: String, triple: &str) -> (r: Option<ToolchainInfo>)
    ensures
        match kernel_target_of(triple_arch(triple@)) {
            None => r is None,
            Some(target) => r matches Some(tc) && {
                &&& tc.compiler_path@ == compiler_path@
                &&& tc.kernel_target@ == target
                &&& views(tc.baseline_flags@) == baseline_flags_of(triple_arch(triple@), target)
            },
        },
{
    let arch = arch_of_triple(triple);
    let target = match kernel_target(arch.as_str()) {
        Some(t) => t,
        None => return None,
    };
    proof {
        reveal_strlit("s390x");
        reveal_strlit("powerpc64");
    }
    let big = str_eq(arch.as_str(), "s390x") || str_eq(arch.as_str(), "powerpc64");
    let mut flags: Vec<String> = Vec::new();
    flags.push(String::from_str("-g"));
    flags.push(String::from_str("-O2"));
    flags.push(String::from_str("-Wall"));
    flags.push(String::from_str("-Wno-compare-distinct-pointer-types"));
    flags.push(concat("-D__TARGET_ARCH_", target.as_str()));
    flags.push(String::from_str("-mcpu=v3"));
    if big {
        flags.push(String::from_str("-mbig-endian"));
    } else {
        flags.push(String::from_str("-mlittle-endian"));
    }
    assert(views(flags@) =~= baseline_flags_of(arch@, target@));
    Some(ToolchainInfo { compiler_path, kernel_target: target, baseline_flags: flags })
}

} // verus!
