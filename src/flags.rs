//! The compiler flags used for every BPF compilation: derived from the
//! toolchain and the bundled headers, under a layered set of overrides.
use vstd::prelude::*;
use vstd::string::*;
use crate::paths::{concat, join, join_path};
use crate::strset::views;

verus! {

/// Whether `c` has the Unicode `White_Space` property, as
/// `char::is_whitespace` tests.
pub open spec fn is_space(c: char) -> bool {
    ('\u{9}' <= c <= '\u{d}') || c == ' ' || c == '\u{85}' || c == '\u{a0}' || c == '\u{1680}'
        || ('\u{2000}' <= c <= '\u{200a}') || c == '\u{2028}' || c == '\u{2029}' || c == '\u{202f}'
        || c == '\u{205f}' || c == '\u{3000}'
}

/// The tokens of `cur + s`, where `cur` is a token begun before `s`: the
/// maximal runs of characters that are not whitespace, in order.
pub open spec fn tokens_after(s: Seq<char>, cur: Seq<char>) -> Seq<Seq<char>>
    decreases s.len(),
{
    if s.len() == 0 {
        if cur.len() == 0 {
            Seq::empty()
        } else {
            seq![cur]
        }
    } else if is_space(s[0]) {
        if cur.len() == 0 {
            tokens_after(s.drop_first(), cur)
        } else {
            seq![cur] + tokens_after(s.drop_first(), Seq::empty())
        }
    } else {
        tokens_after(s.drop_first(), cur.push(s[0]))
    }
}

/// The tokens of `s`, split at runs of whitespace.
pub open spec fn whitespace_tokens(s: Seq<char>) -> Seq<Seq<char>> {
    tokens_after(s, Seq::empty())
}

fn is_space_char(c: char) -> (r: bool)
    ensures
        r == is_space(c),
{
    ('\u{9}' <= c && c <= '\u{d}') || c == ' ' || c == '\u{85}' || c == '\u{a0}' || c == '\u{1680}'
        || ('\u{2000}' <= c && c <= '\u{200a}') || c == '\u{2028}' || c == '\u{2029}' || c == '\u{202f}'
        || c == '\u{205f}' || c == '\u{3000}'
}

/// The whitespace-separated tokens of `s`, in order.
pub fn split_flags(s: &str) -> (r: Vec<String>)
    ensures
        views(r@) == whitespace_tokens(s@),
{
    let n = s.unicode_len();
    let mut r: Vec<String> = Vec::new();
    let mut start: usize = 0;
    let mut i: usize = 0;
    assert(s@.skip(0) =~= s@);
    assert(s@.subrange(0, 0) =~= Seq::<char>::empty());
    while i < n
        invariant
            n == s@.len(),
            start <= i <= n,
            views(r@) + tokens_after(s@.skip(i as int), s@.subrange(start as int, i as int))
                == whitespace_tokens(s@),
        decreases n - i,
    {
        let c = s.get_char(i);
        let ghost rest = s@.skip(i as int);
        let ghost cur = s@.subrange(start as int, i as int);
        assert(rest[0] == c);
        assert(rest.drop_first() =~= s@.skip(i + 1));
        assert(rest.len() > 0);
        if is_space_char(c) {
            if start < i {
                assert(cur.len() > 0);
                assert(tokens_after(rest, cur) == seq![cur] + tokens_after(rest.drop_first(), Seq::empty()));
                let tok = String::from_str(s.substring_char(start, i));
                let ghost prev = views(r@);
                r.push(tok);
                assert(views(r@) =~= prev + seq![cur]);
                assert(prev + (seq![cur] + tokens_after(s@.skip(i + 1), Seq::empty()))
                    =~= (prev + seq![cur]) + tokens_after(s@.skip(i + 1), Seq::empty()));
            } else {
                assert(cur =~= Seq::<char>::empty());
                assert(tokens_after(rest, cur) == tokens_after(rest.drop_first(), cur));
            }
            start = i + 1;
            assert(s@.subrange(start as int, i + 1) =~= Seq::<char>::empty());
        } else {
            assert(tokens_after(rest, cur) == tokens_after(rest.drop_first(), cur.push(c)));
            assert(cur.push(c) =~= s@.subrange(start as int, i + 1));
        }
        i = i + 1;
    }
    let ghost cur = s@.subrange(start as int, n as int);
    assert(s@.skip(n as int) =~= Seq::<char>::empty());
    if start < n {
        let tok = String::from_str(s.substring_char(start, n));
        let ghost prev = views(r@);
        r.push(tok);
        assert(views(r@) =~= prev + seq![cur]);
    } else {
        assert(views(r@) + Seq::<Seq<char>>::empty() =~= views(r@));
    }
    r
}

/// What the toolchain probe found: the compiler to run, the architecture
/// name that selects the bundled headers, and the baseline flags.
pub struct ToolchainInfo {
    pub compiler_path: String,
    pub kernel_target: String,
    pub baseline_flags: Vec<String>,
}

/// The flag overrides taken from the environment; `None` where a variable
/// is not set.
pub struct FlagOverrides {
    /// Replaces every derived flag (`BPF_CFLAGS`).
    pub full: Option<String>,
    /// Replaces the baseline flags (`BPF_BASE_CFLAGS`).
    pub base: Option<String>,
    /// Searched before the bundled headers (`BPF_EXTRA_CFLAGS_PRE_INCL`).
    pub pre_incl: Option<String>,
    /// Searched after the bundled headers (`BPF_EXTRA_CFLAGS_POST_INCL`).
    pub post_incl: Option<String>,
}

pub open spec fn opt_view(o: Option<String>) -> Option<Seq<char>> {
    match o {
        Some(s) => Some(s@),
        None => None,
    }
}

pub open spec fn opt_tokens(o: Option<Seq<char>>) -> Seq<Seq<char>> {
    match o {
        Some(s) => whitespace_tokens(s),
        None => Seq::empty(),
    }
}

/// Where the header bundle is installed under the build's output directory.
pub open spec fn bundle_path(out_dir: Seq<char>) -> Seq<char> {
    join_path(out_dir, "scx_utils-bpf_h"@)
}

/// The three bundled include paths: architecture specific, the bundle root,
/// and the compatibility headers, in this order.
pub open spec fn bundled_includes(bundle: Seq<char>, target: Seq<char>) -> Seq<Seq<char>> {
    seq![
        "-I"@ + bundle + "/arch/"@ + target,
        "-I"@ + bundle,
        "-I"@ + bundle + "/bpf-compat"@,
    ]
}

/// The base flags: the override if set, else the toolchain's baseline.
pub open spec fn base_flags(baseline: Seq<Seq<char>>, base: Option<Seq<char>>) -> Seq<Seq<char>> {
    match base {
        Some(b) => whitespace_tokens(b),
        None => baseline,
    }
}

/// Base flags, then the pre-include overrides, the bundled include paths,
/// and the post-include overrides.
pub open spec fn layered_flags(tc: ToolchainInfo, out_dir: Seq<char>, ov: FlagOverrides) -> Seq<Seq<char>> {
    base_flags(views(tc.baseline_flags@), opt_view(ov.base)) + opt_tokens(opt_view(ov.pre_incl))
        + bundled_includes(bundle_path(out_dir), tc.kernel_target@) + opt_tokens(opt_view(ov.post_incl))
}

/// The full override if set, else the layered flags.
pub open spec fn resolved_flags(tc: ToolchainInfo, out_dir: Seq<char>, ov: FlagOverrides) -> Seq<Seq<char>> {
    match ov.full {
        Some(f) => whitespace_tokens(f@),
        None => layered_flags(tc, out_dir, ov),
    }
}

/// Appends `src` to `dst`.
fn append_strings(dst: &mut Vec<String>, src: Vec<String>)
    ensures
        views(final(dst)@) == views(old(dst)@) + views(src@),
{
    let ghost s0 = src@;
    let mut src = src;
    dst.append(&mut src);
    assert(views(dst@) =~= views(old(dst)@) + views(s0));
}

fn optional_tokens(o: &Option<String>) -> (r: Vec<String>)
    ensures
        views(r@) == opt_tokens(opt_view(*o)),
{
    match o {
        Some(s) => split_flags(s.as_str()),
        None => {
            let r: Vec<String> = Vec::new();
            assert(views(r@) =~= Seq::<Seq<char>>::empty());
            r
        },
    }
}

/// The directory the header bundle is installed in.
pub fn bundle_dir(out_dir: &str) -> (r: String)
    ensures
        r@ == bundle_path(out_dir@),
{
    join(out_dir, "scx_utils-bpf_h")
}

/// A copy of `v`.
pub fn copy_strings(v: &Vec<String>) -> (r: Vec<String>)
    ensures
        views(r@) == views(v@),
{
    let mut r: Vec<String> = Vec::new();
    let mut i: usize = 0;
    while i < v.len()
        invariant
            i <= v@.len(),
            r@.len() == i,
            views(r@) == views(v@).take(i as int),
        decreases v@.len() - i,
    {
        let c = v[i].clone();
        r.push(c);
        assert(views(r@) =~= views(v@).take(i + 1));
        i = i + 1;
    }
    assert(views(v@).take(i as int) =~= views(v@));
    r
}

/// The layered flags for the bundle installed under `out_dir`.
pub fn determine_cflags(tc: &ToolchainInfo, out_dir: &str, ov: &FlagOverrides) -> (r: Vec<String>)
    ensures
        views(r@) == layered_flags(*tc, out_dir@, *ov),
{
    let bpf_h = bundle_dir(out_dir);
    let mut cflags = match &ov.base {
        Some(b) => split_flags(b.as_str()),
        None => copy_strings(&tc.baseline_flags),
    };
    append_strings(&mut cflags, optional_tokens(&ov.pre_incl));

    let mut arch = concat("-I", bpf_h.as_str());
    arch.append("/arch/");
    arch.append(tc.kernel_target.as_str());
    let root = concat("-I", bpf_h.as_str());
    let mut compat = concat("-I", bpf_h.as_str());
    compat.append("/bpf-compat");
    let mut incl: Vec<String> = Vec::new();
    incl.push(arch);
    incl.push(root);
    incl.push(compat);
    assert(views(incl@) =~= bundled_includes(bpf_h@, tc.kernel_target@));
    append_strings(&mut cflags, incl);

    append_strings(&mut cflags, optional_tokens(&ov.post_incl));
    cflags
}

/// The flags every compilation uses.
pub fn resolve_cflags(tc: &ToolchainInfo, out_dir: &str, ov: &FlagOverrides) -> (r: Vec<String>)
    ensures
        views(r@) == resolved_flags(*tc, out_dir@, *ov),
{
    match &ov.full {
        Some(f) => split_flags(f.as_str()),
        None => determine_cflags(tc, out_dir, ov),
    }
}

/// The pre-include overrides come right after the base flags, the three
/// bundled include paths follow in their fixed order, and the post-include
/// overrides close the list.
pub proof fn lemma_flag_order(tc: ToolchainInfo, out_dir: Seq<char>, ov: FlagOverrides)
    requires
        ov.full is None,
    ensures
        ({
            let r = resolved_flags(tc, out_dir, ov);
            let b = base_flags(views(tc.baseline_flags@), opt_view(ov.base)).len() as int;
            let pre = opt_tokens(opt_view(ov.pre_incl));
            let post = opt_tokens(opt_view(ov.post_incl));
            let bundle = bundle_path(out_dir);
            let p = b + pre.len() as int;
            &&& r.len() == p + 3 + post.len()
            &&& r.subrange(b, p) == pre
            &&& r[p] == "-I"@ + bundle + "/arch/"@ + tc.kernel_target@
            &&& r[p + 1] == "-I"@ + bundle
            &&& r[p + 2] == "-I"@ + bundle + "/bpf-compat"@
            &&& r.subrange(p + 3, r.len() as int) == post
        }),
{
    let r = resolved_flags(tc, out_dir, ov);
    let b = base_flags(views(tc.baseline_flags@), opt_view(ov.base)).len() as int;
    let pre = opt_tokens(opt_view(ov.pre_incl));
    let post = opt_tokens(opt_view(ov.post_incl));
    let p = b + pre.len() as int;
    assert(r.subrange(b, p) =~= pre);
    assert(r.subrange(p + 3, r.len() as int) =~= post);
}

/// With the full override set, the flags are exactly its tokens, whatever
/// the other overrides hold.
pub proof fn lemma_full_override(tc: ToolchainInfo, out_dir: Seq<char>, ov: FlagOverrides, f: String)
    requires
        ov.full == Some(f),
    ensures
        resolved_flags(tc, out_dir, ov) == whitespace_tokens(f@),
{
}

} // verus!
