//! The builder: which bindings to generate from which sources, and the plan
//! of compiler, linker and generator runs that follows from it.
use vstd::prelude::*;
use vstd::string::*;
use crate::flags::{copy_strings, resolve_cflags, resolved_flags, FlagOverrides, ToolchainInfo};
use crate::paths::{
    base_name, concat, decimal, decimal_of, file_name, join, join_path, lemma_decimal_digits,
    lemma_decimal_injective, parent, parent_dir,
};
use crate::strset::{views, SourceSet};

verus! {

/// The configuration of one BPF build: the compiler, the resolved flags,
/// the output directory, the registered sources, and the optional binding
/// targets.
pub struct BpfBuilder {
    /// The clang command.
    pub clang: String,
    /// The flags every compilation uses.
    pub cflags: Vec<String>,
    /// Where every artifact is written.
    pub out_dir: String,
    /// The sources to compile, in increasing order.
    pub sources: SourceSet,
    /// The header to generate data-layout bindings from, and the file name
    /// of the bindings.
    pub intf_input_output: Option<(String, String)>,
    /// The source of the program skeleton, and the skeleton's name.
    pub skel_input_name: Option<(String, String)>,
}

/// The data-layout binding run.
pub struct IntfJob {
    /// The flags handed to clang by the binding generator.
    pub clang_args: Vec<String>,
    /// The header the bindings are generated from.
    pub header: String,
    /// The file the bindings are written to.
    pub output: String,
}

/// The compilation of one source into an object.
pub struct CompileUnit {
    pub source: String,
    pub obj: String,
}

/// The compile, link and skeleton generation runs of a build that links
/// every registered source into one object.
pub struct LinkJob {
    /// One compilation per registered source, in increasing source order.
    pub units: Vec<CompileUnit>,
    /// The linked object.
    pub link_obj: String,
    /// The skeleton bindings generated from the linked object.
    pub skel_path: String,
}

/// The run that compiles the skeleton's source and generates its bindings.
pub struct SkelJob {
    pub source: String,
    pub obj: String,
    pub skel_path: String,
}

/// The ways dependency discovery fails.
#[derive(Debug, PartialEq, Eq, Structural)]
pub enum BuildError {
    /// A registered source path is empty, so it has no directory to scan.
    NoParentDir,
}

/// A build: the binding runs to make, and the dependencies known before
/// any directory is scanned.
pub struct BuildPlan {
    pub intf: Option<IntfJob>,
    pub skel: Option<SkelJob>,
    pub deps: SourceSet,
}

/// The flags that the binding generator hands to clang.
pub open spec fn intf_clang_args(cflags: Seq<Seq<char>>) -> Seq<Seq<char>> {
    cflags + seq!["-target"@, "bpf"@]
}

/// The object a skeleton named `name` is compiled or linked into.
pub open spec fn skel_obj_path(out_dir: Seq<char>, name: Seq<char>) -> Seq<char> {
    join_path(out_dir, name + ".bpf.o"@)
}

/// The skeleton bindings of a skeleton named `name`.
pub open spec fn skel_rs_path(out_dir: Seq<char>, name: Seq<char>) -> Seq<char> {
    join_path(out_dir, name + "_skel.rs"@)
}

/// The object the source at position `k` of the sorted sources is compiled
/// into before linking: the position in decimal, a `-`, and the source's
/// file name. The position keeps the objects of distinct sources apart.
pub open spec fn unit_obj_path(out_dir: Seq<char>, k: nat, source: Seq<char>) -> Seq<char> {
    join_path(out_dir, unit_obj_name(k, source))
}

pub open spec fn unit_obj_name(k: nat, source: Seq<char>) -> Seq<char> {
    decimal_of(k) + seq!['-'] + base_name(source) + ".o"@
}

/// Sources at distinct positions are compiled into distinct objects.
pub proof fn lemma_unit_objs_distinct(out_dir: Seq<char>, i: nat, j: nat, si: Seq<char>, sj: Seq<char>)
    requires
        i != j,
    ensures
        unit_obj_path(out_dir, i, si) != unit_obj_path(out_dir, j, sj),
{
    let a = unit_obj_name(i, si);
    let b = unit_obj_name(j, sj);
    let di = decimal_of(i);
    let dj = decimal_of(j);
    lemma_decimal_digits(i);
    lemma_decimal_digits(j);
    assert(a[0] == di[0]);
    assert(b[0] == dj[0]);
    if unit_obj_path(out_dir, i, si) == unit_obj_path(out_dir, j, sj) {
        let pre = if out_dir.len() == 0 || out_dir.last() == '/' { out_dir } else { out_dir + seq!['/'] };
        assert(unit_obj_path(out_dir, i, si) =~= pre + a);
        assert(unit_obj_path(out_dir, j, sj) =~= pre + b);
        assert(a =~= (pre + a).subrange(pre.len() as int, (pre + a).len() as int));
        assert(b =~= (pre + b).subrange(pre.len() as int, (pre + b).len() as int));
        assert(a == b);
        if di.len() == dj.len() {
            assert(di =~= a.subrange(0, di.len() as int));
            assert(dj =~= b.subrange(0, dj.len() as int));
            lemma_decimal_injective(i, j);
        } else if di.len() < dj.len() {
            assert(a[di.len() as int] == '-');
            assert(b[di.len() as int] == dj[di.len() as int]);
        } else {
            assert(b[dj.len() as int] == '-');
            assert(a[dj.len() as int] == di[dj.len() as int]);
        }
    }
}

/// The pattern of the headers and C sources beside `source`.
pub open spec fn dep_pattern(source: Seq<char>) -> Seq<char> {
    join_path(parent_dir(source), "*.[hc]"@)
}

/// The environment variables whose change invalidates a build.
pub open spec fn env_directives() -> Seq<Seq<char>> {
    seq![
        "cargo:rerun-if-env-changed=BPF_CLANG"@,
        "cargo:rerun-if-env-changed=BPF_CFLAGS"@,
        "cargo:rerun-if-env-changed=BPF_BASE_CFLAGS"@,
        "cargo:rerun-if-env-changed=BPF_EXTRA_CFLAGS_PRE_INCL"@,
        "cargo:rerun-if-env-changed=BPF_EXTRA_CFLAGS_POST_INCL"@,
    ]
}

pub open spec fn changed_directive(path: Seq<char>) -> Seq<char> {
    "cargo:rerun-if-changed="@ + path
}

pub open spec fn changed_directives(paths: Seq<Seq<char>>) -> Seq<Seq<char>> {
    paths.map_values(|p: Seq<char>| changed_directive(p))
}

impl IntfJob {
    pub open spec fn describes(&self, b: &BpfBuilder, input: Seq<char>, output: Seq<char>) -> bool {
        &&& views(self.clang_args@) == intf_clang_args(views(b.cflags@))
        &&& self.header@ == input
        &&& self.output@ == join_path(b.out_dir@, output)
    }
}

impl SkelJob {
    pub open spec fn describes(&self, b: &BpfBuilder, input: Seq<char>, name: Seq<char>) -> bool {
        &&& self.source@ == input
        &&& self.obj@ == skel_obj_path(b.out_dir@, name)
        &&& self.skel_path@ == skel_rs_path(b.out_dir@, name)
    }
}

impl BpfBuilder {
    pub open spec fn wf(&self) -> bool {
        self.sources.wf()
    }

    /// The data-layout binding run, if that path is enabled.
    pub open spec fn intf_spec(&self, j: Option<IntfJob>) -> bool {
        match self.intf_input_output {
            None => j is None,
            Some((i, o)) => j matches Some(job) && job.describes(self, i@, o@),
        }
    }

    /// The skeleton run, if that path is enabled.
    pub open spec fn skel_spec(&self, j: Option<SkelJob>) -> bool {
        match self.skel_input_name {
            None => j is None,
            Some((i, n)) => j matches Some(job) && job.describes(self, i@, n@),
        }
    }

    /// A builder with the flags resolved for `tc` and `out_dir` under the
    /// overrides `ov`, no sources and no binding enabled.
    pub fn new(tc: ToolchainInfo, out_dir: String, ov: &FlagOverrides) -> (r: BpfBuilder)
        ensures
            r.wf(),
            r.clang@ == tc.compiler_path@,
            views(r.cflags@) == resolved_flags(tc, out_dir@, *ov),
            r.out_dir@ == out_dir@,
            r.sources@ == Seq::<Seq<char>>::empty(),
            r.intf_input_output is None,
            r.skel_input_name is None,
    {
        let cflags = resolve_cflags(&tc, out_dir.as_str(), ov);
        BpfBuilder {
            clang: tc.compiler_path,
            cflags,
            out_dir,
            sources: SourceSet::new(),
            intf_input_output: None,
            skel_input_name: None,
        }
    }

    /// Enables data-layout bindings generated from the header `input` into
    /// the file `output` of the output directory.
    pub fn enable_intf(&mut self, input: &str, output: &str)
        ensures
            final(self).intf_input_output matches Some((i, o)) && i@ == input@ && o@ == output@,
            final(self).clang == old(self).clang,
            final(self).cflags == old(self).cflags,
            final(self).out_dir == old(self).out_dir,
            final(self).sources == old(self).sources,
            final(self).skel_input_name == old(self).skel_input_name,
    {
        self.intf_input_output = Some((String::from_str(input), String::from_str(output)));
    }

    /// Enables compilation of the source `input` and generation of a
    /// skeleton named `name`; `input` is registered as a source.
    pub fn enable_skel(&mut self, input: &str, name: &str)
        requires
            old(self).wf(),
        ensures
            final(self).wf(),
            final(self).skel_input_name matches Some((i, n)) && i@ == input@ && n@ == name@,
            forall|y: Seq<char>| #[trigger] final(self).sources@.contains(y)
                <==> (old(self).sources@.contains(y) || y == input@),
            final(self).clang == old(self).clang,
            final(self).cflags == old(self).cflags,
            final(self).out_dir == old(self).out_dir,
            final(self).intf_input_output == old(self).intf_input_output,
    {
        self.skel_input_name = Some((String::from_str(input), String::from_str(name)));
        self.sources.insert(input);
    }

    /// Registers one more source to compile.
    pub fn add_source(&mut self, input: &str)
        requires
            old(self).wf(),
        ensures
            final(self).wf(),
            forall|y: Seq<char>| #[trigger] final(self).sources@.contains(y)
                <==> (old(self).sources@.contains(y) || y == input@),
            final(self).clang == old(self).clang,
            final(self).cflags == old(self).cflags,
            final(self).out_dir == old(self).out_dir,
            final(self).intf_input_output == old(self).intf_input_output,
            final(self).skel_input_name == old(self).skel_input_name,
    {
        self.sources.insert(input);
    }

    /// Adds the data-layout binding's input header, if that path is
    /// enabled, to `deps`.
    pub fn input_insert_deps(&self, deps: &mut SourceSet)
        requires
            old(deps).wf(),
        ensures
            final(deps).wf(),
            forall|y: Seq<char>| #[trigger] final(deps)@.contains(y) <==> (old(deps)@.contains(y) || (
                self.intf_input_output matches Some((i, o)) && y == i@)),
    {
        let (input, _) = match &self.intf_input_output {
            Some(pair) => pair,
            None => return,
        };
        deps.insert(input.as_str());
    }

    /// The data-layout binding run: the resolved flags with the BPF target
    /// added, the input header, and the output file under the output
    /// directory. `None` when that path is not enabled.
    pub fn bindgen_bpf_intf(&self) -> (r: Option<IntfJob>)
        ensures
            self.intf_spec(r),
    {
        let (input, output) = match &self.intf_input_output {
            Some(pair) => pair,
            None => return None,
        };
        let mut clang_args = copy_strings(&self.cflags);
        clang_args.push(String::from_str("-target"));
        clang_args.push(String::from_str("bpf"));
        assert(views(clang_args@) =~= intf_clang_args(views(self.cflags@)));
        Some(IntfJob {
            clang_args,
            header: input.clone(),
            output: join(self.out_dir.as_str(), output.as_str()),
        })
    }

    /// The compile, link and skeleton runs that build every registered
    /// source into one linked object: one compilation per source, in
    /// increasing order, the linked object named after the skeleton, and
    /// the skeleton bindings generated from it. `None` when the skeleton
    /// path is not enabled.
    pub fn compile_link_gen(&self) -> (r: Option<LinkJob>)
        requires
            self.wf(),
        ensures
            match self.skel_input_name {
                None => r is None,
                Some((_, n)) => r matches Some(job) && {
                    &&& job.link_obj@ == skel_obj_path(self.out_dir@, n@)
                    &&& job.skel_path@ == skel_rs_path(self.out_dir@, n@)
                    &&& job.units@.len() == self.sources@.len()
                    &&& forall|k: int| 0 <= k < job.units@.len() ==> {
                        &&& (#[trigger] job.units@[k]).source@ == self.sources@[k]
                        &&& job.units@[k].obj@ == unit_obj_path(self.out_dir@, k as nat, self.sources@[k])
                    }
                    &&& forall|i: int, j: int| 0 <= i < j < job.units@.len()
                        ==> #[trigger] job.units@[i].obj@ != #[trigger] job.units@[j].obj@
                },
            },
    {
        let (_, name) = match &self.skel_input_name {
            Some(pair) => pair,
            None => return None,
        };
        let out = self.out_dir.as_str();
        let link_obj = join(out, concat(name.as_str(), ".bpf.o").as_str());
        let skel_path = join(out, concat(name.as_str(), "_skel.rs").as_str());
        let mut units: Vec<CompileUnit> = Vec::new();
        let n = self.sources.len();
        let mut k: usize = 0;
        while k < n
            invariant
                n == self.sources@.len(),
                out@ == self.out_dir@,
                k <= n,
                units@.len() == k,
                forall|j: int| 0 <= j < k ==> {
                    &&& (#[trigger] units@[j]).source@ == self.sources@[j]
                    &&& units@[j].obj@ == unit_obj_path(self.out_dir@, j as nat, self.sources@[j])
                },
            decreases n - k,
        {
            let source = self.sources.get(k);
            let base = file_name(source.as_str());
            let mut obj_name = decimal(k);
            obj_name.append("-");
            obj_name.append(base.as_str());
            obj_name.append(".o");
            proof { reveal_strlit("-"); }
            assert(obj_name@ =~= unit_obj_name(k as nat, self.sources@[k as int]));
            let obj = join(out, obj_name.as_str());
            let unit = CompileUnit { source: source.clone(), obj };
            assert(unit.source@ == self.sources@[k as int]);
            assert(unit.obj@ == unit_obj_path(self.out_dir@, k as nat, self.sources@[k as int]));
            units.push(unit);
            assert(units@[k as int] == unit);
            k = k + 1;
        }
        assert forall|i: int, j: int| 0 <= i < j < units@.len()
            implies #[trigger] units@[i].obj@ != #[trigger] units@[j].obj@ by {
            lemma_unit_objs_distinct(self.out_dir@, i as nat, j as nat, self.sources@[i], self.sources@[j]);
        }
        Some(LinkJob { units, link_obj, skel_path })
    }

    /// The run that compiles the skeleton's source and generates its
    /// bindings, or `None` when the skeleton path is not enabled.
    pub fn gen_bpf_skel(&self) -> (r: Option<SkelJob>)
        ensures
            self.skel_spec(r),
    {
        let (input, name) = match &self.skel_input_name {
            Some(pair) => pair,
            None => return None,
        };
        let out = self.out_dir.as_str();
        Some(SkelJob {
            source: input.clone(),
            obj: join(out, concat(name.as_str(), ".bpf.o").as_str()),
            skel_path: join(out, concat(name.as_str(), "_skel.rs").as_str()),
        })
    }

    /// The glob patterns of the headers and C sources beside each
    /// registered source, in source order. Fails when a registered source is
    /// empty, having no directory.
    pub fn dep_patterns(&self) -> (r: Result<Vec<String>, BuildError>)
        requires
            self.wf(),
        ensures
            r is Err <==> self.sources@.contains(Seq::<char>::empty()),
            r matches Err(e) ==> e == BuildError::NoParentDir,
            r matches Ok(p) ==> views(p@) == self.sources@.map_values(|s: Seq<char>| dep_pattern(s)),
    {
        let mut pats: Vec<String> = Vec::new();
        let n = self.sources.len();
        let mut k: usize = 0;
        while k < n
            invariant
                n == self.sources@.len(),
                k <= n,
                pats@.len() == k,
                forall|j: int| 0 <= j < k ==> self.sources@[j].len() > 0,
                views(pats@) == self.sources@.map_values(|s: Seq<char>| dep_pattern(s)).take(k as int),
            decreases n - k,
        {
            let source = self.sources.get(k);
            if source.as_str().unicode_len() == 0 {
                assert(self.sources@[k as int] =~= Seq::<char>::empty());
                assert(self.sources@.contains(Seq::<char>::empty()));
                return Err(BuildError::NoParentDir);
            }
            let dir = parent(source.as_str());
            pats.push(join(dir.as_str(), "*.[hc]"));
            assert(views(pats@) =~= self.sources@.map_values(|s: Seq<char>| dep_pattern(s)).take(k + 1));
            k = k + 1;
        }
        assert(self.sources@.map_values(|s: Seq<char>| dep_pattern(s)).take(k as int)
            =~= self.sources@.map_values(|s: Seq<char>| dep_pattern(s)));
        proof {
            if self.sources@.contains(Seq::<char>::empty()) {
                let j = choose|j: int| 0 <= j < self.sources@.len() && self.sources@[j] == Seq::<char>::empty();
                assert(self.sources@[j].len() > 0);
            }
        }
        Ok(pats)
    }

    /// The directives that tell the host build system when to rebuild: the
    /// five flag environment variables, then each path of `deps`, then each
    /// registered source.
    pub fn gen_cargo_reruns(&self, deps: &SourceSet) -> (r: Vec<String>)
        ensures
            views(r@) == env_directives() + changed_directives(deps@) + changed_directives(self.sources@),
    {
        let mut r: Vec<String> = Vec::new();
        r.push(String::from_str("cargo:rerun-if-env-changed=BPF_CLANG"));
        r.push(String::from_str("cargo:rerun-if-env-changed=BPF_CFLAGS"));
        r.push(String::from_str("cargo:rerun-if-env-changed=BPF_BASE_CFLAGS"));
        r.push(String::from_str("cargo:rerun-if-env-changed=BPF_EXTRA_CFLAGS_PRE_INCL"));
        r.push(String::from_str("cargo:rerun-if-env-changed=BPF_EXTRA_CFLAGS_POST_INCL"));
        assert(views(r@) =~= env_directives());
        push_changed(&mut r, deps);
        push_changed(&mut r, &self.sources);
        r
    }

    /// The build: the data-layout binding run and the skeleton run, each
    /// present exactly when its path is enabled, and the dependencies known
    /// before scanning, which are the data-layout binding's input header if
    /// that path is enabled.
    pub fn build(&self) -> (r: BuildPlan)
        ensures
            self.intf_spec(r.intf),
            self.skel_spec(r.skel),
            r.deps.wf(),
            forall|y: Seq<char>| #[trigger] r.deps@.contains(y) <==> (
                self.intf_input_output matches Some((i, o)) && y == i@),
    {
        let mut deps = SourceSet::new();
        self.input_insert_deps(&mut deps);
        BuildPlan { intf: self.bindgen_bpf_intf(), skel: self.gen_bpf_skel(), deps }
    }
}

/// With neither binding path enabled, a build runs no binding generator
/// and no compilation, and knows no dependency before scanning.
pub proof fn lemma_nothing_enabled(
    b: BpfBuilder,
    intf: Option<IntfJob>,
    skel: Option<SkelJob>,
    deps: Seq<Seq<char>>,
)
    requires
        b.intf_input_output is None,
        b.skel_input_name is None,
        b.intf_spec(intf),
        b.skel_spec(skel),
        forall|y: Seq<char>| #[trigger] deps.contains(y) <==> (
            b.intf_input_output matches Some((i, o)) && y == i@),
    ensures
        intf is None,
        skel is None,
        deps.len() == 0,
{
    if deps.len() > 0 {
        assert(deps.contains(deps[0]));
    }
}

/// The directory of every registered source is scanned: the pattern of the headers and C sources beside it is
/// among the build's patterns.
pub proof fn lemma_every_source_scanned(b: BpfBuilder, pats: Seq<Seq<char>>, source: Seq<char>)
    requires
        pats == b.sources@.map_values(|s: Seq<char>| dep_pattern(s)),
        b.sources@.contains(source),
    ensures
        pats.contains(dep_pattern(source)),
{
    let k = choose|k: int| 0 <= k < b.sources@.len() && b.sources@[k] == source;
    assert(pats[k] == dep_pattern(source));
}

/// Appends a rerun directive for each path of `paths`.
fn push_changed(r: &mut Vec<String>, paths: &SourceSet)
    ensures
        views(final(r)@) == views(old(r)@) + changed_directives(paths@),
{
    let n = paths.len();
    let mut k: usize = 0;
    while k < n
        invariant
            n == paths@.len(),
            k <= n,
            r@.len() == old(r)@.len() + k,
            views(r@) == views(old(r)@) + changed_directives(paths@).take(k as int),
        decreases n - k,
    {
        let d = concat("cargo:rerun-if-changed=", paths.get(k).as_str());
        assert(d@ == changed_directive(paths@[k as int]));
        let ghost prev = views(r@);
        r.push(d);
        assert(views(r@) =~= prev.push(d@));
        assert(views(r@)[old(r)@.len() + k] == changed_directives(paths@)[k as int]);
        assert(views(r@) =~= views(old(r)@) + changed_directives(paths@).take(k + 1));
        k = k + 1;
    }
    assert(changed_directives(paths@).take(k as int) =~= changed_directives(paths@));
}

} // verus!
