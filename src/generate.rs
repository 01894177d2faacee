//! The generation engine: run configuration, what the parsing backend is
//! handed for each binding spec, and every file the run writes.
use vstd::prelude::*;
use crate::artifacts::{copy_ops, ops_view, plan_copy, CopyOp, OpView, SourceKind};
use crate::index::{index_source, index_text};
use crate::normalize::{normalize_bindings, normalized, single_newline, terminate, terminated,
    with_single_newline};
use crate::registry::{Artifact, BindingSpec};
use crate::text::{
    chars_of, concat, join, join_path, lower, owned, push_string, push_strings, starts_with,
    strs, to_lower, trim, trim_bounds,
};

verus! {

/// The configuration of one run.
pub struct Options {
    /// Root of the generated tree.
    pub out_dir: String,
    /// Root of the vendor source tree.
    pub sources_dir: String,
    /// Target triple the bindings are laid out for.
    pub target_triple: String,
}

/// A generation run over one configuration.
pub struct Gen {
    pub opts: Options,
}

/// A file to write, with its full contents.
pub struct FileWrite {
    pub path: String,
    pub contents: String,
}

/// What the parsing backend is handed for one binding spec.
pub struct BackendInvocation {
    /// The header to parse.
    pub header: String,
    /// Compiler flags, in order.
    pub clang_args: Vec<String>,
    /// Patterns each applied to types, variables and functions alike; empty
    /// to emit everything.
    pub allowlist: Vec<String>,
}

/// Why a run stops.
pub enum GenError {
    /// The backend could not generate the bindings of `module`.
    Backend { module: String, detail: String },
    /// An artifact source of `module` is neither a file nor a directory.
    MissingArtifact { module: String, path: String },
}

/// The diagnostic for `e`.
pub open spec fn error_text(e: GenError) -> Seq<char> {
    match e {
        GenError::Backend { module, detail } => "Unable to generate bindings for "@ + module@ + ": "@
            + detail@,
        GenError::MissingArtifact { module, path } => "Artifact source "@ + path@ + " of module "@
            + module@ + " is neither file nor directory"@,
    }
}

impl GenError {
    /// The diagnostic for this error.
    pub fn message(&self) -> (r: String)
        ensures
            r@ == error_text(*self),
    {
        match self {
            GenError::Backend { module, detail } => {
                let a = concat("Unable to generate bindings for ", module.as_str());
                let b = concat(a.as_str(), ": ");
                concat(b.as_str(), detail.as_str())
            },
            GenError::MissingArtifact { module, path } => {
                let a = concat("Artifact source ", path.as_str());
                let b = concat(a.as_str(), " of module ");
                let c = concat(b.as_str(), module.as_str());
                concat(c.as_str(), " is neither file nor directory")
            },
        }
    }
}

/// Whether the triple, trimmed and in lower case, names a Thumb target.
pub open spec fn is_thumb(triple: Seq<char>) -> bool {
    starts_with(lower(trim(triple)), "thumb"@)
}

/// The extra system header path derived from the platform SDK root that the
/// host reported, if it reported a non-blank one.
pub open spec fn host_args(sdk_path: Option<String>) -> Seq<Seq<char>> {
    match sdk_path {
        Some(p) => if trim(p@).len() > 0 {
            seq!["-isystem"@ + trim(p@) + "/usr/include"@]
        } else {
            Seq::empty()
        },
        None => Seq::empty(),
    }
}

/// One `-I` flag per search path, each resolved under `sources`.
pub open spec fn include_flags(sources: Seq<char>, dirs: Seq<Seq<char>>) -> Seq<Seq<char>> {
    dirs.map_values(|d: Seq<char>| "-I"@ + join_path(sources, d))
}

/// The backend's compiler flags for `spec`: the target, the host's system
/// paths, the shared local headers, Thumb mode where the target asks for it,
/// the resolved search paths, and the spec's own flags last.
pub open spec fn invocation_args(
    opts: Options,
    spec: BindingSpec,
    host: Seq<Seq<char>>,
    quote_dir: Seq<char>,
) -> Seq<Seq<char>> {
    seq!["--target="@ + opts.target_triple@] + host + seq!["-iquote"@ + quote_dir] + (if is_thumb(
        opts.target_triple@,
    ) {
        seq!["-mthumb"@]
    } else {
        Seq::empty()
    }) + include_flags(opts.sources_dir@, strs(spec.include_dirs@)) + strs(spec.clang_args@)
}

/// Where the bindings of `module` are written.
pub open spec fn bindings_path(out: Seq<char>, module: Seq<char>) -> Seq<char> {
    join_path(join_path(out, "src/bindings"@), module + ".rs"@)
}

pub open spec fn artifact_source(opts: Options, a: Artifact) -> Seq<char> {
    join_path(opts.sources_dir@, a.source@)
}

pub open spec fn artifact_destination(opts: Options, a: Artifact) -> Seq<char> {
    join_path(opts.out_dir@, a.destination@)
}

/// The copy operations for the first artifacts, in order.
pub open spec fn artifacts_plan(opts: Options, arts: Seq<Artifact>, kinds: Seq<SourceKind>) -> Seq<
    OpView,
>
    decreases arts.len(),
{
    if arts.len() == 0 || kinds.len() != arts.len() {
        Seq::empty()
    } else {
        artifacts_plan(opts, arts.drop_last(), kinds.drop_last()) + copy_ops(
            artifact_source(opts, arts.last()),
            artifact_destination(opts, arts.last()),
            kinds.last(),
        )
    }
}

/// `e` reports that the artifact source `path` of `module` is missing.
pub open spec fn is_missing_error(e: GenError, module: Seq<char>, path: Seq<char>) -> bool {
    match e {
        GenError::MissingArtifact { module: m, path: p } => m@ == module && p@ == path,
        _ => false,
    }
}

/// Whether `i` is the first position of a missing source in `kinds`.
pub open spec fn first_missing(kinds: Seq<SourceKind>, i: int) -> bool {
    &&& 0 <= i < kinds.len()
    &&& kinds[i] is Missing
    &&& forall|j: int| 0 <= j < i ==> !(kinds[j] is Missing)
}

pub const README_TEMPLATE: &'static str = "# stm32-bindings\n\nRaw bindings to the STM32 wireless stack and its prebuilt libraries.\n\nEvery file under `src/bindings` is generated; do not edit it by hand.";

pub const MANIFEST_TEMPLATE: &'static str = "[package]\nname = \"stm32-bindings\"\nversion = \"0.1.0\"\nedition = \"2021\"\nlinks = \"wba_mac_lib\"\n\n[features]\ndefault = []\nwba_mac = []";

pub const BUILD_SCRIPT_TEMPLATE: &'static str = "use std::env;\nuse std::path::PathBuf;\n\nfn main() {\n    let crate_dir = PathBuf::from(env::var_os(\"CARGO_MANIFEST_DIR\").unwrap());\n\n    println!(\n        \"cargo:rustc-link-search=native={}\",\n        crate_dir.join(\"src\").join(\"lib\").to_str().unwrap()\n    );\n    println!(\"cargo:rustc-link-lib=wba_mac_lib\");\n}";

pub const LIB_TEMPLATE: &'static str = "#![no_std]\n#![allow(non_camel_case_types)]\n#![allow(non_snake_case)]\n#![allow(non_upper_case_globals)]\n#![allow(dead_code)]\n\npub mod bindings;";

/// The fixed template files: relative path and contents.
pub open spec fn static_files() -> Seq<(Seq<char>, Seq<char>)> {
    seq![
        ("README.md"@, README_TEMPLATE@),
        ("Cargo.toml"@, MANIFEST_TEMPLATE@),
        ("build.rs"@, BUILD_SCRIPT_TEMPLATE@),
        ("src/lib.rs"@, LIB_TEMPLATE@),
    ]
}

/// The extra system header flags for the SDK root the host reported, if any.
pub fn host_isystem_args(sdk_path: Option<String>) -> (r: Vec<String>)
    ensures
        strs(r@) == host_args(sdk_path),
{
    let mut args: Vec<String> = Vec::new();
    match sdk_path {
        Some(p) => {
            let v = chars_of(p.as_str());
            let (a, b) = trim_bounds(&v, 0, v.len());
            assert(v@.subrange(0, v@.len() as int) == v@);
            if a < b {
                let mut flag = owned("-isystem");
                crate::text::push_range(&mut flag, &v, a, b);
                crate::text::push_str(&mut flag, "/usr/include");
                push_string(&mut args, flag);
                assert(strs(args@) =~= host_args(sdk_path));
            } else {
                assert(strs(args@) =~= host_args(sdk_path));
            }
        },
        None => {
            assert(strs(args@) =~= host_args(sdk_path));
        },
    }
    args
}

impl Gen {
    pub fn new(opts: Options) -> (r: Gen)
        ensures
            r.opts == opts,
    {
        Gen { opts }
    }

    /// Whether `triple` selects a Thumb target.
    pub fn is_thumb_target(triple: &str) -> (r: bool)
        ensures
            r == is_thumb(triple@),
    {
        let v = chars_of(triple);
        let (a, b) = trim_bounds(&v, 0, v.len());
        assert(v@.subrange(0, v@.len() as int) == v@);
        let ghost t = v@.subrange(a as int, b as int);
        let p = chars_of("thumb");
        assert(lower(t).len() == t.len());
        assert(trim(triple@) == t);
        if b - a < p.len() {
            assert(!starts_with(lower(t), "thumb"@));
            return false;
        }
        let mut k: usize = 0;
        while k < p.len()
            invariant
                a + p@.len() <= b <= v@.len(),
                t == v@.subrange(a as int, b as int),
                trim(triple@) == t,
                p@ == "thumb"@,
                k <= p@.len(),
                forall|j: int| 0 <= j < k ==> lower(t)[j] == p@[j],
            decreases p@.len() - k,
        {
            if to_lower(v[a + k]) != p[k] {
                assert(lower(t).take(p@.len() as int)[k as int] != p@[k as int]);
                return false;
            }
            k = k + 1;
        }
        assert(lower(t).take(p@.len() as int) =~= p@);
        true
    }

    /// What the backend is handed for `spec`, given the host's extra system
    /// header flags and the directory of the shared local headers.
    pub fn backend_invocation(
        &self,
        spec: &BindingSpec,
        host_args: &Vec<String>,
        quote_dir: &str,
    ) -> (r: BackendInvocation)
        ensures
            r.header@ == join_path(self.opts.sources_dir@, spec.header@),
            strs(r.clang_args@) == invocation_args(self.opts, *spec, strs(host_args@), quote_dir@),
            strs(r.allowlist@) == strs(spec.allowlist@),
    {
        let header = join(self.opts.sources_dir.as_str(), spec.header.as_str());
        let mut args: Vec<String> = Vec::new();
        push_string(&mut args, concat("--target=", self.opts.target_triple.as_str()));
        push_strings(&mut args, host_args);
        push_string(&mut args, concat("-iquote", quote_dir));
        let ghost head = strs(args@);
        if Self::is_thumb_target(self.opts.target_triple.as_str()) {
            push_string(&mut args, owned("-mthumb"));
        } else {
            assert(head + Seq::<Seq<char>>::empty() == head);
        }
        let ghost mid = strs(args@);
        let dirs = &spec.include_dirs;
        let mut i: usize = 0;
        while i < dirs.len()
            invariant
                i <= dirs@.len(),
                strs(args@) == mid + include_flags(
                    self.opts.sources_dir@,
                    strs(dirs@.take(i as int)),
                ),
            decreases dirs@.len() - i,
        {
            let d = join(self.opts.sources_dir.as_str(), dirs[i].as_str());
            push_string(&mut args, concat("-I", d.as_str()));
            assert(include_flags(self.opts.sources_dir@, strs(dirs@.take(i + 1))) =~= include_flags(
                self.opts.sources_dir@,
                strs(dirs@.take(i as int)),
            ).push("-I"@ + join_path(self.opts.sources_dir@, dirs@[i as int]@)));
            i = i + 1;
        }
        assert(dirs@.take(dirs@.len() as int) == dirs@);
        push_strings(&mut args, &spec.clang_args);
        let mut allowlist: Vec<String> = Vec::new();
        push_strings(&mut allowlist, &spec.allowlist);
        assert(strs(allowlist@) =~= strs(spec.allowlist@));
        BackendInvocation { header, clang_args: args, allowlist }
    }

    /// The bindings file of `spec` from the backend's output: normalised and
    /// ending in exactly one newline.
    pub fn bindings_output(&self, spec: &BindingSpec, generated: String) -> (r: FileWrite)
        ensures
            r.path@ == bindings_path(self.opts.out_dir@, spec.module@),
            r.contents@ == single_newline(normalized(generated@)),
    {
        let dir = join(self.opts.out_dir.as_str(), "src/bindings");
        let name = concat(spec.module.as_str(), ".rs");
        let text = normalize_bindings(generated);
        FileWrite { path: join(dir.as_str(), name.as_str()), contents: with_single_newline(text.as_str()) }
    }

    /// `contents` as the file `relative` under the output directory, ending
    /// in a newline.
    pub fn write_string(&self, relative: &str, contents: String) -> (r: FileWrite)
        ensures
            r.path@ == join_path(self.opts.out_dir@, relative@),
            r.contents@ == terminated(contents@),
    {
        FileWrite { path: join(self.opts.out_dir.as_str(), relative), contents: terminate(contents) }
    }

    /// The module index of `specs`.
    pub fn write_bindings_mod(&self, specs: &Vec<BindingSpec>) -> (r: FileWrite)
        ensures
            r.path@ == join_path(self.opts.out_dir@, "src/bindings/mod.rs"@),
            r.contents@ == terminated(index_text(specs@)),
    {
        self.write_string("src/bindings/mod.rs", index_source(specs))
    }

    /// The directories of the output skeleton, created after the output
    /// directory has been removed.
    pub fn prepare_out_dir(&self) -> (r: Vec<String>)
        ensures
            strs(r@) == seq![
                join_path(self.opts.out_dir@, "src/bindings"@),
                join_path(self.opts.out_dir@, "src/lib"@),
            ],
    {
        let mut dirs: Vec<String> = Vec::new();
        push_string(&mut dirs, join(self.opts.out_dir.as_str(), "src/bindings"));
        push_string(&mut dirs, join(self.opts.out_dir.as_str(), "src/lib"));
        assert(strs(dirs@) =~= seq![
            join_path(self.opts.out_dir@, "src/bindings"@),
            join_path(self.opts.out_dir@, "src/lib"@),
        ]);
        dirs
    }

    /// The fixed template files, each under the output directory and ending
    /// in a newline.
    pub fn write_static_files(&self) -> (r: Vec<FileWrite>)
        ensures
            r@.len() == static_files().len(),
            forall|i: int|
                0 <= i < r@.len() ==> r@[i].path@ == join_path(self.opts.out_dir@, static_files()[i].0)
                    && r@[i].contents@ == terminated(static_files()[i].1),
    {
        let mut files: Vec<FileWrite> = Vec::new();
        files.push(self.write_string("README.md", owned(README_TEMPLATE)));
        files.push(self.write_string("Cargo.toml", owned(MANIFEST_TEMPLATE)));
        files.push(self.write_string("build.rs", owned(BUILD_SCRIPT_TEMPLATE)));
        files.push(self.write_string("src/lib.rs", owned(LIB_TEMPLATE)));
        files
    }

    /// The full path of an artifact's source.
    pub fn artifact_source_path(&self, a: &Artifact) -> (r: String)
        ensures
            r@ == artifact_source(self.opts, *a),
    {
        join(self.opts.sources_dir.as_str(), a.source.as_str())
    }

    /// The copy operations for the artifacts of `spec`, given what each
    /// artifact's source turned out to be; the first missing source fails.
    pub fn copy_artifacts_for_spec(&self, spec: &BindingSpec, kinds: &Vec<SourceKind>) -> (r: Result<
        Vec<CopyOp>,
        GenError,
    >)
        requires
            kinds@.len() == spec.library_artifacts@.len(),
        ensures
            match r {
                Ok(ops) => (forall|i: int| 0 <= i < kinds@.len() ==> !(#[trigger] kinds@[i] is Missing))
                    && ops_view(ops@) == artifacts_plan(self.opts, spec.library_artifacts@, kinds@),
                Err(e) => exists|i: int|
                    first_missing(kinds@, i) && i < spec.library_artifacts@.len() && is_missing_error(
                        e,
                        spec.module@,
                        artifact_source(self.opts, #[trigger] spec.library_artifacts@[i]),
                    ),
            },
    {
        let mut ops: Vec<CopyOp> = Vec::new();
        let mut i: usize = 0;
        while i < spec.library_artifacts.len()
            invariant
                i <= spec.library_artifacts@.len(),
                kinds@.len() == spec.library_artifacts@.len(),
                forall|j: int| 0 <= j < i ==> !(#[trigger] kinds@[j] is Missing),
                ops_view(ops@) == artifacts_plan(self.opts, spec.library_artifacts@.take(i as int), kinds@.take(i as int)),
            decreases spec.library_artifacts@.len() - i,
        {
            let src = self.artifact_source_path(&spec.library_artifacts[i]);
            if let SourceKind::Missing = &kinds[i] {
                let e = GenError::MissingArtifact { module: owned(spec.module.as_str()), path: src };
                assert(first_missing(kinds@, i as int));
                assert(is_missing_error(
                    e,
                    spec.module@,
                    artifact_source(self.opts, spec.library_artifacts@[i as int]),
                ));
                return Err(e);
            }
            let dst = join(self.opts.out_dir.as_str(), spec.library_artifacts[i].destination.as_str());
            plan_copy(&mut ops, src.as_str(), dst.as_str(), &kinds[i]);
            assert(spec.library_artifacts@.take(i + 1).drop_last() == spec.library_artifacts@.take(i as int));
            assert(kinds@.take(i + 1).drop_last() == kinds@.take(i as int));
            i = i + 1;
        }
        assert(spec.library_artifacts@.take(spec.library_artifacts@.len() as int) == spec.library_artifacts@);
        assert(kinds@.take(kinds@.len() as int) == kinds@);
        Ok(ops)
    }
}

/// A run that stops on a missing artifact source names that exact path in
/// its diagnostic.
pub proof fn lemma_missing_artifact_names_path(e: GenError, module: Seq<char>, path: Seq<char>)
    requires
        is_missing_error(e, module, path),
    ensures
        exists|k: int|
            0 <= k && k + path.len() <= error_text(e).len() && (#[trigger] error_text(e).subrange(
                k,
                k + path.len(),
            )) == path,
{
    reveal_strlit("Artifact source ");
    let k = "Artifact source "@.len() as int;
    assert(error_text(e).subrange(k, k + path.len()) == path);
}

} // verus!
