use stm32_bindings_gen::artifacts::{CopyOp, DirEntry, SourceKind};
use stm32_bindings_gen::generate::{host_isystem_args, Gen, GenError, Options};
use stm32_bindings_gen::index::index_source;
use stm32_bindings_gen::registry::{binding_specs, Artifact, BindingSpec};

fn opts(triple: &str) -> Options {
    Options {
        out_dir: "/out".to_string(),
        sources_dir: "/vendor".to_string(),
        target_triple: triple.to_string(),
    }
}

fn spec(module: &str, feature: Option<&str>, alias: Option<&str>) -> BindingSpec {
    BindingSpec {
        module: module.to_string(),
        header: format!("inc/{module}.h"),
        include_dirs: vec!["inc".to_string(), "/opt/sdk/include".to_string()],
        clang_args: vec!["-DFOO=1".to_string()],
        allowlist: vec!["mac_.*".to_string()],
        library_artifacts: vec![],
        feature: feature.map(|f| f.to_string()),
        alias: alias.map(|a| a.to_string()),
    }
}

fn artifact(source: &str, destination: &str) -> Artifact {
    Artifact { source: source.to_string(), destination: destination.to_string() }
}

#[test]
fn index_keeps_order_and_gates_one_module() {
    let specs = vec![spec("a", None, None), spec("b", Some("F"), None), spec("c", None, None)];
    assert_eq!(
        index_source(&specs),
        "pub mod a;\n#[cfg(feature = \"F\")]\npub mod b;\npub mod c;\n"
    );
}

#[test]
fn index_without_aliases_has_no_alias_section() {
    let specs = vec![spec("a", None, None), spec("b", None, None)];
    let text = index_source(&specs);
    assert_eq!(text, "pub mod a;\npub mod b;\n");
    assert!(!text.contains("\n\n"));
    assert!(!text.contains("pub use"));
}

#[test]
fn index_with_one_alias_has_one_separator_and_one_reexport() {
    let specs = vec![spec("a", None, None), spec("b", Some("F"), Some("bee"))];
    let text = index_source(&specs);
    assert_eq!(
        text,
        "pub mod a;\n#[cfg(feature = \"F\")]\npub mod b;\n\n#[cfg(feature = \"F\")]\npub use self::b as bee;\n"
    );
    assert_eq!(text.matches("\n\n").count(), 1);
    assert_eq!(text.matches("pub use").count(), 1);
}

#[test]
fn empty_index_file_is_one_newline() {
    let g = Gen::new(opts("thumbv8m.main-none-eabihf"));
    let f = g.write_bindings_mod(&vec![]);
    assert_eq!(f.path, "/out/src/bindings/mod.rs");
    assert_eq!(f.contents, "\n");
}

#[test]
fn thumb_targets_are_recognised() {
    assert!(Gen::is_thumb_target("thumbv8m.main-none-eabihf"));
    assert!(Gen::is_thumb_target("  ThumbV7EM-none-eabi\n"));
    assert!(!Gen::is_thumb_target("armv7-none-eabi"));
    assert!(!Gen::is_thumb_target("thum"));
    assert!(!Gen::is_thumb_target(""));
}

#[test]
fn host_sdk_path_adds_a_system_header_flag() {
    assert_eq!(
        host_isystem_args(Some("  /Library/SDK \n".to_string())),
        vec!["-isystem/Library/SDK/usr/include".to_string()]
    );
    assert!(host_isystem_args(Some(" \n".to_string())).is_empty());
    assert!(host_isystem_args(None).is_empty());
}

#[test]
fn invocation_flags_are_in_order() {
    let g = Gen::new(opts("thumbv8m.main-none-eabihf"));
    let host = vec!["-isystem/sdk/usr/include".to_string()];
    let inv = g.backend_invocation(&spec("mac", None, None), &host, "/crate/inc");
    assert_eq!(inv.header, "/vendor/inc/mac.h");
    assert_eq!(
        inv.clang_args,
        vec![
            "--target=thumbv8m.main-none-eabihf",
            "-isystem/sdk/usr/include",
            "-iquote/crate/inc",
            "-mthumb",
            "-I/vendor/inc",
            "-I/opt/sdk/include",
            "-DFOO=1",
        ]
    );
    assert_eq!(inv.allowlist, vec!["mac_.*".to_string()]);
}

#[test]
fn non_thumb_target_gets_no_thumb_flag() {
    let g = Gen::new(opts("x86_64-unknown-linux-gnu"));
    let inv = g.backend_invocation(&spec("mac", None, None), &vec![], "/crate/inc");
    assert_eq!(
        inv.clang_args,
        vec!["--target=x86_64-unknown-linux-gnu", "-iquote/crate/inc", "-I/vendor/inc", "-I/opt/sdk/include", "-DFOO=1"]
    );
}

#[test]
fn bindings_are_normalised_and_written_per_module() {
    let g = Gen::new(opts("thumbv8m.main-none-eabihf"));
    let f = g.bindings_output(
        &spec("mac", None, None),
        "pub x: ::std::os::raw::c_int,\npublic constant max: u8 = 1;\n\n".to_string(),
    );
    assert_eq!(f.path, "/out/src/bindings/mac.rs");
    assert_eq!(f.contents, "pub x: ::core::ffi::c_int,\npublic constant MAX:u8 = 1;\n");
}

#[test]
fn output_skeleton_and_templates() {
    let g = Gen::new(opts("thumbv8m.main-none-eabihf"));
    assert_eq!(g.prepare_out_dir(), vec!["/out/src/bindings".to_string(), "/out/src/lib".to_string()]);
    let files = g.write_static_files();
    let paths: Vec<&str> = files.iter().map(|f| f.path.as_str()).collect();
    assert_eq!(paths, vec!["/out/README.md", "/out/Cargo.toml", "/out/build.rs", "/out/src/lib.rs"]);
    for f in &files {
        assert!(f.contents.ends_with('\n'));
        assert!(!f.contents.ends_with("\n\n"));
    }
    assert!(files[2].contents.contains("cargo:rustc-link-lib=wba_mac_lib"));
}

#[test]
fn file_artifact_is_copied() {
    let g = Gen::new(opts("thumbv8m.main-none-eabihf"));
    let mut s = spec("mac", None, None);
    s.library_artifacts = vec![artifact("lib/mac.a", "src/lib/libmac.a")];
    match g.copy_artifacts_for_spec(&s, &vec![SourceKind::File]) {
        Ok(ops) => {
            assert_eq!(ops.len(), 1);
            match &ops[0] {
                CopyOp::CopyFile { from, to } => {
                    assert_eq!(from, "/vendor/lib/mac.a");
                    assert_eq!(to, "/out/src/lib/libmac.a");
                }
                CopyOp::CreateDir(_) => panic!("expected a file copy"),
            }
        }
        Err(e) => panic!("{}", e.message()),
    }
}

#[test]
fn directory_artifact_is_mirrored() {
    let g = Gen::new(opts("thumbv8m.main-none-eabihf"));
    let mut s = spec("mac", None, None);
    s.library_artifacts = vec![artifact("aux", "src/aux")];
    let listing = vec![
        DirEntry { relative: "nested".to_string(), is_dir: true },
        DirEntry { relative: "nested/data.bin".to_string(), is_dir: false },
    ];
    let ops = match g.copy_artifacts_for_spec(&s, &vec![SourceKind::Dir(listing)]) {
        Ok(ops) => ops,
        Err(e) => panic!("{}", e.message()),
    };
    let shown: Vec<String> = ops
        .iter()
        .map(|o| match o {
            CopyOp::CreateDir(d) => format!("mkdir {d}"),
            CopyOp::CopyFile { from, to } => format!("copy {from} {to}"),
        })
        .collect();
    assert_eq!(
        shown,
        vec![
            "mkdir /out/src/aux",
            "mkdir /out/src/aux/nested",
            "copy /vendor/aux/nested/data.bin /out/src/aux/nested/data.bin",
        ]
    );
}

#[test]
fn missing_artifact_fails_naming_the_path() {
    let g = Gen::new(opts("thumbv8m.main-none-eabihf"));
    let mut s = spec("mac", None, None);
    s.library_artifacts = vec![artifact("lib/here.a", "src/lib/a.a"), artifact("lib/gone.a", "src/lib/b.a")];
    match g.copy_artifacts_for_spec(&s, &vec![SourceKind::File, SourceKind::Missing]) {
        Ok(_) => panic!("a missing artifact must fail"),
        Err(e) => {
            let msg = e.message();
            assert!(msg.contains("/vendor/lib/gone.a"));
            assert!(msg.contains("mac"));
            assert!(matches!(e, GenError::MissingArtifact { .. }));
        }
    }
}

#[test]
fn backend_failure_names_the_module() {
    let e = GenError::Backend { module: "mac".to_string(), detail: "no header".to_string() };
    assert_eq!(e.message(), "Unable to generate bindings for mac: no header");
}

#[test]
fn registry_modules_are_unique() {
    let specs = binding_specs();
    for (i, a) in specs.iter().enumerate() {
        for b in specs.iter().skip(i + 1) {
            assert_ne!(a.module, b.module);
        }
    }
    assert_eq!(specs[0].module, "wba_mac");
}

#[test]
fn outputs_are_reproducible() {
    let run = || {
        let g = Gen::new(opts("thumbv8m.main-none-eabihf"));
        let specs = vec![spec("a", None, Some("x")), spec("b", Some("F"), None)];
        let mut all: Vec<(String, String)> = Vec::new();
        for f in g.write_static_files() {
            all.push((f.path, f.contents));
        }
        for s in &specs {
            let f = g.bindings_output(s, "public constant k: u8 = 1;".to_string());
            all.push((f.path, f.contents));
        }
        let f = g.write_bindings_mod(&specs);
        all.push((f.path, f.contents));
        all
    };
    assert_eq!(run(), run());
}
