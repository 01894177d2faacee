//! The binding specifications that drive a generation run.
use vstd::prelude::*;
use crate::text::strs;

verus! {

/// A prebuilt file or directory to copy into the generated tree.
pub struct Artifact {
    /// Path under the vendor source tree.
    pub source: String,
    /// Path under the output directory.
    pub destination: String,
}

/// One header-to-module generation unit.
pub struct BindingSpec {
    /// Name of the generated module; unique within a registry.
    pub module: String,
    /// Header to parse, relative to the vendor source tree unless absolute.
    pub header: String,
    /// Header search paths, in order of precedence.
    pub include_dirs: Vec<String>,
    /// Extra compiler flags, passed after the generated ones.
    pub clang_args: Vec<String>,
    /// Name patterns limiting the emitted types, variables and functions;
    /// empty to emit everything visible.
    pub allowlist: Vec<String>,
    /// Prebuilt artifacts to copy.
    pub library_artifacts: Vec<Artifact>,
    /// Build-time feature gating the module, if any.
    pub feature: Option<String>,
    /// Name under which the module is re-exported, if any.
    pub alias: Option<String>,
}

/// Module names are unique across the registry.
pub open spec fn registry_wf(specs: Seq<BindingSpec>) -> bool {
    forall|i: int, j: int|
        0 <= i < specs.len() && 0 <= j < specs.len() && i != j ==> specs[i].module@
            != specs[j].module@
}

fn strings(items: &[&str]) -> (r: Vec<String>)
    ensures
        strs(r@) == items@.map_values(|s: &str| s@),
{
    let mut out: Vec<String> = Vec::new();
    let mut i: usize = 0;
    while i < items.len()
        invariant
            i <= items@.len(),
            out@.len() == i,
            forall|k: int| 0 <= k < i ==> out@[k]@ == items@[k]@,
        decreases items@.len() - i,
    {
        out.push(crate::text::owned(items[i]));
        i = i + 1;
    }
    assert(strs(out@) =~= items@.map_values(|s: &str| s@));
    out
}

/// The bindings generated for the vendor's wireless stack: the IEEE 802.15.4
/// MAC layer with its prebuilt library, gated behind the `wba_mac` feature
/// and re-exported as `mac`.
pub fn binding_specs() -> (r: Vec<BindingSpec>)
    ensures
        registry_wf(r@),
        r@.len() == 1,
        r@[0].module@ == "wba_mac"@,
        r@[0].header@ == "Middlewares/ST/STM32_WPAN/mac_802_15_4/core/inc/st_mac_802_15_4_sap.h"@,
        strs(r@[0].include_dirs@) == seq![
            "Middlewares/ST/STM32_WPAN/mac_802_15_4/core/inc"@,
            "Middlewares/ST/STM32_WPAN"@,
            "Drivers/CMSIS/Core/Include"@,
        ],
        strs(r@[0].clang_args@) == seq!["-DSUPPORT_MAC=1"@],
        strs(r@[0].allowlist@) == seq!["ST_MAC_.*"@, "MAC_.*"@, "mac_.*"@],
        r@[0].library_artifacts@.len() == 1,
        r@[0].library_artifacts@[0].source@
            == "Middlewares/ST/STM32_WPAN/mac_802_15_4/lib/wba_mac_lib.a"@,
        r@[0].library_artifacts@[0].destination@ == "src/lib/libwba_mac_lib.a"@,
        r@[0].feature is Some && r@[0].feature->Some_0@ == "wba_mac"@,
        r@[0].alias is Some && r@[0].alias->Some_0@ == "mac"@,
{
    let mac = BindingSpec {
        module: crate::text::owned("wba_mac"),
        header: crate::text::owned(
            "Middlewares/ST/STM32_WPAN/mac_802_15_4/core/inc/st_mac_802_15_4_sap.h",
        ),
        include_dirs: strings(
            &[
                "Middlewares/ST/STM32_WPAN/mac_802_15_4/core/inc",
                "Middlewares/ST/STM32_WPAN",
                "Drivers/CMSIS/Core/Include",
            ],
        ),
        clang_args: strings(&["-DSUPPORT_MAC=1"]),
        allowlist: strings(&["ST_MAC_.*", "MAC_.*", "mac_.*"]),
        library_artifacts: vec![
            Artifact {
                source: crate::text::owned(
                    "Middlewares/ST/STM32_WPAN/mac_802_15_4/lib/wba_mac_lib.a",
                ),
                destination: crate::text::owned("src/lib/libwba_mac_lib.a"),
            },
        ],
        feature: Some(crate::text::owned("wba_mac")),
        alias: Some(crate::text::owned("mac")),
    };
    let r = vec![mac];
    assert(strs(r@[0].include_dirs@) =~= seq![
        "Middlewares/ST/STM32_WPAN/mac_802_15_4/core/inc"@,
        "Middlewares/ST/STM32_WPAN"@,
        "Drivers/CMSIS/Core/Include"@,
    ]);
    assert(strs(r@[0].clang_args@) =~= seq!["-DSUPPORT_MAC=1"@]);
    assert(strs(r@[0].allowlist@) =~= seq!["ST_MAC_.*"@, "MAC_.*"@, "mac_.*"@]);
    r
}

} // verus!
