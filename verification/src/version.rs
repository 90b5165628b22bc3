//! Version and build information for the log.
use vstd::prelude::*;

verus! {

/// What is known about the build of the running program.
#[derive(Debug)]
pub struct BuildInfo {
    pub cargo_pkg_version: String,
    pub build_timestamp: String,
    pub cargo_target_triple: String,
    pub rustc_semver: String,
    pub sysinfo_cpu_core_count: String,
    pub sysinfo_name: String,
}

/// The entries of the version information: each value of `build` under its
/// key, in ascending order of the keys.
pub open spec fn version_entries(build: BuildInfo) -> Seq<(Seq<char>, Seq<char>)> {
    seq![
        ("CARGO_PKG_VERSION"@, build.cargo_pkg_version@),
        ("VERGEN_BUILD_TIMESTAMP"@, build.build_timestamp@),
        ("VERGEN_CARGO_TARGET_TRIPLE"@, build.cargo_target_triple@),
        ("VERGEN_RUSTC_SEMVER"@, build.rustc_semver@),
        ("VERGEN_SYSINFO_CPU_CORE_COUNT"@, build.sysinfo_cpu_core_count@),
        ("VERGEN_SYSINFO_NAME"@, build.sysinfo_name@),
    ]
}

/// The text of the entries `entries`.
pub open spec fn entries_view(entries: Seq<(String, String)>) -> Seq<(Seq<char>, Seq<char>)> {
    Seq::new(entries.len(), |i: int| (entries[i].0@, entries[i].1@))
}

/// The version information as pairs of key and value, in ascending order
/// of the keys.
pub fn get_verison_info(build: &BuildInfo) -> (entries: Vec<(String, String)>)
    ensures
        entries_view(entries@) == version_entries(*build),
{
    let mut entries: Vec<(String, String)> = Vec::with_capacity(6);
    entries.push(("CARGO_PKG_VERSION".to_owned(), build.cargo_pkg_version.clone()));
    entries.push(("VERGEN_BUILD_TIMESTAMP".to_owned(), build.build_timestamp.clone()));
    entries.push(("VERGEN_CARGO_TARGET_TRIPLE".to_owned(), build.cargo_target_triple.clone()));
    entries.push(("VERGEN_RUSTC_SEMVER".to_owned(), build.rustc_semver.clone()));
    entries.push(
        ("VERGEN_SYSINFO_CPU_CORE_COUNT".to_owned(), build.sysinfo_cpu_core_count.clone()),
    );
    entries.push(("VERGEN_SYSINFO_NAME".to_owned(), build.sysinfo_name.clone()));
    assert(entries_view(entries@) =~= version_entries(*build));
    entries
}

} // verus!
