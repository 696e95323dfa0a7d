//! The app-local portable cross toolchains (Zig and llvm-mingw): where
//! their executables are expected, what an inspection reports missing,
//! which Cargo linker a target build uses, the Zig linker wrapper scripts,
//! and the Windows runtime DLLs staged beside a Windows build.

use vstd::prelude::*;
use crate::text::{owned, concat, concat3, string_views, joined, join_strings, str_eq, upper_letter, ascii_upper};
use crate::paths::{join, join_path, within};
use crate::manifest::msg_boundary;
use crate::discovery::ensure_contained;

verus! {

/// The Linux GNU release target.
pub open spec fn linux_gnu_target() -> Seq<char> {
    "x86_64-unknown-linux-gnu"@
}

/// The Windows GNU (LLVM) release target.
pub open spec fn windows_gnu_target() -> Seq<char> {
    "x86_64-pc-windows-gnullvm"@
}

/// The Zig target that the Linux GNU linker wrapper compiles for.
pub open spec fn linux_zig_target() -> Seq<char> {
    "x86_64-linux-gnu"@
}

/// `<root>/tools/zig/zig<exe>`.
pub open spec fn zig_executable(root: Seq<char>, exe: Seq<char>) -> Seq<char> {
    join(join(root, "tools/zig"@), "zig"@ + exe)
}

/// `<root>/tools/llvm-mingw`.
pub open spec fn llvm_mingw_root(root: Seq<char>) -> Seq<char> {
    join(root, "tools/llvm-mingw"@)
}

/// `<root>/tools/llvm-mingw/bin`.
pub open spec fn llvm_mingw_bin(root: Seq<char>) -> Seq<char> {
    join(llvm_mingw_root(root), "bin"@)
}

/// `<root>/tools/llvm-mingw/x86_64-w64-mingw32/bin`, where the target's
/// runtime DLLs live.
pub open spec fn llvm_mingw_target_bin(root: Seq<char>) -> Seq<char> {
    join(llvm_mingw_root(root), "x86_64-w64-mingw32/bin"@)
}

/// The llvm-mingw clang that links Windows GNU builds.
pub open spec fn llvm_mingw_clang(root: Seq<char>, exe: Seq<char>) -> Seq<char> {
    join(llvm_mingw_bin(root), "x86_64-w64-mingw32-clang"@ + exe)
}

/// File name of a target's Zig linker wrapper.
pub open spec fn linker_script_name_spec(target: Seq<char>, windows: bool) -> Seq<char> {
    target + if windows { "-zig-cc.cmd"@ } else { "-zig-cc"@ }
}

/// `<root>/tools/cross/bin/<wrapper>`.
pub open spec fn zig_linker_path(root: Seq<char>, target: Seq<char>, windows: bool) -> Seq<char> {
    join(join(root, "tools/cross/bin"@), linker_script_name_spec(target, windows))
}

/// A missing-list entry: what is missing and where it was expected.
pub open spec fn expected_spec(label: Seq<char>, path: Seq<char>) -> Seq<char> {
    label + " (expected at "@ + path + ")"@
}

/// What an inspection checks, in order: each expected executable and the
/// entry it adds to the missing list when absent.
pub open spec fn checks_spec(root: Seq<char>, exe: Seq<char>, windows: bool) -> Seq<(Seq<char>, Seq<char>)> {
    let zig = zig_executable(root, exe);
    let clang = llvm_mingw_clang(root, exe);
    let dlltool = join(llvm_mingw_bin(root), "x86_64-w64-mingw32-dlltool"@);
    let llvm_dlltool = join(llvm_mingw_bin(root), "llvm-dlltool"@);
    let linker = zig_linker_path(root, linux_gnu_target(), windows);
    seq![
        (zig, expected_spec("zig"@, zig)),
        (clang, expected_spec("llvm-mingw clang"@, clang)),
        (dlltool, expected_spec("llvm-mingw tool x86_64-w64-mingw32-dlltool"@, dlltool)),
        (llvm_dlltool, expected_spec("llvm-mingw tool llvm-dlltool"@, llvm_dlltool)),
        (linker, expected_spec("x86_64-unknown-linux-gnu linker wrapper"@, linker)),
    ]
}

/// The name of a target's Zig linker wrapper (`.cmd` on Windows).
pub fn linker_script_name(target: &str, windows: bool) -> (r: String)
    ensures
        r@ == linker_script_name_spec(target@, windows),
{
    if windows {
        concat(target, "-zig-cc.cmd")
    } else {
        concat(target, "-zig-cc")
    }
}

fn zig_linker(root: &str, target: &str, windows: bool) -> (r: String)
    ensures
        r@ == zig_linker_path(root@, target@, windows),
{
    let dir = join_path(root, "tools/cross/bin");
    let name = linker_script_name(target, windows);
    join_path(dir.as_str(), name.as_str())
}

fn clang_path(root: &str, exe: &str) -> (r: String)
    ensures
        r@ == llvm_mingw_clang(root@, exe@),
{
    let mingw = join_path(root, "tools/llvm-mingw");
    let bin = join_path(mingw.as_str(), "bin");
    let name = concat("x86_64-w64-mingw32-clang", exe);
    join_path(bin.as_str(), name.as_str())
}

fn expected_at(label: &str, path: &str) -> (r: String)
    ensures
        r@ == expected_spec(label@, path@),
{
    let mut r = concat3(label, " (expected at ", path);
    r.append(")");
    r
}

/// What an inspection checks, in order: each expected executable paired
/// with the entry it adds to the missing list when absent. `exe` is the
/// platform's executable suffix and `windows` whether wrappers are `.cmd`.
pub fn cross_checks(root: &str, exe: &str, windows: bool) -> (r: Vec<(String, String)>)
    ensures
        r@.map_values(|c: (String, String)| (c.0@, c.1@)) == checks_spec(root@, exe@, windows),
{
    let zig_dir = join_path(root, "tools/zig");
    let zig_name = concat("zig", exe);
    let zig = join_path(zig_dir.as_str(), zig_name.as_str());
    let clang = clang_path(root, exe);
    let mingw = join_path(root, "tools/llvm-mingw");
    let bin = join_path(mingw.as_str(), "bin");
    let dlltool = join_path(bin.as_str(), "x86_64-w64-mingw32-dlltool");
    let llvm_dlltool = join_path(bin.as_str(), "llvm-dlltool");
    let linker = zig_linker(root, "x86_64-unknown-linux-gnu", windows);
    let mut r: Vec<(String, String)> = Vec::new();
    let m0 = expected_at("zig", zig.as_str());
    r.push((zig, m0));
    let m1 = expected_at("llvm-mingw clang", clang.as_str());
    r.push((clang, m1));
    let m2 = expected_at("llvm-mingw tool x86_64-w64-mingw32-dlltool", dlltool.as_str());
    r.push((dlltool, m2));
    let m3 = expected_at("llvm-mingw tool llvm-dlltool", llvm_dlltool.as_str());
    r.push((llvm_dlltool, m3));
    let m4 = expected_at("x86_64-unknown-linux-gnu linker wrapper", linker.as_str());
    r.push((linker, m4));
    proof {
        assert(r@.map_values(|c: (String, String)| (c.0@, c.1@)) =~= checks_spec(root@, exe@, windows));
    }
    r
}

/// Status of the portable cross toolchains.
pub struct CrossToolchainStatus {
    /// Whether every expected executable is present.
    pub installed: bool,
    /// The Zig executable.
    pub path: String,
    /// What is missing, as the checks name it.
    pub missing: Vec<String>,
}

/// The missing entries of the checks whose executables are absent.
pub open spec fn missing_spec(checks: Seq<(Seq<char>, Seq<char>)>, present: Seq<bool>) -> Seq<Seq<char>>
    decreases checks.len(),
{
    if checks.len() == 0 {
        Seq::empty()
    } else {
        missing_spec(checks.drop_last(), present) + if present[checks.len() - 1] {
            Seq::<Seq<char>>::empty()
        } else {
            seq![checks.last().1]
        }
    }
}

/// What an inspection reports, from whether each checked executable is
/// present (`present[i]` for the `i`-th of [`cross_checks`]).
pub fn inspect(root: &str, exe: &str, windows: bool, present: &[bool]) -> (r: CrossToolchainStatus)
    requires
        present@.len() == checks_spec(root@, exe@, windows).len(),
    ensures
        string_views(r.missing@) == missing_spec(checks_spec(root@, exe@, windows), present@),
        r.installed == (r.missing@.len() == 0),
        r.path@ == zig_executable(root@, exe@),
{
    let checks = cross_checks(root, exe, windows);
    let ghost cs = checks_spec(root@, exe@, windows);
    let mut missing: Vec<String> = Vec::new();
    let mut i: usize = 0;
    while i < checks.len()
        invariant
            checks@.map_values(|c: (String, String)| (c.0@, c.1@)) == cs,
            present@.len() == cs.len(),
            i <= checks@.len(),
            string_views(missing@) == missing_spec(cs.take(i as int), present@),
        decreases checks@.len() - i,
    {
        let ghost before = missing@;
        if !present[i] {
            missing.push(owned(checks[i].1.as_str()));
        }
        proof {
            assert(cs.take(i + 1).drop_last() =~= cs.take(i as int));
            assert(cs[i as int] == (checks@[i as int].0@, checks@[i as int].1@));
            assert(string_views(missing@) =~= missing_spec(cs.take(i + 1), present@));
        }
        i = i + 1;
    }
    proof {
        assert(cs.take(cs.len() as int) =~= cs);
    }
    let zig_dir = join_path(root, "tools/zig");
    let zig_name = concat("zig", exe);
    let path = join_path(zig_dir.as_str(), zig_name.as_str());
    let installed = missing.len() == 0;
    CrossToolchainStatus { installed, path, missing }
}

/// Message when a cross build lacks its toolchains.
pub open spec fn msg_not_ready(target: Seq<char>, missing: Seq<Seq<char>>) -> Seq<char> {
    "cannot build target "@ + target + ": app-local cross toolchains are missing\nmissing entries:\n  - "@
        + joined(missing, "\n  - "@)
        + "\nhelp: run `setup self install` or `setup self repair` from Vapor Shell\nnote: cross-target builds use portable toolchains from the Steam app root"@
}

/// Refuse a cross build while toolchains are missing.
pub fn require_ready(status: &CrossToolchainStatus, target: &str) -> (r: Result<(), String>)
    ensures
        status.installed ==> r is Ok,
        !status.installed ==> (r matches Err(e) && e@ == msg_not_ready(target@, string_views(status.missing@))),
{
    if status.installed {
        return Ok(());
    }
    let mut e = concat3("cannot build target ", target, ": app-local cross toolchains are missing\nmissing entries:\n  - ");
    let list = join_strings(status.missing.as_slice(), "\n  - ");
    e.append(list.as_str());
    e.append("\nhelp: run `setup self install` or `setup self repair` from Vapor Shell\nnote: cross-target builds use portable toolchains from the Steam app root");
    Err(e)
}

/// Environment-variable character: `-` becomes `_`, letters are uppercased.
pub open spec fn env_char(c: char) -> char {
    if c == '-' { '_' } else { ascii_upper(c) }
}

/// `CARGO_TARGET_<TARGET>_LINKER` for a target triple.
pub open spec fn cargo_linker_env_spec(target: Seq<char>) -> Seq<char> {
    "CARGO_TARGET_"@ + Seq::new(target.len(), |i: int| env_char(target[i])) + "_LINKER"@
}

/// The Cargo environment variable naming a target's linker.
pub fn cargo_linker_env(target: &str) -> (r: String)
    ensures
        r@ == cargo_linker_env_spec(target@),
{
    let n = target.unicode_len();
    let mut upper = String::new();
    let mut i: usize = 0;
    while i < n
        invariant
            n == target@.len(),
            i <= n,
            upper@ == Seq::new(i as nat, |k: int| env_char(target@[k])),
        decreases n - i,
    {
        let c = target.get_char(i);
        assert(target@.subrange(i as int, i + 1) =~= seq![c]);
        if c == '-' {
            proof {
                reveal_strlit("_");
            }
            upper.append("_");
        } else {
            match upper_letter(c) {
                Some(u) => upper.append(u),
                None => upper.append(target.substring_char(i, i + 1)),
            }
        }
        proof {
            assert(upper@ =~= Seq::new((i + 1) as nat, |k: int| env_char(target@[k])));
        }
        i = i + 1;
    }
    let mut r = concat("CARGO_TARGET_", upper.as_str());
    r.append("_LINKER");
    r
}

/// The linker a target build needs: llvm-mingw clang for Windows GNU, the
/// Zig wrapper for Linux GNU when the host is another target, else none.
pub open spec fn linker_spec(root: Seq<char>, target: Seq<char>, host: Seq<char>, exe: Seq<char>, windows: bool) -> Option<Seq<char>> {
    if target == windows_gnu_target() {
        Some(llvm_mingw_clang(root, exe))
    } else if target == linux_gnu_target() && host != target {
        Some(zig_linker_path(root, target, windows))
    } else {
        None
    }
}

/// The linker environment a target build sets, as `(variable, linker)`;
/// a build that needs the cross toolchains is refused while they are
/// missing.
pub fn linker_env(
    root: &str,
    target: &str,
    host: &str,
    exe: &str,
    windows: bool,
    status: &CrossToolchainStatus,
) -> (r: Result<Option<(String, String)>, String>)
    ensures
        match linker_spec(root@, target@, host@, exe@, windows) {
            None => r matches Ok(None),
            Some(l) => if status.installed {
                r matches Ok(Some((v, p))) && v@ == cargo_linker_env_spec(target@) && p@ == l
            } else {
                r matches Err(e) && e@ == msg_not_ready(target@, string_views(status.missing@))
            },
        },
{
    let linker = if str_eq(target, "x86_64-pc-windows-gnullvm") {
        clang_path(root, exe)
    } else if str_eq(target, "x86_64-unknown-linux-gnu") && !str_eq(host, target) {
        zig_linker(root, target, windows)
    } else {
        return Ok(None);
    };
    match require_ready(status, target) {
        Ok(()) => {},
        Err(e) => return Err(e),
    }
    Ok(Some((cargo_linker_env(target), linker)))
}

/// The Rust target the host runs, from `std::env::consts` (`ARCH`, `OS`,
/// `FAMILY`).
pub open spec fn host_target_spec(arch: Seq<char>, os: Seq<char>, family: Seq<char>) -> Seq<char> {
    if arch == "x86_64"@ && os == "linux"@ {
        linux_gnu_target()
    } else if arch == "x86_64"@ && os == "windows"@ {
        windows_gnu_target()
    } else if arch == "aarch64"@ && os == "linux"@ {
        "aarch64-unknown-linux-gnu"@
    } else if arch == "aarch64"@ && os == "windows"@ {
        "aarch64-pc-windows-msvc"@
    } else if arch == "x86_64"@ && os == "macos"@ {
        "x86_64-apple-darwin"@
    } else if arch == "aarch64"@ && os == "macos"@ {
        "aarch64-apple-darwin"@
    } else {
        arch + "-"@ + os + "-"@ + family
    }
}

/// The Rust target the host runs.
pub fn host_runtime_target(arch: &str, os: &str, family: &str) -> (r: String)
    ensures
        r@ == host_target_spec(arch@, os@, family@),
{
    let x86 = str_eq(arch, "x86_64");
    let arm = str_eq(arch, "aarch64");
    let linux = str_eq(os, "linux");
    let windows = str_eq(os, "windows");
    let macos = str_eq(os, "macos");
    if x86 && linux {
        owned("x86_64-unknown-linux-gnu")
    } else if x86 && windows {
        owned("x86_64-pc-windows-gnullvm")
    } else if arm && linux {
        owned("aarch64-unknown-linux-gnu")
    } else if arm && windows {
        owned("aarch64-pc-windows-msvc")
    } else if x86 && macos {
        owned("x86_64-apple-darwin")
    } else if arm && macos {
        owned("aarch64-apple-darwin")
    } else {
        let mut r = concat3(arch, "-", os);
        r.append("-");
        r.append(family);
        r
    }
}

/// The Zig linker wrapper script for a Zig target.
pub open spec fn wrapper_source_spec(zig_target: Seq<char>, windows: bool) -> Seq<char> {
    if windows {
        "@echo off\r\nset \"SELF_DIR=%~dp0\"\r\nset \"ZIG=%SELF_DIR%..\\..\\zig\\zig.exe\"\r\n\"%ZIG%\" cc -target "@ + zig_target + " %*\r\n"@
    } else {
        "#!/bin/sh\nset -eu\nself_dir=$(CDPATH= cd -- \"$(dirname -- \"$0\")\" && pwd)\nzig=\"$self_dir/../../zig/zig\"\nexec \"$zig\" cc -target "@
            + zig_target + " \"$@\"\n"@
    }
}

/// The linker wrappers to write, as `(path, script)`; each must lie
/// inside the app root.
pub fn wrapper_plan(root: &str, windows: bool) -> (r: Result<Vec<(String, String)>, String>)
    ensures
        within(zig_linker_path(root@, linux_gnu_target(), windows), root@) ==> (r matches Ok(v)
            && v@.map_values(|w: (String, String)| (w.0@, w.1@))
                == seq![(zig_linker_path(root@, linux_gnu_target(), windows), wrapper_source_spec(linux_zig_target(), windows))]),
        !within(zig_linker_path(root@, linux_gnu_target(), windows), root@) ==> (r matches Err(e)
            && e@ == msg_boundary(zig_linker_path(root@, linux_gnu_target(), windows), root@)),
{
    let path = zig_linker(root, "x86_64-unknown-linux-gnu", windows);
    match ensure_contained(root, path.as_str()) {
        Ok(()) => {},
        Err(e) => return Err(e),
    }
    let source = if windows {
        concat3("@echo off\r\nset \"SELF_DIR=%~dp0\"\r\nset \"ZIG=%SELF_DIR%..\\..\\zig\\zig.exe\"\r\n\"%ZIG%\" cc -target ", "x86_64-linux-gnu", " %*\r\n")
    } else {
        concat3("#!/bin/sh\nset -eu\nself_dir=$(CDPATH= cd -- \"$(dirname -- \"$0\")\" && pwd)\nzig=\"$self_dir/../../zig/zig\"\nexec \"$zig\" cc -target ", "x86_64-linux-gnu", " \"$@\"\n")
    };
    let mut v: Vec<(String, String)> = Vec::new();
    v.push((path, source));
    proof {
        assert(v@.map_values(|w: (String, String)| (w.0@, w.1@))
            =~= seq![(zig_linker_path(root@, linux_gnu_target(), windows), wrapper_source_spec(linux_zig_target(), windows))]);
    }
    Ok(v)
}

/// One runtime DLL to stage: its name, where llvm-mingw keeps it, and where
/// it goes.
pub struct RuntimeDll {
    /// File name.
    pub name: String,
    /// Source inside llvm-mingw.
    pub source: String,
    /// Destination in the target directory.
    pub target: String,
}

/// The runtime DLLs a Windows GNU build stages beside its binaries.
pub open spec fn runtime_dll_names() -> Seq<Seq<char>> {
    seq!["libunwind.dll"@]
}

/// The runtime DLLs to stage for a target: none for targets other than
/// Windows GNU; the target directory must lie inside the app root.
pub fn runtime_dll_plan(root: &str, target: &str, target_directory: &str) -> (r: Result<Vec<RuntimeDll>, String>)
    ensures
        target@ != windows_gnu_target() ==> (r matches Ok(v) && v@.len() == 0),
        target@ == windows_gnu_target() && !within(target_directory@, root@) ==> (r matches Err(e)
            && e@ == msg_boundary(target_directory@, root@)),
        target@ == windows_gnu_target() && within(target_directory@, root@) ==> (r matches Ok(v)
            && v@.len() == runtime_dll_names().len()
            && forall|i: int| 0 <= i < v@.len() ==> {
                &&& (#[trigger] v@[i]).name@ == runtime_dll_names()[i]
                &&& v@[i].source@ == join(llvm_mingw_target_bin(root@), runtime_dll_names()[i])
                &&& v@[i].target@ == join(target_directory@, runtime_dll_names()[i])
            }),
{
    let mut v: Vec<RuntimeDll> = Vec::new();
    if !str_eq(target, "x86_64-pc-windows-gnullvm") {
        return Ok(v);
    }
    match ensure_contained(root, target_directory) {
        Ok(()) => {},
        Err(e) => return Err(e),
    }
    let mingw = join_path(root, "tools/llvm-mingw");
    let bin = join_path(mingw.as_str(), "x86_64-w64-mingw32/bin");
    let source = join_path(bin.as_str(), "libunwind.dll");
    let dest = join_path(target_directory, "libunwind.dll");
    v.push(RuntimeDll { name: owned("libunwind.dll"), source, target: dest });
    Ok(v)
}

/// Message when a runtime DLL is missing from llvm-mingw.
pub open spec fn msg_missing_dll(name: Seq<char>, source: Seq<char>) -> Seq<char> {
    "cannot stage Windows runtime DLL '"@ + name + "': missing "@ + source
        + "\nhelp: run `setup self install` or `setup self repair` to install app-local llvm-mingw"@
}

/// Whether one runtime DLL may be copied: its source must be a file and its
/// destination inside the app root.
pub fn stage_runtime_dll(root: &str, dll: &RuntimeDll, source_is_file: bool) -> (r: Result<(), String>)
    ensures
        !source_is_file ==> (r matches Err(e) && e@ == msg_missing_dll(dll.name@, dll.source@)),
        source_is_file ==> (r is Ok <==> within(dll.target@, root@)),
        source_is_file && !within(dll.target@, root@) ==> (r matches Err(e) && e@ == msg_boundary(dll.target@, root@)),
{
    if !source_is_file {
        let mut e = concat3("cannot stage Windows runtime DLL '", dll.name.as_str(), "': missing ");
        e.append(dll.source.as_str());
        e.append("\nhelp: run `setup self install` or `setup self repair` to install app-local llvm-mingw");
        return Err(e);
    }
    ensure_contained(root, dll.target.as_str())
}

} // verus!
