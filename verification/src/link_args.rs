//! The arguments that the library is linked with.

use vstd::prelude::*;
use vstd::string::StringExecFns;

verus! {

/// The lines that tell the build which arguments to link the library with on an operating
/// system, for a version of the library: on Linux its soname, on macOS its install name, its
/// versions and the framework of the hypervisor, and nothing elsewhere.
pub open spec fn link_arg_lines(
    target_os: Seq<char>,
    major: Seq<char>,
    minor: Seq<char>,
) -> Seq<Seq<char>> {
    if target_os == "linux"@ {
        seq!["cargo:rustc-cdylib-link-arg=-Wl,-soname,libkrun.so."@ + major]
    } else if target_os == "macos"@ {
        seq![
            "cargo:rustc-cdylib-link-arg=-Wl,-install_name,libkrun."@ + major
                + ".dylib,-compatibility_version,"@ + major + ".0.0,-current_version,"@ + major
                + "."@ + minor + ".0"@,
            "cargo:rustc-link-lib=framework=Hypervisor"@,
        ]
    } else {
        Seq::empty()
    }
}

/// The lines that tell the build which arguments to link the library with.
pub fn link_args(target_os: &str, major: &str, minor: &str) -> (lines: Vec<String>)
    ensures
        lines.len() == link_arg_lines(target_os@, major@, minor@).len(),
        forall|i: int|
            0 <= i < lines.len() ==> (#[trigger] lines[i])@ == link_arg_lines(
                target_os@,
                major@,
                minor@,
            )[i],
{
    let mut lines: Vec<String> = Vec::new();
    let target_os = target_os.to_owned();
    proof {
        reveal_strlit("linux");
        reveal_strlit("macos");
        assert("linux"@[0] != "macos"@[0]);
    }
    if target_os == "linux".to_owned() {
        let mut line = "cargo:rustc-cdylib-link-arg=-Wl,-soname,libkrun.so.".to_owned();
        line.append(major);
        lines.push(line);
    }
    if target_os == "macos".to_owned() {
        let mut line = "cargo:rustc-cdylib-link-arg=-Wl,-install_name,libkrun.".to_owned();
        line.append(major);
        line.append(".dylib,-compatibility_version,");
        line.append(major);
        line.append(".0.0,-current_version,");
        line.append(major);
        line.append(".");
        line.append(minor);
        line.append(".0");
        lines.push(line);
        lines.push("cargo:rustc-link-lib=framework=Hypervisor".to_owned());
    }
    lines
}

} // verus!
