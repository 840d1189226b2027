use whp_vmm::link_args::link_args;

#[test]
fn link_args_on_linux() {
    assert_eq!(
        link_args("linux", "1", "9"),
        vec!["cargo:rustc-cdylib-link-arg=-Wl,-soname,libkrun.so.1".to_string()]
    );
}

#[test]
fn link_args_on_macos() {
    assert_eq!(
        link_args("macos", "1", "9"),
        vec![
            "cargo:rustc-cdylib-link-arg=-Wl,-install_name,libkrun.1.dylib,\
             -compatibility_version,1.0.0,-current_version,1.9.0"
                .to_string(),
            "cargo:rustc-link-lib=framework=Hypervisor".to_string(),
        ]
    );
}

#[test]
fn link_args_elsewhere() {
    assert!(link_args("windows", "1", "9").is_empty());
    assert!(link_args("", "", "").is_empty());
}
