use valet::selfupdate::platform::{
    build_arch, build_os, current_runtime, runtime_arch, Arch, ArchProbes, Error, Runtime, OS,
};

fn probes(pa: Option<&str>, pa64: Option<&str>, uname: Option<&str>, arch: Option<&str>) -> ArchProbes {
    ArchProbes {
        processor_architecture: pa.map(String::from),
        processor_architew6432: pa64.map(String::from),
        uname_s: uname.map(String::from),
        arch: arch.map(String::from),
    }
}

#[test]
fn build_os_from_target_name() {
    assert_eq!(build_os("windows"), Ok(OS::Windows));
    assert_eq!(build_os("linux"), Ok(OS::Linux));
    assert_eq!(build_os("macos"), Ok(OS::MacOS));
    assert_eq!(build_os("freebsd"), Err(Error::UnsupportedOS));
}

#[test]
fn build_arch_from_target_name() {
    assert_eq!(build_arch("x86"), Ok(Arch::X86));
    assert_eq!(build_arch("x86_64"), Ok(Arch::X86_64));
    assert_eq!(build_arch("aarch64"), Err(Error::UnsupportedArch));
}

#[test]
fn macos_is_always_64_bit() {
    let none = probes(None, None, None, None);
    assert_eq!(runtime_arch(Ok(OS::MacOS), Err(Error::UnsupportedArch), &none), Ok(Arch::X86_64));
}

#[test]
fn windows_32_bit_build_on_64_bit_machine() {
    let p = probes(Some("x86"), Some("AMD64"), None, None);
    assert_eq!(runtime_arch(Ok(OS::Windows), Ok(Arch::X86), &p), Ok(Arch::X86_64));
    let p = probes(Some("IA64"), None, None, None);
    assert_eq!(runtime_arch(Ok(OS::Windows), Ok(Arch::X86), &p), Ok(Arch::X86_64));
    let p = probes(Some("x86"), None, None, None);
    assert_eq!(runtime_arch(Ok(OS::Windows), Ok(Arch::X86), &p), Ok(Arch::X86));
    let p = probes(Some("AMD64"), None, None, None);
    assert_eq!(runtime_arch(Ok(OS::Windows), Err(Error::UnsupportedArch), &p), Err(Error::UnsupportedArch));
}

#[test]
fn linux_asks_the_tools() {
    let p = probes(None, None, Some("Linux"), Some("x86_64"));
    assert_eq!(runtime_arch(Ok(OS::Linux), Ok(Arch::X86), &p), Ok(Arch::X86_64));
    let p = probes(None, None, Some("Linux"), Some("i686"));
    assert_eq!(runtime_arch(Ok(OS::Linux), Ok(Arch::X86), &p), Ok(Arch::X86));
    let p = probes(None, None, None, None);
    assert_eq!(runtime_arch(Ok(OS::Linux), Err(Error::UnsupportedArch), &p), Err(Error::UnsupportedArch));
}

#[test]
fn unsupported_os_comes_first() {
    let p = probes(None, None, None, None);
    assert_eq!(runtime_arch(Err(Error::UnsupportedOS), Ok(Arch::X86), &p), Err(Error::UnsupportedOS));
    assert_eq!(
        current_runtime(Err(Error::UnsupportedOS), Err(Error::UnsupportedArch)),
        Err(Error::UnsupportedOS)
    );
    assert_eq!(current_runtime(Ok(OS::Linux), Err(Error::UnsupportedArch)), Err(Error::UnsupportedArch));
    assert_eq!(
        current_runtime(Ok(OS::Linux), Ok(Arch::X86_64)),
        Ok(Runtime { os: OS::Linux, arch: Arch::X86_64 })
    );
}

#[test]
fn platform_error_messages() {
    assert_eq!(Error::UnsupportedOS.message(), "unsupported OS");
    assert_eq!(Error::UnsupportedArch.message(), "unsupported arch");
}
