//! The platform valet runs on: its operating system and processor
//! architecture, and the distribution channel that serves it.

use crate::text::{opt_str_eq, str_eq};
use vstd::prelude::*;

verus! {

#[derive(Debug, Clone, Copy, PartialEq, Eq, Structural)]
pub enum OS {
    Windows,
    Linux,
    MacOS,
}

#[derive(Debug, Clone, Copy, PartialEq, Eq, Structural)]
pub enum Arch {
    X86,
    X86_64,
}

#[derive(Debug, Clone, Copy, PartialEq, Eq, Structural)]
pub struct Runtime {
    pub os: OS,
    pub arch: Arch,
}

#[derive(Debug, Clone, Copy, PartialEq, Eq, Structural)]
pub enum Error {
    UnsupportedOS,
    UnsupportedArch,
}

impl Error {
    pub open spec fn spec_message(&self) -> Seq<char> {
        match *self {
            Error::UnsupportedOS => "unsupported OS"@,
            Error::UnsupportedArch => "unsupported arch"@,
        }
    }

    pub fn message(&self) -> (msg: &'static str)
        ensures
            msg@ == self.spec_message(),
    {
        match self {
            Error::UnsupportedOS => "unsupported OS",
            Error::UnsupportedArch => "unsupported arch",
        }
    }
}

/// The operating system a build targets, from the target's `target_os`
/// name.
pub open spec fn spec_build_os(target_os: Seq<char>) -> Result<OS, Error> {
    if target_os == "windows"@ {
        Ok(OS::Windows)
    } else if target_os == "linux"@ {
        Ok(OS::Linux)
    } else if target_os == "macos"@ {
        Ok(OS::MacOS)
    } else {
        Err(Error::UnsupportedOS)
    }
}

pub fn build_os(target_os: &str) -> (res: Result<OS, Error>)
    ensures
        res == spec_build_os(target_os@),
{
    if str_eq(target_os, "windows") {
        Ok(OS::Windows)
    } else if str_eq(target_os, "linux") {
        Ok(OS::Linux)
    } else if str_eq(target_os, "macos") {
        Ok(OS::MacOS)
    } else {
        Err(Error::UnsupportedOS)
    }
}

/// The architecture a build targets, from the target's `target_arch` name.
pub open spec fn spec_build_arch(target_arch: Seq<char>) -> Result<Arch, Error> {
    if target_arch == "x86"@ {
        Ok(Arch::X86)
    } else if target_arch == "x86_64"@ {
        Ok(Arch::X86_64)
    } else {
        Err(Error::UnsupportedArch)
    }
}

pub fn build_arch(target_arch: &str) -> (res: Result<Arch, Error>)
    ensures
        res == spec_build_arch(target_arch@),
{
    if str_eq(target_arch, "x86") {
        Ok(Arch::X86)
    } else if str_eq(target_arch, "x86_64") {
        Ok(Arch::X86_64)
    } else {
        Err(Error::UnsupportedArch)
    }
}

/// What the machine says about itself: on Windows the
/// `PROCESSOR_ARCHITECTURE` and `PROCESSOR_ARCHITEW6432` variables, on Linux
/// the (trimmed) output of `uname -s` and of `arch`. Absent when unset or
/// unavailable.
pub struct ArchProbes {
    pub processor_architecture: Option<String>,
    pub processor_architew6432: Option<String>,
    pub uname_s: Option<String>,
    pub arch: Option<String>,
}

/// A Windows processor name of a 64-bit machine.
pub open spec fn names_64_bit_windows(name: Option<Seq<char>>) -> bool {
    name == Some("AMD64"@) || name == Some("IA64"@)
}

/// The architecture of the machine, which may differ from the build's: a
/// 32-bit Windows build may run on 64-bit Windows, and macOS is only ever
/// 64-bit.
pub open spec fn spec_runtime_arch(
    os: Result<OS, Error>,
    build_arch: Result<Arch, Error>,
    processor_architecture: Option<Seq<char>>,
    processor_architew6432: Option<Seq<char>>,
    uname_s: Option<Seq<char>>,
    arch: Option<Seq<char>>,
) -> Result<Arch, Error> {
    match os {
        Err(e) => Err(e),
        Ok(OS::MacOS) => Ok(Arch::X86_64),
        Ok(OS::Windows) => match build_arch {
            Err(e) => Err(e),
            Ok(a) => if a == Arch::X86_64 || names_64_bit_windows(processor_architecture)
                || names_64_bit_windows(processor_architew6432) {
                Ok(Arch::X86_64)
            } else {
                Ok(a)
            },
        },
        Ok(OS::Linux) => if uname_s == Some("x86_64"@) || arch == Some("x86_64"@) {
            Ok(Arch::X86_64)
        } else {
            build_arch
        },
    }
}

fn names_64_bit_windows_exec(name: &Option<String>) -> (b: bool)
    ensures
        b == names_64_bit_windows(name.deep_view()),
{
    opt_str_eq(name, "AMD64") || opt_str_eq(name, "IA64")
}

pub fn runtime_arch(os: Result<OS, Error>, build_arch: Result<Arch, Error>, probes: &ArchProbes) -> (res:
    Result<Arch, Error>)
    ensures
        res == spec_runtime_arch(
            os,
            build_arch,
            probes.processor_architecture.deep_view(),
            probes.processor_architew6432.deep_view(),
            probes.uname_s.deep_view(),
            probes.arch.deep_view(),
        ),
{
    match os {
        Err(e) => Err(e),
        Ok(OS::MacOS) => Ok(Arch::X86_64),
        Ok(OS::Windows) => match build_arch {
            Err(e) => Err(e),
            Ok(a) => {
                if a == Arch::X86_64 || names_64_bit_windows_exec(&probes.processor_architecture)
                    || names_64_bit_windows_exec(&probes.processor_architew6432) {
                    Ok(Arch::X86_64)
                } else {
                    Ok(a)
                }
            },
        },
        Ok(OS::Linux) => {
            if opt_str_eq(&probes.uname_s, "x86_64") || opt_str_eq(&probes.arch, "x86_64") {
                Ok(Arch::X86_64)
            } else {
                build_arch
            }
        },
    }
}

/// The platform as a whole; an unsupported operating system is reported
/// before an unsupported architecture.
pub fn current_runtime(os: Result<OS, Error>, arch: Result<Arch, Error>) -> (res: Result<
    Runtime,
    Error,
>)
    ensures
        res == match (os, arch) {
            (Err(e), _) => Err(e),
            (Ok(_), Err(e)) => Err(e),
            (Ok(o), Ok(a)) => Ok(Runtime { os: o, arch: a }),
        },
{
    let os = match os {
        Ok(o) => o,
        Err(e) => return Err(e),
    };
    let arch = match arch {
        Ok(a) => a,
        Err(e) => return Err(e),
    };
    Ok(Runtime { os, arch })
}

} // verus!
