//! Environment for building the Go side of valet with a MinGW toolchain:
//! which toolchain a Rust target needs and how the build environment is set.

use crate::text::push_str;
use vstd::prelude::*;

verus! {

/// A MinGW toolchain: the Go architecture it builds for and the MSYS
/// directory that holds its binaries.
#[derive(Clone, Copy, Debug, PartialEq, Eq)]
pub struct Toolchain {
    pub goarch: &'static str,
    pub msys_dir: &'static str,
}

/// The toolchain for a Rust target, if it is a GNU Windows target.
pub fn toolchain_for_target(target: &str) -> (tc: Option<Toolchain>)
    ensures
        target@ == "i686-pc-windows-gnu"@ ==> (tc matches Some(t) && t.goarch@ == "386"@
            && t.msys_dir@ == "/mingw32/bin"@),
        target@ == "x86_64-pc-windows-gnu"@ ==> (tc matches Some(t) && t.goarch@ == "amd64"@
            && t.msys_dir@ == "/mingw64/bin"@),
        target@ != "i686-pc-windows-gnu"@ && target@ != "x86_64-pc-windows-gnu"@ ==> tc is None,
{
    proof {
        reveal_strlit("i686-pc-windows-gnu");
        reveal_strlit("x86_64-pc-windows-gnu");
        assert("i686-pc-windows-gnu"@[0] != "x86_64-pc-windows-gnu"@[0]);
    }
    if crate::text::str_eq(target, "i686-pc-windows-gnu") {
        Some(Toolchain { goarch: "386", msys_dir: "/mingw32/bin" })
    } else if crate::text::str_eq(target, "x86_64-pc-windows-gnu") {
        Some(Toolchain { goarch: "amd64", msys_dir: "/mingw64/bin" })
    } else {
        None
    }
}

/// `PATH` with a directory put in front, Windows style.
pub fn prepend_msys_path(path: &str, addition: &str) -> (res: String)
    ensures
        res@ == addition@ + ";"@ + path@,
{
    let mut s = String::new();
    push_str(&mut s, addition);
    push_str(&mut s, ";");
    push_str(&mut s, path);
    s
}

/// The variables to set, in order, for a toolchain: cgo on, Windows as the
/// Go target, the toolchain's architecture, and `PATH` with the toolchain's
/// directory (in Windows form) in front.
pub fn toolchain_env(tc: &Toolchain, windows_msys_dir: &str, path: &str) -> (env: Vec<
    (String, String),
>)
    ensures
        env@.len() == 4,
        env@[0].0@ == "CGO_ENABLED"@ && env@[0].1@ == "1"@,
        env@[1].0@ == "GOOS"@ && env@[1].1@ == "windows"@,
        env@[2].0@ == "GOARCH"@ && env@[2].1@ == tc.goarch@,
        env@[3].0@ == "PATH"@ && env@[3].1@ == windows_msys_dir@ + ";"@ + path@,
{
    let mut env: Vec<(String, String)> = Vec::new();
    env.push(("CGO_ENABLED".to_owned(), "1".to_owned()));
    env.push(("GOOS".to_owned(), "windows".to_owned()));
    env.push(("GOARCH".to_owned(), tc.goarch.to_owned()));
    env.push(("PATH".to_owned(), prepend_msys_path(path, windows_msys_dir)));
    env
}

} // verus!
