use vstd::prelude::*;
use crate::text::str_equal;

verus! {

/// The platform a release is made for. Every platform-dependent string of the
/// pipeline is derived from this one value.
#[derive(Clone, Copy, Debug, PartialEq, Eq, Structural)]
pub enum Platform {
    Windows,
    Macos,
    LinuxLike,
}

impl Platform {
    pub open spec fn from_os_spec(os: Seq<char>) -> Platform {
        if os == "windows"@ {
            Platform::Windows
        } else if os == "macos"@ {
            Platform::Macos
        } else {
            Platform::LinuxLike
        }
    }

    /// The platform for an operating-system name as Rust reports it
    /// (`windows`, `macos`, `linux`, ...). Every other name is linux-like.
    pub fn from_os(os: &str) -> (r: Platform)
        ensures
            r == Platform::from_os_spec(os@),
    {
        if str_equal(os, "windows") {
            Platform::Windows
        } else if str_equal(os, "macos") {
            Platform::Macos
        } else {
            Platform::LinuxLike
        }
    }

    pub open spec fn dir_name_spec(self) -> Seq<char> {
        match self {
            Platform::Windows => "windows"@,
            Platform::Macos => "macos"@,
            Platform::LinuxLike => "ubuntu"@,
        }
    }

    /// The directory name that configuration and releases use for the platform.
    pub fn dir_name(&self) -> (r: String)
        ensures
            r@ == self.dir_name_spec(),
    {
        match self {
            Platform::Windows => String::from_str("windows"),
            Platform::Macos => String::from_str("macos"),
            Platform::LinuxLike => String::from_str("ubuntu"),
        }
    }

    pub open spec fn exe_suffix_spec(self) -> Seq<char> {
        match self {
            Platform::Windows => ".exe"@,
            _ => ""@,
        }
    }

    /// The suffix of an executable file name: `.exe` on Windows, empty elsewhere.
    pub fn exe_suffix(&self) -> (r: String)
        ensures
            r@ == self.exe_suffix_spec(),
    {
        match self {
            Platform::Windows => String::from_str(".exe"),
            _ => String::from_str(""),
        }
    }

    /// Whether the release binaries are signed before they are published.
    pub fn signing_required(&self) -> (r: bool)
        ensures
            r == (self == Platform::Windows),
    {
        match self {
            Platform::Windows => true,
            _ => false,
        }
    }
}

} // verus!
