//! The names that release files give to machines and systems.

use vstd::prelude::*;
use vstd::string::*;
use crate::text::str_eq;

verus! {

/// A machine or a system for which no release exists.
#[derive(Debug, Clone, PartialEq, Eq)]
pub enum SystemError {
    UnsupportedArch(String),
    UnsupportedOs(String),
}

/// What a [`SystemError`] is in contracts.
pub enum SystemErrorView {
    UnsupportedArch(Seq<char>),
    UnsupportedOs(Seq<char>),
}

impl View for SystemError {
    type V = SystemErrorView;

    open spec fn view(&self) -> SystemErrorView {
        match self {
            SystemError::UnsupportedArch(arch) => SystemErrorView::UnsupportedArch(arch@),
            SystemError::UnsupportedOs(os) => SystemErrorView::UnsupportedOs(os@),
        }
    }
}

impl SystemError {
    /// The error as a sentence.
    pub open spec fn message_of(self) -> Seq<char> {
        match self {
            SystemError::UnsupportedArch(arch) => "Unsupported architecture: "@ + arch@,
            SystemError::UnsupportedOs(os) => "Unsupported OS: "@ + os@,
        }
    }

    /// The error as a sentence.
    pub fn message(&self) -> (message: String)
        ensures
            message@ == self.message_of(),
    {
        match self {
            SystemError::UnsupportedArch(arch) => {
                String::from_str("Unsupported architecture: ").concat(arch.as_str())
            },
            SystemError::UnsupportedOs(os) => String::from_str("Unsupported OS: ").concat(os.as_str()),
        }
    }
}

/// The release name of a machine architecture, where there is one.
pub open spec fn arch_name(arch: Seq<char>) -> Option<Seq<char>> {
    if arch == "x86_64"@ {
        Some("amd64"@)
    } else if arch == "aarch64"@ {
        Some("arm64"@)
    } else if arch == "arm"@ {
        Some("armv7"@)
    } else {
        None
    }
}

/// The release name of an operating system, where there is one.
pub open spec fn os_name(os: Seq<char>) -> Option<Seq<char>> {
    if os == "linux"@ {
        Some("linux"@)
    } else if os == "macos"@ {
        Some("darwin"@)
    } else {
        None
    }
}

/// What a result of a name or an error is in contracts.
pub open spec fn name_view(result: Result<&'static str, SystemError>) -> Result<
    Seq<char>,
    SystemErrorView,
> {
    match result {
        Ok(name) => Ok(name@),
        Err(error) => Err(error@),
    }
}

/// The release name of the architecture that the compiler calls `arch`.
pub fn get_arch(arch: &str) -> (name: Result<&'static str, SystemError>)
    ensures
        name_view(name) == (match arch_name(arch@) {
            Some(name) => Ok::<Seq<char>, SystemErrorView>(name),
            None => Err(SystemErrorView::UnsupportedArch(arch@)),
        }),
{
    if str_eq(arch, "x86_64") {
        Ok("amd64")
    } else if str_eq(arch, "aarch64") {
        Ok("arm64")
    } else if str_eq(arch, "arm") {
        Ok("armv7")
    } else {
        Err(SystemError::UnsupportedArch(String::from_str(arch)))
    }
}

/// The release name of the operating system that the compiler calls `os`.
pub fn get_os(os: &str) -> (name: Result<&'static str, SystemError>)
    ensures
        name_view(name) == (match os_name(os@) {
            Some(name) => Ok::<Seq<char>, SystemErrorView>(name),
            None => Err(SystemErrorView::UnsupportedOs(os@)),
        }),
{
    if str_eq(os, "linux") {
        Ok("linux")
    } else if str_eq(os, "macos") {
        Ok("darwin")
    } else {
        Err(SystemError::UnsupportedOs(String::from_str(os)))
    }
}

} // verus!
