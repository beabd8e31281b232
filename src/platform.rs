use vstd::prelude::*;
use vstd::string::*;

use crate::error::Error;
use crate::text::text_is;

verus! {

/// An operating system, as far as download addresses and browser locations tell them apart.
#[derive(Debug)]
pub enum Os {
    Linux,
    MacOs,
    Windows,
    Other { name: String },
}

/// The system a driver is installed for: its operating system and pointer width in bits.
#[derive(Debug)]
pub struct Platform {
    pub os: Os,
    pub pointer_width: u32,
}

/// Relies on sys_info::os_type: the kernel's name for itself ("Linux", "Darwin",
/// "Windows"). What it returns depends on the machine, so nothing is stated of it.
#[verifier::external_body]
fn kernel_name() -> (r: Option<String>) {
    sys_info::os_type().ok()
}

impl Os {
    /// The system named by a Rust target name (`linux`, `macos`, `windows`).
    pub fn from_target_name(name: &str) -> (r: Os)
        ensures
            name@ == "linux"@ ==> r is Linux,
            name@ == "macos"@ ==> r is MacOs,
            name@ == "windows"@ ==> r is Windows,
            name@ != "linux"@ && name@ != "macos"@ && name@ != "windows"@ ==> (r matches Os::Other {
                name: n,
            } && n@ == name@),
    {
        proof {
            reveal_strlit("linux");
            reveal_strlit("macos");
            reveal_strlit("windows");
            assert("linux"@[0] != "macos"@[0] && "linux"@[0] != "windows"@[0]);
            assert("macos"@[0] != "windows"@[0]);
        }
        if text_is(name, "linux") {
            Os::Linux
        } else if text_is(name, "macos") {
            Os::MacOs
        } else if text_is(name, "windows") {
            Os::Windows
        } else {
            Os::Other { name: String::from_str(name) }
        }
    }

    /// The system named by a kernel type name (`Linux`, `Darwin`, `Windows`).
    pub fn from_kernel_name(name: &str) -> (r: Os)
        ensures
            name@ == "Linux"@ ==> r is Linux,
            name@ == "Darwin"@ ==> r is MacOs,
            name@ == "Windows"@ ==> r is Windows,
            name@ != "Linux"@ && name@ != "Darwin"@ && name@ != "Windows"@ ==> (r matches Os::Other {
                name: n,
            } && n@ == name@),
    {
        proof {
            reveal_strlit("Linux");
            reveal_strlit("Darwin");
            reveal_strlit("Windows");
            assert("Linux"@[0] != "Darwin"@[0] && "Linux"@[0] != "Windows"@[0]);
            assert("Darwin"@[0] != "Windows"@[0]);
        }
        if text_is(name, "Linux") {
            Os::Linux
        } else if text_is(name, "Darwin") {
            Os::MacOs
        } else if text_is(name, "Windows") {
            Os::Windows
        } else {
            Os::Other { name: String::from_str(name) }
        }
    }

    /// The running system, as its kernel names itself.
    pub fn from_kernel() -> (r: Result<Os, Error>)
        ensures
            r matches Err(e) ==> e is UnsupportedPlatform,
    {
        match kernel_name() {
            Some(name) => Ok(Os::from_kernel_name(name.as_str())),
            None => Err(Error::UnsupportedPlatform { os: String::new() }),
        }
    }

    /// The name the system goes by in error reports.
    pub fn name(&self) -> (r: String)
        ensures
            self matches Os::Other { name } ==> r@ == name@,
            self is Linux ==> r@ == "linux"@,
            self is MacOs ==> r@ == "macos"@,
            self is Windows ==> r@ == "windows"@,
    {
        match self {
            Os::Linux => String::from_str("linux"),
            Os::MacOs => String::from_str("macos"),
            Os::Windows => String::from_str("windows"),
            Os::Other { name } => name.clone(),
        }
    }
}

} // verus!
