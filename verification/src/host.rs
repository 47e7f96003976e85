//! Facts about the machine a session runs on: its hostname, processor
//! architecture, and operating system.  The raw lookups go through the
//! `nix` and `atty` crates; everything read is machine-dependent, so the
//! wrappers promise nothing about the values, and the logic that consumes
//! them is verified for every possible value.

use vstd::prelude::*;

verus! {

/// The environment facts a declaration is filtered against.
pub struct HostEnv {
    /// The machine's hostname.
    pub hostname: String,
    /// The processor architecture, as the kernel names it ("x86_64").
    pub arch: String,
    /// The operating system identifier ("linux", "macos").
    pub os: String,
}

/// Relies on nix::unistd::gethostname: the machine's hostname, where the
/// system call succeeds and the name is valid UTF-8; `None` otherwise.
#[verifier::external_body]
fn read_hostname() -> (r: Option<String>) {
    nix::unistd::gethostname().ok().and_then(|h| h.into_string().ok())
}

/// Relies on nix::sys::utsname::uname: the machine field and the sysname
/// field of the kernel's identification, where the call succeeds and both
/// are valid UTF-8; `None` otherwise.
#[verifier::external_body]
fn read_uname() -> (r: Option<(String, String)>) {
    let uts = nix::sys::utsname::uname().ok()?;
    let machine = uts.machine().to_str()?.to_string();
    let sysname = uts.sysname().to_str()?.to_string();
    Some((machine, sysname))
}

/// Relies on atty::is: whether standard output is a terminal.
#[verifier::external_body]
pub(crate) fn stdout_is_tty() -> (r: bool) {
    atty::is(atty::Stream::Stdout)
}

/// The operating system identifier for a kernel sysname: the common
/// lower-case names for the kernels this crate targets, and the sysname
/// unchanged for anything else.
pub fn os_name(sysname: &String) -> (r: String)
    ensures
        sysname@ == "Linux"@ ==> r@ == "linux"@,
        sysname@ == "Darwin"@ ==> r@ == "macos"@,
        sysname@ != "Linux"@ && sysname@ != "Darwin"@ ==> r@ == sysname@,
{
    proof {
        reveal_strlit("Linux");
        reveal_strlit("Darwin");
        assert("Linux"@.len() == 5);
        assert("Darwin"@.len() == 6);
    }
    if sysname.eq(&String::from_str("Linux")) {
        String::from_str("linux")
    } else if sysname.eq(&String::from_str("Darwin")) {
        String::from_str("macos")
    } else {
        sysname.clone()
    }
}

/// The environment of the running machine, or `None` where a lookup
/// failed; a failed lookup makes every filtered declaration suppress
/// itself rather than halt the session.
pub(crate) fn current_env() -> (r: Option<HostEnv>) {
    let hostname = match read_hostname() {
        Some(h) => h,
        None => {
            return None;
        },
    };
    let (arch, sysname) = match read_uname() {
        Some(u) => u,
        None => {
            return None;
        },
    };
    let os = os_name(&sysname);
    Some(HostEnv { hostname, arch, os })
}

} // verus!
