//! Backend identity and the uniform interface over concrete package
//! managers.  A [`Packager`] is a cheap value naming one manager; the
//! subprocess-driving adapters implement [`PackageBackend`] outside this
//! crate, while the test double and the stub live here.

use vstd::prelude::*;

use crate::error::YumaError;
use crate::host;

verus! {

/// The closed set of package-manager kinds this crate knows.
#[derive(Debug, Clone, Copy, PartialEq, Eq, Structural)]
pub enum PackagerType {
    /// The Arch/AUR helper.
    Paru,
    /// The macOS package manager.
    Brew,
    /// The test double: reads are empty, writes succeed without effect.
    Fake,
}

/// Identifies one package-manager adapter.  Two packagers are equal
/// exactly when their kinds match.
#[derive(Debug, Clone, Copy, PartialEq, Eq, Structural)]
pub struct Packager {
    /// Which manager this value names.
    pub kind: PackagerType,
}

/// Which backend a guess lands on for a given processor architecture.
pub open spec fn guessed_kind(arch: Seq<char>) -> PackagerType {
    if arch == "x86_64"@ {
        PackagerType::Paru
    } else {
        PackagerType::Brew
    }
}

impl Packager {
    /// The best guess for the host's package manager, from the processor
    /// architecture: paru on x86_64 machines, brew otherwise.  Where the
    /// architecture cannot be read at all, the guess falls back to brew.
    pub fn guess() -> (r: Self)
        ensures
            r.kind == PackagerType::Paru || r.kind == PackagerType::Brew,
    {
        match host::current_env() {
            Some(env) => Self::guess_for_arch(&env.arch),
            None => Packager { kind: PackagerType::Brew },
        }
    }

    /// The guess for one known architecture string.
    pub fn guess_for_arch(arch: &String) -> (r: Self)
        ensures
            r.kind == guessed_kind(arch@),
    {
        if arch.eq(&String::from_str("x86_64")) {
            Packager { kind: PackagerType::Paru }
        } else {
            Packager { kind: PackagerType::Brew }
        }
    }

    /// The paru adapter's identity.
    pub fn paru() -> (r: Self)
        ensures
            r.kind == PackagerType::Paru,
    {
        Packager { kind: PackagerType::Paru }
    }

    /// The brew adapter's identity.
    pub fn brew() -> (r: Self)
        ensures
            r.kind == PackagerType::Brew,
    {
        Packager { kind: PackagerType::Brew }
    }

    /// The test double's identity.
    pub fn fake() -> (r: Self)
        ensures
            r.kind == PackagerType::Fake,
    {
        Packager { kind: PackagerType::Fake }
    }

    /// The identity for an explicitly chosen kind.
    pub fn of_type(kind: PackagerType) -> (r: Self)
        ensures
            r.kind == kind,
    {
        Packager { kind }
    }
}

impl PackagerType {
    /// Parses a packager name as it appears in a name-index registry
    /// directory.  Only the spellings the registry uses are accepted.
    pub fn from_name(name: &String) -> (r: Result<Self, YumaError>)
        ensures
            name@ == "Paur"@ || name@ == "paur"@ ==> r == Ok::<PackagerType, YumaError>(
                PackagerType::Paru,
            ),
            name@ == "Brew"@ || name@ == "brew"@ ==> r == Ok::<PackagerType, YumaError>(
                PackagerType::Brew,
            ),
            !(name@ == "Paur"@ || name@ == "paur"@ || name@ == "Brew"@ || name@ == "brew"@) ==> (
            r matches Err(e) && e matches YumaError::InvalidPackage { name: n } && n@ == name@),
    {
        proof {
            reveal_strlit("Paur");
            reveal_strlit("paur");
            reveal_strlit("Brew");
            reveal_strlit("brew");
            assert("Paur"@[0] == 'P' && "paur"@[0] == 'p' && "Brew"@[0] == 'B' && "brew"@[0]
                == 'b');
        }
        if name.eq(&String::from_str("Paur")) || name.eq(&String::from_str("paur")) {
            Ok(PackagerType::Paru)
        } else if name.eq(&String::from_str("Brew")) || name.eq(&String::from_str("brew")) {
            Ok(PackagerType::Brew)
        } else {
            Err(YumaError::InvalidPackage { name: name.clone() })
        }
    }
}

/// A portable package name, to be resolved to a backend-specific name
/// through the name-index registry.
#[derive(Debug, Clone, PartialEq, Eq)]
pub struct GenericName(pub String);

impl View for GenericName {
    type V = Seq<char>;

    open spec fn view(&self) -> Seq<char> {
        self.0@
    }
}

impl GenericName {
    /// Wraps a portable name.
    pub fn new(name: String) -> (r: Self)
        ensures
            r@ == name@,
    {
        GenericName(name)
    }
}

/// The uniform five-operation contract over a host's package managers.
/// One implementation serves every [`Packager`] kind; each call names the
/// kind it is for.  Implementations drive external tools, so nothing is
/// promised of their results: the logic that consumes them is verified
/// for every possible outcome.
pub trait PackageBackend {
    /// Every package the manager currently has present, dependencies
    /// included.
    fn list_installed(&mut self, kind: &Packager) -> Result<Vec<String>, YumaError>;

    /// The installed packages that were explicitly requested, not pulled
    /// in only as dependencies.
    fn list_leaves(&mut self, kind: &Packager) -> Result<Vec<String>, YumaError>;

    /// Installs the named packages.
    fn install(&mut self, kind: &Packager, pkgs: &Vec<String>) -> Result<(), YumaError>;

    /// Removes the named packages.
    fn remove(&mut self, kind: &Packager, pkgs: &Vec<String>) -> Result<(), YumaError>;

    /// Maps a portable name to this backend's specific package name.
    fn resolve_name(&mut self, kind: &Packager, name: GenericName) -> Result<String, YumaError>;
}

/// The test double: it reports nothing installed, and every write
/// succeeds without doing anything.
#[derive(Debug, Clone, Copy, PartialEq, Eq, Structural)]
pub struct FakePackager;

impl PackageBackend for FakePackager {
    fn list_installed(&mut self, kind: &Packager) -> (r: Result<Vec<String>, YumaError>)
        ensures
            r matches Ok(v) && v@.len() == 0,
    {
        Ok(Vec::new())
    }

    fn list_leaves(&mut self, kind: &Packager) -> (r: Result<Vec<String>, YumaError>)
        ensures
            r matches Ok(v) && v@.len() == 0,
    {
        Ok(Vec::new())
    }

    fn install(&mut self, kind: &Packager, pkgs: &Vec<String>) -> (r: Result<(), YumaError>)
        ensures
            r is Ok,
    {
        Ok(())
    }

    fn remove(&mut self, kind: &Packager, pkgs: &Vec<String>) -> (r: Result<(), YumaError>)
        ensures
            r is Ok,
    {
        Ok(())
    }

    fn resolve_name(&mut self, kind: &Packager, name: GenericName) -> (r: Result<
        String,
        YumaError,
    >)
        ensures
            r matches Ok(n) && n@ == name@,
    {
        Ok(name.0)
    }
}

/// The cargo adapter is a stub: every operation fails.
#[derive(Debug, Clone, Copy, PartialEq, Eq, Structural)]
pub struct CargoPackager;

impl PackageBackend for CargoPackager {
    fn list_installed(&mut self, kind: &Packager) -> (r: Result<Vec<String>, YumaError>)
        ensures
            r is Err,
    {
        Err(YumaError::Unknown)
    }

    fn list_leaves(&mut self, kind: &Packager) -> (r: Result<Vec<String>, YumaError>)
        ensures
            r is Err,
    {
        Err(YumaError::Unknown)
    }

    fn install(&mut self, kind: &Packager, pkgs: &Vec<String>) -> (r: Result<(), YumaError>)
        ensures
            r is Err,
    {
        Err(YumaError::Unknown)
    }

    fn remove(&mut self, kind: &Packager, pkgs: &Vec<String>) -> (r: Result<(), YumaError>)
        ensures
            r is Err,
    {
        Err(YumaError::Unknown)
    }

    fn resolve_name(&mut self, kind: &Packager, name: GenericName) -> (r: Result<
        String,
        YumaError,
    >)
        ensures
            r is Err,
    {
        Err(YumaError::Unknown)
    }
}

/// The yes/no confirmation collaborator consulted before any install or
/// remove is issued.  The terminal implementation lives outside this
/// crate; tests answer from a script.  Nothing is promised of the answer.
pub trait Confirm {
    /// Asks whether to go ahead with `verb` on `names`.
    fn confirm(&mut self, verb: &str, names: &Vec<String>) -> Result<bool, YumaError>;
}

} // verus!
