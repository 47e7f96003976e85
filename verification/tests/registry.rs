use yuma::error::YumaError;
use yuma::packager::{Confirm, GenericName, PackageBackend, Packager, PackagerType};
use yuma::pkgs::Pkgs;
use yuma::registry::{PackagerDerivation, Packages};

struct TestBackend {
    installed: Vec<String>,
    leaves: Vec<String>,
    installs: Vec<Vec<String>>,
    removals: Vec<Vec<String>>,
}

impl TestBackend {
    fn new(installed: Vec<String>, leaves: Vec<String>) -> Self {
        TestBackend { installed, leaves, installs: Vec::new(), removals: Vec::new() }
    }
}

impl PackageBackend for TestBackend {
    fn list_installed(&mut self, _kind: &Packager) -> Result<Vec<String>, YumaError> {
        Ok(self.installed.clone())
    }

    fn list_leaves(&mut self, _kind: &Packager) -> Result<Vec<String>, YumaError> {
        Ok(self.leaves.clone())
    }

    fn install(&mut self, _kind: &Packager, pkgs: &Vec<String>) -> Result<(), YumaError> {
        self.installs.push(pkgs.clone());
        Ok(())
    }

    fn remove(&mut self, _kind: &Packager, pkgs: &Vec<String>) -> Result<(), YumaError> {
        self.removals.push(pkgs.clone());
        Ok(())
    }

    fn resolve_name(&mut self, _kind: &Packager, name: GenericName) -> Result<String, YumaError> {
        Ok(name.0)
    }
}

struct ScriptedConfirm {
    answers: Vec<bool>,
    asked: Vec<(String, Vec<String>)>,
}

impl ScriptedConfirm {
    fn new(answers: Vec<bool>) -> Self {
        ScriptedConfirm { answers, asked: Vec::new() }
    }
}

impl Confirm for ScriptedConfirm {
    fn confirm(&mut self, verb: &str, names: &Vec<String>) -> Result<bool, YumaError> {
        self.asked.push((String::from(verb), names.clone()));
        if self.answers.is_empty() {
            Ok(false)
        } else {
            Ok(self.answers.remove(0))
        }
    }
}

fn names(list: &[&str]) -> Vec<String> {
    list.iter().map(|s| String::from(*s)).collect()
}

#[test]
fn equal_backends_share_one_entry() {
    let mut reg = Packages::new();
    reg.add(vec![
        Pkgs::new(PackagerType::Fake, names(&["a"])),
        Pkgs::new(PackagerType::Fake, names(&["b"])),
    ]);
    assert_eq!(reg.len(), 1);
    assert_eq!(reg.count_backend(&Packager::fake()), 1);
    assert_eq!(*reg.enabled_at(0), names(&["a", "b"]));

    reg.add(vec![Pkgs::new(PackagerType::Fake, names(&["c"]))]);
    assert_eq!(reg.len(), 1);
    assert_eq!(*reg.enabled_at(0), names(&["a", "b", "c"]));
}

#[test]
fn distinct_backends_get_distinct_entries() {
    let mut reg = Packages::new();
    reg.add(vec![
        Pkgs::new(PackagerType::Paru, names(&["a"])),
        Pkgs::new(PackagerType::Brew, names(&["b"])),
        Pkgs::new(PackagerType::Paru, names(&["c"])),
    ]);
    assert_eq!(reg.len(), 2);
    assert_eq!(reg.count_backend(&Packager::paru()), 1);
    assert_eq!(reg.count_backend(&Packager::brew()), 1);
    assert_eq!(reg.count_backend(&Packager::fake()), 0);
    assert_eq!(reg.kind_at(0).kind, PackagerType::Paru);
    assert_eq!(*reg.enabled_at(0), names(&["a", "c"]));
    assert_eq!(kind_name(reg.kind_at(1).kind), "brew");
    assert_eq!(*reg.enabled_at(1), names(&["b"]));
}

fn kind_name(kind: PackagerType) -> &'static str {
    match kind {
        PackagerType::Paru => "paru",
        PackagerType::Brew => "brew",
        PackagerType::Fake => "fake",
    }
}

#[test]
fn prune_proposes_undeclared_leaves() {
    let mut reg = Packages::new();
    reg.add(vec![Pkgs::new(PackagerType::Fake, Vec::new())]);

    let mut backend = TestBackend::new(Vec::new(), names(&["old"]));
    let mut confirm = ScriptedConfirm::new(vec![true]);
    assert!(reg.prune(&mut backend, &mut confirm).is_ok());

    assert_eq!(confirm.asked, vec![(String::from("remove"), names(&["old"]))]);
    assert_eq!(backend.removals, vec![names(&["old"])]);
    assert_eq!(reg.len(), 0);
}

#[test]
fn declined_prune_removes_nothing() {
    let mut reg = Packages::new();
    reg.add(vec![Pkgs::new(PackagerType::Fake, Vec::new())]);

    let mut backend = TestBackend::new(Vec::new(), names(&["old"]));
    let mut confirm = ScriptedConfirm::new(vec![false]);
    assert!(reg.prune(&mut backend, &mut confirm).is_ok());

    assert_eq!(confirm.asked, vec![(String::from("remove"), names(&["old"]))]);
    assert!(backend.removals.is_empty());
    assert_eq!(reg.len(), 0);
}

#[test]
fn confirmed_install_unprunes_what_it_installs() {
    let mut reg = Packages::new();
    reg.add(vec![Pkgs::new(PackagerType::Fake, names(&["a", "old"]))]);

    // The backend reports "a" and "old" as leaves; declaring and then
    // installing both must leave nothing prunable.
    let mut backend = TestBackend::new(Vec::new(), names(&["a", "old"]));
    let mut confirm = ScriptedConfirm::new(vec![true]);
    assert!(reg.install(&mut backend, &mut confirm).is_ok());
    assert_eq!(backend.installs, vec![names(&["a", "old"])]);
    assert_eq!(reg.prunable_at(0), Some(&Vec::new()));

    let mut confirm2 = ScriptedConfirm::new(vec![false]);
    assert!(reg.prune(&mut backend, &mut confirm2).is_ok());
    assert_eq!(confirm2.asked, vec![(String::from("remove"), Vec::new())]);
}

#[test]
fn conflicting_backend_is_refused() {
    let mut entry = PackagerDerivation::new(Pkgs::new(PackagerType::Paru, names(&["a"])));
    let r = entry.add(Pkgs::new(PackagerType::Brew, names(&["b"])));
    assert!(matches!(r, Err(YumaError::Conflict { .. })));

    let r = entry.add(Pkgs::new(PackagerType::Paru, names(&["c"])));
    assert!(r.is_ok());
}
