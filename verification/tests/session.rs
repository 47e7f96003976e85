use yuma::ctx::YumaCtx;
use yuma::error::YumaError;
use yuma::packager::{Confirm, GenericName, PackageBackend, Packager, PackagerType};
use yuma::pkgs::Pkgs;

/// A backend test double whose query answers are chosen by the test and
/// which records every write it is asked to perform.
struct TestBackend {
    installed: Vec<String>,
    leaves: Vec<String>,
    installs: Vec<Vec<String>>,
    removals: Vec<Vec<String>>,
}

impl TestBackend {
    fn new(installed: Vec<String>, leaves: Vec<String>) -> Self {
        TestBackend { installed, leaves, installs: Vec::new(), removals: Vec::new() }
    }
}

impl PackageBackend for TestBackend {
    fn list_installed(&mut self, _kind: &Packager) -> Result<Vec<String>, YumaError> {
        Ok(self.installed.clone())
    }

    fn list_leaves(&mut self, _kind: &Packager) -> Result<Vec<String>, YumaError> {
        Ok(self.leaves.clone())
    }

    fn install(&mut self, _kind: &Packager, pkgs: &Vec<String>) -> Result<(), YumaError> {
        self.installs.push(pkgs.clone());
        Ok(())
    }

    fn remove(&mut self, _kind: &Packager, pkgs: &Vec<String>) -> Result<(), YumaError> {
        self.removals.push(pkgs.clone());
        Ok(())
    }

    fn resolve_name(&mut self, _kind: &Packager, name: GenericName) -> Result<String, YumaError> {
        Ok(name.0)
    }
}

/// A confirmation double that answers from a script and records every
/// proposal put to it.
struct ScriptedConfirm {
    answers: Vec<bool>,
    asked: Vec<(String, Vec<String>)>,
}

impl ScriptedConfirm {
    fn new(answers: Vec<bool>) -> Self {
        ScriptedConfirm { answers, asked: Vec::new() }
    }
}

impl Confirm for ScriptedConfirm {
    fn confirm(&mut self, verb: &str, names: &Vec<String>) -> Result<bool, YumaError> {
        self.asked.push((String::from(verb), names.clone()));
        if self.answers.is_empty() {
            Ok(false)
        } else {
            Ok(self.answers.remove(0))
        }
    }
}

fn names(list: &[&str]) -> Vec<String> {
    list.iter().map(|s| String::from(*s)).collect()
}

#[test]
fn implicit_drop_callback() {
    let (tx, rx) = std::sync::mpsc::channel();

    {
        let mut ctx = YumaCtx::stub();

        ctx.schedule("test", move || {
            assert!(tx.send(()).is_ok());
            Ok(())
        });
    }

    assert!(rx.recv().is_ok());
}

#[test]
fn feature() {
    {
        let mut ctx: YumaCtx<fn() -> Result<(), YumaError>> = YumaCtx::stub();

        let pkgs = Pkgs::new(PackagerType::Fake, Vec::new());

        ctx.add(pkgs)
    }
}

#[test]
fn empty_session_cycles_cleanly() {
    let mut ctx: YumaCtx<fn() -> Result<(), YumaError>> = YumaCtx::stub();
    let mut backend = TestBackend::new(Vec::new(), Vec::new());
    let mut confirm = ScriptedConfirm::new(Vec::new());
    assert!(ctx.update(&mut backend, &mut confirm).is_ok());
    assert!(ctx.teardown(&mut backend, &mut confirm).is_ok());
    assert!(confirm.asked.is_empty());
    assert!(backend.installs.is_empty());
    assert!(backend.removals.is_empty());
}

#[test]
fn teardown_runs_pending_callbacks_once() {
    let (tx, rx) = std::sync::mpsc::channel();

    let mut ctx = YumaCtx::stub();
    let sender = tx.clone();
    ctx.schedule("late", move || {
        let _ = sender.send("ran");
        Ok(())
    });

    let mut backend = TestBackend::new(Vec::new(), Vec::new());
    let mut confirm = ScriptedConfirm::new(Vec::new());
    assert!(ctx.teardown(&mut backend, &mut confirm).is_ok());
    assert_eq!(rx.try_recv(), Ok("ran"));

    drop(ctx);
    assert!(rx.try_recv().is_err());
}

#[test]
fn update_proposes_declared_minus_installed() {
    let mut ctx: YumaCtx<fn() -> Result<(), YumaError>> = YumaCtx::stub();
    ctx.add(Pkgs::new(PackagerType::Fake, names(&["a", "b"])));

    let mut backend = TestBackend::new(Vec::new(), Vec::new());
    let mut confirm = ScriptedConfirm::new(vec![false]);
    assert!(ctx.update(&mut backend, &mut confirm).is_ok());

    assert_eq!(confirm.asked.len(), 1);
    assert_eq!(confirm.asked[0].0, "install");
    assert_eq!(confirm.asked[0].1, names(&["a", "b"]));
    assert!(backend.installs.is_empty());

    // Declining leaves no false memory: the same declarations are
    // proposed in full on the next cycle.
    ctx.add(Pkgs::new(PackagerType::Fake, names(&["a", "b"])));
    let mut confirm2 = ScriptedConfirm::new(vec![true]);
    assert!(ctx.update(&mut backend, &mut confirm2).is_ok());
    assert_eq!(confirm2.asked.len(), 1);
    assert_eq!(confirm2.asked[0].1, names(&["a", "b"]));
    assert_eq!(backend.installs, vec![names(&["a", "b"])]);
}

#[test]
fn update_never_proposes_already_installed() {
    let mut ctx: YumaCtx<fn() -> Result<(), YumaError>> = YumaCtx::stub();
    ctx.add(Pkgs::new(PackagerType::Fake, names(&["a", "b", "c"])));

    let mut backend = TestBackend::new(names(&["b", "x"]), Vec::new());
    let mut confirm = ScriptedConfirm::new(vec![true]);
    assert!(ctx.update(&mut backend, &mut confirm).is_ok());

    assert_eq!(confirm.asked[0].1, names(&["a", "c"]));
    assert_eq!(backend.installs, vec![names(&["a", "c"])]);
}

#[test]
fn dry_run_teardown_skips_pruning() {
    let mut ctx: YumaCtx<fn() -> Result<(), YumaError>> = YumaCtx::new();
    ctx.dry_run();
    assert!(!ctx.is_interactive());

    // A dry-run session must not touch the prunable set at teardown.
    ctx.add(Pkgs::new(PackagerType::Fake, Vec::new()));
    let mut backend = TestBackend::new(Vec::new(), names(&["old"]));
    let mut confirm = ScriptedConfirm::new(vec![true]);
    assert!(ctx.teardown(&mut backend, &mut confirm).is_ok());
    assert!(confirm.asked.is_empty());
    assert!(backend.removals.is_empty());
}

#[test]
fn update_surfaces_backend_failure_and_keeps_callbacks() {
    struct FailingBackend;

    impl PackageBackend for FailingBackend {
        fn list_installed(&mut self, _kind: &Packager) -> Result<Vec<String>, YumaError> {
            Err(YumaError::Io { detail: String::from("no tool") })
        }

        fn list_leaves(&mut self, _kind: &Packager) -> Result<Vec<String>, YumaError> {
            Err(YumaError::Io { detail: String::from("no tool") })
        }

        fn install(&mut self, _kind: &Packager, _pkgs: &Vec<String>) -> Result<(), YumaError> {
            Err(YumaError::Io { detail: String::from("no tool") })
        }

        fn remove(&mut self, _kind: &Packager, _pkgs: &Vec<String>) -> Result<(), YumaError> {
            Err(YumaError::Io { detail: String::from("no tool") })
        }

        fn resolve_name(
            &mut self,
            _kind: &Packager,
            name: GenericName,
        ) -> Result<String, YumaError> {
            Ok(name.0)
        }
    }

    let (tx, rx) = std::sync::mpsc::channel();
    let mut ctx = YumaCtx::stub();
    let sender = tx.clone();
    ctx.schedule("after", move || {
        let _ = sender.send(());
        Ok(())
    });
    ctx.add(Pkgs::new(PackagerType::Fake, names(&["a"])));

    let mut backend = FailingBackend;
    let mut confirm = ScriptedConfirm::new(vec![true]);
    let r = ctx.update(&mut backend, &mut confirm);
    assert_eq!(r, Err(YumaError::Io { detail: String::from("no tool") }));

    // The callback did not run during the failed cycle, and is still
    // guaranteed to run when the session is dropped.
    assert!(rx.try_recv().is_err());
    drop(ctx);
    assert_eq!(rx.try_recv(), Ok(()));
}
