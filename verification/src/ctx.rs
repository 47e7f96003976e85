//! The session context: one registry, one callback queue, one
//! service-declaration list, and the lifecycle around them.  A session
//! accepts declarations, reconciles them on [`YumaCtx::update`], and is
//! guaranteed to flush queued callbacks when it is torn down.

use vstd::prelude::*;

use crate::callbacks::Callbacks;
use crate::error::YumaError;
use crate::host;
use crate::packager::{Confirm, PackageBackend};
use crate::pkgs::GroupModel;
use crate::registry::{prunable_shrinks, reg_add_all, AsPkgList, EntryModel, Packages};
use crate::srv::Services;

verus! {

/// The top-level mutable session object.
pub struct YumaCtx<F: FnOnce() -> Result<(), YumaError>> {
    packages: Packages,
    services: Services,
    callbacks: Callbacks<F>,
    /// Whether teardown may touch the host (prune, persist); cleared for
    /// dry runs and hermetic tests.
    is_interactive: bool,
}

impl<F: FnOnce() -> Result<(), YumaError>> YumaCtx<F> {
    /// The registry's entries.
    pub closed spec fn packages_model(self) -> Seq<EntryModel> {
        self.packages@
    }

    /// The declared services' names.
    pub closed spec fn services_model(self) -> Seq<Seq<char>> {
        self.services@
    }

    /// The scheduled callbacks still queued, oldest first.
    pub closed spec fn callback_actions(self) -> Seq<F> {
        self.callbacks.actions()
    }

    /// The names of the queued callbacks, oldest first.
    pub closed spec fn callback_names(self) -> Seq<Seq<char>> {
        self.callbacks.names()
    }

    /// Whether teardown may touch the host.
    pub closed spec fn interactive(self) -> bool {
        self.is_interactive
    }

    /// A fresh session.  It counts as interactive when standard output is
    /// a terminal.
    pub fn new() -> (r: Self)
        ensures
            r.packages_model() =~= Seq::<EntryModel>::empty(),
            r.services_model() =~= Seq::<Seq<char>>::empty(),
            r.callback_actions() =~= Seq::<F>::empty(),
    {
        YumaCtx {
            packages: Packages::new(),
            services: Services::new(),
            callbacks: Callbacks::new(),
            is_interactive: host::stdout_is_tty(),
        }
    }

    /// A fresh hermetic session for tests and what-if runs: teardown will
    /// neither prune nor persist anything.
    pub fn stub() -> (r: Self)
        ensures
            r.packages_model() =~= Seq::<EntryModel>::empty(),
            r.services_model() =~= Seq::<Seq<char>>::empty(),
            r.callback_actions() =~= Seq::<F>::empty(),
            !r.interactive(),
    {
        YumaCtx {
            packages: Packages::new(),
            services: Services::new(),
            callbacks: Callbacks::new(),
            is_interactive: false,
        }
    }

    /// Declares packages: the declaration is evaluated now and the
    /// resulting groups join the registry, grouped by backend.  The new
    /// registry is always the old one with a list of realized groups the
    /// declaration can stand for folded in by [`reg_add_all`]; a concrete
    /// group form pins that list exactly through
    /// [`AsPkgList::possible_groups`], while builder forms leave it to
    /// the live environment their filters are judged against.  The fold
    /// itself is fully specified by [`Packages::add`].
    pub fn add<P: AsPkgList>(&mut self, pkgs: P)
        ensures
            exists|gs: Seq<GroupModel>|
                pkgs.possible_groups(gs) && final (self).packages_model() == #[trigger] reg_add_all(
                    old(self).packages_model(),
                    gs,
                ),
            final (self).services_model() == old(self).services_model(),
            final (self).callback_actions() == old(self).callback_actions(),
            final (self).interactive() == old(self).interactive(),
    {
        let groups = pkgs.list();
        self.packages.add(groups);
        proof {
            assert(self.packages_model() == reg_add_all(
                old(self).packages_model(),
                groups.deep_view(),
            ));
        }
    }

    /// An alias for [`YumaCtx::add`], kept for a potential name change.
    pub fn with<P: AsPkgList>(&mut self, pkgs: P)
        ensures
            exists|gs: Seq<GroupModel>|
                pkgs.possible_groups(gs) && final (self).packages_model() == #[trigger] reg_add_all(
                    old(self).packages_model(),
                    gs,
                ),
            final (self).services_model() == old(self).services_model(),
            final (self).callback_actions() == old(self).callback_actions(),
            final (self).interactive() == old(self).interactive(),
    {
        self.add(pkgs)
    }

    /// Schedules a named action to run after the next update, or at
    /// teardown at the latest.
    pub fn schedule(&mut self, name: &str, f: F)
        requires
            call_requires(f, ()),
        ensures
            final (self).callback_names() =~= old(self).callback_names().push(name@),
            final (self).callback_actions() =~= old(self).callback_actions().push(f),
            final (self).packages_model() == old(self).packages_model(),
            final (self).services_model() == old(self).services_model(),
            final (self).interactive() == old(self).interactive(),
    {
        self.callbacks.add(name.to_owned(), f)
    }

    /// One reconciliation cycle: waits on any pending callbacks, drives
    /// the registry's install pass against the backend and the
    /// confirmation collaborator, then runs the queued callbacks in
    /// order.  The first failure surfaces at once; an install failure
    /// leaves the callbacks queued for the next cycle or teardown.
    pub fn update<B: PackageBackend, C: Confirm>(&mut self, backend: &mut B, confirm: &mut C) -> (r:
        Result<(), YumaError>)
        ensures
            final (self).services_model() == old(self).services_model(),
            final (self).interactive() == old(self).interactive(),
            final (self).packages_model().len() == old(self).packages_model().len(),
            forall|k: int|
                0 <= k < old(self).packages_model().len() ==> #[trigger] final (
                self).packages_model()[k].kind == old(self).packages_model()[k].kind,
            forall|k: int|
                0 <= k < old(self).packages_model().len() ==> prunable_shrinks(
                    #[trigger] old(self).packages_model()[k],
                    final (self).packages_model()[k],
                ),
            final (self).callback_actions() =~= old(self).callback_actions() || final (
            self).callback_actions() =~= Seq::<F>::empty(),
            old(self).packages_model().len() == 0 && old(self).callback_actions().len() == 0
                ==> r is Ok,
            r is Ok ==> final (self).callback_actions() =~= Seq::<F>::empty() && (forall|i: int|
                0 <= i < old(self).callback_actions().len() ==> call_ensures(
                    #[trigger] old(self).callback_actions()[i],
                    (),
                    Ok::<(), YumaError>(()),
                )) && (forall|k: int|
                0 <= k < final (self).packages_model().len() ==> (#[trigger] final (
                self).packages_model()[k]).enabled.len() == 0),
    {
        match self.callbacks.wait() {
            Ok(()) => {},
            Err(e) => {
                return Err(e);
            },
        }
        match self.packages.install(backend, confirm) {
            Ok(()) => {},
            Err(e) => {
                return Err(e);
            },
        }
        match self.callbacks.run() {
            Ok(()) => {},
            Err(e) => {
                return Err(e);
            },
        }
        Ok(())
    }

    /// Marks the session as a dry run: teardown will neither persist nor
    /// prune.
    pub fn dry_run(&mut self)
        ensures
            !final (self).interactive(),
            final (self).packages_model() == old(self).packages_model(),
            final (self).services_model() == old(self).services_model(),
            final (self).callback_actions() == old(self).callback_actions(),
    {
        self.is_interactive = false;
    }

    /// The explicit teardown step: flushes any callbacks still queued and
    /// waits on them, then — unless the session is a dry run — drives the
    /// registry's prune pass.  The callback queue is empty afterwards in
    /// every case; a callback failure surfaces and skips the prune.
    pub fn teardown<B: PackageBackend, C: Confirm>(
        &mut self,
        backend: &mut B,
        confirm: &mut C,
    ) -> (r: Result<(), YumaError>)
        ensures
            final (self).callback_actions() =~= Seq::<F>::empty(),
            final (self).interactive() == old(self).interactive(),
            old(self).callback_actions().len() == 0 && !old(self).interactive() ==> r is Ok,
            old(self).callback_actions().len() == 0 && old(self).packages_model().len() == 0
                ==> r is Ok,
            r is Ok && old(self).interactive() ==> final (self).packages_model().len() == 0,
            !old(self).interactive() ==> final (self).packages_model() == old(
                self,
            ).packages_model(),
            r is Ok ==> forall|i: int|
                0 <= i < old(self).callback_actions().len() ==> call_ensures(
                    #[trigger] old(self).callback_actions()[i],
                    (),
                    Ok::<(), YumaError>(()),
                ),
    {
        match self.callbacks.run() {
            Ok(()) => {},
            Err(e) => {
                return Err(e);
            },
        }
        match self.callbacks.wait() {
            Ok(()) => {},
            Err(e) => {
                return Err(e);
            },
        }
        if self.is_interactive {
            match self.packages.prune(backend, confirm) {
                Ok(()) => {},
                Err(e) => {
                    return Err(e);
                },
            }
        }
        Ok(())
    }

    /// The session's registry, for inspection or persistence.
    pub fn packages(&self) -> (r: &Packages)
        ensures
            r@ == self.packages_model(),
    {
        &self.packages
    }

    /// The session's service declarations.
    pub fn services(&self) -> (r: &Services)
        ensures
            r@ == self.services_model(),
    {
        &self.services
    }

    /// Whether teardown may touch the host.
    pub fn is_interactive(&self) -> (r: bool)
        ensures
            r == self.interactive(),
    {
        self.is_interactive
    }
}

impl<F: FnOnce() -> Result<(), YumaError>> Drop for YumaCtx<F> {
    /// Teardown always flushes callbacks still queued, so scheduled
    /// actions are never silently dropped, even if the session is
    /// discarded without an update.  The body only forwards to the
    /// verified [`Callbacks::run`] and [`Callbacks::wait`]; it stays
    /// outside verification because a destructor must be proved not to
    /// unwind, and the user-supplied actions it invokes carry no such
    /// guarantee.  Pruning and persistence are the explicit
    /// [`YumaCtx::teardown`] step's business, since they need the
    /// backend.
    #[verifier::external_body]
    fn drop(&mut self)
        opens_invariants none
        no_unwind
    {
        let _ = self.callbacks.run();
        let _ = self.callbacks.wait();
    }
}

} // verus!
