//! The package registry: one entry per backend, each holding the declared
//! names and the prunable set, and the diff-based install and prune
//! decision procedures around them.

use vstd::prelude::*;

use crate::builder::{AsPkgBuilderList, PkgBuilder};
use crate::error::YumaError;
use crate::names::{dedup_names, dedup_of, diff_names, diff_of, lemma_diff_contains};
use crate::packager::{Confirm, PackageBackend, Packager, PackagerType};
use crate::pkgs::{GroupModel, Pkgs};

verus! {

/// What a registry entry is mathematically: its backend kind, the
/// declared (enabled) names, and the prunable set once it has been seeded
/// from the backend's leaves.
pub ghost struct EntryModel {
    /// The backend this entry belongs to.
    pub kind: PackagerType,
    /// The names declared for this backend, in declaration order.
    pub enabled: Seq<Seq<char>>,
    /// The leaves reported installed but not declared; `None` until first
    /// seeded from the backend.
    pub prunable: Option<Seq<Seq<char>>>,
}

/// No two entries name the same backend.
pub open spec fn kinds_distinct(s: Seq<EntryModel>) -> bool {
    forall|i: int, j: int| 0 <= i < j < s.len() ==> s[i].kind != s[j].kind
}

/// How many entries name the given backend.
pub open spec fn kind_count(s: Seq<EntryModel>, k: PackagerType) -> nat
    decreases s.len(),
{
    if s.len() == 0 {
        0
    } else {
        kind_count(s.drop_last(), k) + (if s.last().kind == k {
            1nat
        } else {
            0nat
        })
    }
}

/// A registry with distinct backends counts every backend at most once.
pub proof fn lemma_distinct_kind_count(s: Seq<EntryModel>, k: PackagerType)
    requires
        kinds_distinct(s),
    ensures
        kind_count(s, k) <= 1,
        kind_count(s, k) == 1 <==> (exists|i: int| 0 <= i < s.len() && s[i].kind == k),
    decreases s.len(),
{
    if s.len() > 0 {
        assert(kinds_distinct(s.drop_last()));
        lemma_distinct_kind_count(s.drop_last(), k);
        if s.last().kind == k {
            if exists|i: int| 0 <= i < s.len() - 1 && s[i].kind == k {
                let i = choose|i: int| 0 <= i < s.len() - 1 && s[i].kind == k;
                assert(s[i].kind != s[s.len() - 1].kind);
            }
            assert(kind_count(s.drop_last(), k) == 0) by {
                if kind_count(s.drop_last(), k) == 1 {
                    let i = choose|i: int|
                        0 <= i < s.drop_last().len() && s.drop_last()[i].kind == k;
                    assert(s[i].kind == k);
                }
            }
        } else {
            if exists|i: int| 0 <= i < s.len() && s[i].kind == k {
                let i = choose|i: int| 0 <= i < s.len() && s[i].kind == k;
                assert(s.drop_last()[i].kind == k);
            }
        }
    }
}

/// One group folded into a registry: append its names to the entry with
/// its backend, or open a new, not yet seeded entry.
pub open spec fn reg_add(s: Seq<EntryModel>, g: GroupModel) -> Seq<EntryModel> {
    if exists|i: int| 0 <= i < s.len() && s[i].kind == g.kind {
        let i = choose|i: int| 0 <= i < s.len() && s[i].kind == g.kind;
        s.update(
            i,
            EntryModel { kind: s[i].kind, enabled: s[i].enabled + g.names, prunable: s[i].prunable },
        )
    } else {
        s.push(EntryModel { kind: g.kind, enabled: g.names, prunable: None })
    }
}

/// A list of groups folded into a registry, in order.
pub open spec fn reg_add_all(s: Seq<EntryModel>, gs: Seq<GroupModel>) -> Seq<EntryModel>
    decreases gs.len(),
{
    if gs.len() == 0 {
        s
    } else {
        reg_add(reg_add_all(s, gs.drop_last()), gs.last())
    }
}

/// Folding one group into a registry keeps its backends distinct: a group
/// for a backend already present joins that entry instead of opening a
/// second one.
pub proof fn lemma_reg_add_distinct(s: Seq<EntryModel>, g: GroupModel)
    requires
        kinds_distinct(s),
    ensures
        kinds_distinct(reg_add(s, g)),
{
    if exists|i: int| 0 <= i < s.len() && s[i].kind == g.kind {
        let i = choose|i: int| 0 <= i < s.len() && s[i].kind == g.kind;
        let out = reg_add(s, g);
        assert forall|a: int, b: int| 0 <= a < b < out.len() implies out[a].kind != out[b].kind by {
            assert(out[a].kind == s[a].kind);
            assert(out[b].kind == s[b].kind);
        }
    } else {
        let out = reg_add(s, g);
        assert forall|a: int, b: int| 0 <= a < b < out.len() implies out[a].kind != out[b].kind by {
            if b == out.len() - 1 {
                assert(out[a] == s[a]);
                assert(!(s[a].kind == g.kind));
            }
        }
    }
}

/// However many groups are folded in, a registry that started with
/// distinct backends counts every backend at most once: adding two groups
/// with equal backends never creates two entries.
pub proof fn lemma_reg_add_grouping(s: Seq<EntryModel>, gs: Seq<GroupModel>, k: PackagerType)
    requires
        kinds_distinct(s),
    ensures
        kinds_distinct(reg_add_all(s, gs)),
        kind_count(reg_add_all(s, gs), k) <= 1,
    decreases gs.len(),
{
    if gs.len() == 0 {
        lemma_distinct_kind_count(s, k);
    } else {
        lemma_reg_add_grouping(s, gs.drop_last(), k);
        lemma_reg_add_distinct(reg_add_all(s, gs.drop_last()), gs.last());
        lemma_distinct_kind_count(reg_add_all(s, gs), k);
    }
}

/// An install pass may seed an entry's prunable set and drop names from
/// it, but never add one: once seeded, removal candidates only leave when
/// they become declared.
pub open spec fn prunable_shrinks(before: EntryModel, after: EntryModel) -> bool {
    before.prunable matches Some(p) ==> (after.prunable matches Some(q) && (forall|x: Seq<char>|
        #[trigger] q.contains(x) ==> p.contains(x)))
}

/// One registry entry: a backend, the names declared for it, and what the
/// backend reported as prunable.
#[derive(Debug)]
pub struct PackagerDerivation {
    pkgr: Packager,
    enabled: Vec<String>,
    prunable: Option<Vec<String>>,
}

impl View for PackagerDerivation {
    type V = EntryModel;

    closed spec fn view(&self) -> EntryModel {
        EntryModel {
            kind: self.pkgr.kind,
            enabled: self.enabled.deep_view(),
            prunable: match self.prunable {
                Some(p) => Some(p.deep_view()),
                None => None,
            },
        }
    }
}

impl DeepView for PackagerDerivation {
    type V = EntryModel;

    open spec fn deep_view(&self) -> EntryModel {
        self.view()
    }
}

impl PackagerDerivation {
    /// A new entry for a group's backend, holding its names; the prunable
    /// set is not seeded yet.
    pub fn new(pkgs: Pkgs) -> (r: Self)
        ensures
            r@.kind == pkgs@.kind,
            r@.enabled == pkgs@.names,
            r@.prunable is None,
    {
        PackagerDerivation { pkgr: pkgs.packager, enabled: pkgs.names, prunable: None }
    }

    /// Folds another group for the same backend into this entry.  A group
    /// for a different backend is refused and changes nothing.
    pub fn add(&mut self, pkgs: Pkgs) -> (r: Result<(), YumaError>)
        ensures
            old(self)@.kind == pkgs@.kind ==> r is Ok && final (self)@ == (EntryModel {
                enabled: old(self)@.enabled + pkgs@.names,
                ..old(self)@
            }),
            old(self)@.kind != pkgs@.kind ==> (r matches Err(e) && e matches YumaError::Conflict {
                ..
            }) && final (self)@ == old(self)@,
    {
        if self.pkgr == pkgs.packager {
            let mut more = pkgs.names;
            self.enabled.append(&mut more);
            proof {
                assert(self@.enabled =~= old(self)@.enabled + pkgs@.names);
            }
            Ok(())
        } else {
            Err(
                YumaError::Conflict {
                    detail: String::from_str("declaration names a different backend"),
                },
            )
        }
    }

    /// The backend this entry belongs to.
    pub fn pkgr(&self) -> (r: Packager)
        ensures
            r.kind == self@.kind,
    {
        self.pkgr
    }

    /// Moves the declared names out, leaving the entry's list empty.
    fn take_enabled(&mut self) -> (r: Vec<String>)
        ensures
            r.deep_view() == old(self)@.enabled,
            final (self)@ == (EntryModel { enabled: Seq::empty(), ..old(self)@ }),
    {
        let mut v: Vec<String> = Vec::new();
        core::mem::swap(&mut v, &mut self.enabled);
        proof {
            assert(self@.enabled =~= Seq::<Seq<char>>::empty());
        }
        v
    }

    /// Whether the prunable set has been seeded from the backend.
    fn is_seeded(&self) -> (r: bool)
        ensures
            r == (self@.prunable is Some),
    {
        self.prunable.is_some()
    }

    /// Seeds the prunable set from a backend's reported leaves, dropping
    /// duplicates; an already seeded entry keeps what it has.
    fn seed(&mut self, leaves: Vec<String>)
        ensures
            old(self)@.prunable is None ==> final (self)@ == (EntryModel {
                prunable: Some(dedup_of(leaves.deep_view())),
                ..old(self)@
            }),
            old(self)@.prunable is Some ==> final (self)@ == old(self)@,
    {
        if self.prunable.is_none() {
            self.prunable = Some(dedup_names(&leaves));
        }
    }

    /// Drops the given names from the prunable set: they are declared (or
    /// about to be installed), so they are no longer removal candidates.
    fn unprune(&mut self, names: &Vec<String>)
        ensures
            old(self)@.prunable matches Some(p) ==> final (self)@ == (EntryModel {
                prunable: Some(diff_of(p, names.deep_view())),
                ..old(self)@
            }),
            old(self)@.prunable is None ==> final (self)@ == old(self)@,
    {
        let mut cur: Option<Vec<String>> = None;
        core::mem::swap(&mut cur, &mut self.prunable);
        match cur {
            Some(p) => {
                self.prunable = Some(diff_names(&p, names));
            },
            None => {},
        }
    }

    /// Moves the prunable set out; an unseeded entry yields nothing.
    fn take_prunable(&mut self) -> (r: Vec<String>)
        ensures
            old(self)@.prunable matches Some(p) ==> r.deep_view() == p,
            old(self)@.prunable is None ==> r.deep_view() == Seq::<Seq<char>>::empty(),
            final (self)@ == (EntryModel { prunable: None, ..old(self)@ }),
    {
        let mut cur: Option<Vec<String>> = None;
        core::mem::swap(&mut cur, &mut self.prunable);
        match cur {
            Some(p) => p,
            None => {
                let v: Vec<String> = Vec::new();
                proof {
                    assert(v.deep_view() =~= Seq::<Seq<char>>::empty());
                }
                v
            },
        }
    }
}

/// The ordered collection of per-backend entries.  At most one entry
/// exists per distinct backend.
///
/// An entry's prunable set is seeded from the backend's reported leaves
/// the first time it is consulted — on a confirmed install, or at prune
/// time — rather than at entry creation, because the backend adapter is a
/// parameter of those passes rather than an ambient service; what is put
/// to the confirmation collaborator is the same either way.
#[derive(Debug)]
pub struct Packages {
    backends: Vec<PackagerDerivation>,
}

impl View for Packages {
    type V = Seq<EntryModel>;

    closed spec fn view(&self) -> Seq<EntryModel> {
        self.backends.deep_view()
    }
}

impl Packages {
    /// Every registry keeps one entry per backend.
    #[verifier::type_invariant]
    spec fn wf(self) -> bool {
        kinds_distinct(self.backends.deep_view())
    }

    /// An empty registry.
    pub fn new() -> (r: Self)
        ensures
            r@ =~= Seq::<EntryModel>::empty(),
    {
        Packages { backends: Vec::new() }
    }

    /// Folds a list of groups into the registry, in order: each group's
    /// names join the entry for its backend, and a group for a backend
    /// not seen yet opens a new entry.
    pub fn add(&mut self, pkgsets: Vec<Pkgs>)
        ensures
            final (self)@ == reg_add_all(old(self)@, pkgsets.deep_view()),
    {
        proof {
            use_type_invariant(&*self);
        }
        let ghost orig = self@;
        let ghost gs = pkgsets.deep_view();
        let mut regs: Vec<PackagerDerivation> = Vec::new();
        core::mem::swap(&mut regs, &mut self.backends);
        let n = pkgsets.len();
        let mut rest = pkgsets;
        let mut i: usize = 0;
        proof {
            assert(gs.take(0) =~= Seq::<GroupModel>::empty());
            assert(gs.len() == n);
        }
        while rest.len() > 0
            invariant
                i + rest.len() == gs.len(),
                gs.len() <= usize::MAX,
                self.backends@.len() == 0,
                regs.deep_view() == reg_add_all(orig, gs.take(i as int)),
                kinds_distinct(regs.deep_view()),
                forall|k: int| 0 <= k < rest.len() ==> (#[trigger] rest@[k]).deep_view() == gs[i
                    + k],
            decreases rest.len(),
        {
            let g = rest.remove(0);
            proof {
                assert(gs.take(i + 1).drop_last() =~= gs.take(i as int));
                assert(gs.take(i + 1).last() == gs[i as int]);
            }
            add_one(&mut regs, g);
            i = i + 1;
        }
        proof {
            assert(gs.take(gs.len() as int) =~= gs);
        }
        self.backends = regs;
    }

    /// How many registry entries name the given backend; never more than
    /// one.
    pub fn count_backend(&self, kind: &Packager) -> (r: usize)
        ensures
            r == kind_count(self@, kind.kind),
            r <= 1,
    {
        proof {
            use_type_invariant(self);
            lemma_distinct_kind_count(self@, kind.kind);
        }
        let mut i: usize = 0;
        let mut c: usize = 0;
        while i < self.backends.len()
            invariant
                i <= self.backends.len(),
                c == kind_count(self@.take(i as int), kind.kind),
                c <= i,
            decreases self.backends.len() - i,
        {
            proof {
                assert(self@.take(i + 1).drop_last() =~= self@.take(i as int));
                assert(self@.take(i + 1).last() == self@[i as int]);
            }
            if matches_kind(&self.backends[i], kind) {
                c = c + 1;
            }
            i = i + 1;
        }
        proof {
            assert(self@.take(self@.len() as int) =~= self@);
        }
        c
    }

    /// How many entries the registry holds.
    pub fn len(&self) -> (r: usize)
        ensures
            r == self@.len(),
    {
        self.backends.len()
    }

    /// The backend of the entry at `i`.
    pub fn kind_at(&self, i: usize) -> (r: Packager)
        requires
            i < self@.len(),
        ensures
            r.kind == self@[i as int].kind,
    {
        self.backends[i].pkgr()
    }

    /// The names declared for the entry at `i`.
    pub fn enabled_at(&self, i: usize) -> (r: &Vec<String>)
        requires
            i < self@.len(),
        ensures
            r.deep_view() == self@[i as int].enabled,
    {
        &self.backends[i].enabled
    }

    /// The prunable set of the entry at `i`, where it has been seeded.
    pub fn prunable_at(&self, i: usize) -> (r: Option<&Vec<String>>)
        requires
            i < self@.len(),
        ensures
            (match r {
                Some(p) => Some(p.deep_view()),
                None => None,
            }) == self@[i as int].prunable,
    {
        match &self.backends[i].prunable {
            Some(p) => Some(p),
            None => None,
        }
    }


    /// For each entry in turn: drain its declared names, keep only those
    /// the backend does not already have installed, and put that plan to
    /// the confirmation collaborator.  On a yes, the planned names leave
    /// the prunable set (seeding it first if need be) and the backend is
    /// told to install them.  On a no, nothing is installed and the
    /// prunable set keeps its candidates.  The first failure surfaces at
    /// once; entries keep their backends in every case.
    pub fn install<B: PackageBackend, C: Confirm>(
        &mut self,
        backend: &mut B,
        confirm: &mut C,
    ) -> (r: Result<(), YumaError>)
        ensures
            final (self)@.len() == old(self)@.len(),
            forall|k: int|
                0 <= k < old(self)@.len() ==> #[trigger] final (self)@[k].kind == old(self)@[k].kind,
            forall|k: int|
                0 <= k < old(self)@.len() ==> prunable_shrinks(
                    #[trigger] old(self)@[k],
                    final (self)@[k],
                ),
            old(self)@.len() == 0 ==> r is Ok,
            r is Ok ==> forall|k: int|
                0 <= k < final (self)@.len() ==> (#[trigger] final (self)@[k]).enabled.len() == 0,
    {
        proof {
            use_type_invariant(&*self);
        }
        let ghost orig = self@;
        let mut regs: Vec<PackagerDerivation> = Vec::new();
        core::mem::swap(&mut regs, &mut self.backends);
        let mut i: usize = 0;
        while i < regs.len()
            invariant
                orig == old(self)@,
                i <= regs.deep_view().len(),
                self.backends@.len() == 0,
                regs.deep_view().len() == orig.len(),
                forall|k: int|
                    0 <= k < orig.len() ==> (#[trigger] regs.deep_view()[k]).kind == orig[k].kind,
                forall|k: int|
                    0 <= k < orig.len() ==> prunable_shrinks(
                        #[trigger] orig[k],
                        regs.deep_view()[k],
                    ),
                forall|k: int|
                    0 <= k < i ==> (#[trigger] regs.deep_view()[k]).enabled.len() == 0,
                kinds_distinct(regs.deep_view()),
            decreases regs.len() - i,
        {
            let ghost before = regs.deep_view();
            let mut entry = regs.remove(i);
            let enabled = entry.take_enabled();
            let outcome = install_entry(&mut entry, enabled, backend, confirm);
            let ghost entry_model = entry@;
            regs.insert(i, entry);
            proof {
                assert(regs.deep_view() =~= before.update(i as int, entry_model));
                assert(entry_model.kind == before[i as int].kind);
                assert(entry_model.enabled.len() == 0);
            }
            match outcome {
                Ok(()) => {},
                Err(e) => {
                    self.backends = regs;
                    return Err(e);
                },
            }
            i = i + 1;
        }
        self.backends = regs;
        Ok(())
    }

    /// Drains the whole registry; for each entry, the prunable set
    /// (seeded from the backend if never consulted before) is put to the
    /// confirmation collaborator, and on a yes the backend removes those
    /// names.  The registry is empty afterwards in every case.
    pub fn prune<B: PackageBackend, C: Confirm>(&mut self, backend: &mut B, confirm: &mut C) -> (r:
        Result<(), YumaError>)
        ensures
            final (self)@.len() == 0,
            old(self)@.len() == 0 ==> r is Ok,
    {
        proof {
            use_type_invariant(&*self);
        }
        let ghost orig = self@;
        let mut regs: Vec<PackagerDerivation> = Vec::new();
        core::mem::swap(&mut regs, &mut self.backends);
        while regs.len() > 0
            invariant
                orig == old(self)@,
                regs.deep_view().len() <= orig.len(),
                self.backends@.len() == 0,
            decreases regs.len(),
        {
            let mut entry = regs.remove(0);
            let kind = entry.pkgr();
            if !entry.is_seeded() {
                let leaves = match backend.list_leaves(&kind) {
                    Ok(v) => v,
                    Err(e) => {
                        return Err(e);
                    },
                };
                entry.seed(leaves);
            }
            let prunable = entry.take_prunable();
            let yes = match confirm.confirm("remove", &prunable) {
                Ok(b) => b,
                Err(e) => {
                    return Err(e);
                },
            };
            if yes {
                match backend.remove(&kind, &prunable) {
                    Ok(()) => {},
                    Err(e) => {
                        return Err(e);
                    },
                }
            }
        }
        Ok(())
    }
}

/// Whether an entry belongs to the given backend.
fn matches_kind(entry: &PackagerDerivation, kind: &Packager) -> (r: bool)
    ensures
        r == (entry@.kind == kind.kind),
{
    entry.pkgr() == *kind
}

/// One group folded into the entry list, exactly as [`reg_add`] says.
fn add_one(regs: &mut Vec<PackagerDerivation>, g: Pkgs)
    requires
        kinds_distinct(old(regs).deep_view()),
    ensures
        final (regs).deep_view() == reg_add(old(regs).deep_view(), g@),
        kinds_distinct(final (regs).deep_view()),
{
    let ghost pre = regs.deep_view();
    let mut i: usize = 0;
    while i < regs.len()
        invariant
            pre == old(regs).deep_view(),
            i <= regs.deep_view().len(),
            regs.deep_view() == pre,
            kinds_distinct(pre),
            forall|k: int| 0 <= k < i ==> (#[trigger] pre[k]).kind != g@.kind,
        decreases regs.len() - i,
    {
        if matches_kind(&regs[i], &g.packager) {
            proof {
                assert(pre[i as int].kind == g@.kind);
            }
            let mut entry = regs.remove(i);
            let outcome = entry.add(g);
            let ghost updated = entry@;
            regs.insert(i, entry);
            proof {
                assert(outcome is Ok);
                let j = choose|j: int| 0 <= j < pre.len() && pre[j].kind == g@.kind;
                if j < i {
                    assert(pre[j].kind != pre[i as int].kind);
                } else if i < j {
                    assert(pre[i as int].kind != pre[j].kind);
                }
                assert(j == i);
                assert(regs.deep_view() =~= reg_add(pre, g@));
                assert forall|a: int, b: int|
                    0 <= a < b < regs.deep_view().len() implies regs.deep_view()[a].kind
                    != regs.deep_view()[b].kind by {
                    assert(regs.deep_view()[a].kind == pre[a].kind);
                    assert(regs.deep_view()[b].kind == pre[b].kind);
                }
            }
            return;
        }
        i = i + 1;
    }
    let entry = PackagerDerivation::new(g);
    let ghost fresh = entry@;
    regs.push(entry);
    proof {
        assert(!(exists|j: int| 0 <= j < pre.len() && pre[j].kind == fresh.kind));
        assert(regs.deep_view() =~= pre.push(fresh));
        assert(regs.deep_view() =~= reg_add(pre, g@));
        assert forall|a: int, b: int|
            0 <= a < b < regs.deep_view().len() implies regs.deep_view()[a].kind
            != regs.deep_view()[b].kind by {
            if b == regs.deep_view().len() - 1 {
                assert(regs.deep_view()[a] == pre[a]);
            }
        }
    }
}

/// The per-entry install step: plan the names not already installed, ask,
/// and on a yes update the prunable set and instruct the backend.
fn install_entry<B: PackageBackend, C: Confirm>(
    entry: &mut PackagerDerivation,
    enabled: Vec<String>,
    backend: &mut B,
    confirm: &mut C,
) -> (r: Result<(), YumaError>)
    ensures
        final (entry)@.kind == old(entry)@.kind,
        final (entry)@.enabled == old(entry)@.enabled,
        prunable_shrinks(old(entry)@, final (entry)@),
{
    let kind = entry.pkgr();
    let installed = match backend.list_installed(&kind) {
        Ok(v) => v,
        Err(e) => {
            return Err(e);
        },
    };
    let to_install = diff_names(&enabled, &installed);
    let yes = match confirm.confirm("install", &to_install) {
        Ok(b) => b,
        Err(e) => {
            return Err(e);
        },
    };
    if yes {
        if !entry.is_seeded() {
            let leaves = match backend.list_leaves(&kind) {
                Ok(v) => v,
                Err(e) => {
                    return Err(e);
                },
            };
            entry.seed(leaves);
        }
        entry.unprune(&to_install);
        proof {
            let pre = old(entry)@.prunable;
            if pre is Some {
                let p = pre->0;
                assert forall|x: Seq<char>|
                    #[trigger] entry@.prunable->0.contains(x) implies p.contains(x) by {
                    lemma_diff_contains(p, to_install.deep_view(), x);
                }
            }
        }
        match backend.install(&kind, &to_install) {
            Ok(()) => {},
            Err(e) => {
                return Err(e);
            },
        }
    }
    Ok(())
}

/// Anything that can stand for a list of realized package groups.
pub trait AsPkgList {
    /// Which realized group lists this declaration can stand for.  A
    /// concrete group form pins the list exactly; builder forms admit any
    /// outcome, since their filters are judged against the live
    /// environment.
    spec fn possible_groups(self, groups: Seq<GroupModel>) -> bool;

    /// This value as a list of concrete groups.
    fn list(self) -> (r: Vec<Pkgs>)
        ensures
            self.possible_groups(r.deep_view()),
    ;
}

impl<B: AsPkgBuilderList> AsPkgList for B {
    /// Builder outcomes depend on the live environment.
    open spec fn possible_groups(self, groups: Seq<GroupModel>) -> bool {
        true
    }

    /// Builders evaluate against the live environment; suppressed
    /// declarations contribute nothing.
    fn list(self) -> Vec<Pkgs> {
        let mut builders = self.list();
        let mut groups: Vec<Pkgs> = Vec::new();
        while builders.len() > 0
            decreases builders.len(),
        {
            let b = builders.remove(0);
            match b.build() {
                Some(g) => {
                    groups.push(g);
                },
                None => {},
            }
        }
        groups
    }
}

impl AsPkgList for Pkgs {
    /// One group stands only for itself.
    open spec fn possible_groups(self, groups: Seq<GroupModel>) -> bool {
        groups == seq![self@]
    }

    fn list(self) -> (r: Vec<Pkgs>)
        ensures
            r.deep_view() =~= seq![self@],
    {
        let mut v: Vec<Pkgs> = Vec::new();
        v.push(self);
        proof {
            assert(v.deep_view() =~= seq![self@]);
        }
        v
    }
}

impl AsPkgList for Vec<Pkgs> {
    /// A list of groups stands only for itself.
    open spec fn possible_groups(self, groups: Seq<GroupModel>) -> bool {
        groups == self.deep_view()
    }

    fn list(self) -> (r: Vec<Pkgs>)
        ensures
            r.deep_view() == self.deep_view(),
    {
        self
    }
}

} // verus!
