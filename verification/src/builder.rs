//! The package-declaration builder: proposed names plus optional
//! applicability filters, evaluated once against the host environment to
//! yield a concrete package group or nothing.

use vstd::prelude::*;

use crate::host::{self, HostEnv};
use crate::names::{contains_name, owned_names, same_entries};
use crate::packager::{guessed_kind, Packager, PackagerType};
use crate::pkgs::{GroupModel, Pkgs};

verus! {

/// What a builder is mathematically: the seeded names, the three optional
/// allow-lists, and the optional explicit backend.
pub ghost struct BuilderModel {
    /// The proposed package names, in declaration order.
    pub names: Seq<Seq<char>>,
    /// Hostnames the declaration is limited to, where set.
    pub hosts: Option<Seq<Seq<char>>>,
    /// Architectures the declaration is limited to, where set.
    pub arches: Option<Seq<Seq<char>>>,
    /// Operating systems the declaration is limited to, where set.
    pub oss: Option<Seq<Seq<char>>>,
    /// The explicitly chosen backend, where set.
    pub packager: Option<PackagerType>,
}

/// The builder with nothing declared yet.
pub open spec fn empty_model() -> BuilderModel {
    BuilderModel {
        names: Seq::empty(),
        hosts: None,
        arches: None,
        oss: None,
        packager: None,
    }
}

/// An allow-list extended by further entries; an absent list is created.
pub open spec fn extended_filter(cur: Option<Seq<Seq<char>>>, more: Seq<Seq<char>>) -> Option<
    Seq<Seq<char>>,
> {
    match cur {
        Some(l) => Some(l + more),
        None => Some(more),
    }
}

/// Two allow-lists merged: an absent side imposes nothing, two present
/// sides concatenate.
pub open spec fn merged_filter(a: Option<Seq<Seq<char>>>, b: Option<Seq<Seq<char>>>) -> Option<
    Seq<Seq<char>>,
> {
    match (a, b) {
        (None, rb) => rb,
        (Some(x), None) => Some(x),
        (Some(x), Some(y)) => Some(x + y),
    }
}

/// Two builders merged: names and filter lists concatenate, the first
/// explicitly set backend wins.
pub open spec fn spec_merge(a: BuilderModel, b: BuilderModel) -> BuilderModel {
    BuilderModel {
        names: a.names + b.names,
        hosts: merged_filter(a.hosts, b.hosts),
        arches: merged_filter(a.arches, b.arches),
        oss: merged_filter(a.oss, b.oss),
        packager: if a.packager is Some {
            a.packager
        } else {
            b.packager
        },
    }
}

/// A whole list of builders merged left to right, starting from nothing.
pub open spec fn spec_merge_all(s: Seq<BuilderModel>) -> BuilderModel
    decreases s.len(),
{
    if s.len() == 0 {
        empty_model()
    } else {
        spec_merge(spec_merge_all(s.drop_last()), s.last())
    }
}

/// Whether the environment passes every filter the builder set: each
/// present allow-list must contain the live value.
pub open spec fn model_admits(
    m: BuilderModel,
    hostname: Seq<char>,
    arch: Seq<char>,
    os: Seq<char>,
) -> bool {
    &&& (m.hosts matches Some(h) ==> h.contains(hostname))
    &&& (m.arches matches Some(a) ==> a.contains(arch))
    &&& (m.oss matches Some(o) ==> o.contains(os))
}

/// What evaluating a builder in a given environment yields: nothing where
/// a filter excludes the environment, else a group of all seeded names
/// whose backend is the explicit choice or the architecture-based guess.
pub open spec fn model_built(
    m: BuilderModel,
    hostname: Seq<char>,
    arch: Seq<char>,
    os: Seq<char>,
) -> Option<GroupModel> {
    if model_admits(m, hostname, arch, os) {
        Some(
            GroupModel {
                kind: match m.packager {
                    Some(k) => k,
                    None => guessed_kind(arch),
                },
                names: m.names,
            },
        )
    } else {
        None
    }
}

/// A transient package declaration: names plus applicability filters,
/// consumed by one evaluation against the host environment.
#[derive(Debug)]
pub struct PkgBuilder {
    names: Vec<String>,
    allowed_hostnames: Option<Vec<String>>,
    allowed_arches: Option<Vec<String>>,
    allowed_oss: Option<Vec<String>>,
    packager: Option<Packager>,
}

impl View for PkgBuilder {
    type V = BuilderModel;

    closed spec fn view(&self) -> BuilderModel {
        BuilderModel {
            names: self.names.deep_view(),
            hosts: match self.allowed_hostnames {
                Some(h) => Some(h.deep_view()),
                None => None,
            },
            arches: match self.allowed_arches {
                Some(a) => Some(a.deep_view()),
                None => None,
            },
            oss: match self.allowed_oss {
                Some(o) => Some(o.deep_view()),
                None => None,
            },
            packager: match self.packager {
                Some(p) => Some(p.kind),
                None => None,
            },
        }
    }
}

impl DeepView for PkgBuilder {
    type V = BuilderModel;

    open spec fn deep_view(&self) -> BuilderModel {
        self.view()
    }
}

impl Default for PkgBuilder {
    /// The builder with nothing declared yet.
    fn default() -> (r: Self)
        ensures
            r@ == empty_model(),
    {
        let r = PkgBuilder {
            names: Vec::new(),
            allowed_hostnames: None,
            allowed_arches: None,
            allowed_oss: None,
            packager: None,
        };
        proof {
            assert(r@.names =~= Seq::<Seq<char>>::empty());
        }
        r
    }
}

impl PkgBuilder {
    /// A builder seeded with one literal name.
    pub fn from_name(name: &str) -> (r: Self)
        ensures
            r@ == (BuilderModel { names: seq![name@], ..empty_model() }),
    {
        let mut names: Vec<String> = Vec::new();
        names.push(name.to_owned());
        proof {
            assert(names.deep_view() =~= seq![name@]);
        }
        PkgBuilder {
            names,
            allowed_hostnames: None,
            allowed_arches: None,
            allowed_oss: None,
            packager: None,
        }
    }

    /// A builder seeded with several literal names.
    pub fn from_names(names: &[&str]) -> (r: Self)
        ensures
            r@ == (BuilderModel { names: names.deep_view(), ..empty_model() }),
    {
        PkgBuilder {
            names: owned_names(names),
            allowed_hostnames: None,
            allowed_arches: None,
            allowed_oss: None,
            packager: None,
        }
    }

    /// Limits the declaration to hosts whose operating system matches the
    /// given name.  Only the identifiers evaluation compares against have
    /// an effect: "linux", "macos", or another kernel's own name.
    pub fn on_os(self, os: &str) -> (r: Self)
        ensures
            r@ == (BuilderModel { oss: extended_filter(self@.oss, seq![os@]), ..self@ }),
    {
        let mut r = self;
        let mut list = match r.allowed_oss {
            Some(l) => l,
            None => Vec::new(),
        };
        let ghost pre = list.deep_view();
        list.push(os.to_owned());
        proof {
            assert(list.deep_view() =~= pre.push(os@));
            assert(pre.push(os@) =~= pre + seq![os@]);
        }
        r.allowed_oss = Some(list);
        r
    }

    /// Limits the declaration to one hostname more.
    pub fn on_host(self, host: &str) -> (r: Self)
        ensures
            r@ == (BuilderModel { hosts: extended_filter(self@.hosts, seq![host@]), ..self@ }),
    {
        let mut r = self;
        let mut list = match r.allowed_hostnames {
            Some(l) => l,
            None => Vec::new(),
        };
        let ghost pre = list.deep_view();
        list.push(host.to_owned());
        proof {
            assert(list.deep_view() =~= pre.push(host@));
            assert(pre.push(host@) =~= pre + seq![host@]);
        }
        r.allowed_hostnames = Some(list);
        r
    }

    /// Extends the hostname allow-list by several names.
    pub fn on_hosts(self, hosts: &[&str]) -> (r: Self)
        ensures
            r@ == (BuilderModel {
                hosts: extended_filter(self@.hosts, hosts.deep_view()),
                ..self@
            }),
    {
        let mut r = self;
        let mut list = match r.allowed_hostnames {
            Some(l) => l,
            None => Vec::new(),
        };
        let ghost pre = list.deep_view();
        let mut more = owned_names(hosts);
        list.append(&mut more);
        proof {
            assert(list.deep_view() =~= pre + hosts.deep_view());
        }
        r.allowed_hostnames = Some(list);
        r
    }

    /// Extends the architecture allow-list by several names.
    pub fn on_arches(self, arches: &[&str]) -> (r: Self)
        ensures
            r@ == (BuilderModel {
                arches: extended_filter(self@.arches, arches.deep_view()),
                ..self@
            }),
    {
        let mut r = self;
        let mut list = match r.allowed_arches {
            Some(l) => l,
            None => Vec::new(),
        };
        let ghost pre = list.deep_view();
        let mut more = owned_names(arches);
        list.append(&mut more);
        proof {
            assert(list.deep_view() =~= pre + arches.deep_view());
        }
        r.allowed_arches = Some(list);
        r
    }

    /// Chooses the backend explicitly, overriding the guessed default.
    pub fn with_packager(self, packager: Packager) -> (r: Self)
        ensures
            r@ == (BuilderModel { packager: Some(packager.kind), ..self@ }),
    {
        let mut r = self;
        r.packager = Some(packager);
        r
    }

    /// Merges another builder into this one: names and filter lists
    /// concatenate, and the first explicitly set backend wins.
    pub fn merge(self, other: Self) -> (r: Self)
        ensures
            r@ == spec_merge(self@, other@),
    {
        let mut a = self;
        let mut b = other;
        b.names = {
            let mut names = a.names;
            let mut more = b.names;
            names.append(&mut more);
            names
        };
        b.allowed_hostnames = merge_filter_lists(a.allowed_hostnames, b.allowed_hostnames);
        b.allowed_arches = merge_filter_lists(a.allowed_arches, b.allowed_arches);
        b.allowed_oss = merge_filter_lists(a.allowed_oss, b.allowed_oss);
        b.packager = match a.packager {
            Some(p) => Some(p),
            None => b.packager,
        };
        proof {
            assert(b@.names =~= spec_merge(self@, other@).names);
        }
        b
    }

    /// Merges a whole list of builders, left to right.
    pub fn from_builders(builders: Vec<PkgBuilder>) -> (r: Self)
        ensures
            r@ == spec_merge_all(builders.deep_view()),
    {
        let ghost all = builders.deep_view();
        let n = builders.len();
        let mut rest = builders;
        let mut acc = PkgBuilder::default();
        let mut i: usize = 0;
        proof {
            assert(all.take(0) =~= Seq::<BuilderModel>::empty());
            assert(all.len() == n);
        }
        while rest.len() > 0
            invariant
                i + rest.len() == all.len(),
                all.len() <= usize::MAX,
                acc@ == spec_merge_all(all.take(i as int)),
                forall|k: int| 0 <= k < rest.len() ==> (#[trigger] rest@[k]).deep_view() == all[i
                    + k],
            decreases rest.len(),
        {
            let b = rest.remove(0);
            proof {
                assert(all.take(i + 1).drop_last() =~= all.take(i as int));
                assert(all.take(i + 1).last() == all[i as int]);
            }
            acc = acc.merge(b);
            i = i + 1;
        }
        proof {
            assert(all.take(all.len() as int) =~= all);
        }
        acc
    }

    /// Evaluates the builder against a given environment: nothing where a
    /// filter excludes it, else one group of all seeded names.
    pub fn build_in(self, env: &HostEnv) -> (r: Option<Pkgs>)
        ensures
            model_built(self@, env.hostname@, env.arch@, env.os@) matches Some(g) ==> (r matches
                Some(p) && p@ == g),
            model_built(self@, env.hostname@, env.arch@, env.os@) is None ==> r is None,
    {
        let hosts_ok = match &self.allowed_hostnames {
            Some(h) => contains_name(h, &env.hostname),
            None => true,
        };
        if !hosts_ok {
            return None;
        }
        let arches_ok = match &self.allowed_arches {
            Some(a) => contains_name(a, &env.arch),
            None => true,
        };
        if !arches_ok {
            return None;
        }
        let oss_ok = match &self.allowed_oss {
            Some(o) => contains_name(o, &env.os),
            None => true,
        };
        if !oss_ok {
            return None;
        }
        let packager = match self.packager {
            Some(p) => p,
            None => Packager::guess_for_arch(&env.arch),
        };
        Some(Pkgs { names: self.names, packager })
    }

    /// Evaluates the builder against the live environment.  Where the
    /// hostname or the kernel identification cannot be read, the whole
    /// declaration suppresses itself rather than fail.
    pub fn build(self) -> (r: Option<Pkgs>)
        ensures
            r matches Some(p) ==> p@.names == self@.names && (self@.packager matches Some(k)
                ==> p@.kind == k) && (self@.packager is None ==> p@.kind == PackagerType::Paru
                || p@.kind == PackagerType::Brew),
            self@.hosts matches Some(h) && h.len() == 0 ==> r is None,
            self@.arches matches Some(a) && a.len() == 0 ==> r is None,
            self@.oss matches Some(o) && o.len() == 0 ==> r is None,
    {
        match host::current_env() {
            Some(env) => self.build_in(&env),
            None => None,
        }
    }
}

/// One merged allow-list out of two optional ones.
fn merge_filter_lists(a: Option<Vec<String>>, b: Option<Vec<String>>) -> (r: Option<Vec<String>>)
    ensures
        (match r {
            Some(l) => Some(l.deep_view()),
            None => None,
        }) == merged_filter(
            match a {
                Some(l) => Some(l.deep_view()),
                None => None,
            },
            match b {
                Some(l) => Some(l.deep_view()),
                None => None,
            },
        ),
{
    match (a, b) {
        (None, rb) => rb,
        (Some(x), None) => Some(x),
        (Some(x), Some(y)) => {
            let mut l = x;
            let mut more = y;
            l.append(&mut more);
            Some(l)
        },
    }
}

/// Anything that can stand alone as one builder.
pub trait AsBuilder {
    /// This value as a package-declaration builder.
    fn b(self) -> PkgBuilder;
}

impl AsBuilder for PkgBuilder {
    fn b(self) -> (r: PkgBuilder)
        ensures
            r@ == self@,
    {
        self
    }
}

impl AsBuilder for &str {
    fn b(self) -> (r: PkgBuilder)
        ensures
            r@ == (BuilderModel { names: seq![self@], ..empty_model() }),
    {
        PkgBuilder::from_name(self)
    }
}

impl AsBuilder for String {
    fn b(self) -> (r: PkgBuilder)
        ensures
            r@ == (BuilderModel { names: seq![self@], ..empty_model() }),
    {
        PkgBuilder::from_name(self.as_str())
    }
}

impl AsBuilder for &[&str] {
    fn b(self) -> (r: PkgBuilder)
        ensures
            r@ == (BuilderModel { names: self.deep_view(), ..empty_model() }),
    {
        PkgBuilder::from_names(self)
    }
}

/// Anything that can stand for an ordered list of builders.
pub trait AsPkgBuilderList {
    /// This value as a list of builders.
    fn list(self) -> Vec<PkgBuilder>;
}

impl AsPkgBuilderList for PkgBuilder {
    fn list(self) -> (r: Vec<PkgBuilder>)
        ensures
            r.deep_view() =~= seq![self@],
    {
        let mut v: Vec<PkgBuilder> = Vec::new();
        v.push(self);
        v
    }
}

impl AsPkgBuilderList for &str {
    fn list(self) -> (r: Vec<PkgBuilder>)
        ensures
            r.deep_view() =~= seq![
                (BuilderModel { names: seq![self@], ..empty_model() }),
            ],
    {
        let mut v: Vec<PkgBuilder> = Vec::new();
        v.push(PkgBuilder::from_name(self));
        v
    }
}

impl AsPkgBuilderList for Vec<PkgBuilder> {
    fn list(self) -> (r: Vec<PkgBuilder>)
        ensures
            r.deep_view() == self.deep_view(),
    {
        self
    }
}

impl AsPkgBuilderList for &[&str] {
    /// Each literal name stands alone as its own one-name builder.
    fn list(self) -> (r: Vec<PkgBuilder>)
        ensures
            r.deep_view().len() == self.deep_view().len(),
            forall|k: int|
                0 <= k < self.deep_view().len() ==> #[trigger] r.deep_view()[k] == (BuilderModel {
                    names: seq![self.deep_view()[k]],
                    ..empty_model()
                }),
    {
        let mut v: Vec<PkgBuilder> = Vec::new();
        let mut i: usize = 0;
        while i < self.len()
            invariant
                i <= self.len(),
                v.deep_view().len() == i,
                forall|k: int|
                    0 <= k < i ==> #[trigger] v.deep_view()[k] == (BuilderModel {
                        names: seq![self.deep_view()[k]],
                        ..empty_model()
                    }),
            decreases self.len() - i,
        {
            let entry: &str = self[i];
            proof {
                assert(entry@ == self.deep_view()[i as int]);
            }
            let b = PkgBuilder::from_name(entry);
            let ghost prev = v.deep_view();
            v.push(b);
            proof {
                assert(v.deep_view() =~= prev.push(b@));
            }
            i = i + 1;
        }
        v
    }
}

/// Whether two builders declare the same thing up to filter order: equal
/// names and backend choice, and filter lists that hold the same entries,
/// however they are ordered.
pub open spec fn models_equivalent(a: BuilderModel, b: BuilderModel) -> bool {
    &&& a.names == b.names
    &&& a.packager == b.packager
    &&& filters_equivalent(a.hosts, b.hosts)
    &&& filters_equivalent(a.arches, b.arches)
    &&& filters_equivalent(a.oss, b.oss)
}

/// Whether two optional allow-lists hold the same entries in any order.
pub open spec fn filters_equivalent(a: Option<Seq<Seq<char>>>, b: Option<Seq<Seq<char>>>) -> bool {
    match (a, b) {
        (None, None) => true,
        (Some(x), Some(y)) => same_entries(x, y),
        _ => false,
    }
}

impl PkgBuilder {
    /// Whether this builder declares the same thing as another, counting
    /// filter lists by their entries rather than their order.
    pub fn equivalent(&self, other: &PkgBuilder) -> (r: bool)
        ensures
            r == models_equivalent(self@, other@),
    {
        names_equal(&self.names, &other.names) && packager_choice_equal(
            &self.packager,
            &other.packager,
        ) && filter_lists_equivalent(&self.allowed_hostnames, &other.allowed_hostnames)
            && filter_lists_equivalent(&self.allowed_arches, &other.allowed_arches)
            && filter_lists_equivalent(&self.allowed_oss, &other.allowed_oss)
    }
}

/// Whether two name lists are equal entry for entry, in order.
fn names_equal(a: &Vec<String>, b: &Vec<String>) -> (r: bool)
    ensures
        r == (a.deep_view() == b.deep_view()),
{
    if a.len() != b.len() {
        return false;
    }
    let mut i: usize = 0;
    while i < a.len()
        invariant
            a.deep_view().len() == b.deep_view().len(),
            i <= a.len(),
            forall|k: int| 0 <= k < i ==> a.deep_view()[k] == b.deep_view()[k],
        decreases a.len() - i,
    {
        if !a[i].eq(&b[i]) {
            proof {
                assert(a.deep_view()[i as int] != b.deep_view()[i as int]);
            }
            return false;
        }
        i = i + 1;
    }
    proof {
        assert(a.deep_view() =~= b.deep_view());
    }
    true
}

/// Whether two optional backend choices agree.
fn packager_choice_equal(a: &Option<Packager>, b: &Option<Packager>) -> (r: bool)
    ensures
        r == ((match a {
            Some(p) => Some(p.kind),
            None => None::<PackagerType>,
        }) == (match b {
            Some(p) => Some(p.kind),
            None => None::<PackagerType>,
        })),
{
    match (a, b) {
        (None, None) => true,
        (Some(x), Some(y)) => *x == *y,
        _ => false,
    }
}

/// Whether two optional allow-lists hold the same entries in any order.
fn filter_lists_equivalent(a: &Option<Vec<String>>, b: &Option<Vec<String>>) -> (r: bool)
    ensures
        r == filters_equivalent(
            match a {
                Some(l) => Some(l.deep_view()),
                None => None,
            },
            match b {
                Some(l) => Some(l.deep_view()),
                None => None,
            },
        ),
{
    match (a, b) {
        (None, None) => true,
        (Some(x), Some(y)) => crate::names::same_name_entries(x, y),
        _ => false,
    }
}

/// Builder equivalence up to filter order really is an equivalence: it is
/// reflexive, symmetric, and transitive, so reordering filter entries
/// never changes which builders count as equal.
pub proof fn lemma_equivalence(a: BuilderModel, b: BuilderModel, c: BuilderModel)
    ensures
        models_equivalent(a, a),
        models_equivalent(a, b) ==> models_equivalent(b, a),
        models_equivalent(a, b) && models_equivalent(b, c) ==> models_equivalent(a, c),
{
}

/// Evaluating a builder with no filters at all always yields a group, and
/// that group holds exactly the seeded names.
pub proof fn lemma_build_unfiltered(
    m: BuilderModel,
    hostname: Seq<char>,
    arch: Seq<char>,
    os: Seq<char>,
)
    requires
        m.hosts is None,
        m.arches is None,
        m.oss is None,
    ensures
        model_built(m, hostname, arch, os) matches Some(g) && g.names == m.names,
{
}

/// A non-empty host allow-list that misses the live hostname suppresses
/// the declaration, whatever the other filters say.
pub proof fn lemma_build_suppressed_by_host(
    m: BuilderModel,
    hostname: Seq<char>,
    arch: Seq<char>,
    os: Seq<char>,
)
    requires
        m.hosts matches Some(h) && !h.contains(hostname),
    ensures
        model_built(m, hostname, arch, os) is None,
{
}

/// Merging is associative on name lists.
pub proof fn lemma_merge_names_associative(a: BuilderModel, b: BuilderModel, c: BuilderModel)
    ensures
        spec_merge(spec_merge(a, b), c).names == spec_merge(a, spec_merge(b, c)).names,
{
    assert(spec_merge(spec_merge(a, b), c).names =~= spec_merge(a, spec_merge(b, c)).names);
}

/// Merging is commutative on name lists up to order: both orders hold the
/// same entries, duplicates preserved.
pub proof fn lemma_merge_names_commutative(a: BuilderModel, b: BuilderModel)
    ensures
        same_entries(spec_merge(a, b).names, spec_merge(b, a).names),
{
    assert forall|x: Seq<char>|
        crate::names::count_of(spec_merge(a, b).names, x) == crate::names::count_of(
            spec_merge(b, a).names,
            x,
        ) by {
        crate::names::lemma_count_concat(a.names, b.names, x);
        crate::names::lemma_count_concat(b.names, a.names, x);
    }
}

/// A merge takes the first explicitly set backend: the left side's where
/// it set one, else the right side's.
pub proof fn lemma_merge_first_backend(a: BuilderModel, b: BuilderModel)
    ensures
        a.packager is Some ==> spec_merge(a, b).packager == a.packager,
        a.packager is None ==> spec_merge(a, b).packager == b.packager,
{
}

} // verus!
