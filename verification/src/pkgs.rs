//! A concrete, backend-tagged package group: the names a declaration
//! resolved to, bound to exactly one backend.

use vstd::prelude::*;

use crate::packager::{Packager, PackagerType};

verus! {

/// What a package group is mathematically: its backend kind and its name
/// list (order kept for display, duplicates tolerated).
pub ghost struct GroupModel {
    /// The backend the names belong to.
    pub kind: PackagerType,
    /// The names, in declaration order.
    pub names: Seq<Seq<char>>,
}

/// A set of package names bound to one backend.
#[derive(Debug, PartialEq, Eq)]
pub struct Pkgs {
    /// The package names, in declaration order.
    pub names: Vec<String>,
    /// The backend every name belongs to.
    pub packager: Packager,
}

impl View for Pkgs {
    type V = GroupModel;

    open spec fn view(&self) -> GroupModel {
        GroupModel { kind: self.packager.kind, names: self.names.deep_view() }
    }
}

impl DeepView for Pkgs {
    type V = GroupModel;

    open spec fn deep_view(&self) -> GroupModel {
        self.view()
    }
}

impl Pkgs {
    /// A group of the given names for an explicitly chosen backend.
    pub fn new(backend: PackagerType, names: Vec<String>) -> (r: Self)
        ensures
            r@.kind == backend,
            r@.names == names.deep_view(),
    {
        Pkgs { names, packager: Packager::of_type(backend) }
    }

    /// Appends names to the group.
    pub fn add(&mut self, names: Vec<String>)
        ensures
            final (self)@.kind == old(self)@.kind,
            final (self)@.names == old(self)@.names + names.deep_view(),
    {
        let mut more = names;
        self.names.append(&mut more);
        proof {
            assert(self@.names =~= old(self)@.names + names.deep_view());
        }
    }

    /// Rebinds the group to an explicitly chosen backend.
    pub fn backend(&mut self, backend: PackagerType)
        ensures
            final (self)@.kind == backend,
            final (self)@.names == old(self)@.names,
    {
        self.packager = Packager::of_type(backend);
    }

    /// A group of the given names for the guessed host backend.
    pub fn from_names(names: &[&str]) -> (r: Self)
        ensures
            r@.names == names.deep_view(),
            r@.kind == PackagerType::Paru || r@.kind == PackagerType::Brew,
    {
        Pkgs { names: crate::names::owned_names(names), packager: Packager::guess() }
    }

    /// A group of one name for the guessed host backend.
    pub fn from_name(name: &str) -> (r: Self)
        ensures
            r@.names =~= seq![name@],
            r@.kind == PackagerType::Paru || r@.kind == PackagerType::Brew,
    {
        let mut names: Vec<String> = Vec::new();
        names.push(name.to_owned());
        Pkgs { names, packager: Packager::guess() }
    }
}

} // verus!
