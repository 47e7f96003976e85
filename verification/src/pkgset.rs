//! A flat, two-list package set: the native-repository names and the
//! user-repository names a host should have, with a membership test over
//! both.

use vstd::prelude::*;

use crate::names::{contains_name, diff_names, diff_of};

verus! {

/// The package names a host should have, split by repository.
#[derive(Debug, PartialEq, Eq)]
pub struct PkgSet {
    /// Names from the native repositories.
    pub pac: Vec<String>,
    /// Names from the user repositories.
    pub aur: Vec<String>,
}

impl PkgSet {
    /// Whether the set holds the name, in either list.
    pub fn contains(&self, name: &String) -> (r: bool)
        ensures
            r == (self.pac.deep_view().contains(name@) || self.aur.deep_view().contains(name@)),
    {
        contains_name(&self.pac, name) || contains_name(&self.aur, name)
    }

    /// The installed names this set does not declare in either list:
    /// the candidates for removal.
    pub fn undeclared(&self, installed: &Vec<String>) -> (r: Vec<String>)
        ensures
            r.deep_view() == diff_of(
                installed.deep_view(),
                self.pac.deep_view() + self.aur.deep_view(),
            ),
    {
        let mut declared = self.pac.clone();
        let mut aur = self.aur.clone();
        declared.append(&mut aur);
        proof {
            assert(declared.deep_view() =~= self.pac.deep_view() + self.aur.deep_view());
        }
        diff_names(installed, &declared)
    }
}

} // verus!
