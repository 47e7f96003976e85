//! The handful of imports most sessions want, and two small conveniences
//! for writing configuration programs.

pub use crate::builder::{AsBuilder, AsPkgBuilderList, PkgBuilder};
pub use crate::ctx::YumaCtx;
pub use crate::error::YumaError;
pub use crate::packager::{Confirm, PackageBackend, Packager, PackagerType};
pub use crate::pkgs::Pkgs;
pub use crate::registry::AsPkgList;
pub use crate::srv::Service;

use crate::registry::EntryModel;

use vstd::prelude::*;

verus! {

/// The recommended way to open a session; stable across smaller changes
/// to the context constructor itself.
pub fn ctx<F: FnOnce() -> Result<(), YumaError>>() -> (r: YumaCtx<F>)
    ensures
        r.packages_model() =~= Seq::<EntryModel>::empty(),
        r.services_model() =~= Seq::<Seq<char>>::empty(),
        r.callback_actions() =~= Seq::<F>::empty(),
{
    YumaCtx::new()
}

/// An alias that makes large struct declarations easier to read.
pub fn default<T: Default>() -> T {
    T::default()
}

} // verus!
