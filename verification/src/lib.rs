//! A declarative package-management layer: callers declare the packages a
//! host should have, and a session reconciles those declarations against
//! what the host's package manager reports as installed, proposing
//! installs for what is declared but missing and removals for what is
//! installed but no longer declared.

pub mod builder;
pub mod callbacks;
pub mod ctx;
pub mod error;
pub mod host;
pub mod names;
pub mod packager;
pub mod pkgs;
pub mod pkgset;
pub mod prelude;
pub mod registry;
pub mod shipment;
pub mod srv;
