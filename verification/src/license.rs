//! Licenses of the crates the application is built from.
use vstd::prelude::*;

verus! {

/// The license of one crate the application is built from.
pub struct License {
    pub crate_name: &'static str,
    pub crate_version: &'static str,
    pub crate_url: &'static str,
    pub license_name: &'static str,
    pub license_spdx: &'static str,
    pub license_text: &'static str,
}

} // verus!
