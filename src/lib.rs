//! Locale-keyed data loading: requests name a resource key and a locale;
//! providers answer with payloads that are borrowed, owned or shared, behind a
//! closed type-erasure boundary with checked downcasts. Backing transforms
//! built from CLDR JSON are constructed lazily, once, and a composite provider
//! dispatches each key to the one sub-provider that handles it.

use vstd::prelude::*;

pub mod blob;
pub mod cldr;
pub mod composite;
pub mod dates;
pub mod error;
pub mod fs;
pub mod hello_world;
pub mod json;
pub mod key;
pub mod locale;
pub mod operands;
pub mod payload;
pub mod plurals;
pub mod provider;
pub mod structs;
pub mod support;
pub mod zeromap;

verus! {

} // verus!
