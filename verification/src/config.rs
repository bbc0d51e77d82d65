//! Configuration building.

use vstd::prelude::*;

verus! {

/// How a configuration type is built. Implementors read their values from
/// the environment, a file or another source and construct the
/// configuration struct; a message explains a failed build.
pub trait ConfigBuilder: Clone + Send + Sync + 'static {
    /// Build the configuration instance.
    fn build() -> Result<Self, String>;
}

} // verus!
