//! Settings read from `starmap.toml`.

use vstd::prelude::*;

verus! {

/// Top-level `starmap.toml` schema.
#[derive(Debug)]
pub struct Config {
    /// Names of lists in the order the documents should show them; lists not
    /// named here follow in their own order.
    pub order: Vec<String>,
    pub llms_full: LlmsFullConfig,
}

/// The `[llms_full]` table.
#[derive(Debug)]
pub struct LlmsFullConfig {
    /// Cap, in KB, on the README text included per repository.
    pub max_readme_size_kb: usize,
}

/// The README cap used when the configuration gives none.
pub fn default_max_readme_size_kb() -> (kb: usize)
    ensures
        kb == 10,
{
    10
}

impl Default for LlmsFullConfig {
    fn default() -> (c: Self)
        ensures
            c.max_readme_size_kb == 10,
    {
        LlmsFullConfig { max_readme_size_kb: default_max_readme_size_kb() }
    }
}

impl Default for Config {
    fn default() -> (c: Self)
        ensures
            c.order@.len() == 0,
            c.llms_full.max_readme_size_kb == 10,
    {
        Config { order: Vec::new(), llms_full: LlmsFullConfig::default() }
    }
}

} // verus!
