//! Settings of the export of deep-solver strategies.
use vstd::prelude::*;

verus! {

/// Export configuration for controlling what gets exported.
pub struct ExportConfig {
    /// Whether to include full strategy profiles for all hands
    pub include_full_strategies: bool,
    /// Whether to compress the output
    pub compress: bool,
    /// Compression level (1-21, where 21 is maximum compression)
    pub compression_level: Option<i32>,
}

impl Default for ExportConfig {
    fn default() -> (r: Self)
        ensures
            r.include_full_strategies,
            !r.compress,
            r.compression_level is None,
    {
        ExportConfig { include_full_strategies: true, compress: false, compression_level: None }
    }
}

} // verus!
