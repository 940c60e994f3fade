use vstd::prelude::*;
use crate::error::Error;
use crate::forwarder::{forwarder_hash, forwarder_hash_key};
use crate::metadata::OptimizerSettings;

verus! {

/// The dependency capability of a Vyper-origin contract. No multi-file
/// dependency graph exists at this IR level, so the capability is inert:
/// compiling a dependency always yields the forwarder's fixed identity,
/// and path or library resolution always fails.
#[derive(Clone, Copy, Debug, PartialEq, Eq, Structural)]
pub struct DependencyData {}

impl Default for DependencyData {
    fn default() -> (r: DependencyData)
        ensures
            r == (DependencyData {  }),
    {
        DependencyData {}
    }
}

impl DependencyData {
    /// Compiling a dependency for this front end unconditionally returns
    /// the forwarder contract's fixed hash.
    pub fn compile(
        self,
        _name: &str,
        _optimizer_settings: OptimizerSettings,
        _is_system_mode: bool,
        _include_metadata_hash: bool,
    ) -> (r: Result<Vec<u8>, Error>)
        ensures
            r matches Ok(h) && h@ == forwarder_hash_key(),
    {
        Ok(forwarder_hash())
    }

    /// Inter-contract path resolution is not available in Vyper.
    pub fn resolve_path(&self, _identifier: &str) -> (r: Result<String, Error>)
        ensures
            r matches Err(e) && e matches Error::DependencyUnavailable,
    {
        Err(Error::DependencyUnavailable)
    }

    /// Library resolution is not available in Vyper.
    pub fn resolve_library(&self, _path: &str) -> (r: Result<String, Error>)
        ensures
            r matches Err(e) && e matches Error::DependencyUnavailable,
    {
        Err(Error::DependencyUnavailable)
    }
}

} // verus!
