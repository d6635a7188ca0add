//! Plugin manifests: the metadata found next to each plugin artifact.
use vstd::prelude::*;
use crate::text::str_eq;

verus! {

/// A JSON document, carried through unchanged.
#[verifier::external_type_specification]
#[verifier::external_body]
pub struct ExJsonValue(serde_json::Value);

/// A plugin's manifest.
#[derive(Clone, Debug, Default)]
pub struct PluginManifest {
    pub name: String,
    pub version: String,
    pub description: Option<String>,
    pub module: Option<String>,
    pub capabilities: Vec<String>,
    pub config_schema: Option<serde_json::Value>,
}

impl PluginManifest {
    /// Whether the manifest lists the capability.
    pub fn requires_capability(&self, cap: &str) -> (r: bool)
        ensures
            r == exists|i: int| 0 <= i < self.capabilities@.len() && (#[trigger] self.capabilities@[i])@ == cap@,
    {
        let mut i: usize = 0;
        while i < self.capabilities.len()
            invariant
                0 <= i <= self.capabilities@.len(),
                forall|k: int| 0 <= k < i ==> (#[trigger] self.capabilities@[k])@ != cap@,
            decreases self.capabilities@.len() - i,
        {
            if str_eq(self.capabilities[i].as_str(), cap) {
                return true;
            }
            i = i + 1;
        }
        false
    }
}

} // verus!
