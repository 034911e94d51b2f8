//! Parts of a workflow that are kept as they stand: `serde_yaml::Value`.

use vstd::prelude::*;

verus! {

/// A YAML value. Nothing here looks inside.
#[verifier::external_type_specification]
#[verifier::external_body]
pub struct ExYamlValue(serde_yaml::Value);

} // verus!
