//! Resources that carry no workload and are passed through as they came.

use crate::pod::PodSpec;
use crate::policy::AgentPolicy;
use vstd::prelude::*;

verus! {

/// A resource without a workload: the text of its document.
#[derive(Debug, PartialEq, Eq)]
pub struct NoPolicyResource {
    pub yaml: String,
}

impl NoPolicyResource {
    /// Prepares the resource; there is nothing to prepare.
    pub fn init(&mut self)
        ensures
            *final(self) == *old(self),
    {
    }

    /// The pod of the resource: it has none.
    pub fn get_pod_spec(&self) -> (r: Option<&PodSpec>)
        ensures
            r is None,
    {
        None
    }

    /// The policy of the resource: the empty text, whatever the rules.
    pub fn generate_policy(&self, agent_policy: &AgentPolicy) -> (r: String)
        ensures
            r@ == Seq::<char>::empty(),
    {
        String::new()
    }

    /// The text of the resource, as it came, whatever the policy.
    pub fn serialize(&self, policy: &str) -> (r: String)
        ensures
            r@ == self.yaml@,
    {
        self.yaml.clone()
    }
}

} // verus!
