//! The metadata that every resource carries.

use crate::annotations::Annotations;
use vstd::prelude::*;

verus! {

/// The metadata of a resource.
#[derive(Debug, PartialEq, Eq)]
pub struct ObjectMeta {
    pub name: Option<String>,
    pub generate_name: Option<String>,
    pub namespace: Option<String>,
    pub annotations: Option<Annotations>,
}

impl ObjectMeta {
    /// The invariant of the type: its annotations, if any, are a map.
    pub open spec fn wf(&self) -> bool {
        self.annotations matches Some(annotations) ==> annotations.wf()
    }

    /// The name under which the resource goes: its own name, or a mark for
    /// a name that the cluster generates, or nothing.
    pub open spec fn name_spec(&self) -> Seq<char> {
        match self.name {
            Some(name) => name@,
            None => if self.generate_name is Some {
                "$(generated-name)"@
            } else {
                Seq::<char>::empty()
            },
        }
    }

    /// The namespace of the resource, `default` where it names none.
    pub open spec fn namespace_spec(&self) -> Seq<char> {
        match self.namespace {
            Some(namespace) => namespace@,
            None => "default"@,
        }
    }

    /// The name of the resource.
    pub fn get_name(&self) -> (r: String)
        ensures
            r@ == self.name_spec(),
    {
        match &self.name {
            Some(name) => name.clone(),
            None => if self.generate_name.is_some() {
                "$(generated-name)".to_string()
            } else {
                String::new()
            },
        }
    }

    /// The namespace of the resource.
    pub fn get_namespace(&self) -> (r: String)
        ensures
            r@ == self.namespace_spec(),
    {
        match &self.namespace {
            Some(namespace) => namespace.clone(),
            None => "default".to_string(),
        }
    }
}

} // verus!
