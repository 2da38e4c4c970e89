//! The pod that a controller makes copies of.

use crate::obj_meta::ObjectMeta;
use crate::pod::PodSpec;
use vstd::prelude::*;

verus! {

/// The template of the pods of a controller.
#[derive(Debug, PartialEq, Eq)]
pub struct PodTemplateSpec {
    pub metadata: ObjectMeta,
    pub spec: PodSpec,
}

} // verus!
