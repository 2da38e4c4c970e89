//! Replication controllers: the older form of replica sets.

use crate::annotations::Annotations;
use crate::document::YamlValue;
use crate::error::PolicyError;
use crate::obj_meta::ObjectMeta;
use crate::pod::{Container, PodSpec};
use crate::pod_template::PodTemplateSpec;
use crate::policy::{AgentPolicy, ContainerPolicy};
use crate::registry;
use crate::text::{split_spec, view_all};
use crate::yaml;
use vstd::prelude::*;

verus! {

/// A replication controller.
#[derive(Debug, PartialEq)]
pub struct ReplicationController {
    pub api_version: String,
    pub kind: String,
    pub metadata: ObjectMeta,
    pub spec: ReplicationControllerSpec,
    pub doc_mapping: YamlValue,
    pub registry_containers: Vec<registry::Container>,
}

/// What a replication controller asks for.
#[derive(Debug, PartialEq, Eq)]
pub struct ReplicationControllerSpec {
    pub replicas: Option<i32>,
    pub selector: Option<Annotations>,
    pub template: PodTemplateSpec,
}

impl ReplicationController {
    /// The invariant of the type: the annotations of the pod template are
    /// a map.
    pub open spec fn wf(&self) -> bool {
        self.spec.template.metadata.wf()
    }

    /// The path from the document of a replication controller to the metadata that
    /// takes the policy: that of the pod template.
    pub open spec fn metadata_path() -> Seq<char> {
        "spec.template.metadata"@
    }

    /// Prepares the replication controller for the resolution of its images: keeps a
    /// copy of its document and puts its containers in the order in which
    /// their policies are written. The result holds the image reference
    /// of each container, in that order. An image that is named by no
    /// reference is refused, and nothing changes.
    pub fn init(&mut self, doc_mapping: &YamlValue) -> (r: Result<Vec<String>, PolicyError>)
        ensures
            r is Ok == yaml::images_are_references(
                yaml::container_sequence(&old(self).spec.template.spec),
            ),
            r matches Ok(images) ==> {
                &&& final(self).doc_mapping.model() == doc_mapping.model()
                &&& view_all(final(self).spec.template.spec.containers@)
                    == yaml::container_sequence(&old(self).spec.template.spec)
                &&& final(self).spec.template.spec.volumes
                    == old(self).spec.template.spec.volumes
                &&& final(self).spec.template.metadata == old(self).spec.template.metadata
                &&& final(self).metadata == old(self).metadata
                &&& view_all(images@) == yaml::images_of(
                    final(self).spec.template.spec.containers@,
                )
            },
            r matches Err(e) ==> *final(self) == *old(self) && yaml::image_refusal(
                yaml::container_sequence(&old(self).spec.template.spec),
                e,
            ),
    {
        let images = match yaml::k8s_resource_init(&mut self.spec.template.spec) {
            Ok(images) => images,
            Err(e) => {
                return Err(e);
            },
        };
        self.doc_mapping = doc_mapping.duplicate();
        Ok(images)
    }

    /// Takes the metadata of the images, one for each container in the
    /// order that `init` gave.
    pub fn set_registry_containers(&mut self, registry_containers: Vec<registry::Container>)
        ensures
            final(self).registry_containers == registry_containers,
            final(self).spec == old(self).spec,
            final(self).metadata == old(self).metadata,
            final(self).doc_mapping == old(self).doc_mapping,
    {
        self.registry_containers = registry_containers;
    }

    /// The name of the replication controller.
    pub fn get_metadata_name(&self) -> (r: String)
        ensures
            r@ == self.metadata.name_spec(),
    {
        self.metadata.get_name()
    }

    /// The pattern that the host names of the pods of the replication controller
    /// match.
    pub fn get_host_name(&self) -> (r: String)
        ensures
            r@ == yaml::fixed_suffix_pattern(self.metadata.name_spec()),
    {
        yaml::fixed_suffix_host_name(self.get_metadata_name().as_str())
    }

    /// The name of the sandbox; a replication controller does not know it.
    pub fn get_sandbox_name(&self) -> (r: Option<String>)
        ensures
            r is None,
    {
        None
    }

    /// The namespace of the replication controller.
    pub fn get_namespace(&self) -> (r: String)
        ensures
            r@ == self.metadata.namespace_spec(),
    {
        self.metadata.get_namespace()
    }

    /// The pod that the replication controller makes copies of.
    pub fn get_pod_spec(&self) -> (r: Option<&PodSpec>)
        ensures
            r == Some(&self.spec.template.spec),
    {
        Some(&self.spec.template.spec)
    }

    /// The policies of the containers of the replication controller, in order.
    pub fn generate_policy(&self, agent_policy: &AgentPolicy) -> (r: Result<
        Vec<ContainerPolicy>,
        PolicyError,
    >)
        requires
            self.wf(),
            agent_policy.wf(),
        ensures
            r is Ok == yaml::pod_resolves(
                &self.spec.template.spec,
                self.registry_containers@,
                agent_policy,
            ),
            r matches Ok(policies) ==> yaml::pod_resolves_to(
                self.spec.template.metadata.annotations,
                &self.spec.template.spec,
                self.registry_containers@,
                agent_policy,
                policies@,
            ),
            r matches Err(e) ==> yaml::pod_refusal(
                &self.spec.template.spec,
                self.registry_containers@,
                agent_policy,
                e,
            ),
    {
        yaml::generate_policy(
            &self.spec.template.metadata.annotations,
            &self.spec.template.spec,
            &self.registry_containers,
            agent_policy,
        )
    }

    /// The text of the document of the replication controller with the policy written into it, at
    /// the metadata of its pod template. A metadata path that does not resolve
    /// is refused, and so is a document that has no text.
    pub fn serialize(&self, policy: &str) -> (r: Result<String, PolicyError>)
        ensures
            r is Ok == yaml::text_with_policy(
                self.doc_mapping.model(),
                Self::metadata_path(),
                policy@,
            ) is Some,
            r matches Ok(text) ==> yaml::text_with_policy(
                self.doc_mapping.model(),
                Self::metadata_path(),
                policy@,
            ) == Some(text@),
            r matches Err(e) ==> if yaml::with_policy_at(
                self.doc_mapping.model(),
                split_spec(Self::metadata_path(), '.'),
                policy@,
            ) is None {
                e matches PolicyError::AnnotationPath(key) && key@ == yaml::unresolved_key(
                    self.doc_mapping.model(),
                    split_spec(Self::metadata_path(), '.'),
                )
            } else {
                e matches PolicyError::MalformedField(_)
            },
    {
        yaml::serialize_text(&self.doc_mapping, "spec.template.metadata", policy)
    }

    /// The document of the replication controller with the policy written into
    /// it, at the metadata of its pod template.
    pub fn document_with_policy(&self, policy: &str) -> (r: Result<YamlValue, PolicyError>)
        ensures
            r is Ok == yaml::with_policy_at(
                self.doc_mapping.model(),
                split_spec(Self::metadata_path(), '.'),
                policy@,
            ) is Some,
            r matches Ok(document) ==> document.model() == yaml::with_policy_at(
                self.doc_mapping.model(),
                split_spec(Self::metadata_path(), '.'),
                policy@,
            )->0,
            r matches Err(e) ==> e matches PolicyError::AnnotationPath(key) && key@
                == yaml::unresolved_key(
                self.doc_mapping.model(),
                split_spec(Self::metadata_path(), '.'),
            ),
    {
        yaml::serialize_with_policy(&self.doc_mapping, "spec.template.metadata", policy)
    }

    /// The metadata of the images and the containers that they belong to.
    pub fn get_containers(&self) -> (r: (&Vec<registry::Container>, &Vec<Container>))
        ensures
            r.0 == &self.registry_containers,
            r.1 == &self.spec.template.spec.containers,
    {
        (&self.registry_containers, &self.spec.template.spec.containers)
    }
}

} // verus!
