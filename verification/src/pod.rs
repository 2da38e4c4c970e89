//! The containers of a pod, as the workload declares them.

use crate::document::YamlValue;
use crate::error::PolicyError;
use crate::obj_meta::ObjectMeta;
use crate::policy::{AgentPolicy, ContainerExecCommands, ContainerPolicy};
use crate::registry::append_strings;
use crate::registry;
use crate::text::{clone_strings, split_spec, str_equal, view_all};
use crate::volume::Volume;
use crate::yaml;
use vstd::prelude::*;

verus! {

/// A volume mounted into a container.
#[derive(Debug, PartialEq, Eq)]
pub struct VolumeMount {
    pub mount_path: String,
    pub name: String,
    pub mount_propagation: Option<String>,
    pub read_only: Option<bool>,
    pub sub_path: Option<String>,
    pub sub_path_expr: Option<String>,
}

/// The security settings of a container.
#[derive(Debug, PartialEq, Eq, Clone, Copy)]
pub struct SecurityContext {
    pub read_only_root_filesystem: Option<bool>,
    pub privileged: Option<bool>,
}

/// A container of a pod.
#[derive(Debug, PartialEq, Eq)]
pub struct Container {
    pub name: String,
    pub image: String,
    pub command: Option<Vec<String>>,
    pub args: Option<Vec<String>>,
    pub volume_mounts: Option<Vec<VolumeMount>>,
    pub security_context: Option<SecurityContext>,
    pub tty: Option<bool>,
    pub allowed_commands: Option<Vec<String>>,
}

/// The containers and volumes of a pod.
#[derive(Debug, PartialEq, Eq)]
pub struct PodSpec {
    pub containers: Vec<Container>,
    pub init_containers: Option<Vec<Container>>,
    pub volumes: Option<Vec<Volume>>,
    pub host_network: Option<bool>,
}

/// What a volume mount holds, as plain values.
pub ghost struct VolumeMountView {
    pub mount_path: Seq<char>,
    pub name: Seq<char>,
    pub mount_propagation: Option<Seq<char>>,
    pub read_only: Option<bool>,
    pub sub_path: Option<Seq<char>>,
    pub sub_path_expr: Option<Seq<char>>,
}

/// The view of a text that may be absent.
pub open spec fn text_view(text: Option<String>) -> Option<Seq<char>> {
    match text {
        Some(text) => Some(text@),
        None => None,
    }
}

/// The views of the texts of a list that may be absent.
pub open spec fn texts_view(texts: Option<Vec<String>>) -> Option<Seq<Seq<char>>> {
    match texts {
        Some(texts) => Some(view_all(texts@)),
        None => None,
    }
}

impl View for VolumeMount {
    type V = VolumeMountView;

    open spec fn view(&self) -> VolumeMountView {
        VolumeMountView {
            mount_path: self.mount_path@,
            name: self.name@,
            mount_propagation: text_view(self.mount_propagation),
            read_only: self.read_only,
            sub_path: text_view(self.sub_path),
            sub_path_expr: text_view(self.sub_path_expr),
        }
    }
}

fn clone_text(text: &Option<String>) -> (r: Option<String>)
    ensures
        text_view(r) == text_view(*text),
{
    match text {
        Some(text) => Some(text.clone()),
        None => None,
    }
}

fn clone_texts(texts: &Option<Vec<String>>) -> (r: Option<Vec<String>>)
    ensures
        texts_view(r) == texts_view(*texts),
{
    match texts {
        Some(texts) => Some(clone_strings(texts)),
        None => None,
    }
}

impl Clone for VolumeMount {
    fn clone(&self) -> (r: Self)
        ensures
            r@ == self@,
    {
        VolumeMount {
            mount_path: self.mount_path.clone(),
            name: self.name.clone(),
            mount_propagation: clone_text(&self.mount_propagation),
            read_only: self.read_only,
            sub_path: clone_text(&self.sub_path),
            sub_path_expr: clone_text(&self.sub_path_expr),
        }
    }
}

/// What a container holds, as plain values.
pub ghost struct ContainerView {
    pub name: Seq<char>,
    pub image: Seq<char>,
    pub command: Option<Seq<Seq<char>>>,
    pub args: Option<Seq<Seq<char>>>,
    pub volume_mounts: Option<Seq<VolumeMountView>>,
    pub security_context: Option<SecurityContext>,
    pub tty: Option<bool>,
    pub allowed_commands: Option<Seq<Seq<char>>>,
}

impl View for Container {
    type V = ContainerView;

    open spec fn view(&self) -> ContainerView {
        ContainerView {
            name: self.name@,
            image: self.image@,
            command: texts_view(self.command),
            args: texts_view(self.args),
            volume_mounts: match self.volume_mounts {
                Some(mounts) => Some(view_all(mounts@)),
                None => None,
            },
            security_context: self.security_context,
            tty: self.tty,
            allowed_commands: texts_view(self.allowed_commands),
        }
    }
}

impl Clone for Container {
    fn clone(&self) -> (r: Self)
        ensures
            r@ == self@,
    {
        let volume_mounts = match &self.volume_mounts {
            Some(mounts) => {
                let mut copies: Vec<VolumeMount> = Vec::new();
                let mut i: usize = 0;
                while i < mounts.len()
                    invariant
                        i <= mounts.len(),
                        view_all(copies@) == view_all(mounts@.take(i as int)),
                    decreases mounts.len() - i,
                {
                    let ghost before = view_all(copies@);
                    copies.push(mounts[i].clone());
                    i += 1;
                    assert(view_all(copies@) =~= before.push(mounts@[i - 1]@));
                    assert(view_all(mounts@.take(i as int)) =~= before.push(mounts@[i - 1]@));
                }
                assert(mounts@.take(mounts.len() as int) =~= mounts@);
                Some(copies)
            },
            None => None,
        };
        Container {
            name: self.name.clone(),
            image: self.image.clone(),
            command: clone_texts(&self.command),
            args: clone_texts(&self.args),
            volume_mounts,
            security_context: self.security_context,
            tty: self.tty,
            allowed_commands: clone_texts(&self.allowed_commands),
        }
    }
}

impl Container {
    /// Whether the container has a read-only root filesystem; it has not
    /// unless it says so.
    pub open spec fn read_only_root_filesystem_spec(&self) -> bool {
        match self.security_context {
            Some(context) => context.read_only_root_filesystem == Some(true),
            None => false,
        }
    }

    /// Whether the container is privileged; it is not unless it says so.
    pub open spec fn is_privileged_spec(&self) -> bool {
        match self.security_context {
            Some(context) => context.privileged == Some(true),
            None => false,
        }
    }

    /// The volume mounts of the container, in declared order.
    pub open spec fn declared_mounts(&self) -> Seq<VolumeMount> {
        match self.volume_mounts {
            Some(mounts) => mounts@,
            None => Seq::<VolumeMount>::empty(),
        }
    }

    /// The paths at which the container mounts volumes, in declared order.
    pub open spec fn mount_paths(&self) -> Seq<Seq<char>> {
        match self.volume_mounts {
            Some(mounts) => mounts@.map_values(|m: VolumeMount| m.mount_path@),
            None => Seq::<Seq<char>>::empty(),
        }
    }

    /// The arguments that the workload declares: its command, then its
    /// arguments.
    pub open spec fn declared_args(&self) -> Seq<Seq<char>> {
        (match self.command {
            Some(command) => view_all(command@),
            None => Seq::<Seq<char>>::empty(),
        }) + (match self.args {
            Some(args) => view_all(args@),
            None => Seq::<Seq<char>>::empty(),
        })
    }

    /// Whether the container has a read-only root filesystem.
    pub fn read_only_root_filesystem(&self) -> (r: bool)
        ensures
            r == self.read_only_root_filesystem_spec(),
    {
        match &self.security_context {
            Some(context) => match context.read_only_root_filesystem {
                Some(read_only) => read_only,
                None => false,
            },
            None => false,
        }
    }

    /// Whether the container is privileged.
    pub fn is_privileged(&self) -> (r: bool)
        ensures
            r == self.is_privileged_spec(),
    {
        match &self.security_context {
            Some(context) => match context.privileged {
                Some(privileged) => privileged,
                None => false,
            },
            None => false,
        }
    }

    /// Appends the declared command and arguments to `policy_args`, and
    /// tells whether the workload declares a command and whether it
    /// declares arguments.
    pub fn get_process_args(&self, policy_args: &mut Vec<String>) -> (r: (bool, bool))
        ensures
            r.0 == self.command is Some,
            r.1 == self.args is Some,
            view_all(final(policy_args)@) == view_all(old(policy_args)@) + self.declared_args(),
    {
        let ghost start = view_all(policy_args@);
        let yaml_has_command = match &self.command {
            Some(commands) => {
                append_strings(policy_args, commands);
                true
            },
            None => {
                assert(start + Seq::<Seq<char>>::empty() =~= start);
                false
            },
        };
        let ghost middle = view_all(policy_args@);
        let yaml_has_args = match &self.args {
            Some(args) => {
                append_strings(policy_args, args);
                true
            },
            None => {
                assert(middle + Seq::<Seq<char>>::empty() =~= middle);
                false
            },
        };
        assert(view_all(policy_args@) =~= start + self.declared_args());
        (yaml_has_command, yaml_has_args)
    }

    /// The commands that may be run in the container once it is up.
    pub fn get_exec_commands(&self) -> (r: Vec<String>)
        ensures
            view_all(r@) == match self.allowed_commands {
                Some(commands) => view_all(commands@),
                None => Seq::<Seq<char>>::empty(),
            },
    {
        match &self.allowed_commands {
            Some(commands) => clone_strings(commands),
            None => {
                let r: Vec<String> = Vec::new();
                assert(view_all(r@) =~= Seq::<Seq<char>>::empty());
                r
            },
        }
    }
}

/// A pod.
#[derive(Debug, PartialEq)]
pub struct Pod {
    pub api_version: String,
    pub kind: String,
    pub metadata: ObjectMeta,
    pub spec: PodSpec,
    pub doc_mapping: YamlValue,
    pub registry_containers: Vec<registry::Container>,
}

/// The commands that a list allows in the container of the given name:
/// those of the last entry for that name, if there is one.
pub open spec fn commands_for(exec_commands: Seq<ContainerExecCommands>, name: Seq<char>) -> Option<
    Seq<Seq<char>>,
>
    decreases exec_commands.len(),
{
    if exec_commands.len() == 0 {
        None
    } else if exec_commands.last().container_name@ == name {
        Some(view_all(exec_commands.last().exec_commands@))
    } else {
        commands_for(exec_commands.drop_last(), name)
    }
}

/// A container after a list of allowed commands has been applied to it: it
/// takes the commands that the list has for its name, and keeps its own
/// where the list has none.
pub open spec fn with_allowed_commands(
    container: ContainerView,
    exec_commands: Seq<ContainerExecCommands>,
) -> ContainerView {
    ContainerView {
        allowed_commands: match commands_for(exec_commands, container.name) {
            Some(commands) => Some(commands),
            None => container.allowed_commands,
        },
        ..container
    }
}

fn find_commands(exec_commands: &Vec<ContainerExecCommands>, name: &str) -> (r: Option<Vec<String>>)
    ensures
        texts_view(r) == commands_for(exec_commands@, name@),
{
    let mut j: usize = exec_commands.len();
    assert(exec_commands@.take(j as int) =~= exec_commands@);
    while j > 0
        invariant
            j <= exec_commands.len(),
            commands_for(exec_commands@, name@) == commands_for(
                exec_commands@.take(j as int),
                name@,
            ),
        decreases j,
    {
        let ghost front = exec_commands@.take(j as int);
        assert(front.last() == exec_commands@[j - 1]);
        assert(front.drop_last() =~= exec_commands@.take(j - 1));
        j -= 1;
        if str_equal(exec_commands[j].container_name.as_str(), name) {
            return Some(clone_strings(&exec_commands[j].exec_commands));
        }
    }
    None
}

impl Pod {
    /// The invariant of the type: the annotations of the pod are a map.
    pub open spec fn wf(&self) -> bool {
        self.metadata.wf()
    }

    /// The path from the document of a pod to the metadata that takes the
    /// policy: its own.
    pub open spec fn metadata_path() -> Seq<char> {
        "metadata"@
    }

    /// Gives each container the commands that a list allows in it. A
    /// container that the list does not name keeps what it had.
    pub fn set_allowed_commands(&mut self, exec_commands: &Vec<ContainerExecCommands>)
        ensures
            final(self).spec.containers@.len() == old(self).spec.containers@.len(),
            forall|i: int|
                0 <= i < old(self).spec.containers@.len() ==> (
                #[trigger] final(self).spec.containers@[i])@ == with_allowed_commands(
                    old(self).spec.containers@[i]@,
                    exec_commands@,
                ),
            final(self).metadata == old(self).metadata,
            final(self).doc_mapping == old(self).doc_mapping,
            final(self).registry_containers == old(self).registry_containers,
            final(self).spec.init_containers == old(self).spec.init_containers,
            final(self).spec.volumes == old(self).spec.volumes,
    {
        let mut i: usize = 0;
        while i < self.spec.containers.len()
            invariant
                i <= self.spec.containers.len(),
                self.spec.containers@.len() == old(self).spec.containers@.len(),
                forall|k: int|
                    0 <= k < i ==> (#[trigger] self.spec.containers@[k])@ == with_allowed_commands(
                        old(self).spec.containers@[k]@,
                        exec_commands@,
                    ),
                forall|k: int|
                    i <= k < self.spec.containers@.len() ==> (
                    #[trigger] self.spec.containers@[k]) == old(self).spec.containers@[k],
                self.metadata == old(self).metadata,
                self.doc_mapping == old(self).doc_mapping,
                self.registry_containers == old(self).registry_containers,
                self.spec.init_containers == old(self).spec.init_containers,
                self.spec.volumes == old(self).spec.volumes,
            decreases self.spec.containers.len() - i,
        {
            match find_commands(exec_commands, self.spec.containers[i].name.as_str()) {
                Some(commands) => {
                    self.spec.containers[i].allowed_commands = Some(commands);
                },
                None => {},
            }
            i += 1;
        }
    }

    /// Prepares the pod for the resolution of its images: keeps a copy of
    /// its document and puts its containers in the order in which their
    /// policies are written. The result holds the image reference of each
    /// container, in that order. An image that is named by no reference is
    /// refused, and nothing changes.
    pub fn init(&mut self, doc_mapping: &YamlValue) -> (r: Result<Vec<String>, PolicyError>)
        ensures
            r is Ok == yaml::images_are_references(yaml::container_sequence(&old(self).spec)),
            r matches Ok(images) ==> {
                &&& final(self).doc_mapping.model() == doc_mapping.model()
                &&& view_all(final(self).spec.containers@) == yaml::container_sequence(
                    &old(self).spec,
                )
                &&& final(self).spec.volumes == old(self).spec.volumes
                &&& final(self).metadata == old(self).metadata
                &&& view_all(images@) == yaml::images_of(final(self).spec.containers@)
            },
            r matches Err(e) ==> *final(self) == *old(self) && yaml::image_refusal(
                yaml::container_sequence(&old(self).spec),
                e,
            ),
    {
        let images = match yaml::k8s_resource_init(&mut self.spec) {
            Ok(images) => images,
            Err(e) => {
                return Err(e);
            },
        };
        self.doc_mapping = doc_mapping.duplicate();
        Ok(images)
    }

    /// Takes the metadata of the images, one for each container in the
    /// order that `init` gave.
    pub fn set_registry_containers(&mut self, registry_containers: Vec<registry::Container>)
        ensures
            final(self).registry_containers == registry_containers,
            final(self).spec == old(self).spec,
            final(self).metadata == old(self).metadata,
            final(self).doc_mapping == old(self).doc_mapping,
    {
        self.registry_containers = registry_containers;
    }

    /// The name of the pod.
    pub fn get_metadata_name(&self) -> (r: String)
        ensures
            r@ == self.metadata.name_spec(),
    {
        self.metadata.get_name()
    }

    /// The host name of the pod: its name.
    pub fn get_host_name(&self) -> (r: String)
        ensures
            r@ == self.metadata.name_spec(),
    {
        self.get_metadata_name()
    }

    /// The name of the sandbox: that of the pod.
    pub fn get_sandbox_name(&self) -> (r: Option<String>)
        ensures
            r matches Some(name) && name@ == self.metadata.name_spec(),
    {
        Some(self.get_metadata_name())
    }

    /// The namespace of the pod.
    pub fn get_namespace(&self) -> (r: String)
        ensures
            r@ == self.metadata.namespace_spec(),
    {
        self.metadata.get_namespace()
    }

    /// The containers and volumes of the pod.
    pub fn get_pod_spec(&self) -> (r: Option<&PodSpec>)
        ensures
            r == Some(&self.spec),
    {
        Some(&self.spec)
    }

    /// The policies of the containers of the pod, in order.
    pub fn generate_policy(&self, agent_policy: &AgentPolicy) -> (r: Result<
        Vec<ContainerPolicy>,
        PolicyError,
    >)
        requires
            self.wf(),
            agent_policy.wf(),
        ensures
            r is Ok == yaml::pod_resolves(&self.spec, self.registry_containers@, agent_policy),
            r matches Ok(policies) ==> yaml::pod_resolves_to(
                self.metadata.annotations,
                &self.spec,
                self.registry_containers@,
                agent_policy,
                policies@,
            ),
            r matches Err(e) ==> yaml::pod_refusal(
                &self.spec,
                self.registry_containers@,
                agent_policy,
                e,
            ),
    {
        yaml::generate_policy(
            &self.metadata.annotations,
            &self.spec,
            &self.registry_containers,
            agent_policy,
        )
    }

    /// The text of the document of the pod with the policy written into it, at
    /// its own metadata. A metadata path that does not resolve
    /// is refused, and so is a document that has no text.
    pub fn serialize(&self, policy: &str) -> (r: Result<String, PolicyError>)
        ensures
            r is Ok == yaml::text_with_policy(
                self.doc_mapping.model(),
                Self::metadata_path(),
                policy@,
            ) is Some,
            r matches Ok(text) ==> yaml::text_with_policy(
                self.doc_mapping.model(),
                Self::metadata_path(),
                policy@,
            ) == Some(text@),
            r matches Err(e) ==> if yaml::with_policy_at(
                self.doc_mapping.model(),
                split_spec(Self::metadata_path(), '.'),
                policy@,
            ) is None {
                e matches PolicyError::AnnotationPath(key) && key@ == yaml::unresolved_key(
                    self.doc_mapping.model(),
                    split_spec(Self::metadata_path(), '.'),
                )
            } else {
                e matches PolicyError::MalformedField(_)
            },
    {
        yaml::serialize_text(&self.doc_mapping, "metadata", policy)
    }

    /// The document of the pod with the policy written into it, at its own metadata.
    pub fn document_with_policy(&self, policy: &str) -> (r: Result<YamlValue, PolicyError>)
        ensures
            r is Ok == yaml::with_policy_at(
                self.doc_mapping.model(),
                split_spec(Self::metadata_path(), '.'),
                policy@,
            ) is Some,
            r matches Ok(document) ==> document.model() == yaml::with_policy_at(
                self.doc_mapping.model(),
                split_spec(Self::metadata_path(), '.'),
                policy@,
            )->0,
            r matches Err(e) ==> e matches PolicyError::AnnotationPath(key) && key@
                == yaml::unresolved_key(
                self.doc_mapping.model(),
                split_spec(Self::metadata_path(), '.'),
            ),
    {
        yaml::serialize_with_policy(&self.doc_mapping, "metadata", policy)
    }

    /// The metadata of the images and the containers that they belong to.
    pub fn get_containers(&self) -> (r: (&Vec<registry::Container>, &Vec<Container>))
        ensures
            r.0 == &self.registry_containers,
            r.1 == &self.spec.containers,
    {
        (&self.registry_containers, &self.spec.containers)
    }
}

} // verus!
