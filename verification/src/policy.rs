//! The policy of one container: its process, mounts, storage devices and
//! annotations.

use crate::annotations::{pair_views, with_defaults, Annotations};
use crate::containerd::{default_linux, default_masked_paths, default_mounts, default_process,
    default_readonly_paths, lemma_default_mounts_unique};
use crate::containerd;
use crate::error::PolicyError;
use crate::infra::{keeps_infra_mount, lemma_infra_mounts_carried, lemma_infra_mounts_destinations,
    lemma_one_mount_per_volume_mount, lemma_volume_destinations, linux_with_infra,
    mounts_with_infra_mounts, needs_storage, policy_mount_of, process_with_infra, InfraPolicy};
use crate::infra;
use crate::oci::{Linux, LinuxCapabilities, LinuxCapabilitiesView, LinuxView, Mount, MountView, User,
    UserView};
use crate::oci::{count_destination, destinations_unique, lemma_count_when_unique,
    lemma_first_with_destination, lemma_mount_at_after_upsert, lemma_sort_by_destination,
    lemma_sort_keeps_unique, mount_at, ordered_by_destination, sort_by_destination, sort_mounts};
use crate::pod::{Container, VolumeMount};
use crate::registry::{image_user_is_valid, process_with_image, DockerImageConfigView};
use crate::registry;
use crate::text::str_equal;
use crate::text::{clone_strings, view_all};
use crate::volume::{Volume, VolumeKind};
use crate::yaml;
use vstd::prelude::*;

verus! {

/// The process of a container.
#[derive(Debug, PartialEq, Eq)]
pub struct OciProcess {
    pub terminal: bool,
    pub user: User,
    pub args: Vec<String>,
    pub env: Vec<String>,
    pub cwd: String,
    pub capabilities: Option<LinuxCapabilities>,
    pub no_new_privileges: bool,
}

/// What a process record holds, as plain values.
pub ghost struct OciProcessView {
    pub terminal: bool,
    pub user: UserView,
    pub args: Seq<Seq<char>>,
    pub env: Seq<Seq<char>>,
    pub cwd: Seq<char>,
    pub capabilities: Option<LinuxCapabilitiesView>,
    pub no_new_privileges: bool,
}

impl View for OciProcess {
    type V = OciProcessView;

    open spec fn view(&self) -> OciProcessView {
        OciProcessView {
            terminal: self.terminal,
            user: self.user@,
            args: view_all(self.args@),
            env: view_all(self.env@),
            cwd: self.cwd@,
            capabilities: match self.capabilities {
                Some(capabilities) => Some(capabilities@),
                None => None,
            },
            no_new_privileges: self.no_new_privileges,
        }
    }
}

impl OciProcess {
    /// A process record with nothing set.
    pub fn new() -> (r: Self)
        ensures
            r@ == (OciProcessView {
                terminal: false,
                user: UserView {
                    uid: 0,
                    gid: 0,
                    additional_gids: Seq::<u32>::empty(),
                    username: Seq::<char>::empty(),
                },
                args: Seq::<Seq<char>>::empty(),
                env: Seq::<Seq<char>>::empty(),
                cwd: Seq::<char>::empty(),
                capabilities: None,
                no_new_privileges: false,
            }),
    {
        let r = OciProcess {
            terminal: false,
            user: User::new(),
            args: Vec::new(),
            env: Vec::new(),
            cwd: String::new(),
            capabilities: None,
            no_new_privileges: false,
        };
        assert(view_all(r.args@) =~= Seq::<Seq<char>>::empty());
        assert(view_all(r.env@) =~= Seq::<Seq<char>>::empty());
        r
    }
}

impl Clone for OciProcess {
    fn clone(&self) -> (r: Self)
        ensures
            r@ == self@,
    {
        OciProcess {
            terminal: self.terminal,
            user: self.user.clone(),
            args: clone_strings(&self.args),
            env: clone_strings(&self.env),
            cwd: self.cwd.clone(),
            capabilities: match &self.capabilities {
                Some(capabilities) => Some(capabilities.clone()),
                None => None,
            },
            no_new_privileges: self.no_new_privileges,
        }
    }
}

/// The defaults that the infrastructure gives to one sort of container.
#[derive(Debug, PartialEq, Eq)]
pub struct OciSpec {
    pub process: Option<OciProcess>,
    pub mounts: Vec<Mount>,
    pub annotations: Option<Annotations>,
    pub linux: Option<Linux>,
}

/// What such defaults hold, as plain values.
pub ghost struct OciSpecView {
    pub process: Option<OciProcessView>,
    pub mounts: Seq<MountView>,
    pub annotations: Option<Map<Seq<char>, Seq<char>>>,
    pub linux: Option<LinuxView>,
}

impl View for OciSpec {
    type V = OciSpecView;

    open spec fn view(&self) -> OciSpecView {
        OciSpecView {
            process: match self.process {
                Some(process) => Some(process@),
                None => None,
            },
            mounts: view_all(self.mounts@),
            annotations: match self.annotations {
                Some(annotations) => Some(annotations@),
                None => None,
            },
            linux: match self.linux {
                Some(linux) => Some(linux@),
                None => None,
            },
        }
    }
}

impl OciSpec {
    /// The invariant of the type: its annotations, if any, are a map.
    pub open spec fn wf(&self) -> bool {
        self.annotations matches Some(annotations) ==> annotations.wf()
    }
}

/// The owner group that a storage device is given.
#[derive(Debug, PartialEq, Eq)]
pub struct SerializedFsGroup {
    pub group_id: u32,
    pub group_change_policy: u32,
}

/// A storage device that the guest attaches for a container.
#[derive(Debug, PartialEq, Eq)]
pub struct SerializedStorage {
    pub driver: String,
    pub driver_options: Vec<String>,
    pub source: String,
    pub fstype: String,
    pub options: Vec<String>,
    pub mount_point: String,
    pub fs_group: Option<SerializedFsGroup>,
}

/// What a storage device holds, as plain values. The owner group is the
/// pair of its identifier and its change policy.
pub ghost struct StorageView {
    pub driver: Seq<char>,
    pub driver_options: Seq<Seq<char>>,
    pub source: Seq<char>,
    pub fstype: Seq<char>,
    pub options: Seq<Seq<char>>,
    pub mount_point: Seq<char>,
    pub fs_group: Option<(u32, u32)>,
}

impl View for SerializedStorage {
    type V = StorageView;

    open spec fn view(&self) -> StorageView {
        StorageView {
            driver: self.driver@,
            driver_options: view_all(self.driver_options@),
            source: self.source@,
            fstype: self.fstype@,
            options: view_all(self.options@),
            mount_point: self.mount_point@,
            fs_group: match self.fs_group {
                Some(group) => Some((group.group_id, group.group_change_policy)),
                None => None,
            },
        }
    }
}

/// The commands that may be run in one container of a pod once it is up.
#[derive(Debug, PartialEq, Eq)]
pub struct ContainerExecCommands {
    pub container_name: String,
    pub exec_commands: Vec<String>,
}

/// The policy of one container, resolved. The mounts are in the order of
/// their destinations.
#[derive(Debug, PartialEq, Eq)]
pub struct ContainerPolicy {
    pub process: OciProcess,
    pub mounts: Vec<Mount>,
    pub storages: Vec<SerializedStorage>,
    pub annotations: Annotations,
    pub linux: Linux,
    pub exec_commands: Vec<String>,
}

/// What resolves the policies of containers: the rules that the guest
/// enforces, as text, and the templates of the infrastructure.
#[derive(Debug, PartialEq, Eq)]
pub struct AgentPolicy {
    pub rules: String,
    pub infra_policy: InfraPolicy,
}

/// The text of a policy: the rules, and under them the resolved data under
/// the name by which the rules look it up.
pub open spec fn policy_text(rules: Seq<char>, data: Seq<char>) -> Seq<char> {
    rules + "\npolicy_data := "@ + data
}

impl AgentPolicy {
    /// The policy of a resource as it goes into the annotation: the rules
    /// and the resolved data, rendered as text by the caller, encoded for
    /// transport.
    pub fn encode_policy(&self, data: &str) -> (r: String)
        ensures
            r@ == crate::encoding::base64_standard(policy_text(self.rules@, data@)),
            !r@.contains(':'),
    {
        let mut text = self.rules.clone();
        text.append("\npolicy_data := ");
        text.append(data);
        crate::encoding::encode(text.as_str())
    }

    /// The invariant of the type: that of the templates.
    pub open spec fn wf(&self) -> bool {
        self.infra_policy.wf()
    }

    /// Whether the value meets the invariant of the type.
    pub fn is_valid(&self) -> (r: bool)
        ensures
            r == self.wf(),
    {
        let pause_is_map = match &self.infra_policy.pause_container.annotations {
            Some(annotations) => annotations.has_unique_keys(),
            None => true,
        };
        let other_is_map = match &self.infra_policy.other_container.annotations {
            Some(annotations) => annotations.has_unique_keys(),
            None => true,
        };
        pause_is_map && other_is_map
    }

    /// The template for the sandbox container or for the other containers.
    pub open spec fn infra_container(&self, is_pause_container: bool) -> OciSpec {
        if is_pause_container {
            self.infra_policy.pause_container
        } else {
            self.infra_policy.other_container
        }
    }

    /// Whether every volume mount that names the volume can go into a
    /// policy.
    pub open spec fn volume_resolves(&self, volume_mounts: Seq<VolumeMount>, volume: &Volume) -> bool {
        forall|j: int|
            0 <= j < volume_mounts.len() && (#[trigger] volume_mounts[j]).name@ == volume.name@
                ==> self.infra_policy.volume_mount(volume, &volume_mounts[j]) is Some
    }

    /// Whether every volume mount that names one of the volumes can go
    /// into a policy.
    pub open spec fn volumes_resolve(&self, volume_mounts: Seq<VolumeMount>, volumes: Seq<Volume>) -> bool {
        forall|i: int|
            0 <= i < volumes.len() ==> self.volume_resolves(volume_mounts, &#[trigger] volumes[i])
    }

    /// Whether a failure is one that some volume mount naming the volume
    /// is refused with.
    pub open spec fn volume_refusal(
        &self,
        volume_mounts: Seq<VolumeMount>,
        volume: &Volume,
        e: PolicyError,
    ) -> bool {
        exists|j: int|
            0 <= j < volume_mounts.len() && (#[trigger] volume_mounts[j]).name@ == volume.name@
                && self.infra_policy.refusal(volume, &volume_mounts[j], e)
    }

    /// The mounts of a policy after the volume mounts that name the volume
    /// have gone in, in declared order.
    pub open spec fn mounts_with_volume_mounts(
        &self,
        mounts: Seq<MountView>,
        volume_mounts: Seq<VolumeMount>,
        volume: &Volume,
    ) -> Seq<MountView>
        decreases volume_mounts.len(),
    {
        if volume_mounts.len() == 0 {
            mounts
        } else {
            let before = self.mounts_with_volume_mounts(mounts, volume_mounts.drop_last(), volume);
            if volume_mounts.last().name@ == volume.name@ {
                self.infra_policy.mounts_with_volume(before, volume, &volume_mounts.last())
            } else {
                before
            }
        }
    }

    /// The storage devices of a policy after the volume mounts that name
    /// the volume have gone in, in declared order.
    pub open spec fn storages_with_volume_mounts(
        &self,
        storages: Seq<StorageView>,
        volume_mounts: Seq<VolumeMount>,
        volume: &Volume,
    ) -> Seq<StorageView>
        decreases volume_mounts.len(),
    {
        if volume_mounts.len() == 0 {
            storages
        } else {
            let before = self.storages_with_volume_mounts(
                storages,
                volume_mounts.drop_last(),
                volume,
            );
            if volume_mounts.last().name@ == volume.name@ {
                self.infra_policy.storages_with_volume(before, volume, &volume_mounts.last())
            } else {
                before
            }
        }
    }

    /// The mounts of a policy after the volume mounts of a container have
    /// gone in: volume by volume, and for each volume in the order in which
    /// the container declares its mounts.
    pub open spec fn mounts_with_volumes(
        &self,
        mounts: Seq<MountView>,
        volume_mounts: Seq<VolumeMount>,
        volumes: Seq<Volume>,
    ) -> Seq<MountView>
        decreases volumes.len(),
    {
        if volumes.len() == 0 {
            mounts
        } else {
            self.mounts_with_volume_mounts(
                self.mounts_with_volumes(mounts, volume_mounts, volumes.drop_last()),
                volume_mounts,
                &volumes.last(),
            )
        }
    }

    /// The storage devices of a policy after the volume mounts of a
    /// container have gone in.
    pub open spec fn storages_with_volumes(
        &self,
        storages: Seq<StorageView>,
        volume_mounts: Seq<VolumeMount>,
        volumes: Seq<Volume>,
    ) -> Seq<StorageView>
        decreases volumes.len(),
    {
        if volumes.len() == 0 {
            storages
        } else {
            self.storages_with_volume_mounts(
                self.storages_with_volumes(storages, volume_mounts, volumes.drop_last()),
                volume_mounts,
                &volumes.last(),
            )
        }
    }

    /// Whether every volume mount of a container that names the volume can
    /// go into a policy; where not, the failure of the first that cannot.
    pub fn check_container_volume(&self, container: &Container, volume: &Volume) -> (r: Result<
        (),
        PolicyError,
    >)
        ensures
            r is Ok == self.volume_resolves(container.declared_mounts(), volume),
            r matches Err(e) ==> self.volume_refusal(container.declared_mounts(), volume, e),
    {
        match &container.volume_mounts {
            None => Ok(()),
            Some(volume_mounts) => {
                let mut j: usize = 0;
                while j < volume_mounts.len()
                    invariant
                        j <= volume_mounts.len(),
                        volume_mounts@ == container.declared_mounts(),
                        forall|k: int|
                            0 <= k < j && (#[trigger] volume_mounts@[k]).name@ == volume.name@
                                ==> self.infra_policy.volume_mount(volume, &volume_mounts@[k])
                                is Some,
                    decreases volume_mounts.len() - j,
                {
                    let volume_mount = &volume_mounts[j];
                    if str_equal(volume_mount.name.as_str(), volume.name.as_str()) {
                        match self.infra_policy.check_volume_mount(volume, volume_mount) {
                            Ok(()) => {},
                            Err(e) => {
                                assert(volume_mounts@[j as int].name@ == volume.name@);
                                return Err(e);
                            },
                        }
                    }
                    j += 1;
                }
                Ok(())
            },
        }
    }

    /// Puts the mounts and storage devices of one volume into the policy of
    /// a container: one mount for each volume mount of the container that
    /// names the volume, in declared order. Where one of them is refused,
    /// the policy stays as it was.
    pub fn get_container_mounts_and_storages(
        &self,
        policy_mounts: &mut Vec<Mount>,
        storages: &mut Vec<SerializedStorage>,
        container: &Container,
        volume: &Volume,
    ) -> (r: Result<(), PolicyError>)
        ensures
            r is Ok == self.volume_resolves(container.declared_mounts(), volume),
            r is Ok ==> view_all(final(policy_mounts)@) == self.mounts_with_volume_mounts(
                view_all(old(policy_mounts)@),
                container.declared_mounts(),
                volume,
            ) && view_all(final(storages)@) == self.storages_with_volume_mounts(
                view_all(old(storages)@),
                container.declared_mounts(),
                volume,
            ),
            r matches Err(e) ==> self.volume_refusal(container.declared_mounts(), volume, e)
                && view_all(final(policy_mounts)@) == view_all(old(policy_mounts)@) && view_all(
                final(storages)@,
            ) == view_all(old(storages)@),
    {
        match self.check_container_volume(container, volume) {
            Ok(()) => {},
            Err(e) => {
                return Err(e);
            },
        }
        match &container.volume_mounts {
            None => {},
            Some(volume_mounts) => {
                let ghost declared = volume_mounts@;
                let mut j: usize = 0;
                assert(declared.take(0) =~= Seq::<VolumeMount>::empty());
                while j < volume_mounts.len()
                    invariant
                        j <= volume_mounts.len(),
                        declared == volume_mounts@,
                        self.volume_resolves(declared, volume),
                        view_all(policy_mounts@) == self.mounts_with_volume_mounts(
                            view_all(old(policy_mounts)@),
                            declared.take(j as int),
                            volume,
                        ),
                        view_all(storages@) == self.storages_with_volume_mounts(
                            view_all(old(storages)@),
                            declared.take(j as int),
                            volume,
                        ),
                    decreases volume_mounts.len() - j,
                {
                    let volume_mount = &volume_mounts[j];
                    assert(declared.take(j as int + 1).drop_last() =~= declared.take(j as int));
                    assert(declared.take(j as int + 1).last() == declared[j as int]);
                    if str_equal(volume_mount.name.as_str(), volume.name.as_str()) {
                        let applied = self.infra_policy.get_mount_and_storage(
                            policy_mounts,
                            storages,
                            volume,
                            volume_mount,
                        );
                        assert(applied is Ok);
                    }
                    j += 1;
                }
                assert(declared.take(declared.len() as int) =~= declared);
            },
        }
        Ok(())
    }

    /// The process of a container, resolved: the default process with the
    /// command and arguments that the workload declares, then what the
    /// image says, then what the infrastructure says.
    pub open spec fn resolved_process(
        &self,
        container: &Container,
        image: DockerImageConfigView,
        is_pause_container: bool,
    ) -> OciProcessView {
        let declared = OciProcessView {
            args: container.declared_args(),
            ..default_process(container.is_privileged_spec())
        };
        process_with_infra(
            process_with_image(image, declared, container.command is Some, container.args is Some),
            self.infra_container(is_pause_container)@.process,
        )
    }

    /// The mounts that a container has before its volumes are looked at:
    /// the default mounts, then the mounts of the template.
    pub open spec fn infra_mounts(&self, container: &Container, is_pause_container: bool) -> Seq<
        MountView,
    > {
        mounts_with_infra_mounts(
            self.infra_policy.shared_files.source_path@,
            default_mounts(is_pause_container, container.is_privileged_spec()),
            self.infra_container(is_pause_container)@.mounts,
            container,
            is_pause_container,
        )
    }

    /// The mounts that a container ends up with, in the order in which they
    /// come about: the default mounts, then the mounts of the template, then
    /// the mounts of the volumes.
    pub open spec fn collected_mounts(
        &self,
        container: &Container,
        volumes: Seq<Volume>,
        is_pause_container: bool,
    ) -> Seq<MountView> {
        self.mounts_with_volumes(
            self.infra_mounts(container, is_pause_container),
            container.declared_mounts(),
            volumes,
        )
    }

    /// The mounts of a container, resolved: the mounts that it ends up with,
    /// in the order of their destinations.
    pub open spec fn resolved_mounts(
        &self,
        container: &Container,
        volumes: Seq<Volume>,
        is_pause_container: bool,
    ) -> Seq<MountView> {
        sort_by_destination(self.collected_mounts(container, volumes, is_pause_container))
    }

    /// Whether a failure is the one that the resolution of a container is
    /// refused with: where the image names a user that cannot be read, the
    /// failure holds that user; otherwise it is one that a volume mount of
    /// the container is refused with.
    pub open spec fn container_refusal(
        &self,
        volumes: Seq<Volume>,
        container: &Container,
        image: DockerImageConfigView,
        e: PolicyError,
    ) -> bool {
        if !image_user_is_valid(image) {
            e matches PolicyError::ImageResolution(text) && Some(text@) == image.user
        } else {
            exists|i: int|
                0 <= i < volumes.len() && self.volume_refusal(
                    container.declared_mounts(),
                    &#[trigger] volumes[i],
                    e,
                )
        }
    }

    /// Whether a policy is the one that the inputs resolve to.
    pub open spec fn resolves_to(
        &self,
        annotations: Option<Annotations>,
        volumes: Seq<Volume>,
        container: &Container,
        image: DockerImageConfigView,
        is_pause_container: bool,
        policy: &ContainerPolicy,
    ) -> bool {
        &&& policy.process@ == self.resolved_process(container, image, is_pause_container)
        &&& view_all(policy.mounts@) == self.resolved_mounts(
            container,
            volumes,
            is_pause_container,
        )
        &&& view_all(policy.storages@) == self.resolved_storages(container, volumes)
        &&& policy.annotations.wf()
        &&& policy.annotations@ == self.resolved_annotations(annotations, is_pause_container)
        &&& policy.linux@ == self.resolved_linux(container, is_pause_container)
        &&& view_all(policy.exec_commands@) == match container.allowed_commands {
            Some(commands) => view_all(commands@),
            None => Seq::<Seq<char>>::empty(),
        }
    }

    /// The storage devices of a container, resolved: those of its volumes.
    pub open spec fn resolved_storages(&self, container: &Container, volumes: Seq<Volume>) -> Seq<
        StorageView,
    > {
        self.storages_with_volumes(
            Seq::<StorageView>::empty(),
            container.declared_mounts(),
            volumes,
        )
    }

    /// The annotations of a container, resolved: those of the workload but
    /// for a policy written earlier, then each annotation of the template
    /// whose key the workload does not set.
    pub open spec fn resolved_annotations(
        &self,
        annotations: Option<Annotations>,
        is_pause_container: bool,
    ) -> Map<Seq<char>, Seq<char>> {
        let declared = match annotations {
            Some(map) => map@.remove(yaml::policy_key()),
            None => Map::empty(),
        };
        match self.infra_container(is_pause_container).annotations {
            Some(infra_annotations) => with_defaults(declared, pair_views(infra_annotations.entries@)),
            None => declared,
        }
    }

    /// The masked and read-only paths of a container, resolved: the
    /// defaults for its privilege, then what the template says.
    pub open spec fn resolved_linux(&self, container: &Container, is_pause_container: bool) -> LinuxView {
        linux_with_infra(
            default_linux(container.is_privileged_spec()),
            self.infra_container(is_pause_container)@.linux,
        )
    }

    /// Resolves the policy of one container from what the workload
    /// declares, what its image says and what the infrastructure adds.
    ///
    /// The policy is refused where the image names a user that cannot be
    /// read, or where a volume mount of the container cannot go into a
    /// policy; the image is looked at first.
    pub fn get_container_policy(
        &self,
        annotations: &Option<Annotations>,
        volumes: &Vec<Volume>,
        yaml_container: &Container,
        registry_container: &registry::Container,
        is_pause_container: bool,
    ) -> (r: Result<ContainerPolicy, PolicyError>)
        requires
            self.wf(),
            annotations matches Some(map) ==> map.wf(),
        ensures
            r is Ok == (image_user_is_valid(registry_container.config_layer.config@)
                && self.volumes_resolve(yaml_container.declared_mounts(), volumes@)),
            r matches Ok(policy) ==> self.resolves_to(
                *annotations,
                volumes@,
                yaml_container,
                registry_container.config_layer.config@,
                is_pause_container,
                &policy,
            ),
            r matches Ok(policy) ==> destinations_unique(view_all(policy.mounts@))
                && ordered_by_destination(view_all(policy.mounts@)),
            r matches Err(e) ==> self.container_refusal(
                volumes@,
                yaml_container,
                registry_container.config_layer.config@,
                e,
            ),
    {
        let infra_container = if is_pause_container {
            &self.infra_policy.pause_container
        } else {
            &self.infra_policy.other_container
        };

        let mut policy_annotations = match annotations {
            Some(map) => {
                let mut declared = map.duplicate();
                yaml::remove_policy_annotation(&mut declared);
                declared
            },
            None => Annotations::new(),
        };
        infra::add_annotations(&mut policy_annotations, infra_container);

        let is_privileged = yaml_container.is_privileged();
        let mut process = containerd::get_process(is_privileged);
        let ghost defaults = process@;
        let (yaml_has_command, yaml_has_args) = yaml_container.get_process_args(&mut process.args);
        assert(process@.args =~= yaml_container.declared_args());
        assert(process@ == (OciProcessView { args: yaml_container.declared_args(), ..defaults }));
        match registry_container.get_process(&mut process, yaml_has_command, yaml_has_args) {
            Ok(()) => {},
            Err(e) => {
                return Err(e);
            },
        }
        infra::get_process(&mut process, infra_container);

        let mut mounts = containerd::get_mounts(is_pause_container, is_privileged);
        self.infra_policy.get_policy_mounts(
            &mut mounts,
            &infra_container.mounts,
            yaml_container,
            is_pause_container,
        );
        let mut storages: Vec<SerializedStorage> = Vec::new();
        assert(view_all(storages@) =~= Seq::<StorageView>::empty());
        match yaml::get_container_mounts_and_storages(
            &mut mounts,
            &mut storages,
            yaml_container,
            self,
            volumes,
        ) {
            Ok(()) => {},
            Err(e) => {
                return Err(e);
            },
        }

        let mut linux = containerd::get_linux(is_privileged);
        infra::get_linux(&mut linux, &infra_container.linux);
        proof {
            lemma_resolved_destinations_unique(
                self,
                yaml_container,
                volumes@,
                is_pause_container,
            );
            lemma_resolved_mounts_ordered(self, yaml_container, volumes@, is_pause_container);
        }

        Ok(
            ContainerPolicy {
                process,
                mounts: sort_mounts(&mounts),
                storages,
                annotations: policy_annotations,
                linux,
                exec_commands: yaml_container.get_exec_commands(),
            },
        )
    }
}

/// The volume mounts that name a volume neither make nor mend a repeated
/// destination, and they leave the mount at every destination that is the
/// path of none of them as it was.
pub proof fn lemma_volume_mounts_destinations(
    policy: &AgentPolicy,
    mounts: Seq<MountView>,
    volume_mounts: Seq<VolumeMount>,
    volume: &Volume,
)
    ensures
        destinations_unique(policy.mounts_with_volume_mounts(mounts, volume_mounts, volume))
            <==> destinations_unique(mounts),
        forall|d: Seq<char>|
            (forall|j: int|
                0 <= j < volume_mounts.len() ==> (#[trigger] volume_mounts[j]).mount_path@ != d)
                ==> #[trigger] mount_at(
                policy.mounts_with_volume_mounts(mounts, volume_mounts, volume),
                d,
            ) == mount_at(mounts, d),
    decreases volume_mounts.len(),
{
    if volume_mounts.len() > 0 {
        let front = volume_mounts.drop_last();
        lemma_volume_mounts_destinations(policy, mounts, front, volume);
        let before = policy.mounts_with_volume_mounts(mounts, front, volume);
        let after = policy.mounts_with_volume_mounts(mounts, volume_mounts, volume);
        let last = volume_mounts.last();
        if last.name@ == volume.name@ {
            lemma_volume_destinations(&policy.infra_policy, before, volume, &last);
        }
        assert forall|d: Seq<char>|
            (forall|j: int|
                0 <= j < volume_mounts.len() ==> (#[trigger] volume_mounts[j]).mount_path@
                    != d) implies #[trigger] mount_at(after, d) == mount_at(mounts, d) by {
            assert forall|j: int| 0 <= j < front.len() implies (#[trigger] front[j]).mount_path@
                != d by {
                assert(volume_mounts[j].mount_path@ != d);
            }
            assert(mount_at(before, d) == mount_at(mounts, d));
            assert(volume_mounts[volume_mounts.len() - 1].mount_path@ != d);
            if last.name@ == volume.name@ {
                match policy.infra_policy.volume_mount(volume, &last) {
                    Some(view) => {
                        lemma_mount_at_after_upsert(before, view, d);
                    },
                    None => {},
                }
            }
        }
    }
}

/// The volume mounts of a container neither make nor mend a repeated
/// destination, and they leave the mount at every destination that is the
/// path of none of them as it was.
pub proof fn lemma_volumes_destinations(
    policy: &AgentPolicy,
    mounts: Seq<MountView>,
    volume_mounts: Seq<VolumeMount>,
    volumes: Seq<Volume>,
)
    ensures
        destinations_unique(policy.mounts_with_volumes(mounts, volume_mounts, volumes))
            <==> destinations_unique(mounts),
        forall|d: Seq<char>|
            (forall|j: int|
                0 <= j < volume_mounts.len() ==> (#[trigger] volume_mounts[j]).mount_path@ != d)
                ==> #[trigger] mount_at(
                policy.mounts_with_volumes(mounts, volume_mounts, volumes),
                d,
            ) == mount_at(mounts, d),
    decreases volumes.len(),
{
    if volumes.len() > 0 {
        lemma_volumes_destinations(policy, mounts, volume_mounts, volumes.drop_last());
        let before = policy.mounts_with_volumes(mounts, volume_mounts, volumes.drop_last());
        lemma_volume_mounts_destinations(policy, before, volume_mounts, &volumes.last());
        let after = policy.mounts_with_volumes(mounts, volume_mounts, volumes);
        assert forall|d: Seq<char>|
            (forall|j: int|
                0 <= j < volume_mounts.len() ==> (#[trigger] volume_mounts[j]).mount_path@
                    != d) implies #[trigger] mount_at(after, d) == mount_at(mounts, d) by {
            assert(mount_at(before, d) == mount_at(mounts, d));
            assert(mount_at(after, d) == mount_at(before, d));
        }
    }
}

/// No two mounts of a resolved container share a destination.
pub proof fn lemma_resolved_destinations_unique(
    policy: &AgentPolicy,
    container: &Container,
    volumes: Seq<Volume>,
    is_pause_container: bool,
)
    ensures
        destinations_unique(policy.infra_mounts(container, is_pause_container)),
        destinations_unique(policy.collected_mounts(container, volumes, is_pause_container)),
        destinations_unique(policy.resolved_mounts(container, volumes, is_pause_container)),
{
    lemma_default_mounts_unique(is_pause_container, container.is_privileged_spec());
    lemma_infra_mounts_destinations(
        policy.infra_policy.shared_files.source_path@,
        default_mounts(is_pause_container, container.is_privileged_spec()),
        policy.infra_container(is_pause_container)@.mounts,
        container,
        is_pause_container,
    );
    lemma_volumes_destinations(
        policy,
        policy.infra_mounts(container, is_pause_container),
        container.declared_mounts(),
        volumes,
    );
    lemma_sort_keeps_unique(policy.collected_mounts(container, volumes, is_pause_container));
}

/// The mounts of a resolved container are in the order of their
/// destinations, and they are the mounts that the container ends up with,
/// each as often as it comes about.
pub proof fn lemma_resolved_mounts_ordered(
    policy: &AgentPolicy,
    container: &Container,
    volumes: Seq<Volume>,
    is_pause_container: bool,
)
    ensures
        ordered_by_destination(policy.resolved_mounts(container, volumes, is_pause_container)),
        policy.resolved_mounts(container, volumes, is_pause_container).to_multiset()
            == policy.collected_mounts(container, volumes, is_pause_container).to_multiset(),
{
    lemma_sort_by_destination(policy.collected_mounts(container, volumes, is_pause_container));
}

/// A resolved container has the mount that its mounts had at a destination
/// before they were put in order, and has it once.
pub proof fn lemma_resolved_mount(
    policy: &AgentPolicy,
    container: &Container,
    volumes: Seq<Volume>,
    is_pause_container: bool,
    destination: Seq<char>,
)
    requires
        mount_at(
            policy.collected_mounts(container, volumes, is_pause_container),
            destination,
        ) is Some,
    ensures
        count_destination(
            policy.resolved_mounts(container, volumes, is_pause_container),
            destination,
        ) == 1,
        policy.resolved_mounts(container, volumes, is_pause_container).contains(
            mount_at(
                policy.collected_mounts(container, volumes, is_pause_container),
                destination,
            )->0,
        ),
{
    broadcast use vstd::seq_lib::group_to_multiset_ensures;

    let collected = policy.collected_mounts(container, volumes, is_pause_container);
    let resolved = policy.resolved_mounts(container, volumes, is_pause_container);
    lemma_resolved_destinations_unique(policy, container, volumes, is_pause_container);
    lemma_sort_by_destination(collected);
    lemma_first_with_destination(collected, destination);
    lemma_count_when_unique(collected, destination);
    assert(count_destination(resolved, destination) == count_destination(collected, destination));
    let view = mount_at(collected, destination)->0;
    assert(collected.contains(view));
    assert(collected.to_multiset().count(view) > 0);
    assert(resolved.to_multiset().count(view) > 0);
}

/// Each mount of the template that a container keeps is carried into its
/// resolved policy: the policy has exactly one mount at the destination,
/// and it is the mount of the template as the policy writes it. This holds
/// of a destination at which the container mounts no volume; and where the
/// template has a destination more than once, of the last mount with that
/// destination.
pub proof fn lemma_template_mount_is_resolved(
    policy: &AgentPolicy,
    container: &Container,
    volumes: Seq<Volume>,
    is_pause_container: bool,
    i: int,
)
    requires
        0 <= i < policy.infra_container(is_pause_container)@.mounts.len(),
        forall|j: int|
            i < j < policy.infra_container(is_pause_container)@.mounts.len() ==> (
            #[trigger] policy.infra_container(is_pause_container)@.mounts[j]).destination
                != policy.infra_container(is_pause_container)@.mounts[i].destination,
        keeps_infra_mount(
            policy.infra_container(is_pause_container)@.mounts[i].destination,
            container,
        ),
        !container.mount_paths().contains(
            policy.infra_container(is_pause_container)@.mounts[i].destination,
        ),
    ensures
        count_destination(
            policy.infra_mounts(container, is_pause_container),
            policy.infra_container(is_pause_container)@.mounts[i].destination,
        ) == 1,
        mount_at(
            policy.infra_mounts(container, is_pause_container),
            policy.infra_container(is_pause_container)@.mounts[i].destination,
        ) == Some(
            policy_mount_of(
                policy.infra_policy.shared_files.source_path@,
                policy.infra_container(is_pause_container)@.mounts[i],
                container,
                is_pause_container,
            ),
        ),
        count_destination(
            policy.resolved_mounts(container, volumes, is_pause_container),
            policy.infra_container(is_pause_container)@.mounts[i].destination,
        ) == 1,
        policy.resolved_mounts(container, volumes, is_pause_container).contains(
            policy_mount_of(
                policy.infra_policy.shared_files.source_path@,
                policy.infra_container(is_pause_container)@.mounts[i],
                container,
                is_pause_container,
            ),
        ),
{
    let template = policy.infra_container(is_pause_container)@.mounts;
    let destination = template[i].destination;
    let declared = container.declared_mounts();
    lemma_default_mounts_unique(is_pause_container, container.is_privileged_spec());
    lemma_infra_mounts_carried(
        policy.infra_policy.shared_files.source_path@,
        default_mounts(is_pause_container, container.is_privileged_spec()),
        template,
        container,
        is_pause_container,
        i,
    );
    lemma_volumes_destinations(
        policy,
        policy.infra_mounts(container, is_pause_container),
        declared,
        volumes,
    );
    assert forall|j: int| 0 <= j < declared.len() implies (#[trigger] declared[j]).mount_path@
        != destination by {
        assert(container.mount_paths()[j] == declared[j].mount_path@);
        assert(container.mount_paths().contains(declared[j].mount_path@));
    }
    assert(mount_at(policy.collected_mounts(container, volumes, is_pause_container), destination)
        == mount_at(policy.infra_mounts(container, is_pause_container), destination));
    lemma_resolved_mount(policy, container, volumes, is_pause_container, destination);
}

/// A container with one volume mount, of a volume of a supported kind,
/// resolves to exactly one mount at the path of the volume mount, the
/// mount of the volume; and to exactly one storage device where the volume
/// needs one and to none where it does not.
pub proof fn lemma_single_volume_mount(
    policy: &AgentPolicy,
    container: &Container,
    volume: &Volume,
    is_pause_container: bool,
)
    requires
        container.declared_mounts().len() == 1,
        container.declared_mounts()[0].name@ == volume.name@,
        policy.infra_policy.volume_mount(volume, &container.declared_mounts()[0]) is Some,
    ensures
        count_destination(
            policy.resolved_mounts(container, seq![*volume], is_pause_container),
            container.declared_mounts()[0].mount_path@,
        ) == 1,
        policy.resolved_mounts(container, seq![*volume], is_pause_container).contains(
            policy.infra_policy.volume_mount(volume, &container.declared_mounts()[0])->0,
        ),
        policy.resolved_storages(container, seq![*volume]).len() == if needs_storage(
            &policy.infra_policy,
            volume,
            &container.declared_mounts()[0],
        ) {
            1nat
        } else {
            0nat
        },
{
    let declared = container.declared_mounts();
    let base = policy.infra_mounts(container, is_pause_container);
    let volumes = seq![*volume];
    lemma_resolved_destinations_unique(policy, container, volumes, is_pause_container);
    assert(volumes.drop_last() =~= Seq::<Volume>::empty());
    assert(volumes.last() == *volume);
    assert(declared.drop_last() =~= Seq::<VolumeMount>::empty());
    assert(declared.last() == declared[0]);
    assert(policy.mounts_with_volumes(base, declared, volumes.drop_last()) == base);
    assert(policy.mounts_with_volume_mounts(base, declared.drop_last(), volume) == base);
    let no_storages = Seq::<StorageView>::empty();
    assert(policy.storages_with_volumes(no_storages, declared, volumes.drop_last())
        == no_storages);
    assert(policy.storages_with_volume_mounts(no_storages, declared.drop_last(), volume)
        == no_storages);
    lemma_one_mount_per_volume_mount(
        &policy.infra_policy,
        base,
        no_storages,
        volume,
        &declared[0],
    );
    lemma_resolved_mount(
        policy,
        container,
        volumes,
        is_pause_container,
        declared[0].mount_path@,
    );
}

/// A container whose one volume mount names an `emptyDir` volume, without a
/// templated sub-path, resolves to exactly one mount at the path of the
/// volume mount, a recursive private read-write mount of the template's
/// type; and to exactly one storage device, whose mount point is that of
/// the template, the name of the volume mount and an end anchor.
pub proof fn lemma_single_empty_dir(
    policy: &AgentPolicy,
    container: &Container,
    volume: &Volume,
    is_pause_container: bool,
)
    requires
        container.declared_mounts().len() == 1,
        container.declared_mounts()[0].name@ == volume.name@,
        container.declared_mounts()[0].sub_path_expr is None,
        volume.kind() == VolumeKind::EmptyDir,
    ensures
        count_destination(
            policy.resolved_mounts(container, seq![*volume], is_pause_container),
            container.declared_mounts()[0].mount_path@,
        ) == 1,
        policy.resolved_mounts(container, seq![*volume], is_pause_container).contains(
            MountView {
                destination: container.declared_mounts()[0].mount_path@,
                mount_type: policy.infra_policy.volumes.empty_dir.mount_type@,
                source: policy.infra_policy.volumes.empty_dir.mount_source@
                    + container.declared_mounts()[0].name@ + "$"@,
                options: seq!["rbind"@, "rprivate"@, "rw"@],
            },
        ),
        policy.resolved_storages(container, seq![*volume]).len() == 1,
        policy.resolved_storages(container, seq![*volume])[0].mount_point
            == policy.infra_policy.volumes.empty_dir.mount_point@
            + container.declared_mounts()[0].name@ + "$"@,
{
    let declared = container.declared_mounts();
    let volumes = seq![*volume];
    lemma_single_volume_mount(policy, container, volume, is_pause_container);
    assert(volumes.drop_last() =~= Seq::<Volume>::empty());
    assert(volumes.last() == *volume);
    assert(declared.drop_last() =~= Seq::<VolumeMount>::empty());
    assert(declared.last() == declared[0]);
    let no_storages = Seq::<StorageView>::empty();
    assert(policy.storages_with_volumes(no_storages, declared, volumes.drop_last())
        == no_storages);
    assert(policy.storages_with_volume_mounts(no_storages, declared.drop_last(), volume)
        == no_storages);
}

/// Where the template gives no masked paths, a privileged container
/// resolves to none, and any other container to the fixed list; and the
/// same holds of the read-only paths.
pub proof fn lemma_masked_paths_follow_privilege(
    policy: &AgentPolicy,
    container: &Container,
    is_pause_container: bool,
)
    ensures
        (policy.infra_container(is_pause_container)@.linux matches Some(linux)
            ==> linux.masked_paths.len() == 0) ==> policy.resolved_linux(
            container,
            is_pause_container,
        ).masked_paths == if container.is_privileged_spec() {
            Seq::<Seq<char>>::empty()
        } else {
            default_masked_paths()
        },
        (policy.infra_container(is_pause_container)@.linux matches Some(linux)
            ==> linux.readonly_paths.len() == 0) ==> policy.resolved_linux(
            container,
            is_pause_container,
        ).readonly_paths == if container.is_privileged_spec() {
            Seq::<Seq<char>>::empty()
        } else {
            default_readonly_paths()
        },
        default_masked_paths().len() == 9,
{
}

/// Resolving the same inputs twice gives the same policy: two policies
/// that the same inputs resolve to agree in their process, mounts, storage
/// devices, annotations, paths and commands.
pub proof fn lemma_resolution_is_deterministic(
    policy: &AgentPolicy,
    annotations: Option<Annotations>,
    volumes: Seq<Volume>,
    container: &Container,
    image: DockerImageConfigView,
    is_pause_container: bool,
    first: &ContainerPolicy,
    second: &ContainerPolicy,
)
    requires
        policy.resolves_to(annotations, volumes, container, image, is_pause_container, first),
        policy.resolves_to(annotations, volumes, container, image, is_pause_container, second),
    ensures
        first.process@ == second.process@,
        view_all(first.mounts@) == view_all(second.mounts@),
        view_all(first.storages@) == view_all(second.storages@),
        first.annotations@ == second.annotations@,
        first.linux@ == second.linux@,
        view_all(first.exec_commands@) == view_all(second.exec_commands@),
{
}

} // verus!
