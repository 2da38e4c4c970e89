//! What the infrastructure adds to the policy of every container: process
//! defaults, default mounts, and the mount and storage of each kind of
//! volume.

use crate::annotations::{pair_views, with_defaults, Annotations};
use crate::error::PolicyError;
use crate::oci::{count_destination, destinations_unique, first_with_destination, has_destination,
    lemma_count_when_unique, lemma_first_with_destination, lemma_mount_at_after_upsert,
    lemma_upsert_destinations, mount_at, upsert_mount, Linux, LinuxView, Mount, MountView, UserView};
use crate::pod::{Container, VolumeMount};
use crate::policy::{OciProcess, OciProcessView, OciSpec, OciSpecView, SerializedStorage,
    StorageView};
use crate::text::{clone_strings, contains_string, file_name, file_name_spec, is_under_root_dir,
    last_segment, last_segment_of, str_equal, strings_of, under_root_dir, view_all};
use crate::volume::{Volume, VolumeKind};
use vstd::prelude::*;

verus! {

/// The templates that the infrastructure applies to every policy.
#[derive(Debug, PartialEq, Eq)]
pub struct InfraPolicy {
    pub pause_container: OciSpec,
    pub other_container: OciSpec,
    pub volumes: Volumes,
    pub shared_files: SharedFiles,
    pub kata_config: KataConfig,
}

/// The templates for the volumes that become storage devices.
#[derive(Debug, PartialEq, Eq)]
pub struct Volumes {
    pub empty_dir: EmptyDirVolume,
    pub config_map: ConfigMapVolume,
    pub confidential_config_map: ConfigMapVolume,
}

/// The template for `emptyDir` volumes.
#[derive(Debug, PartialEq, Eq)]
pub struct EmptyDirVolume {
    pub mount_type: String,
    pub mount_source: String,
    pub mount_point: String,
    pub driver: String,
    pub fstype: String,
    pub options: Vec<String>,
    pub source: String,
}

/// The template for configuration map and secret volumes.
#[derive(Debug, PartialEq, Eq)]
pub struct ConfigMapVolume {
    pub mount_type: String,
    pub mount_source: String,
    pub mount_point: String,
    pub driver: String,
    pub fstype: String,
    pub options: Vec<String>,
}

/// Where the guest keeps the files that the host shares with it.
#[derive(Debug, PartialEq, Eq)]
pub struct SharedFiles {
    pub source_path: String,
}

/// The settings of the sandbox.
#[derive(Debug, PartialEq, Eq)]
pub struct KataConfig {
    pub confidential_guest: bool,
}

/// A list after the elements of another have been merged into it, one
/// after the other: an element is appended where the list does not hold it
/// yet, and dropped where it does.
pub open spec fn with_missing<T>(dest: Seq<T>, src: Seq<T>) -> Seq<T>
    decreases src.len(),
{
    if src.len() == 0 {
        dest
    } else {
        let merged = with_missing(dest, src.drop_last());
        if merged.contains(src.last()) {
            merged
        } else {
            merged.push(src.last())
        }
    }
}

/// Merging keeps the list as the beginning of the result, brings in every
/// element of the other list, and nothing else; and a list without
/// repetitions stays without.
pub proof fn lemma_with_missing<T>(dest: Seq<T>, src: Seq<T>)
    ensures
        dest.len() <= with_missing(dest, src).len(),
        with_missing(dest, src).take(dest.len() as int) == dest,
        forall|i: int| 0 <= i < src.len() ==> with_missing(dest, src).contains(#[trigger] src[i]),
        forall|x: T| #[trigger]
            with_missing(dest, src).contains(x) ==> dest.contains(x) || src.contains(x),
        dest.no_duplicates() ==> with_missing(dest, src).no_duplicates(),
    decreases src.len(),
{
    if src.len() == 0 {
        assert(dest.take(dest.len() as int) =~= dest);
    } else {
        let front = src.drop_last();
        lemma_with_missing(dest, front);
        let merged = with_missing(dest, front);
        let result = with_missing(dest, src);
        assert(result.take(dest.len() as int) =~= merged.take(dest.len() as int));
        assert forall|i: int| 0 <= i < src.len() implies result.contains(#[trigger] src[i]) by {
            if i < front.len() {
                assert(front[i] == src[i]);
                assert(merged.contains(src[i]));
                let j = choose|j: int| 0 <= j < merged.len() && merged[j] == src[i];
                assert(result[j] == src[i]);
            } else if !merged.contains(src.last()) {
                assert(result[merged.len() as int] == src[i]);
            }
        }
        assert forall|x: T| #[trigger] result.contains(x) implies dest.contains(x) || src.contains(
            x,
        ) by {
            let j = choose|j: int| 0 <= j < result.len() && result[j] == x;
            if j < merged.len() {
                assert(merged[j] == x);
                assert(merged.contains(x));
                if front.contains(x) {
                    let k = choose|k: int| 0 <= k < front.len() && front[k] == x;
                    assert(src[k] == x);
                }
            } else {
                assert(src[src.len() - 1] == x);
            }
        }
    }
}

/// Appends each string of `src` that `dest` does not hold yet.
pub fn add_missing_strings(src: &Vec<String>, dest: &mut Vec<String>)
    ensures
        view_all(final(dest)@) == with_missing(view_all(old(dest)@), view_all(src@)),
{
    let mut i: usize = 0;
    assert(view_all(src@).take(0) =~= Seq::<Seq<char>>::empty());
    while i < src.len()
        invariant
            i <= src.len(),
            view_all(dest@) == with_missing(view_all(old(dest)@), view_all(src@).take(i as int)),
        decreases src.len() - i,
    {
        let ghost before = view_all(dest@);
        assert(view_all(src@).take(i as int + 1).drop_last() =~= view_all(src@).take(i as int));
        assert(view_all(src@).take(i as int + 1).last() == src@[i as int]@);
        if !contains_string(dest, src[i].as_str()) {
            dest.push(src[i].clone());
            assert(view_all(dest@) =~= before.push(src@[i as int]@));
        }
        i += 1;
    }
    assert(view_all(src@).take(src.len() as int) =~= view_all(src@));
}

/// Appends each group identifier of `src` that `dest` does not hold yet.
fn add_missing_gids(src: &Vec<u32>, dest: &mut Vec<u32>)
    ensures
        final(dest)@ == with_missing(old(dest)@, src@),
{
    let mut i: usize = 0;
    assert(src@.take(0) =~= Seq::<u32>::empty());
    while i < src.len()
        invariant
            i <= src.len(),
            dest@ == with_missing(old(dest)@, src@.take(i as int)),
        decreases src.len() - i,
    {
        assert(src@.take(i as int + 1).drop_last() =~= src@.take(i as int));
        assert(src@.take(i as int + 1).last() == src@[i as int]);
        let mut found = false;
        let mut j: usize = 0;
        while j < dest.len()
            invariant
                j <= dest.len(),
                i < src.len(),
                found == exists|k: int| 0 <= k < j && dest@[k] == src@[i as int],
            decreases dest.len() - j,
        {
            if dest[j] == src[i] {
                found = true;
            }
            j += 1;
        }
        if !found {
            dest.push(src[i]);
        }
        i += 1;
    }
    assert(src@.take(src.len() as int) =~= src@);
}

/// The process after the infrastructure has had its say. A user or group
/// identifier that is still zero takes the infrastructure's; a user name
/// that is still empty takes the infrastructure's; and the
/// infrastructure's additional groups, arguments and environment are
/// merged in behind those already there.
pub open spec fn process_with_infra(process: OciProcessView, infra: Option<OciProcessView>) -> OciProcessView {
    match infra {
        None => process,
        Some(infra_process) => OciProcessView {
            user: UserView {
                uid: if process.user.uid == 0 {
                    infra_process.user.uid
                } else {
                    process.user.uid
                },
                gid: if process.user.gid == 0 {
                    infra_process.user.gid
                } else {
                    process.user.gid
                },
                additional_gids: with_missing(
                    process.user.additional_gids,
                    infra_process.user.additional_gids,
                ),
                username: if process.user.username.len() == 0 {
                    infra_process.user.username
                } else {
                    process.user.username
                },
            },
            args: with_missing(process.args, infra_process.args),
            env: with_missing(process.env, infra_process.env),
            ..process
        },
    }
}

/// Lets the infrastructure have its say on the process of a container.
pub fn get_process(process: &mut OciProcess, infra_policy: &OciSpec)
    ensures
        final(process)@ == process_with_infra(old(process)@, infra_policy@.process),
{
    match &infra_policy.process {
        Some(infra_process) => {
            if process.user.uid == 0 {
                process.user.uid = infra_process.user.uid;
            }
            if process.user.gid == 0 {
                process.user.gid = infra_process.user.gid;
            }
            add_missing_gids(&infra_process.user.additional_gids, &mut process.user.additional_gids);
            if process.user.username.as_str().unicode_len() == 0 {
                process.user.username = infra_process.user.username.clone();
            }
            add_missing_strings(&infra_process.args, &mut process.args);
            add_missing_strings(&infra_process.env, &mut process.env);
        },
        None => {},
    }
}

/// The annotations after those of the infrastructure have been merged in:
/// each is added unless its key is there already.
pub fn add_annotations(annotations: &mut Annotations, infra_policy: &OciSpec)
    requires
        old(annotations).wf(),
    ensures
        final(annotations).wf(),
        final(annotations)@ == match infra_policy.annotations {
            Some(infra_annotations) => with_defaults(
                old(annotations)@,
                pair_views(infra_annotations.entries@),
            ),
            None => old(annotations)@,
        },
{
    match &infra_policy.annotations {
        Some(infra_annotations) => {
            let mut i: usize = 0;
            let ghost defaults = pair_views(infra_annotations.entries@);
            assert(defaults.take(0) =~= Seq::<(Seq<char>, Seq<char>)>::empty());
            while i < infra_annotations.entries.len()
                invariant
                    i <= infra_annotations.entries.len(),
                    defaults == pair_views(infra_annotations.entries@),
                    annotations.wf(),
                    annotations@ == with_defaults(old(annotations)@, defaults.take(i as int)),
                decreases infra_annotations.entries.len() - i,
            {
                assert(defaults.take(i as int + 1).drop_last() =~= defaults.take(i as int));
                assert(defaults.take(i as int + 1).last() == defaults[i as int]);
                let entry = &infra_annotations.entries[i];
                annotations.insert_if_absent(entry.0.clone(), entry.1.clone());
                i += 1;
            }
            assert(defaults.take(defaults.len() as int) =~= defaults);
        },
        None => {},
    }
}

/// The path lists after the infrastructure has had its say: a list that
/// the infrastructure gives, and that is not empty, replaces the one
/// there.
pub open spec fn linux_with_infra(linux: LinuxView, infra: Option<LinuxView>) -> LinuxView {
    match infra {
        None => linux,
        Some(infra_linux) => LinuxView {
            masked_paths: if infra_linux.masked_paths.len() > 0 {
                infra_linux.masked_paths
            } else {
                linux.masked_paths
            },
            readonly_paths: if infra_linux.readonly_paths.len() > 0 {
                infra_linux.readonly_paths
            } else {
                linux.readonly_paths
            },
        },
    }
}

/// Lets the infrastructure have its say on the masked and read-only paths
/// of a container.
pub fn get_linux(linux: &mut Linux, infra_linux: &Option<Linux>)
    ensures
        final(linux)@ == linux_with_infra(
            old(linux)@,
            match *infra_linux {
                Some(infra) => Some(infra@),
                None => None,
            },
        ),
{
    match infra_linux {
        Some(infra) => {
            if infra.masked_paths.len() > 0 {
                linux.masked_paths = clone_strings(&infra.masked_paths);
            }
            if infra.readonly_paths.len() > 0 {
                linux.readonly_paths = clone_strings(&infra.readonly_paths);
            }
        },
        None => {},
    }
}

/// The annotations that the sandbox container has unless the template
/// says otherwise.
pub open spec fn pause_container_annotations() -> Seq<(Seq<char>, Seq<char>)> {
    seq![
        ("io.kubernetes.cri.container-type"@, "sandbox"@),
        ("io.kubernetes.cri.sandbox-id"@, "^[a-z0-9]{64}$"@),
        (
            "io.kubernetes.cri.sandbox-log-directory"@,
            "^/var/log/pods/$(sandbox-namespace)_$(sandbox-name)_[0-9a-f]{8}-[0-9a-f]{4}-[0-9a-f]{4}-[0-9a-f]{4}-[0-9a-f]{12}$"@,
        ),
        ("io.katacontainers.pkg.oci.container_type"@, "pod_sandbox"@),
        ("io.kubernetes.cri.sandbox-namespace"@, "default"@),
        (
            "io.katacontainers.pkg.oci.bundle_path"@,
            "/run/containerd/io.containerd.runtime.v2.task/k8s.io/$(bundle-id)"@,
        ),
    ]
}

/// The annotations that every other container has unless the template
/// says otherwise.
pub open spec fn other_containers_annotations() -> Seq<(Seq<char>, Seq<char>)> {
    seq![
        (
            "io.katacontainers.pkg.oci.bundle_path"@,
            "/run/containerd/io.containerd.runtime.v2.task/k8s.io/$(bundle-id)"@,
        ),
        ("io.kubernetes.cri.sandbox-id"@, "^[a-z0-9]{64}$"@),
        ("io.katacontainers.pkg.oci.container_type"@, "pod_container"@),
        ("io.kubernetes.cri.container-type"@, "container"@),
    ]
}

/// The paths that are hidden from the sandbox container.
pub open spec fn pause_masked_paths() -> Seq<Seq<char>> {
    seq![
        "/proc/acpi"@,
        "/proc/asound"@,
        "/proc/kcore"@,
        "/proc/keys"@,
        "/proc/latency_stats"@,
        "/proc/timer_list"@,
        "/proc/timer_stats"@,
        "/proc/sched_debug"@,
        "/sys/firmware"@,
        "/proc/scsi"@,
    ]
}

/// The paths that the sandbox container may read but not write.
pub open spec fn pause_readonly_paths() -> Seq<Seq<char>> {
    seq!["/proc/bus"@, "/proc/fs"@, "/proc/irq"@, "/proc/sys"@, "/proc/sysrq-trigger"@]
}

/// The annotations of a template after the fixed defaults have been merged
/// in; a template without annotations starts from none.
pub open spec fn annotations_with_defaults(
    annotations: Option<Map<Seq<char>, Seq<char>>>,
    defaults: Seq<(Seq<char>, Seq<char>)>,
) -> Map<Seq<char>, Seq<char>> {
    with_defaults(
        match annotations {
            Some(map) => map,
            None => Map::empty(),
        },
        defaults,
    )
}

/// The template of the sandbox container, completed: its process runs
/// `/pause`, its annotations have the fixed defaults, and its masked and
/// read-only paths are the fixed lists.
pub open spec fn pause_container_data(oci: OciSpecView) -> OciSpecView {
    OciSpecView {
        process: match oci.process {
            Some(process) => Some(OciProcessView { args: seq!["/pause"@], ..process }),
            None => None,
        },
        annotations: Some(annotations_with_defaults(oci.annotations, pause_container_annotations())),
        linux: Some(
            LinuxView { masked_paths: pause_masked_paths(), readonly_paths: pause_readonly_paths() },
        ),
        ..oci
    }
}

/// The template of every other container, completed: its annotations have
/// the fixed defaults.
pub open spec fn other_container_data(oci: OciSpecView) -> OciSpecView {
    OciSpecView {
        annotations: Some(
            annotations_with_defaults(oci.annotations, other_containers_annotations()),
        ),
        ..oci
    }
}

/// Merges fixed defaults into the annotations of a template.
fn add_default_annotations(oci: &mut OciSpec, defaults: &[(&str, &str)])
    requires
        old(oci).wf(),
    ensures
        final(oci).wf(),
        final(oci)@ == (OciSpecView {
            annotations: Some(
                annotations_with_defaults(
                    old(oci)@.annotations,
                    defaults@.map_values(|pair: (&str, &str)| (pair.0@, pair.1@)),
                ),
            ),
            ..old(oci)@
        }),
{
    let ghost pairs = defaults@.map_values(|pair: (&str, &str)| (pair.0@, pair.1@));
    let mut annotations = match oci.annotations.take() {
        Some(annotations) => annotations,
        None => Annotations::new(),
    };
    let ghost start = annotations@;
    let mut i: usize = 0;
    assert(pairs.take(0) =~= Seq::<(Seq<char>, Seq<char>)>::empty());
    while i < defaults.len()
        invariant
            i <= defaults.len(),
            pairs == defaults@.map_values(|pair: (&str, &str)| (pair.0@, pair.1@)),
            annotations.wf(),
            annotations@ == with_defaults(start, pairs.take(i as int)),
        decreases defaults.len() - i,
    {
        assert(pairs.take(i as int + 1).drop_last() =~= pairs.take(i as int));
        assert(pairs.take(i as int + 1).last() == pairs[i as int]);
        annotations.insert_if_absent(defaults[i].0.to_string(), defaults[i].1.to_string());
        i += 1;
    }
    assert(pairs.take(pairs.len() as int) =~= pairs);
    oci.annotations = Some(annotations);
}

/// Completes the template of the sandbox container.
pub fn add_pause_container_data(oci: &mut OciSpec)
    requires
        old(oci).wf(),
    ensures
        final(oci).wf(),
        final(oci)@ == pause_container_data(old(oci)@),
{
    match &mut oci.process {
        Some(process) => {
            process.args = strings_of(&["/pause"]);
            assert(view_all(process.args@) =~= seq!["/pause"@]);
        },
        None => {},
    }
    let defaults = [
        ("io.kubernetes.cri.container-type", "sandbox"),
        ("io.kubernetes.cri.sandbox-id", "^[a-z0-9]{64}$"),
        (
            "io.kubernetes.cri.sandbox-log-directory",
            "^/var/log/pods/$(sandbox-namespace)_$(sandbox-name)_[0-9a-f]{8}-[0-9a-f]{4}-[0-9a-f]{4}-[0-9a-f]{4}-[0-9a-f]{12}$",
        ),
        ("io.katacontainers.pkg.oci.container_type", "pod_sandbox"),
        ("io.kubernetes.cri.sandbox-namespace", "default"),
        (
            "io.katacontainers.pkg.oci.bundle_path",
            "/run/containerd/io.containerd.runtime.v2.task/k8s.io/$(bundle-id)",
        ),
    ];
    assert(defaults@.map_values(|pair: (&str, &str)| (pair.0@, pair.1@))
        =~= pause_container_annotations());
    add_default_annotations(oci, &defaults);
    let masked_paths = strings_of(
        &[
            "/proc/acpi",
            "/proc/asound",
            "/proc/kcore",
            "/proc/keys",
            "/proc/latency_stats",
            "/proc/timer_list",
            "/proc/timer_stats",
            "/proc/sched_debug",
            "/sys/firmware",
            "/proc/scsi",
        ],
    );
    let readonly_paths = strings_of(
        &["/proc/bus", "/proc/fs", "/proc/irq", "/proc/sys", "/proc/sysrq-trigger"],
    );
    assert(view_all(masked_paths@) =~= pause_masked_paths());
    assert(view_all(readonly_paths@) =~= pause_readonly_paths());
    oci.linux = Some(Linux { masked_paths, readonly_paths });
}

/// Completes the template of the containers other than the sandbox.
pub fn add_other_container_data(oci: &mut OciSpec)
    requires
        old(oci).wf(),
    ensures
        final(oci).wf(),
        final(oci)@ == other_container_data(old(oci)@),
{
    let defaults = [
        (
            "io.katacontainers.pkg.oci.bundle_path",
            "/run/containerd/io.containerd.runtime.v2.task/k8s.io/$(bundle-id)",
        ),
        ("io.kubernetes.cri.sandbox-id", "^[a-z0-9]{64}$"),
        ("io.katacontainers.pkg.oci.container_type", "pod_container"),
        ("io.kubernetes.cri.container-type", "container"),
    ];
    assert(defaults@.map_values(|pair: (&str, &str)| (pair.0@, pair.1@))
        =~= other_containers_annotations());
    add_default_annotations(oci, &defaults);
}

impl InfraPolicy {
    /// The invariant of the type: the annotations of both templates are
    /// maps.
    pub open spec fn wf(&self) -> bool {
        self.pause_container.wf() && self.other_container.wf()
    }

    /// The templates of the infrastructure, completed with the fixed data
    /// of the sandbox container and of the other containers. Templates
    /// whose annotations name a key twice are refused.
    pub fn new(
        pause_container: OciSpec,
        other_container: OciSpec,
        volumes: Volumes,
        shared_files: SharedFiles,
        kata_config: KataConfig,
    ) -> (r: Result<Self, PolicyError>)
        ensures
            r is Ok == (pause_container.wf() && other_container.wf()),
            r matches Ok(policy) ==> {
                &&& policy.wf()
                &&& policy.pause_container@ == pause_container_data(pause_container@)
                &&& policy.other_container@ == other_container_data(other_container@)
                &&& policy.volumes == volumes
                &&& policy.shared_files == shared_files
                &&& policy.kata_config == kata_config
            },
            r matches Err(e) ==> e matches PolicyError::Configuration(_),
    {
        let pause_is_map = match &pause_container.annotations {
            Some(annotations) => annotations.has_unique_keys(),
            None => true,
        };
        let other_is_map = match &other_container.annotations {
            Some(annotations) => annotations.has_unique_keys(),
            None => true,
        };
        if !pause_is_map {
            return Err(PolicyError::Configuration("pause_container.Annotations".to_string()));
        }
        if !other_is_map {
            return Err(PolicyError::Configuration("other_container.Annotations".to_string()));
        }
        let mut infra_policy = InfraPolicy {
            pause_container,
            other_container,
            volumes,
            shared_files,
            kata_config,
        };
        add_pause_container_data(&mut infra_policy.pause_container);
        add_other_container_data(&mut infra_policy.other_container);
        Ok(infra_policy)
    }
}

/// The destinations that the infrastructure mounts into every container.
pub open spec fn infra_mount_destinations() -> Seq<Seq<char>> {
    seq![
        "/sys/fs/cgroup"@,
        "/etc/hosts"@,
        "/dev/termination-log"@,
        "/etc/hostname"@,
        "/etc/resolv.conf"@,
        "/dev/shm"@,
        "/var/run/secrets/kubernetes.io/serviceaccount"@,
    ]
}

/// Whether a mount of the template goes into the policy of a container:
/// it has one of the fixed destinations, or the container mounts a volume
/// at its destination.
pub open spec fn keeps_infra_mount(destination: Seq<char>, container: &Container) -> bool {
    infra_mount_destinations().contains(destination) || container.mount_paths().contains(
        destination,
    )
}

/// Whether a mount of the template goes into the policy of a container.
fn keep_infra_mount(infra_mount: &Mount, yaml_container: &Container) -> (r: bool)
    ensures
        r == keeps_infra_mount(infra_mount.destination@, yaml_container),
{
    let fixed = strings_of(
        &[
            "/sys/fs/cgroup",
            "/etc/hosts",
            "/dev/termination-log",
            "/etc/hostname",
            "/etc/resolv.conf",
            "/dev/shm",
            "/var/run/secrets/kubernetes.io/serviceaccount",
        ],
    );
    assert(view_all(fixed@) =~= infra_mount_destinations());
    if contains_string(&fixed, infra_mount.destination.as_str()) {
        return true;
    }
    match &yaml_container.volume_mounts {
        Some(mounts) => {
            let ghost paths = yaml_container.mount_paths();
            let mut i: usize = 0;
            while i < mounts.len()
                invariant
                    i <= mounts.len(),
                    paths == yaml_container.mount_paths(),
                    paths == mounts@.map_values(|m: VolumeMount| m.mount_path@),
                    forall|j: int| 0 <= j < i ==> paths[j] != infra_mount.destination@,
                decreases mounts.len() - i,
            {
                if str_equal(mounts[i].mount_path.as_str(), infra_mount.destination.as_str()) {
                    assert(paths[i as int] == infra_mount.destination@);
                    assert(paths.contains(infra_mount.destination@));
                    return true;
                }
                i += 1;
            }
            false
        },
        None => false,
    }
}

/// `ro` for a read-only root filesystem, `rw` for any other.
pub open spec fn rootfs_access(container: &Container) -> Seq<char> {
    if container.read_only_root_filesystem_spec() {
        "ro"@
    } else {
        "rw"@
    }
}

/// The source of a file that the host shares with the guest: the shared
/// files root, the last segment of the path, and an end anchor.
pub open spec fn shared_source(source_path: Seq<char>, mount_path: Seq<char>) -> Seq<char> {
    source_path + last_segment(mount_path) + "$"@
}

/// The source that a mount of the template has in a policy. A bind mount
/// without a source gets the shared files root, the final component of its
/// destination and an end anchor, where the destination has a final
/// component.
pub open spec fn infra_mount_source(source_path: Seq<char>, infra_mount: MountView) -> Seq<char> {
    if infra_mount.source.len() == 0 && infra_mount.mount_type == "bind"@ {
        match file_name_spec(infra_mount.destination) {
            Some(name) => source_path + name + "$"@,
            None => infra_mount.source,
        }
    } else {
        infra_mount.source
    }
}

/// Whether a mount of the template at the destination gets the access
/// mode of the root filesystem as one more option: it does at the host
/// name and resolver files of a container other than the sandbox.
pub open spec fn gets_rootfs_access(destination: Seq<char>, is_pause_container: bool) -> bool {
    !is_pause_container && (destination == "/etc/hostname"@ || destination == "/etc/resolv.conf"@)
}

/// A mount of the template as it goes into the policy of a container: at
/// its destination and of its type, with the source that the policy gives
/// it, and with the access mode of the root filesystem as its last option
/// where its destination calls for one.
pub open spec fn policy_mount_of(
    source_path: Seq<char>,
    infra_mount: MountView,
    container: &Container,
    is_pause_container: bool,
) -> MountView {
    MountView {
        destination: infra_mount.destination,
        mount_type: infra_mount.mount_type,
        source: infra_mount_source(source_path, infra_mount),
        options: if gets_rootfs_access(infra_mount.destination, is_pause_container) {
            infra_mount.options.push(rootfs_access(container))
        } else {
            infra_mount.options
        },
    }
}

/// The mounts of a policy after one mount of the template has been looked
/// at. A mount that is kept replaces the type, source and options of the
/// mount at its destination, or goes to the end of the list; either way
/// it has the access mode of the root filesystem as its last option where
/// its destination calls for one.
pub open spec fn mounts_with_infra_mount(
    source_path: Seq<char>,
    mounts: Seq<MountView>,
    infra_mount: MountView,
    container: &Container,
    is_pause_container: bool,
) -> Seq<MountView> {
    if !keeps_infra_mount(infra_mount.destination, container) {
        mounts
    } else {
        upsert_mount(
            mounts,
            policy_mount_of(source_path, infra_mount, container, is_pause_container),
        )
    }
}

/// The mounts of a policy after the mounts of the template have been
/// looked at, in order.
pub open spec fn mounts_with_infra_mounts(
    source_path: Seq<char>,
    mounts: Seq<MountView>,
    infra_mounts: Seq<MountView>,
    container: &Container,
    is_pause_container: bool,
) -> Seq<MountView>
    decreases infra_mounts.len(),
{
    if infra_mounts.len() == 0 {
        mounts
    } else {
        mounts_with_infra_mount(
            source_path,
            mounts_with_infra_mounts(
                source_path,
                mounts,
                infra_mounts.drop_last(),
                container,
                is_pause_container,
            ),
            infra_mounts.last(),
            container,
            is_pause_container,
        )
    }
}

/// The place of the first mount with the given destination, if any.
fn find_destination(policy_mounts: &Vec<Mount>, destination: &str) -> (r: Option<usize>)
    ensures
        r is Some == has_destination(view_all(policy_mounts@), destination@),
        r matches Some(at) ==> at < policy_mounts.len() && at == first_with_destination(
            view_all(policy_mounts@),
            destination@,
        ),
{
    let mut i: usize = 0;
    while i < policy_mounts.len()
        invariant
            i <= policy_mounts.len(),
            forall|j: int|
                0 <= j < i ==> (#[trigger] view_all(policy_mounts@)[j]).destination
                    != destination@,
        decreases policy_mounts.len() - i,
    {
        if str_equal(policy_mounts[i].destination.as_str(), destination) {
            proof {
                assert(view_all(policy_mounts@)[i as int].destination == destination@);
                lemma_first_with_destination(view_all(policy_mounts@), destination@);
            }
            return Some(i);
        }
        i += 1;
    }
    None
}

/// Merges a mount into the mounts of a policy: it replaces the first mount
/// with its destination, or goes to the end.
fn merge_mount(policy_mounts: &mut Vec<Mount>, mount: Mount)
    ensures
        view_all(final(policy_mounts)@) == upsert_mount(view_all(old(policy_mounts)@), mount@),
{
    proof {
        lemma_first_with_destination(view_all(policy_mounts@), mount.destination@);
    }
    match find_destination(policy_mounts, mount.destination.as_str()) {
        Some(at) => {
            let ghost view = mount@;
            policy_mounts.set(at, mount);
            assert(view_all(policy_mounts@) =~= view_all(old(policy_mounts)@).update(
                at as int,
                view,
            ));
        },
        None => {
            let ghost view = mount@;
            policy_mounts.push(mount);
            assert(view_all(policy_mounts@) =~= view_all(old(policy_mounts)@).push(view));
        },
    }
}

/// A text made of three pieces.
fn concat3(a: &str, b: &str, c: &str) -> (r: String)
    ensures
        r@ == a@ + b@ + c@,
{
    let mut r = a.to_string();
    r.append(b);
    r.append(c);
    r
}

/// The options of a bind mount: recursive, with the given propagation and
/// access.
pub open spec fn bind_options(propagation: Seq<char>, access: Seq<char>) -> Seq<Seq<char>> {
    seq!["rbind"@, propagation, access]
}

/// The mount of a volume whose content the host shares with the guest.
pub open spec fn shared_bind(
    source_path: Seq<char>,
    mount_path: Seq<char>,
    propagation: Seq<char>,
    access: Seq<char>,
) -> MountView {
    MountView {
        destination: mount_path,
        mount_type: "bind"@,
        source: shared_source(source_path, mount_path),
        options: bind_options(propagation, access),
    }
}

/// `rshared` for a volume mount that asks for propagation in both
/// directions, `rprivate` for any other.
pub open spec fn propagation_of(mount: &VolumeMount) -> Seq<char> {
    match mount.mount_propagation {
        Some(propagation) if propagation@ == "Bidirectional"@ => "rshared"@,
        _ => "rprivate"@,
    }
}

/// Whether a host path keeps its own path as the source of its mount: it
/// lies under `/dev` or `/sys`.
pub open spec fn host_path_is_literal(path: Seq<char>) -> bool {
    under_root_dir(path, "dev"@) || under_root_dir(path, "sys"@)
}

impl InfraPolicy {
    /// The template for configuration maps and secrets that applies to the
    /// sandbox: the confidential one for a confidential guest.
    pub open spec fn config_map_template(&self) -> ConfigMapVolume {
        if self.kata_config.confidential_guest {
            self.volumes.confidential_config_map
        } else {
            self.volumes.config_map
        }
    }

    /// The mount that a volume mount of the given volume becomes, or none
    /// where the volume is of no supported kind or the mount path lacks the
    /// final component that the source is named after.
    pub open spec fn volume_mount(&self, volume: &Volume, mount: &VolumeMount) -> Option<MountView> {
        match volume.kind() {
            VolumeKind::EmptyDir => if mount.sub_path_expr is None {
                Some(
                    MountView {
                        destination: mount.mount_path@,
                        mount_type: self.volumes.empty_dir.mount_type@,
                        source: self.volumes.empty_dir.mount_source@ + mount.name@ + "$"@,
                        options: bind_options("rprivate"@, "rw"@),
                    },
                )
            } else {
                match file_name_spec(mount.mount_path@) {
                    Some(name) => Some(
                        MountView {
                            destination: mount.mount_path@,
                            mount_type: "bind"@,
                            source: self.volumes.config_map.mount_source@ + name + "$"@,
                            options: bind_options("rprivate"@, "rw"@),
                        },
                    ),
                    None => None,
                }
            },
            VolumeKind::Claim => Some(
                shared_bind(self.shared_files.source_path@, mount.mount_path@, "rprivate"@, "rw"@),
            ),
            VolumeKind::HostPath => if host_path_is_literal(volume.host_path->0.path@) {
                Some(
                    MountView {
                        destination: mount.mount_path@,
                        mount_type: "bind"@,
                        source: volume.host_path->0.path@,
                        options: bind_options(propagation_of(mount), "rw"@),
                    },
                )
            } else {
                Some(
                    shared_bind(
                        self.shared_files.source_path@,
                        mount.mount_path@,
                        propagation_of(mount),
                        "rw"@,
                    ),
                )
            },
            VolumeKind::ConfigMap => match file_name_spec(mount.mount_path@) {
                Some(name) => Some(
                    MountView {
                        destination: mount.mount_path@,
                        mount_type: self.config_map_template().mount_type@,
                        source: self.config_map_template().mount_point@ + name + "$"@,
                        options: view_all(self.config_map_template().options@),
                    },
                ),
                None => None,
            },
            VolumeKind::Projected => Some(
                shared_bind(self.shared_files.source_path@, mount.mount_path@, "rprivate"@, "ro"@),
            ),
            VolumeKind::DownwardApi => Some(
                shared_bind(self.shared_files.source_path@, mount.mount_path@, "rprivate"@, "ro"@),
            ),
            VolumeKind::Unsupported => None,
        }
    }

    /// The storage device that a volume mount of the given volume needs, if
    /// it needs one: an `emptyDir` without a templated sub-path does, and
    /// so does a configuration map or secret unless the guest is
    /// confidential.
    pub open spec fn volume_storage(&self, volume: &Volume, mount: &VolumeMount) -> Option<
        StorageView,
    > {
        match volume.kind() {
            VolumeKind::EmptyDir => if mount.sub_path_expr is None {
                Some(
                    StorageView {
                        driver: self.volumes.empty_dir.driver@,
                        driver_options: Seq::<Seq<char>>::empty(),
                        source: self.volumes.empty_dir.source@,
                        fstype: self.volumes.empty_dir.fstype@,
                        options: view_all(self.volumes.empty_dir.options@),
                        mount_point: self.volumes.empty_dir.mount_point@ + mount.name@ + "$"@,
                        fs_group: None,
                    },
                )
            } else {
                None
            },
            VolumeKind::ConfigMap => match file_name_spec(mount.mount_path@) {
                Some(name) if !self.kata_config.confidential_guest => Some(
                    StorageView {
                        driver: self.volumes.config_map.driver@,
                        driver_options: Seq::<Seq<char>>::empty(),
                        source: self.volumes.config_map.mount_source@ + mount.name@ + "$"@,
                        fstype: self.volumes.config_map.fstype@,
                        options: view_all(self.volumes.config_map.options@),
                        mount_point: self.volumes.config_map.mount_point@ + name + "$"@,
                        fs_group: None,
                    },
                ),
                _ => None,
            },
            _ => None,
        }
    }

    /// The mounts of a policy after a volume mount of the given volume has
    /// gone in: its mount replaces the type, source and options of the
    /// mount at its destination, or goes to the end of the list.
    pub open spec fn mounts_with_volume(
        &self,
        mounts: Seq<MountView>,
        volume: &Volume,
        mount: &VolumeMount,
    ) -> Seq<MountView> {
        match self.volume_mount(volume, mount) {
            None => mounts,
            Some(view) => upsert_mount(mounts, view),
        }
    }

    /// The storage devices of a policy after a volume mount of the given
    /// volume has gone in.
    pub open spec fn storages_with_volume(
        &self,
        storages: Seq<StorageView>,
        volume: &Volume,
        mount: &VolumeMount,
    ) -> Seq<StorageView> {
        match self.volume_storage(volume, mount) {
            None => storages,
            Some(view) => storages.push(view),
        }
    }

    /// Whether a failure is the one that a volume mount of the given volume
    /// is refused with: a volume of no supported kind is refused by its
    /// name, a mount path without the final component that a source has to
    /// be named after by the path.
    pub open spec fn refusal(&self, volume: &Volume, mount: &VolumeMount, e: PolicyError) -> bool {
        &&& self.volume_mount(volume, mount) is None
        &&& if volume.kind() == VolumeKind::Unsupported {
            e matches PolicyError::UnsupportedVolumeKind(name) && name@ == volume.name@
        } else {
            e matches PolicyError::MalformedField(path) && path@ == mount.mount_path@
        }
    }

    /// Whether a volume mount of the given volume can go into a policy.
    pub fn check_volume_mount(&self, yaml_volume: &Volume, yaml_mount: &VolumeMount) -> (r: Result<
        (),
        PolicyError,
    >)
        ensures
            r is Ok == self.volume_mount(yaml_volume, yaml_mount) is Some,
            r matches Err(e) ==> self.refusal(yaml_volume, yaml_mount, e),
    {
        let needs_name = match yaml_volume.get_kind() {
            VolumeKind::Unsupported => {
                return Err(PolicyError::UnsupportedVolumeKind(yaml_volume.name.clone()));
            },
            VolumeKind::EmptyDir => yaml_mount.sub_path_expr.is_some(),
            VolumeKind::ConfigMap => true,
            _ => false,
        };
        if needs_name && file_name(yaml_mount.mount_path.as_str()).is_none() {
            Err(PolicyError::MalformedField(yaml_mount.mount_path.clone()))
        } else {
            Ok(())
        }
    }

    /// Puts the mounts of the template into the mounts of a policy.
    ///
    /// Each mount of the template that the container keeps replaces the
    /// type, source and options of the mount at its destination, or goes
    /// to the end of the list; a mount at the host name or resolver file
    /// of a container other than the sandbox gets the access mode of the
    /// root filesystem as one more option.
    pub fn get_policy_mounts(
        &self,
        policy_mounts: &mut Vec<Mount>,
        infra_mounts: &Vec<Mount>,
        yaml_container: &Container,
        is_pause_container: bool,
    )
        ensures
            view_all(final(policy_mounts)@) == mounts_with_infra_mounts(
                self.shared_files.source_path@,
                view_all(old(policy_mounts)@),
                view_all(infra_mounts@),
                yaml_container,
                is_pause_container,
            ),
            destinations_unique(view_all(old(policy_mounts)@)) ==> destinations_unique(
                view_all(final(policy_mounts)@),
            ),
    {
        proof {
            lemma_infra_mounts_destinations(
                self.shared_files.source_path@,
                view_all(policy_mounts@),
                view_all(infra_mounts@),
                yaml_container,
                is_pause_container,
            );
        }
        let rootfs_access = if yaml_container.read_only_root_filesystem() {
            "ro"
        } else {
            "rw"
        };
        let ghost infra = view_all(infra_mounts@);
        let mut i: usize = 0;
        assert(infra.take(0) =~= Seq::<MountView>::empty());
        while i < infra_mounts.len()
            invariant
                i <= infra_mounts.len(),
                infra == view_all(infra_mounts@),
                rootfs_access@ == crate::infra::rootfs_access(yaml_container),
                view_all(policy_mounts@) == mounts_with_infra_mounts(
                    self.shared_files.source_path@,
                    view_all(old(policy_mounts)@),
                    infra.take(i as int),
                    yaml_container,
                    is_pause_container,
                ),
            decreases infra_mounts.len() - i,
        {
            let infra_mount = &infra_mounts[i];
            assert(infra.take(i as int + 1).drop_last() =~= infra.take(i as int));
            assert(infra.take(i as int + 1).last() == infra_mount@);
            if keep_infra_mount(infra_mount, yaml_container) {
                let mut mount = infra_mount.clone();
                if mount.source.as_str().unicode_len() == 0 && str_equal(
                    mount.mount_type.as_str(),
                    "bind",
                ) {
                    match file_name(mount.destination.as_str()) {
                        Some(name) => {
                            mount.source = concat3(
                                self.shared_files.source_path.as_str(),
                                name.as_str(),
                                "$",
                            );
                        },
                        None => {},
                    }
                }
                if !is_pause_container {
                    if str_equal(infra_mount.destination.as_str(), "/etc/hostname") || str_equal(
                        infra_mount.destination.as_str(),
                        "/etc/resolv.conf",
                    ) {
                        let ghost before = view_all(mount.options@);
                        mount.options.push(rootfs_access.to_string());
                        assert(view_all(mount.options@) =~= before.push(rootfs_access@));
                    }
                }
                merge_mount(policy_mounts, mount);
            }
            i += 1;
        }
        assert(infra.take(infra.len() as int) =~= infra);
    }

    /// Puts the mount, and where it needs one the storage device, of one
    /// volume mount into a policy.
    ///
    /// The mount replaces the type, source and options of the mount at its
    /// destination, or goes to the end of the list, so that destinations
    /// that were each their own stay so. A volume of no supported kind is
    /// refused, and so is a mount path without the final component that a
    /// source has to be named after; a refusal leaves the policy as it was.
    pub fn get_mount_and_storage(
        &self,
        policy_mounts: &mut Vec<Mount>,
        storages: &mut Vec<SerializedStorage>,
        yaml_volume: &Volume,
        yaml_mount: &VolumeMount,
    ) -> (r: Result<(), PolicyError>)
        ensures
            r is Ok == self.volume_mount(yaml_volume, yaml_mount) is Some,
            view_all(final(policy_mounts)@) == self.mounts_with_volume(
                view_all(old(policy_mounts)@),
                yaml_volume,
                yaml_mount,
            ),
            view_all(final(storages)@) == self.storages_with_volume(
                view_all(old(storages)@),
                yaml_volume,
                yaml_mount,
            ),
            r matches Err(e) ==> self.refusal(yaml_volume, yaml_mount, e),
            destinations_unique(view_all(old(policy_mounts)@)) ==> destinations_unique(
                view_all(final(policy_mounts)@),
            ),
    {
        proof {
            lemma_volume_destinations(self, view_all(policy_mounts@), yaml_volume, yaml_mount);
        }
        match yaml_volume.get_kind() {
            VolumeKind::EmptyDir => self.empty_dir_mount_and_storage(
                policy_mounts,
                storages,
                yaml_volume,
                yaml_mount,
            ),
            VolumeKind::Claim => {
                self.shared_bind_mount(yaml_mount, policy_mounts, "rprivate", "rw");
                Ok(())
            },
            VolumeKind::HostPath => {
                self.host_path_mount(yaml_mount, yaml_volume, policy_mounts);
                Ok(())
            },
            VolumeKind::ConfigMap => self.config_map_mount_and_storage(
                policy_mounts,
                storages,
                yaml_volume,
                yaml_mount,
            ),
            VolumeKind::Projected => {
                self.shared_bind_mount(yaml_mount, policy_mounts, "rprivate", "ro");
                Ok(())
            },
            VolumeKind::DownwardApi => {
                self.downward_api_mount(yaml_mount, policy_mounts);
                Ok(())
            },
            VolumeKind::Unsupported => Err(
                PolicyError::UnsupportedVolumeKind(yaml_volume.name.clone()),
            ),
        }
    }

    fn empty_dir_mount_and_storage(
        &self,
        policy_mounts: &mut Vec<Mount>,
        storages: &mut Vec<SerializedStorage>,
        yaml_volume: &Volume,
        yaml_mount: &VolumeMount,
    ) -> (r: Result<(), PolicyError>)
        requires
            yaml_volume.kind() == VolumeKind::EmptyDir,
        ensures
            r is Ok == self.volume_mount(yaml_volume, yaml_mount) is Some,
            view_all(final(policy_mounts)@) == self.mounts_with_volume(
                view_all(old(policy_mounts)@),
                yaml_volume,
                yaml_mount,
            ),
            view_all(final(storages)@) == self.storages_with_volume(
                view_all(old(storages)@),
                yaml_volume,
                yaml_mount,
            ),
            r matches Err(e) ==> e matches PolicyError::MalformedField(path) && path@
                == yaml_mount.mount_path@,
    {
        let infra_empty_dir = &self.volumes.empty_dir;
        let ghost old_storages = view_all(storages@);
        let (source, mount_type) = if yaml_mount.sub_path_expr.is_some() {
            let name = match file_name(yaml_mount.mount_path.as_str()) {
                Some(name) => name,
                None => {
                    return Err(PolicyError::MalformedField(yaml_mount.mount_path.clone()));
                },
            };
            (
                concat3(self.volumes.config_map.mount_source.as_str(), name.as_str(), "$"),
                "bind".to_string(),
            )
        } else {
            let driver_options: Vec<String> = Vec::new();
            assert(view_all(driver_options@) =~= Seq::<Seq<char>>::empty());
            let storage = SerializedStorage {
                driver: infra_empty_dir.driver.clone(),
                driver_options,
                source: infra_empty_dir.source.clone(),
                fstype: infra_empty_dir.fstype.clone(),
                options: clone_strings(&infra_empty_dir.options),
                mount_point: concat3(
                    infra_empty_dir.mount_point.as_str(),
                    yaml_mount.name.as_str(),
                    "$",
                ),
                fs_group: None,
            };
            let ghost view = storage@;
            storages.push(storage);
            assert(view_all(storages@) =~= old_storages.push(view));
            (
                concat3(infra_empty_dir.mount_source.as_str(), yaml_mount.name.as_str(), "$"),
                infra_empty_dir.mount_type.clone(),
            )
        };
        let options = strings_of(&["rbind", "rprivate", "rw"]);
        assert(view_all(options@) =~= bind_options("rprivate"@, "rw"@));
        let mount = Mount {
            destination: yaml_mount.mount_path.clone(),
            mount_type,
            source,
            options,
        };
        merge_mount(policy_mounts, mount);
        Ok(())
    }

    fn shared_bind_mount(
        &self,
        yaml_mount: &VolumeMount,
        policy_mounts: &mut Vec<Mount>,
        propagation: &str,
        access: &str,
    )
        ensures
            view_all(final(policy_mounts)@) == upsert_mount(
                view_all(old(policy_mounts)@),
                shared_bind(
                    self.shared_files.source_path@,
                    yaml_mount.mount_path@,
                    propagation@,
                    access@,
                ),
            ),
    {
        let segment = last_segment_of(yaml_mount.mount_path.as_str());
        let source = concat3(self.shared_files.source_path.as_str(), segment.as_str(), "$");
        let options = strings_of(&["rbind", propagation, access]);
        assert(view_all(options@) =~= bind_options(propagation@, access@));
        merge_mount(
            policy_mounts,
            Mount {
                destination: yaml_mount.mount_path.clone(),
                mount_type: "bind".to_string(),
                source,
                options,
            },
        );
    }

    fn host_path_mount(
        &self,
        yaml_mount: &VolumeMount,
        yaml_volume: &Volume,
        policy_mounts: &mut Vec<Mount>,
    )
        requires
            yaml_volume.kind() == VolumeKind::HostPath,
        ensures
            self.volume_mount(yaml_volume, yaml_mount) is Some,
            view_all(final(policy_mounts)@) == upsert_mount(
                view_all(old(policy_mounts)@),
                self.volume_mount(yaml_volume, yaml_mount)->0,
            ),
    {
        let host_path = match &yaml_volume.host_path {
            Some(source) => source.path.clone(),
            None => String::new(),
        };
        let bidirectional = match &yaml_mount.mount_propagation {
            Some(mount_propagation) => str_equal(mount_propagation.as_str(), "Bidirectional"),
            None => false,
        };
        let propagation = if bidirectional {
            "rshared"
        } else {
            "rprivate"
        };
        if !is_under_root_dir(host_path.as_str(), "dev") && !is_under_root_dir(
            host_path.as_str(),
            "sys",
        ) {
            self.shared_bind_mount(yaml_mount, policy_mounts, propagation, "rw");
        } else {
            let options = strings_of(&["rbind", propagation, "rw"]);
            assert(view_all(options@) =~= bind_options(propagation@, "rw"@));
            merge_mount(
                policy_mounts,
                Mount {
                    destination: yaml_mount.mount_path.clone(),
                    mount_type: "bind".to_string(),
                    source: host_path,
                    options,
                },
            );
        }
    }

    fn config_map_mount_and_storage(
        &self,
        policy_mounts: &mut Vec<Mount>,
        storages: &mut Vec<SerializedStorage>,
        yaml_volume: &Volume,
        yaml_mount: &VolumeMount,
    ) -> (r: Result<(), PolicyError>)
        requires
            yaml_volume.kind() == VolumeKind::ConfigMap,
        ensures
            r is Ok == self.volume_mount(yaml_volume, yaml_mount) is Some,
            view_all(final(policy_mounts)@) == self.mounts_with_volume(
                view_all(old(policy_mounts)@),
                yaml_volume,
                yaml_mount,
            ),
            view_all(final(storages)@) == self.storages_with_volume(
                view_all(old(storages)@),
                yaml_volume,
                yaml_mount,
            ),
            r matches Err(e) ==> e matches PolicyError::MalformedField(path) && path@
                == yaml_mount.mount_path@,
    {
        let confidential_guest = self.kata_config.confidential_guest;
        let infra_config_map = if confidential_guest {
            &self.volumes.confidential_config_map
        } else {
            &self.volumes.config_map
        };
        let ghost old_storages = view_all(storages@);
        let name = match file_name(yaml_mount.mount_path.as_str()) {
            Some(name) => name,
            None => {
                return Err(PolicyError::MalformedField(yaml_mount.mount_path.clone()));
            },
        };
        if !confidential_guest {
            let driver_options: Vec<String> = Vec::new();
            assert(view_all(driver_options@) =~= Seq::<Seq<char>>::empty());
            let storage = SerializedStorage {
                driver: infra_config_map.driver.clone(),
                driver_options,
                source: concat3(
                    infra_config_map.mount_source.as_str(),
                    yaml_mount.name.as_str(),
                    "$",
                ),
                fstype: infra_config_map.fstype.clone(),
                options: clone_strings(&infra_config_map.options),
                mount_point: concat3(infra_config_map.mount_point.as_str(), name.as_str(), "$"),
                fs_group: None,
            };
            let ghost view = storage@;
            storages.push(storage);
            assert(view_all(storages@) =~= old_storages.push(view));
        }
        let mount = Mount {
            destination: yaml_mount.mount_path.clone(),
            mount_type: infra_config_map.mount_type.clone(),
            source: concat3(infra_config_map.mount_point.as_str(), name.as_str(), "$"),
            options: clone_strings(&infra_config_map.options),
        };
        merge_mount(policy_mounts, mount);
        Ok(())
    }

    fn downward_api_mount(&self, yaml_mount: &VolumeMount, policy_mounts: &mut Vec<Mount>)
        ensures
            view_all(final(policy_mounts)@) == upsert_mount(
                view_all(old(policy_mounts)@),
                shared_bind(
                    self.shared_files.source_path@,
                    yaml_mount.mount_path@,
                    "rprivate"@,
                    "ro"@,
                ),
            ),
    {
        self.shared_bind_mount(yaml_mount, policy_mounts, "rprivate", "ro");
    }
}

/// The mounts of the template neither make nor mend a repeated
/// destination in the mounts of a policy, and they add the destinations
/// of the mounts that the container keeps.
pub proof fn lemma_infra_mounts_destinations(
    source_path: Seq<char>,
    mounts: Seq<MountView>,
    infra_mounts: Seq<MountView>,
    container: &Container,
    is_pause_container: bool,
)
    ensures
        destinations_unique(
            mounts_with_infra_mounts(
                source_path,
                mounts,
                infra_mounts,
                container,
                is_pause_container,
            ),
        ) <==> destinations_unique(mounts),
        forall|i: int|
            0 <= i < infra_mounts.len() && keeps_infra_mount(
                (#[trigger] infra_mounts[i]).destination,
                container,
            ) ==> has_destination(
                mounts_with_infra_mounts(
                    source_path,
                    mounts,
                    infra_mounts,
                    container,
                    is_pause_container,
                ),
                infra_mounts[i].destination,
            ),
    decreases infra_mounts.len(),
{
    if infra_mounts.len() > 0 {
        let front = infra_mounts.drop_last();
        lemma_infra_mounts_destinations(source_path, mounts, front, container, is_pause_container);
        let before = mounts_with_infra_mounts(
            source_path,
            mounts,
            front,
            container,
            is_pause_container,
        );
        let after = mounts_with_infra_mounts(
            source_path,
            mounts,
            infra_mounts,
            container,
            is_pause_container,
        );
        let infra_mount = infra_mounts.last();
        if keeps_infra_mount(infra_mount.destination, container) {
            lemma_upsert_destinations(
                before,
                policy_mount_of(source_path, infra_mount, container, is_pause_container),
            );
        }
        assert forall|i: int|
            0 <= i < infra_mounts.len() && keeps_infra_mount(
                (#[trigger] infra_mounts[i]).destination,
                container,
            ) implies has_destination(after, infra_mounts[i].destination) by {
            if i < front.len() {
                assert(front[i] == infra_mounts[i]);
                assert(has_destination(before, infra_mounts[i].destination));
            }
        }
    }
}

/// Each mount of the template that a container keeps is carried into the
/// policy: the first mount of the policy at its destination then has its
/// type, its source and its options as the policy writes them, and where
/// the mounts had destinations of their own before, it is the only mount
/// there. Where the template has a destination more than once, this holds
/// of the last mount with that destination, which is the one that stands.
pub proof fn lemma_infra_mounts_carried(
    source_path: Seq<char>,
    mounts: Seq<MountView>,
    infra_mounts: Seq<MountView>,
    container: &Container,
    is_pause_container: bool,
    i: int,
)
    requires
        0 <= i < infra_mounts.len(),
        keeps_infra_mount(infra_mounts[i].destination, container),
        forall|j: int|
            i < j < infra_mounts.len() ==> (#[trigger] infra_mounts[j]).destination
                != infra_mounts[i].destination,
    ensures
        destinations_unique(mounts) ==> count_destination(
            mounts_with_infra_mounts(
                source_path,
                mounts,
                infra_mounts,
                container,
                is_pause_container,
            ),
            infra_mounts[i].destination,
        ) == 1,
        mount_at(
            mounts_with_infra_mounts(
                source_path,
                mounts,
                infra_mounts,
                container,
                is_pause_container,
            ),
            infra_mounts[i].destination,
        ) == Some(policy_mount_of(source_path, infra_mounts[i], container, is_pause_container)),
    decreases infra_mounts.len(),
{
    let front = infra_mounts.drop_last();
    let before = mounts_with_infra_mounts(source_path, mounts, front, container, is_pause_container);
    let after = mounts_with_infra_mounts(
        source_path,
        mounts,
        infra_mounts,
        container,
        is_pause_container,
    );
    let last = infra_mounts.last();
    lemma_infra_mounts_destinations(
        source_path,
        mounts,
        infra_mounts,
        container,
        is_pause_container,
    );
    if destinations_unique(mounts) {
        lemma_count_when_unique(after, infra_mounts[i].destination);
    }
    if i == infra_mounts.len() - 1 {
        lemma_mount_at_after_upsert(
            before,
            policy_mount_of(source_path, last, container, is_pause_container),
            last.destination,
        );
    } else {
        assert(front[i] == infra_mounts[i]);
        assert forall|j: int| i < j < front.len() implies (#[trigger] front[j]).destination
            != front[i].destination by {
            assert(infra_mounts[j].destination != infra_mounts[i].destination);
        }
        lemma_infra_mounts_carried(source_path, mounts, front, container, is_pause_container, i);
        assert(infra_mounts[i].destination != infra_mounts[infra_mounts.len() - 1].destination);
        if keeps_infra_mount(last.destination, container) {
            lemma_mount_at_after_upsert(
                before,
                policy_mount_of(source_path, last, container, is_pause_container),
                infra_mounts[i].destination,
            );
        }
    }
}

/// What a volume mount does to the destinations of a policy: a volume
/// mount that goes in puts its path among the destinations, and it neither
/// makes nor mends a repeated destination.
pub proof fn lemma_volume_destinations(
    infra: &InfraPolicy,
    mounts: Seq<MountView>,
    volume: &Volume,
    mount: &VolumeMount,
)
    ensures
        infra.volume_mount(volume, mount) matches Some(view) ==> view.destination
            == mount.mount_path@,
        destinations_unique(infra.mounts_with_volume(mounts, volume, mount))
            <==> destinations_unique(mounts),
        forall|d: Seq<char>| #[trigger]
            has_destination(infra.mounts_with_volume(mounts, volume, mount), d) <==> has_destination(
                mounts,
                d,
            ) || (infra.volume_mount(volume, mount) is Some && d == mount.mount_path@),
        infra.volume_mount(volume, mount) matches Some(view) ==> mount_at(
            infra.mounts_with_volume(mounts, volume, mount),
            mount.mount_path@,
        ) == Some(view),
{
    match infra.volume_mount(volume, mount) {
        Some(view) => {
            lemma_upsert_destinations(mounts, view);
            lemma_mount_at_after_upsert(mounts, view, mount.mount_path@);
        },
        None => {},
    }
}

/// Whether a volume mount of the given volume needs a storage device.
pub open spec fn needs_storage(infra: &InfraPolicy, volume: &Volume, mount: &VolumeMount) -> bool {
    (volume.kind() == VolumeKind::EmptyDir && mount.sub_path_expr is None) || (volume.kind()
        == VolumeKind::ConfigMap && !infra.kata_config.confidential_guest)
}

/// A volume mount that goes into a policy whose destinations are unique
/// leaves the policy with exactly one mount at its path, the mount of the
/// volume; and it adds exactly one storage device where it needs one, and
/// none where it does not.
pub proof fn lemma_one_mount_per_volume_mount(
    infra: &InfraPolicy,
    mounts: Seq<MountView>,
    storages: Seq<StorageView>,
    volume: &Volume,
    mount: &VolumeMount,
)
    requires
        infra.volume_mount(volume, mount) is Some,
        destinations_unique(mounts),
    ensures
        count_destination(infra.mounts_with_volume(mounts, volume, mount), mount.mount_path@) == 1,
        mount_at(infra.mounts_with_volume(mounts, volume, mount), mount.mount_path@)
            == infra.volume_mount(volume, mount),
        infra.storages_with_volume(storages, volume, mount).len() == storages.len() + if needs_storage(
            infra,
            volume,
            mount,
        ) {
            1nat
        } else {
            0nat
        },
{
    lemma_volume_destinations(infra, mounts, volume, mount);
    let after = infra.mounts_with_volume(mounts, volume, mount);
    assert(has_destination(after, mount.mount_path@));
    lemma_count_when_unique(after, mount.mount_path@);
}

} // verus!
