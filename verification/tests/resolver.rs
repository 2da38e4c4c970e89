use genpolicy::annotations::Annotations;
use genpolicy::containerd;
use genpolicy::error::PolicyError;
use genpolicy::infra::{
    self, ConfigMapVolume, EmptyDirVolume, InfraPolicy, KataConfig, SharedFiles, Volumes,
};
use genpolicy::oci::{Linux, Mount, User};
use genpolicy::pod::{Container, SecurityContext, VolumeMount};
use genpolicy::policy::{AgentPolicy, OciProcess, OciSpec, SerializedStorage};
use genpolicy::registry::{self, DockerConfigLayer, DockerImageConfig, DockerRootfs};
use genpolicy::volume::{
    AzureFileVolumeSource, ConfigMapVolumeSource, DownwardAPIVolumeSource, EmptyDirVolumeSource,
    HostPathVolumeSource, PersistentVolumeClaimVolumeSource, ProjectedVolumeSource,
    SecretVolumeSource, Volume,
};
use genpolicy::yaml;

fn strings(texts: &[&str]) -> Vec<String> {
    texts.iter().map(|t| t.to_string()).collect()
}

fn mount(destination: &str, mount_type: &str, source: &str, options: &[&str]) -> Mount {
    Mount {
        destination: destination.to_string(),
        mount_type: mount_type.to_string(),
        source: source.to_string(),
        options: strings(options),
    }
}

fn empty_spec() -> OciSpec {
    OciSpec { process: None, mounts: Vec::new(), annotations: None, linux: None }
}

fn template(confidential_guest: bool) -> InfraPolicy {
    let mut other = empty_spec();
    other.mounts = vec![
        mount("/etc/hosts", "bind", "", &["rbind", "rprivate", "rw"]),
        mount("/etc/hostname", "bind", "", &["rbind", "rprivate"]),
        mount("/etc/resolv.conf", "bind", "", &["rbind", "rprivate"]),
        mount("/dev/shm", "bind", "/run/kata-containers/sandbox/shm", &["rbind"]),
        mount("/opt/extra", "bind", "/host/extra", &["rbind"]),
    ];
    InfraPolicy::new(
        empty_spec(),
        other,
        Volumes {
            empty_dir: EmptyDirVolume {
                mount_type: "local".to_string(),
                mount_source: "^/run/kata-containers/shared/containers/$(sandbox-id)/local/"
                    .to_string(),
                mount_point: "^/run/kata-containers/shared/containers/$(sandbox-id)/local/"
                    .to_string(),
                driver: "local".to_string(),
                fstype: "local".to_string(),
                options: strings(&["mode=0777"]),
                source: "local".to_string(),
            },
            config_map: ConfigMapVolume {
                mount_type: "bind".to_string(),
                mount_source: "/run/kata-containers/shared/containers/watchable/".to_string(),
                mount_point: "^/run/kata-containers/shared/containers/watchable/$(bundle-id)-[a-z0-9]{16}-"
                    .to_string(),
                driver: "watchable-bind".to_string(),
                fstype: "bind".to_string(),
                options: strings(&["rbind", "rprivate", "ro"]),
            },
            confidential_config_map: ConfigMapVolume {
                mount_type: "bind".to_string(),
                mount_source: "/run/confidential/".to_string(),
                mount_point: "^/run/confidential/$(bundle-id)-".to_string(),
                driver: "".to_string(),
                fstype: "bind".to_string(),
                options: strings(&["rbind", "ro"]),
            },
        },
        SharedFiles {
            source_path: "^/run/kata-containers/shared/containers/$(bundle-id)-[a-z0-9]{16}-"
                .to_string(),
        },
        KataConfig { confidential_guest },
    )
        .unwrap()
}

fn agent(confidential_guest: bool) -> AgentPolicy {
    AgentPolicy { rules: "package agent_policy".to_string(), infra_policy: template(confidential_guest) }
}

fn plain_volume(name: &str) -> Volume {
    Volume {
        name: name.to_string(),
        empty_dir: None,
        host_path: None,
        persistent_volume_claim: None,
        config_map: None,
        azure_file: None,
        secret: None,
        projected: None,
        downward_api: None,
    }
}

fn empty_dir(name: &str) -> Volume {
    Volume { empty_dir: Some(EmptyDirVolumeSource { size_limit: None }), ..plain_volume(name) }
}

fn host_path(name: &str, path: &str) -> Volume {
    Volume {
        host_path: Some(HostPathVolumeSource { path: path.to_string(), path_type: None }),
        ..plain_volume(name)
    }
}

fn config_map(name: &str) -> Volume {
    Volume {
        config_map: Some(ConfigMapVolumeSource { name: name.to_string(), items: Vec::new() }),
        ..plain_volume(name)
    }
}

fn volume_mount(name: &str, path: &str) -> VolumeMount {
    VolumeMount {
        mount_path: path.to_string(),
        name: name.to_string(),
        mount_propagation: None,
        read_only: None,
        sub_path: None,
        sub_path_expr: None,
    }
}

fn container(mounts: Vec<VolumeMount>) -> Container {
    Container {
        name: "app".to_string(),
        image: "registry.example/app:1".to_string(),
        command: None,
        args: None,
        volume_mounts: if mounts.is_empty() { None } else { Some(mounts) },
        security_context: None,
        tty: None,
        allowed_commands: None,
    }
}

fn image(
    user: Option<&str>,
    entrypoint: Option<&[&str]>,
    cmd: Option<&[&str]>,
    env: &[&str],
    working_dir: Option<&str>,
) -> registry::Container {
    registry::Container::new(
        DockerConfigLayer {
            architecture: "amd64".to_string(),
            config: DockerImageConfig {
                user: user.map(String::from),
                tty: None,
                env: strings(env),
                cmd: cmd.map(strings),
                working_dir: working_dir.map(String::from),
                entrypoint: entrypoint.map(strings),
            },
            rootfs: DockerRootfs { rootfs_type: "layers".to_string(), diff_ids: Vec::new() },
        },
        Vec::new(),
    )
}

fn resolve_one(
    infra: &InfraPolicy,
    volume: &Volume,
    vm: &VolumeMount,
) -> (Result<(), PolicyError>, Vec<Mount>, Vec<SerializedStorage>) {
    let mut mounts = Vec::new();
    let mut storages = Vec::new();
    let r = infra.get_mount_and_storage(&mut mounts, &mut storages, volume, vm);
    (r, mounts, storages)
}

#[test]
fn empty_dir_gives_a_mount_and_a_storage() {
    let infra = template(false);
    let (r, mounts, storages) = resolve_one(&infra, &empty_dir("data"), &volume_mount("data", "/data"));
    assert_eq!(r, Ok(()));
    assert_eq!(
        mounts,
        vec![mount(
            "/data",
            "local",
            "^/run/kata-containers/shared/containers/$(sandbox-id)/local/data$",
            &["rbind", "rprivate", "rw"],
        )]
    );
    assert_eq!(
        storages,
        vec![SerializedStorage {
            driver: "local".to_string(),
            driver_options: Vec::new(),
            source: "local".to_string(),
            fstype: "local".to_string(),
            options: strings(&["mode=0777"]),
            mount_point: "^/run/kata-containers/shared/containers/$(sandbox-id)/local/data$"
                .to_string(),
            fs_group: None,
        }]
    );
}

#[test]
fn empty_dir_with_a_templated_sub_path_borrows_the_config_map_source() {
    let infra = template(false);
    let mut vm = volume_mount("scratch", "/var/scratch/");
    vm.sub_path_expr = Some("$(POD_NAME)".to_string());
    let (r, mounts, storages) = resolve_one(&infra, &empty_dir("scratch"), &vm);
    assert_eq!(r, Ok(()));
    assert_eq!(
        mounts,
        vec![mount(
            "/var/scratch/",
            "bind",
            "/run/kata-containers/shared/containers/watchable/scratch$",
            &["rbind", "rprivate", "rw"],
        )]
    );
    assert!(storages.is_empty());
}

#[test]
fn host_path_under_dev_keeps_its_own_path() {
    let infra = template(false);
    for path in ["/dev/ttyS0", "/sys/kernel", "/dev"] {
        let (r, mounts, storages) =
            resolve_one(&infra, &host_path("tty", path), &volume_mount("tty", "/mnt/tty"));
        assert_eq!(r, Ok(()));
        assert_eq!(mounts, vec![mount("/mnt/tty", "bind", path, &["rbind", "rprivate", "rw"])]);
        assert!(storages.is_empty());
    }
}

#[test]
fn host_path_elsewhere_is_shared_by_the_host() {
    let infra = template(false);
    for path in ["/tmp/results", "/devices/x", "dev/ttyS0"] {
        let (r, mounts, _) =
            resolve_one(&infra, &host_path("results", path), &volume_mount("results", "/mnt/results"));
        assert_eq!(r, Ok(()));
        assert_eq!(
            mounts,
            vec![mount(
                "/mnt/results",
                "bind",
                "^/run/kata-containers/shared/containers/$(bundle-id)-[a-z0-9]{16}-results$",
                &["rbind", "rprivate", "rw"],
            )]
        );
    }
}

#[test]
fn bidirectional_propagation_shares_the_mount() {
    let infra = template(false);
    let mut vm = volume_mount("tty", "/mnt/tty");
    vm.mount_propagation = Some("Bidirectional".to_string());
    let (_, mounts, _) = resolve_one(&infra, &host_path("tty", "/dev/ttyS0"), &vm);
    assert_eq!(mounts[0].options, strings(&["rbind", "rshared", "rw"]));
    let (_, mounts, _) = resolve_one(&infra, &host_path("tty", "/tmp/x"), &vm);
    assert_eq!(mounts[0].options, strings(&["rbind", "rshared", "rw"]));
    vm.mount_propagation = Some("HostToContainer".to_string());
    let (_, mounts, _) = resolve_one(&infra, &host_path("tty", "/dev/ttyS0"), &vm);
    assert_eq!(mounts[0].options, strings(&["rbind", "rprivate", "rw"]));
}

#[test]
fn claims_and_file_shares_are_shared_read_write() {
    let infra = template(false);
    let claim = Volume {
        persistent_volume_claim: Some(PersistentVolumeClaimVolumeSource {
            claim_name: "claim".to_string(),
        }),
        ..plain_volume("store")
    };
    let share = Volume {
        azure_file: Some(AzureFileVolumeSource {
            secret_name: "s".to_string(),
            share_name: "share".to_string(),
            read_only: None,
        }),
        ..plain_volume("store")
    };
    for volume in [claim, share] {
        let (r, mounts, storages) = resolve_one(&infra, &volume, &volume_mount("store", "/srv/store"));
        assert_eq!(r, Ok(()));
        assert_eq!(
            mounts,
            vec![mount(
                "/srv/store",
                "bind",
                "^/run/kata-containers/shared/containers/$(bundle-id)-[a-z0-9]{16}-store$",
                &["rbind", "rprivate", "rw"],
            )]
        );
        assert!(storages.is_empty());
    }
}

#[test]
fn projected_and_downward_api_volumes_are_read_only() {
    let infra = template(false);
    let projected = Volume {
        projected: Some(ProjectedVolumeSource { default_mode: None }),
        ..plain_volume("token")
    };
    let downward = Volume {
        downward_api: Some(DownwardAPIVolumeSource { default_mode: Some(0o644) }),
        ..plain_volume("token")
    };
    for volume in [projected, downward] {
        let mut vm = volume_mount("token", "/var/run/token");
        vm.read_only = Some(false);
        let (r, mounts, storages) = resolve_one(&infra, &volume, &vm);
        assert_eq!(r, Ok(()));
        assert_eq!(
            mounts,
            vec![mount(
                "/var/run/token",
                "bind",
                "^/run/kata-containers/shared/containers/$(bundle-id)-[a-z0-9]{16}-token$",
                &["rbind", "rprivate", "ro"],
            )]
        );
        assert!(storages.is_empty());
    }
}

#[test]
fn config_map_and_secret_give_a_storage_unless_confidential() {
    let secret = Volume {
        secret: Some(SecretVolumeSource { secret_name: "s".to_string(), items: Vec::new() }),
        ..plain_volume("settings")
    };
    for volume in [config_map("settings"), secret] {
        let (r, mounts, storages) =
            resolve_one(&template(false), &volume, &volume_mount("settings", "/etc/app/conf"));
        assert_eq!(r, Ok(()));
        assert_eq!(
            mounts,
            vec![mount(
                "/etc/app/conf",
                "bind",
                "^/run/kata-containers/shared/containers/watchable/$(bundle-id)-[a-z0-9]{16}-conf$",
                &["rbind", "rprivate", "ro"],
            )]
        );
        assert_eq!(storages.len(), 1);
        assert_eq!(storages[0].driver, "watchable-bind");
        assert_eq!(
            storages[0].source,
            "/run/kata-containers/shared/containers/watchable/settings$"
        );
        assert_eq!(
            storages[0].mount_point,
            "^/run/kata-containers/shared/containers/watchable/$(bundle-id)-[a-z0-9]{16}-conf$"
        );
        assert_eq!(storages[0].options, strings(&["rbind", "rprivate", "ro"]));

        let (r, mounts, storages) =
            resolve_one(&template(true), &volume, &volume_mount("settings", "/etc/app/conf"));
        assert_eq!(r, Ok(()));
        assert_eq!(
            mounts,
            vec![mount("/etc/app/conf", "bind", "^/run/confidential/$(bundle-id)-conf$", &["rbind", "ro"])]
        );
        assert!(storages.is_empty());
    }
}

#[test]
fn a_volume_of_no_known_kind_is_refused_by_name() {
    let infra = template(false);
    let (r, mounts, storages) =
        resolve_one(&infra, &plain_volume("odd"), &volume_mount("odd", "/odd"));
    assert_eq!(r, Err(PolicyError::UnsupportedVolumeKind("odd".to_string())));
    assert!(mounts.is_empty());
    assert!(storages.is_empty());
}

#[test]
fn a_config_map_at_the_root_is_refused_by_path() {
    let infra = template(false);
    let (r, mounts, storages) =
        resolve_one(&infra, &config_map("settings"), &volume_mount("settings", "/"));
    assert_eq!(r, Err(PolicyError::MalformedField("/".to_string())));
    assert!(mounts.is_empty());
    assert!(storages.is_empty());
    assert_eq!(
        infra.check_volume_mount(&config_map("settings"), &volume_mount("settings", "/a/..")),
        Err(PolicyError::MalformedField("/a/..".to_string()))
    );
}

#[test]
fn the_first_source_present_decides_the_kind() {
    let infra = template(false);
    let mut volume = host_path("both", "/dev/x");
    volume.empty_dir = Some(EmptyDirVolumeSource { size_limit: None });
    let (_, mounts, storages) = resolve_one(&infra, &volume, &volume_mount("both", "/both"));
    assert_eq!(mounts[0].mount_type, "local");
    assert_eq!(storages.len(), 1);
}

#[test]
fn a_merged_mount_replaces_the_one_at_its_destination() {
    let infra = template(false);
    let mut mounts = vec![
        mount("/a", "tmpfs", "tmpfs", &["x"]),
        mount("/mnt/results", "tmpfs", "old", &["y"]),
        mount("/b", "tmpfs", "tmpfs", &["z"]),
    ];
    let mut storages = Vec::new();
    let r = infra.get_mount_and_storage(
        &mut mounts,
        &mut storages,
        &host_path("results", "/tmp/results"),
        &volume_mount("results", "/mnt/results"),
    );
    assert_eq!(r, Ok(()));
    assert_eq!(mounts.len(), 3);
    assert_eq!(mounts[0], mount("/a", "tmpfs", "tmpfs", &["x"]));
    assert_eq!(
        mounts[1],
        mount(
            "/mnt/results",
            "bind",
            "^/run/kata-containers/shared/containers/$(bundle-id)-[a-z0-9]{16}-results$",
            &["rbind", "rprivate", "rw"],
        )
    );
    assert_eq!(mounts[2], mount("/b", "tmpfs", "tmpfs", &["z"]));
}

#[test]
fn template_mounts_are_kept_sourced_and_given_access() {
    let infra = template(false);
    let mut c = container(Vec::new());
    c.security_context =
        Some(SecurityContext { read_only_root_filesystem: Some(true), privileged: None });
    let mut mounts = containerd::get_mounts(false, false);
    infra.get_policy_mounts(&mut mounts, &infra.other_container.mounts, &c, false);
    let destinations: Vec<&str> = mounts.iter().map(|m| m.destination.as_str()).collect();
    assert_eq!(
        destinations,
        vec![
            "/proc",
            "/dev",
            "/dev/pts",
            "/dev/shm",
            "/dev/mqueue",
            "/sys",
            "/sys/fs/cgroup",
            "/etc/hosts",
            "/etc/hostname",
            "/etc/resolv.conf",
        ]
    );
    // The default mount at /dev/shm takes the type, source and options of the template.
    assert_eq!(mounts[3], mount("/dev/shm", "bind", "/run/kata-containers/sandbox/shm", &["rbind"]));
    assert_eq!(
        mounts[7],
        mount(
            "/etc/hosts",
            "bind",
            "^/run/kata-containers/shared/containers/$(bundle-id)-[a-z0-9]{16}-hosts$",
            &["rbind", "rprivate", "rw"],
        )
    );
    assert_eq!(
        mounts[8],
        mount(
            "/etc/hostname",
            "bind",
            "^/run/kata-containers/shared/containers/$(bundle-id)-[a-z0-9]{16}-hostname$",
            &["rbind", "rprivate", "ro"],
        )
    );
    assert_eq!(mounts[9].options, strings(&["rbind", "rprivate", "ro"]));

    // The sandbox container gets no access option, and a writable root gives rw.
    let mut pause = containerd::get_mounts(true, false);
    infra.get_policy_mounts(&mut pause, &infra.other_container.mounts, &c, true);
    assert_eq!(pause[7].options, strings(&["rbind", "rprivate"]));
    let mut writable = containerd::get_mounts(false, false);
    infra.get_policy_mounts(&mut writable, &infra.other_container.mounts, &container(Vec::new()), false);
    assert_eq!(writable[8].options, strings(&["rbind", "rprivate", "rw"]));
}

#[test]
fn a_template_mount_is_kept_where_the_container_mounts_there() {
    let infra = template(false);
    let c = container(vec![volume_mount("extra", "/opt/extra")]);
    let mut mounts = Vec::new();
    infra.get_policy_mounts(&mut mounts, &infra.other_container.mounts, &c, false);
    assert!(mounts.iter().any(|m| m.destination == "/opt/extra" && m.source == "/host/extra"));
    let mut mounts = Vec::new();
    infra.get_policy_mounts(&mut mounts, &infra.other_container.mounts, &container(Vec::new()), false);
    assert!(!mounts.iter().any(|m| m.destination == "/opt/extra"));
}

#[test]
fn yaml_args_win_over_the_image_command() {
    let policy = agent(false);
    let mut c = container(Vec::new());
    c.args = Some(strings(&["a"]));
    let resolved = policy
        .get_container_policy(&None, &Vec::new(), &c, &image(None, None, Some(&["b"]), &[], None), false)
        .unwrap();
    assert_eq!(resolved.process.args, strings(&["a"]));
}

#[test]
fn the_image_entry_point_and_command_are_used_without_yaml_args() {
    let policy = agent(false);
    let c = container(Vec::new());
    let resolved = policy
        .get_container_policy(
            &None,
            &Vec::new(),
            &c,
            &image(None, Some(&["e"]), Some(&["c"]), &[], None),
            false,
        )
        .unwrap();
    assert_eq!(resolved.process.args, strings(&["e", "c"]));
}

#[test]
fn the_image_entry_point_goes_before_yaml_args_and_yields_to_a_command() {
    let img = registry::Container::new(
        image(Some("1000:2000"), Some(&["e"]), Some(&["c"]), &["PATH=/bin"], Some("/work"))
            .config_layer,
        Vec::new(),
    );
    let mut process = containerd::get_process(false);
    process.args = strings(&["a"]);
    assert_eq!(img.get_process(&mut process, false, true), Ok(()));
    assert_eq!(process.args, strings(&["e", "a"]));
    assert_eq!(process.user.uid, 1000);
    assert_eq!(process.user.gid, 2000);
    assert_eq!(process.env, strings(&["PATH=/bin"]));
    assert_eq!(process.cwd, "/work");
    assert!(!process.terminal);

    let mut process = containerd::get_process(false);
    process.args = strings(&["run"]);
    assert_eq!(img.get_process(&mut process, true, false), Ok(()));
    assert_eq!(process.args, strings(&["run"]));
}

#[test]
fn an_image_user_that_is_no_number_is_refused() {
    for user in ["nobody", "1000:", ":5", "1000:x", "-1"] {
        let img = image(Some(user), None, None, &[], None);
        let mut process = containerd::get_process(false);
        let before = containerd::get_process(false);
        assert_eq!(
            img.get_process(&mut process, false, false),
            Err(PolicyError::ImageResolution(user.to_string()))
        );
        assert_eq!(process, before);
    }
    for (user, uid, gid) in [("", 0, 0), ("7", 7, 0), ("7:8:9", 7, 8), ("+7:08", 7, 8)] {
        let img = image(Some(user), None, None, &[], None);
        let mut process = containerd::get_process(false);
        assert_eq!(img.get_process(&mut process, false, false), Ok(()));
        assert_eq!((process.user.uid, process.user.gid), (uid, gid));
    }
}

#[test]
fn the_template_fills_in_what_the_process_lacks() {
    let mut infra_spec = empty_spec();
    let mut infra_process = OciProcess::new();
    infra_process.user = User { uid: 65535, gid: 65534, additional_gids: vec![1, 2], username: "pause".to_string() };
    infra_process.args = strings(&["x", "b"]);
    infra_process.env = strings(&["PATH=/bin", "HOME=/"]);
    infra_spec.process = Some(infra_process);

    let mut process = OciProcess::new();
    process.user.gid = 7;
    process.user.additional_gids = vec![2, 3];
    process.args = strings(&["a", "b"]);
    process.env = strings(&["HOME=/"]);
    infra::get_process(&mut process, &infra_spec);
    assert_eq!(process.user.uid, 65535);
    assert_eq!(process.user.gid, 7);
    assert_eq!(process.user.additional_gids, vec![2, 3, 1]);
    assert_eq!(process.user.username, "pause");
    assert_eq!(process.args, strings(&["a", "b", "x"]));
    assert_eq!(process.env, strings(&["HOME=/", "PATH=/bin"]));

    let mut named = OciProcess::new();
    named.user.username = "app".to_string();
    infra::get_process(&mut named, &infra_spec);
    assert_eq!(named.user.username, "app");

    let mut untouched = OciProcess::new();
    infra::get_process(&mut untouched, &empty_spec());
    assert_eq!(untouched, OciProcess::new());
}

#[test]
fn masked_paths_follow_the_privilege() {
    assert!(containerd::get_linux(true).masked_paths.is_empty());
    assert!(containerd::get_linux(true).readonly_paths.is_empty());
    let unprivileged = containerd::get_linux(false);
    assert_eq!(
        unprivileged.masked_paths,
        strings(&[
            "/proc/acpi",
            "/proc/kcore",
            "/proc/keys",
            "/proc/latency_stats",
            "/proc/timer_list",
            "/proc/timer_stats",
            "/proc/sched_debug",
            "/proc/scsi",
            "/sys/firmware",
        ])
    );
    assert_eq!(unprivileged.masked_paths.len(), 9);
    assert_eq!(unprivileged.readonly_paths.len(), 6);

    let policy = agent(false);
    let mut privileged = container(Vec::new());
    privileged.security_context =
        Some(SecurityContext { read_only_root_filesystem: None, privileged: Some(true) });
    let img = image(None, None, None, &[], None);
    let resolved = policy.get_container_policy(&None, &Vec::new(), &privileged, &img, false).unwrap();
    assert!(resolved.linux.masked_paths.is_empty());
    let resolved =
        policy.get_container_policy(&None, &Vec::new(), &container(Vec::new()), &img, false).unwrap();
    assert_eq!(resolved.linux.masked_paths, unprivileged.masked_paths);
}

#[test]
fn the_template_replaces_path_lists_that_it_gives() {
    let mut linux = containerd::get_linux(false);
    let before = containerd::get_linux(false);
    infra::get_linux(&mut linux, &None);
    assert_eq!(linux, before);
    infra::get_linux(
        &mut linux,
        &Some(Linux { masked_paths: strings(&["/proc/x"]), readonly_paths: Vec::new() }),
    );
    assert_eq!(linux.masked_paths, strings(&["/proc/x"]));
    assert_eq!(linux.readonly_paths, before.readonly_paths);
}

#[test]
fn a_pod_with_one_empty_dir_at_data() {
    let mut policy = agent(false);
    policy.infra_policy.volumes.empty_dir.mount_type = "bind".to_string();
    let c = container(vec![volume_mount("data", "/data")]);
    let resolved = policy
        .get_container_policy(
            &None,
            &vec![empty_dir("data")],
            &c,
            &image(None, None, None, &[], None),
            false,
        )
        .unwrap();
    let mut fixed = containerd::get_mounts(false, false);
    policy.infra_policy.get_policy_mounts(
        &mut fixed,
        &policy.infra_policy.other_container.mounts,
        &c,
        false,
    );
    assert_eq!(resolved.mounts.len(), fixed.len() + 1);
    for mount in &fixed {
        assert!(resolved.mounts.contains(mount));
    }
    let data = resolved.mounts.iter().find(|m| m.destination == "/data").unwrap();
    assert_eq!(data.mount_type, "bind");
    assert_eq!(data.options, strings(&["rbind", "rprivate", "rw"]));
    assert_eq!(resolved.storages.len(), 1);
    assert!(resolved.storages[0].mount_point.ends_with("/data$"));
}

#[test]
fn one_volume_mount_gives_one_mount_at_its_path() {
    let policy = agent(false);
    let secret = Volume {
        secret: Some(SecretVolumeSource { secret_name: "s".to_string(), items: Vec::new() }),
        ..plain_volume("v")
    };
    let projected = Volume {
        projected: Some(ProjectedVolumeSource { default_mode: None }),
        ..plain_volume("v")
    };
    let cases = vec![
        (empty_dir("v"), 1),
        (config_map("v"), 1),
        (secret, 1),
        (host_path("v", "/dev/x"), 0),
        (host_path("v", "/tmp/x"), 0),
        (projected, 0),
    ];
    for (volume, storages) in cases {
        let c = container(vec![volume_mount("v", "/srv/v")]);
        let resolved = policy
            .get_container_policy(&None, &vec![volume], &c, &image(None, None, None, &[], None), false)
            .unwrap();
        assert_eq!(resolved.mounts.iter().filter(|m| m.destination == "/srv/v").count(), 1);
        assert_eq!(resolved.storages.len(), storages);
    }
}

#[test]
fn resolved_destinations_are_unique() {
    let policy = agent(false);
    let c = container(vec![
        volume_mount("data", "/data"),
        volume_mount("shm", "/dev/shm"),
        volume_mount("settings", "/etc/app"),
        volume_mount("data", "/data2"),
        volume_mount("settings", "/etc/hosts"),
        volume_mount("data", "/data"),
    ]);
    let volumes = vec![host_path("shm", "/tmp/shm"), empty_dir("data"), config_map("settings")];
    let resolved = policy
        .get_container_policy(&None, &volumes, &c, &image(None, None, None, &[], None), false)
        .unwrap();
    let mut destinations: Vec<&str> = resolved.mounts.iter().map(|m| m.destination.as_str()).collect();
    let count = destinations.len();
    destinations.sort();
    destinations.dedup();
    assert_eq!(destinations.len(), count);
    // The storage devices come volume by volume, and for each volume in the order of
    // the container.
    let storage_sources: Vec<&str> = resolved.storages.iter().map(|s| s.source.as_str()).collect();
    assert_eq!(
        storage_sources,
        vec![
            "local",
            "local",
            "local",
            "/run/kata-containers/shared/containers/watchable/settings$",
            "/run/kata-containers/shared/containers/watchable/settings$",
        ]
    );
    assert!(resolved.storages[0].mount_point.ends_with("/data$"));
    // The volume mount at /etc/hosts takes the place of the template's mount there.
    let hosts = resolved.mounts.iter().find(|m| m.destination == "/etc/hosts").unwrap();
    assert_eq!(hosts.options, strings(&["rbind", "rprivate", "ro"]));
    assert!(hosts.source.starts_with("^/run/kata-containers/shared/containers/watchable/"));
}

#[test]
fn resolved_mounts_are_in_the_order_of_their_destinations() {
    let policy = agent(false);
    let c = container(vec![volume_mount("z", "/zeta"), volume_mount("a", "/alpha")]);
    let volumes = vec![empty_dir("z"), host_path("a", "/tmp/a")];
    let resolved = policy
        .get_container_policy(&None, &volumes, &c, &image(None, None, None, &[], None), false)
        .unwrap();
    let destinations: Vec<&str> = resolved.mounts.iter().map(|m| m.destination.as_str()).collect();
    assert_eq!(
        destinations,
        vec![
            "/alpha",
            "/dev",
            "/dev/mqueue",
            "/dev/pts",
            "/dev/shm",
            "/etc/hostname",
            "/etc/hosts",
            "/etc/resolv.conf",
            "/proc",
            "/sys",
            "/sys/fs/cgroup",
            "/zeta",
        ]
    );
    let mut sorted = destinations.clone();
    sorted.sort();
    assert_eq!(destinations, sorted);

    let unsorted = vec![
        mount("/b", "t", "first", &[]),
        mount("/a", "t", "s", &[]),
        mount("/b", "t", "second", &[]),
        mount("/B", "t", "s", &[]),
        mount("/b/", "t", "s", &[]),
        mount("", "t", "s", &[]),
        mount("/\u{e9}", "t", "s", &[]),
        mount("/z", "t", "s", &[]),
    ];
    let sorted = genpolicy::oci::sort_mounts(&unsorted);
    let mut expected = unsorted.clone();
    expected.sort_by(|x, y| x.destination.cmp(&y.destination));
    assert_eq!(sorted, expected);
    assert_eq!(sorted[3].source, "first");
    assert_eq!(sorted[4].source, "second");
}

#[test]
fn an_empty_dir_at_a_default_destination_takes_its_place() {
    let policy = agent(false);
    let c = container(vec![volume_mount("shm", "/dev/shm")]);
    let resolved = policy
        .get_container_policy(
            &None,
            &vec![empty_dir("shm")],
            &c,
            &image(None, None, None, &[], None),
            false,
        )
        .unwrap();
    let at_shm: Vec<&Mount> =
        resolved.mounts.iter().filter(|m| m.destination == "/dev/shm").collect();
    assert_eq!(
        at_shm,
        vec![&mount(
            "/dev/shm",
            "local",
            "^/run/kata-containers/shared/containers/$(sandbox-id)/local/shm$",
            &["rbind", "rprivate", "rw"],
        )]
    );
    assert_eq!(resolved.storages.len(), 1);
}

#[test]
fn every_volume_mount_is_merged_by_its_destination() {
    let secret = Volume {
        secret: Some(SecretVolumeSource { secret_name: "s".to_string(), items: Vec::new() }),
        ..plain_volume("v")
    };
    for (volume, mount_type) in
        [(empty_dir("v"), "local"), (config_map("v"), "bind"), (secret, "bind")]
    {
        let infra = template(false);
        let mut mounts = vec![
            mount("/a", "tmpfs", "tmpfs", &["x"]),
            mount("/srv/v", "tmpfs", "old", &["y"]),
            mount("/b", "tmpfs", "tmpfs", &["z"]),
        ];
        let mut storages = Vec::new();
        let r = infra.get_mount_and_storage(
            &mut mounts,
            &mut storages,
            &volume,
            &volume_mount("v", "/srv/v"),
        );
        assert_eq!(r, Ok(()));
        let destinations: Vec<&str> = mounts.iter().map(|m| m.destination.as_str()).collect();
        assert_eq!(destinations, vec!["/a", "/srv/v", "/b"]);
        assert_eq!(mounts[1].mount_type, mount_type);
        assert_ne!(mounts[1].source, "old");
        assert_eq!(mounts[0], mount("/a", "tmpfs", "tmpfs", &["x"]));
        assert_eq!(mounts[2], mount("/b", "tmpfs", "tmpfs", &["z"]));
        assert_eq!(storages.len(), 1);
    }

    // Two volume mounts at one path leave one mount there, that of the later one.
    let policy = agent(false);
    let c = container(vec![volume_mount("first", "/same"), volume_mount("second", "/same")]);
    let resolved = policy
        .get_container_policy(
            &None,
            &vec![empty_dir("first"), empty_dir("second")],
            &c,
            &image(None, None, None, &[], None),
            false,
        )
        .unwrap();
    let at_same: Vec<&Mount> = resolved.mounts.iter().filter(|m| m.destination == "/same").collect();
    assert_eq!(at_same.len(), 1);
    assert!(at_same[0].source.ends_with("/second$"));
}

#[test]
fn the_access_option_goes_onto_an_entry_that_is_there_already() {
    let infra = template(false);
    let mut read_only = container(Vec::new());
    read_only.security_context =
        Some(SecurityContext { read_only_root_filesystem: Some(true), privileged: None });
    for (c, access) in [(container(Vec::new()), "rw"), (read_only, "ro")] {
        let mut mounts = vec![
            mount("/etc/hostname", "tmpfs", "old", &["x"]),
            mount("/etc/hosts", "tmpfs", "old", &["x"]),
            mount("/etc/resolv.conf", "tmpfs", "old", &["x"]),
        ];
        infra.get_policy_mounts(&mut mounts, &infra.other_container.mounts, &c, false);
        assert_eq!(
            mounts[0],
            mount(
                "/etc/hostname",
                "bind",
                "^/run/kata-containers/shared/containers/$(bundle-id)-[a-z0-9]{16}-hostname$",
                &["rbind", "rprivate", access],
            )
        );
        assert_eq!(mounts[1].options, strings(&["rbind", "rprivate", "rw"]));
        assert_eq!(mounts[2].options, strings(&["rbind", "rprivate", access]));
        assert_eq!(mounts[2].mount_type, "bind");

        // The sandbox container gets no access option, new entry or not.
        let mut pause = vec![mount("/etc/hostname", "tmpfs", "old", &["x"])];
        infra.get_policy_mounts(&mut pause, &infra.other_container.mounts, &c, true);
        assert_eq!(pause[0].options, strings(&["rbind", "rprivate"]));
        let resolv = pause.iter().find(|m| m.destination == "/etc/resolv.conf").unwrap();
        assert_eq!(resolv.options, strings(&["rbind", "rprivate"]));
    }
}

#[test]
fn the_fixed_template_mounts_are_carried_once_each() {
    let policy = agent(false);
    let c = container(vec![volume_mount("data", "/data")]);
    let resolved = policy
        .get_container_policy(
            &None,
            &vec![empty_dir("data")],
            &c,
            &image(None, None, None, &[], None),
            false,
        )
        .unwrap();
    for template_mount in &policy.infra_policy.other_container.mounts {
        let at: Vec<&Mount> = resolved
            .mounts
            .iter()
            .filter(|m| m.destination == template_mount.destination)
            .collect();
        if template_mount.destination == "/opt/extra" {
            assert!(at.is_empty());
        } else {
            assert_eq!(at.len(), 1, "at {}", template_mount.destination);
            assert_eq!(at[0].mount_type, template_mount.mount_type);
        }
    }
}

#[test]
fn resolving_twice_gives_the_same_policy() {
    let policy = agent(false);
    let mut c = container(vec![volume_mount("data", "/data"), volume_mount("settings", "/etc/app")]);
    c.command = Some(strings(&["/bin/app"]));
    c.allowed_commands = Some(strings(&["ls"]));
    let volumes = vec![empty_dir("data"), config_map("settings")];
    let img = image(Some("10:20"), Some(&["e"]), Some(&["c"]), &["A=1"], Some("/w"));
    let mut annotations = Annotations::new();
    annotations.insert("team".to_string(), "blue".to_string());
    let first = policy.get_container_policy(&Some(annotations.duplicate()), &volumes, &c, &img, false);
    let second = policy.get_container_policy(&Some(annotations), &volumes, &c, &img, false);
    assert!(first.is_ok());
    assert_eq!(first, second);
    assert_eq!(first.unwrap().exec_commands, strings(&["ls"]));
}

#[test]
fn a_failing_volume_mount_stops_the_whole_container() {
    let policy = agent(false);
    let c = container(vec![volume_mount("data", "/data"), volume_mount("odd", "/odd")]);
    let volumes = vec![empty_dir("data"), plain_volume("odd")];
    let img = image(None, None, None, &[], None);
    assert_eq!(
        policy.get_container_policy(&None, &volumes, &c, &img, false),
        Err(PolicyError::UnsupportedVolumeKind("odd".to_string()))
    );
    let mut mounts = Vec::new();
    let mut storages = Vec::new();
    let r = yaml::get_container_mounts_and_storages(&mut mounts, &mut storages, &c, &policy, &volumes);
    assert_eq!(r, Err(PolicyError::UnsupportedVolumeKind("odd".to_string())));
    assert!(mounts.is_empty());
    assert!(storages.is_empty());
    // The image is looked at before the volumes.
    assert_eq!(
        policy.get_container_policy(&None, &volumes, &c, &image(Some("x"), None, None, &[], None), false),
        Err(PolicyError::ImageResolution("x".to_string()))
    );
}

#[test]
fn workload_annotations_win_over_the_defaults() {
    let policy = agent(false);
    let mut annotations = Annotations::new();
    annotations.insert("io.kubernetes.cri.container-type".to_string(), "mine".to_string());
    annotations.insert("io.katacontainers.config.agent.policy".to_string(), "old".to_string());
    annotations.insert("team".to_string(), "blue".to_string());
    let img = image(None, None, None, &[], None);
    let resolved = policy
        .get_container_policy(&Some(annotations), &Vec::new(), &container(Vec::new()), &img, false)
        .unwrap();
    let a = &resolved.annotations;
    assert_eq!(a.get("io.kubernetes.cri.container-type"), Some(&"mine".to_string()));
    assert_eq!(a.get("team"), Some(&"blue".to_string()));
    assert_eq!(a.get("io.katacontainers.config.agent.policy"), None);
    assert_eq!(a.get("io.katacontainers.pkg.oci.container_type"), Some(&"pod_container".to_string()));
    assert_eq!(a.get("io.kubernetes.cri.sandbox-id"), Some(&"^[a-z0-9]{64}$".to_string()));
    assert_eq!(a.entries.len(), 5);

    let pause = policy
        .get_container_policy(&None, &Vec::new(), &container(Vec::new()), &img, true)
        .unwrap();
    assert_eq!(pause.annotations.get("io.kubernetes.cri.container-type"), Some(&"sandbox".to_string()));
    assert_eq!(pause.annotations.entries.len(), 6);
    assert_eq!(pause.linux.masked_paths.len(), 10);
    assert_eq!(pause.linux.readonly_paths.len(), 5);
}

#[test]
fn templates_that_repeat_an_annotation_are_refused() {
    let volumes = || Volumes {
        empty_dir: EmptyDirVolume {
            mount_type: String::new(),
            mount_source: String::new(),
            mount_point: String::new(),
            driver: String::new(),
            fstype: String::new(),
            options: Vec::new(),
            source: String::new(),
        },
        config_map: ConfigMapVolume {
            mount_type: String::new(),
            mount_source: String::new(),
            mount_point: String::new(),
            driver: String::new(),
            fstype: String::new(),
            options: Vec::new(),
        },
        confidential_config_map: ConfigMapVolume {
            mount_type: String::new(),
            mount_source: String::new(),
            mount_point: String::new(),
            driver: String::new(),
            fstype: String::new(),
            options: Vec::new(),
        },
    };
    let repeated = Annotations {
        entries: vec![
            ("a".to_string(), "1".to_string()),
            ("b".to_string(), "2".to_string()),
            ("a".to_string(), "3".to_string()),
        ],
    };
    assert!(!repeated.has_unique_keys());
    let mut other = empty_spec();
    other.annotations = Some(repeated);
    let r = InfraPolicy::new(
        empty_spec(),
        other,
        volumes(),
        SharedFiles { source_path: String::new() },
        KataConfig { confidential_guest: false },
    );
    assert_eq!(r, Err(PolicyError::Configuration("other_container.Annotations".to_string())));

    let mut pause = empty_spec();
    pause.annotations = Some(Annotations::from_pairs(&vec![
        ("io.kubernetes.cri.container-type".to_string(), "mine".to_string()),
        ("a".to_string(), "1".to_string()),
        ("a".to_string(), "2".to_string()),
    ]));
    let infra = InfraPolicy::new(
        pause,
        empty_spec(),
        volumes(),
        SharedFiles { source_path: String::new() },
        KataConfig { confidential_guest: false },
    )
    .unwrap();
    let annotations = infra.pause_container.annotations.as_ref().unwrap();
    assert!(annotations.has_unique_keys());
    assert_eq!(annotations.get("io.kubernetes.cri.container-type"), Some(&"mine".to_string()));
    assert_eq!(annotations.get("a"), Some(&"2".to_string()));
    assert_eq!(
        annotations.get("io.katacontainers.pkg.oci.container_type"),
        Some(&"pod_sandbox".to_string())
    );
    assert_eq!(infra.pause_container.process, None);
    let agent = AgentPolicy { rules: String::new(), infra_policy: infra };
    assert!(agent.is_valid());
}
