//! The defaults that the container runtime gives to every container, before
//! the infrastructure and the workload change them.

use crate::oci::{destinations_unique, Linux, LinuxCapabilities, LinuxCapabilitiesView, LinuxView,
    Mount, MountView, UserView};
use crate::policy::{OciProcess, OciProcessView};
use crate::text::{strings_of, view_all};
use vstd::prelude::*;

verus! {

/// The capabilities of an unprivileged container.
pub open spec fn default_unix_caps() -> Seq<Seq<char>> {
    seq![
        "CAP_CHOWN"@,
        "CAP_DAC_OVERRIDE"@,
        "CAP_FSETID"@,
        "CAP_FOWNER"@,
        "CAP_MKNOD"@,
        "CAP_NET_RAW"@,
        "CAP_SETGID"@,
        "CAP_SETUID"@,
        "CAP_SETFCAP"@,
        "CAP_SETPCAP"@,
        "CAP_NET_BIND_SERVICE"@,
        "CAP_SYS_CHROOT"@,
        "CAP_KILL"@,
        "CAP_AUDIT_WRITE"@,
    ]
}

/// The capabilities of a privileged container.
pub open spec fn default_unix_caps_privileged() -> Seq<Seq<char>> {
    seq![
        "CAP_CHOWN"@,
        "CAP_DAC_OVERRIDE"@,
        "CAP_DAC_READ_SEARCH"@,
        "CAP_FOWNER"@,
        "CAP_FSETID"@,
        "CAP_KILL"@,
        "CAP_SETGID"@,
        "CAP_SETUID"@,
        "CAP_SETPCAP"@,
        "CAP_LINUX_IMMUTABLE"@,
        "CAP_NET_BIND_SERVICE"@,
        "CAP_NET_BROADCAST"@,
        "CAP_NET_ADMIN"@,
        "CAP_NET_RAW"@,
        "CAP_IPC_LOCK"@,
        "CAP_IPC_OWNER"@,
        "CAP_SYS_MODULE"@,
        "CAP_SYS_RAWIO"@,
        "CAP_SYS_CHROOT"@,
        "CAP_SYS_PTRACE"@,
        "CAP_SYS_PACCT"@,
        "CAP_SYS_ADMIN"@,
        "CAP_SYS_BOOT"@,
        "CAP_SYS_NICE"@,
        "CAP_SYS_RESOURCE"@,
        "CAP_SYS_TIME"@,
        "CAP_SYS_TTY_CONFIG"@,
        "CAP_MKNOD"@,
        "CAP_LEASE"@,
        "CAP_AUDIT_WRITE"@,
        "CAP_AUDIT_CONTROL"@,
        "CAP_SETFCAP"@,
        "CAP_MAC_OVERRIDE"@,
        "CAP_MAC_ADMIN"@,
        "CAP_SYSLOG"@,
        "CAP_WAKE_ALARM"@,
        "CAP_BLOCK_SUSPEND"@,
        "CAP_AUDIT_READ"@,
        "CAP_PERFMON"@,
        "CAP_BPF"@,
        "CAP_CHECKPOINT_RESTORE"@,
    ]
}

/// The capabilities that a container starts with.
pub open spec fn default_caps(privileged_container: bool) -> Seq<Seq<char>> {
    if privileged_container {
        default_unix_caps_privileged()
    } else {
        default_unix_caps()
    }
}

/// The process that a container starts with: it runs in `/` as root, may
/// not gain privileges, and has the default capabilities as its bounding,
/// permitted and effective sets.
pub open spec fn default_process(privileged_container: bool) -> OciProcessView {
    OciProcessView {
        terminal: false,
        user: UserView {
            uid: 0,
            gid: 0,
            additional_gids: Seq::<u32>::empty(),
            username: Seq::<char>::empty(),
        },
        args: Seq::<Seq<char>>::empty(),
        env: Seq::<Seq<char>>::empty(),
        cwd: "/"@,
        capabilities: Some(
            LinuxCapabilitiesView {
                bounding: default_caps(privileged_container),
                effective: default_caps(privileged_container),
                inheritable: Seq::<Seq<char>>::empty(),
                permitted: default_caps(privileged_container),
                ambient: Seq::<Seq<char>>::empty(),
            },
        ),
        no_new_privileges: true,
    }
}

/// `ro`, or `rw` for a privileged container.
pub open spec fn sysfs_access(privileged_container: bool) -> Seq<char> {
    if privileged_container {
        "rw"@
    } else {
        "ro"@
    }
}

/// The mounts that every container starts with.
pub open spec fn base_mounts(privileged_container: bool) -> Seq<MountView> {
    seq![
        MountView {
            destination: "/proc"@,
            mount_type: "proc"@,
            source: "proc"@,
            options: seq!["nosuid"@, "noexec"@, "nodev"@],
        },
        MountView {
            destination: "/dev"@,
            mount_type: "tmpfs"@,
            source: "tmpfs"@,
            options: seq!["nosuid"@, "strictatime"@, "mode=755"@, "size=65536k"@],
        },
        MountView {
            destination: "/dev/pts"@,
            mount_type: "devpts"@,
            source: "devpts"@,
            options: seq![
                "nosuid"@,
                "noexec"@,
                "newinstance"@,
                "ptmxmode=0666"@,
                "mode=0620"@,
                "gid=5"@,
            ],
        },
        MountView {
            destination: "/dev/shm"@,
            mount_type: "tmpfs"@,
            source: "shm"@,
            options: seq!["nosuid"@, "noexec"@, "nodev"@, "mode=1777"@, "size=65536k"@],
        },
        MountView {
            destination: "/dev/mqueue"@,
            mount_type: "mqueue"@,
            source: "mqueue"@,
            options: seq!["nosuid"@, "noexec"@, "nodev"@],
        },
        MountView {
            destination: "/sys"@,
            mount_type: "sysfs"@,
            source: "sysfs"@,
            options: seq!["nosuid"@, "noexec"@, "nodev"@, sysfs_access(privileged_container)],
        },
    ]
}

/// The control group mount, which every container but the sandbox has.
pub open spec fn cgroup_mount(privileged_container: bool) -> MountView {
    MountView {
        destination: "/sys/fs/cgroup"@,
        mount_type: "cgroup"@,
        source: "cgroup"@,
        options: seq![
            "nosuid"@,
            "noexec"@,
            "nodev"@,
            "relatime"@,
            sysfs_access(privileged_container),
        ],
    }
}

/// The mounts that a container starts with.
pub open spec fn default_mounts(is_pause_container: bool, privileged_container: bool) -> Seq<
    MountView,
> {
    if is_pause_container {
        base_mounts(privileged_container)
    } else {
        base_mounts(privileged_container).push(cgroup_mount(privileged_container))
    }
}

/// The paths that are hidden from an unprivileged container.
pub open spec fn default_masked_paths() -> Seq<Seq<char>> {
    seq![
        "/proc/acpi"@,
        "/proc/kcore"@,
        "/proc/keys"@,
        "/proc/latency_stats"@,
        "/proc/timer_list"@,
        "/proc/timer_stats"@,
        "/proc/sched_debug"@,
        "/proc/scsi"@,
        "/sys/firmware"@,
    ]
}

/// The paths that an unprivileged container may read but not write.
pub open spec fn default_readonly_paths() -> Seq<Seq<char>> {
    seq![
        "/proc/asound"@,
        "/proc/bus"@,
        "/proc/fs"@,
        "/proc/irq"@,
        "/proc/sys"@,
        "/proc/sysrq-trigger"@,
    ]
}

/// The path lists that a container starts with: none for a privileged
/// container, the fixed lists for any other.
pub open spec fn default_linux(privileged_container: bool) -> LinuxView {
    if privileged_container {
        LinuxView {
            masked_paths: Seq::<Seq<char>>::empty(),
            readonly_paths: Seq::<Seq<char>>::empty(),
        }
    } else {
        LinuxView { masked_paths: default_masked_paths(), readonly_paths: default_readonly_paths() }
    }
}

fn unix_caps(privileged_container: bool) -> (r: Vec<String>)
    ensures
        view_all(r@) == default_caps(privileged_container),
{
    let r = if privileged_container {
        strings_of(
            &[
                "CAP_CHOWN",
                "CAP_DAC_OVERRIDE",
                "CAP_DAC_READ_SEARCH",
                "CAP_FOWNER",
                "CAP_FSETID",
                "CAP_KILL",
                "CAP_SETGID",
                "CAP_SETUID",
                "CAP_SETPCAP",
                "CAP_LINUX_IMMUTABLE",
                "CAP_NET_BIND_SERVICE",
                "CAP_NET_BROADCAST",
                "CAP_NET_ADMIN",
                "CAP_NET_RAW",
                "CAP_IPC_LOCK",
                "CAP_IPC_OWNER",
                "CAP_SYS_MODULE",
                "CAP_SYS_RAWIO",
                "CAP_SYS_CHROOT",
                "CAP_SYS_PTRACE",
                "CAP_SYS_PACCT",
                "CAP_SYS_ADMIN",
                "CAP_SYS_BOOT",
                "CAP_SYS_NICE",
                "CAP_SYS_RESOURCE",
                "CAP_SYS_TIME",
                "CAP_SYS_TTY_CONFIG",
                "CAP_MKNOD",
                "CAP_LEASE",
                "CAP_AUDIT_WRITE",
                "CAP_AUDIT_CONTROL",
                "CAP_SETFCAP",
                "CAP_MAC_OVERRIDE",
                "CAP_MAC_ADMIN",
                "CAP_SYSLOG",
                "CAP_WAKE_ALARM",
                "CAP_BLOCK_SUSPEND",
                "CAP_AUDIT_READ",
                "CAP_PERFMON",
                "CAP_BPF",
                "CAP_CHECKPOINT_RESTORE",
            ],
        )
    } else {
        strings_of(
            &[
                "CAP_CHOWN",
                "CAP_DAC_OVERRIDE",
                "CAP_FSETID",
                "CAP_FOWNER",
                "CAP_MKNOD",
                "CAP_NET_RAW",
                "CAP_SETGID",
                "CAP_SETUID",
                "CAP_SETFCAP",
                "CAP_SETPCAP",
                "CAP_NET_BIND_SERVICE",
                "CAP_SYS_CHROOT",
                "CAP_KILL",
                "CAP_AUDIT_WRITE",
            ],
        )
    };
    assert(view_all(r@) =~= default_caps(privileged_container));
    r
}

/// The default process of a container.
pub fn get_process(privileged_container: bool) -> (process: OciProcess)
    ensures
        process@ == default_process(privileged_container),
{
    let mut process = OciProcess::new();
    process.cwd = "/".to_string();
    process.no_new_privileges = true;
    let capabilities = LinuxCapabilities {
        bounding: unix_caps(privileged_container),
        effective: unix_caps(privileged_container),
        inheritable: Vec::new(),
        permitted: unix_caps(privileged_container),
        ambient: Vec::new(),
    };
    assert(view_all(capabilities.inheritable@) =~= Seq::<Seq<char>>::empty());
    assert(view_all(capabilities.ambient@) =~= Seq::<Seq<char>>::empty());
    process.capabilities = Some(capabilities);
    process
}

fn mount_of(destination: &str, mount_type: &str, source: &str, options: &[&str]) -> (r: Mount)
    ensures
        r@.destination == destination@,
        r@.mount_type == mount_type@,
        r@.source == source@,
        r@.options.len() == options@.len(),
        forall|i: int| 0 <= i < options@.len() ==> (#[trigger] r@.options[i]) == options@[i]@,
{
    Mount {
        destination: destination.to_string(),
        mount_type: mount_type.to_string(),
        source: source.to_string(),
        options: strings_of(options),
    }
}

/// The default mounts of a container.
pub fn get_mounts(is_pause_container: bool, privileged_container: bool) -> (mounts: Vec<Mount>)
    ensures
        view_all(mounts@) == default_mounts(is_pause_container, privileged_container),
{
    let sysfs_read_write_option = if privileged_container {
        "rw"
    } else {
        "ro"
    };
    let mut mounts: Vec<Mount> = Vec::new();
    mounts.push(mount_of("/proc", "proc", "proc", &["nosuid", "noexec", "nodev"]));
    mounts.push(
        mount_of("/dev", "tmpfs", "tmpfs", &["nosuid", "strictatime", "mode=755", "size=65536k"]),
    );
    mounts.push(
        mount_of(
            "/dev/pts",
            "devpts",
            "devpts",
            &["nosuid", "noexec", "newinstance", "ptmxmode=0666", "mode=0620", "gid=5"],
        ),
    );
    mounts.push(
        mount_of(
            "/dev/shm",
            "tmpfs",
            "shm",
            &["nosuid", "noexec", "nodev", "mode=1777", "size=65536k"],
        ),
    );
    mounts.push(mount_of("/dev/mqueue", "mqueue", "mqueue", &["nosuid", "noexec", "nodev"]));
    mounts.push(
        mount_of("/sys", "sysfs", "sysfs", &["nosuid", "noexec", "nodev", sysfs_read_write_option]),
    );
    proof {
        let base = base_mounts(privileged_container);
        assert(view_all(mounts@).len() == base.len());
        assert forall|i: int| 0 <= i < base.len() implies view_all(mounts@)[i] == base[i] by {
            assert(view_all(mounts@)[i].options =~= base[i].options);
        }
        assert(view_all(mounts@) =~= base);
    }
    if !is_pause_container {
        let ghost before = mounts@;
        let cgroup = mount_of(
            "/sys/fs/cgroup",
            "cgroup",
            "cgroup",
            &["nosuid", "noexec", "nodev", "relatime", sysfs_read_write_option],
        );
        assert(cgroup@.options =~= cgroup_mount(privileged_container).options);
        mounts.push(cgroup);
        assert(view_all(mounts@) =~= view_all(before).push(cgroup@));
    }
    mounts
}

/// The default masked and read-only paths of a container.
pub fn get_linux(privileged_container: bool) -> (linux: Linux)
    ensures
        linux@ == default_linux(privileged_container),
{
    let mut linux = Linux::new();
    if !privileged_container {
        linux.masked_paths = strings_of(
            &[
                "/proc/acpi",
                "/proc/kcore",
                "/proc/keys",
                "/proc/latency_stats",
                "/proc/timer_list",
                "/proc/timer_stats",
                "/proc/sched_debug",
                "/proc/scsi",
                "/sys/firmware",
            ],
        );
        linux.readonly_paths = strings_of(
            &[
                "/proc/asound",
                "/proc/bus",
                "/proc/fs",
                "/proc/irq",
                "/proc/sys",
                "/proc/sysrq-trigger",
            ],
        );
        assert(view_all(linux.masked_paths@) =~= default_masked_paths());
        assert(view_all(linux.readonly_paths@) =~= default_readonly_paths());
    }
    linux
}

/// No two of the default mounts share a destination.
pub proof fn lemma_default_mounts_unique(is_pause_container: bool, privileged_container: bool)
    ensures
        destinations_unique(default_mounts(is_pause_container, privileged_container)),
{
    reveal_strlit("/proc");
    reveal_strlit("/dev");
    reveal_strlit("/dev/pts");
    reveal_strlit("/dev/shm");
    reveal_strlit("/dev/mqueue");
    reveal_strlit("/sys");
    reveal_strlit("/sys/fs/cgroup");
    let mounts = default_mounts(is_pause_container, privileged_container);
    assert("/dev"@[1] != "/sys"@[1]);
    assert("/dev/pts"@[5] != "/dev/shm"@[5]);
    assert forall|i: int, j: int|
        0 <= i < mounts.len() && 0 <= j < mounts.len() && i != j implies (
    #[trigger] mounts[i]).destination != (#[trigger] mounts[j]).destination by {
        if mounts[i].destination.len() == mounts[j].destination.len() {
            if mounts[i].destination == mounts[j].destination {
                assert(mounts[i].destination[1] == mounts[j].destination[1]);
                assert(mounts[i].destination[5] == mounts[j].destination[5]);
            }
        }
    }
}

} // verus!
