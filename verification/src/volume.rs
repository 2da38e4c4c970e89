//! The volumes that a pod declares.

use vstd::prelude::*;

verus! {

/// A volume of a pod. The sources are looked at in a fixed order, and the
/// first one present decides the kind of the volume.
#[derive(Debug, PartialEq, Eq)]
pub struct Volume {
    pub name: String,
    pub empty_dir: Option<EmptyDirVolumeSource>,
    pub host_path: Option<HostPathVolumeSource>,
    pub persistent_volume_claim: Option<PersistentVolumeClaimVolumeSource>,
    pub config_map: Option<ConfigMapVolumeSource>,
    pub azure_file: Option<AzureFileVolumeSource>,
    pub secret: Option<SecretVolumeSource>,
    pub projected: Option<ProjectedVolumeSource>,
    pub downward_api: Option<DownwardAPIVolumeSource>,
}

/// A directory of the host.
#[derive(Debug, PartialEq, Eq)]
pub struct HostPathVolumeSource {
    pub path: String,
    pub path_type: Option<String>,
}

/// A directory that lives as long as the pod.
#[derive(Debug, PartialEq, Eq)]
pub struct EmptyDirVolumeSource {
    pub size_limit: Option<String>,
}

/// A claim on a persistent volume.
#[derive(Debug, PartialEq, Eq)]
pub struct PersistentVolumeClaimVolumeSource {
    pub claim_name: String,
}

/// The entries of a configuration map, as files.
#[derive(Debug, PartialEq, Eq)]
pub struct ConfigMapVolumeSource {
    pub name: String,
    pub items: Vec<KeyToPath>,
}

/// The file that one key of a map or secret becomes.
#[derive(Debug, PartialEq, Eq)]
pub struct KeyToPath {
    pub key: String,
    pub path: String,
}

/// A file share.
#[derive(Debug, PartialEq, Eq)]
pub struct AzureFileVolumeSource {
    pub secret_name: String,
    pub share_name: String,
    pub read_only: Option<bool>,
}

/// The entries of a secret, as files.
#[derive(Debug, PartialEq, Eq)]
pub struct SecretVolumeSource {
    pub secret_name: String,
    pub items: Vec<KeyToPath>,
}

/// Several sources projected into one directory.
#[derive(Debug, PartialEq, Eq)]
pub struct ProjectedVolumeSource {
    pub default_mode: Option<i32>,
}

/// Fields of the pod, as files.
#[derive(Debug, PartialEq, Eq)]
pub struct DownwardAPIVolumeSource {
    pub default_mode: Option<i32>,
}

/// The kinds of volume that the policy tells apart.
#[derive(Debug, PartialEq, Eq, Clone, Copy)]
pub enum VolumeKind {
    /// An `emptyDir`.
    EmptyDir,
    /// A persistent volume claim or a file share.
    Claim,
    /// A `hostPath`.
    HostPath,
    /// A configuration map or a secret.
    ConfigMap,
    /// A projected volume.
    Projected,
    /// A `downwardAPI` volume.
    DownwardApi,
    /// None of these.
    Unsupported,
}

impl Volume {
    /// The kind of the volume: that of the first source present, taken in
    /// the order of the variants of [`VolumeKind`].
    pub open spec fn kind(&self) -> VolumeKind {
        if self.empty_dir is Some {
            VolumeKind::EmptyDir
        } else if self.persistent_volume_claim is Some || self.azure_file is Some {
            VolumeKind::Claim
        } else if self.host_path is Some {
            VolumeKind::HostPath
        } else if self.config_map is Some || self.secret is Some {
            VolumeKind::ConfigMap
        } else if self.projected is Some {
            VolumeKind::Projected
        } else if self.downward_api is Some {
            VolumeKind::DownwardApi
        } else {
            VolumeKind::Unsupported
        }
    }

    /// The kind of the volume.
    pub fn get_kind(&self) -> (r: VolumeKind)
        ensures
            r == self.kind(),
    {
        if self.empty_dir.is_some() {
            VolumeKind::EmptyDir
        } else if self.persistent_volume_claim.is_some() || self.azure_file.is_some() {
            VolumeKind::Claim
        } else if self.host_path.is_some() {
            VolumeKind::HostPath
        } else if self.config_map.is_some() || self.secret.is_some() {
            VolumeKind::ConfigMap
        } else if self.projected.is_some() {
            VolumeKind::Projected
        } else if self.downward_api.is_some() {
            VolumeKind::DownwardApi
        } else {
            VolumeKind::Unsupported
        }
    }
}

} // verus!
