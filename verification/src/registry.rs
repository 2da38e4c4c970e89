//! What a container image says about the process it runs, and the layers
//! it is made of.

use crate::error::PolicyError;
use crate::policy::{OciProcess, OciProcessView};
use crate::text::{join, join_spec, lemma_split_nonempty, parse_u32, parse_u32_spec, split,
    split_spec, str_equal, view_all};
use vstd::prelude::*;

verus! {

/// The process defaults of an image configuration.
#[derive(Debug, PartialEq, Eq)]
pub struct DockerImageConfig {
    pub user: Option<String>,
    pub tty: Option<bool>,
    pub env: Vec<String>,
    pub cmd: Option<Vec<String>>,
    pub working_dir: Option<String>,
    pub entrypoint: Option<Vec<String>>,
}

/// What an image configuration holds, as plain values.
pub ghost struct DockerImageConfigView {
    pub user: Option<Seq<char>>,
    pub tty: Option<bool>,
    pub env: Seq<Seq<char>>,
    pub cmd: Option<Seq<Seq<char>>>,
    pub working_dir: Option<Seq<char>>,
    pub entrypoint: Option<Seq<Seq<char>>>,
}

impl View for DockerImageConfig {
    type V = DockerImageConfigView;

    open spec fn view(&self) -> DockerImageConfigView {
        DockerImageConfigView {
            user: match self.user {
                Some(user) => Some(user@),
                None => None,
            },
            tty: self.tty,
            env: view_all(self.env@),
            cmd: match self.cmd {
                Some(cmd) => Some(view_all(cmd@)),
                None => None,
            },
            working_dir: match self.working_dir {
                Some(dir) => Some(dir@),
                None => None,
            },
            entrypoint: match self.entrypoint {
                Some(entrypoint) => Some(view_all(entrypoint@)),
                None => None,
            },
        }
    }
}

/// The layers that an image configuration lists.
#[derive(Debug, PartialEq, Eq)]
pub struct DockerRootfs {
    pub rootfs_type: String,
    pub diff_ids: Vec<String>,
}

/// The configuration layer of an image.
#[derive(Debug, PartialEq, Eq)]
pub struct DockerConfigLayer {
    pub architecture: String,
    pub config: DockerImageConfig,
    pub rootfs: DockerRootfs,
}

/// A layer of an image: its identifier and the root hash of its verified
/// content.
#[derive(Debug, PartialEq, Eq)]
pub struct ImageLayer {
    pub diff_id: String,
    pub verity_hash: String,
}

impl View for ImageLayer {
    type V = (Seq<char>, Seq<char>);

    open spec fn view(&self) -> (Seq<char>, Seq<char>) {
        (self.diff_id@, self.verity_hash@)
    }
}

impl Clone for ImageLayer {
    fn clone(&self) -> (r: Self)
        ensures
            r@ == self@,
    {
        ImageLayer { diff_id: self.diff_id.clone(), verity_hash: self.verity_hash.clone() }
    }
}

/// A layer as an image manifest describes it.
#[derive(Debug, PartialEq, Eq)]
pub struct LayerDescriptor {
    pub media_type: String,
    pub digest: String,
}

/// What is known of the image of one container.
#[derive(Debug, PartialEq, Eq)]
pub struct Container {
    pub config_layer: DockerConfigLayer,
    pub image_layers: Vec<ImageLayer>,
}

/// One or two numbers that an image gives for its user: the user
/// identifier, and the group identifier where the text has a second field.
pub open spec fn image_user(text: Seq<char>) -> Option<(u32, Option<u32>)> {
    let fields = split_spec(text, ':');
    match parse_u32_spec(fields[0]) {
        None => None,
        Some(uid) => if fields.len() > 1 {
            match parse_u32_spec(fields[1]) {
                None => None,
                Some(gid) => Some((uid, Some(gid))),
            }
        } else {
            Some((uid, None))
        },
    }
}

/// Whether the user that an image names can be read: it names none, or an
/// empty one, or numbers.
pub open spec fn image_user_is_valid(config: DockerImageConfigView) -> bool {
    config.user matches Some(text) ==> text.len() == 0 || image_user(text) is Some
}

/// The arguments that an image puts before those of the workload: its
/// entry point, unless the workload has a command of its own.
pub open spec fn leading_args(config: DockerImageConfigView, yaml_has_command: bool) -> Seq<
    Seq<char>,
> {
    match config.entrypoint {
        Some(entrypoint) if !yaml_has_command => entrypoint,
        _ => Seq::<Seq<char>>::empty(),
    }
}

/// The arguments that an image puts after those of the workload: its
/// command, unless the workload has a command or arguments of its own.
pub open spec fn trailing_args(
    config: DockerImageConfigView,
    yaml_has_command: bool,
    yaml_has_args: bool,
) -> Seq<Seq<char>> {
    match config.cmd {
        Some(cmd) if !yaml_has_command && !yaml_has_args => cmd,
        _ => Seq::<Seq<char>>::empty(),
    }
}

/// The process after the image has had its say, for an image whose user
/// can be read.
pub open spec fn process_with_image(
    config: DockerImageConfigView,
    process: OciProcessView,
    yaml_has_command: bool,
    yaml_has_args: bool,
) -> OciProcessView {
    let named = match config.user {
        Some(text) if text.len() > 0 => image_user(text),
        _ => None,
    };
    OciProcessView {
        terminal: config.tty == Some(true),
        user: crate::oci::UserView {
            uid: match named {
                Some((uid, _)) => uid,
                None => process.user.uid,
            },
            gid: match named {
                Some((_, Some(gid))) => gid,
                _ => process.user.gid,
            },
            ..process.user
        },
        args: leading_args(config, yaml_has_command) + process.args + trailing_args(
            config,
            yaml_has_command,
            yaml_has_args,
        ),
        env: process.env + config.env,
        cwd: match config.working_dir {
            Some(dir) if dir.len() > 0 => dir,
            _ => process.cwd,
        },
        ..process
    }
}

/// Appends copies of the strings of `src` to `dest`.
pub fn append_strings(dest: &mut Vec<String>, src: &Vec<String>)
    ensures
        view_all(final(dest)@) == view_all(old(dest)@) + view_all(src@),
{
    let mut i: usize = 0;
    assert(view_all(src@).take(0) =~= Seq::<Seq<char>>::empty());
    assert(view_all(dest@) + Seq::<Seq<char>>::empty() =~= view_all(dest@));
    while i < src.len()
        invariant
            i <= src.len(),
            view_all(dest@) == view_all(old(dest)@) + view_all(src@).take(i as int),
        decreases src.len() - i,
    {
        let ghost before = view_all(dest@);
        dest.push(src[i].clone());
        i += 1;
        assert(view_all(dest@) =~= before.push(src@[i - 1]@));
        assert(view_all(src@).take(i as int) =~= view_all(src@).take(i - 1).push(src@[i - 1]@));
    }
    assert(view_all(src@).take(src.len() as int) =~= view_all(src@));
}

impl Container {
    /// The record of an image from its configuration and its layers.
    pub fn new(config_layer: DockerConfigLayer, image_layers: Vec<ImageLayer>) -> (r: Self)
        ensures
            r.config_layer == config_layer,
            r.image_layers == image_layers,
    {
        Container { config_layer, image_layers }
    }

    /// Reads the user that the image names.
    fn read_user(&self) -> (r: Result<Option<(u32, Option<u32>)>, PolicyError>)
        ensures
            r is Ok == image_user_is_valid(self.config_layer.config@),
            r matches Ok(named) ==> named == match self.config_layer.config@.user {
                Some(text) if text.len() > 0 => image_user(text),
                _ => None,
            },
            r matches Err(e) ==> e matches PolicyError::ImageResolution(text) && Some(text@)
                == self.config_layer.config@.user,
    {
        match &self.config_layer.config.user {
            None => Ok(None),
            Some(image_user) => {
                if image_user.as_str().unicode_len() == 0 {
                    return Ok(None);
                }
                let fields = split(image_user.as_str(), ':');
                proof {
                    lemma_split_nonempty(image_user@, ':');
                }
                assert(view_all(fields@)[0] == fields@[0]@);
                let uid = match parse_u32(fields[0].as_str()) {
                    Some(uid) => uid,
                    None => {
                        return Err(PolicyError::ImageResolution(image_user.clone()));
                    },
                };
                if fields.len() > 1 {
                    assert(view_all(fields@)[1] == fields@[1]@);
                    match parse_u32(fields[1].as_str()) {
                        Some(gid) => Ok(Some((uid, Some(gid)))),
                        None => Err(PolicyError::ImageResolution(image_user.clone())),
                    }
                } else {
                    Ok(Some((uid, None)))
                }
            },
        }
    }

    /// Lets the image have its say on the process of a container.
    ///
    /// The image's user replaces the user and group identifiers, its
    /// terminal flag replaces the terminal flag, its environment follows the
    /// one already there, its entry point goes before the arguments already
    /// there unless the workload has a command, its command goes after them
    /// unless the workload has a command or arguments, and its working
    /// directory, unless empty, replaces the working directory. An image
    /// whose user cannot be read is refused and leaves the process as it
    /// was.
    pub fn get_process(
        &self,
        process: &mut OciProcess,
        yaml_has_command: bool,
        yaml_has_args: bool,
    ) -> (r: Result<(), PolicyError>)
        ensures
            r is Ok == image_user_is_valid(self.config_layer.config@),
            r is Ok ==> final(process)@ == process_with_image(
                self.config_layer.config@,
                old(process)@,
                yaml_has_command,
                yaml_has_args,
            ),
            r matches Err(e) ==> *final(process) == *old(process) && (
            e matches PolicyError::ImageResolution(text) && Some(text@)
                == self.config_layer.config@.user),
    {
        let docker_config = &self.config_layer.config;
        let named = match self.read_user() {
            Ok(named) => named,
            Err(e) => {
                return Err(e);
            },
        };
        match named {
            Some((uid, gid)) => {
                process.user.uid = uid;
                match gid {
                    Some(gid) => {
                        process.user.gid = gid;
                    },
                    None => {},
                }
            },
            None => {},
        }

        process.terminal = match docker_config.tty {
            Some(terminal) => terminal,
            None => false,
        };

        append_strings(&mut process.env, &docker_config.env);

        let mut policy_args: Vec<String> = Vec::new();
        assert(view_all(policy_args@) =~= Seq::<Seq<char>>::empty());
        match &docker_config.entrypoint {
            Some(entry_points) => {
                if !yaml_has_command {
                    append_strings(&mut policy_args, entry_points);
                }
            },
            None => {},
        }
        assert(view_all(policy_args@) =~= leading_args(docker_config@, yaml_has_command));
        append_strings(&mut policy_args, &process.args);
        if !yaml_has_command && !yaml_has_args {
            match &docker_config.cmd {
                Some(commands) => {
                    append_strings(&mut policy_args, commands);
                },
                None => {},
            }
        }
        assert(view_all(policy_args@) =~= leading_args(docker_config@, yaml_has_command) + old(
            process,
        )@.args + trailing_args(docker_config@, yaml_has_command, yaml_has_args));
        process.args = policy_args;

        match &docker_config.working_dir {
            Some(working_dir) => {
                if working_dir.as_str().unicode_len() > 0 {
                    process.cwd = working_dir.clone();
                }
            },
            None => {},
        }
        Ok(())
    }

    /// A copy of the layers of the image, in order.
    pub fn get_image_layers(&self) -> (r: Vec<ImageLayer>)
        ensures
            view_all(r@) == view_all(self.image_layers@),
    {
        let mut r: Vec<ImageLayer> = Vec::new();
        let mut i: usize = 0;
        while i < self.image_layers.len()
            invariant
                i <= self.image_layers.len(),
                view_all(r@) == view_all(self.image_layers@.take(i as int)),
            decreases self.image_layers.len() - i,
        {
            let ghost before = view_all(r@);
            r.push(self.image_layers[i].clone());
            i += 1;
            assert(view_all(r@) =~= before.push(self.image_layers@[i - 1]@));
            assert(view_all(self.image_layers@.take(i as int)) =~= before.push(
                self.image_layers@[i - 1]@,
            ));
        }
        assert(self.image_layers@.take(self.image_layers.len() as int) =~= self.image_layers@);
        r
    }
}

/// The media type of a layer that is a compressed archive.
pub open spec fn gzip_layer_media_type() -> Seq<char> {
    "application/vnd.docker.image.rootfs.diff.tar.gzip"@
}

/// The digests of the compressed layers of a manifest, in order.
pub open spec fn gzip_layer_digests(layers: Seq<LayerDescriptor>) -> Seq<Seq<char>>
    decreases layers.len(),
{
    if layers.len() == 0 {
        Seq::<Seq<char>>::empty()
    } else if layers.last().media_type@ == gzip_layer_media_type() {
        gzip_layer_digests(layers.drop_last()).push(layers.last().digest@)
    } else {
        gzip_layer_digests(layers.drop_last())
    }
}

/// Pairs each compressed layer of a manifest with the identifier that the
/// image configuration gives it: the first such layer with the first
/// identifier, and so on. The result holds, for each compressed layer in
/// order, the identifier and the digest under which the layer is fetched.
/// A manifest with more compressed layers than the configuration has
/// identifiers is refused.
pub fn pair_image_layers(layers: &Vec<LayerDescriptor>, config_layer: &DockerConfigLayer) -> (r:
    Result<Vec<(String, String)>, PolicyError>)
    ensures
        r is Ok == (gzip_layer_digests(layers@).len() <= config_layer.rootfs.diff_ids@.len()),
        r matches Ok(pairs) ==> {
            &&& pairs@.len() == gzip_layer_digests(layers@).len()
            &&& forall|i: int|
                0 <= i < pairs@.len() ==> (#[trigger] pairs@[i]).0@
                    == config_layer.rootfs.diff_ids@[i]@ && pairs@[i].1@ == gzip_layer_digests(
                    layers@,
                )[i]
        },
        r matches Err(e) ==> e matches PolicyError::ImageResolution(_),
{
    let mut pairs: Vec<(String, String)> = Vec::new();
    let mut i: usize = 0;
    assert(layers@.take(0) =~= Seq::<LayerDescriptor>::empty());
    while i < layers.len()
        invariant
            i <= layers.len(),
            pairs@.len() == gzip_layer_digests(layers@.take(i as int)).len(),
            pairs@.len() <= config_layer.rootfs.diff_ids@.len(),
            forall|j: int|
                0 <= j < pairs@.len() ==> (#[trigger] pairs@[j]).0@
                    == config_layer.rootfs.diff_ids@[j]@ && pairs@[j].1@ == gzip_layer_digests(
                    layers@.take(i as int),
                )[j],
        decreases layers.len() - i,
    {
        let layer = &layers[i];
        assert(layers@.take(i as int + 1).drop_last() =~= layers@.take(i as int));
        assert(layers@.take(i as int + 1).last() == layers@[i as int]);
        if str_equal(
            layer.media_type.as_str(),
            "application/vnd.docker.image.rootfs.diff.tar.gzip",
        ) {
            let layer_index = pairs.len();
            if layer_index < config_layer.rootfs.diff_ids.len() {
                pairs.push((config_layer.rootfs.diff_ids[layer_index].clone(), layer.digest.clone()));
            } else {
                proof {
                    lemma_gzip_layers_grow(layers@, i as int + 1);
                }
                return Err(PolicyError::ImageResolution("Too many Docker gzip layers".to_string()));
            }
        }
        i += 1;
    }
    assert(layers@.take(layers.len() as int) =~= layers@);
    Ok(pairs)
}

/// A manifest has at least as many compressed layers as any of its
/// prefixes.
pub proof fn lemma_gzip_layers_grow(layers: Seq<LayerDescriptor>, n: int)
    requires
        0 <= n <= layers.len(),
    ensures
        gzip_layer_digests(layers.take(n)).len() <= gzip_layer_digests(layers).len(),
    decreases layers.len(),
{
    if n == layers.len() {
        assert(layers.take(n) =~= layers);
    } else {
        lemma_gzip_layers_grow(layers.drop_last(), n);
        assert(layers.drop_last().take(n) =~= layers.take(n));
    }
}

/// The name under which the files of a layer are kept: the digest of the
/// layer with a hyphen in place of each colon, so that the name can be
/// used on every file system.
pub open spec fn layer_file_name(layer_digest: Seq<char>) -> Seq<char> {
    join_spec(split_spec(layer_digest, ':'), "-"@)
}

/// The name under which the files of a layer are kept.
pub fn get_layer_file_name(layer_digest: &str) -> (r: String)
    ensures
        r@ == layer_file_name(layer_digest@),
{
    let pieces = split(layer_digest, ':');
    join(&pieces, "-")
}

/// Whether the `oci_distribution` crate reads a text as the reference of an
/// image.
pub uninterp spec fn is_image_reference(image: Seq<char>) -> bool;

/// `parse` of a text as an `oci_distribution::Reference`. The contract
/// names whether a reference comes out.
#[verifier::external_body]
fn reference_parses(image: &str) -> (r: bool)
    ensures
        r == is_image_reference(image@),
{
    image.parse::<oci_distribution::Reference>().is_ok()
}

/// Whether a text is the reference of an image. A text that is none is
/// refused by itself.
pub fn check_image_reference(image: &str) -> (r: Result<(), PolicyError>)
    ensures
        r is Ok == is_image_reference(image@),
        r matches Err(e) ==> e matches PolicyError::ImageResolution(text) && text@ == image@,
{
    if reference_parses(image) {
        Ok(())
    } else {
        Err(PolicyError::ImageResolution(image.to_string()))
    }
}

} // verus!
