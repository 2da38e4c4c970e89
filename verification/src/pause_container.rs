//! The sandbox container that every pod starts with.

use crate::kubernetes::{get_pause_image_ref, pause_image_ref};
use crate::pod::{Container, ContainerView, SecurityContext};
use crate::text::view_all;
use vstd::prelude::*;

verus! {

/// What the sandbox container holds: the pause image, no name, a
/// read-only root filesystem and nothing else.
pub open spec fn pause_container_view() -> ContainerView {
    ContainerView {
        name: Seq::<char>::empty(),
        image: pause_image_ref(),
        command: None,
        args: None,
        volume_mounts: None,
        security_context: Some(
            SecurityContext { read_only_root_filesystem: Some(true), privileged: None },
        ),
        tty: None,
        allowed_commands: None,
    }
}

/// The sandbox container.
pub fn pause_container() -> (r: Container)
    ensures
        r@ == pause_container_view(),
{
    Container {
        name: String::new(),
        image: get_pause_image_ref(),
        command: None,
        args: None,
        volume_mounts: None,
        security_context: Some(
            SecurityContext { read_only_root_filesystem: Some(true), privileged: None },
        ),
        tty: None,
        allowed_commands: None,
    }
}

/// Puts the sandbox container before the containers of a pod.
pub fn add_pause_container(containers: &mut Vec<Container>)
    ensures
        view_all(final(containers)@) == seq![pause_container_view()] + view_all(old(containers)@),
{
    containers.insert(0, pause_container());
    assert(view_all(containers@) =~= seq![pause_container_view()] + view_all(old(containers)@));
}

} // verus!
