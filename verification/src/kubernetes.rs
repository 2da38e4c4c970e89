//! What the policy has to know of the cluster itself.

use crate::document::{get, Node, YamlValue};
use crate::oci::UserView;
use crate::policy::{OciProcess, OciProcessView, OciSpec, OciSpecView};
use crate::text::{strings_of, view_all};
use vstd::prelude::*;

verus! {

/// The version of the image of the sandbox container.
pub const KUBERNETES_PAUSE_VERSION: &'static str = "3.6";

/// The name of the image of the sandbox container.
pub const KUBERNETES_PAUSE_NAME: &'static str = "pause";

/// The registry that serves the image of the sandbox container.
pub const KUBERNETES_REGISTRY: &'static str = "registry.k8s.io";

/// The command-line client of the cluster.
#[derive(Debug, PartialEq, Eq, Clone, Copy)]
pub struct KubeCtl;

/// The reference of the image of the sandbox container: registry, name and
/// version.
pub open spec fn pause_image_ref() -> Seq<char> {
    "registry.k8s.io"@ + "/"@ + "pause"@ + ":"@ + "3.6"@
}

/// The reference of the image of the sandbox container.
pub fn get_pause_image_ref() -> (r: String)
    ensures
        r@ == pause_image_ref(),
{
    let mut r = KUBERNETES_REGISTRY.to_string();
    r.append("/");
    r.append(KUBERNETES_PAUSE_NAME);
    r.append(":");
    r.append(KUBERNETES_PAUSE_VERSION);
    r
}

/// The patterns of the environment variables through which a container
/// finds the services of the cluster.
pub open spec fn service_env_patterns() -> Seq<Seq<char>> {
    seq![
        "^[A-Z0-9_]+_SERVICE_HOST=^((25[0-5]|(2[0-4]|1\\d|[1-9]|)\\d).?\\b){4}$"@,
        "^[A-Z0-9_]+_SERVICE_PORT=[0-9]+"@,
        "^[A-Z0-9_]+_SERVICE_PORT_[A-Z]+=[0-9]+"@,
        "^[A-Z0-9_]+_PORT=[a-z]+://^((25[0-5]|(2[0-4]|1\\d|[1-9]|)\\d).?\\b){4}:[0-9]+"@,
        "^[A-Z0-9_]+_PORT_[0-9]+_[A-Z]+=[a-z]+://^((25[0-5]|(2[0-4]|1\\d|[1-9]|)\\d).?\\b){4}:[0-9]+"@,
        "^[A-Z0-9_]+_PORT_[0-9]+_[A-Z]+_PROTO=[a-z]+"@,
        "^[A-Z0-9_]+_PORT_[0-9]+_[A-Z]+_PORT=[0-9]+"@,
        "^[A-Z0-9_]+_PORT_[0-9]+_[A-Z]+_ADDR=^((25[0-5]|(2[0-4]|1\\d|[1-9]|)\\d).?\\b){4}$"@,
    ]
}

/// The rules that the cluster adds to a container: none for the sandbox,
/// and for any other a process of the root user whose environment may hold
/// the service variables.
pub open spec fn cluster_rules(is_sandbox: bool) -> OciSpecView {
    OciSpecView {
        process: if is_sandbox {
            None
        } else {
            Some(
                OciProcessView {
                    terminal: false,
                    user: UserView {
                        uid: 0,
                        gid: 0,
                        additional_gids: Seq::<u32>::empty(),
                        username: Seq::<char>::empty(),
                    },
                    args: Seq::<Seq<char>>::empty(),
                    env: service_env_patterns(),
                    cwd: Seq::<char>::empty(),
                    capabilities: None,
                    no_new_privileges: false,
                },
            )
        },
        mounts: Seq::empty(),
        annotations: None,
        linux: None,
    }
}

fn get_container_rules() -> (spec: OciSpec)
    ensures
        spec.wf(),
        spec@ == cluster_rules(false),
{
    let mut process = OciProcess::new();
    process.env = strings_of(
        &[
            "^[A-Z0-9_]+_SERVICE_HOST=^((25[0-5]|(2[0-4]|1\\d|[1-9]|)\\d).?\\b){4}$",
            "^[A-Z0-9_]+_SERVICE_PORT=[0-9]+",
            "^[A-Z0-9_]+_SERVICE_PORT_[A-Z]+=[0-9]+",
            "^[A-Z0-9_]+_PORT=[a-z]+://^((25[0-5]|(2[0-4]|1\\d|[1-9]|)\\d).?\\b){4}:[0-9]+",
            "^[A-Z0-9_]+_PORT_[0-9]+_[A-Z]+=[a-z]+://^((25[0-5]|(2[0-4]|1\\d|[1-9]|)\\d).?\\b){4}:[0-9]+",
            "^[A-Z0-9_]+_PORT_[0-9]+_[A-Z]+_PROTO=[a-z]+",
            "^[A-Z0-9_]+_PORT_[0-9]+_[A-Z]+_PORT=[0-9]+",
            "^[A-Z0-9_]+_PORT_[0-9]+_[A-Z]+_ADDR=^((25[0-5]|(2[0-4]|1\\d|[1-9]|)\\d).?\\b){4}$",
        ],
    );
    assert(view_all(process.env@) =~= service_env_patterns());
    let spec = OciSpec { process: Some(process), mounts: Vec::new(), annotations: None, linux: None };
    assert(view_all(spec.mounts@) =~= Seq::empty());
    spec
}

fn get_sandbox_rules() -> (spec: OciSpec)
    ensures
        spec.wf(),
        spec@ == cluster_rules(true),
{
    let spec = OciSpec { process: None, mounts: Vec::new(), annotations: None, linux: None };
    assert(view_all(spec.mounts@) =~= Seq::empty());
    spec
}

/// The rules that the cluster adds to a container.
pub fn get_rules(is_sandbox: bool) -> (spec: OciSpec)
    ensures
        spec.wf(),
        spec@ == cluster_rules(is_sandbox),
{
    if !is_sandbox {
        get_container_rules()
    } else {
        get_sandbox_rules()
    }
}

/// The documents that the cluster answers a trial run with: the items of
/// the answer where it has a sequence of items, and the answer itself
/// where it has not.
pub open spec fn dry_run_nodes(answer: Node) -> Seq<Node> {
    match get(answer, "items"@) {
        Some(Node::Sequence(items)) => items,
        _ => seq![answer],
    }
}

/// The documents that the cluster answers a trial run with, in order.
pub fn dry_run_documents(answer: &YamlValue) -> (r: Vec<YamlValue>)
    ensures
        r@.len() == dry_run_nodes(answer.model()).len(),
        forall|i: int| 0 <= i < r@.len() ==> (#[trigger] r@[i]).model() == dry_run_nodes(
            answer.model(),
        )[i],
{
    let mut documents: Vec<YamlValue> = Vec::new();
    match answer.get("items") {
        Some(items) => match items.as_sequence() {
            Some(sequence) => {
                let mut i: usize = 0;
                while i < sequence.len()
                    invariant
                        i <= sequence.len(),
                        documents@.len() == i,
                        forall|k: int|
                            0 <= k < i ==> (#[trigger] documents@[k]).model()
                                == sequence@[k].model(),
                    decreases sequence.len() - i,
                {
                    documents.push(sequence[i].duplicate());
                    i += 1;
                }
                return documents;
            },
            None => {},
        },
        None => {},
    }
    documents.push(answer.duplicate());
    documents
}

} // verus!
