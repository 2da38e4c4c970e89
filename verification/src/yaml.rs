//! What all resource kinds share: the kinds themselves, the header of a
//! document, the annotation under which a policy is written into it, the
//! preparation and resolution of a pod, and the resource as one type over
//! all kinds.

use crate::annotations::Annotations;
use crate::daemon_set::DaemonSet;
use crate::deployment::Deployment;
use crate::document::{at_path, entries_of, entry_models, find_key, get, get_keys, key_index,
    lemma_get_after_put, lemma_put_keeps_order, lemma_replace_entries, parsed_yaml, put,
    put_entry, rendered_yaml, tags_named, Node, YamlValue};
use crate::encoding::{decode, decoded_text};
use crate::error::PolicyError;
use crate::job::Job;
use crate::list::{item_document, items_of, list_document, List};
use crate::no_policy::NoPolicyResource;
use crate::oci::Mount;
use crate::pause_container::{pause_container, pause_container_view};
use crate::pod::{text_view, Container, ContainerView, Pod, PodSpec};
use crate::policy::{AgentPolicy, ContainerPolicy, SerializedStorage};
use crate::registry;
use crate::replica_set::ReplicaSet;
use crate::replication_controller::ReplicationController;
use crate::stateful_set::StatefulSet;
use crate::text::{contains_string, split, split_spec, str_equal, strings_of, view_all};
use crate::volume::Volume;
use vstd::prelude::*;

verus! {

/// The first lines of every resource.
#[derive(Debug, PartialEq, Eq)]
pub struct YamlHeader {
    pub api_version: String,
    pub kind: String,
}

/// A selection of resources by their labels.
#[derive(Debug, PartialEq, Eq)]
pub struct LabelSelector {
    pub match_labels: Option<Annotations>,
    pub match_expressions: Option<Vec<LabelSelectorRequirement>>,
}

/// One condition of a label selector.
#[derive(Debug, PartialEq, Eq)]
pub struct LabelSelectorRequirement {
    pub key: String,
    pub operator: String,
    pub values: Option<Vec<String>>,
}

/// The kinds of resource that have a handler.
#[derive(Debug, PartialEq, Eq, Clone, Copy)]
pub enum ResourceKind {
    ConfigMap,
    DaemonSet,
    Deployment,
    Job,
    List,
    Pod,
    ReplicationController,
    ReplicaSet,
    Secret,
    StatefulSet,
    /// A kind that is known to carry no workload and is passed through
    /// unchanged.
    NoPolicy,
}

/// The kinds that are passed through unchanged.
pub open spec fn no_policy_kinds() -> Seq<Seq<char>> {
    seq![
        "ClusterRole"@,
        "ClusterRoleBinding"@,
        "LimitRange"@,
        "Namespace"@,
        "PersistentVolume"@,
        "PersistentVolumeClaim"@,
        "PriorityClass"@,
        "ResourceQuota"@,
        "RoleBinding"@,
        "Service"@,
        "ServiceAccount"@,
    ]
}

/// The handler of a kind name; none for a name that has no handler.
pub open spec fn kind_of(name: Seq<char>) -> Option<ResourceKind> {
    if name == "ConfigMap"@ {
        Some(ResourceKind::ConfigMap)
    } else if name == "DaemonSet"@ {
        Some(ResourceKind::DaemonSet)
    } else if name == "Deployment"@ {
        Some(ResourceKind::Deployment)
    } else if name == "Job"@ {
        Some(ResourceKind::Job)
    } else if name == "List"@ {
        Some(ResourceKind::List)
    } else if name == "Pod"@ {
        Some(ResourceKind::Pod)
    } else if name == "ReplicationController"@ {
        Some(ResourceKind::ReplicationController)
    } else if name == "ReplicaSet"@ {
        Some(ResourceKind::ReplicaSet)
    } else if name == "Secret"@ {
        Some(ResourceKind::Secret)
    } else if name == "StatefulSet"@ {
        Some(ResourceKind::StatefulSet)
    } else if no_policy_kinds().contains(name) {
        Some(ResourceKind::NoPolicy)
    } else {
        None
    }
}

/// Selects the handler of a document by the kind that its header names. A
/// kind without a handler is refused by name.
pub fn resource_kind(kind: &str) -> (r: Result<ResourceKind, PolicyError>)
    ensures
        r matches Ok(handler) ==> kind_of(kind@) == Some(handler),
        r matches Err(e) ==> kind_of(kind@) is None && (
        e matches PolicyError::UnsupportedResourceKind(name) && name@ == kind@),
{
    if str_equal(kind, "ConfigMap") {
        Ok(ResourceKind::ConfigMap)
    } else if str_equal(kind, "DaemonSet") {
        Ok(ResourceKind::DaemonSet)
    } else if str_equal(kind, "Deployment") {
        Ok(ResourceKind::Deployment)
    } else if str_equal(kind, "Job") {
        Ok(ResourceKind::Job)
    } else if str_equal(kind, "List") {
        Ok(ResourceKind::List)
    } else if str_equal(kind, "Pod") {
        Ok(ResourceKind::Pod)
    } else if str_equal(kind, "ReplicationController") {
        Ok(ResourceKind::ReplicationController)
    } else if str_equal(kind, "ReplicaSet") {
        Ok(ResourceKind::ReplicaSet)
    } else if str_equal(kind, "Secret") {
        Ok(ResourceKind::Secret)
    } else if str_equal(kind, "StatefulSet") {
        Ok(ResourceKind::StatefulSet)
    } else {
        let passed_through = strings_of(
            &[
                "ClusterRole",
                "ClusterRoleBinding",
                "LimitRange",
                "Namespace",
                "PersistentVolume",
                "PersistentVolumeClaim",
                "PriorityClass",
                "ResourceQuota",
                "RoleBinding",
                "Service",
                "ServiceAccount",
            ],
        );
        assert(view_all(passed_through@) =~= no_policy_kinds());
        if contains_string(&passed_through, kind) {
            Ok(ResourceKind::NoPolicy)
        } else {
            Err(PolicyError::UnsupportedResourceKind(kind.to_string()))
        }
    }
}

/// The header that a document has: the texts under its `apiVersion` and
/// `kind` keys; none where one of them is missing or is no text.
pub open spec fn header_of(document: Node) -> Option<(Seq<char>, Seq<char>)> {
    match (get(document, "apiVersion"@), get(document, "kind"@)) {
        (Some(Node::String(api_version)), Some(Node::String(kind))) => Some((api_version, kind)),
        _ => None,
    }
}

/// Reads a document from its text. A text that is no document is refused
/// with what is wrong with it.
pub fn parse_document(yaml: &str) -> (r: Result<YamlValue, PolicyError>)
    ensures
        r is Ok == parsed_yaml(yaml@) is Some,
        r matches Ok(document) ==> parsed_yaml(yaml@) == Some(document.model()) && tags_named(
            document.model(),
        ),
        r matches Err(e) ==> e matches PolicyError::MalformedField(_),
{
    match YamlValue::parse(yaml) {
        Ok(document) => Ok(document),
        Err(message) => Err(PolicyError::MalformedField(message)),
    }
}

/// Reads the header of the document that a text holds. A text that is no
/// document is refused, and so is a document without an API version or
/// without a kind.
pub fn get_yaml_header(yaml: &str) -> (r: Result<YamlHeader, PolicyError>)
    ensures
        r is Ok == (parsed_yaml(yaml@) matches Some(document) && header_of(document) is Some),
        r matches Ok(header) ==> header_of(parsed_yaml(yaml@)->0) == Some(
            (header.api_version@, header.kind@),
        ),
        r matches Err(e) ==> e matches PolicyError::MalformedField(_),
{
    match parse_document(yaml) {
        Ok(document) => get_document_header(&document),
        Err(e) => Err(e),
    }
}

/// Reads the header of a document. A document without an API version or
/// without a kind is refused by the key that it lacks, the kind first.
pub fn get_document_header(document: &YamlValue) -> (r: Result<YamlHeader, PolicyError>)
    ensures
        r is Ok == header_of(document.model()) is Some,
        r matches Ok(header) ==> header_of(document.model()) == Some(
            (header.api_version@, header.kind@),
        ),
        r matches Err(e) ==> e matches PolicyError::MalformedField(key) && key@ == if get(
            document.model(),
            "kind"@,
        ) matches Some(Node::String(_)) {
            "apiVersion"@
        } else {
            "kind"@
        },
{
    let kind = match document.get("kind") {
        Some(value) => match value.as_str() {
            Some(kind) => kind.to_string(),
            None => {
                return Err(PolicyError::MalformedField("kind".to_string()));
            },
        },
        None => {
            return Err(PolicyError::MalformedField("kind".to_string()));
        },
    };
    match document.get("apiVersion") {
        Some(value) => match value.as_str() {
            Some(api_version) => Ok(YamlHeader { api_version: api_version.to_string(), kind }),
            None => Err(PolicyError::MalformedField("apiVersion".to_string())),
        },
        None => Err(PolicyError::MalformedField("apiVersion".to_string())),
    }
}

/// Decides what becomes of a field that a known kind does not have: it is
/// dropped where the caller asked for that, and refused by its path
/// otherwise.
pub fn handle_unused_field(path: &str, silent_unsupported_fields: bool) -> (r: Result<
    (),
    PolicyError,
>)
    ensures
        r is Ok == silent_unsupported_fields,
        r matches Err(e) ==> e matches PolicyError::MalformedField(field) && field@ == path@,
{
    if !silent_unsupported_fields {
        Err(PolicyError::MalformedField(path.to_string()))
    } else {
        Ok(())
    }
}

/// The key of the mapping that holds the annotations of a resource.
pub open spec fn annotations_key() -> Seq<char> {
    "annotations"@
}

/// The key of the annotation that holds the policy.
pub open spec fn policy_key() -> Seq<char> {
    "io.katacontainers.config.agent.policy"@
}

/// A mapping with the policy as its only entry.
pub open spec fn policy_entry(policy: Seq<char>) -> Node {
    Node::Mapping(seq![(Node::String(policy_key()), Node::String(policy))])
}

/// The metadata of a resource with the policy written into its
/// annotations; none where the metadata is no mapping.
///
/// Annotations that are a mapping get or replace the policy entry;
/// annotations that are anything else are replaced by a mapping with the
/// policy as its only entry; and metadata without annotations gets such a
/// mapping as its last entry.
pub open spec fn annotated(metadata: Node, policy: Seq<char>) -> Option<Node> {
    match get(metadata, annotations_key()) {
        Some(annotations) => Some(
            put(
                metadata,
                annotations_key(),
                if entries_of(annotations) is Some {
                    put(annotations, policy_key(), Node::String(policy))
                } else {
                    policy_entry(policy)
                },
            ),
        ),
        None => if entries_of(metadata) is Some {
            Some(put(metadata, annotations_key(), policy_entry(policy)))
        } else {
            None
        },
    }
}

/// A document with the policy written into the annotations of the
/// metadata at the end of a path of keys; none where a key of the path does
/// not resolve or the metadata is no mapping.
pub open spec fn with_policy_at(document: Node, path: Seq<Seq<char>>, policy: Seq<char>) -> Option<
    Node,
>
    decreases path.len(),
{
    if path.len() == 0 {
        annotated(document, policy)
    } else {
        match get(document, path.first()) {
            Some(child) => match with_policy_at(child, path.drop_first(), policy) {
                Some(changed) => Some(put(document, path.first(), changed)),
                None => None,
            },
            None => None,
        }
    }
}

/// The key at which a path fails to resolve in a document: the first key
/// of the path that the mapping before it lacks, or the annotations key
/// where the whole path resolves.
pub open spec fn unresolved_key(document: Node, path: Seq<Seq<char>>) -> Seq<char>
    decreases path.len(),
{
    if path.len() == 0 {
        annotations_key()
    } else {
        match get(document, path.first()) {
            Some(child) => unresolved_key(child, path.drop_first()),
            None => path.first(),
        }
    }
}

/// The policy that a document holds in the annotations of the metadata at
/// the end of a path of keys.
pub open spec fn policy_at(document: Node, path: Seq<Seq<char>>) -> Option<Seq<char>> {
    match at_path(document, path) {
        Some(metadata) => match get(metadata, annotations_key()) {
            Some(annotations) => match get(annotations, policy_key()) {
                Some(Node::String(policy)) => Some(policy),
                _ => None,
            },
            None => None,
        },
        None => None,
    }
}

/// Writes the policy into the annotations of a metadata value.
fn annotate(metadata: &mut YamlValue, policy: &str) -> (r: bool)
    ensures
        r == annotated(old(metadata).model(), policy@) is Some,
        r ==> final(metadata).model() == annotated(old(metadata).model(), policy@)->0,
        !r ==> final(metadata).model() == old(metadata).model(),
{
    let policy_key = "io.katacontainers.config.agent.policy";
    let annotations = match metadata.get("annotations") {
        Some(annotations) => {
            if annotations.is_mapping() {
                let mut changed = annotations.duplicate();
                changed.set(policy_key, YamlValue::String(policy.to_string()));
                changed
            } else {
                YamlValue::single_entry(policy_key, policy)
            }
        },
        None => {
            if !metadata.is_mapping() {
                return false;
            }
            YamlValue::single_entry(policy_key, policy)
        },
    };
    metadata.set("annotations", annotations);
    true
}

/// Writes the policy at the end of the part of a path that starts at
/// `from`.
fn annotate_at(value: &mut YamlValue, path: &Vec<String>, from: usize, policy: &str) -> (r: Result<
    (),
    PolicyError,
>)
    requires
        from <= path.len(),
    ensures
        r is Ok == with_policy_at(
            old(value).model(),
            view_all(path@).skip(from as int),
            policy@,
        ) is Some,
        r is Ok ==> final(value).model() == with_policy_at(
            old(value).model(),
            view_all(path@).skip(from as int),
            policy@,
        )->0,
        r matches Err(e) ==> final(value).model() == old(value).model() && (
        e matches PolicyError::AnnotationPath(key) && key@ == unresolved_key(
            old(value).model(),
            view_all(path@).skip(from as int),
        )),
    decreases path.len() - from, *old(value),
{
    let ghost rest = view_all(path@).skip(from as int);
    if from == path.len() {
        if annotate(value, policy) {
            Ok(())
        } else {
            Err(PolicyError::AnnotationPath("annotations".to_string()))
        }
    } else {
        assert(rest.first() == path@[from as int]@);
        assert(rest.drop_first() =~= view_all(path@).skip(from as int + 1));
        match value {
            YamlValue::Tagged(_, inner) => annotate_at(inner, path, from, policy),
            YamlValue::Mapping(entries) => {
                let ghost before = entry_models(entries@);
                match find_key(entries, path[from].as_str()) {
                    Some(at) => {
                        let r = annotate_at(&mut entries[at].1, path, from + 1, policy);
                        assert(entry_models(entries@) =~= before.update(
                            at as int,
                            (before[at as int].0, entries@[at as int].1.model()),
                        ));
                        assert(r is Err ==> entry_models(entries@) =~= before);
                        r
                    },
                    None => Err(PolicyError::AnnotationPath(path[from].clone())),
                }
            },
            _ => Err(PolicyError::AnnotationPath(path[from].clone())),
        }
    }
}

/// Writes a policy into a document, as the policy annotation of the
/// metadata that a dotted path of keys leads to.
///
/// The annotations mapping is created where the metadata has none, the
/// value of the policy annotation is replaced where there is one, and no
/// other entry of any mapping changes its key, its value or its place. A
/// path that does not resolve is refused with the key that fails, and the
/// document stays as it was.
pub fn add_policy_annotation(ancestor: &mut YamlValue, metadata_path: &str, policy: &str) -> (r: Result<
    (),
    PolicyError,
>)
    ensures
        r is Ok == with_policy_at(
            old(ancestor).model(),
            split_spec(metadata_path@, '.'),
            policy@,
        ) is Some,
        r is Ok ==> final(ancestor).model() == with_policy_at(
            old(ancestor).model(),
            split_spec(metadata_path@, '.'),
            policy@,
        )->0,
        r matches Err(e) ==> final(ancestor).model() == old(ancestor).model() && (
        e matches PolicyError::AnnotationPath(key) && key@ == unresolved_key(
            old(ancestor).model(),
            split_spec(metadata_path@, '.'),
        )),
{
    let path = split(metadata_path, '.');
    assert(view_all(path@).skip(0) =~= view_all(path@));
    annotate_at(ancestor, &path, 0, policy)
}

/// Reads the policy that a document holds in the annotations of the
/// metadata that a dotted path of keys leads to.
pub fn get_policy_annotation(document: &YamlValue, metadata_path: &str) -> (r: Option<String>)
    ensures
        r is Some == policy_at(document.model(), split_spec(metadata_path@, '.')) is Some,
        r matches Some(policy) ==> policy_at(document.model(), split_spec(metadata_path@, '.'))
            == Some(policy@),
{
    let path = split(metadata_path, '.');
    let ghost keys = view_all(path@);
    let mut current: &YamlValue = document;
    let mut i: usize = 0;
    assert(keys.skip(0) =~= keys);
    while i < path.len()
        invariant
            i <= path.len(),
            keys == view_all(path@),
            keys == split_spec(metadata_path@, '.'),
            at_path(document.model(), keys) == at_path(current.model(), keys.skip(i as int)),
        decreases path.len() - i,
    {
        assert(keys.skip(i as int).first() == path@[i as int]@);
        assert(keys.skip(i as int).drop_first() =~= keys.skip(i as int + 1));
        match current.get(path[i].as_str()) {
            Some(child) => {
                current = child;
            },
            None => {
                return None;
            },
        }
        i += 1;
    }
    assert(keys.skip(path.len() as int) =~= Seq::<Seq<char>>::empty());
    match current.get("annotations") {
        Some(annotations) => match annotations.get("io.katacontainers.config.agent.policy") {
            Some(policy) => match policy.as_str() {
                Some(text) => Some(text.to_string()),
                None => None,
            },
            None => None,
        },
        None => None,
    }
}

/// The key of the annotation that lists the commands that may be run in
/// the containers of a pod.
pub open spec fn exec_commands_key() -> Seq<char> {
    "io.katacontainers.config.agent.policyOption.execCommands"@
}

/// The list of allowed commands that the annotations of a pod hold, as
/// the text that the annotation encodes: none where the pod has no such
/// annotation. An annotation that does not decode to text is refused by
/// its key.
pub fn exec_commands_text(annotations: &Annotations) -> (r: Result<Option<String>, PolicyError>)
    requires
        annotations.wf(),
    ensures
        r is Ok == (annotations@.dom().contains(exec_commands_key())
            ==> decoded_text(annotations@[exec_commands_key()]) is Some),
        r matches Ok(found) ==> text_view(found) == if annotations@.dom().contains(
            exec_commands_key(),
        ) {
            decoded_text(annotations@[exec_commands_key()])
        } else {
            None
        },
        r matches Err(e) ==> e matches PolicyError::MalformedField(key) && key@
            == exec_commands_key(),
{
    match annotations.get("io.katacontainers.config.agent.policyOption.execCommands") {
        Some(encoded) => match decode(encoded.as_str()) {
            Some(text) => Ok(Some(text)),
            None => Err(
                PolicyError::MalformedField(
                    "io.katacontainers.config.agent.policyOption.execCommands".to_string(),
                ),
            ),
        },
        None => Ok(None),
    }
}

/// Takes the policy annotation out of a map of annotations.
pub fn remove_policy_annotation(annotations: &mut Annotations)
    requires
        old(annotations).wf(),
    ensures
        final(annotations).wf(),
        final(annotations)@ == old(annotations)@.remove(policy_key()),
{
    annotations.remove("io.katacontainers.config.agent.policy");
}

/// A policy that has been written into a document can be read back from it
/// along the same path, letter for letter.
pub proof fn lemma_policy_reads_back(document: Node, path: Seq<Seq<char>>, policy: Seq<char>)
    requires
        with_policy_at(document, path, policy) is Some,
    ensures
        policy_at(with_policy_at(document, path, policy)->0, path) == Some(policy),
    decreases path.len(),
{
    let changed = with_policy_at(document, path, policy)->0;
    if path.len() == 0 {
        lemma_annotated(document, policy);
    } else {
        let child = get(document, path.first())->0;
        lemma_policy_reads_back(child, path.drop_first(), policy);
        lemma_get_after_put(
            document,
            path.first(),
            with_policy_at(child, path.drop_first(), policy)->0,
            path.first(),
        );
    }
}

/// What writing a policy does to metadata: afterwards the annotations are
/// a mapping that holds the policy under the policy key and, where they
/// were a mapping before, every other entry that they held; and the
/// metadata gives every key but the annotations key the value it gave
/// before.
pub proof fn lemma_annotated(metadata: Node, policy: Seq<char>)
    requires
        annotated(metadata, policy) is Some,
    ensures
        entries_of(metadata) is Some,
        get(annotated(metadata, policy)->0, annotations_key()) is Some,
        entries_of(get(annotated(metadata, policy)->0, annotations_key())->0) is Some,
        get(get(annotated(metadata, policy)->0, annotations_key())->0, policy_key()) == Some(
            Node::String(policy),
        ),
        forall|key: Seq<char>|
            key != annotations_key() ==> #[trigger] get(annotated(metadata, policy)->0, key)
                == get(metadata, key),
        forall|key: Seq<char>|
            key != policy_key() && (get(metadata, annotations_key()) matches Some(annotations)
                && entries_of(annotations) is Some) ==> #[trigger] get(
                get(annotated(metadata, policy)->0, annotations_key())->0,
                key,
            ) == get(get(metadata, annotations_key())->0, key),
{
    let changed = annotated(metadata, policy)->0;
    let entry = policy_entry(policy);
    assert(key_index(entries_of(entry)->0, policy_key()) == 0);
    let new_annotations = match get(metadata, annotations_key()) {
        Some(annotations) if entries_of(annotations) is Some => put(
            annotations,
            policy_key(),
            Node::String(policy),
        ),
        _ => entry,
    };
    lemma_get_after_put(metadata, annotations_key(), new_annotations, annotations_key());
    match get(metadata, annotations_key()) {
        Some(annotations) if entries_of(annotations) is Some => {
            lemma_get_after_put(annotations, policy_key(), Node::String(policy), policy_key());
            assert forall|key: Seq<char>| key != policy_key() implies #[trigger] get(
                new_annotations,
                key,
            ) == get(annotations, key) by {
                lemma_get_after_put(annotations, policy_key(), Node::String(policy), key);
            }
        },
        _ => {},
    }
    assert forall|key: Seq<char>| key != annotations_key() implies #[trigger] get(changed, key)
        == get(metadata, key) by {
        lemma_get_after_put(metadata, annotations_key(), new_annotations, key);
    }
}

/// Writing a policy leaves every sibling along the path as it was: at each
/// depth of the path, the mapping there gives every key but the one that
/// the path goes on with the value it gave before.
pub proof fn lemma_policy_keeps_siblings(
    document: Node,
    path: Seq<Seq<char>>,
    policy: Seq<char>,
    depth: int,
    key: Seq<char>,
)
    requires
        with_policy_at(document, path, policy) is Some,
        0 <= depth <= path.len(),
        key != if depth < path.len() {
            path[depth]
        } else {
            annotations_key()
        },
    ensures
        at_path(document, path.take(depth)) is Some,
        at_path(with_policy_at(document, path, policy)->0, path.take(depth)) is Some,
        get(at_path(with_policy_at(document, path, policy)->0, path.take(depth))->0, key) == get(
            at_path(document, path.take(depth))->0,
            key,
        ),
    decreases path.len(),
{
    let changed = with_policy_at(document, path, policy)->0;
    if depth == 0 {
        assert(path.take(0) =~= Seq::<Seq<char>>::empty());
        if path.len() == 0 {
            lemma_annotated(document, policy);
        } else {
            let child = get(document, path.first())->0;
            lemma_get_after_put(
                document,
                path.first(),
                with_policy_at(child, path.drop_first(), policy)->0,
                key,
            );
        }
    } else {
        let child = get(document, path.first())->0;
        let changed_child = with_policy_at(child, path.drop_first(), policy)->0;
        lemma_policy_keeps_siblings(child, path.drop_first(), policy, depth - 1, key);
        lemma_get_after_put(document, path.first(), changed_child, path.first());
        assert(path.take(depth).first() == path.first());
        assert(path.take(depth).drop_first() =~= path.drop_first().take(depth - 1));
    }
}

/// Writing a policy leaves every annotation but the policy as it was:
/// where the annotations were a mapping, they give every key but the
/// policy key the value they gave before.
pub proof fn lemma_policy_keeps_annotations(
    document: Node,
    path: Seq<Seq<char>>,
    policy: Seq<char>,
    key: Seq<char>,
)
    requires
        with_policy_at(document, path, policy) is Some,
        key != policy_key(),
        at_path(document, path) matches Some(metadata) && (get(metadata, annotations_key())
            matches Some(annotations) && entries_of(annotations) is Some),
    ensures
        at_path(with_policy_at(document, path, policy)->0, path) matches Some(metadata) && (get(
            metadata,
            annotations_key(),
        ) matches Some(annotations) && get(annotations, key) == get(
            get(at_path(document, path)->0, annotations_key())->0,
            key,
        )),
    decreases path.len(),
{
    if path.len() == 0 {
        lemma_annotated(document, policy);
    } else {
        let child = get(document, path.first())->0;
        let changed_child = with_policy_at(child, path.drop_first(), policy)->0;
        lemma_policy_keeps_annotations(child, path.drop_first(), policy, key);
        lemma_get_after_put(document, path.first(), changed_child, path.first());
    }
}

/// Writing a policy leaves the keys of every mapping along the path in
/// their order. At each depth of the path the mapping there has the keys
/// that it had, in the same order; only metadata without annotations gets
/// the annotations key, as its last.
pub proof fn lemma_policy_keeps_order(
    document: Node,
    path: Seq<Seq<char>>,
    policy: Seq<char>,
    depth: int,
)
    requires
        with_policy_at(document, path, policy) is Some,
        0 <= depth <= path.len(),
    ensures
        at_path(document, path.take(depth)) matches Some(before) && (at_path(
            with_policy_at(document, path, policy)->0,
            path.take(depth),
        ) matches Some(after) && (entries_of(before) matches Some(old_entries) && (entries_of(
            after,
        ) matches Some(new_entries) && get_keys(new_entries) == if depth == path.len() && get(
            before,
            annotations_key(),
        ) is None {
            get_keys(old_entries).push(Node::String(annotations_key()))
        } else {
            get_keys(old_entries)
        }))),
    decreases path.len(),
{
    if depth == 0 {
        assert(path.take(0) =~= Seq::<Seq<char>>::empty());
        let entries = entries_of(document)->0;
        if path.len() == 0 {
            lemma_annotated(document, policy);
            let value = match get(document, annotations_key()) {
                Some(annotations) if entries_of(annotations) is Some => put(
                    annotations,
                    policy_key(),
                    Node::String(policy),
                ),
                _ => policy_entry(policy),
            };
            lemma_put_keeps_order(entries, annotations_key(), value);
            lemma_replace_entries(document, put_entry(entries, annotations_key(), value));
        } else {
            let child = get(document, path.first())->0;
            let changed_child = with_policy_at(child, path.drop_first(), policy)->0;
            lemma_put_keeps_order(entries, path.first(), changed_child);
            lemma_replace_entries(document, put_entry(entries, path.first(), changed_child));
        }
    } else {
        let child = get(document, path.first())->0;
        let changed_child = with_policy_at(child, path.drop_first(), policy)->0;
        lemma_policy_keeps_order(child, path.drop_first(), policy, depth - 1);
        lemma_get_after_put(document, path.first(), changed_child, path.first());
        assert(path.take(depth).first() == path.first());
        assert(path.take(depth).drop_first() =~= path.drop_first().take(depth - 1));
        assert(path.drop_first().len() == path.len() - 1);
    }
}

/// Puts the mounts and storage devices of the volumes of a pod into the
/// policy of one of its containers: volume by volume, and for each volume
/// one mount for each volume mount of the container that names it. Where a
/// volume mount is refused, the policy stays as it was.
pub fn get_container_mounts_and_storages(
    policy_mounts: &mut Vec<Mount>,
    storages: &mut Vec<SerializedStorage>,
    container: &Container,
    agent_policy: &AgentPolicy,
    volumes: &Vec<Volume>,
) -> (r: Result<(), PolicyError>)
    ensures
        r is Ok == agent_policy.volumes_resolve(container.declared_mounts(), volumes@),
        r is Ok ==> view_all(final(policy_mounts)@) == agent_policy.mounts_with_volumes(
            view_all(old(policy_mounts)@),
            container.declared_mounts(),
            volumes@,
        ) && view_all(final(storages)@) == agent_policy.storages_with_volumes(
            view_all(old(storages)@),
            container.declared_mounts(),
            volumes@,
        ),
        r matches Err(e) ==> view_all(final(policy_mounts)@) == view_all(old(policy_mounts)@)
            && view_all(final(storages)@) == view_all(old(storages)@) && exists|i: int|
            0 <= i < volumes@.len() && agent_policy.volume_refusal(
                container.declared_mounts(),
                &#[trigger] volumes@[i],
                e,
            ),
{
    let mut i: usize = 0;
    while i < volumes.len()
        invariant
            i <= volumes.len(),
            forall|k: int|
                0 <= k < i ==> agent_policy.volume_resolves(
                    container.declared_mounts(),
                    &#[trigger] volumes@[k],
                ),
        decreases volumes.len() - i,
    {
        match agent_policy.check_container_volume(container, &volumes[i]) {
            Ok(()) => {},
            Err(e) => {
                assert(agent_policy.volume_refusal(
                    container.declared_mounts(),
                    &volumes@[i as int],
                    e,
                ));
                return Err(e);
            },
        }
        i += 1;
    }
    let mut i: usize = 0;
    assert(volumes@.take(0) =~= Seq::<Volume>::empty());
    while i < volumes.len()
        invariant
            i <= volumes.len(),
            agent_policy.volumes_resolve(container.declared_mounts(), volumes@),
            view_all(policy_mounts@) == agent_policy.mounts_with_volumes(
                view_all(old(policy_mounts)@),
                container.declared_mounts(),
                volumes@.take(i as int),
            ),
            view_all(storages@) == agent_policy.storages_with_volumes(
                view_all(old(storages)@),
                container.declared_mounts(),
                volumes@.take(i as int),
            ),
        decreases volumes.len() - i,
    {
        assert(volumes@.take(i as int + 1).drop_last() =~= volumes@.take(i as int));
        assert(volumes@.take(i as int + 1).last() == volumes@[i as int]);
        let applied = agent_policy.get_container_mounts_and_storages(
            policy_mounts,
            storages,
            container,
            &volumes[i],
        );
        assert(applied is Ok);
        i += 1;
    }
    assert(volumes@.take(volumes.len() as int) =~= volumes@);
    Ok(())
}

/// The containers of a pod in the order in which their policies are
/// written: the sandbox container, then the init containers in declared
/// order, then the containers in declared order.
pub open spec fn container_sequence(spec: &PodSpec) -> Seq<ContainerView> {
    seq![pause_container_view()] + (match spec.init_containers {
        Some(init_containers) => view_all(init_containers@),
        None => Seq::<ContainerView>::empty(),
    }) + view_all(spec.containers@)
}

/// The image references of a sequence of containers, in order.
pub open spec fn images_of(containers: Seq<Container>) -> Seq<Seq<char>> {
    containers.map_values(|container: Container| container.image@)
}

/// Whether the image of every container of a sequence is named by a
/// reference.
pub open spec fn images_are_references(containers: Seq<ContainerView>) -> bool {
    forall|i: int|
        0 <= i < containers.len() ==> registry::is_image_reference((#[trigger] containers[i]).image)
}

/// Whether a failure is the one that a sequence of containers is refused
/// with: it holds the image of one of them, which is no reference.
pub open spec fn image_refusal(containers: Seq<ContainerView>, e: PolicyError) -> bool {
    e matches PolicyError::ImageResolution(image) && !registry::is_image_reference(image@)
        && exists|i: int| 0 <= i < containers.len() && (#[trigger] containers[i]).image == image@
}

/// The first of a list of containers whose image is named by no reference,
/// refused; nothing where there is none.
fn check_images(containers: &Vec<Container>) -> (r: Result<(), PolicyError>)
    ensures
        r is Ok == images_are_references(view_all(containers@)),
        r matches Err(e) ==> image_refusal(view_all(containers@), e),
{
    let mut i: usize = 0;
    while i < containers.len()
        invariant
            i <= containers.len(),
            forall|k: int|
                0 <= k < i ==> registry::is_image_reference(
                    (#[trigger] view_all(containers@)[k]).image,
                ),
        decreases containers.len() - i,
    {
        match registry::check_image_reference(containers[i].image.as_str()) {
            Ok(()) => {},
            Err(e) => {
                assert(view_all(containers@)[i as int].image == containers@[i as int].image@);
                return Err(e);
            },
        }
        i += 1;
    }
    Ok(())
}

/// Prepares a pod for the resolution of its images: its containers become
/// the sandbox container, then its init containers, then the containers it
/// had. The result holds the image reference of each container, in that
/// order; the image metadata is due in the same order. An image that is
/// named by no reference is refused, and the pod stays as it was.
pub fn k8s_resource_init(spec: &mut PodSpec) -> (r: Result<Vec<String>, PolicyError>)
    ensures
        r is Ok == images_are_references(container_sequence(old(spec))),
        r matches Ok(images) ==> {
            &&& view_all(final(spec).containers@) == container_sequence(old(spec))
            &&& final(spec).init_containers == old(spec).init_containers
            &&& final(spec).volumes == old(spec).volumes
            &&& final(spec).host_network == old(spec).host_network
            &&& view_all(images@) == images_of(final(spec).containers@)
        },
        r matches Err(e) ==> *final(spec) == *old(spec) && image_refusal(
            container_sequence(old(spec)),
            e,
        ),
{
    let mut containers: Vec<Container> = Vec::new();
    containers.push(pause_container());
    assert(view_all(containers@) =~= seq![pause_container_view()]);
    match &spec.init_containers {
        Some(init_containers) => {
            let mut i: usize = 0;
            assert(view_all(init_containers@).take(0) =~= Seq::<ContainerView>::empty());
            while i < init_containers.len()
                invariant
                    i <= init_containers.len(),
                    view_all(containers@) == seq![pause_container_view()] + view_all(
                        init_containers@,
                    ).take(i as int),
                decreases init_containers.len() - i,
            {
                let ghost before = view_all(containers@);
                containers.push(init_containers[i].clone());
                i += 1;
                assert(view_all(containers@) =~= before.push(init_containers@[i - 1]@));
                assert(view_all(init_containers@).take(i as int) =~= view_all(
                    init_containers@,
                ).take(i - 1).push(init_containers@[i - 1]@));
            }
            assert(view_all(init_containers@).take(init_containers.len() as int) =~= view_all(
                init_containers@,
            ));
        },
        None => {},
    }
    let ghost front = view_all(containers@);
    let ghost back = view_all(spec.containers@);
    assert(container_sequence(spec) =~= front + back);
    match check_images(&containers) {
        Ok(()) => {},
        Err(e) => {
            proof {
                let i = choose|i: int|
                    0 <= i < front.len() && (#[trigger] front[i]).image
                        == e->ImageResolution_0@;
                assert((front + back)[i] == front[i]);
            }
            return Err(e);
        },
    }
    match check_images(&spec.containers) {
        Ok(()) => {},
        Err(e) => {
            proof {
                let i = choose|i: int|
                    0 <= i < back.len() && (#[trigger] back[i]).image == e->ImageResolution_0@;
                assert((front + back)[front.len() + i] == back[i]);
            }
            return Err(e);
        },
    }
    assert forall|i: int| 0 <= i < (front + back).len() implies registry::is_image_reference(
        (#[trigger] (front + back)[i]).image,
    ) by {
        if i < front.len() {
            assert(registry::is_image_reference(front[i].image));
        } else {
            assert(registry::is_image_reference(back[i - front.len()].image));
        }
    }
    containers.append(&mut spec.containers);
    assert(view_all(containers@) =~= front + back);
    spec.containers = containers;

    let mut images: Vec<String> = Vec::new();
    let mut i: usize = 0;
    while i < spec.containers.len()
        invariant
            i <= spec.containers.len(),
            images@.len() == i,
            forall|j: int| 0 <= j < i ==> (#[trigger] images@[j])@ == spec.containers@[j].image@,
        decreases spec.containers.len() - i,
    {
        images.push(spec.containers[i].image.clone());
        i += 1;
    }
    assert(view_all(images@) =~= images_of(spec.containers@));
    Ok(images)
}

/// The volumes of a pod; none where it declares none.
pub open spec fn volumes_of(spec: &PodSpec) -> Seq<Volume> {
    match spec.volumes {
        Some(volumes) => volumes@,
        None => Seq::<Volume>::empty(),
    }
}

/// Whether the policy of every container of a pod can be resolved: there
/// is image metadata for each container, every image names a user that can
/// be read, and every volume mount can go into a policy.
pub open spec fn pod_resolves(
    spec: &PodSpec,
    registry_containers: Seq<registry::Container>,
    agent_policy: &AgentPolicy,
) -> bool {
    &&& registry_containers.len() == spec.containers@.len()
    &&& forall|i: int|
        0 <= i < spec.containers@.len() ==> registry::image_user_is_valid(
            (#[trigger] registry_containers[i]).config_layer.config@,
        )
    &&& forall|i: int|
        0 <= i < spec.containers@.len() ==> agent_policy.volumes_resolve(
            (#[trigger] spec.containers@[i]).declared_mounts(),
            volumes_of(spec),
        )
}

/// Whether a failure is one that the resolution of a pod is refused with:
/// that of a pod without image metadata for each of its containers, or
/// one that the resolution of one of its containers is refused with.
pub open spec fn pod_refusal(
    spec: &PodSpec,
    registry_containers: Seq<registry::Container>,
    agent_policy: &AgentPolicy,
    e: PolicyError,
) -> bool {
    if registry_containers.len() != spec.containers@.len() {
        e matches PolicyError::ImageResolution(_)
    } else {
        exists|i: int|
            0 <= i < spec.containers@.len() && agent_policy.container_refusal(
                volumes_of(spec),
                &#[trigger] spec.containers@[i],
                registry_containers[i].config_layer.config@,
                e,
            )
    }
}

/// Whether the policies are those of the containers of a pod, in order,
/// the first container being the sandbox container.
pub open spec fn pod_resolves_to(
    annotations: Option<Annotations>,
    spec: &PodSpec,
    registry_containers: Seq<registry::Container>,
    agent_policy: &AgentPolicy,
    policies: Seq<ContainerPolicy>,
) -> bool {
    &&& policies.len() == spec.containers@.len()
    &&& registry_containers.len() == spec.containers@.len()
    &&& forall|i: int|
        0 <= i < policies.len() ==> agent_policy.resolves_to(
            annotations,
            volumes_of(spec),
            &spec.containers@[i],
            registry_containers[i].config_layer.config@,
            i == 0,
            &#[trigger] policies[i],
        )
}

/// Resolves the policy of each container of a pod, in order. The first
/// container is taken to be the sandbox container. Where one container
/// cannot be resolved, none is.
pub fn generate_policy(
    annotations: &Option<Annotations>,
    spec: &PodSpec,
    registry_containers: &Vec<registry::Container>,
    agent_policy: &AgentPolicy,
) -> (r: Result<Vec<ContainerPolicy>, PolicyError>)
    requires
        agent_policy.wf(),
        annotations matches Some(map) ==> map.wf(),
    ensures
        r is Ok == pod_resolves(spec, registry_containers@, agent_policy),
        r matches Ok(policies) ==> pod_resolves_to(
            *annotations,
            spec,
            registry_containers@,
            agent_policy,
            policies@,
        ),
        r matches Err(e) ==> pod_refusal(spec, registry_containers@, agent_policy, e),
{
    if registry_containers.len() != spec.containers.len() {
        return Err(
            PolicyError::ImageResolution("one image for each container is needed".to_string()),
        );
    }
    let no_volumes: Vec<Volume> = Vec::new();
    let volumes = match &spec.volumes {
        Some(volumes) => volumes,
        None => &no_volumes,
    };
    assert(volumes@ =~= volumes_of(spec));
    let mut policies: Vec<ContainerPolicy> = Vec::new();
    let mut i: usize = 0;
    while i < spec.containers.len()
        invariant
            i <= spec.containers.len(),
            agent_policy.wf(),
            annotations matches Some(map) ==> map.wf(),
            registry_containers@.len() == spec.containers@.len(),
            volumes@ == volumes_of(spec),
            policies@.len() == i,
            forall|k: int|
                0 <= k < i ==> registry::image_user_is_valid(
                    (#[trigger] registry_containers@[k]).config_layer.config@,
                ),
            forall|k: int|
                0 <= k < i ==> agent_policy.volumes_resolve(
                    (#[trigger] spec.containers@[k]).declared_mounts(),
                    volumes_of(spec),
                ),
            forall|k: int|
                0 <= k < i ==> agent_policy.resolves_to(
                    *annotations,
                    volumes_of(spec),
                    &spec.containers@[k],
                    registry_containers@[k].config_layer.config@,
                    k == 0,
                    &#[trigger] policies@[k],
                ),
        decreases spec.containers.len() - i,
    {
        match agent_policy.get_container_policy(
            annotations,
            volumes,
            &spec.containers[i],
            &registry_containers[i],
            i == 0,
        ) {
            Ok(policy) => {
                policies.push(policy);
            },
            Err(e) => {
                assert(agent_policy.container_refusal(
                    volumes_of(spec),
                    &spec.containers@[i as int],
                    registry_containers@[i as int].config_layer.config@,
                    e,
                ));
                return Err(e);
            },
        }
        i += 1;
    }
    Ok(policies)
}

/// The pattern of the host names of the pods of a controller that names
/// its pods after itself: the name, a hyphen and five characters.
pub open spec fn fixed_suffix_pattern(name: Seq<char>) -> Seq<char> {
    "^"@ + name + "-[a-z0-9]{5}$"@
}

/// The pattern of the host names of the pods of a controller that works
/// through a group of its own: the name, a hyphen, the hash of the group,
/// a hyphen and five characters.
pub open spec fn group_suffix_pattern(name: Seq<char>) -> Seq<char> {
    "^"@ + name + "-[a-z0-9]*-[a-z0-9]{5}$"@
}

/// The host name pattern of a controller that names its pods after itself.
pub fn fixed_suffix_host_name(name: &str) -> (r: String)
    ensures
        r@ == fixed_suffix_pattern(name@),
{
    let mut r = "^".to_string();
    r.append(name);
    r.append("-[a-z0-9]{5}$");
    r
}

/// The host name pattern of a controller that works through a group.
pub fn group_suffix_host_name(name: &str) -> (r: String)
    ensures
        r@ == group_suffix_pattern(name@),
{
    let mut r = "^".to_string();
    r.append(name);
    r.append("-[a-z0-9]*-[a-z0-9]{5}$");
    r
}

/// The text of a document that is written out; none for a document with
/// an empty tag and for one that the renderer gives up on.
pub open spec fn document_text(document: Node) -> Option<Seq<char>> {
    if tags_named(document) {
        rendered_yaml(document)
    } else {
        None
    }
}

/// Renders a document as text. A document that has no text is refused.
pub fn render_document(document: &YamlValue) -> (r: Result<String, PolicyError>)
    ensures
        r is Ok == document_text(document.model()) is Some,
        r matches Ok(text) ==> document_text(document.model()) == Some(text@),
        r matches Err(e) ==> e matches PolicyError::MalformedField(_),
{
    match document.render() {
        Some(text) => Ok(text),
        None => Err(PolicyError::MalformedField("document".to_string())),
    }
}

/// The text of the document of a workload with a policy written into it;
/// none where the policy cannot be written or the document has no text.
pub open spec fn text_with_policy(document: Node, metadata_path: Seq<char>, policy: Seq<char>) -> Option<
    Seq<char>,
> {
    match with_policy_at(document, split_spec(metadata_path, '.'), policy) {
        Some(changed) => document_text(changed),
        None => None,
    }
}

/// Renders the document of a workload with a policy written into it.
pub fn serialize_text(doc_mapping: &YamlValue, metadata_path: &str, policy: &str) -> (r: Result<
    String,
    PolicyError,
>)
    ensures
        r is Ok == text_with_policy(doc_mapping.model(), metadata_path@, policy@) is Some,
        r matches Ok(text) ==> text_with_policy(doc_mapping.model(), metadata_path@, policy@)
            == Some(text@),
        r matches Err(e) ==> if with_policy_at(
            doc_mapping.model(),
            split_spec(metadata_path@, '.'),
            policy@,
        ) is None {
            e matches PolicyError::AnnotationPath(key) && key@ == unresolved_key(
                doc_mapping.model(),
                split_spec(metadata_path@, '.'),
            )
        } else {
            e matches PolicyError::MalformedField(_)
        },
{
    match serialize_with_policy(doc_mapping, metadata_path, policy) {
        Ok(document) => render_document(&document),
        Err(e) => Err(e),
    }
}

/// A copy of the document of a resource with a policy written into it.
/// A path that does not resolve is refused.
pub fn serialize_with_policy(doc_mapping: &YamlValue, metadata_path: &str, policy: &str) -> (r: Result<
    YamlValue,
    PolicyError,
>)
    ensures
        r is Ok == with_policy_at(doc_mapping.model(), split_spec(metadata_path@, '.'), policy@)
            is Some,
        r matches Ok(document) ==> document.model() == with_policy_at(
            doc_mapping.model(),
            split_spec(metadata_path@, '.'),
            policy@,
        )->0,
        r matches Err(e) ==> e matches PolicyError::AnnotationPath(key) && key@ == unresolved_key(
            doc_mapping.model(),
            split_spec(metadata_path@, '.'),
        ),
{
    let mut document = doc_mapping.duplicate();
    match add_policy_annotation(&mut document, metadata_path, policy) {
        Ok(()) => Ok(document),
        Err(e) => Err(e),
    }
}

/// A resource of one of the kinds that have a handler.
#[derive(Debug, PartialEq)]
pub enum K8sResource {
    ConfigMap(NoPolicyResource),
    DaemonSet(DaemonSet),
    Deployment(Deployment),
    Job(Job),
    List(List),
    Pod(Pod),
    ReplicationController(ReplicationController),
    ReplicaSet(ReplicaSet),
    Secret(NoPolicyResource),
    StatefulSet(StatefulSet),
    NoPolicy(NoPolicyResource),
}

/// The policies that a resource resolves to.
#[derive(Debug, PartialEq, Eq)]
pub enum PolicyData {
    /// A resource without a workload has no policy.
    NoPolicy,
    /// The policies of the containers of a workload, in order.
    Containers(Vec<ContainerPolicy>),
    /// What each item of a list resolves to, in order.
    Items(Vec<PolicyData>),
}

/// A resource ready to be written out.
#[derive(Debug, PartialEq)]
pub enum Serialized {
    /// The text of a resource that is written out as it came.
    Text(String),
    /// The document of a resource, with its policy.
    Document(YamlValue),
}

/// What a resource ready to be written out holds.
pub ghost enum SerializedView {
    Text(Seq<char>),
    Document(Node),
}

impl View for Serialized {
    type V = SerializedView;

    open spec fn view(&self) -> SerializedView {
        match self {
            Serialized::Text(text) => SerializedView::Text(text@),
            Serialized::Document(document) => SerializedView::Document(document.model()),
        }
    }
}

/// What the policy takes from a resource that has a workload.
pub ghost struct Workload {
    pub annotations: Option<Annotations>,
    pub spec: PodSpec,
    pub registry_containers: Seq<registry::Container>,
    pub document: Node,
    pub metadata_path: Seq<char>,
    pub name: Seq<char>,
    pub namespace: Seq<char>,
    pub host_name: Seq<char>,
    pub sandbox_name: Option<Seq<char>>,
}

impl K8sResource {
    /// The kind of the resource.
    pub open spec fn kind(&self) -> ResourceKind {
        match self {
            K8sResource::ConfigMap(_) => ResourceKind::ConfigMap,
            K8sResource::DaemonSet(_) => ResourceKind::DaemonSet,
            K8sResource::Deployment(_) => ResourceKind::Deployment,
            K8sResource::Job(_) => ResourceKind::Job,
            K8sResource::List(_) => ResourceKind::List,
            K8sResource::Pod(_) => ResourceKind::Pod,
            K8sResource::ReplicationController(_) => ResourceKind::ReplicationController,
            K8sResource::ReplicaSet(_) => ResourceKind::ReplicaSet,
            K8sResource::Secret(_) => ResourceKind::Secret,
            K8sResource::StatefulSet(_) => ResourceKind::StatefulSet,
            K8sResource::NoPolicy(_) => ResourceKind::NoPolicy,
        }
    }

    /// The workload of the resource; none for a list and for a resource
    /// that carries none.
    pub open spec fn workload(&self) -> Option<Workload> {
        match self {
            K8sResource::ConfigMap(_) => None,
            K8sResource::DaemonSet(resource) => Some(
                Workload {
                    annotations: resource.spec.template.metadata.annotations,
                    spec: resource.spec.template.spec,
                    registry_containers: resource.registry_containers@,
                    document: resource.doc_mapping.model(),
                    metadata_path: "spec.template.metadata"@,
                    name: resource.metadata.name_spec(),
                    namespace: resource.metadata.namespace_spec(),
                    host_name: fixed_suffix_pattern(resource.metadata.name_spec()),
                    sandbox_name: None,
                },
            ),
            K8sResource::Deployment(resource) => Some(
                Workload {
                    annotations: resource.spec.template.metadata.annotations,
                    spec: resource.spec.template.spec,
                    registry_containers: resource.registry_containers@,
                    document: resource.doc_mapping.model(),
                    metadata_path: "spec.template.metadata"@,
                    name: resource.metadata.name_spec(),
                    namespace: resource.metadata.namespace_spec(),
                    host_name: group_suffix_pattern(resource.metadata.name_spec()),
                    sandbox_name: None,
                },
            ),
            K8sResource::Job(resource) => Some(
                Workload {
                    annotations: resource.spec.template.metadata.annotations,
                    spec: resource.spec.template.spec,
                    registry_containers: resource.registry_containers@,
                    document: resource.doc_mapping.model(),
                    metadata_path: "spec.template.metadata"@,
                    name: resource.metadata.name_spec(),
                    namespace: resource.metadata.namespace_spec(),
                    host_name: fixed_suffix_pattern(resource.metadata.name_spec()),
                    sandbox_name: None,
                },
            ),
            K8sResource::List(_) => None,
            K8sResource::Pod(resource) => Some(
                Workload {
                    annotations: resource.metadata.annotations,
                    spec: resource.spec,
                    registry_containers: resource.registry_containers@,
                    document: resource.doc_mapping.model(),
                    metadata_path: "metadata"@,
                    name: resource.metadata.name_spec(),
                    namespace: resource.metadata.namespace_spec(),
                    host_name: resource.metadata.name_spec(),
                    sandbox_name: Some(resource.metadata.name_spec()),
                },
            ),
            K8sResource::ReplicationController(resource) => Some(
                Workload {
                    annotations: resource.spec.template.metadata.annotations,
                    spec: resource.spec.template.spec,
                    registry_containers: resource.registry_containers@,
                    document: resource.doc_mapping.model(),
                    metadata_path: "spec.template.metadata"@,
                    name: resource.metadata.name_spec(),
                    namespace: resource.metadata.namespace_spec(),
                    host_name: fixed_suffix_pattern(resource.metadata.name_spec()),
                    sandbox_name: None,
                },
            ),
            K8sResource::ReplicaSet(resource) => Some(
                Workload {
                    annotations: resource.spec.template.metadata.annotations,
                    spec: resource.spec.template.spec,
                    registry_containers: resource.registry_containers@,
                    document: resource.doc_mapping.model(),
                    metadata_path: "spec.template.metadata"@,
                    name: resource.metadata.name_spec(),
                    namespace: resource.metadata.namespace_spec(),
                    host_name: fixed_suffix_pattern(resource.metadata.name_spec()),
                    sandbox_name: None,
                },
            ),
            K8sResource::Secret(_) => None,
            K8sResource::StatefulSet(resource) => Some(
                Workload {
                    annotations: resource.spec.template.metadata.annotations,
                    spec: resource.spec.template.spec,
                    registry_containers: resource.registry_containers@,
                    document: resource.doc_mapping.model(),
                    metadata_path: "spec.template.metadata"@,
                    name: resource.metadata.name_spec(),
                    namespace: resource.metadata.namespace_spec(),
                    host_name: fixed_suffix_pattern(resource.metadata.name_spec()),
                    sandbox_name: None,
                },
            ),
            K8sResource::NoPolicy(_) => None,
        }
    }

    /// The text of a resource that is written out as it came.
    pub open spec fn passed_through(&self) -> Option<Seq<char>> {
        match self {
            K8sResource::ConfigMap(resource) => Some(resource.yaml@),
            K8sResource::Secret(resource) => Some(resource.yaml@),
            K8sResource::NoPolicy(resource) => Some(resource.yaml@),
            _ => None,
        }
    }

    /// The invariant of the type: the annotations of a workload are a map,
    /// and the items of a list meet their invariants.
    pub open spec fn wf(&self) -> bool
        decreases self,
    {
        match self {
            K8sResource::List(list) => forall|i: int|
                0 <= i < list.resources@.len() ==> (#[trigger] list.resources@[i]).wf(),
            _ => match self.workload() {
                Some(workload) => workload.annotations matches Some(map) ==> map.wf(),
                None => true,
            },
        }
    }

    /// Whether the policy of the resource can be resolved: that of every
    /// container of a workload, and that of every item of a list.
    pub open spec fn resolves(&self, agent_policy: &AgentPolicy) -> bool
        decreases self,
    {
        match self {
            K8sResource::List(list) => forall|i: int|
                0 <= i < list.resources@.len() ==> (#[trigger] list.resources@[i]).resolves(
                    agent_policy,
                ),
            _ => match self.workload() {
                Some(workload) => pod_resolves(
                    &workload.spec,
                    workload.registry_containers,
                    agent_policy,
                ),
                None => true,
            },
        }
    }

    /// Whether the policies are those of the resource: none for a resource
    /// without a workload, the policies of the containers for a workload,
    /// and for a list what each of its items resolves to.
    pub open spec fn described_by(&self, agent_policy: &AgentPolicy, data: &PolicyData) -> bool
        decreases self,
    {
        match self {
            K8sResource::List(list) => data matches PolicyData::Items(items) && items@.len()
                == list.resources@.len() && forall|i: int|
                0 <= i < list.resources@.len() ==> (#[trigger] list.resources@[i]).described_by(
                    agent_policy,
                    &items@[i],
                ),
            _ => match self.workload() {
                Some(workload) => data matches PolicyData::Containers(policies) && pod_resolves_to(
                    workload.annotations,
                    &workload.spec,
                    workload.registry_containers,
                    agent_policy,
                    policies@,
                ),
                None => data is NoPolicy,
            },
        }
    }

    /// What the resource is written out as, given its policy: the text of
    /// a resource without a workload, as it came; the document of a
    /// workload with the policy in the annotations at its metadata path;
    /// and the document of a list. None where the policy cannot be written.
    pub open spec fn serialized(&self, policy: Seq<char>) -> Option<SerializedView>
        decreases self,
    {
        match self {
            K8sResource::List(list) => {
                let policies = split_spec(policy, ':');
                if policies.len() == list.resources@.len() && (forall|i: int|
                    0 <= i < list.resources@.len() ==> (#[trigger] list.resources@[i]).serialized(
                        policies[i],
                    ) is Some) {
                    Some(
                        SerializedView::Document(
                            list_document(
                                list.api_version@,
                                list.kind@,
                                Seq::new(
                                    list.resources@.len(),
                                    |i: int|
                                        if 0 <= i < list.resources@.len() {
                                            item_document(
                                                if i < list.items@.len() {
                                                    list.items@[i].model()
                                                } else {
                                                    Node::Null
                                                },
                                                list.resources@[i].serialized(policies[i]),
                                            )
                                        } else {
                                            Node::Null
                                        },
                                ),
                            ),
                        ),
                    )
                } else {
                    None
                }
            },
            _ => match self.workload() {
                Some(workload) => match with_policy_at(
                    workload.document,
                    split_spec(workload.metadata_path, '.'),
                    policy,
                ) {
                    Some(document) => Some(SerializedView::Document(document)),
                    None => None,
                },
                None => match self.passed_through() {
                    Some(text) => Some(SerializedView::Text(text)),
                    None => None,
                },
            },
        }
    }

    /// Whether the value meets the invariant of the type.
    #[verifier::loop_isolation(false)]
    pub fn is_valid(&self) -> (r: bool)
        ensures
            r == self.wf(),
        decreases self,
    {
        match self {
            K8sResource::ConfigMap(_) => true,
            K8sResource::DaemonSet(resource) => is_map(&resource.spec.template.metadata.annotations),
            K8sResource::Deployment(resource) => is_map(&resource.spec.template.metadata.annotations),
            K8sResource::Job(resource) => is_map(&resource.spec.template.metadata.annotations),
            K8sResource::List(list) => {
                proof {
                    lemma_list_wf(list);
                }
                let mut i: usize = 0;
                while i < list.resources.len()
                    invariant
                        i <= list.resources.len(),
                        forall|k: int| 0 <= k < i ==> (#[trigger] list.resources@[k]).wf(),
                    decreases list.resources.len() - i,
                {
                    assert(decreases_to!(list.resources => list.resources[i as int]));
                    if !list.resources[i].is_valid() {
                        return false;
                    }
                    i += 1;
                }
                true
            },
            K8sResource::Pod(resource) => is_map(&resource.metadata.annotations),
            K8sResource::ReplicationController(resource) => is_map(&resource.spec.template.metadata.annotations),
            K8sResource::ReplicaSet(resource) => is_map(&resource.spec.template.metadata.annotations),
            K8sResource::Secret(_) => true,
            K8sResource::StatefulSet(resource) => is_map(&resource.spec.template.metadata.annotations),
            K8sResource::NoPolicy(_) => true,
        }
    }

    /// The kind of the resource.
    pub fn get_kind(&self) -> (r: ResourceKind)
        ensures
            r == self.kind(),
    {
        match self {
            K8sResource::ConfigMap(_) => ResourceKind::ConfigMap,
            K8sResource::DaemonSet(_) => ResourceKind::DaemonSet,
            K8sResource::Deployment(_) => ResourceKind::Deployment,
            K8sResource::Job(_) => ResourceKind::Job,
            K8sResource::List(_) => ResourceKind::List,
            K8sResource::Pod(_) => ResourceKind::Pod,
            K8sResource::ReplicationController(_) => ResourceKind::ReplicationController,
            K8sResource::ReplicaSet(_) => ResourceKind::ReplicaSet,
            K8sResource::Secret(_) => ResourceKind::Secret,
            K8sResource::StatefulSet(_) => ResourceKind::StatefulSet,
            K8sResource::NoPolicy(_) => ResourceKind::NoPolicy,
        }
    }

    /// The name of the workload; none for a resource without one.
    pub fn get_metadata_name(&self) -> (r: Option<String>)
        ensures
            text_view(r) == match self.workload() {
                Some(workload) => Some(workload.name),
                None => None,
            },
    {
        match self {
            K8sResource::ConfigMap(resource) => None,
            K8sResource::DaemonSet(resource) => Some(resource.get_metadata_name()),
            K8sResource::Deployment(resource) => Some(resource.get_metadata_name()),
            K8sResource::Job(resource) => Some(resource.get_metadata_name()),
            K8sResource::List(resource) => None,
            K8sResource::Pod(resource) => Some(resource.get_metadata_name()),
            K8sResource::ReplicationController(resource) => Some(resource.get_metadata_name()),
            K8sResource::ReplicaSet(resource) => Some(resource.get_metadata_name()),
            K8sResource::Secret(resource) => None,
            K8sResource::StatefulSet(resource) => Some(resource.get_metadata_name()),
            K8sResource::NoPolicy(resource) => None,
        }
    }

    /// The pattern that the host names of the pods of the workload match;
    /// none for a resource without a workload.
    pub fn get_host_name(&self) -> (r: Option<String>)
        ensures
            text_view(r) == match self.workload() {
                Some(workload) => Some(workload.host_name),
                None => None,
            },
    {
        match self {
            K8sResource::ConfigMap(resource) => None,
            K8sResource::DaemonSet(resource) => Some(resource.get_host_name()),
            K8sResource::Deployment(resource) => Some(resource.get_host_name()),
            K8sResource::Job(resource) => Some(resource.get_host_name()),
            K8sResource::List(resource) => None,
            K8sResource::Pod(resource) => Some(resource.get_host_name()),
            K8sResource::ReplicationController(resource) => Some(resource.get_host_name()),
            K8sResource::ReplicaSet(resource) => Some(resource.get_host_name()),
            K8sResource::Secret(resource) => None,
            K8sResource::StatefulSet(resource) => Some(resource.get_host_name()),
            K8sResource::NoPolicy(resource) => None,
        }
    }

    /// The name of the sandbox, where the resource knows it.
    pub fn get_sandbox_name(&self) -> (r: Option<String>)
        ensures
            text_view(r) == match self.workload() {
                Some(workload) => workload.sandbox_name,
                None => None,
            },
    {
        match self {
            K8sResource::ConfigMap(resource) => None,
            K8sResource::DaemonSet(resource) => resource.get_sandbox_name(),
            K8sResource::Deployment(resource) => resource.get_sandbox_name(),
            K8sResource::Job(resource) => resource.get_sandbox_name(),
            K8sResource::List(resource) => None,
            K8sResource::Pod(resource) => resource.get_sandbox_name(),
            K8sResource::ReplicationController(resource) => resource.get_sandbox_name(),
            K8sResource::ReplicaSet(resource) => resource.get_sandbox_name(),
            K8sResource::Secret(resource) => None,
            K8sResource::StatefulSet(resource) => resource.get_sandbox_name(),
            K8sResource::NoPolicy(resource) => None,
        }
    }

    /// The namespace of the workload; none for a resource without one.
    pub fn get_namespace(&self) -> (r: Option<String>)
        ensures
            text_view(r) == match self.workload() {
                Some(workload) => Some(workload.namespace),
                None => None,
            },
    {
        match self {
            K8sResource::ConfigMap(resource) => None,
            K8sResource::DaemonSet(resource) => Some(resource.get_namespace()),
            K8sResource::Deployment(resource) => Some(resource.get_namespace()),
            K8sResource::Job(resource) => Some(resource.get_namespace()),
            K8sResource::List(resource) => None,
            K8sResource::Pod(resource) => Some(resource.get_namespace()),
            K8sResource::ReplicationController(resource) => Some(resource.get_namespace()),
            K8sResource::ReplicaSet(resource) => Some(resource.get_namespace()),
            K8sResource::Secret(resource) => None,
            K8sResource::StatefulSet(resource) => Some(resource.get_namespace()),
            K8sResource::NoPolicy(resource) => None,
        }
    }

    /// The pod of the workload; none for a resource without one.
    pub fn get_pod_spec(&self) -> (r: Option<&PodSpec>)
        ensures
            r is Some == self.workload() is Some,
            r matches Some(spec) ==> *spec == self.workload()->0.spec,
    {
        match self {
            K8sResource::ConfigMap(resource) => None,
            K8sResource::DaemonSet(resource) => resource.get_pod_spec(),
            K8sResource::Deployment(resource) => resource.get_pod_spec(),
            K8sResource::Job(resource) => resource.get_pod_spec(),
            K8sResource::List(resource) => None,
            K8sResource::Pod(resource) => resource.get_pod_spec(),
            K8sResource::ReplicationController(resource) => resource.get_pod_spec(),
            K8sResource::ReplicaSet(resource) => resource.get_pod_spec(),
            K8sResource::Secret(resource) => None,
            K8sResource::StatefulSet(resource) => resource.get_pod_spec(),
            K8sResource::NoPolicy(resource) => None,
        }
    }

    /// Prepares the resource for the resolution of its images. A workload
    /// keeps a copy of its document and puts its containers in the order
    /// in which their policies are written; the result holds the image
    /// reference of each container, in that order. Any other resource is
    /// left as it is, and the result is empty. A workload with an image
    /// that is named by no reference is refused and left as it is.
    pub fn init(&mut self, doc_mapping: &YamlValue) -> (r: Result<Vec<String>, PolicyError>)
        ensures
            final(self).kind() == old(self).kind(),
            r is Ok == (old(self).workload() matches Some(before) ==> images_are_references(
                container_sequence(&before.spec),
            )),
            r matches Ok(images) ==> match old(self).workload() {
                Some(before) => final(self).workload() matches Some(after) && {
                    &&& after.document == doc_mapping.model()
                    &&& view_all(after.spec.containers@) == container_sequence(&before.spec)
                    &&& after.spec.volumes == before.spec.volumes
                    &&& after.annotations == before.annotations
                    &&& after.metadata_path == before.metadata_path
                    &&& after.name == before.name
                    &&& after.namespace == before.namespace
                    &&& view_all(images@) == images_of(after.spec.containers@)
                },
                None => *final(self) == *old(self) && images@.len() == 0,
            },
            r matches Err(e) ==> *final(self) == *old(self) && (
            old(self).workload() matches Some(before) && image_refusal(
                container_sequence(&before.spec),
                e,
            )),
    {
        match self {
            K8sResource::ConfigMap(resource) => Ok(Vec::new()),
            K8sResource::DaemonSet(resource) => resource.init(doc_mapping),
            K8sResource::Deployment(resource) => resource.init(doc_mapping),
            K8sResource::Job(resource) => resource.init(doc_mapping),
            K8sResource::List(resource) => Ok(Vec::new()),
            K8sResource::Pod(resource) => resource.init(doc_mapping),
            K8sResource::ReplicationController(resource) => resource.init(doc_mapping),
            K8sResource::ReplicaSet(resource) => resource.init(doc_mapping),
            K8sResource::Secret(resource) => Ok(Vec::new()),
            K8sResource::StatefulSet(resource) => resource.init(doc_mapping),
            K8sResource::NoPolicy(resource) => Ok(Vec::new()),
        }
    }

    /// Hands a workload the metadata of its images, one for each container
    /// in the order that `init` gave. Any other resource is left as it is.
    pub fn set_registry_containers(&mut self, registry_containers: Vec<registry::Container>)
        ensures
            final(self).kind() == old(self).kind(),
            match old(self).workload() {
                Some(before) => final(self).workload() == Some(
                    Workload { registry_containers: registry_containers@, ..before },
                ),
                None => *final(self) == *old(self),
            },
    {
        match self {
            K8sResource::ConfigMap(resource) => {},
            K8sResource::DaemonSet(resource) => resource.set_registry_containers(registry_containers),
            K8sResource::Deployment(resource) => resource.set_registry_containers(registry_containers),
            K8sResource::Job(resource) => resource.set_registry_containers(registry_containers),
            K8sResource::List(resource) => {},
            K8sResource::Pod(resource) => resource.set_registry_containers(registry_containers),
            K8sResource::ReplicationController(resource) => resource.set_registry_containers(registry_containers),
            K8sResource::ReplicaSet(resource) => resource.set_registry_containers(registry_containers),
            K8sResource::Secret(resource) => {},
            K8sResource::StatefulSet(resource) => resource.set_registry_containers(registry_containers),
            K8sResource::NoPolicy(resource) => {},
        }
    }

    /// Resolves the policies of the resource. Where one container of one
    /// workload cannot be resolved, nothing is.
    pub fn generate_policy(&self, agent_policy: &AgentPolicy) -> (r: Result<PolicyData, PolicyError>)
        requires
            self.wf(),
            agent_policy.wf(),
        ensures
            r is Ok == self.resolves(agent_policy),
            r matches Ok(data) ==> self.described_by(agent_policy, &data),
            r matches Err(e) ==> self.policy_refusal(agent_policy, e),
        decreases self,
    {
        match self {
            K8sResource::ConfigMap(resource) => Ok(PolicyData::NoPolicy),
            K8sResource::DaemonSet(resource) => match resource.generate_policy(agent_policy) {
                Ok(policies) => Ok(PolicyData::Containers(policies)),
                Err(e) => Err(e),
            },
            K8sResource::Deployment(resource) => match resource.generate_policy(agent_policy) {
                Ok(policies) => Ok(PolicyData::Containers(policies)),
                Err(e) => Err(e),
            },
            K8sResource::Job(resource) => match resource.generate_policy(agent_policy) {
                Ok(policies) => Ok(PolicyData::Containers(policies)),
                Err(e) => Err(e),
            },
            K8sResource::List(resource) => match resource.generate_policy(agent_policy) {
                Ok(items) => Ok(PolicyData::Items(items)),
                Err(e) => Err(e),
            },
            K8sResource::Pod(resource) => match resource.generate_policy(agent_policy) {
                Ok(policies) => Ok(PolicyData::Containers(policies)),
                Err(e) => Err(e),
            },
            K8sResource::ReplicationController(resource) => match resource.generate_policy(agent_policy) {
                Ok(policies) => Ok(PolicyData::Containers(policies)),
                Err(e) => Err(e),
            },
            K8sResource::ReplicaSet(resource) => match resource.generate_policy(agent_policy) {
                Ok(policies) => Ok(PolicyData::Containers(policies)),
                Err(e) => Err(e),
            },
            K8sResource::Secret(resource) => Ok(PolicyData::NoPolicy),
            K8sResource::StatefulSet(resource) => match resource.generate_policy(agent_policy) {
                Ok(policies) => Ok(PolicyData::Containers(policies)),
                Err(e) => Err(e),
            },
            K8sResource::NoPolicy(resource) => Ok(PolicyData::NoPolicy),
        }
    }

    /// Whether a failure is one that the resolution of the resource is
    /// refused with: that of a workload whose pod cannot be resolved, or
    /// for a list one that the resolution of one of its items is refused
    /// with.
    pub open spec fn policy_refusal(&self, agent_policy: &AgentPolicy, e: PolicyError) -> bool
        decreases self,
    {
        match self {
            K8sResource::List(list) => exists|i: int|
                0 <= i < list.resources@.len() && (#[trigger] list.resources@[i]).policy_refusal(
                    agent_policy,
                    e,
                ),
            _ => match self.workload() {
                Some(workload) => pod_refusal(
                    &workload.spec,
                    workload.registry_containers,
                    agent_policy,
                    e,
                ),
                None => false,
            },
        }
    }

    /// Whether a failure is the one that the writing out of the resource
    /// with a policy is refused with. For a workload it holds the key at
    /// which the metadata path fails to resolve. For a list whose policy
    /// does not split into one piece for each item it holds the two
    /// counts; for any other list it is the one that the first item that
    /// cannot be written out with its piece is refused with.
    pub open spec fn write_refusal(&self, policy: Seq<char>, e: PolicyError) -> bool
        decreases self,
    {
        match self {
            K8sResource::List(list) => {
                let pieces = split_spec(policy, ':');
                if pieces.len() != list.resources@.len() {
                    e == (PolicyError::PolicyCount {
                        expected: list.resources@.len() as usize,
                        found: pieces.len() as usize,
                    })
                } else {
                    exists|i: int|
                        0 <= i < list.resources@.len() && first_unwritten(*list, pieces, i) && (
                        #[trigger] list.resources@[i]).write_refusal(pieces[i], e)
                }
            },
            _ => match self.workload() {
                Some(workload) => e matches PolicyError::AnnotationPath(key) && key@
                    == unresolved_key(workload.document, split_spec(workload.metadata_path, '.')),
                None => false,
            },
        }
    }

    /// The text that the resource is written out as, given its policy;
    /// none where the policy cannot be written or the document has no
    /// text.
    pub open spec fn serialized_text(&self, policy: Seq<char>) -> Option<Seq<char>> {
        match self.serialized(policy) {
            Some(SerializedView::Text(text)) => Some(text),
            Some(SerializedView::Document(document)) => document_text(document),
            None => None,
        }
    }

    /// Writes the resource out as text, with its policy.
    ///
    /// A workload gives its document with the policy in the annotations at
    /// its metadata path, a list the document of the list with the policy
    /// of each item in the item, and a resource without a workload its
    /// text as it came. A metadata path that does not resolve is refused,
    /// and so are a list whose policy does not hold one policy for each
    /// item and a document that has no text.
    pub fn serialize(&self, policy: &str) -> (r: Result<String, PolicyError>)
        ensures
            r is Ok == self.serialized_text(policy@) is Some,
            r matches Ok(text) ==> self.serialized_text(policy@) == Some(text@),
            r matches Err(e) ==> if self.serialized(policy@) is Some {
                e matches PolicyError::MalformedField(_)
            } else {
                self.write_refusal(policy@, e)
            },
    {
        match self.document_with_policy(policy) {
            Ok(Serialized::Text(text)) => Ok(text),
            Ok(Serialized::Document(document)) => render_document(&document),
            Err(e) => Err(e),
        }
    }

    /// The resource as it is written out, with its policy: the document of
    /// a workload or of a list, or the text of a resource without a
    /// workload.
    pub fn document_with_policy(&self, policy: &str) -> (r: Result<Serialized, PolicyError>)
        ensures
            r is Ok == self.serialized(policy@) is Some,
            r matches Ok(serialized) ==> Some(serialized@) == self.serialized(policy@),
            r matches Err(e) ==> self.write_refusal(policy@, e),
        decreases self,
    {
        match self {
            K8sResource::ConfigMap(resource) => Ok(Serialized::Text(resource.serialize(policy))),
            K8sResource::DaemonSet(resource) => match resource.document_with_policy(policy) {
                Ok(document) => Ok(Serialized::Document(document)),
                Err(e) => Err(e),
            },
            K8sResource::Deployment(resource) => match resource.document_with_policy(policy) {
                Ok(document) => Ok(Serialized::Document(document)),
                Err(e) => Err(e),
            },
            K8sResource::Job(resource) => match resource.document_with_policy(policy) {
                Ok(document) => Ok(Serialized::Document(document)),
                Err(e) => Err(e),
            },
            K8sResource::List(resource) => match resource.document_with_policy(policy) {
                Ok(document) => Ok(Serialized::Document(document)),
                Err(e) => Err(e),
            },
            K8sResource::Pod(resource) => match resource.document_with_policy(policy) {
                Ok(document) => Ok(Serialized::Document(document)),
                Err(e) => Err(e),
            },
            K8sResource::ReplicationController(resource) => match resource.document_with_policy(policy) {
                Ok(document) => Ok(Serialized::Document(document)),
                Err(e) => Err(e),
            },
            K8sResource::ReplicaSet(resource) => match resource.document_with_policy(policy) {
                Ok(document) => Ok(Serialized::Document(document)),
                Err(e) => Err(e),
            },
            K8sResource::Secret(resource) => Ok(Serialized::Text(resource.serialize(policy))),
            K8sResource::StatefulSet(resource) => match resource.document_with_policy(policy) {
                Ok(document) => Ok(Serialized::Document(document)),
                Err(e) => Err(e),
            },
            K8sResource::NoPolicy(resource) => Ok(Serialized::Text(resource.serialize(policy))),
        }
    }
}

/// Whether the item at a place is the first item of a list that cannot be
/// written out with its piece of a policy.
pub open spec fn first_unwritten(list: List, pieces: Seq<Seq<char>>, i: int) -> bool {
    &&& 0 <= i < list.resources@.len()
    &&& list.resources@[i].serialized(pieces[i]) is None
    &&& forall|k: int| 0 <= k < i ==> (#[trigger] list.resources@[k]).serialized(pieces[k]) is Some
}

/// A failure that the resolution of an item is refused with is one that
/// the resolution of the list is refused with.
pub proof fn lemma_list_policy_refusal(
    list: &List,
    agent_policy: &AgentPolicy,
    e: PolicyError,
    i: int,
)
    requires
        0 <= i < list.resources@.len(),
        list.resources@[i].policy_refusal(agent_policy, e),
    ensures
        K8sResource::List(*list).policy_refusal(agent_policy, e),
{
    let whole = K8sResource::List(*list);
    assert(decreases_to!(whole => whole->List_0));
    assert(decreases_to!(*list => list.resources));
    assert(decreases_to!(list.resources => list.resources[i]));
}

/// The failure that the first item that cannot be written out is refused
/// with is the one that the list is refused with, where the policy has one
/// piece for each item; and where it has not, the failure with the two
/// counts is.
pub proof fn lemma_list_write_refusal(list: &List, policy: Seq<char>, e: PolicyError, i: int)
    requires
        split_spec(policy, ':').len() == list.resources@.len(),
        first_unwritten(*list, split_spec(policy, ':'), i),
        list.resources@[i].write_refusal(split_spec(policy, ':')[i], e),
    ensures
        K8sResource::List(*list).write_refusal(policy, e),
{
    let whole = K8sResource::List(*list);
    assert(decreases_to!(whole => whole->List_0));
    assert(decreases_to!(*list => list.resources));
    assert(decreases_to!(list.resources => list.resources[i]));
}

/// Whether annotations that may be absent are a map.
fn is_map(annotations: &Option<Annotations>) -> (r: bool)
    ensures
        r == (*annotations matches Some(map) ==> map.wf()),
{
    match annotations {
        Some(map) => map.has_unique_keys(),
        None => true,
    }
}

/// A list meets its invariant exactly when each of its items does.
pub proof fn lemma_list_wf(list: &List)
    ensures
        K8sResource::List(*list).wf() <==> forall|i: int|
            0 <= i < list.resources@.len() ==> (#[trigger] list.resources@[i]).wf(),
{
    let whole = K8sResource::List(*list);
    assert forall|i: int| 0 <= i < list.resources@.len() implies (whole.wf() ==> (
    #[trigger] list.resources@[i]).wf()) by {
        assert(decreases_to!(whole => whole->List_0));
        assert(decreases_to!(*list => list.resources));
        assert(decreases_to!(list.resources => list.resources[i]));
    }
    if forall|i: int| 0 <= i < list.resources@.len() ==> (#[trigger] list.resources@[i]).wf() {
        assert forall|i: int| 0 <= i < list.resources@.len() implies decreases_to!(whole => #[trigger] list.resources@[i])
            && list.resources@[i].wf() by {
            assert(decreases_to!(whole => whole->List_0));
            assert(decreases_to!(*list => list.resources));
            assert(decreases_to!(list.resources => list.resources[i]));
        }
        assert(whole.wf());
    }
}

/// What the resolution of a list comes to, item by item.
pub proof fn lemma_list_item_by_item(list: &List, agent_policy: &AgentPolicy)
    ensures
        K8sResource::List(*list).resolves(agent_policy) <==> forall|i: int|
            0 <= i < list.resources@.len() ==> (#[trigger] list.resources@[i]).resolves(
                agent_policy,
            ),
        forall|items: Vec<PolicyData>| #[trigger]
            K8sResource::List(*list).described_by(agent_policy, &PolicyData::Items(items)) <==> (
            items@.len() == list.resources@.len() && forall|i: int|
                0 <= i < list.resources@.len() ==> (#[trigger] list.resources@[i]).described_by(
                    agent_policy,
                    &items@[i],
                )),
{
    let whole = K8sResource::List(*list);
    assert forall|i: int| 0 <= i < list.resources@.len() implies (whole.resolves(agent_policy) ==> (
    #[trigger] list.resources@[i]).resolves(agent_policy)) by {
        assert(decreases_to!(whole => whole->List_0));
        assert(decreases_to!(*list => list.resources));
        assert(decreases_to!(list.resources => list.resources[i]));
    }
    if forall|i: int|
        0 <= i < list.resources@.len() ==> (#[trigger] list.resources@[i]).resolves(agent_policy) {
        assert forall|i: int| 0 <= i < list.resources@.len() implies decreases_to!(whole => #[trigger] list.resources@[i])
            && list.resources@[i].resolves(agent_policy) by {
            assert(decreases_to!(whole => whole->List_0));
            assert(decreases_to!(*list => list.resources));
            assert(decreases_to!(list.resources => list.resources[i]));
        }
        assert(whole.resolves(agent_policy));
    }
    assert forall|items: Vec<PolicyData>| #[trigger]
        whole.described_by(agent_policy, &PolicyData::Items(items)) <==> (items@.len()
            == list.resources@.len() && forall|i: int|
            0 <= i < list.resources@.len() ==> (#[trigger] list.resources@[i]).described_by(
                agent_policy,
                &items@[i],
            )) by {
        let data = PolicyData::Items(items);
        assert forall|i: int| 0 <= i < list.resources@.len() implies (whole.described_by(
            agent_policy,
            &data,
        ) ==> (#[trigger] list.resources@[i]).described_by(agent_policy, &items@[i])) by {
            assert(decreases_to!(whole => whole->List_0));
            assert(decreases_to!(*list => list.resources));
            assert(decreases_to!(list.resources => list.resources[i]));
        }
        if items@.len() == list.resources@.len() && forall|i: int|
            0 <= i < list.resources@.len() ==> (#[trigger] list.resources@[i]).described_by(
                agent_policy,
                &items@[i],
            ) {
            assert forall|i: int| 0 <= i < list.resources@.len() implies decreases_to!(whole => #[trigger] list.resources@[i])
                && list.resources@[i].described_by(agent_policy, &items@[i]) by {
                assert(decreases_to!(whole => whole->List_0));
                assert(decreases_to!(*list => list.resources));
                assert(decreases_to!(list.resources => list.resources[i]));
            }
            assert(whole.described_by(agent_policy, &data));
        }
    }
}

/// What writing out a list comes to, item by item: the list can be
/// written out exactly when its policy splits at its colons into one
/// piece for each item and each item can be written out with its piece;
/// and what is written out is the document of the list, with one document
/// for each item, in order.
pub proof fn lemma_list_serialized(list: &List, policy: Seq<char>)
    ensures
        K8sResource::List(*list).serialized(policy) is Some <==> (split_spec(policy, ':').len()
            == list.resources@.len() && forall|i: int|
            0 <= i < list.resources@.len() ==> (#[trigger] list.resources@[i]).serialized(
                split_spec(policy, ':')[i],
            ) is Some),
        K8sResource::List(*list).serialized(policy) matches Some(view) ==> {
            &&& view == SerializedView::Document(
                list_document(
                    list.api_version@,
                    list.kind@,
                    items_of(view),
                ),
            )
            &&& items_of(view).len() == list.resources@.len()
            &&& forall|i: int|
                0 <= i < list.resources@.len() ==> (#[trigger] items_of(view)[i])
                    == item_document(
                    if i < list.items@.len() {
                        list.items@[i].model()
                    } else {
                        Node::Null
                    },
                    list.resources@[i].serialized(split_spec(policy, ':')[i]),
                )
        },
{
    let whole = K8sResource::List(*list);
    let policies = split_spec(policy, ':');
    assert forall|i: int| 0 <= i < list.resources@.len() implies decreases_to!(whole => #[trigger] list.resources@[i]) by {
        assert(decreases_to!(whole => whole->List_0));
        assert(decreases_to!(*list => list.resources));
        assert(decreases_to!(list.resources => list.resources[i]));
    }
    if policies.len() == list.resources@.len() {
        assert forall|i: int| 0 <= i < list.resources@.len() implies (whole.serialized(policy)
            is Some ==> (#[trigger] list.resources@[i]).serialized(policies[i]) is Some) by {
            assert(decreases_to!(whole => whole->List_0));
            assert(decreases_to!(*list => list.resources));
            assert(decreases_to!(list.resources => list.resources[i]));
        }
        if forall|i: int|
            0 <= i < list.resources@.len() ==> (#[trigger] list.resources@[i]).serialized(
                policies[i],
            ) is Some {
            assert forall|i: int| 0 <= i < list.resources@.len() implies decreases_to!(whole => #[trigger] list.resources@[i])
                && list.resources@[i].serialized(policies[i]) is Some by {
                assert(decreases_to!(whole => whole->List_0));
                assert(decreases_to!(*list => list.resources));
                assert(decreases_to!(list.resources => list.resources[i]));
            }
            assert(whole.serialized(policy) is Some);
        }
    }
    if whole.serialized(policy) is Some {
        let view = whole.serialized(policy)->0;
        let items = items_of(view);
        assert(items.len() == list.resources@.len());
        assert forall|i: int| 0 <= i < list.resources@.len() implies (#[trigger] items[i])
            == item_document(
            if i < list.items@.len() {
                list.items@[i].model()
            } else {
                Node::Null
            },
            list.resources@[i].serialized(policies[i]),
        ) by {
            assert(decreases_to!(whole => whole->List_0));
            assert(decreases_to!(*list => list.resources));
            assert(decreases_to!(list.resources => list.resources[i]));
        }
    }
}

} // verus!
