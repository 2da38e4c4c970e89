use genpolicy::deployment::{Deployment, DeploymentSpec};
use genpolicy::daemon_set::{DaemonSet, DaemonSetSpec};
use genpolicy::document::YamlValue;
use genpolicy::error::PolicyError;
use genpolicy::infra::{ConfigMapVolume, EmptyDirVolume, InfraPolicy, KataConfig, SharedFiles, Volumes};
use genpolicy::kubernetes::{dry_run_documents, get_pause_image_ref, get_rules};
use genpolicy::list::{join_policies, List};
use genpolicy::no_policy::NoPolicyResource;
use genpolicy::obj_meta::ObjectMeta;
use genpolicy::pause_container::{add_pause_container, pause_container};
use genpolicy::pod::{Container, Pod, PodSpec, SecurityContext};
use genpolicy::pod_template::PodTemplateSpec;
use genpolicy::policy::{AgentPolicy, ContainerExecCommands, OciSpec};
use genpolicy::registry::{
    self, check_image_reference, get_layer_file_name, pair_image_layers, DockerConfigLayer, DockerImageConfig,
    DockerRootfs, ImageLayer, LayerDescriptor,
};
use genpolicy::yaml::{
    self, get_policy_annotation, handle_unused_field, resource_kind, K8sResource, PolicyData,
    ResourceKind, Serialized,
};

fn text(s: &str) -> YamlValue {
    YamlValue::String(s.to_string())
}

fn map(entries: Vec<(&str, YamlValue)>) -> YamlValue {
    YamlValue::Mapping(entries.into_iter().map(|(k, v)| (text(k), v)).collect())
}

fn meta(name: &str) -> ObjectMeta {
    ObjectMeta { name: Some(name.to_string()), generate_name: None, namespace: None, annotations: None }
}

fn container(name: &str, image: &str) -> Container {
    Container {
        name: name.to_string(),
        image: image.to_string(),
        command: None,
        args: None,
        volume_mounts: None,
        security_context: None,
        tty: None,
        allowed_commands: None,
    }
}

fn pod_spec(containers: Vec<Container>, init: Option<Vec<Container>>) -> PodSpec {
    PodSpec { containers, init_containers: init, volumes: None, host_network: None }
}

fn pod(name: &str) -> Pod {
    Pod {
        api_version: "v1".to_string(),
        kind: "Pod".to_string(),
        metadata: meta(name),
        spec: pod_spec(vec![container("main", "img:1")], None),
        doc_mapping: YamlValue::Null,
        registry_containers: Vec::new(),
    }
}

fn pod_document(name: &str) -> YamlValue {
    map(vec![
        ("kind", text("Pod")),
        ("metadata", map(vec![("name", text(name))])),
        ("spec", map(vec![])),
    ])
}

fn deployment(name: &str) -> Deployment {
    Deployment {
        api_version: "apps/v1".to_string(),
        kind: "Deployment".to_string(),
        metadata: meta(name),
        spec: DeploymentSpec {
            replicas: None,
            selector: None,
            strategy: None,
            template: PodTemplateSpec {
                metadata: ObjectMeta { name: None, generate_name: None, namespace: None, annotations: None },
                spec: pod_spec(vec![container("main", "img:1")], None),
            },
        },
        doc_mapping: YamlValue::Null,
        registry_containers: Vec::new(),
    }
}

fn image() -> registry::Container {
    registry::Container::new(
        DockerConfigLayer {
            architecture: "amd64".to_string(),
            config: DockerImageConfig {
                user: None,
                tty: None,
                env: Vec::new(),
                cmd: None,
                working_dir: None,
                entrypoint: None,
            },
            rootfs: DockerRootfs { rootfs_type: "layers".to_string(), diff_ids: Vec::new() },
        },
        vec![ImageLayer { diff_id: "sha256:aa".to_string(), verity_hash: "beef".to_string() }],
    )
}

fn agent() -> AgentPolicy {
    let empty = || OciSpec { process: None, mounts: Vec::new(), annotations: None, linux: None };
    let config_map = || ConfigMapVolume {
        mount_type: "bind".to_string(),
        mount_source: "/w/".to_string(),
        mount_point: "^/w/".to_string(),
        driver: "watchable-bind".to_string(),
        fstype: "bind".to_string(),
        options: vec!["ro".to_string()],
    };
    AgentPolicy {
        rules: "package agent_policy".to_string(),
        infra_policy: InfraPolicy::new(
            empty(),
            empty(),
            Volumes {
                empty_dir: EmptyDirVolume {
                    mount_type: "local".to_string(),
                    mount_source: "^/l/".to_string(),
                    mount_point: "^/l/".to_string(),
                    driver: "local".to_string(),
                    fstype: "local".to_string(),
                    options: Vec::new(),
                    source: "local".to_string(),
                },
                config_map: config_map(),
                confidential_config_map: config_map(),
            },
            SharedFiles { source_path: "^/s/".to_string() },
            KataConfig { confidential_guest: false },
        )
        .unwrap(),
    }
}

#[test]
fn the_host_name_pattern_of_a_deployment() {
    let pattern = deployment("myapp").get_host_name();
    assert_eq!(pattern, "^myapp-[a-z0-9]*-[a-z0-9]{5}$");
    let re = regex::Regex::new(&pattern).unwrap();
    assert!(re.is_match("myapp-7d4b9c8f7-abcde"));
    assert!(!re.is_match("myapp-abcde"));
}

#[test]
fn the_host_name_pattern_of_other_kinds() {
    let daemon = DaemonSet {
        api_version: "apps/v1".to_string(),
        kind: "DaemonSet".to_string(),
        metadata: meta("agent"),
        spec: DaemonSetSpec {
            selector: None,
            template: PodTemplateSpec { metadata: meta(""), spec: pod_spec(Vec::new(), None) },
            min_ready_seconds: None,
            update_strategy: None,
            revision_history_limit: None,
        },
        doc_mapping: YamlValue::Null,
        registry_containers: Vec::new(),
    };
    assert_eq!(daemon.get_host_name(), "^agent-[a-z0-9]{5}$");
    let re = regex::Regex::new(&daemon.get_host_name()).unwrap();
    assert!(re.is_match("agent-x7k2p"));
    assert!(!re.is_match("agent-7d4b9c8f7-abcde"));
    assert_eq!(daemon.get_sandbox_name(), None);
    assert_eq!(daemon.get_namespace(), "default");

    let p = pod("web");
    assert_eq!(p.get_host_name(), "web");
    assert_eq!(p.get_sandbox_name(), Some("web".to_string()));
    let resource = K8sResource::Pod(p);
    assert_eq!(resource.get_host_name(), Some("web".to_string()));
    assert_eq!(resource.get_metadata_name(), Some("web".to_string()));
    assert_eq!(resource.get_namespace(), Some("default".to_string()));
    assert_eq!(resource.get_kind(), ResourceKind::Pod);
    let none = K8sResource::NoPolicy(NoPolicyResource { yaml: "kind: Service\n".to_string() });
    assert_eq!(none.get_host_name(), None);
    assert_eq!(none.get_sandbox_name(), None);
    assert!(none.get_pod_spec().is_none());
}

#[test]
fn a_resource_with_a_repeated_annotation_is_not_valid() {
    let mut p = pod("web");
    assert!(K8sResource::Pod(pod("web")).is_valid());
    p.metadata.annotations = Some(genpolicy::annotations::Annotations {
        entries: vec![("a".to_string(), "1".to_string()), ("a".to_string(), "2".to_string())],
    });
    let list = List {
        api_version: "v1".to_string(),
        kind: "List".to_string(),
        items: vec![YamlValue::Null, YamlValue::Null],
        resources: vec![K8sResource::Pod(pod("ok")), K8sResource::Pod(p)],
    };
    assert!(!K8sResource::List(list).is_valid());
    assert!(K8sResource::NoPolicy(NoPolicyResource { yaml: String::new() }).is_valid());
}

#[test]
fn names_and_namespaces_have_their_defaults() {
    let mut m = meta("x");
    assert_eq!(m.get_name(), "x");
    m.name = None;
    assert_eq!(m.get_name(), "");
    m.generate_name = Some("x-".to_string());
    assert_eq!(m.get_name(), "$(generated-name)");
    assert_eq!(m.get_namespace(), "default");
    m.namespace = Some("prod".to_string());
    assert_eq!(m.get_namespace(), "prod");
}

#[test]
fn kinds_are_dispatched_by_name() {
    assert_eq!(resource_kind("Pod"), Ok(ResourceKind::Pod));
    assert_eq!(resource_kind("Deployment"), Ok(ResourceKind::Deployment));
    assert_eq!(resource_kind("DaemonSet"), Ok(ResourceKind::DaemonSet));
    assert_eq!(resource_kind("StatefulSet"), Ok(ResourceKind::StatefulSet));
    assert_eq!(resource_kind("Job"), Ok(ResourceKind::Job));
    assert_eq!(resource_kind("ReplicaSet"), Ok(ResourceKind::ReplicaSet));
    assert_eq!(resource_kind("ReplicationController"), Ok(ResourceKind::ReplicationController));
    assert_eq!(resource_kind("List"), Ok(ResourceKind::List));
    assert_eq!(resource_kind("ConfigMap"), Ok(ResourceKind::ConfigMap));
    assert_eq!(resource_kind("Secret"), Ok(ResourceKind::Secret));
    for kind in [
        "ClusterRole",
        "ClusterRoleBinding",
        "LimitRange",
        "Namespace",
        "PersistentVolume",
        "PersistentVolumeClaim",
        "PriorityClass",
        "ResourceQuota",
        "RoleBinding",
        "Service",
        "ServiceAccount",
    ] {
        assert_eq!(resource_kind(kind), Ok(ResourceKind::NoPolicy));
    }
    for kind in ["CronJob", "pod", "", "Role"] {
        assert_eq!(
            resource_kind(kind),
            Err(PolicyError::UnsupportedResourceKind(kind.to_string()))
        );
    }
}

#[test]
fn the_header_of_a_document_is_read() {
    let document = map(vec![("apiVersion", text("apps/v1")), ("kind", text("Deployment"))]);
    let header = yaml::get_document_header(&document).unwrap();
    assert_eq!(header.api_version, "apps/v1");
    assert_eq!(header.kind, "Deployment");
    assert_eq!(resource_kind(&header.kind), Ok(ResourceKind::Deployment));
    assert_eq!(
        yaml::get_document_header(&map(vec![("apiVersion", text("v1"))])),
        Err(PolicyError::MalformedField("kind".to_string()))
    );
    assert_eq!(
        yaml::get_document_header(&map(vec![("kind", text("Pod"))])),
        Err(PolicyError::MalformedField("apiVersion".to_string()))
    );
    assert_eq!(
        yaml::get_document_header(&map(vec![("kind", YamlValue::Null), ("apiVersion", text("v1"))])),
        Err(PolicyError::MalformedField("kind".to_string()))
    );
    assert_eq!(
        yaml::get_document_header(&text("Pod")),
        Err(PolicyError::MalformedField("kind".to_string()))
    );

    let header = yaml::get_yaml_header("apiVersion: v1\nkind: Pod\nmetadata:\n  name: web\n").unwrap();
    assert_eq!(header.api_version, "v1");
    assert_eq!(header.kind, "Pod");
    assert_eq!(
        yaml::get_yaml_header("kind: Pod\n"),
        Err(PolicyError::MalformedField("apiVersion".to_string()))
    );
    assert!(matches!(yaml::get_yaml_header("kind: [Pod\n"), Err(PolicyError::MalformedField(_))));
    assert!(matches!(
        yaml::get_yaml_header("kind: Pod\n---\nkind: Job\n"),
        Err(PolicyError::MalformedField(_))
    ));
}

#[test]
fn unknown_fields_are_refused_unless_silenced() {
    assert_eq!(handle_unused_field("spec.foo", true), Ok(()));
    assert_eq!(
        handle_unused_field("spec.foo", false),
        Err(PolicyError::MalformedField("spec.foo".to_string()))
    );
}

#[test]
fn init_puts_the_sandbox_first_and_init_containers_next() {
    let mut spec = pod_spec(
        vec![container("a", "img-a"), container("b", "img-b")],
        Some(vec![container("i1", "init-1"), container("i2", "init-2")]),
    );
    let images = yaml::k8s_resource_init(&mut spec).unwrap();
    let names: Vec<&str> = spec.containers.iter().map(|c| c.name.as_str()).collect();
    assert_eq!(names, vec!["", "i1", "i2", "a", "b"]);
    assert_eq!(spec.containers[0], pause_container());
    assert_eq!(images, vec!["registry.k8s.io/pause:3.6", "init-1", "init-2", "img-a", "img-b"]);
    assert_eq!(spec.init_containers.as_ref().unwrap().len(), 2);
}

#[test]
fn an_image_that_is_no_reference_is_refused() {
    for image in ["busybox", "docker.io/library/nginx:1.25", "registry.k8s.io/pause:3.6", "localhost:5000/app@sha256:0123456789abcdef0123456789abcdef0123456789abcdef0123456789abcdef"] {
        assert_eq!(check_image_reference(image), Ok(()));
    }
    for image in ["", "app@sha256:abc", "app@md5:0123456789abcdef0123456789abcdef"] {
        assert_eq!(
            check_image_reference(image),
            Err(PolicyError::ImageResolution(image.to_string()))
        );
    }
    for image in ["UPPER/case", "app:", "a b", "a//b", "host:5000/x:y:z", "-x"] {
        assert_eq!(
            check_image_reference(image).is_ok(),
            image.parse::<oci_distribution::Reference>().is_ok(),
            "image {:?}",
            image
        );
    }
    let mut spec = pod_spec(
        vec![container("a", "img-a"), container("b", "app@sha256:abc")],
        Some(vec![container("i", "init-1")]),
    );
    let before = pod_spec(
        vec![container("a", "img-a"), container("b", "app@sha256:abc")],
        Some(vec![container("i", "init-1")]),
    );
    assert_eq!(
        yaml::k8s_resource_init(&mut spec),
        Err(PolicyError::ImageResolution("app@sha256:abc".to_string()))
    );
    assert_eq!(spec, before);
    let mut resource = K8sResource::Pod(pod("web"));
    if let K8sResource::Pod(p) = &mut resource {
        p.spec.containers[0].image = "".to_string();
    }
    assert_eq!(
        resource.init(&pod_document("web")),
        Err(PolicyError::ImageResolution("".to_string()))
    );
}

#[test]
fn the_sandbox_container_is_read_only() {
    assert_eq!(get_pause_image_ref(), "registry.k8s.io/pause:3.6");
    let pause = pause_container();
    assert_eq!(pause.image, "registry.k8s.io/pause:3.6");
    assert_eq!(
        pause.security_context,
        Some(SecurityContext { read_only_root_filesystem: Some(true), privileged: None })
    );
    assert!(pause.read_only_root_filesystem());
    assert!(!pause.is_privileged());
    let mut containers = vec![container("a", "img")];
    add_pause_container(&mut containers);
    assert_eq!(containers.len(), 2);
    assert_eq!(containers[0], pause);
    assert_eq!(containers[1].name, "a");
}

#[test]
fn a_pod_goes_through_its_whole_life() {
    let mut resource = K8sResource::Pod(pod("web"));
    let images = resource.init(&pod_document("web")).unwrap();
    assert_eq!(images, vec!["registry.k8s.io/pause:3.6", "img:1"]);
    // Without image metadata nothing is resolved.
    assert!(matches!(resource.generate_policy(&agent()), Err(PolicyError::ImageResolution(_))));
    resource.set_registry_containers(vec![image(), image()]);
    let data = resource.generate_policy(&agent()).unwrap();
    let policies = match data {
        PolicyData::Containers(policies) => policies,
        other => panic!("unexpected {:?}", other),
    };
    assert_eq!(policies.len(), 2);
    assert_eq!(
        policies[0].annotations.get("io.kubernetes.cri.container-type"),
        Some(&"sandbox".to_string())
    );
    assert_eq!(
        policies[1].annotations.get("io.kubernetes.cri.container-type"),
        Some(&"container".to_string())
    );
    assert_eq!(policies[0].mounts.len(), 6);
    assert_eq!(policies[1].mounts.len(), 7);

    let encoded = agent().encode_policy("{}");
    let written = resource.document_with_policy(&encoded).unwrap();
    match written {
        Serialized::Document(document) => {
            assert_eq!(get_policy_annotation(&document, "metadata"), Some(encoded.clone()));
            assert_eq!(document.get("kind"), Some(&text("Pod")));
        }
        other => panic!("unexpected {:?}", other),
    }
    assert_eq!(
        resource.serialize(&encoded),
        Ok(format!(
            "kind: Pod\nmetadata:\n  name: web\n  annotations:\n    io.katacontainers.config.agent.policy: {}\nspec: {{}}\n",
            encoded
        ))
    );
}

#[test]
fn a_deployment_is_annotated_at_its_template() {
    let mut d = deployment("myapp");
    let document = map(vec![
        ("metadata", map(vec![("name", text("myapp"))])),
        ("spec", map(vec![("template", map(vec![("metadata", map(vec![]))]))])),
    ]);
    d.init(&document).unwrap();
    let written = d.document_with_policy("p").unwrap();
    assert_eq!(get_policy_annotation(&written, "spec.template.metadata"), Some("p".to_string()));
    assert_eq!(get_policy_annotation(&written, "metadata"), None);
    assert_eq!(
        d.serialize("p"),
        Ok("metadata:\n  name: myapp\nspec:\n  template:\n    metadata:\n      annotations:\n        io.katacontainers.config.agent.policy: p\n"
            .to_string())
    );
    // Writing out does not change the resource.
    assert_eq!(d.doc_mapping, document);
    let (images, containers) = d.get_containers();
    assert_eq!(images.len(), 0);
    assert_eq!(containers.len(), 2);
    assert!(d.get_pod_spec().is_some());

    let mut bare = deployment("myapp");
    bare.init(&map(vec![("spec", map(vec![]))])).unwrap();
    assert_eq!(bare.serialize("p"), Err(PolicyError::AnnotationPath("template".to_string())));
    assert_eq!(
        bare.document_with_policy("p"),
        Err(PolicyError::AnnotationPath("template".to_string()))
    );
}

#[test]
fn resources_without_a_workload_are_passed_through() {
    let yaml_text = "apiVersion: v1\nkind: Service\nmetadata:\n  name: s\n";
    let mut resource = K8sResource::NoPolicy(NoPolicyResource { yaml: yaml_text.to_string() });
    assert_eq!(resource.init(&YamlValue::Null), Ok(Vec::new()));
    assert_eq!(resource.generate_policy(&agent()), Ok(PolicyData::NoPolicy));
    assert_eq!(
        resource.document_with_policy("anything"),
        Ok(Serialized::Text(yaml_text.to_string()))
    );
    assert_eq!(resource.serialize("anything"), Ok(yaml_text.to_string()));
    let plain = NoPolicyResource { yaml: yaml_text.to_string() };
    assert_eq!(plain.generate_policy(&agent()), "");
    assert_eq!(plain.serialize("p"), yaml_text);
}

fn initialised_pod(name: &str) -> K8sResource {
    let mut resource = K8sResource::Pod(pod(name));
    resource.init(&pod_document(name)).unwrap();
    resource.set_registry_containers(vec![image(), image()]);
    resource
}

fn list_of(names: &[&str]) -> List {
    let mut list = List {
        api_version: "v1".to_string(),
        kind: "List".to_string(),
        items: names.iter().map(|n| pod_document(n)).collect(),
        resources: Vec::new(),
    };
    let resources = names.iter().map(|n| initialised_pod(n)).collect();
    assert_eq!(list.init(resources), Ok(()));
    list
}

#[test]
fn a_list_writes_out_one_document_for_each_item() {
    for names in [vec!["a"], vec!["a", "b"], vec!["a", "b", "c", "d"]] {
        let list = list_of(&names);
        let data = list.generate_policy(&agent()).unwrap();
        assert_eq!(data.len(), names.len());
        let policies: Vec<String> =
            (0..names.len()).map(|i| agent().encode_policy(&format!("{{\"item\":{}}}", i))).collect();
        let joined = join_policies(&policies);
        assert_eq!(joined.matches(':').count(), names.len() - 1);
        let document = list.document_with_policy(&joined).unwrap();
        assert_eq!(document.get("apiVersion"), Some(&text("v1")));
        assert_eq!(document.get("kind"), Some(&text("List")));
        let items = document.get("items").unwrap().as_sequence().unwrap();
        assert_eq!(items.len(), names.len());
        for (i, item) in items.iter().enumerate() {
            assert_eq!(get_policy_annotation(item, "metadata"), Some(policies[i].clone()));
        }
        let rendered = list.serialize(&joined).unwrap();
        let parsed: serde_yaml::Value = serde_yaml::from_str(&rendered).unwrap();
        assert_eq!(parsed["items"].as_sequence().unwrap().len(), names.len());
        assert_eq!(
            parsed["items"][0]["metadata"]["annotations"]["io.katacontainers.config.agent.policy"],
            serde_yaml::Value::String(policies[0].clone())
        );
    }
}

#[test]
fn a_list_refuses_a_policy_count_other_than_its_items() {
    let list = list_of(&["a", "b"]);
    assert_eq!(
        list.serialize("only-one"),
        Err(PolicyError::PolicyCount { expected: 2, found: 1 })
    );
    assert_eq!(list.serialize("x:y:z"), Err(PolicyError::PolicyCount { expected: 2, found: 3 }));
    let empty = list_of(&[]);
    assert_eq!(empty.serialize(""), Err(PolicyError::PolicyCount { expected: 0, found: 1 }));
    let mut short = List {
        api_version: "v1".to_string(),
        kind: "List".to_string(),
        items: vec![pod_document("a")],
        resources: Vec::new(),
    };
    assert_eq!(short.init(Vec::new()), Err(PolicyError::PolicyCount { expected: 1, found: 0 }));
}

#[test]
fn a_list_fails_with_the_failure_of_its_first_failing_item() {
    // The documents of the second and third items lack the metadata that takes the policy.
    let mut second = K8sResource::Pod(pod("b"));
    second.init(&map(vec![("kind", text("Pod"))])).unwrap();
    second.set_registry_containers(vec![image(), image()]);
    let mut third = K8sResource::Deployment(deployment("c"));
    third.init(&map(vec![("kind", text("Deployment"))])).unwrap();
    third.set_registry_containers(vec![image(), image()]);
    let mut list = List {
        api_version: "v1".to_string(),
        kind: "List".to_string(),
        items: vec![pod_document("a"), YamlValue::Null, YamlValue::Null],
        resources: Vec::new(),
    };
    list.init(vec![initialised_pod("a"), second, third]).unwrap();
    assert_eq!(
        list.document_with_policy("x:y:z"),
        Err(PolicyError::AnnotationPath("metadata".to_string()))
    );
    assert_eq!(list.serialize("x:y:z"), Err(PolicyError::AnnotationPath("metadata".to_string())));
    let resource = K8sResource::List(list);
    assert_eq!(
        resource.serialize("x:y:z"),
        Err(PolicyError::AnnotationPath("metadata".to_string()))
    );
    assert_eq!(resource.serialize("x:y"), Err(PolicyError::PolicyCount { expected: 3, found: 2 }));

    // Without image metadata the second item cannot be resolved, and so the list cannot.
    let mut unresolved = K8sResource::Pod(pod("b"));
    unresolved.init(&pod_document("b")).unwrap();
    let mut list = List {
        api_version: "v1".to_string(),
        kind: "List".to_string(),
        items: vec![pod_document("a"), pod_document("b")],
        resources: Vec::new(),
    };
    list.init(vec![initialised_pod("a"), unresolved]).unwrap();
    assert!(matches!(list.generate_policy(&agent()), Err(PolicyError::ImageResolution(_))));
    assert!(matches!(
        K8sResource::List(list).generate_policy(&agent()),
        Err(PolicyError::ImageResolution(_))
    ));
}

#[test]
fn a_list_keeps_the_documents_of_items_without_a_workload() {
    let service = map(vec![("kind", text("Service"))]);
    let mut list = List {
        api_version: "v1".to_string(),
        kind: "List".to_string(),
        items: vec![service.duplicate(), pod_document("a")],
        resources: Vec::new(),
    };
    list.init(vec![
        K8sResource::NoPolicy(NoPolicyResource { yaml: "kind: Service\n".to_string() }),
        initialised_pod("a"),
    ])
    .unwrap();
    let resource = K8sResource::List(list);
    assert_eq!(resource.get_kind(), ResourceKind::List);
    let data = resource.generate_policy(&agent()).unwrap();
    match &data {
        PolicyData::Items(items) => {
            assert_eq!(items.len(), 2);
            assert_eq!(items[0], PolicyData::NoPolicy);
            assert!(matches!(items[1], PolicyData::Containers(_)));
        }
        other => panic!("unexpected {:?}", other),
    }
    assert_eq!(
        resource.serialize(":cG9saWN5"),
        Ok("apiVersion: v1\nkind: List\nitems:\n- kind: Service\n- kind: Pod\n  metadata:\n    name: a\n    annotations:\n      io.katacontainers.config.agent.policy: cG9saWN5\n  spec: {}\n"
            .to_string())
    );
    let written = resource.document_with_policy(":cG9saWN5").unwrap();
    match written {
        Serialized::Document(document) => {
            let items = document.get("items").unwrap().as_sequence().unwrap();
            assert_eq!(items[0], service);
            assert_eq!(get_policy_annotation(&items[1], "metadata"), Some("cG9saWN5".to_string()));
        }
        other => panic!("unexpected {:?}", other),
    }
}

#[test]
fn allowed_commands_go_to_the_containers_they_name() {
    let mut p = pod("web");
    p.spec.containers = vec![container("a", "img"), container("b", "img"), container("c", "img")];
    p.spec.containers[2].allowed_commands = Some(vec!["keep".to_string()]);
    p.set_allowed_commands(&vec![
        ContainerExecCommands { container_name: "a".to_string(), exec_commands: vec!["ls".to_string()] },
        ContainerExecCommands { container_name: "x".to_string(), exec_commands: vec!["rm".to_string()] },
        ContainerExecCommands {
            container_name: "a".to_string(),
            exec_commands: vec!["ps".to_string(), "top".to_string()],
        },
    ]);
    assert_eq!(p.spec.containers[0].allowed_commands, Some(vec!["ps".to_string(), "top".to_string()]));
    assert_eq!(p.spec.containers[1].allowed_commands, None);
    assert_eq!(p.spec.containers[2].allowed_commands, Some(vec!["keep".to_string()]));
    assert_eq!(p.spec.containers[0].get_exec_commands(), vec!["ps".to_string(), "top".to_string()]);
    assert!(p.spec.containers[1].get_exec_commands().is_empty());
}

#[test]
fn compressed_layers_are_paired_with_their_identifiers() {
    let gzip = "application/vnd.docker.image.rootfs.diff.tar.gzip";
    let layer = |media_type: &str, digest: &str| LayerDescriptor {
        media_type: media_type.to_string(),
        digest: digest.to_string(),
    };
    let config = |ids: &[&str]| DockerConfigLayer {
        architecture: "amd64".to_string(),
        config: DockerImageConfig {
            user: None,
            tty: None,
            env: Vec::new(),
            cmd: None,
            working_dir: None,
            entrypoint: None,
        },
        rootfs: DockerRootfs {
            rootfs_type: "layers".to_string(),
            diff_ids: ids.iter().map(|s| s.to_string()).collect(),
        },
    };
    let layers = vec![
        layer(gzip, "sha256:1"),
        layer("application/vnd.oci.image.layer.v1.tar", "sha256:2"),
        layer(gzip, "sha256:3"),
    ];
    assert_eq!(
        pair_image_layers(&layers, &config(&["id-a", "id-b", "id-c"])),
        Ok(vec![
            ("id-a".to_string(), "sha256:1".to_string()),
            ("id-b".to_string(), "sha256:3".to_string()),
        ])
    );
    assert!(matches!(
        pair_image_layers(&layers, &config(&["id-a"])),
        Err(PolicyError::ImageResolution(_))
    ));
    assert_eq!(pair_image_layers(&Vec::new(), &config(&[])), Ok(Vec::new()));
    assert_eq!(get_layer_file_name("sha256:abc"), "sha256-abc");
    assert_eq!(get_layer_file_name("a:b:c"), "a-b-c");
    assert_eq!(image().get_image_layers(), vec![ImageLayer {
        diff_id: "sha256:aa".to_string(),
        verity_hash: "beef".to_string(),
    }]);
}

#[test]
fn the_cluster_rules_allow_the_service_variables() {
    let sandbox = get_rules(true);
    assert_eq!(sandbox.process, None);
    let rules = get_rules(false);
    let process = rules.process.unwrap();
    assert_eq!(process.user.uid, 0);
    assert_eq!(process.user.gid, 0);
    assert_eq!(process.cwd, "");
    assert_eq!(process.env.len(), 8);
    assert_eq!(process.env[1], "^[A-Z0-9_]+_SERVICE_PORT=[0-9]+");
    assert!(regex::Regex::new(&process.env[1]).unwrap().is_match("REDIS_SERVICE_PORT=6379"));
}

#[test]
fn the_answer_of_a_trial_run_is_taken_apart() {
    let a = map(vec![("kind", text("Pod"))]);
    let b = map(vec![("kind", text("Service"))]);
    let answer = map(vec![
        ("kind", text("List")),
        ("items", YamlValue::Sequence(vec![a.duplicate(), b.duplicate()])),
    ]);
    assert_eq!(dry_run_documents(&answer), vec![a.duplicate(), b]);
    assert_eq!(dry_run_documents(&a), vec![a.duplicate()]);
    let odd = map(vec![("items", text("none"))]);
    assert_eq!(dry_run_documents(&odd), vec![odd.duplicate()]);
}
