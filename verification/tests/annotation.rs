use genpolicy::annotations::Annotations;
use genpolicy::document::YamlValue;
use genpolicy::error::PolicyError;
use genpolicy::yaml::{add_policy_annotation, get_policy_annotation, remove_policy_annotation};

const POLICY_KEY: &str = "io.katacontainers.config.agent.policy";

fn text(s: &str) -> YamlValue {
    YamlValue::String(s.to_string())
}

fn map(entries: Vec<(&str, YamlValue)>) -> YamlValue {
    YamlValue::Mapping(entries.into_iter().map(|(k, v)| (text(k), v)).collect())
}

fn deployment_document() -> YamlValue {
    map(vec![
        ("apiVersion", text("apps/v1")),
        ("kind", text("Deployment")),
        ("metadata", map(vec![("name", text("myapp"))])),
        (
            "spec",
            map(vec![
                ("replicas", YamlValue::Number(serde_yaml::Number::from(3u64))),
                (
                    "template",
                    map(vec![
                        (
                            "metadata",
                            map(vec![
                                ("labels", map(vec![("app", text("myapp"))])),
                                (
                                    "annotations",
                                    map(vec![("team", text("blue")), ("tier", text("web"))]),
                                ),
                                ("name", text("pod")),
                            ]),
                        ),
                        ("spec", map(vec![("containers", YamlValue::Sequence(vec![]))])),
                    ]),
                ),
            ]),
        ),
    ])
}

#[test]
fn an_injected_policy_reads_back_unchanged() {
    let policy = "cGFja2FnZSBhZ2VudF9wb2xpY3kK+/==";
    let mut document = deployment_document();
    assert_eq!(get_policy_annotation(&document, "spec.template.metadata"), None);
    assert_eq!(add_policy_annotation(&mut document, "spec.template.metadata", policy), Ok(()));
    assert_eq!(
        get_policy_annotation(&document, "spec.template.metadata"),
        Some(policy.to_string())
    );
}

#[test]
fn injection_leaves_siblings_and_their_order_alone() {
    let mut document = deployment_document();
    add_policy_annotation(&mut document, "spec.template.metadata", "p").unwrap();
    let expected = map(vec![
        ("apiVersion", text("apps/v1")),
        ("kind", text("Deployment")),
        ("metadata", map(vec![("name", text("myapp"))])),
        (
            "spec",
            map(vec![
                ("replicas", YamlValue::Number(serde_yaml::Number::from(3u64))),
                (
                    "template",
                    map(vec![
                        (
                            "metadata",
                            map(vec![
                                ("labels", map(vec![("app", text("myapp"))])),
                                (
                                    "annotations",
                                    map(vec![
                                        ("team", text("blue")),
                                        ("tier", text("web")),
                                        (POLICY_KEY, text("p")),
                                    ]),
                                ),
                                ("name", text("pod")),
                            ]),
                        ),
                        ("spec", map(vec![("containers", YamlValue::Sequence(vec![]))])),
                    ]),
                ),
            ]),
        ),
    ]);
    assert_eq!(document, expected);
}

#[test]
fn an_earlier_policy_is_replaced_in_place() {
    let mut document = map(vec![(
        "metadata",
        map(vec![(
            "annotations",
            map(vec![("a", text("1")), (POLICY_KEY, text("old")), ("b", text("2"))]),
        )]),
    )]);
    add_policy_annotation(&mut document, "metadata", "new").unwrap();
    assert_eq!(
        document,
        map(vec![(
            "metadata",
            map(vec![(
                "annotations",
                map(vec![("a", text("1")), (POLICY_KEY, text("new")), ("b", text("2"))]),
            )]),
        )])
    );
}

#[test]
fn annotations_are_created_where_there_are_none() {
    let mut document = map(vec![("metadata", map(vec![("name", text("pod"))]))]);
    add_policy_annotation(&mut document, "metadata", "p").unwrap();
    assert_eq!(
        document,
        map(vec![(
            "metadata",
            map(vec![("name", text("pod")), ("annotations", map(vec![(POLICY_KEY, text("p"))]))]),
        )])
    );

    // Annotations that are no mapping are replaced by one.
    let mut document = map(vec![(
        "metadata",
        map(vec![("annotations", YamlValue::Null), ("name", text("pod"))]),
    )]);
    add_policy_annotation(&mut document, "metadata", "p").unwrap();
    assert_eq!(
        document,
        map(vec![(
            "metadata",
            map(vec![("annotations", map(vec![(POLICY_KEY, text("p"))])), ("name", text("pod"))]),
        )])
    );
}

#[test]
fn a_path_that_does_not_resolve_is_refused() {
    let mut document = deployment_document();
    let before = deployment_document();
    assert_eq!(
        add_policy_annotation(&mut document, "spec.jobTemplate.metadata", "p"),
        Err(PolicyError::AnnotationPath("jobTemplate".to_string()))
    );
    assert_eq!(document, before);
    assert_eq!(
        add_policy_annotation(&mut document, "spec.replicas.metadata", "p"),
        Err(PolicyError::AnnotationPath("metadata".to_string()))
    );
    assert_eq!(
        add_policy_annotation(&mut document, "spec.replicas", "p"),
        Err(PolicyError::AnnotationPath("annotations".to_string()))
    );
    assert_eq!(
        add_policy_annotation(&mut document, "", "p"),
        Err(PolicyError::AnnotationPath("".to_string()))
    );
    assert_eq!(document, before);
    let mut pod = map(vec![("kind", text("Pod"))]);
    assert_eq!(
        add_policy_annotation(&mut pod, "metadata", "p"),
        Err(PolicyError::AnnotationPath("metadata".to_string()))
    );
}

#[test]
fn tags_are_looked_through() {
    let mut document = map(vec![(
        "metadata",
        YamlValue::Tagged("!meta".to_string(), Box::new(map(vec![("name", text("pod"))]))),
    )]);
    add_policy_annotation(&mut document, "metadata", "p").unwrap();
    assert_eq!(
        document,
        map(vec![(
            "metadata",
            YamlValue::Tagged(
                "!meta".to_string(),
                Box::new(map(vec![
                    ("name", text("pod")),
                    ("annotations", map(vec![(POLICY_KEY, text("p"))])),
                ])),
            ),
        )])
    );
    assert_eq!(get_policy_annotation(&document, "metadata"), Some("p".to_string()));
}

#[test]
fn only_text_keys_are_found() {
    let mut document = YamlValue::Mapping(vec![
        (YamlValue::Number(serde_yaml::Number::from(1u64)), text("one")),
        (YamlValue::Bool(true), text("yes")),
        (text("metadata"), map(vec![])),
    ]);
    assert_eq!(document.get("1"), None);
    assert_eq!(document.get("true"), None);
    assert!(document.get("metadata").is_some());
    assert!(document.set("true", text("added")));
    assert_eq!(document.get("true"), Some(&text("added")));
    let mut scalar = text("x");
    assert!(!scalar.set("k", YamlValue::Null));
    assert_eq!(scalar, text("x"));
}

#[test]
fn the_policy_annotation_is_taken_out_of_a_map() {
    let mut annotations = Annotations::new();
    annotations.insert("a".to_string(), "1".to_string());
    annotations.insert(POLICY_KEY.to_string(), "p".to_string());
    annotations.insert("b".to_string(), "2".to_string());
    remove_policy_annotation(&mut annotations);
    assert_eq!(annotations.entries, vec![("a".to_string(), "1".to_string()), ("b".to_string(), "2".to_string())]);
    remove_policy_annotation(&mut annotations);
    assert_eq!(annotations.entries.len(), 2);
}

#[test]
fn annotation_maps_keep_one_value_for_each_key() {
    let mut annotations = Annotations::new();
    annotations.insert("k".to_string(), "1".to_string());
    annotations.insert("k".to_string(), "2".to_string());
    annotations.insert_if_absent("k".to_string(), "3".to_string());
    annotations.insert_if_absent("j".to_string(), "4".to_string());
    assert_eq!(annotations.get("k"), Some(&"2".to_string()));
    assert_eq!(annotations.get("j"), Some(&"4".to_string()));
    assert!(annotations.contains_key("j"));
    assert!(!annotations.contains_key("i"));
    assert_eq!(annotations.entries.len(), 2);
    annotations.remove("k");
    assert_eq!(annotations.get("k"), None);
}

#[test]
fn a_document_is_rendered_as_yaml() {
    let mut document = map(vec![
        ("kind", text("Pod")),
        (
            "metadata",
            map(vec![("name", text("web")), ("labels", map(vec![("app", text("web"))]))]),
        ),
        (
            "spec",
            map(vec![
                ("replicas", YamlValue::Number(serde_yaml::Number::from(3u64))),
                ("ratio", YamlValue::Number(serde_yaml::Number::from(0.5f64))),
                ("debug", YamlValue::Bool(false)),
                ("nothing", YamlValue::Null),
                ("args", YamlValue::Sequence(vec![text("a"), text("b c")])),
                ("empty", map(vec![])),
            ]),
        ),
    ]);
    add_policy_annotation(&mut document, "metadata", "cG9saWN5").unwrap();
    let rendered = document.render().unwrap();
    assert_eq!(
        rendered,
        "kind: Pod\n\
         metadata:\n  name: web\n  labels:\n    app: web\n  annotations:\n    io.katacontainers.config.agent.policy: cG9saWN5\n\
         spec:\n  replicas: 3\n  ratio: 0.5\n  debug: false\n  nothing: null\n  args:\n  - a\n  - b c\n  empty: {}\n"
    );
    let parsed: serde_yaml::Value = serde_yaml::from_str(&rendered).unwrap();
    assert_eq!(
        parsed["metadata"]["annotations"][POLICY_KEY],
        serde_yaml::Value::String("cG9saWN5".to_string())
    );
    assert_eq!(parsed["spec"]["replicas"], serde_yaml::Value::Number(3u64.into()));
}

#[test]
fn a_copy_of_a_document_holds_the_same() {
    let document = map(vec![
        ("count", YamlValue::Number(serde_yaml::Number::from(3u64))),
        ("below", YamlValue::Number(serde_yaml::Number::from(-7i64))),
        ("ratio", YamlValue::Number(serde_yaml::Number::from(0.25f64))),
        ("list", YamlValue::Sequence(vec![text("a"), YamlValue::Bool(true), YamlValue::Null])),
        ("tagged", YamlValue::Tagged("!t".to_string(), Box::new(map(vec![("k", text("v"))])))),
    ]);
    let copy = document.duplicate();
    assert_eq!(copy, document);
    assert_eq!(copy.get("below"), Some(&YamlValue::Number(serde_yaml::Number::from(-7i64))));
    assert_eq!(copy.render(), document.render());
    assert!(document.is_mapping());
    assert!(!text("x").is_mapping());
    assert_eq!(text("x").as_str(), Some("x"));
    assert_eq!(document.as_str(), None);
}

#[test]
fn a_document_with_an_empty_tag_has_no_text() {
    let tagged = |tag: &str| {
        map(vec![("metadata", YamlValue::Tagged(tag.to_string(), Box::new(map(vec![]))))])
    };
    assert!(tagged("!meta").has_named_tags());
    assert_eq!(tagged("!meta").render(), Some("metadata: !meta {}\n".to_string()));
    assert!(!tagged("").has_named_tags());
    assert_eq!(tagged("").render(), None);
    assert_eq!(
        genpolicy::yaml::render_document(&tagged("")),
        Err(PolicyError::MalformedField("document".to_string()))
    );
    let nested = YamlValue::Sequence(vec![text("a"), tagged("x"), tagged("")]);
    assert!(!nested.has_named_tags());
}

#[test]
fn a_document_is_read_from_yaml() {
    let parsed = YamlValue::parse(
        "kind: Pod\nmetadata:\n  name: web\n  labels: {}\nspec:\n  replicas: 3\n  on: true\n  none: ~\n  args: [a, 'b c']\n  tagged: !meta x\n",
    )
    .unwrap();
    let expected = map(vec![
        ("kind", text("Pod")),
        ("metadata", map(vec![("name", text("web")), ("labels", map(vec![]))])),
        (
            "spec",
            map(vec![
                ("replicas", YamlValue::Number(serde_yaml::Number::from(3u64))),
                ("on", YamlValue::Bool(true)),
                ("none", YamlValue::Null),
                ("args", YamlValue::Sequence(vec![text("a"), text("b c")])),
                ("tagged", YamlValue::Tagged("!meta".to_string(), Box::new(text("x")))),
            ]),
        ),
    ]);
    assert_eq!(parsed, expected);
    assert!(parsed.has_named_tags());
    assert_eq!(YamlValue::parse(&parsed.render().unwrap()), Ok(expected));
    assert!(YamlValue::parse("a: [1").is_err());
    assert_eq!(YamlValue::parse(""), Ok(YamlValue::Null));
}

#[test]
fn a_policy_goes_through_text_and_back() {
    let text_in = "apiVersion: v1\nkind: Pod\nmetadata:\n  name: web\n  annotations:\n    team: blue\nspec:\n  containers: []\n";
    let mut document = genpolicy::yaml::parse_document(text_in).unwrap();
    add_policy_annotation(&mut document, "metadata", "cG9saWN5").unwrap();
    let text_out = genpolicy::yaml::render_document(&document).unwrap();
    assert_eq!(
        text_out,
        "apiVersion: v1\nkind: Pod\nmetadata:\n  name: web\n  annotations:\n    team: blue\n    io.katacontainers.config.agent.policy: cG9saWN5\nspec:\n  containers: []\n"
    );
    let again = genpolicy::yaml::parse_document(&text_out).unwrap();
    assert_eq!(get_policy_annotation(&again, "metadata"), Some("cG9saWN5".to_string()));
}
